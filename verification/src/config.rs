//! The plain-text configuration: one `key value` pair per line.
//!
//! Lines are separated by line feeds. Each line is taken without the white
//! space around it; blank lines and lines that start with `#` say nothing.
//! The first space or tab of a line ends its key. The value begins behind the
//! run of spaces and tabs that follows the key and reaches to the end of the
//! line, so that neither key nor value holds any of the separators between
//! them. A line without a separator has no value and says nothing either. Of
//! several lines with the same key the last one counts, and keys other than
//! `boot`, `main` and `ctrlaltdel` are passed over.

use crate::text::{
    chars_of, is_space, lemma_line_len_is, lemma_lines_concat, lemma_lines_step,
    lemma_trimmed_is_bare, line_end, lines, spells, trim_bounds, trimmed,
};
use vstd::prelude::*;

verus! {

/// The keys that a configuration knows.
#[derive(Clone, Copy, Debug, PartialEq, Eq, Structural)]
pub enum Key {
    /// Command run once at start-up.
    Boot,
    /// Command that is supervised and restarted.
    Main,
    /// Command run when a reboot is requested from the keyboard.
    CtrlAltDel,
}

impl Key {
    /// The word that stands for this key in the configuration text.
    pub open spec fn name(self) -> Seq<char> {
        match self {
            Key::Boot => "boot"@,
            Key::Main => "main"@,
            Key::CtrlAltDel => "ctrlaltdel"@,
        }
    }

    /// The word that stands for this key in the configuration text.
    pub fn as_str(&self) -> (word: &'static str)
        ensures
            word@ == self.name(),
    {
        match self {
            Key::Boot => "boot",
            Key::Main => "main",
            Key::CtrlAltDel => "ctrlaltdel",
        }
    }
}

/// The characters that separate key and value: space and tab.
pub open spec fn is_separator(c: char) -> bool {
    c == ' ' || c == '\t'
}

/// Number of characters of `s` before its first separator, its whole length
/// where it holds none.
pub open spec fn key_len(s: Seq<char>) -> int
    decreases s.len(),
{
    if s.len() == 0 || is_separator(s[0]) {
        0
    } else {
        1 + key_len(s.drop_first())
    }
}

/// `s` without the separators at its start.
pub open spec fn skip_separators(s: Seq<char>) -> Seq<char>
    decreases s.len(),
{
    if s.len() > 0 && is_separator(s[0]) {
        skip_separators(s.drop_first())
    } else {
        s
    }
}

/// Key and value that a line assigns, if it assigns anything: the key is what
/// stands before the first separator, the value what stands behind the
/// separators that follow the key.
pub open spec fn assignment(line: Seq<char>) -> Option<(Seq<char>, Seq<char>)> {
    let t = trimmed(line);
    let k = key_len(t);
    if t.len() == 0 || t[0] == '#' || k == t.len() {
        None
    } else {
        Some((t.take(k), skip_separators(t.skip(k))))
    }
}

/// The value that the last of `ls` to assign `key` gives it.
pub open spec fn last_value(ls: Seq<Seq<char>>, key: Seq<char>) -> Option<Seq<char>>
    decreases ls.len(),
{
    if ls.len() == 0 {
        None
    } else {
        match assignment(ls.last()) {
            Some((k, v)) if k == key => Some(v),
            _ => last_value(ls.drop_last(), key),
        }
    }
}

/// What a configuration holds, as mathematical values.
pub struct Settings {
    /// Value of the key `boot`.
    pub boot: Option<Seq<char>>,
    /// Value of the key `main`.
    pub main: Option<Seq<char>>,
    /// Value of the key `ctrlaltdel`.
    pub ctrlaltdel: Option<Seq<char>>,
}

impl Settings {
    /// The value of `key`, if it has one.
    pub open spec fn get(self, key: Key) -> Option<Seq<char>> {
        match key {
            Key::Boot => self.boot,
            Key::Main => self.main,
            Key::CtrlAltDel => self.ctrlaltdel,
        }
    }

    /// These settings with `key` set to `value`.
    pub open spec fn with(self, key: Key, value: Seq<char>) -> Settings {
        match key {
            Key::Boot => Settings { boot: Some(value), ..self },
            Key::Main => Settings { main: Some(value), ..self },
            Key::CtrlAltDel => Settings { ctrlaltdel: Some(value), ..self },
        }
    }

    /// Settings without any value.
    pub open spec fn none() -> Settings {
        Settings { boot: None, main: None, ctrlaltdel: None }
    }

    /// These settings, each replaced by that of `later` where `later` has
    /// one.
    pub open spec fn overridden_by(self, later: Settings) -> Settings {
        Settings {
            boot: if later.boot is Some {
                later.boot
            } else {
                self.boot
            },
            main: if later.main is Some {
                later.main
            } else {
                self.main
            },
            ctrlaltdel: if later.ctrlaltdel is Some {
                later.ctrlaltdel
            } else {
                self.ctrlaltdel
            },
        }
    }
}

/// The settings that the lines `ls` amount to.
pub open spec fn settings_of(ls: Seq<Seq<char>>) -> Settings {
    Settings {
        boot: last_value(ls, Key::Boot.name()),
        main: last_value(ls, Key::Main.name()),
        ctrlaltdel: last_value(ls, Key::CtrlAltDel.name()),
    }
}

/// The settings that a configuration text amounts to.
pub open spec fn parsed(text: Seq<char>) -> Settings {
    settings_of(lines(text))
}

/// The key that the word `name` stands for, if it stands for one.
pub open spec fn key_named(name: Seq<char>) -> Option<Key> {
    if name == Key::Boot.name() {
        Some(Key::Boot)
    } else if name == Key::Main.name() {
        Some(Key::Main)
    } else if name == Key::CtrlAltDel.name() {
        Some(Key::CtrlAltDel)
    } else {
        None
    }
}

/// The known key that a line sets, with its value.
pub open spec fn entry_of(line: Seq<char>) -> Option<(Key, Seq<char>)> {
    match assignment(line) {
        Some((name, value)) => match key_named(name) {
            Some(key) => Some((key, value)),
            None => None,
        },
        None => None,
    }
}

/// The commands that were configured.
#[derive(Clone, Debug, PartialEq, Eq)]
pub struct Config {
    /// Value of the key `boot`.
    pub boot: Option<String>,
    /// Value of the key `main`.
    pub main: Option<String>,
    /// Value of the key `ctrlaltdel`.
    pub ctrlaltdel: Option<String>,
}

/// The characters of an optional string.
pub open spec fn text_of(value: Option<String>) -> Option<Seq<char>> {
    match value {
        Some(s) => Some(s@),
        None => None,
    }
}

impl View for Config {
    type V = Settings;

    open spec fn view(&self) -> Settings {
        Settings {
            boot: text_of(self.boot),
            main: text_of(self.main),
            ctrlaltdel: text_of(self.ctrlaltdel),
        }
    }
}

impl Config {
    /// A configuration without any command.
    pub fn empty() -> (config: Config)
        ensures
            config@ == Settings::none(),
    {
        Config { boot: None, main: None, ctrlaltdel: None }
    }

    /// The command configured for `key`, if there is one.
    pub fn get(&self, key: Key) -> (value: Option<&String>)
        ensures
            match value {
                Some(s) => self@.get(key) == Some(s@),
                None => self@.get(key) is None,
            },
    {
        match key {
            Key::Boot => self.boot.as_ref(),
            Key::Main => self.main.as_ref(),
            Key::CtrlAltDel => self.ctrlaltdel.as_ref(),
        }
    }

    /// Sets the command for `key`, in place of an earlier one.
    pub fn set(&mut self, key: Key, value: String)
        ensures
            final(self)@ == old(self)@.with(key, value@),
    {
        match key {
            Key::Boot => {
                self.boot = Some(value);
            },
            Key::Main => {
                self.main = Some(value);
            },
            Key::CtrlAltDel => {
                self.ctrlaltdel = Some(value);
            },
        }
    }
}

/// A sequence whose first separator stands at `k`, or that has `k`
/// characters and no separator, has a key of `k` characters.
proof fn lemma_key_len_is(s: Seq<char>, k: int)
    requires
        0 <= k <= s.len(),
        forall|i: int| 0 <= i < k ==> !is_separator(s[i]),
        k < s.len() ==> is_separator(s[k]),
    ensures
        key_len(s) == k,
    decreases k,
{
    if k > 0 {
        lemma_key_len_is(s.drop_first(), k - 1);
    }
}

/// Index of the first separator in `chars[from..to]`, or `to`.
fn separator_index(chars: &Vec<char>, from: usize, to: usize) -> (sep: usize)
    requires
        from <= to <= chars.len(),
    ensures
        from <= sep <= to,
        sep - from == key_len(chars@.subrange(from as int, to as int)),
{
    let mut sep: usize = from;
    while sep < to && chars[sep] != ' ' && chars[sep] != '\t'
        invariant
            from <= sep <= to <= chars.len(),
            forall|i: int| from <= i < sep ==> !is_separator(chars@[i]),
        decreases to - sep,
    {
        sep += 1;
    }
    proof {
        lemma_key_len_is(chars@.subrange(from as int, to as int), sep - from);
    }
    sep
}

/// The key of a sequence ends inside it, holds no separator and is followed
/// by one.
proof fn lemma_key_len_bounds(s: Seq<char>)
    ensures
        0 <= key_len(s) <= s.len(),
        forall|i: int| 0 <= i < key_len(s) ==> !is_separator(s[i]),
        key_len(s) < s.len() ==> is_separator(s[key_len(s)]),
    decreases s.len(),
{
    if s.len() > 0 && !is_separator(s[0]) {
        let tail = s.drop_first();
        lemma_key_len_bounds(tail);
        assert forall|i: int| 0 <= i < key_len(s) implies !is_separator(s[i]) by {
            if i > 0 {
                assert(s[i] == tail[i - 1]);
            }
        }
    }
}

/// Skipping the separators drops some first characters, and leaves no
/// separator in front.
proof fn lemma_skip_separators_cuts(s: Seq<char>) -> (j: int)
    ensures
        0 <= j <= s.len(),
        skip_separators(s) == s.skip(j),
        forall|i: int| 0 <= i < j ==> is_separator(s[i]),
        j < s.len() ==> !is_separator(s[j]),
    decreases s.len(),
{
    if s.len() > 0 && is_separator(s[0]) {
        let tail = s.drop_first();
        let j = lemma_skip_separators_cuts(tail);
        assert(tail.skip(j) =~= s.skip(j + 1));
        assert forall|i: int| 0 <= i < j + 1 implies is_separator(s[i]) by {
            if i > 0 {
                assert(s[i] == tail[i - 1]);
            }
        }
        j + 1
    } else {
        assert(s.skip(0) =~= s);
        0
    }
}

/// Key and value come without what separates them: the key is not empty and
/// holds no separator, and the value is not empty, begins with no separator
/// and ends with no white space.
pub proof fn lemma_assignment_is_bare(line: Seq<char>)
    ensures
        match assignment(line) {
            Some((key, value)) => {
                &&& key.len() > 0
                &&& forall|i: int| 0 <= i < key.len() ==> !is_separator(key[i])
                &&& value.len() > 0
                &&& !is_separator(value[0])
                &&& !is_space(value.last())
            },
            None => true,
        },
{
    let t = trimmed(line);
    let k = key_len(t);
    lemma_trimmed_is_bare(line);
    lemma_key_len_bounds(t);
    if t.len() > 0 && t[0] != '#' && k != t.len() {
        let rest = t.skip(k);
        let j = lemma_skip_separators_cuts(rest);
        assert(rest.last() == t.last());
        if j == rest.len() {
            assert(is_separator(rest[j - 1]));
        }
        assert(rest.skip(j).last() == t.last());
    }
}

/// Where the first `j` characters of `s` are separators and the next one is
/// not, skipping the separators drops exactly those.
proof fn lemma_skip_separators_is(s: Seq<char>, j: int)
    requires
        0 <= j <= s.len(),
        forall|i: int| 0 <= i < j ==> is_separator(s[i]),
        j < s.len() ==> !is_separator(s[j]),
    ensures
        skip_separators(s) == s.skip(j),
    decreases j,
{
    if j > 0 {
        lemma_skip_separators_is(s.drop_first(), j - 1);
    }
}

/// Index of the first character of `chars[from..to]` that is no separator,
/// or `to`.
fn value_index(chars: &Vec<char>, from: usize, to: usize) -> (start: usize)
    requires
        from <= to <= chars.len(),
    ensures
        from <= start <= to,
        chars@.subrange(start as int, to as int) == skip_separators(
            chars@.subrange(from as int, to as int),
        ),
{
    let mut start: usize = from;
    while start < to && (chars[start] == ' ' || chars[start] == '\t')
        invariant
            from <= start <= to <= chars.len(),
            forall|i: int| from <= i < start ==> is_separator(chars@[i]),
        decreases to - start,
    {
        start += 1;
    }
    proof {
        lemma_skip_separators_is(chars@.subrange(from as int, to as int), start - from);
    }
    start
}

/// The key that `chars[from..to]` spells, if it spells one.
fn key_at(chars: &Vec<char>, from: usize, to: usize) -> (key: Option<Key>)
    requires
        from <= to <= chars.len(),
    ensures
        key == key_named(chars@.subrange(from as int, to as int)),
{
    if spells(chars, from, to, Key::Boot.as_str()) {
        Some(Key::Boot)
    } else if spells(chars, from, to, Key::Main.as_str()) {
        Some(Key::Main)
    } else if spells(chars, from, to, Key::CtrlAltDel.as_str()) {
        Some(Key::CtrlAltDel)
    } else {
        None
    }
}

/// The known key that the line `chars[from..to]` sets, with its value.
fn read_line(text: &str, chars: &Vec<char>, from: usize, to: usize) -> (entry: Option<
    (Key, String),
>)
    requires
        chars@ == text@,
        from <= to <= chars.len(),
    ensures
        match entry {
            Some((key, value)) => entry_of(chars@.subrange(from as int, to as int)) == Some(
                (key, value@),
            ),
            None => entry_of(chars@.subrange(from as int, to as int)) is None,
        },
{
    let (a, b) = trim_bounds(chars, from, to);
    let ghost t = chars@.subrange(a as int, b as int);
    if a == b || chars[a] == '#' {
        return None;
    }
    let sep: usize = separator_index(chars, a, b);
    if sep == b {
        return None;
    }
    let start: usize = value_index(chars, sep, b);
    assert(t.take(sep - a) =~= chars@.subrange(a as int, sep as int));
    assert(t.skip(sep - a) =~= chars@.subrange(sep as int, b as int));
    match key_at(chars, a, sep) {
        Some(key) => {
            let value: String = text.substring_char(start, b).to_owned();
            Some((key, value))
        },
        None => None,
    }
}

/// No two keys share a word.
pub proof fn lemma_key_names_differ(a: Key, b: Key)
    ensures
        a.name() == b.name() <==> a == b,
        key_named(a.name()) == Some(a),
{
    reveal_strlit("boot");
    reveal_strlit("main");
    reveal_strlit("ctrlaltdel");
    assert(Key::Boot.name()[0] == 'b');
    assert(Key::Main.name()[0] == 'm');
    assert(Key::CtrlAltDel.name()[0] == 'c');
}

/// One more line changes the settings by what it sets, and only by that.
pub proof fn lemma_settings_push(ls: Seq<Seq<char>>, line: Seq<char>)
    ensures
        settings_of(ls.push(line)) == match entry_of(line) {
            Some((key, value)) => settings_of(ls).with(key, value),
            None => settings_of(ls),
        },
{
    assert(ls.push(line).drop_last() =~= ls);
    lemma_key_names_differ(Key::Boot, Key::Main);
    lemma_key_names_differ(Key::Boot, Key::CtrlAltDel);
    lemma_key_names_differ(Key::Main, Key::CtrlAltDel);
}

/// Among the lines `early + late`, a key has the value that `late` gives it,
/// and that of `early` where `late` gives none.
pub proof fn lemma_last_value_concat(early: Seq<Seq<char>>, late: Seq<Seq<char>>, key: Seq<char>)
    ensures
        last_value(early + late, key) == if last_value(late, key) is Some {
            last_value(late, key)
        } else {
            last_value(early, key)
        },
    decreases late.len(),
{
    if late.len() > 0 {
        assert((early + late).drop_last() =~= early + late.drop_last());
        lemma_last_value_concat(early, late.drop_last(), key);
    }
}

/// Last write wins: behind a text that is empty or ends in a line feed, what
/// a second text sets replaces what the first one set, and the rest stays.
pub proof fn lemma_later_text_overrides(first: Seq<char>, second: Seq<char>)
    requires
        first.len() == 0 || first.last() == '\n',
    ensures
        parsed(first + second) == parsed(first).overridden_by(parsed(second)),
{
    lemma_lines_concat(first, second);
    lemma_last_value_concat(lines(first), lines(second), Key::Boot.name());
    lemma_last_value_concat(lines(first), lines(second), Key::Main.name());
    lemma_last_value_concat(lines(first), lines(second), Key::CtrlAltDel.name());
}

/// A text of one line sets what that line sets.
pub proof fn lemma_one_line(line: Seq<char>)
    requires
        forall|i: int| 0 <= i < line.len() ==> line[i] != '\n',
    ensures
        parsed(line) == match entry_of(line) {
            Some((key, value)) => Settings::none().with(key, value),
            None => Settings::none(),
        },
{
    if line.len() > 0 {
        lemma_line_len_is(line, line.len() as int);
        assert(line.take(line.len() as int) =~= line);
        assert(lines(Seq::<char>::empty()) =~= Seq::<Seq<char>>::empty());
        lemma_settings_push(Seq::empty(), line);
    }
}

/// Reads a configuration text.
///
/// The result holds, for each known key, the value of the last line that
/// sets it, and nothing for a key that no line sets.
pub fn parse_config(text: &str) -> (config: Config)
    ensures
        config@ == parsed(text@),
{
    let chars: Vec<char> = chars_of(text);
    let mut config: Config = Config::empty();
    let mut pos: usize = 0;
    let ghost mut done: Seq<Seq<char>> = Seq::empty();
    proof {
        assert(text@.skip(0) =~= text@);
    }
    while pos < chars.len()
        invariant
            chars@ == text@,
            pos <= chars.len(),
            lines(text@) == done + lines(text@.skip(pos as int)),
            config@ == settings_of(done),
        decreases chars.len() - pos,
    {
        let end: usize = line_end(&chars, pos);
        let ghost line = text@.subrange(pos as int, end as int);
        proof {
            lemma_lines_step(text@, pos as int, end as int);
            lemma_settings_push(done, line);
        }
        match read_line(text, &chars, pos, end) {
            Some((key, value)) => {
                config.set(key, value);
            },
            None => {},
        }
        pos = if end < chars.len() {
            end + 1
        } else {
            end
        };
        proof {
            done = done.push(line);
        }
    }
    config
}

} // verus!
