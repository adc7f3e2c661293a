use zombieland::config::{parse_config, Config, Key};
use zombieland::text::is_whitespace;

fn settings(text: &str) -> (Option<String>, Option<String>, Option<String>) {
    let config = parse_config(text);
    (config.boot, config.main, config.ctrlaltdel)
}

fn some(value: &str) -> Option<String> {
    Some(value.to_string())
}

#[test]
fn parses_the_three_known_keys() {
    let config =
        parse_config("main /bin/true\nboot /bin/echo hi\n#comment\n\nctrlaltdel /bin/sync\n");
    assert_eq!(config.main.as_deref(), Some("/bin/true"));
    assert_eq!(config.boot.as_deref(), Some("/bin/echo hi"));
    assert_eq!(config.ctrlaltdel.as_deref(), Some("/bin/sync"));
}

#[test]
fn a_later_line_overrides_an_earlier_one() {
    let config = parse_config(
        "main /bin/true\nboot /bin/echo hi\n#comment\n\nctrlaltdel /bin/sync\nmain /bin/false\n",
    );
    assert_eq!(config.main.as_deref(), Some("/bin/false"));
    assert_eq!(config.boot.as_deref(), Some("/bin/echo hi"));
    assert_eq!(config.ctrlaltdel.as_deref(), Some("/bin/sync"));
}

#[test]
fn a_second_text_overrides_what_the_first_one_set() {
    let first = "main /bin/a\nboot /bin/b\n";
    let second = "boot /bin/c\nctrlaltdel /bin/d";
    let both = format!("{}{}", first, second);
    assert_eq!(settings(first), (some("/bin/b"), some("/bin/a"), None));
    assert_eq!(settings(second), (some("/bin/c"), None, some("/bin/d")));
    assert_eq!(settings(&both), (some("/bin/c"), some("/bin/a"), some("/bin/d")));
}

#[test]
fn an_empty_text_configures_nothing() {
    assert_eq!(parse_config(""), Config::empty());
    assert_eq!(settings(""), (None, None, None));
    assert_eq!(settings("\n\n\n"), (None, None, None));
}

#[test]
fn a_last_line_needs_no_line_feed() {
    assert_eq!(settings("main /bin/sh"), (None, some("/bin/sh"), None));
    assert_eq!(settings("boot /a\nmain /bin/sh"), (some("/a"), some("/bin/sh"), None));
}

#[test]
fn comments_and_blank_lines_say_nothing() {
    assert_eq!(settings("#main /bin/sh\n"), (None, None, None));
    assert_eq!(settings("   # main /bin/sh\n"), (None, None, None));
    assert_eq!(settings("  \t \n#\n\nmain /bin/sh\n   \n"), (None, some("/bin/sh"), None));
    assert_eq!(settings("# main /x\nmain /y # not a comment\n"), (None, some("/y # not a comment"), None));
}

#[test]
fn unknown_keys_are_passed_over() {
    assert_eq!(settings("shell /bin/sh\nMain /bin/sh\nmains /bin/sh\nmai /bin/sh\n"), (None, None, None));
    assert_eq!(settings("bootmain /x\nctrlaltdelete /y\n"), (None, None, None));
    assert_eq!(settings("other thing\nboot /b\n"), (some("/b"), None, None));
}

#[test]
fn a_key_without_a_value_sets_nothing() {
    assert_eq!(settings("main\n"), (None, None, None));
    assert_eq!(settings("main   \n"), (None, None, None));
    assert_eq!(settings("main /bin/sh\nmain\n"), (None, some("/bin/sh"), None));
}

#[test]
fn the_first_space_or_tab_ends_the_key() {
    assert_eq!(settings("main\t/bin/sh\n"), (None, some("/bin/sh"), None));
    assert_eq!(settings("main /bin/sh -l\n"), (None, some("/bin/sh -l"), None));
    assert_eq!(settings("main\u{a0}/bin/sh\n"), (None, None, None));
    assert_eq!(settings("ma in /bin/sh\n"), (None, None, None));
}

#[test]
fn the_separators_between_key_and_value_belong_to_neither() {
    assert_eq!(parse_config("main  /bin/true\n").main.as_deref(), Some("/bin/true"));
    assert_eq!(settings("main  /bin/sh\n"), (None, some("/bin/sh"), None));
    assert_eq!(settings("main \t/bin/sh\n"), (None, some("/bin/sh"), None));
    assert_eq!(settings("main\t\t \t  /bin/sh\n"), (None, some("/bin/sh"), None));
    assert_eq!(settings("boot    /bin/echo  hi \t there\n"), (some("/bin/echo  hi \t there"), None, None));
    assert_eq!(settings("  ctrlaltdel \t /sbin/reboot -f \t \n"), (None, None, some("/sbin/reboot -f")));
}

#[test]
fn white_space_around_a_line_is_dropped() {
    assert_eq!(settings("   main /bin/sh   \n"), (None, some("/bin/sh"), None));
    assert_eq!(settings("\tboot /bin/b\t\t\n"), (some("/bin/b"), None, None));
    assert_eq!(settings("main /bin/sh\r\nboot /b\r\n"), (some("/b"), some("/bin/sh"), None));
    assert_eq!(settings("\u{3000}ctrlaltdel /c\u{2003}\u{a0}\n"), (None, None, some("/c")));
}

#[test]
fn values_may_hold_any_characters() {
    assert_eq!(settings("main /opt/\u{e9}t\u{e9}/\u{1f600}\n"), (None, some("/opt/\u{e9}t\u{e9}/\u{1f600}"), None));
    assert_eq!(settings("\u{e9} x\nboot #\n"), (some("#"), None, None));
}

#[test]
fn white_space_is_what_the_standard_library_calls_white_space() {
    let mut n: u32 = 0;
    while n <= 0x10ffff {
        if let Some(c) = char::from_u32(n) {
            assert_eq!(is_whitespace(c), c.is_whitespace(), "U+{:04X}", n);
        }
        n += 1;
    }
}

#[test]
fn parsing_agrees_with_a_line_by_line_reading() {
    let texts = [
        "main /bin/true\nboot /bin/echo hi\n#comment\n\nctrlaltdel /bin/sync\n",
        "  main\t a b  \r\n\n\nboot\n boot x\nmain",
        "\n#\n # \nctrlaltdel  \t /sbin/reboot -f \n",
        "main one\nmain two\nmain three",
        "main  /bin/true\nboot\t\t/b  c\nctrlaltdel \t \t/d\t\n",
        "\u{2028}main /x\u{2029}\n\u{85}boot /y\u{85}",
    ];
    for text in texts {
        let mut boot = None;
        let mut main = None;
        let mut ctrlaltdel = None;
        for line in text.lines() {
            let line = line.trim();
            if line.starts_with('#') || line.is_empty() {
                continue;
            }
            let mut tokens = line.splitn(2, |c| c == ' ' || c == '\t');
            let key = tokens.next();
            let value = tokens.next().map(|v| v.trim_start_matches(|c| c == ' ' || c == '\t'));
            if let (Some(key), Some(value)) = (key, value) {
                match key {
                    "boot" => boot = Some(value.to_string()),
                    "main" => main = Some(value.to_string()),
                    "ctrlaltdel" => ctrlaltdel = Some(value.to_string()),
                    _ => {}
                }
            }
        }
        assert_eq!(settings(text), (boot, main, ctrlaltdel), "{:?}", text);
    }
}

#[test]
fn keys_have_their_words() {
    assert_eq!(Key::Boot.as_str(), "boot");
    assert_eq!(Key::Main.as_str(), "main");
    assert_eq!(Key::CtrlAltDel.as_str(), "ctrlaltdel");
}

#[test]
fn get_and_set_go_by_key() {
    let mut config = Config::empty();
    assert_eq!(config.get(Key::Boot), None);
    assert_eq!(config.get(Key::Main), None);
    assert_eq!(config.get(Key::CtrlAltDel), None);
    config.set(Key::Main, "/bin/a".to_string());
    config.set(Key::CtrlAltDel, "/bin/b".to_string());
    config.set(Key::Main, "/bin/c".to_string());
    assert_eq!(config.get(Key::Boot), None);
    assert_eq!(config.get(Key::Main).map(|s| s.as_str()), Some("/bin/c"));
    assert_eq!(config.get(Key::CtrlAltDel).map(|s| s.as_str()), Some("/bin/b"));
    assert_eq!(config.main.as_deref(), Some("/bin/c"));
    let parsed = parse_config("ctrlaltdel /bin/b\nmain /bin/c\n");
    assert_eq!(parsed, config);
}
