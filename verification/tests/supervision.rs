use zombieland::command::CommandSpec;
use zombieland::config::{parse_config, Config};
use zombieland::supervision::{Action, Supervision};

fn bare(program: &str) -> CommandSpec {
    CommandSpec { program: program.to_string(), args: Vec::new() }
}

fn login() -> CommandSpec {
    CommandSpec { program: "/sbin/agetty".to_string(), args: vec!["tty1".to_string()] }
}

#[test]
fn the_boot_command_is_launched_first_and_once() {
    let mut supervision = Supervision::new(parse_config("boot /bin/b\nmain /bin/m\n"));
    assert_eq!(supervision.next(0), Action::LaunchDetached(bare("/bin/b")));
    assert_eq!(supervision.next(0), Action::LaunchOwned(bare("/bin/m")));
    assert_eq!(supervision.next(250_000_000), Action::Sleep(750_000_000));
    assert_eq!(supervision.next(1_000_000_000), Action::LaunchOwned(bare("/bin/m")));
    assert_eq!(supervision.next(2_000_000_000), Action::Sleep(0));
    assert_eq!(supervision.next(2_000_000_000), Action::LaunchOwned(bare("/bin/m")));
}

#[test]
fn without_a_boot_command_supervision_starts_at_once() {
    let mut supervision = Supervision::new(parse_config("main /bin/m\n"));
    assert_eq!(supervision.next(0), Action::LaunchOwned(bare("/bin/m")));
    assert_eq!(supervision.next(0), Action::Sleep(1_000_000_000));
    assert_eq!(supervision.next(0), Action::LaunchOwned(bare("/bin/m")));
}

#[test]
fn without_a_main_command_the_terminal_login_is_launched() {
    let mut supervision = Supervision::new(Config::empty());
    assert_eq!(supervision.next(0), Action::LaunchOwned(login()));
    assert_eq!(supervision.next(5), Action::Sleep(999_999_995));
    assert_eq!(supervision.next(0), Action::LaunchOwned(login()));
    let mut supervision = Supervision::new(parse_config("boot /bin/b\n"));
    assert_eq!(supervision.next(0), Action::LaunchDetached(bare("/bin/b")));
    assert_eq!(supervision.next(0), Action::LaunchOwned(login()));
}

#[test]
fn five_cycles_of_a_command_that_exits_at_once_take_five_seconds() {
    let mut supervision = Supervision::new(parse_config("main /bin/true\n"));
    let mut clock: u128 = 0;
    let mut started: u128 = 0;
    let mut launches = 0;
    let mut sleeps = 0;
    while sleeps < 5 {
        match supervision.next(clock - started) {
            Action::LaunchDetached(_) => panic!("no boot command is configured"),
            Action::LaunchOwned(command) => {
                assert_eq!(command, bare("/bin/true"));
                started = clock;
                launches += 1;
                clock += 1_000;
            }
            Action::Sleep(nanos) => {
                assert_eq!(nanos, 999_999_000);
                clock += nanos as u128;
                sleeps += 1;
            }
        }
    }
    assert_eq!(launches, 5);
    assert!(clock >= 5_000_000_000);
}

#[test]
fn the_loop_goes_on_for_as_long_as_it_is_asked() {
    let mut supervision = Supervision::new(parse_config("main /bin/m\n"));
    let mut n = 0;
    while n < 1000 {
        assert_eq!(supervision.next(0), Action::LaunchOwned(bare("/bin/m")));
        assert_eq!(supervision.next(u128::MAX), Action::Sleep(0));
        n += 1;
    }
}
