use zombieland::command::{command_for, main_command, reboot_request_command, CommandSpec};
use zombieland::config::{parse_config, Config, Key};

fn bare(program: &str) -> CommandSpec {
    CommandSpec { program: program.to_string(), args: Vec::new() }
}

#[test]
fn without_a_main_command_the_terminal_login_is_supervised() {
    let command = main_command(&Config::empty());
    assert_eq!(command.program, "/sbin/agetty");
    assert_eq!(command.args, vec!["tty1".to_string()]);
    let command = main_command(&parse_config("boot /bin/b\nctrlaltdel /bin/c\n"));
    assert_eq!(command.program, "/sbin/agetty");
    assert_eq!(command.args, vec!["tty1".to_string()]);
}

#[test]
fn a_configured_main_command_is_supervised_without_arguments() {
    assert_eq!(main_command(&parse_config("main /bin/true\n")), bare("/bin/true"));
    assert_eq!(main_command(&parse_config("main /bin/echo hi\n")), bare("/bin/echo hi"));
}

#[test]
fn a_command_is_there_for_a_key_that_is_set() {
    let config = parse_config("boot /bin/b\nctrlaltdel /bin/c\n");
    assert_eq!(command_for(&config, Key::Boot), Some(bare("/bin/b")));
    assert_eq!(command_for(&config, Key::Main), None);
    assert_eq!(command_for(&config, Key::CtrlAltDel), Some(bare("/bin/c")));
    assert_eq!(command_for(&Config::empty(), Key::Boot), None);
}

#[test]
fn a_reboot_request_launches_what_the_text_configures() {
    assert_eq!(reboot_request_command("ctrlaltdel /bin/sync\n"), Some(bare("/bin/sync")));
    assert_eq!(
        reboot_request_command("ctrlaltdel /bin/sync\nmain /x\nctrlaltdel /sbin/halt\n"),
        Some(bare("/sbin/halt"))
    );
}

#[test]
fn a_reboot_request_without_a_command_does_nothing() {
    assert_eq!(reboot_request_command(""), None);
    assert_eq!(reboot_request_command("main /bin/sh\nboot /bin/b\n#ctrlaltdel /c\n"), None);
    assert_eq!(reboot_request_command("ctrlaltdel\n"), None);
}
