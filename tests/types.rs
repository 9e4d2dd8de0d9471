use xero_toolkit::types::{CommandResult, CommandStep, CommandType};

#[test]
fn constructors_set_kind_program_and_arguments() {
    let n = CommandStep::normal("ls", &["-la"], "List files");
    assert_eq!(n.command_type, CommandType::Normal);
    assert_eq!(n.command, "ls");
    assert_eq!(n.args, vec!["-la".to_string()]);
    assert_eq!(n.friendly_name, "List files");

    let p = CommandStep::privileged("pacman", &["-Syu"], "System update");
    assert_eq!(p.command_type, CommandType::Privileged);
    assert_eq!(p.command, "pacman");

    let a = CommandStep::aur(&["-S", "package-name"], "Install AUR package");
    assert_eq!(a.command_type, CommandType::Aur);
    assert_eq!(a.command, "aur");
    assert_eq!(a.args, vec!["-S".to_string(), "package-name".to_string()]);

    let e = CommandStep::new(CommandType::Normal, "true", &[], "Nothing");
    assert!(e.args.is_empty());
}

#[test]
fn result_queries() {
    assert!(CommandResult::Success.is_success());
    assert!(!CommandResult::Success.is_failure());
    assert_eq!(CommandResult::Success.exit_code(), None);
    let f = CommandResult::Failure { exit_code: Some(3) };
    assert!(f.is_failure());
    assert!(!f.is_success());
    assert_eq!(f.exit_code(), Some(3));
    assert_eq!(CommandResult::Failure { exit_code: None }.exit_code(), None);
}
