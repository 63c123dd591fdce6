use pg_dispatcher::traits::exit_status_result;
use pg_dispatcher::{CommandSpec, ExitError, RunError};

#[test]
fn parse_command_with_args() {
    let spec = CommandSpec::parse("sh script.sh --flag");
    assert_eq!(spec.program, String::from("sh"));
    assert_eq!(
        spec.args,
        vec![String::from("script.sh"), String::from("--flag"),]
    );
}

#[test]
fn parse_command_no_args() {
    let spec = CommandSpec::parse("cat");
    assert_eq!(spec.program, String::from("cat"));
    assert!(spec.args.is_empty());
}

#[test]
fn new_sets_empty_args() {
    let spec = CommandSpec::new("echo");
    assert_eq!(spec.program, String::from("echo"));
    assert!(spec.args.is_empty());
}

#[test]
fn with_args_preserves_args() {
    let spec = CommandSpec::with_args("sh", vec![String::from("-c"), String::from("echo hi")]);
    assert_eq!(spec.program, String::from("sh"));
    assert_eq!(spec.args.len(), 2);
}

#[test]
fn exit_error_display_code() {
    let e = ExitError { code: Some(42) };
    assert_eq!(e.to_string(), "status code 42");
}

#[test]
fn exit_error_display_signal() {
    let e = ExitError { code: None };
    assert_eq!(e.to_string(), "terminated by a signal");
}

#[test]
fn parse_collapses_runs_of_white_space() {
    let spec = CommandSpec::parse("  sh \t script.sh\n\u{3000}--flag  ");
    assert_eq!(spec.program, "sh");
    assert_eq!(spec.args, vec!["script.sh".to_string(), "--flag".to_string()]);
}

#[test]
fn exit_error_display_negative_and_extreme_codes() {
    assert_eq!(ExitError { code: Some(0) }.to_string(), "status code 0");
    assert_eq!(ExitError { code: Some(-7) }.to_string(), "status code -7");
    assert_eq!(
        ExitError { code: Some(i32::MIN) }.to_string(),
        "status code -2147483648"
    );
    assert_eq!(
        ExitError { code: Some(i32::MAX) }.to_string(),
        "status code 2147483647"
    );
    assert_eq!(ExitError { code: Some(1090) }.to_string(), "status code 1090");
}

#[test]
fn run_error_text() {
    assert_eq!(
        RunError::Spawn("no such file".to_string()).to_string(),
        "failed to spawn command: no such file"
    );
    assert_eq!(
        RunError::Exit(ExitError { code: Some(3) }).to_string(),
        "command failed: status code 3"
    );
    assert_eq!(
        RunError::Exit(ExitError { code: None }).to_string(),
        "command failed: terminated by a signal"
    );
}

#[test]
fn exit_status_zero_is_success() {
    assert!(exit_status_result(Some(0)).is_ok());
}

#[test]
fn exit_status_nonzero_is_exit_error() {
    match exit_status_result(Some(2)) {
        Err(RunError::Exit(ExitError { code: Some(2) })) => {}
        other => panic!("unexpected result: {:?}", other),
    }
    match exit_status_result(Some(-1)) {
        Err(RunError::Exit(ExitError { code: Some(-1) })) => {}
        other => panic!("unexpected result: {:?}", other),
    }
}

#[test]
fn exit_status_signal_is_exit_error_without_code() {
    match exit_status_result(None) {
        Err(RunError::Exit(ExitError { code: None })) => {}
        other => panic!("unexpected result: {:?}", other),
    }
}
