use signal_pager::error::SignalRunnerError;
use signal_pager::runner::{outcome_of_exit, SignalRunnerArgs};

fn args() -> SignalRunnerArgs {
    SignalRunnerArgs {
        signal_phone_number: "+15550100".to_string(),
        signal_group_id: "Z3JvdXA=".to_string(),
        signal_bin: "/usr/bin/signal-cli".to_string(),
    }
}

#[test]
fn exit_zero_succeeds() {
    assert_eq!(outcome_of_exit(Some(0)), Ok(()));
}

#[test]
fn exit_one_fails_with_code() {
    assert_eq!(outcome_of_exit(Some(1)), Err(SignalRunnerError::SignalFailed(Some(1))));
    assert_eq!(outcome_of_exit(Some(-3)), Err(SignalRunnerError::SignalFailed(Some(-3))));
}

#[test]
fn killed_by_signal_fails_without_code() {
    assert_eq!(outcome_of_exit(None), Err(SignalRunnerError::SignalFailed(None)));
}

#[test]
fn send_command_line() {
    assert_eq!(
        args().send_arguments("/tmp/state"),
        vec![
            "--config",
            "/tmp/state",
            "--username",
            "+15550100",
            "send",
            "--group",
            "Z3JvdXA=",
            "--message-from-stdin"
        ]
    );
}

#[test]
fn receive_command_line() {
    assert_eq!(
        args().receive_arguments("/tmp/state"),
        vec!["--config", "/tmp/state", "--username", "+15550100", "receive"]
    );
}
