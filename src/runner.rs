//! Driving the external messaging client: its command lines, and what its
//! exit means.

use crate::error::SignalRunnerError;
use vstd::prelude::*;

verus! {

/// Where the messaging client is and whom it speaks as.
pub struct SignalRunnerArgs {
    pub signal_phone_number: String,
    pub signal_group_id: String,
    pub signal_bin: String,
}

/// The views of some strings.
pub open spec fn views(v: Seq<String>) -> Seq<Seq<char>> {
    v.map_values(|s: String| s@)
}

/// The outcome of a client run that exited with `code` (none when a signal
/// killed it): success on zero, and a failure carrying the code otherwise.
pub open spec fn exit_outcome(code: Option<i32>) -> Result<(), SignalRunnerError> {
    if code == Some(0i32) {
        Ok(())
    } else {
        Err(SignalRunnerError::SignalFailed(code))
    }
}

/// Maps the client's exit to the runner's outcome.
pub fn outcome_of_exit(code: Option<i32>) -> (r: Result<(), SignalRunnerError>)
    ensures
        r == exit_outcome(code),
        r is Ok <==> code == Some(0i32),
{
    match code {
        Some(0i32) => Ok(()),
        _ => Err(SignalRunnerError::SignalFailed(code)),
    }
}

impl SignalRunnerArgs {
    /// The arguments that send stdin's message to the group, with the
    /// working copy at `config`.
    pub fn send_arguments(&self, config: &str) -> (r: Vec<String>)
        ensures
            views(r@) == seq![
                "--config"@,
                config@,
                "--username"@,
                self.signal_phone_number@,
                "send"@,
                "--group"@,
                self.signal_group_id@,
                "--message-from-stdin"@,
            ],
    {
        let mut r: Vec<String> = Vec::new();
        r.push(String::from_str("--config"));
        r.push(String::from_str(config));
        r.push(String::from_str("--username"));
        r.push(self.signal_phone_number.clone());
        r.push(String::from_str("send"));
        r.push(String::from_str("--group"));
        r.push(self.signal_group_id.clone());
        r.push(String::from_str("--message-from-stdin"));
        assert(views(r@) =~= seq![
            "--config"@,
            config@,
            "--username"@,
            self.signal_phone_number@,
            "send"@,
            "--group"@,
            self.signal_group_id@,
            "--message-from-stdin"@,
        ]);
        r
    }

    /// The arguments that fetch pending messages, with the working copy at
    /// `config`.
    pub fn receive_arguments(&self, config: &str) -> (r: Vec<String>)
        ensures
            views(r@) == seq!["--config"@, config@, "--username"@, self.signal_phone_number@, "receive"@],
    {
        let mut r: Vec<String> = Vec::new();
        r.push(String::from_str("--config"));
        r.push(String::from_str(config));
        r.push(String::from_str("--username"));
        r.push(self.signal_phone_number.clone());
        r.push(String::from_str("receive"));
        assert(views(r@) =~= seq![
            "--config"@,
            config@,
            "--username"@,
            self.signal_phone_number@,
            "receive"@,
        ]);
        r
    }
}

} // verus!
