//! Top-level control: choosing which workflow(s) an invocation runs, and
//! combining the two workflows' results in combined mode.

use vstd::prelude::*;

verus! {

/// Which of the two workflows an invocation runs.
#[derive(Clone, Copy, Debug, PartialEq, Eq, Structural)]
pub enum Mode {
    SendOnly,
    ReceiveOnly,
    Both,
}

/// The result of one workflow, or of the whole run: success, or a failure
/// carrying the underlying error's description.
#[derive(Clone, Debug)]
pub enum Outcome {
    Success,
    Failure(String),
}

/// The mode chosen from the two command-line switches. The send-only switch
/// wins when both are set, as the dispatch checks it first.
pub open spec fn spec_mode(send_only: bool, receive_only: bool) -> Mode {
    if send_only {
        Mode::SendOnly
    } else if receive_only {
        Mode::ReceiveOnly
    } else {
        Mode::Both
    }
}

/// Whether the sender workflow runs under a mode.
pub open spec fn spec_runs_sender(m: Mode) -> bool {
    m == Mode::SendOnly || m == Mode::Both
}

/// Whether the receiver workflow runs under a mode.
pub open spec fn spec_runs_receiver(m: Mode) -> bool {
    m == Mode::ReceiveOnly || m == Mode::Both
}

/// Chooses the operating mode once, at startup, from the two switches.
/// Under send-only mode the receiver workflow never runs, so no update
/// stream is ever opened or consumed.
pub fn select_mode(send_only: bool, receive_only: bool) -> (m: Mode)
    ensures
        m == spec_mode(send_only, receive_only),
        send_only ==> !spec_runs_receiver(m),
        !send_only && receive_only ==> !spec_runs_sender(m),
{
    if send_only {
        Mode::SendOnly
    } else if receive_only {
        Mode::ReceiveOnly
    } else {
        Mode::Both
    }
}

/// Whether the sender workflow runs under `m`; the caller starts reading
/// standard input exactly when this returns true.
pub fn runs_sender(m: Mode) -> (b: bool)
    ensures
        b == spec_runs_sender(m),
{
    match m {
        Mode::SendOnly => true,
        Mode::ReceiveOnly => false,
        Mode::Both => true,
    }
}

/// Whether the receiver workflow runs under `m`; the caller opens the
/// update stream exactly when this returns true.
pub fn runs_receiver(m: Mode) -> (b: bool)
    ensures
        b == spec_runs_receiver(m),
{
    match m {
        Mode::SendOnly => false,
        Mode::ReceiveOnly => true,
        Mode::Both => true,
    }
}

/// Combines the two workflows' results in combined mode: a sender failure is
/// the run's failure whatever the receiver did; otherwise a receiver failure
/// is the run's failure; otherwise the run succeeded.
pub fn combine_outcomes(sender: Outcome, receiver: Outcome) -> (r: Outcome)
    ensures
        sender is Failure ==> r == sender,
        sender is Success && receiver is Failure ==> r == receiver,
        sender is Success && receiver is Success ==> r is Success,
{
    match sender {
        Outcome::Failure(e) => Outcome::Failure(e),
        Outcome::Success => match receiver {
            Outcome::Failure(e) => Outcome::Failure(e),
            Outcome::Success => Outcome::Success,
        },
    }
}

} // verus!
