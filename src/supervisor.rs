//! The supervision of a session's processes: the exit report that a
//! finished process sends, and the order in which waiting for a session
//! receives that report, releases the session's resources and returns.

use vstd::prelude::*;

verus! {

/// The report of a process that ran and exited: its name, quoted, and how
/// it exited.
pub fn exit_reason(program: &str, status: &str) -> (r: String)
    ensures
        r@ == "\""@ + program@ + "\" exited with "@ + status@,
{
    String::from_str("\"").concat(program).concat("\" exited with ").concat(status)
}

/// The report of a process that could not be run or waited for.
pub fn failure_reason(program: &str, error: &str) -> (r: String)
    ensures
        r@ == "Error while handling \""@ + program@ + "\":\n"@ + error@,
{
    String::from_str("Error while handling \"").concat(program).concat("\":\n").concat(error)
}

/// What waiting for a session does next.
#[derive(Clone, Copy, PartialEq, Eq, Structural, Debug)]
pub enum JoinAction {
    /// Wait for the one exit report.
    Receive,
    /// Drop the resources that the session held.
    Release,
    /// Hand the outcome to the caller.
    Return,
}

/// Why waiting for a session ended without a report.
#[derive(Clone, Copy, PartialEq, Eq, Structural, Debug)]
pub enum JoinError {
    /// Every sender of reports was gone before one was sent.
    ChannelClosed,
}

impl JoinError {
    pub fn message(&self) -> (r: String)
        ensures
            r@ == "Tx end of session shutdown channel unexpectedly closed"@,
    {
        String::from_str("Tx end of session shutdown channel unexpectedly closed")
    }
}

/// Where waiting for a session stands.
pub struct JoinState {
    /// The report, or the closing of the channel, has been received.
    pub received: bool,
    /// The session's resources have been dropped.
    pub released: bool,
    /// What the wait gives its caller, once received.
    pub outcome: Option<Result<String, JoinError>>,
}

/// What waiting does in a state: receive until something is received,
/// then release, then return.
pub open spec fn action_of(received: bool, released: bool) -> JoinAction {
    if !received {
        JoinAction::Receive
    } else if !released {
        JoinAction::Release
    } else {
        JoinAction::Return
    }
}

impl JoinState {
    /// Nothing received, nothing released.
    pub fn new() -> (r: JoinState)
        ensures
            !r.received,
            !r.released,
            r.outcome is None,
    {
        JoinState { received: false, released: false, outcome: None }
    }

    /// What to do next.
    pub fn next_action(&self) -> (r: JoinAction)
        ensures
            r == action_of(self.received, self.released),
    {
        if !self.received {
            JoinAction::Receive
        } else if !self.released {
            JoinAction::Release
        } else {
            JoinAction::Return
        }
    }

    /// Records what was received: the report, or `None` for a closed
    /// channel.
    pub fn on_received(&mut self, report: Option<String>)
        requires
            !old(self).received,
        ensures
            final(self).received,
            final(self).released == old(self).released,
            match report {
                Some(s) => final(self).outcome matches Some(Ok(t)) && t@ == s@,
                None => final(self).outcome == Some(Err::<String, JoinError>(JoinError::ChannelClosed)),
            },
    {
        self.received = true;
        self.outcome = match report {
            Some(s) => Some(Ok(s)),
            None => Some(Err(JoinError::ChannelClosed)),
        };
    }

    /// Records that the resources were dropped.
    pub fn on_released(&mut self)
        requires
            old(self).received,
        ensures
            final(self).released,
            final(self).received == old(self).received,
            final(self).outcome == old(self).outcome,
    {
        self.released = true;
    }
}

/// Waiting for a session releases its resources only once the exit report
/// (or the closing of the channel) has been received, and returns only
/// after that release.
pub proof fn law_release_after_exit(received: bool, released: bool)
    ensures
        action_of(received, released) == JoinAction::Release ==> received,
        action_of(received, released) == JoinAction::Return ==> received && released,
        !received ==> action_of(received, released) == JoinAction::Receive,
{
}

} // verus!
