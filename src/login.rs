//! The order of a login's stages. The driver performs each stage and
//! reports whether it succeeded; the machine here names the stage that
//! comes next, so that every login that established credentials deletes
//! them exactly once and ends its PAM transaction last.

use vstd::prelude::*;

verus! {

/// A stage of a login.
#[derive(Clone, Copy, PartialEq, Eq, Structural, Debug)]
pub enum Step {
    /// `pam_authenticate`.
    Authenticate,
    /// `pam_acct_mgmt`.
    ValidateAccount,
    /// `pam_setcred` with the establish flag.
    EstablishCredentials,
    /// Resolve the user, become a session leader, compose the environment
    /// and hand it to PAM.
    PrepareSession,
    /// `pam_open_session`.
    OpenSession,
    /// Take the terminal, start the session backend and wait for it to exit.
    RunSession,
    /// `pam_close_session`.
    CloseSession,
    /// `pam_setcred` with the delete flag.
    DeleteCredentials,
    /// `pam_end`.
    End,
    /// Nothing is left to do.
    Done,
}

/// Where a login stands.
#[derive(Clone, Copy, PartialEq, Eq, Structural, Debug)]
pub struct LoginState {
    /// The stage to perform next.
    pub step: Step,
    /// Credentials were established and are not yet deleted.
    pub holds_credentials: bool,
    /// The PAM session is open.
    pub session_open: bool,
    /// A stage has failed.
    pub failed: bool,
}

/// The state in which a login starts: authentication is skipped when it is
/// not required.
pub open spec fn initial_state(require_auth: bool) -> LoginState {
    LoginState {
        step: if require_auth {
            Step::Authenticate
        } else {
            Step::ValidateAccount
        },
        holds_credentials: false,
        session_open: false,
        failed: false,
    }
}

/// The first stage of the teardown that a state owes.
pub open spec fn teardown_from(holds_credentials: bool, session_open: bool) -> Step {
    if session_open {
        Step::CloseSession
    } else if holds_credentials {
        Step::DeleteCredentials
    } else {
        Step::End
    }
}

/// The state after `s.step` was performed, with `ok` telling whether it
/// succeeded.
pub open spec fn next_state(s: LoginState, ok: bool) -> LoginState {
    match s.step {
        Step::Authenticate => if ok {
            LoginState { step: Step::ValidateAccount, ..s }
        } else {
            LoginState { step: Step::End, failed: true, ..s }
        },
        Step::ValidateAccount => if ok {
            LoginState { step: Step::EstablishCredentials, ..s }
        } else {
            LoginState { step: Step::End, failed: true, ..s }
        },
        Step::EstablishCredentials => if ok {
            LoginState { step: Step::PrepareSession, holds_credentials: true, ..s }
        } else {
            LoginState { step: Step::End, failed: true, ..s }
        },
        Step::PrepareSession => if ok {
            LoginState { step: Step::OpenSession, ..s }
        } else {
            LoginState { step: teardown_from(s.holds_credentials, s.session_open), failed: true, ..s }
        },
        Step::OpenSession => if ok {
            LoginState { step: Step::RunSession, session_open: true, ..s }
        } else {
            LoginState { step: teardown_from(s.holds_credentials, s.session_open), failed: true, ..s }
        },
        Step::RunSession => LoginState {
            step: teardown_from(s.holds_credentials, s.session_open),
            failed: s.failed || !ok,
            ..s
        },
        Step::CloseSession => LoginState {
            step: teardown_from(s.holds_credentials, false),
            session_open: false,
            failed: s.failed || !ok,
            ..s
        },
        Step::DeleteCredentials => LoginState {
            step: Step::End,
            holds_credentials: false,
            failed: s.failed || !ok,
            ..s
        },
        Step::End => LoginState { step: Step::Done, failed: s.failed || !ok, ..s },
        Step::Done => s,
    }
}

/// The stages performed from `s` on, when the stages report `outcomes`
/// in turn.
pub open spec fn trace(s: LoginState, outcomes: Seq<bool>) -> Seq<Step>
    decreases outcomes.len(),
{
    if s.step == Step::Done || outcomes.len() == 0 {
        Seq::empty()
    } else {
        seq![s.step] + trace(next_state(s, outcomes[0]), outcomes.drop_first())
    }
}

/// How many times `x` occurs in `t`.
pub open spec fn occurrences(t: Seq<Step>, x: Step) -> nat
    decreases t.len(),
{
    if t.len() == 0 {
        0
    } else {
        occurrences(t.drop_first(), x) + if t[0] == x {
            1nat
        } else {
            0nat
        }
    }
}

/// The most stages that can still come from a state with step `s`.
pub open spec fn remaining(s: Step) -> nat {
    match s {
        Step::Authenticate => 9,
        Step::ValidateAccount => 8,
        Step::EstablishCredentials => 7,
        Step::PrepareSession => 6,
        Step::OpenSession => 5,
        Step::RunSession => 4,
        Step::CloseSession => 3,
        Step::DeleteCredentials => 2,
        Step::End => 1,
        Step::Done => 0,
    }
}

impl LoginState {
    /// The state in which a login starts.
    pub fn start(require_auth: bool) -> (r: LoginState)
        ensures
            r == initial_state(require_auth),
    {
        LoginState {
            step: if require_auth {
                Step::Authenticate
            } else {
                Step::ValidateAccount
            },
            holds_credentials: false,
            session_open: false,
            failed: false,
        }
    }

    /// The state after the current stage, given whether it succeeded.
    pub fn advance(self, ok: bool) -> (r: LoginState)
        ensures
            r == next_state(self, ok),
    {
        let teardown = if self.session_open {
            Step::CloseSession
        } else if self.holds_credentials {
            Step::DeleteCredentials
        } else {
            Step::End
        };
        match self.step {
            Step::Authenticate | Step::ValidateAccount => {
                if ok {
                    let step = if self.step == Step::Authenticate {
                        Step::ValidateAccount
                    } else {
                        Step::EstablishCredentials
                    };
                    LoginState { step, ..self }
                } else {
                    LoginState { step: Step::End, failed: true, ..self }
                }
            },
            Step::EstablishCredentials => {
                if ok {
                    LoginState { step: Step::PrepareSession, holds_credentials: true, ..self }
                } else {
                    LoginState { step: Step::End, failed: true, ..self }
                }
            },
            Step::PrepareSession => {
                if ok {
                    LoginState { step: Step::OpenSession, ..self }
                } else {
                    LoginState { step: teardown, failed: true, ..self }
                }
            },
            Step::OpenSession => {
                if ok {
                    LoginState { step: Step::RunSession, session_open: true, ..self }
                } else {
                    LoginState { step: teardown, failed: true, ..self }
                }
            },
            Step::RunSession => LoginState { step: teardown, failed: self.failed || !ok, ..self },
            Step::CloseSession => LoginState {
                step: if self.holds_credentials {
                    Step::DeleteCredentials
                } else {
                    Step::End
                },
                session_open: false,
                failed: self.failed || !ok,
                ..self
            },
            Step::DeleteCredentials => LoginState {
                step: Step::End,
                holds_credentials: false,
                failed: self.failed || !ok,
                ..self
            },
            Step::End => LoginState { step: Step::Done, failed: self.failed || !ok, ..self },
            Step::Done => self,
        }
    }

    /// Whether the login has nothing left to do.
    pub fn is_done(&self) -> (r: bool)
        ensures
            r == (self.step == Step::Done),
    {
        self.step == Step::Done
    }
}

/// A state that holds credentials and has not yet begun to delete them,
/// with the session open exactly between its opening and its closing.
pub open spec fn after_establish(s: LoginState) -> bool {
    &&& s.holds_credentials
    &&& match s.step {
        Step::PrepareSession | Step::OpenSession => !s.session_open,
        Step::RunSession | Step::CloseSession => s.session_open,
        Step::DeleteCredentials => !s.session_open,
        _ => false,
    }
}

proof fn lemma_occurrences_cons(a: Step, t: Seq<Step>, x: Step)
    ensures
        occurrences(seq![a] + t, x) == occurrences(t, x) + if a == x {
            1nat
        } else {
            0nat
        },
{
    assert((seq![a] + t).drop_first() =~= t);
}

/// From a state that holds credentials, every run deletes them exactly
/// once, right before the transaction ends, and ends it last.
proof fn lemma_teardown(s: LoginState, outcomes: Seq<bool>)
    requires
        after_establish(s),
        outcomes.len() >= remaining(s.step),
    ensures
        ({
            let t = trace(s, outcomes);
            &&& t.len() >= 2
            &&& t[t.len() - 2] == Step::DeleteCredentials
            &&& t[t.len() - 1] == Step::End
            &&& occurrences(t, Step::DeleteCredentials) == 1
            &&& occurrences(t, Step::End) == 1
        }),
    decreases outcomes.len(),
{
    let t = trace(s, outcomes);
    let n = next_state(s, outcomes[0]);
    let rest = outcomes.drop_first();
    let tail = trace(n, rest);
    assert(t == seq![s.step] + tail);
    lemma_occurrences_cons(s.step, tail, Step::DeleteCredentials);
    lemma_occurrences_cons(s.step, tail, Step::End);
    if s.step == Step::DeleteCredentials {
        let done = next_state(n, rest[0]);
        assert(trace(done, rest.drop_first()) == Seq::<Step>::empty());
        assert(tail == seq![Step::End] + Seq::<Step>::empty());
        lemma_occurrences_cons(Step::End, Seq::<Step>::empty(), Step::DeleteCredentials);
        lemma_occurrences_cons(Step::End, Seq::<Step>::empty(), Step::End);
    } else {
        lemma_teardown(n, rest);
    }
}

/// Every run that completes the establishing of credentials deletes them
/// exactly once, and does so before the PAM transaction ends, which comes
/// last; a failure at any later stage changes none of this.
pub proof fn law_credentials_deleted_once(s: LoginState, outcomes: Seq<bool>)
    requires
        s.step == Step::EstablishCredentials,
        !s.holds_credentials,
        !s.session_open,
        outcomes.len() >= remaining(Step::EstablishCredentials),
        outcomes[0],
    ensures
        ({
            let t = trace(s, outcomes);
            &&& t[0] == Step::EstablishCredentials
            &&& occurrences(t, Step::DeleteCredentials) == 1
            &&& occurrences(t, Step::End) == 1
            &&& t[t.len() - 2] == Step::DeleteCredentials
            &&& t[t.len() - 1] == Step::End
        }),
{
    let n = next_state(s, outcomes[0]);
    let tail = trace(n, outcomes.drop_first());
    lemma_teardown(n, outcomes.drop_first());
    assert(trace(s, outcomes) == seq![s.step] + tail);
    lemma_occurrences_cons(s.step, tail, Step::DeleteCredentials);
    lemma_occurrences_cons(s.step, tail, Step::End);
}

/// No stage from the session's run on opens a session or authenticates.
proof fn lemma_no_open_after_run(s: LoginState, outcomes: Seq<bool>)
    requires
        match s.step {
            Step::RunSession | Step::CloseSession | Step::DeleteCredentials | Step::End | Step::Done => true,
            _ => false,
        },
    ensures
        occurrences(trace(s, outcomes), Step::OpenSession) == 0,
        occurrences(trace(s, outcomes), Step::Authenticate) == 0,
    decreases outcomes.len(),
{
    if s.step != Step::Done && outcomes.len() > 0 {
        let n = next_state(s, outcomes[0]);
        let tail = trace(n, outcomes.drop_first());
        lemma_no_open_after_run(n, outcomes.drop_first());
        assert(trace(s, outcomes) == seq![s.step] + tail);
        lemma_occurrences_cons(s.step, tail, Step::OpenSession);
        lemma_occurrences_cons(s.step, tail, Step::Authenticate);
    }
}

/// A login that does not require authentication never calls
/// `pam_authenticate`, and opens its session only as its fourth stage,
/// after validating the account and establishing credentials.
pub proof fn law_account_checked_without_auth(outcomes: Seq<bool>)
    ensures
        ({
            let t = trace(initial_state(false), outcomes);
            &&& occurrences(t, Step::Authenticate) == 0
            &&& occurrences(t, Step::OpenSession) <= 1
            &&& occurrences(t, Step::OpenSession) == 1 ==> {
                &&& t[0] == Step::ValidateAccount
                &&& t[1] == Step::EstablishCredentials
                &&& t[3] == Step::OpenSession
            }
        }),
{
    let s0 = initial_state(false);
    if outcomes.len() == 0 {
        return;
    }
    let s1 = next_state(s0, outcomes[0]);
    let o1 = outcomes.drop_first();
    let t1 = trace(s1, o1);
    assert(trace(s0, outcomes) == seq![Step::ValidateAccount] + t1);
    lemma_occurrences_cons(Step::ValidateAccount, t1, Step::OpenSession);
    lemma_occurrences_cons(Step::ValidateAccount, t1, Step::Authenticate);
    if !outcomes[0] {
        lemma_no_open_after_run(s1, o1);
        return;
    }
    if o1.len() == 0 {
        return;
    }
    let s2 = next_state(s1, o1[0]);
    let o2 = o1.drop_first();
    let t2 = trace(s2, o2);
    assert(t1 == seq![Step::EstablishCredentials] + t2);
    lemma_occurrences_cons(Step::EstablishCredentials, t2, Step::OpenSession);
    lemma_occurrences_cons(Step::EstablishCredentials, t2, Step::Authenticate);
    if !o1[0] {
        lemma_no_open_after_run(s2, o2);
        return;
    }
    if o2.len() == 0 {
        return;
    }
    let s3 = next_state(s2, o2[0]);
    let o3 = o2.drop_first();
    let t3 = trace(s3, o3);
    assert(t2 == seq![Step::PrepareSession] + t3);
    lemma_occurrences_cons(Step::PrepareSession, t3, Step::OpenSession);
    lemma_occurrences_cons(Step::PrepareSession, t3, Step::Authenticate);
    if !o2[0] {
        lemma_no_open_after_run(s3, o3);
        return;
    }
    if o3.len() == 0 {
        return;
    }
    let s4 = next_state(s3, o3[0]);
    let o4 = o3.drop_first();
    let t4 = trace(s4, o4);
    assert(t3 == seq![Step::OpenSession] + t4);
    lemma_occurrences_cons(Step::OpenSession, t4, Step::OpenSession);
    lemma_occurrences_cons(Step::OpenSession, t4, Step::Authenticate);
    lemma_no_open_after_run(s4, o4);
}

} // verus!
