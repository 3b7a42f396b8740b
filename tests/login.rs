use flint::login::{LoginState, Step};
use flint::pam::{
    authentication_flags, check_return, conversation_step, credentials_flags, session_flags, ConversationStep,
    CredentialsOP, FlagsBuilder, MessageLevel, PamError, PamFunction, DISALLOW_NULL_AUTHTOK, SILENT,
};

fn run(require_auth: bool, fail_at: Option<Step>) -> Vec<Step> {
    let mut state = LoginState::start(require_auth);
    let mut steps = Vec::new();
    while !state.is_done() {
        steps.push(state.step);
        let ok = Some(state.step) != fail_at;
        state = state.advance(ok);
        assert!(steps.len() <= 10);
    }
    steps
}

fn count(steps: &[Step], s: Step) -> usize {
    steps.iter().filter(|x| **x == s).count()
}

#[test]
fn skipped_authentication_still_validates_and_establishes() {
    let steps = run(false, None);
    assert_eq!(
        steps,
        vec![
            Step::ValidateAccount,
            Step::EstablishCredentials,
            Step::PrepareSession,
            Step::OpenSession,
            Step::RunSession,
            Step::CloseSession,
            Step::DeleteCredentials,
            Step::End,
        ]
    );
}

#[test]
fn required_authentication_comes_first() {
    let steps = run(true, None);
    assert_eq!(steps[0], Step::Authenticate);
    assert_eq!(steps.len(), 9);
}

#[test]
fn every_failure_after_establish_deletes_credentials_once() {
    for fail_at in [
        Step::PrepareSession,
        Step::OpenSession,
        Step::RunSession,
        Step::CloseSession,
        Step::DeleteCredentials,
        Step::End,
    ] {
        let steps = run(true, Some(fail_at));
        assert_eq!(count(&steps, Step::DeleteCredentials), 1, "failing at {:?}", fail_at);
        assert_eq!(count(&steps, Step::End), 1);
        assert_eq!(steps[steps.len() - 1], Step::End);
        assert_eq!(steps[steps.len() - 2], Step::DeleteCredentials);
    }
}

#[test]
fn child_crash_still_closes_session() {
    let steps = run(true, Some(Step::RunSession));
    let close = steps.iter().position(|s| *s == Step::CloseSession).unwrap();
    let delete = steps.iter().position(|s| *s == Step::DeleteCredentials).unwrap();
    assert!(close < delete);
}

#[test]
fn failed_open_does_not_close() {
    let steps = run(true, Some(Step::OpenSession));
    assert_eq!(count(&steps, Step::CloseSession), 0);
    assert_eq!(count(&steps, Step::DeleteCredentials), 1);
}

#[test]
fn failure_before_establish_only_ends() {
    for fail_at in [Step::Authenticate, Step::ValidateAccount, Step::EstablishCredentials] {
        let steps = run(true, Some(fail_at));
        assert_eq!(count(&steps, Step::DeleteCredentials), 0);
        assert_eq!(steps[steps.len() - 1], Step::End);
        assert_eq!(steps[steps.len() - 2], fail_at);
    }
}

#[test]
fn flag_words() {
    assert_eq!(authentication_flags(true, true), 0x8001);
    assert_eq!(authentication_flags(false, true), DISALLOW_NULL_AUTHTOK);
    assert_eq!(authentication_flags(true, false), SILENT);
    assert_eq!(authentication_flags(false, false), 0);
    assert_eq!(credentials_flags(CredentialsOP::Establish, false), 0x0002);
    assert_eq!(credentials_flags(CredentialsOP::Delete, true), 0x8004);
    assert_eq!(credentials_flags(CredentialsOP::Reinitialize, false), 0x0008);
    assert_eq!(credentials_flags(CredentialsOP::Refresh, true), 0x8010);
    assert_eq!(session_flags(true), 0x8000);
    assert_eq!(FlagsBuilder::from(0x20).set_if(true, 0x1).set_if(false, 0x8000).finish(), 0x21);
    assert_eq!(FlagsBuilder::new().finish(), 0);
}

#[test]
fn return_codes_map_to_errors() {
    assert_eq!(check_return(PamFunction::Setcred, 0), Ok(()));
    assert_eq!(
        check_return(PamFunction::Authenticate, 7),
        Err(PamError::AuthFailure { function: PamFunction::Authenticate, code: 7 })
    );
    assert_eq!(
        check_return(PamFunction::AcctMgmt, 13),
        Err(PamError::AuthFailure { function: PamFunction::AcctMgmt, code: 13 })
    );
    let e = check_return(PamFunction::OpenSession, 14).unwrap_err();
    assert_eq!(e, PamError::Transaction { function: PamFunction::OpenSession, code: 14 });
    assert_eq!(e.message(), "pam error at `pam_open_session`: 14");
    assert_eq!(
        PamError::AuthFailure { function: PamFunction::Authenticate, code: 7 }.message(),
        "pam error at `pam_authenticate`: 7"
    );
    assert_eq!(
        PamError::Transaction { function: PamFunction::End, code: -3 }.message(),
        "pam error at `pam_end`: -3"
    );
}

#[test]
fn message_styles() {
    assert_eq!(conversation_step(1), Some(ConversationStep::Prompt { show: false }));
    assert_eq!(conversation_step(2), Some(ConversationStep::Prompt { show: true }));
    assert_eq!(conversation_step(3), Some(ConversationStep::Message(MessageLevel::Error)));
    assert_eq!(conversation_step(4), Some(ConversationStep::Message(MessageLevel::Info)));
    assert_eq!(conversation_step(5), None);
}
