use flint::env::Env;
use flint::session::{
    compose_session_env, resolve_tty_executable, setup_tty_session, setup_wayland_session, special_meta_shell,
    tty_lookup_metadata, LoginContext, SessionDefinition, SessionError, SessionKind, SessionMetadata, UserID,
    UserInfo,
};
use flint::supervisor::{exit_reason, failure_reason, JoinAction, JoinError, JoinState};
use flint::vars::{Home, Seat, SessionClass, Shell, VtNumber};
use flint::vt::RenderMode;

fn context(env: Env) -> LoginContext {
    LoginContext::new(
        env,
        Seat::default_seat(),
        Some(VtNumber::manually_checked_from(5)),
        UserID { uid: 1000, gid: 1000 },
    )
}

#[test]
fn tty_shell_session_without_shell_fails() {
    let mut ctx = context(Env::empty());
    let r = setup_tty_session(&mut ctx, b"<shell_env>");
    match r {
        Err(e) => {
            assert!(matches!(e, SessionError::MissingShell(_)));
            assert_eq!(e.message(), "Cannot find user shell");
        }
        Ok(_) => panic!("a shell session started without a shell"),
    }
}

#[test]
fn tty_shell_session_runs_user_shell_on_its_terminal() {
    let mut ctx = context(Env::empty().set(Shell(b"/bin/fish".to_vec())));
    let req = setup_tty_session(&mut ctx, b"<shell_env>").ok().unwrap();
    assert_eq!(req.program, b"/bin/fish".to_vec());
    assert_eq!(req.terminal, Some(VtNumber::manually_checked_from(5)));
    assert_eq!(req.user, Some(UserID { uid: 1000, gid: 1000 }));
    assert_eq!(req.env.get_raw("XDG_VTNR"), Some(b"5".to_vec()));
    assert!(ctx.terminal.is_none());
    assert!(matches!(setup_tty_session(&mut ctx, b"/bin/sh"), Err(SessionError::NoTerminal)));
}

#[test]
fn tty_plain_executable_is_kept() {
    let r = resolve_tty_executable(b"/usr/bin/htop", &Env::empty()).ok().unwrap();
    assert_eq!(r, b"/usr/bin/htop".to_vec());
}

#[test]
fn tty_catalog_has_only_shell() {
    let d = tty_lookup_metadata("shell").ok().unwrap();
    assert_eq!(d.id, "shell");
    assert_eq!(d.metadata.executable, b"<shell_env>".to_vec());
    assert!(matches!(tty_lookup_metadata("bash"), Err(SessionError::UndefinedTtySession)));
    let s = special_meta_shell();
    assert!(s.metadata.display_name.is_none());
    assert_eq!(s.metadata.description.as_deref(), Some("Default shell as set for the target user"));
}

#[test]
fn wayland_session_adds_hints() {
    let mut ctx = context(Env::empty());
    let req = setup_wayland_session(&mut ctx, b"/usr/bin/sway");
    assert_eq!(req.program, b"/usr/bin/sway".to_vec());
    assert_eq!(req.env.get_raw("MOZ_ENABLE_WAYLAND"), Some(b"1".to_vec()));
    assert_eq!(req.env.get_raw("QT_QPA_PLATFORM"), Some(b"wayland".to_vec()));
    assert_eq!(req.env.get_raw("SDL_VIDEODRIVER"), Some(b"wayland".to_vec()));
    assert_eq!(req.env.get_raw("_JAVA_AWT_WM_NONREPARENTING"), Some(b"1".to_vec()));
    assert!(req.terminal.is_none());
}

#[test]
fn kinds_and_tags() {
    assert_eq!(SessionKind::X11.tag(), "x11");
    assert_eq!(SessionKind::from_tag("wayland"), Some(SessionKind::Wayland));
    assert_eq!(SessionKind::from_tag("tty"), Some(SessionKind::Tty));
    assert_eq!(SessionKind::from_tag("mir"), None);
    assert_eq!(SessionKind::Tty.vt_render_mode(), RenderMode::Text);
    assert_eq!(SessionKind::X11.vt_render_mode(), RenderMode::Graphics);
}

#[test]
fn current_context_takes_terminal_and_seat() {
    let env = Env::empty()
        .set(VtNumber::manually_checked_from(3))
        .set_untyped("OTHER".to_string(), b"x".to_vec());
    let ctx = LoginContext::current(env).ok().unwrap();
    assert_eq!(ctx.terminal, Some(VtNumber::manually_checked_from(3)));
    assert_eq!(ctx.seat.0, b"seat0".to_vec());
    assert_eq!(ctx.env.get_raw("XDG_VTNR"), None);
    assert_eq!(ctx.env.get_raw("OTHER"), Some(b"x".to_vec()));
    assert!(LoginContext::current(Env::empty()).is_err());
}

#[test]
fn session_environment_composition() {
    let user = UserInfo { uid: 1, gid: 2, home: Home(b"/home/a".to_vec()), shell: Shell(b"/bin/sh".to_vec()) };
    assert_eq!(user.as_user_id(), UserID { uid: 1, gid: 2 });
    let def = SessionDefinition::from_meta(
        "plasma".to_string(),
        SessionMetadata { display_name: Some("Plasma".to_string()), description: None, executable: b"/usr/bin/startplasma".to_vec() },
    );
    let env = compose_session_env(
        Env::empty(),
        SessionClass::User { early: false, light: false },
        user,
        SessionKind::Wayland,
        &def,
    );
    assert_eq!(env.get_raw("XDG_SESSION_CLASS"), Some(b"user".to_vec()));
    assert_eq!(env.get_raw("HOME"), Some(b"/home/a".to_vec()));
    assert_eq!(env.get_raw("SHELL"), Some(b"/bin/sh".to_vec()));
    assert_eq!(env.get_raw("XDG_SESSION_TYPE"), Some(b"wayland".to_vec()));
    assert_eq!(env.get_raw("XDG_SESSION_DESKTOP"), Some(b"plasma".to_vec()));
    assert_eq!(env.get_raw("XDG_CURRENT_DESKTOP"), Some(b"plasma".to_vec()));
}

#[test]
fn join_releases_after_report_then_returns() {
    let mut join = JoinState::new();
    assert_eq!(join.next_action(), JoinAction::Receive);
    join.on_received(Some(exit_reason("sway", "exit status: 0")));
    assert_eq!(join.next_action(), JoinAction::Release);
    join.on_released();
    assert_eq!(join.next_action(), JoinAction::Return);
    assert_eq!(join.outcome, Some(Ok("\"sway\" exited with exit status: 0".to_string())));
}

#[test]
fn join_on_closed_channel() {
    let mut join = JoinState::new();
    join.on_received(None);
    assert_eq!(join.next_action(), JoinAction::Release);
    assert!(matches!(join.outcome, Some(Err(JoinError::ChannelClosed))));
    assert_eq!(
        JoinError::ChannelClosed.message(),
        "Tx end of session shutdown channel unexpectedly closed"
    );
}

#[test]
fn failure_report_text() {
    assert_eq!(failure_reason("Xorg", "not found"), "Error while handling \"Xorg\":\nnot found");
}

#[test]
fn listing_lines() {
    let plain = SessionDefinition::from_meta(
        "sway".to_string(),
        SessionMetadata { display_name: Some("sway".to_string()), description: None, executable: vec![] },
    );
    assert_eq!(plain.listing_line(), "[sway]");
    let named = SessionDefinition::from_meta(
        "plasma".to_string(),
        SessionMetadata {
            display_name: Some("Plasma (Wayland)".to_string()),
            description: Some("KDE".to_string()),
            executable: vec![],
        },
    );
    assert_eq!(named.listing_line(), "[plasma]: Plasma (Wayland): KDE");
    assert_eq!(special_meta_shell().listing_line(), "[shell]: Default shell as set for the target user");
}
