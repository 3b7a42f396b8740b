use flint::env::{Env, EnvVar};
use flint::vars::{Seat, VtNumber};
use flint::x11::{
    parse_display_report, x11_client_env, xorg_arguments, Display, DisplayError, FdContext, WindowPath,
};
use flint::xauth::{Cookie, XAuthorityManager};

#[test]
fn display_report_seven_sets_display_and_authority() {
    let display = parse_display_report(b"7\n").unwrap();
    assert_eq!(display.number(), 7);
    let manager = XAuthorityManager::new(
        &b"/run/user/1000/flint".to_vec(),
        &Seat(b"seat0".to_vec()),
        Cookie::new([7; 16]),
        b"host".to_vec(),
        true,
    );
    let (_, authority) = manager.setup_client(&display);
    let base = Env::empty();
    let window_path = WindowPath::previous_plus_vt(&base, &VtNumber::manually_checked_from(2));
    let env = x11_client_env(base, display, authority, window_path);
    assert_eq!(env.get_raw("DISPLAY"), Some(b":7".to_vec()));
    assert_eq!(
        env.get_raw("XAUTHORITY"),
        Some(b"/run/user/1000/flint/seat0/client-authority".to_vec())
    );
    assert_eq!(env.get_raw("WINDOWPATH"), Some(b"2".to_vec()));
}

#[test]
fn empty_report_is_distinct_from_garbage() {
    assert_eq!(parse_display_report(b""), Err(DisplayError::NoDisplayReported));
    assert_eq!(parse_display_report(b"\n"), Err(DisplayError::InvalidDisplayNumber));
    assert_eq!(parse_display_report(b"x7\n"), Err(DisplayError::InvalidDisplayNumber));
    assert_eq!(parse_display_report(b"256\n"), Err(DisplayError::InvalidDisplayNumber));
    assert_eq!(parse_display_report(b"0"), Ok(Display(0)));
    assert_eq!(parse_display_report(b"42 \r\n"), Ok(Display(42)));
}

#[test]
fn display_variable_form() {
    assert_eq!(Display::new(11).serialize(), b":11".to_vec());
    assert_eq!(Display::deserialize(b":11"), Some(Display(11)));
    assert_eq!(Display::deserialize(b"11"), None);
    assert_eq!(Display::deserialize(b":"), None);
}

#[test]
fn window_path_appends_terminal() {
    let env = Env::empty().set(WindowPath(b"1:3".to_vec()));
    let p = WindowPath::previous_plus_vt(&env, &VtNumber::manually_checked_from(5));
    assert_eq!(p.0, b"1:3:5".to_vec());
}

#[test]
fn xorg_command_line() {
    let args = xorg_arguments(
        VtNumber::manually_checked_from(5),
        &Seat(b"seat0".to_vec()),
        &b"/run/a".to_vec(),
        3,
    );
    let expected: Vec<Vec<u8>> = [
        "vt5", "-seat", "seat0", "-auth", "/run/a", "-nolisten", "tcp", "-background", "none", "-noreset",
        "-keeptty", "-novtswitch", "-verbose", "3", "-logfile", "/dev/null", "-displayfd", "3",
    ]
    .iter()
    .map(|s| s.as_bytes().to_vec())
    .collect();
    assert_eq!(args, expected);
}

#[test]
fn fd_context_hands_out_range_then_stops() {
    let mut ctx = FdContext::new(3, 5);
    assert_eq!(ctx.pass().map(|p| p.num()), Some(3));
    assert_eq!(ctx.pass().map(|p| p.num()), Some(4));
    assert!(ctx.pass().is_none());
}
