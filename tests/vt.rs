use flint::vars::VtNumber;
use flint::vt::{
    switch_requests_with_mode, GET_KEYBOARD_MODE, GET_RENDER_MODE, SET_KEYBOARD_MODE,
    clear_sequence, device_path, preparation_requests, switch_requests, KeyboardMode, Mode, RenderMode, SwitchMode,
    VtRequest, SET_ACTIVE, WAIT_ACTIVE,
};

#[test]
fn activate_same_terminal_makes_no_switch() {
    assert!(switch_requests(5, VtNumber::manually_checked_from(5)).is_empty());
}

#[test]
fn activate_other_terminal_switches_and_waits_once() {
    let r = switch_requests(1, VtNumber::manually_checked_from(5));
    assert_eq!(r, vec![VtRequest::SetActive { number: 5, mode: Mode::default() }, VtRequest::WaitActive(5)]);
    assert_eq!(r[0].opcode(), Some(SET_ACTIVE));
    assert_eq!(r[1].opcode(), Some(WAIT_ACTIVE));
    assert_eq!(SET_ACTIVE, 0x560F);
    assert_eq!(WAIT_ACTIVE, 0x5607);
}

#[test]
fn preparation_sets_mode_and_clears() {
    assert_eq!(
        preparation_requests(RenderMode::Graphics),
        vec![VtRequest::SetRenderMode(RenderMode::Graphics), VtRequest::Clear, VtRequest::GetState]
    );
    assert_eq!(clear_sequence(), b"\x1B[H\x1B[2J".to_vec());
}

#[test]
fn mode_codes() {
    assert_eq!(RenderMode::Text.code(), 0);
    assert_eq!(RenderMode::Graphics.code(), 1);
    assert_eq!(RenderMode::from_code(2), None);
    assert_eq!(KeyboardMode::Disabled.code(), 4);
    assert_eq!(KeyboardMode::from_code(3), Some(KeyboardMode::Unicode));
    assert_eq!(KeyboardMode::from_code(-1), None);
    assert_eq!(SwitchMode::AckAcq.code(), 2);
    let m = Mode::default();
    assert_eq!(m.switch_mode, SwitchMode::Auto);
    assert_eq!(m.signal_acquire, 0);
}

#[test]
fn terminal_device_path() {
    assert_eq!(device_path(VtNumber::manually_checked_from(7)), "/dev/tty7");
}

#[test]
fn activate_with_switch_mode_carries_it() {
    let mode = Mode { switch_mode: SwitchMode::Process, wait_on_write_to_inactive: 1, signal_release: 10, signal_acquire: 12, unused: 0 };
    let r = switch_requests_with_mode(2, VtNumber::manually_checked_from(6), Some(mode));
    assert_eq!(r, vec![VtRequest::SetActive { number: 6, mode }, VtRequest::WaitActive(6)]);
    assert!(switch_requests_with_mode(6, VtNumber::manually_checked_from(6), Some(mode)).is_empty());
    assert_eq!(switch_requests_with_mode(1, VtNumber::manually_checked_from(5), None), switch_requests(1, VtNumber::manually_checked_from(5)));
}

#[test]
fn mode_request_opcodes() {
    assert_eq!(VtRequest::GetRenderMode.opcode(), Some(GET_RENDER_MODE));
    assert_eq!(VtRequest::GetKeyboardMode.opcode(), Some(GET_KEYBOARD_MODE));
    assert_eq!(VtRequest::SetKeyboardMode(KeyboardMode::Unicode).opcode(), Some(SET_KEYBOARD_MODE));
    assert_eq!(GET_RENDER_MODE, 0x4B3B);
    assert_eq!(GET_KEYBOARD_MODE, 0x4B44);
    assert_eq!(SET_KEYBOARD_MODE, 0x4B45);
    assert_eq!(VtRequest::Clear.opcode(), None);
}
