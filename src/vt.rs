//! Virtual-terminal control: the console driver's request numbers, the
//! modes a terminal can be put in, and the requests that activating a
//! terminal makes.

use crate::vars::VtNumber;
use vstd::prelude::*;

verus! {

/// Reads the active terminal and its pending signals.
pub const GET_STATE: u32 = 0x5603;

/// Reads whether the console is in text or graphics mode.
pub const GET_RENDER_MODE: u32 = 0x4B3B;

/// Puts the console in text or graphics mode.
pub const SET_RENDER_MODE: u32 = 0x4B3A;

/// Reads how keyboard input is delivered.
pub const GET_KEYBOARD_MODE: u32 = 0x4B44;

/// Sets how keyboard input is delivered.
pub const SET_KEYBOARD_MODE: u32 = 0x4B45;

/// Switches to another terminal, with its switching mode.
pub const SET_ACTIVE: u32 = 0x560F;

/// Waits until a terminal is the active one.
pub const WAIT_ACTIVE: u32 = 0x5607;

/// Makes the terminal the controlling terminal of the calling process.
pub const SET_CONTROLLING_TTY: u32 = 0x540E;

/// Who draws on the console.
#[derive(Clone, Copy, PartialEq, Eq, Structural, Debug)]
pub enum RenderMode {
    /// The console driver draws text.
    Text,
    /// The session owns pixel output.
    Graphics,
}

impl RenderMode {
    /// The driver's number for this mode.
    pub open spec fn spec_code(self) -> i32 {
        match self {
            RenderMode::Text => 0,
            RenderMode::Graphics => 1,
        }
    }

    /// The driver's number for this mode.
    pub fn code(self) -> (r: i32)
        ensures
            r == self.spec_code(),
    {
        match self {
            RenderMode::Text => 0,
            RenderMode::Graphics => 1,
        }
    }

    /// The mode that the driver's number `code` stands for.
    pub fn from_code(code: i32) -> (r: Option<RenderMode>)
        ensures
            match r {
                Some(m) => m.spec_code() == code,
                None => forall|m: RenderMode| m.spec_code() != code,
            },
    {
        if code == 0 {
            Some(RenderMode::Text)
        } else if code == 1 {
            Some(RenderMode::Graphics)
        } else {
            None
        }
    }
}

/// How keyboard input reaches the terminal's reader.
#[derive(Clone, Copy, PartialEq, Eq, Structural, Debug)]
pub enum KeyboardMode {
    Disabled,
    Scancode,
    Keycode,
    Ascii,
    Unicode,
}

impl KeyboardMode {
    /// The driver's number for this mode.
    pub open spec fn spec_code(self) -> i32 {
        match self {
            KeyboardMode::Disabled => 4,
            KeyboardMode::Scancode => 0,
            KeyboardMode::Keycode => 2,
            KeyboardMode::Ascii => 1,
            KeyboardMode::Unicode => 3,
        }
    }

    /// The driver's number for this mode.
    pub fn code(self) -> (r: i32)
        ensures
            r == self.spec_code(),
    {
        match self {
            KeyboardMode::Disabled => 4,
            KeyboardMode::Scancode => 0,
            KeyboardMode::Keycode => 2,
            KeyboardMode::Ascii => 1,
            KeyboardMode::Unicode => 3,
        }
    }

    /// The mode that the driver's number `code` stands for.
    pub fn from_code(code: i32) -> (r: Option<KeyboardMode>)
        ensures
            match r {
                Some(m) => m.spec_code() == code,
                None => forall|m: KeyboardMode| m.spec_code() != code,
            },
    {
        if code == 0 {
            Some(KeyboardMode::Scancode)
        } else if code == 1 {
            Some(KeyboardMode::Ascii)
        } else if code == 2 {
            Some(KeyboardMode::Keycode)
        } else if code == 3 {
            Some(KeyboardMode::Unicode)
        } else if code == 4 {
            Some(KeyboardMode::Disabled)
        } else {
            None
        }
    }
}

/// Who decides when the console switches away from a terminal.
#[derive(Clone, Copy, PartialEq, Eq, Structural, Debug)]
pub enum SwitchMode {
    /// The console switches by itself.
    Auto,
    /// The owning process controls switching.
    Process,
    /// The owning process acknowledges a switch.
    AckAcq,
}

impl SwitchMode {
    /// The driver's number for this mode.
    pub fn code(self) -> (r: u8)
        ensures
            r == match self {
                SwitchMode::Auto => 0u8,
                SwitchMode::Process => 1u8,
                SwitchMode::AckAcq => 2u8,
            },
    {
        match self {
            SwitchMode::Auto => 0,
            SwitchMode::Process => 1,
            SwitchMode::AckAcq => 2,
        }
    }
}

/// A terminal's switching mode, as the driver lays it out.
#[derive(Clone, Copy, PartialEq, Eq, Structural, Debug)]
pub struct Mode {
    pub switch_mode: SwitchMode,
    pub wait_on_write_to_inactive: u8,
    pub signal_release: u16,
    pub signal_acquire: u16,
    pub unused: u16,
}

/// Automatic switching with no signals.
pub open spec fn default_mode() -> Mode {
    Mode {
        switch_mode: SwitchMode::Auto,
        wait_on_write_to_inactive: 0,
        signal_release: 0,
        signal_acquire: 0,
        unused: 0,
    }
}

impl Default for Mode {
    fn default() -> (r: Mode)
        ensures
            r == default_mode(),
    {
        Mode {
            switch_mode: SwitchMode::Auto,
            wait_on_write_to_inactive: 0,
            signal_release: 0,
            signal_acquire: 0,
            unused: 0,
        }
    }
}

/// What the driver reports of the console as a whole.
#[derive(Clone, Copy, PartialEq, Eq, Structural, Debug)]
pub struct CommonState {
    /// The number of the active terminal.
    pub active_number: u16,
    pub signal: u16,
    pub state: u16,
}

/// One request to the console driver.
#[derive(Clone, Copy, PartialEq, Eq, Structural, Debug)]
pub enum VtRequest {
    GetRenderMode,
    SetRenderMode(RenderMode),
    GetKeyboardMode,
    SetKeyboardMode(KeyboardMode),
    /// Writes the sequence that clears the screen.
    Clear,
    GetState,
    /// Switches to a terminal with the given mode.
    SetActive { number: u16, mode: Mode },
    /// Waits until the terminal is active.
    WaitActive(u16),
}

impl VtRequest {
    /// The driver's request number, where the request is one.
    pub fn opcode(&self) -> (r: Option<u32>)
        ensures
            r == match *self {
                VtRequest::GetRenderMode => Some(GET_RENDER_MODE),
                VtRequest::SetRenderMode(_) => Some(SET_RENDER_MODE),
                VtRequest::GetKeyboardMode => Some(GET_KEYBOARD_MODE),
                VtRequest::SetKeyboardMode(_) => Some(SET_KEYBOARD_MODE),
                VtRequest::Clear => None::<u32>,
                VtRequest::GetState => Some(GET_STATE),
                VtRequest::SetActive { .. } => Some(SET_ACTIVE),
                VtRequest::WaitActive(_) => Some(WAIT_ACTIVE),
            },
    {
        match *self {
            VtRequest::GetRenderMode => Some(GET_RENDER_MODE),
            VtRequest::SetRenderMode(_) => Some(SET_RENDER_MODE),
            VtRequest::GetKeyboardMode => Some(GET_KEYBOARD_MODE),
            VtRequest::SetKeyboardMode(_) => Some(SET_KEYBOARD_MODE),
            VtRequest::Clear => None,
            VtRequest::GetState => Some(GET_STATE),
            VtRequest::SetActive { .. } => Some(SET_ACTIVE),
            VtRequest::WaitActive(_) => Some(WAIT_ACTIVE),
        }
    }
}

/// The requests that switch the console to terminal `target`, with the
/// switching mode `mode`, when the driver reports `active` as the active
/// one: none when it already is, so that the screen does not flicker; else
/// one switch and one wait.
pub open spec fn switch_requests_in_mode_spec(active: u16, target: VtNumber, mode: Mode) -> Seq<VtRequest> {
    if active == target.0 {
        Seq::empty()
    } else {
        seq![VtRequest::SetActive { number: target.0, mode }, VtRequest::WaitActive(target.0)]
    }
}

/// The requests that switch the console to terminal `target` in the
/// default switching mode.
pub open spec fn switch_requests_spec(active: u16, target: VtNumber) -> Seq<VtRequest> {
    switch_requests_in_mode_spec(active, target, default_mode())
}

/// The requests that switch the console to `target`, given the active
/// terminal that the driver reported, in switching mode `mode` or, where
/// none is given, the default one.
pub fn switch_requests_with_mode(active: u16, target: VtNumber, mode: Option<Mode>) -> (r: Vec<VtRequest>)
    ensures
        r@ == switch_requests_in_mode_spec(
            active,
            target,
            match mode {
                Some(m) => m,
                None => default_mode(),
            },
        ),
{
    let mode = match mode {
        Some(m) => m,
        None => Mode::default(),
    };
    let mut r: Vec<VtRequest> = Vec::new();
    if active != target.0 {
        r.push(VtRequest::SetActive { number: target.0, mode });
        r.push(VtRequest::WaitActive(target.0));
    }
    assert(r@ =~= switch_requests_in_mode_spec(active, target, mode));
    r
}

/// The requests that switch the console to `target` in the default
/// switching mode, given the active terminal that the driver reported.
pub fn switch_requests(active: u16, target: VtNumber) -> (r: Vec<VtRequest>)
    ensures
        r@ == switch_requests_spec(active, target),
{
    switch_requests_with_mode(active, target, None)
}

/// The requests made before the active terminal is read, when a session
/// takes its terminal: set the render mode, clear the screen, then read
/// which terminal is active.
pub fn preparation_requests(mode: RenderMode) -> (r: Vec<VtRequest>)
    ensures
        r@ == seq![VtRequest::SetRenderMode(mode), VtRequest::Clear, VtRequest::GetState],
{
    let r = vec![VtRequest::SetRenderMode(mode), VtRequest::Clear, VtRequest::GetState];
    assert(r@ =~= seq![VtRequest::SetRenderMode(mode), VtRequest::Clear, VtRequest::GetState]);
    r
}

/// The bytes that move the cursor home and clear the screen.
pub fn clear_sequence() -> (r: Vec<u8>)
    ensures
        r@ == seq![27u8, 91, 72, 27, 91, 50, 74],
{
    let r = vec![27u8, 91, 72, 27, 91, 50, 74];
    assert(r@ =~= seq![27u8, 91, 72, 27, 91, 50, 74]);
    r
}

/// The device path of a terminal, `/dev/tty` and its number.
pub fn device_path(number: VtNumber) -> (r: String)
    ensures
        r@ == "/dev/"@ + "tty"@ + crate::vars::ascii_chars(crate::decimal::decimal_of(number.0 as nat)),
{
    let name = number.to_tty_string();
    let r = String::from_str("/dev/").concat(name.as_str());
    assert(r@ =~= "/dev/"@ + "tty"@ + crate::vars::ascii_chars(crate::decimal::decimal_of(number.0 as nat)));
    r
}

} // verus!
