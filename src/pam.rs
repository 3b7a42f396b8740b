//! PAM flag words, the mapping of PAM return codes to errors, and the order
//! in which a login makes its PAM calls, failures included.

use crate::vars::{signed_decimal_chars, signed_decimal_text};
use vstd::prelude::*;

verus! {

/// A PAM flag word; combined flags are the bitwise union of single ones.
pub type Flag = i32;

/// The service should not generate any messages.
pub const SILENT: Flag = 0x8000;

/// Fail authentication for a user with a null authentication token.
pub const DISALLOW_NULL_AUTHTOK: Flag = 0x0001;

pub const ESTABLISH_CRED: Flag = 0x0002;

pub const DELETE_CRED: Flag = 0x0004;

pub const REINITIALIZE_CRED: Flag = 0x0008;

pub const REFRESH_CRED: Flag = 0x0010;

/// Update only the passwords that have aged.
pub const CHANGE_EXPIRED_AUTHTOK: Flag = 0x0020;

pub const NONE: Flag = 0x0000;

/// What `pam_setcred` is asked to do with the user's credentials.
#[derive(Clone, Copy, PartialEq, Eq, Structural, Debug)]
pub enum CredentialsOP {
    /// Initialize the credentials for the user.
    Establish,
    /// Delete the user's credentials.
    Delete,
    /// Fully reinitialize the user's credentials.
    Reinitialize,
    /// Extend the lifetime of the existing credentials.
    Refresh,
}

/// The flag that selects a credentials operation.
pub open spec fn credentials_flag(op: CredentialsOP) -> Flag {
    match op {
        CredentialsOP::Establish => ESTABLISH_CRED,
        CredentialsOP::Delete => DELETE_CRED,
        CredentialsOP::Reinitialize => REINITIALIZE_CRED,
        CredentialsOP::Refresh => REFRESH_CRED,
    }
}

impl CredentialsOP {
    /// The flag that selects this operation.
    pub fn flag(self) -> (r: Flag)
        ensures
            r == credentials_flag(self),
    {
        match self {
            CredentialsOP::Establish => ESTABLISH_CRED,
            CredentialsOP::Delete => DELETE_CRED,
            CredentialsOP::Reinitialize => REINITIALIZE_CRED,
            CredentialsOP::Refresh => REFRESH_CRED,
        }
    }
}

/// Builds a flag word one flag at a time.
pub struct FlagsBuilder(pub Flag);

impl FlagsBuilder {
    /// No flags.
    pub fn new() -> (r: FlagsBuilder)
        ensures
            r.0 == NONE,
    {
        FlagsBuilder(NONE)
    }

    /// Starts from the flags in `value`.
    pub fn from(value: Flag) -> (r: FlagsBuilder)
        ensures
            r.0 == value,
    {
        FlagsBuilder(value)
    }

    /// Adds `flag` when `condition` holds.
    pub fn set_if(self, condition: bool, flag: Flag) -> (r: FlagsBuilder)
        ensures
            r.0 == if condition {
                self.0 | flag
            } else {
                self.0
            },
    {
        if condition {
            FlagsBuilder(self.0 | flag)
        } else {
            self
        }
    }

    /// The flag word built.
    pub fn finish(self) -> (r: Flag)
        ensures
            r == self.0,
    {
        self.0
    }
}

/// The flags of `pam_authenticate` and `pam_acct_mgmt`.
pub open spec fn auth_flags(silent: bool, require_auth_token: bool) -> Flag {
    (if silent { SILENT } else { NONE }) | (if require_auth_token { DISALLOW_NULL_AUTHTOK } else { NONE })
}

/// The flags of `pam_authenticate` and `pam_acct_mgmt`.
pub fn authentication_flags(silent: bool, require_auth_token: bool) -> (r: Flag)
    ensures
        r == auth_flags(silent, require_auth_token),
{
    let r = FlagsBuilder::new().set_if(silent, SILENT).set_if(require_auth_token, DISALLOW_NULL_AUTHTOK).finish();
    assert(r == auth_flags(silent, require_auth_token)) by (bit_vector)
        requires
            r == (if require_auth_token { (if silent { 0i32 | 0x8000i32 } else { 0i32 }) | 0x0001i32 } else {
                if silent { 0i32 | 0x8000i32 } else { 0i32 }
            }),
            auth_flags(silent, require_auth_token) == (if silent { 0x8000i32 } else { 0i32 }) | (
            if require_auth_token { 0x0001i32 } else { 0i32 }),
    ;
    r
}

/// The flags of `pam_setcred` for `op`.
pub fn credentials_flags(op: CredentialsOP, silent: bool) -> (r: Flag)
    ensures
        r == credentials_flag(op) | (if silent { SILENT } else { NONE }),
{
    let r = FlagsBuilder::from(op.flag()).set_if(silent, SILENT).finish();
    let ghost f = credentials_flag(op);
    assert(r == f | (if silent { SILENT } else { NONE })) by (bit_vector)
        requires
            r == (if silent { f | 0x8000i32 } else { f }),
            (if silent { SILENT } else { NONE }) == (if silent { 0x8000i32 } else { 0i32 }),
    ;
    r
}

/// The flags of `pam_open_session` and `pam_close_session`.
pub fn session_flags(silent: bool) -> (r: Flag)
    ensures
        r == (if silent { SILENT } else { NONE }),
{
    let r = FlagsBuilder::new().set_if(silent, SILENT).finish();
    assert(r == (if silent { SILENT } else { NONE })) by (bit_vector)
        requires
            r == (if silent { 0i32 | 0x8000i32 } else { 0i32 }),
            (if silent { SILENT } else { NONE }) == (if silent { 0x8000i32 } else { 0i32 }),
    ;
    r
}

/// A PAM library function that a login calls.
#[derive(Clone, Copy, PartialEq, Eq, Structural, Debug)]
pub enum PamFunction {
    Start,
    Authenticate,
    AcctMgmt,
    Setcred,
    OpenSession,
    CloseSession,
    SetItem,
    GetUser,
    Putenv,
    PasteEnv,
    End,
}

/// The C name of a PAM function.
pub open spec fn function_name(f: PamFunction) -> Seq<char> {
    match f {
        PamFunction::Start => "pam_start"@,
        PamFunction::Authenticate => "pam_authenticate"@,
        PamFunction::AcctMgmt => "pam_acct_mgmt"@,
        PamFunction::Setcred => "pam_setcred"@,
        PamFunction::OpenSession => "pam_open_session"@,
        PamFunction::CloseSession => "pam_close_session"@,
        PamFunction::SetItem => "pam_set_item"@,
        PamFunction::GetUser => "pam_get_user"@,
        PamFunction::Putenv => "pam_putenv"@,
        PamFunction::PasteEnv => "pam_misc_paste_env"@,
        PamFunction::End => "pam_end"@,
    }
}

impl PamFunction {
    /// The C name of this function.
    pub fn name(&self) -> (r: &'static str)
        ensures
            r@ == function_name(*self),
    {
        match *self {
            PamFunction::Start => "pam_start",
            PamFunction::Authenticate => "pam_authenticate",
            PamFunction::AcctMgmt => "pam_acct_mgmt",
            PamFunction::Setcred => "pam_setcred",
            PamFunction::OpenSession => "pam_open_session",
            PamFunction::CloseSession => "pam_close_session",
            PamFunction::SetItem => "pam_set_item",
            PamFunction::GetUser => "pam_get_user",
            PamFunction::Putenv => "pam_putenv",
            PamFunction::PasteEnv => "pam_misc_paste_env",
            PamFunction::End => "pam_end",
        }
    }

    /// Whether a failure of this function means that the user was refused.
    pub open spec fn spec_decides_access(self) -> bool {
        self == PamFunction::Authenticate || self == PamFunction::AcctMgmt
    }
}

/// The code of a PAM call that succeeded.
pub const PAM_SUCCESS: i32 = 0;

/// The code that a conversation returns when it failed.
pub const PAM_CONV_ERR: i32 = 19;

/// A PAM call that did not succeed, with the function and its return code.
#[derive(Clone, Copy, PartialEq, Eq, Structural, Debug)]
pub enum PamError {
    /// Authentication or account validation refused the user.
    AuthFailure { function: PamFunction, code: i32 },
    /// Any other PAM call failed.
    Transaction { function: PamFunction, code: i32 },
}

impl PamError {
    /// The function that failed.
    pub fn function(&self) -> (r: PamFunction)
        ensures
            r == match *self {
                PamError::AuthFailure { function, .. } => function,
                PamError::Transaction { function, .. } => function,
            },
    {
        match *self {
            PamError::AuthFailure { function, .. } => function,
            PamError::Transaction { function, .. } => function,
        }
    }

    /// The return code of the failed call.
    pub fn code(&self) -> (r: i32)
        ensures
            r == match *self {
                PamError::AuthFailure { code, .. } => code,
                PamError::Transaction { code, .. } => code,
            },
    {
        match *self {
            PamError::AuthFailure { code, .. } => code,
            PamError::Transaction { code, .. } => code,
        }
    }

    /// A sentence that names the function that failed and its return code.
    pub fn message(&self) -> (r: String)
        ensures
            r@ == "pam error at `"@ + function_name(match *self {
                PamError::AuthFailure { function, .. } => function,
                PamError::Transaction { function, .. } => function,
            }) + "`: "@ + signed_decimal_chars(match *self {
                PamError::AuthFailure { code, .. } => code as int,
                PamError::Transaction { code, .. } => code as int,
            }),
    {
        String::from_str("pam error at `").concat(self.function().name()).concat("`: ").concat(
            signed_decimal_text(self.code()).as_str(),
        )
    }
}

/// What a PAM call's return code means: success for zero; else a refusal
/// of the user where authentication or account validation failed, and a
/// failure of the transaction otherwise.
pub fn check_return(function: PamFunction, code: i32) -> (r: Result<(), PamError>)
    ensures
        code == PAM_SUCCESS ==> r is Ok,
        code != PAM_SUCCESS && function.spec_decides_access() ==> r == Err::<(), PamError>(
            PamError::AuthFailure { function, code },
        ),
        code != PAM_SUCCESS && !function.spec_decides_access() ==> r == Err::<(), PamError>(
            PamError::Transaction { function, code },
        ),
{
    if code == PAM_SUCCESS {
        Ok(())
    } else if function == PamFunction::Authenticate || function == PamFunction::AcctMgmt {
        Err(PamError::AuthFailure { function, code })
    } else {
        Err(PamError::Transaction { function, code })
    }
}

/// How urgent a message from PAM is.
#[derive(Clone, Copy, PartialEq, Eq, Structural, Debug)]
pub enum MessageLevel {
    Error,
    Info,
}

/// A conversation could not go on; PAM learns only that it failed.
#[derive(Clone, Copy, PartialEq, Eq, Structural, Debug)]
pub struct ConversationError;

/// What the user sees of a PAM conversation: prompts and messages.
pub trait PamDisplay {
    /// Asks the user for text, shown as typed or hidden.
    fn prompt(&self, text: &str, show: bool) -> Result<String, ConversationError>;

    /// Shows the user a message.
    fn message(&self, text: &str, level: MessageLevel) -> Result<(), ConversationError>;
}

/// What a PAM message asks for.
#[derive(Clone, Copy, PartialEq, Eq, Structural, Debug)]
pub enum ConversationStep {
    /// Ask for text, echoed when `show` holds.
    Prompt { show: bool },
    /// Show a message.
    Message(MessageLevel),
}

/// What a PAM message of style `style` asks for.
pub open spec fn step_of_style(style: i32) -> Option<ConversationStep> {
    if style == 1 {
        Some(ConversationStep::Prompt { show: false })
    } else if style == 2 {
        Some(ConversationStep::Prompt { show: true })
    } else if style == 3 {
        Some(ConversationStep::Message(MessageLevel::Error))
    } else if style == 4 {
        Some(ConversationStep::Message(MessageLevel::Info))
    } else {
        None
    }
}

/// What a PAM message of style `style` asks for: styles 1 and 2 prompt
/// with the answer hidden or echoed, 3 and 4 show an error or a notice.
pub fn conversation_step(style: i32) -> (r: Option<ConversationStep>)
    ensures
        r == step_of_style(style),
{
    if style == 1 {
        Some(ConversationStep::Prompt { show: false })
    } else if style == 2 {
        Some(ConversationStep::Prompt { show: true })
    } else if style == 3 {
        Some(ConversationStep::Message(MessageLevel::Error))
    } else if style == 4 {
        Some(ConversationStep::Message(MessageLevel::Info))
    } else {
        None
    }
}

/// Answers PAM's messages through a display.
pub struct PamConversationHandler<D: PamDisplay> {
    pub display: D,
}

impl<D: PamDisplay> PamConversationHandler<D> {
    pub fn with_display(display: D) -> (r: PamConversationHandler<D>)
        ensures
            r.display == display,
    {
        PamConversationHandler { display }
    }

    /// Answers one message: the text typed for a prompt, nothing for a
    /// message shown.
    pub fn handle(&self, style: i32, text: &str) -> (r: Result<Option<String>, ConversationError>)
        ensures
            step_of_style(style) is None ==> r is Err,
            r matches Ok(answer) ==> (answer is Some <==> step_of_style(style) matches Some(
                ConversationStep::Prompt { .. },
            )),
    {
        match conversation_step(style) {
            None => Err(ConversationError),
            Some(ConversationStep::Prompt { show }) => match self.display.prompt(text, show) {
                Ok(answer) => Ok(Some(answer)),
                Err(e) => Err(e),
            },
            Some(ConversationStep::Message(level)) => match self.display.message(text, level) {
                Ok(()) => Ok(None),
                Err(e) => Err(e),
            },
        }
    }

    /// Answers PAM's messages in order, stopping at the first that cannot
    /// be answered; the answers line up with the messages.
    pub fn converse(&self, messages: &Vec<(i32, String)>) -> (r: Result<Vec<Option<String>>, ConversationError>)
        ensures
            messages@.len() == 0 ==> (r matches Ok(answers) && answers@.len() == 0),
            (exists|i: int| 0 <= i < messages@.len() && (#[trigger] step_of_style(messages@[i].0)) is None) ==> r is Err,
            r matches Ok(answers) ==> answers@.len() == messages@.len() && forall|i: int|
                0 <= i < messages@.len() ==> ((#[trigger] answers@[i]) is Some <==> step_of_style(messages@[i].0) matches Some(
                    ConversationStep::Prompt { .. },
                )),
    {
        let mut answers: Vec<Option<String>> = Vec::new();
        let mut i: usize = 0;
        while i < messages.len()
            invariant
                0 <= i <= messages@.len(),
                answers@.len() == i,
                forall|j: int| 0 <= j < i ==> (#[trigger] step_of_style(messages@[j].0)) is Some,
                forall|j: int|
                    0 <= j < i ==> ((#[trigger] answers@[j]) is Some <==> step_of_style(messages@[j].0) matches Some(
                        ConversationStep::Prompt { .. },
                    )),
            decreases messages@.len() - i,
        {
            let answer = match self.handle(messages[i].0, messages[i].1.as_str()) {
                Ok(a) => a,
                Err(e) => {
                    return Err(e);
                },
            };
            answers.push(answer);
            i = i + 1;
        }
        Ok(answers)
    }
}

/// The code that the conversation function hands back to PAM.
pub fn conversation_return_code<T>(r: &Result<T, ConversationError>) -> (code: i32)
    ensures
        code == if r is Ok {
            PAM_SUCCESS
        } else {
            PAM_CONV_ERR
        },
{
    match r {
        Ok(_) => PAM_SUCCESS,
        Err(_) => PAM_CONV_ERR,
    }
}

} // verus!
