//! Login and session lifecycle logic: a typed process environment, PAM
//! call sequencing, virtual-terminal control requests, the X authority
//! file format and the session backends.

pub mod decimal;
pub mod env;
pub mod login;
pub mod pam;
pub mod session;
pub mod supervisor;
pub mod vars;
pub mod vt;
pub mod x11;
pub mod xauth;
