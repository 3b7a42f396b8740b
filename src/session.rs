//! Session definitions, the login context that backends work on, and the
//! backends' own decisions: which backend a tag selects, which variables
//! each one contributes, and what program each one starts.

use crate::env::{Env, EnvError, EnvUpdate, EnvVar, updates_view, fold_updates, read_outcome};
use crate::vars::{bytes_eq, CurrentDesktop, Home, Seat, SessionClass, SessionDesktop, SessionType, Shell, VtNumber};
use crate::vt::RenderMode;
use vstd::prelude::*;
use vstd::string::StringSliceAdditionalSpecFns;
use vstd::utf8::encode_utf8;

verus! {

/// The session families that can be started.
#[derive(Clone, Copy, PartialEq, Eq, Structural, Debug)]
pub enum SessionKind {
    X11,
    Wayland,
    Tty,
}

/// The stable name of a session family, also its `XDG_SESSION_TYPE`.
pub open spec fn kind_tag(k: SessionKind) -> Seq<char> {
    match k {
        SessionKind::X11 => "x11"@,
        SessionKind::Wayland => "wayland"@,
        SessionKind::Tty => "tty"@,
    }
}

impl SessionKind {
    /// The stable name of this family.
    pub fn tag(&self) -> (r: &'static str)
        ensures
            r@ == kind_tag(*self),
    {
        match *self {
            SessionKind::X11 => "x11",
            SessionKind::Wayland => "wayland",
            SessionKind::Tty => "tty",
        }
    }

    /// The console mode that the family's sessions need: text for terminal
    /// sessions, graphics for the others.
    pub fn vt_render_mode(&self) -> (r: RenderMode)
        ensures
            r == if *self == SessionKind::Tty {
                RenderMode::Text
            } else {
                RenderMode::Graphics
            },
    {
        match *self {
            SessionKind::Tty => RenderMode::Text,
            _ => RenderMode::Graphics,
        }
    }

    /// The family whose tag is `tag`, compared byte for byte.
    pub fn from_tag(tag: &str) -> (r: Option<SessionKind>)
        ensures
            match r {
                Some(k) => tag.spec_bytes() == encode_utf8(kind_tag(k)),
                None => forall|k: SessionKind| tag.spec_bytes() != encode_utf8(#[trigger] kind_tag(k)),
            },
    {
        let kinds = [SessionKind::X11, SessionKind::Wayland, SessionKind::Tty];
        let mut i: usize = 0;
        while i < 3
            invariant
                0 <= i <= 3,
                kinds@ == seq![SessionKind::X11, SessionKind::Wayland, SessionKind::Tty],
                forall|j: int| 0 <= j < i ==> tag.spec_bytes() != encode_utf8(kind_tag(#[trigger] kinds@[j])),
            decreases 3 - i,
        {
            if bytes_eq(tag.as_bytes(), kinds[i].tag().as_bytes()) {
                return Some(kinds[i]);
            }
            i = i + 1;
        }
        assert forall|k: SessionKind| tag.spec_bytes() != encode_utf8(#[trigger] kind_tag(k)) by {
            match k {
                SessionKind::X11 => assert(k == kinds@[0]),
                SessionKind::Wayland => assert(k == kinds@[1]),
                SessionKind::Tty => assert(k == kinds@[2]),
            }
        }
        None
    }
}

/// What a session catalog says of a session.
pub struct SessionMetadata {
    pub display_name: Option<String>,
    pub description: Option<String>,
    /// The program to start, or a backend's placeholder for one.
    pub executable: Vec<u8>,
}

/// A session that can be chosen, under its id.
pub struct SessionDefinition {
    pub id: String,
    pub metadata: SessionMetadata,
}

impl SessionDefinition {
    pub fn from_meta(id: String, metadata: SessionMetadata) -> (r: SessionDefinition)
        ensures
            r.id == id,
            r.metadata == metadata,
    {
        SessionDefinition { id, metadata }
    }
}

/// The line under which a session is listed: its id in brackets, then its
/// display name where it differs from the id, then its description.
pub open spec fn listing_text(id: Seq<char>, name: Option<Seq<char>>, description: Option<Seq<char>>) -> Seq<char> {
    "["@ + id + "]"@ + match name {
        Some(n) => if n != id {
            ": "@ + n
        } else {
            Seq::<char>::empty()
        },
        None => Seq::<char>::empty(),
    } + match description {
        Some(d) => ": "@ + d,
        None => Seq::<char>::empty(),
    }
}

/// The view of an optional text.
pub open spec fn opt_view(s: Option<String>) -> Option<Seq<char>> {
    match s {
        Some(t) => Some(t@),
        None => None,
    }
}

impl SessionDefinition {
    /// The line under which this session is listed.
    pub fn listing_line(&self) -> (r: String)
        ensures
            r@ == listing_text(self.id@, opt_view(self.metadata.display_name), opt_view(self.metadata.description)),
    {
        let mut line = String::from_str("[").concat(self.id.as_str()).concat("]");
        match &self.metadata.display_name {
            Some(name) => {
                if !(*name == self.id) {
                    line = line.concat(": ").concat(name.as_str());
                }
            },
            None => {},
        }
        match &self.metadata.description {
            Some(d) => {
                line = line.concat(": ").concat(d.as_str());
            },
            None => {},
        }
        assert(line@ =~= listing_text(self.id@, opt_view(self.metadata.display_name), opt_view(self.metadata.description)));
        line
    }
}

/// The placeholder executable of a terminal session that runs the user's
/// shell.
pub open spec fn shell_placeholder() -> Seq<u8> {
    "<shell_env>".spec_bytes()
}

/// The terminal session that runs the user's shell.
pub fn special_meta_shell() -> (r: SessionDefinition)
    ensures
        r.id@ == "shell"@,
        r.metadata.display_name is None,
        r.metadata.description matches Some(d) && d@ == "Default shell as set for the target user"@,
        r.metadata.executable@ == shell_placeholder(),
{
    SessionDefinition::from_meta(
        String::from_str("shell"),
        SessionMetadata {
            display_name: None,
            description: Some(String::from_str("Default shell as set for the target user")),
            executable: vstd::slice::slice_to_vec("<shell_env>".as_bytes()),
        },
    )
}

/// Why a session could not be set up.
pub enum SessionError {
    /// The login context holds no terminal for the session.
    NoTerminal,
    /// The session runs the user's shell, and no shell is known.
    MissingShell(EnvError),
    /// Terminal sessions run only the entries that are defined for them.
    UndefinedTtySession,
}

impl SessionError {
    /// A sentence that says what went wrong.
    pub fn message(&self) -> (r: String)
        ensures
            r@ == match self {
                SessionError::NoTerminal => "Failed to acquire terminal from context"@,
                SessionError::MissingShell(_) => "Cannot find user shell"@,
                SessionError::UndefinedTtySession => "Arbitrary executables are not supported as a tty session"@,
            },
    {
        match self {
            SessionError::NoTerminal => String::from_str("Failed to acquire terminal from context"),
            SessionError::MissingShell(_) => String::from_str("Cannot find user shell"),
            SessionError::UndefinedTtySession => String::from_str(
                "Arbitrary executables are not supported as a tty session",
            ),
        }
    }
}

/// The definition of the terminal session named `name`: only the user's
/// shell is defined.
pub fn tty_lookup_metadata(name: &str) -> (r: Result<SessionDefinition, SessionError>)
    ensures
        name.spec_bytes() == encode_utf8("shell"@) ==> (r matches Ok(d) && d.id@ == "shell"@
            && d.metadata.executable@ == shell_placeholder()),
        name.spec_bytes() != encode_utf8("shell"@) ==> r matches Err(SessionError::UndefinedTtySession),
{
    if bytes_eq(name.as_bytes(), "shell".as_bytes()) {
        Ok(special_meta_shell())
    } else {
        Err(SessionError::UndefinedTtySession)
    }
}

/// The uid and gid that a session's processes run under.
#[derive(Clone, Copy, PartialEq, Eq, Structural, Debug)]
pub struct UserID {
    pub uid: u32,
    pub gid: u32,
}

/// What the user database says of a user.
pub struct UserInfo {
    pub uid: u32,
    pub gid: u32,
    pub home: Home,
    pub shell: Shell,
}

impl UserInfo {
    pub fn as_user_id(&self) -> (r: UserID)
        ensures
            r.uid == self.uid,
            r.gid == self.gid,
    {
        UserID { uid: self.uid, gid: self.gid }
    }
}

/// Where a login looks up the user that PAM authenticated.
pub trait UserInfoProvider {
    /// The user named `name`, if the database knows it.
    fn query(&self, name: &str) -> Option<UserInfo>;
}

/// Everything one login attempt hands to a session backend.
pub struct LoginContext {
    /// The terminal the session takes, until a backend takes it.
    pub terminal: Option<VtNumber>,
    pub seat: Seat,
    pub env: Env,
    /// Who the session's processes run as; `None` keeps the current user.
    pub user: Option<UserID>,
}

/// Why the current login context could not be taken over.
pub enum ContextError {
    /// No terminal number is in the environment: most likely a graphical
    /// session is already running.
    NoTerminal(EnvError),
}

impl LoginContext {
    pub fn new(env: Env, seat: Seat, terminal: Option<VtNumber>, switch_user: UserID) -> (r: LoginContext)
        ensures
            r.env@ == env@,
            r.seat.0@ == seat.0@,
            r.terminal == terminal,
            r.user == Some(switch_user),
    {
        LoginContext { terminal, seat, env, user: Some(switch_user) }
    }

    /// The context of the login that this process already runs in: its
    /// terminal and seat are taken out of `env`, the seat defaulting to
    /// `seat0`.
    pub fn current(env: Env) -> (r: Result<LoginContext, ContextError>)
        ensures
            match r {
                Ok(c) => {
                    &&& env@.contains_key(VtNumber::spec_key())
                    &&& read_outcome(env@, Ok::<VtNumber, EnvError>(c.terminal->0))
                    &&& c.terminal is Some
                    &&& c.user is None
                    &&& c.env@ == env@.remove(VtNumber::spec_key()).remove(Seat::spec_key())
                    &&& c.seat.0@ == if env@.contains_key(Seat::spec_key()) {
                        env@[Seat::spec_key()]
                    } else {
                        "seat0".spec_bytes()
                    }
                },
                Err(ContextError::NoTerminal(e)) => read_outcome(env@, Err::<VtNumber, EnvError>(e)),
            },
    {
        let mut env = env;
        proof {
            reveal_strlit("XDG_SEAT");
            reveal_strlit("XDG_VTNR");
            assert(Seat::spec_key()[4] != VtNumber::spec_key()[4]);
        }
        let vt = match env.pull::<VtNumber>() {
            Ok(v) => v,
            Err(e) => {
                return Err(ContextError::NoTerminal(e));
            },
        };
        let seat = match env.pull::<Seat>() {
            Ok(s) => s,
            Err(_) => Seat::default_seat(),
        };
        Ok(LoginContext { terminal: Some(vt), seat, env, user: None })
    }
}

/// A program for the driver to start as a session process.
pub struct SpawnRequest {
    pub program: Vec<u8>,
    /// The whole environment of the new process.
    pub env: Env,
    /// The uid and gid to switch to before the program runs.
    pub user: Option<UserID>,
    /// The terminal to bind to the program's standard streams.
    pub terminal: Option<VtNumber>,
}

impl LoginContext {
    /// The request that starts `program` in this context: as the context's
    /// user, with the context's environment.
    pub fn spawn_request(&self, program: Vec<u8>, terminal: Option<VtNumber>) -> (r: SpawnRequest)
        ensures
            r.program@ == program@,
            r.env@ == self.env@,
            r.user == self.user,
            r.terminal == terminal,
    {
        SpawnRequest { program, env: self.env.duplicate(), user: self.user, terminal }
    }
}

/// The program that a terminal session starts: the user's shell from the
/// environment when the placeholder is given, else the executable itself.
pub fn resolve_tty_executable(executable: &[u8], env: &Env) -> (r: Result<Vec<u8>, SessionError>)
    ensures
        executable@ == shell_placeholder() ==> match r {
            Ok(p) => env@.contains_key(Shell::spec_key()) && p@ == env@[Shell::spec_key()],
            Err(e) => !env@.contains_key(Shell::spec_key()) && e is MissingShell,
        },
        executable@ != shell_placeholder() ==> (r matches Ok(p) && p@ == executable@),
{
    if bytes_eq(executable, "<shell_env>".as_bytes()) {
        match env.peek::<Shell>() {
            Ok(shell) => Ok(shell.0),
            Err(e) => Err(SessionError::MissingShell(e)),
        }
    } else {
        Ok(vstd::slice::slice_to_vec(executable))
    }
}

/// Sets up a terminal session: takes the context's terminal, resolves the
/// program, records the terminal in the environment, and asks for the
/// program to be started on that terminal. Nothing is started when a step
/// fails.
pub fn setup_tty_session(context: &mut LoginContext, executable: &[u8]) -> (r: Result<SpawnRequest, SessionError>)
    ensures
        old(context).terminal is None ==> r matches Err(SessionError::NoTerminal),
        r is Err ==> final(context).env@ == old(context).env@,
        old(context).terminal matches Some(vt) ==> {
            &&& final(context).terminal is None
            &&& (executable@ == shell_placeholder() && !old(context).env@.contains_key(Shell::spec_key()))
                ==> (r matches Err(SessionError::MissingShell(_)))
            &&& (executable@ != shell_placeholder() || old(context).env@.contains_key(Shell::spec_key()))
                ==> match r {
                Ok(req) => {
                    &&& req.program@ == if executable@ == shell_placeholder() {
                        old(context).env@[Shell::spec_key()]
                    } else {
                        executable@
                    }
                    &&& req.env@ == old(context).env@.insert(VtNumber::spec_key(), vt.spec_serialize())
                    &&& final(context).env@ == req.env@
                    &&& req.user == old(context).user
                    &&& req.terminal == Some(vt)
                },
                Err(_) => false,
            }
        },
{
    let vt = match context.terminal.take() {
        Some(vt) => vt,
        None => {
            return Err(SessionError::NoTerminal);
        },
    };
    let program = match resolve_tty_executable(executable, &context.env) {
        Ok(p) => p,
        Err(e) => {
            return Err(e);
        },
    };
    context.env = context.env.duplicate().set(vt);
    Ok(context.spawn_request(program, Some(vt)))
}

/// The hints that tell toolkits to draw through Wayland.
pub open spec fn wayland_hints() -> Seq<(Seq<char>, Seq<u8>)> {
    seq![
        ("MOZ_ENABLE_WAYLAND"@, "1".spec_bytes()),
        ("QT_QPA_PLATFORM"@, "wayland".spec_bytes()),
        ("SDL_VIDEODRIVER"@, "wayland".spec_bytes()),
        ("_JAVA_AWT_WM_NONREPARENTING"@, "1".spec_bytes()),
    ]
}

/// `env` with the Wayland hints set, in order.
pub open spec fn with_wayland_hints(env: Map<Seq<char>, Seq<u8>>) -> Map<Seq<char>, Seq<u8>> {
    env.insert(wayland_hints()[0].0, wayland_hints()[0].1).insert(wayland_hints()[1].0, wayland_hints()[1].1).insert(
        wayland_hints()[2].0,
        wayland_hints()[2].1,
    ).insert(wayland_hints()[3].0, wayland_hints()[3].1)
}

/// Sets up a Wayland session: only the toolkit hints are added, and the
/// program is started directly.
pub fn setup_wayland_session(context: &mut LoginContext, executable: &[u8]) -> (r: SpawnRequest)
    ensures
        final(context).env@ == with_wayland_hints(old(context).env@),
        r.env@ == final(context).env@,
        r.program@ == executable@,
        r.user == old(context).user,
        r.terminal is None,
        final(context).terminal == old(context).terminal,
{
    let env = context.env.duplicate();
    let env = env.set_untyped(String::from_str("MOZ_ENABLE_WAYLAND"), vstd::slice::slice_to_vec("1".as_bytes()));
    let env = env.set_untyped(String::from_str("QT_QPA_PLATFORM"), vstd::slice::slice_to_vec("wayland".as_bytes()));
    let env = env.set_untyped(String::from_str("SDL_VIDEODRIVER"), vstd::slice::slice_to_vec("wayland".as_bytes()));
    let env = env.set_untyped(
        String::from_str("_JAVA_AWT_WM_NONREPARENTING"),
        vstd::slice::slice_to_vec("1".as_bytes()),
    );
    context.env = env;
    context.spawn_request(vstd::slice::slice_to_vec(executable), None)
}

/// The environment of a new session: the inherited one with the session's
/// class, the user's home and shell, the session family, and the session's
/// id as its desktop. The id, not the display name, names the desktop: ids
/// are stable, display names are translated.
pub fn compose_session_env(
    inherit: Env,
    class: SessionClass,
    user: UserInfo,
    kind: SessionKind,
    definition: &SessionDefinition,
) -> (r: Env)
    ensures
        r@ == inherit@.insert(SessionClass::spec_key(), class.spec_serialize()).insert(
            Home::spec_key(),
            user.home.0@,
        ).insert(Shell::spec_key(), user.shell.0@).insert(SessionType::spec_key(), encode_utf8(kind_tag(kind))).insert(
            SessionDesktop::spec_key(),
            encode_utf8(definition.id@),
        ).insert(CurrentDesktop::spec_key(), encode_utf8(definition.id@)),
{
    let tag = vstd::slice::slice_to_vec(kind.tag().as_bytes());
    let id = vstd::slice::slice_to_vec(definition.id.as_str().as_bytes());
    let id2 = vstd::slice::slice_to_vec(definition.id.as_str().as_bytes());
    inherit.set(class).set(user.home).set(user.shell).set(SessionType(tag)).set(SessionDesktop(id)).set(
        CurrentDesktop(id2),
    )
}

} // verus!
