//! The X11 session backend's own logic: the display number that the
//! server reports, the server's command line, and the variables that the
//! session's clients need.

use crate::decimal::{decimal_of, decimal_parse, format_decimal, lemma_decimal_round_trip, parse_decimal};
use crate::env::{Env, EnvVar};
use crate::vars::{Seat, VtNumber};
use vstd::prelude::*;

verus! {

/// The path of the X server that is run when none is configured.
pub const DEFAULT_XORG_PATH: &'static str = "/usr/lib/Xorg";

/// An X display (`DISPLAY`), written as a colon and its number (`:7`).
#[derive(Clone, Copy, PartialEq, Eq, Structural, Debug)]
pub struct Display(pub u8);

impl Display {
    pub fn new(number: u8) -> (r: Display)
        ensures
            r.0 == number,
    {
        Display(number)
    }

    pub fn number(&self) -> (r: u8)
        ensures
            r == self.0,
    {
        self.0
    }

    /// Writing a display into the environment and reading it back gives the
    /// same display.
    pub proof fn lemma_round_trip(v: Display)
        ensures
            Display::spec_readable(v.spec_serialize()),
            forall|w: Display| #[trigger] Display::spec_reads_as(v.spec_serialize(), w) ==> w == v,
    {
        lemma_decimal_round_trip(v.0 as nat);
        assert(v.spec_serialize().drop_first() =~= decimal_of(v.0 as nat));
    }
}

impl EnvVar for Display {
    open spec fn spec_key() -> Seq<char> {
        "DISPLAY"@
    }

    open spec fn spec_serialize(&self) -> Seq<u8> {
        seq![58u8] + decimal_of(self.0 as nat)
    }

    open spec fn spec_readable(bytes: Seq<u8>) -> bool {
        bytes.len() > 0 && bytes[0] == 58 && decimal_parse(bytes.drop_first(), 255) is Some
    }

    open spec fn spec_reads_as(bytes: Seq<u8>, v: Display) -> bool {
        bytes.len() > 0 && bytes[0] == 58 && decimal_parse(bytes.drop_first(), 255) == Some(v.0 as nat)
    }

    proof fn lemma_readings_agree(bytes: Seq<u8>, v: Self, w: Self) {
    }

    fn key() -> (r: &'static str) {
        "DISPLAY"
    }

    fn serialize(&self) -> (r: Vec<u8>) {
        let mut r = vec![58u8];
        let mut digits = format_decimal(self.0 as u64);
        r.append(&mut digits);
        assert(r@ =~= seq![58u8] + decimal_of(self.0 as nat));
        r
    }

    fn deserialize(bytes: &[u8]) -> (r: Option<Display>) {
        if bytes.len() == 0 || bytes[0] != 58 {
            return None;
        }
        let tail = vstd::slice::slice_subrange(bytes, 1, bytes.len());
        assert(tail@ =~= bytes@.drop_first());
        match parse_decimal(tail, 255) {
            Some(n) => Some(Display(n as u8)),
            None => None,
        }
    }
}

/// The clients' authority file (`XAUTHORITY`), as a path.
pub struct ClientAuthority(pub Vec<u8>);

impl EnvVar for ClientAuthority {
    open spec fn spec_key() -> Seq<char> {
        "XAUTHORITY"@
    }

    open spec fn spec_serialize(&self) -> Seq<u8> {
        self.0@
    }

    open spec fn spec_readable(bytes: Seq<u8>) -> bool {
        true
    }

    open spec fn spec_reads_as(bytes: Seq<u8>, v: ClientAuthority) -> bool {
        v.0@ == bytes
    }

    proof fn lemma_readings_agree(bytes: Seq<u8>, v: Self, w: Self) {
    }

    fn key() -> (r: &'static str) {
        "XAUTHORITY"
    }

    fn serialize(&self) -> (r: Vec<u8>) {
        self.0.clone()
    }

    fn deserialize(bytes: &[u8]) -> (r: Option<ClientAuthority>) {
        Some(ClientAuthority(vstd::slice::slice_to_vec(bytes)))
    }
}

/// The terminals that the sessions nested in one another run on
/// (`WINDOWPATH`), separated by colons.
pub struct WindowPath(pub Vec<u8>);

impl EnvVar for WindowPath {
    open spec fn spec_key() -> Seq<char> {
        "WINDOWPATH"@
    }

    open spec fn spec_serialize(&self) -> Seq<u8> {
        self.0@
    }

    open spec fn spec_readable(bytes: Seq<u8>) -> bool {
        true
    }

    open spec fn spec_reads_as(bytes: Seq<u8>, v: WindowPath) -> bool {
        v.0@ == bytes
    }

    proof fn lemma_readings_agree(bytes: Seq<u8>, v: Self, w: Self) {
    }

    fn key() -> (r: &'static str) {
        "WINDOWPATH"
    }

    fn serialize(&self) -> (r: Vec<u8>) {
        self.0.clone()
    }

    fn deserialize(bytes: &[u8]) -> (r: Option<WindowPath>) {
        Some(WindowPath(vstd::slice::slice_to_vec(bytes)))
    }
}

impl WindowPath {
    /// The window path of a session on terminal `vt`: the path already in
    /// `env` with the terminal appended after a colon, or the terminal
    /// alone.
    pub fn previous_plus_vt(env: &Env, vt: &VtNumber) -> (r: WindowPath)
        ensures
            r.0@ == if env@.contains_key(WindowPath::spec_key()) {
                env@[WindowPath::spec_key()] + seq![58u8] + decimal_of(vt.0 as nat)
            } else {
                decimal_of(vt.0 as nat)
            },
    {
        let mut digits = format_decimal(vt.0 as u64);
        match env.peek::<WindowPath>() {
            Ok(previous) => {
                let mut path = previous.0;
                path.push(58u8);
                path.append(&mut digits);
                WindowPath(path)
            },
            Err(_) => WindowPath(digits),
        }
    }
}

/// Why the display server's report of its display could not be used.
#[derive(Clone, Copy, PartialEq, Eq, Structural, Debug)]
pub enum DisplayError {
    /// The server closed the pipe without writing anything: it failed to
    /// start.
    NoDisplayReported,
    /// The server wrote something that is not a display number.
    InvalidDisplayNumber,
}

/// `b` is a byte that ends a line or pads it.
pub open spec fn is_trailing_space(b: u8) -> bool {
    b == 10 || b == 13 || b == 32 || b == 9 || b == 11 || b == 12
}

/// `s` without the spaces and line ends at its end.
pub open spec fn trim_end(s: Seq<u8>) -> Seq<u8>
    decreases s.len(),
{
    if s.len() > 0 && is_trailing_space(s.last()) {
        trim_end(s.drop_last())
    } else {
        s
    }
}

/// What the display server's line on its display pipe gives.
pub open spec fn display_report(line: Seq<u8>) -> Result<Display, DisplayError> {
    if line.len() == 0 {
        Err(DisplayError::NoDisplayReported)
    } else {
        match decimal_parse(trim_end(line), 255) {
            Some(n) => Ok(Display(n as u8)),
            None => Err(DisplayError::InvalidDisplayNumber),
        }
    }
}

/// Reads the line that the display server wrote on its display pipe: the
/// display number, in decimal, with its line end. An empty read means the
/// server never reported a display.
pub fn parse_display_report(line: &[u8]) -> (r: Result<Display, DisplayError>)
    ensures
        r == display_report(line@),
{
    if line.len() == 0 {
        return Err(DisplayError::NoDisplayReported);
    }
    let mut end = line.len();
    assert(line@.take(end as int) =~= line@);
    while end > 0 && (line[end - 1] == 10 || line[end - 1] == 13 || line[end - 1] == 32 || line[end - 1]
        == 9 || line[end - 1] == 11 || line[end - 1] == 12)
        invariant
            end <= line@.len(),
            trim_end(line@.take(end as int)) == trim_end(line@),
        decreases end,
    {
        assert(line@.take(end as int).drop_last() =~= line@.take(end - 1));
        end = end - 1;
    }
    assert(trim_end(line@.take(end as int)) == line@.take(end as int));
    let trimmed = vstd::slice::slice_subrange(line, 0, end);
    assert(trimmed@ =~= line@.take(end as int));
    match parse_decimal(trimmed, 255) {
        Some(n) => Ok(Display(n as u8)),
        None => Err(DisplayError::InvalidDisplayNumber),
    }
}

/// `s` as bytes, for text that is ASCII.
pub open spec fn ascii_bytes(s: Seq<char>) -> Seq<u8> {
    s.map_values(|c: char| c as u8)
}

fn ascii_arg(s: &str) -> (r: Vec<u8>)
    requires
        vstd::string::is_ascii(s),
    ensures
        r@ == ascii_bytes(s@),
{
    proof {
        vstd::string::is_ascii_spec_bytes(s);
    }
    let r = vstd::slice::slice_to_vec(s.as_bytes());
    assert(r@ =~= ascii_bytes(s@));
    r
}

/// The X server's arguments: its terminal and seat, the server authority
/// file, no TCP, and the pipe on which it reports its display.
pub open spec fn xorg_arguments_spec(vt: VtNumber, seat: Seq<u8>, authority: Seq<u8>, displayfd: u32) -> Seq<
    Seq<u8>,
> {
    seq![
        ascii_bytes("vt"@) + decimal_of(vt.0 as nat),
        ascii_bytes("-seat"@),
        seat,
        ascii_bytes("-auth"@),
        authority,
        ascii_bytes("-nolisten"@),
        ascii_bytes("tcp"@),
        ascii_bytes("-background"@),
        ascii_bytes("none"@),
        ascii_bytes("-noreset"@),
        ascii_bytes("-keeptty"@),
        ascii_bytes("-novtswitch"@),
        ascii_bytes("-verbose"@),
        ascii_bytes("3"@),
        ascii_bytes("-logfile"@),
        ascii_bytes("/dev/null"@),
        ascii_bytes("-displayfd"@),
        decimal_of(displayfd as nat),
    ]
}

/// The X server's arguments for a session on terminal `vt` of `seat`.
pub fn xorg_arguments(vt: VtNumber, seat: &Seat, authority: &Vec<u8>, displayfd: u32) -> (r: Vec<Vec<u8>>)
    ensures
        r@.map_values(|a: Vec<u8>| a@) == xorg_arguments_spec(vt, seat.0@, authority@, displayfd),
{
    proof {
        reveal_strlit("vt");
        reveal_strlit("-seat");
        reveal_strlit("-auth");
        reveal_strlit("-nolisten");
        reveal_strlit("tcp");
        reveal_strlit("-background");
        reveal_strlit("none");
        reveal_strlit("-noreset");
        reveal_strlit("-keeptty");
        reveal_strlit("-novtswitch");
        reveal_strlit("-verbose");
        reveal_strlit("3");
        reveal_strlit("-logfile");
        reveal_strlit("/dev/null");
        reveal_strlit("-displayfd");
    }
    let mut first = ascii_arg("vt");
    let mut digits = format_decimal(vt.0 as u64);
    first.append(&mut digits);
    let mut r: Vec<Vec<u8>> = Vec::new();
    r.push(first);
    r.push(ascii_arg("-seat"));
    r.push(seat.0.clone());
    r.push(ascii_arg("-auth"));
    r.push(authority.clone());
    r.push(ascii_arg("-nolisten"));
    r.push(ascii_arg("tcp"));
    r.push(ascii_arg("-background"));
    r.push(ascii_arg("none"));
    r.push(ascii_arg("-noreset"));
    r.push(ascii_arg("-keeptty"));
    r.push(ascii_arg("-novtswitch"));
    r.push(ascii_arg("-verbose"));
    r.push(ascii_arg("3"));
    r.push(ascii_arg("-logfile"));
    r.push(ascii_arg("/dev/null"));
    r.push(ascii_arg("-displayfd"));
    r.push(format_decimal(displayfd as u64));
    assert(r@.map_values(|a: Vec<u8>| a@) =~= xorg_arguments_spec(vt, seat.0@, authority@, displayfd));
    r
}

/// Hands out descriptor numbers for a child process from a fixed range.
pub struct FdContext {
    next: u32,
    end: u32,
}

/// A descriptor number that a child process will find its descriptor under.
#[derive(Clone, Copy, PartialEq, Eq, Structural, Debug)]
pub struct PassedFd(pub u32);

impl PassedFd {
    pub fn num(&self) -> (r: u32)
        ensures
            r == self.0,
    {
        self.0
    }
}

impl FdContext {
    /// The numbers from `start` up to, not including, `end`.
    pub fn new(start: u32, end: u32) -> (r: FdContext)
        ensures
            r.spec_next() == start,
            r.spec_end() == end,
    {
        FdContext { next: start, end }
    }

    pub closed spec fn spec_next(&self) -> u32 {
        self.next
    }

    pub closed spec fn spec_end(&self) -> u32 {
        self.end
    }

    /// The next free number, or `None` when the range is used up.
    pub fn pass(&mut self) -> (r: Option<PassedFd>)
        ensures
            old(self).spec_next() < old(self).spec_end() ==> r == Some(PassedFd(old(self).spec_next()))
                && final(self).spec_next() == old(self).spec_next() + 1,
            old(self).spec_next() >= old(self).spec_end() ==> r is None && final(self).spec_next()
                == old(self).spec_next(),
            final(self).spec_end() == old(self).spec_end(),
    {
        if self.next < self.end {
            let n = self.next;
            self.next = self.next + 1;
            Some(PassedFd(n))
        } else {
            None
        }
    }
}

/// The environment of an X11 session's clients: `env` with the display,
/// the clients' authority file and the window path set.
pub fn x11_client_env(env: Env, display: Display, authority: ClientAuthority, window_path: WindowPath) -> (r:
    Env)
    ensures
        r@ == env@.insert(Display::spec_key(), display.spec_serialize()).insert(
            ClientAuthority::spec_key(),
            authority.spec_serialize(),
        ).insert(WindowPath::spec_key(), window_path.spec_serialize()),
{
    env.set(display).set(authority).set(window_path)
}

} // verus!
