//! The typed environment variables that the login stages hand to one
//! another.

use crate::decimal::{is_decimal, is_digit, decimal_of, decimal_parse, format_decimal, lemma_decimal_round_trip, parse_decimal};
use crate::env::EnvVar;
use vstd::prelude::*;
use vstd::string::StringSliceAdditionalSpecFns;
use vstd::utf8::{
    decode_utf8, encode_utf8, encode_utf8_decode_utf8, encode_utf8_valid_utf8, is_ascii_chars,
    is_ascii_chars_encode_utf8, valid_utf8,
};

verus! {

/// The number of a virtual terminal (`XDG_VTNR`), written in decimal.
#[derive(Clone, Copy, PartialEq, Eq, Structural, Debug)]
pub struct VtNumber(pub u16);

impl VtNumber {
    /// Takes `number` as a terminal number. The caller answers for the
    /// terminal being free for this login: the user or the kernel named it.
    pub fn manually_checked_from(number: u16) -> (r: VtNumber)
        ensures
            r.0 == number,
    {
        VtNumber(number)
    }

    /// The number itself.
    pub fn get(&self) -> (r: u16)
        ensures
            r == self.0,
    {
        self.0
    }

    /// The number in decimal.
    pub fn to_string(&self) -> (r: String)
        ensures
            r@ == ascii_chars(decimal_of(self.0 as nat)),
    {
        decimal_text(self.0 as u64)
    }

    /// The terminal's device name, `tty` and the number (`tty5`).
    pub fn to_tty_string(&self) -> (r: String)
        ensures
            r@ == "tty"@ + ascii_chars(decimal_of(self.0 as nat)),
    {
        String::from_str("tty").concat(self.to_string().as_str())
    }

    /// Writing a terminal number into the environment and reading it back
    /// gives the same number.
    pub proof fn lemma_round_trip(v: VtNumber)
        ensures
            VtNumber::spec_readable(v.spec_serialize()),
            forall|w: VtNumber| #[trigger] VtNumber::spec_reads_as(v.spec_serialize(), w) ==> w == v,
    {
        lemma_decimal_round_trip(v.0 as nat);
    }
}

impl EnvVar for VtNumber {
    open spec fn spec_key() -> Seq<char> {
        "XDG_VTNR"@
    }

    open spec fn spec_serialize(&self) -> Seq<u8> {
        decimal_of(self.0 as nat)
    }

    open spec fn spec_readable(bytes: Seq<u8>) -> bool {
        decimal_parse(bytes, 65535) is Some
    }

    open spec fn spec_reads_as(bytes: Seq<u8>, v: VtNumber) -> bool {
        decimal_parse(bytes, 65535) == Some(v.0 as nat)
    }

    proof fn lemma_readings_agree(bytes: Seq<u8>, v: Self, w: Self) {
    }

    fn key() -> (r: &'static str) {
        "XDG_VTNR"
    }

    fn serialize(&self) -> (r: Vec<u8>) {
        format_decimal(self.0 as u64)
    }

    fn deserialize(bytes: &[u8]) -> (r: Option<VtNumber>) {
        match parse_decimal(bytes, 65535) {
            Some(n) => Some(VtNumber(n as u16)),
            None => None,
        }
    }
}

/// The seat that a session runs on (`XDG_SEAT`), kept as the bytes given.
pub struct Seat(pub Vec<u8>);

impl EnvVar for Seat {
    open spec fn spec_key() -> Seq<char> {
        "XDG_SEAT"@
    }

    open spec fn spec_serialize(&self) -> Seq<u8> {
        self.0@
    }

    open spec fn spec_readable(bytes: Seq<u8>) -> bool {
        true
    }

    open spec fn spec_reads_as(bytes: Seq<u8>, v: Seat) -> bool {
        v.0@ == bytes
    }

    proof fn lemma_readings_agree(bytes: Seq<u8>, v: Self, w: Self) {
    }

    fn key() -> (r: &'static str) {
        "XDG_SEAT"
    }

    fn serialize(&self) -> (r: Vec<u8>) {
        self.0.clone()
    }

    fn deserialize(bytes: &[u8]) -> (r: Option<Seat>) {
        Some(Seat(vstd::slice::slice_to_vec(bytes)))
    }
}

/// The user's home directory (`HOME`), kept as the bytes given.
pub struct Home(pub Vec<u8>);

impl EnvVar for Home {
    open spec fn spec_key() -> Seq<char> {
        "HOME"@
    }

    open spec fn spec_serialize(&self) -> Seq<u8> {
        self.0@
    }

    open spec fn spec_readable(bytes: Seq<u8>) -> bool {
        true
    }

    open spec fn spec_reads_as(bytes: Seq<u8>, v: Home) -> bool {
        v.0@ == bytes
    }

    proof fn lemma_readings_agree(bytes: Seq<u8>, v: Self, w: Self) {
    }

    fn key() -> (r: &'static str) {
        "HOME"
    }

    fn serialize(&self) -> (r: Vec<u8>) {
        self.0.clone()
    }

    fn deserialize(bytes: &[u8]) -> (r: Option<Home>) {
        Some(Home(vstd::slice::slice_to_vec(bytes)))
    }
}

/// The user's login shell (`SHELL`), kept as the bytes given.
pub struct Shell(pub Vec<u8>);

impl EnvVar for Shell {
    open spec fn spec_key() -> Seq<char> {
        "SHELL"@
    }

    open spec fn spec_serialize(&self) -> Seq<u8> {
        self.0@
    }

    open spec fn spec_readable(bytes: Seq<u8>) -> bool {
        true
    }

    open spec fn spec_reads_as(bytes: Seq<u8>, v: Shell) -> bool {
        v.0@ == bytes
    }

    proof fn lemma_readings_agree(bytes: Seq<u8>, v: Self, w: Self) {
    }

    fn key() -> (r: &'static str) {
        "SHELL"
    }

    fn serialize(&self) -> (r: Vec<u8>) {
        self.0.clone()
    }

    fn deserialize(bytes: &[u8]) -> (r: Option<Shell>) {
        Some(Shell(vstd::slice::slice_to_vec(bytes)))
    }
}

/// The session family, as its backend's tag (`XDG_SESSION_TYPE`), kept as the bytes given.
pub struct SessionType(pub Vec<u8>);

impl EnvVar for SessionType {
    open spec fn spec_key() -> Seq<char> {
        "XDG_SESSION_TYPE"@
    }

    open spec fn spec_serialize(&self) -> Seq<u8> {
        self.0@
    }

    open spec fn spec_readable(bytes: Seq<u8>) -> bool {
        true
    }

    open spec fn spec_reads_as(bytes: Seq<u8>, v: SessionType) -> bool {
        v.0@ == bytes
    }

    proof fn lemma_readings_agree(bytes: Seq<u8>, v: Self, w: Self) {
    }

    fn key() -> (r: &'static str) {
        "XDG_SESSION_TYPE"
    }

    fn serialize(&self) -> (r: Vec<u8>) {
        self.0.clone()
    }

    fn deserialize(bytes: &[u8]) -> (r: Option<SessionType>) {
        Some(SessionType(vstd::slice::slice_to_vec(bytes)))
    }
}

/// The desktop that a session runs (`XDG_SESSION_DESKTOP`), kept as the bytes given.
pub struct SessionDesktop(pub Vec<u8>);

impl EnvVar for SessionDesktop {
    open spec fn spec_key() -> Seq<char> {
        "XDG_SESSION_DESKTOP"@
    }

    open spec fn spec_serialize(&self) -> Seq<u8> {
        self.0@
    }

    open spec fn spec_readable(bytes: Seq<u8>) -> bool {
        true
    }

    open spec fn spec_reads_as(bytes: Seq<u8>, v: SessionDesktop) -> bool {
        v.0@ == bytes
    }

    proof fn lemma_readings_agree(bytes: Seq<u8>, v: Self, w: Self) {
    }

    fn key() -> (r: &'static str) {
        "XDG_SESSION_DESKTOP"
    }

    fn serialize(&self) -> (r: Vec<u8>) {
        self.0.clone()
    }

    fn deserialize(bytes: &[u8]) -> (r: Option<SessionDesktop>) {
        Some(SessionDesktop(vstd::slice::slice_to_vec(bytes)))
    }
}

/// The desktops that a session's applications should follow (`XDG_CURRENT_DESKTOP`), kept as the bytes given.
pub struct CurrentDesktop(pub Vec<u8>);

impl EnvVar for CurrentDesktop {
    open spec fn spec_key() -> Seq<char> {
        "XDG_CURRENT_DESKTOP"@
    }

    open spec fn spec_serialize(&self) -> Seq<u8> {
        self.0@
    }

    open spec fn spec_readable(bytes: Seq<u8>) -> bool {
        true
    }

    open spec fn spec_reads_as(bytes: Seq<u8>, v: CurrentDesktop) -> bool {
        v.0@ == bytes
    }

    proof fn lemma_readings_agree(bytes: Seq<u8>, v: Self, w: Self) {
    }

    fn key() -> (r: &'static str) {
        "XDG_CURRENT_DESKTOP"
    }

    fn serialize(&self) -> (r: Vec<u8>) {
        self.0.clone()
    }

    fn deserialize(bytes: &[u8]) -> (r: Option<CurrentDesktop>) {
        Some(CurrentDesktop(vstd::slice::slice_to_vec(bytes)))
    }
}

impl Seat {
    /// `seat0`, the seat that always exists.
    pub fn default_seat() -> (r: Seat)
        ensures
            r.0@ == "seat0".spec_bytes(),
    {
        Seat(vstd::slice::slice_to_vec("seat0".as_bytes()))
    }
}

/// The class of a session (`XDG_SESSION_CLASS`).
#[derive(Clone, Copy, PartialEq, Eq, Structural, Debug)]
pub enum SessionClass {
    User { early: bool, light: bool },
    Greeter,
    LockScreen,
}

/// The name under which a class is written.
pub open spec fn class_name(c: SessionClass) -> Seq<char> {
    match c {
        SessionClass::User { early, light } => "user"@ + (if early {
            "-early"@
        } else {
            Seq::<char>::empty()
        }) + (if light {
            "-light"@
        } else {
            Seq::<char>::empty()
        }),
        SessionClass::Greeter => "greeter"@,
        SessionClass::LockScreen => "lock-screen"@,
    }
}

/// `a` and `b` hold the same bytes.
pub fn bytes_eq(a: &[u8], b: &[u8]) -> (r: bool)
    ensures
        r == (a@ == b@),
{
    if a.len() != b.len() {
        return false;
    }
    let mut i: usize = 0;
    while i < a.len()
        invariant
            0 <= i <= a@.len(),
            a@.len() == b@.len(),
            forall|j: int| 0 <= j < i ==> a@[j] == b@[j],
        decreases a@.len() - i,
    {
        if a[i] != b[i] {
            return false;
        }
        i = i + 1;
    }
    assert(a@ =~= b@);
    true
}

impl SessionClass {
    /// The class's name as text (`user-early`, `greeter`).
    pub fn name(&self) -> (r: String)
        ensures
            r@ == class_name(*self),
    {
        match *self {
            SessionClass::User { early, light } => {
                let mut name = String::from_str("user");
                if early {
                    name = name.concat("-early");
                }
                if light {
                    name = name.concat("-light");
                }
                assert(name@ =~= class_name(*self));
                name
            },
            SessionClass::Greeter => String::from_str("greeter"),
            SessionClass::LockScreen => String::from_str("lock-screen"),
        }
    }
}

impl EnvVar for SessionClass {
    open spec fn spec_key() -> Seq<char> {
        "XDG_SESSION_CLASS"@
    }

    open spec fn spec_serialize(&self) -> Seq<u8> {
        encode_utf8(class_name(*self))
    }

    open spec fn spec_readable(bytes: Seq<u8>) -> bool {
        exists|c: SessionClass| encode_utf8(#[trigger] class_name(c)) == bytes
    }

    open spec fn spec_reads_as(bytes: Seq<u8>, v: SessionClass) -> bool {
        encode_utf8(class_name(v)) == bytes
    }

    proof fn lemma_readings_agree(bytes: Seq<u8>, v: Self, w: Self) {
    }

    fn key() -> (r: &'static str) {
        "XDG_SESSION_CLASS"
    }

    fn serialize(&self) -> (r: Vec<u8>) {
        let name = self.name();
        vstd::slice::slice_to_vec(name.as_str().as_bytes())
    }

    fn deserialize(bytes: &[u8]) -> (r: Option<SessionClass>) {
        let candidates = [
            SessionClass::User { early: false, light: false },
            SessionClass::User { early: true, light: false },
            SessionClass::User { early: false, light: true },
            SessionClass::User { early: true, light: true },
            SessionClass::Greeter,
            SessionClass::LockScreen,
        ];
        let mut i: usize = 0;
        while i < 6
            invariant
                0 <= i <= 6,
                candidates@ == seq![
                    SessionClass::User { early: false, light: false },
                    SessionClass::User { early: true, light: false },
                    SessionClass::User { early: false, light: true },
                    SessionClass::User { early: true, light: true },
                    SessionClass::Greeter,
                    SessionClass::LockScreen,
                ],
                forall|j: int| 0 <= j < i ==> encode_utf8(class_name(#[trigger] candidates@[j])) != bytes@,
            decreases 6 - i,
        {
            let name = candidates[i].name();
            if bytes_eq(bytes, name.as_str().as_bytes()) {
                return Some(candidates[i]);
            }
            i = i + 1;
        }
        assert forall|c: SessionClass| encode_utf8(#[trigger] class_name(c)) != bytes@ by {
            match c {
                SessionClass::User { early, light } => {
                    if !early && !light {
                        assert(c == candidates@[0]);
                    } else if early && !light {
                        assert(c == candidates@[1]);
                    } else if !early && light {
                        assert(c == candidates@[2]);
                    } else {
                        assert(c == candidates@[3]);
                    }
                },
                SessionClass::Greeter => {
                    assert(c == candidates@[4]);
                },
                SessionClass::LockScreen => {
                    assert(c == candidates@[5]);
                },
            }
        }
        None
    }
}

/// The characters that ASCII bytes stand for.
pub open spec fn ascii_chars(b: Seq<u8>) -> Seq<char> {
    b.map_values(|x: u8| x as char)
}

/// All of `b` is ASCII.
pub open spec fn is_ascii_bytes(b: Seq<u8>) -> bool {
    forall|i: int| 0 <= i < b.len() ==> #[trigger] b[i] < 128
}

/// ASCII bytes are the UTF-8 encoding of the characters with the same codes.
proof fn lemma_ascii_utf8(b: Seq<u8>)
    requires
        is_ascii_bytes(b),
    ensures
        valid_utf8(b),
        decode_utf8(b) == ascii_chars(b),
{
    let c = ascii_chars(b);
    assert(is_ascii_chars(c)) by {
        assert forall|i: int| 0 <= i < c.len() implies '\0' <= #[trigger] c[i] <= '\u{7f}' by {
            assert(b[i] < 128);
        }
    }
    is_ascii_chars_encode_utf8(c);
    assert(encode_utf8(c) =~= b) by {
        assert forall|i: int| 0 <= i < b.len() implies encode_utf8(c)[i] == b[i] by {
            assert(c[i] as u8 == encode_utf8(c)[i]);
            assert(b[i] < 128);
        }
    }
    encode_utf8_valid_utf8(c);
    encode_utf8_decode_utf8(c);
}

/// The text that ASCII bytes spell.
fn string_from_ascii(b: Vec<u8>) -> (r: String)
    requires
        is_ascii_bytes(b@),
    ensures
        r@ == ascii_chars(b@),
{
    proof {
        lemma_ascii_utf8(b@);
    }
    match crate::env::utf8_string(b) {
        Some(s) => s,
        None => String::new(),
    }
}

/// The decimal text of `n`.
pub fn decimal_text(n: u64) -> (r: String)
    ensures
        r@ == ascii_chars(decimal_of(n as nat)),
{
    proof {
        lemma_decimal_round_trip(n as nat);
    }
    ascii_string(format_decimal(n))
}

/// The decimal text of `n`, with a minus sign when it is negative.
pub open spec fn signed_decimal_chars(n: int) -> Seq<char> {
    if n < 0 {
        "-"@ + ascii_chars(decimal_of((-n) as nat))
    } else {
        ascii_chars(decimal_of(n as nat))
    }
}

/// The decimal text of `n`, with a minus sign when it is negative.
pub fn signed_decimal_text(n: i32) -> (r: String)
    ensures
        r@ == signed_decimal_chars(n as int),
{
    if n < 0 {
        let magnitude = (-(n as i64)) as u64;
        String::from_str("-").concat(decimal_text(magnitude).as_str())
    } else {
        decimal_text(n as u64)
    }
}

/// The text of a decimal spelling.
fn ascii_string(b: Vec<u8>) -> (r: String)
    requires
        is_decimal(b@),
    ensures
        r@ == ascii_chars(b@),
{
    assert(is_ascii_bytes(b@)) by {
        assert forall|i: int| 0 <= i < b@.len() implies #[trigger] b@[i] < 128 by {
            assert(is_digit(b@[i]));
        }
    }
    string_from_ascii(b)
}

} // verus!
