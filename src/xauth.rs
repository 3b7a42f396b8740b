//! The X authority file format: a run of entries, each a big-endian `u16`
//! family code and four fields (address, display number, method name and
//! secret), each field a big-endian `u16` length and that many bytes.

use crate::decimal::{decimal_of, format_decimal};
use crate::vars::Seat;
use crate::x11::{ClientAuthority, Display};
use vstd::prelude::*;
use vstd::string::StringSliceAdditionalSpecFns;

verus! {

/// The network family that an entry applies to.
#[derive(Clone, Copy, PartialEq, Eq, Structural, Debug)]
pub enum Family {
    /// Connections on this host, named by its hostname.
    Local,
    /// Connections to the display from anywhere.
    Wild,
    /// Any other family, by its code.
    Other(u16),
}

/// The code under which a family is written.
pub open spec fn family_code(f: Family) -> u16 {
    match f {
        Family::Local => 256,
        Family::Wild => 65535,
        Family::Other(x) => x,
    }
}

/// The family that a code is read as.
pub open spec fn family_of(code: u16) -> Family {
    if code == 256 {
        Family::Local
    } else if code == 65535 {
        Family::Wild
    } else {
        Family::Other(code)
    }
}

/// A family that reads back as itself: `Other` never carries the code of
/// a named family.
pub open spec fn is_canonical(f: Family) -> bool {
    match f {
        Family::Other(x) => x != 256 && x != 65535,
        _ => true,
    }
}

impl Family {
    /// The code under which this family is written.
    pub fn encode(&self) -> (r: u16)
        ensures
            r == family_code(*self),
    {
        match *self {
            Family::Local => 256,
            Family::Wild => 65535,
            Family::Other(x) => x,
        }
    }

    /// The family that `value` is read as.
    pub fn decode(value: u16) -> (r: Family)
        ensures
            r == family_of(value),
    {
        if value == 256 {
            Family::Local
        } else if value == 65535 {
            Family::Wild
        } else {
            Family::Other(value)
        }
    }
}

/// The contents of an entry.
pub struct EntryView {
    pub family: Family,
    pub address: Seq<u8>,
    pub display_number: Seq<u8>,
    pub auth_name: Seq<u8>,
    pub auth_data: Seq<u8>,
}

/// One grant of access to a display.
pub struct Entry {
    pub family: Family,
    pub address: Vec<u8>,
    pub display_number: Vec<u8>,
    pub auth_name: Vec<u8>,
    pub auth_data: Vec<u8>,
}

impl View for Entry {
    type V = EntryView;

    open spec fn view(&self) -> EntryView {
        EntryView {
            family: self.family,
            address: self.address@,
            display_number: self.display_number@,
            auth_name: self.auth_name@,
            auth_data: self.auth_data@,
        }
    }
}

/// The two bytes of `n`, most significant first.
pub open spec fn be16(n: u16) -> Seq<u8> {
    seq![(n / 256) as u8, (n % 256) as u8]
}

/// The number that the two bytes of `s` at `p` spell, most significant first.
pub open spec fn read_be16(s: Seq<u8>, p: int) -> u16 {
    (s[p] as int * 256 + s[p + 1] as int) as u16
}

/// A field as written: its length, then its bytes.
pub open spec fn field_bytes(b: Seq<u8>) -> Seq<u8> {
    be16(b.len() as u16) + b
}

/// Every field of `e` is short enough for its length to be written.
pub open spec fn fits(e: EntryView) -> bool {
    &&& e.address.len() <= 65535
    &&& e.display_number.len() <= 65535
    &&& e.auth_name.len() <= 65535
    &&& e.auth_data.len() <= 65535
}

/// An entry as written.
pub open spec fn entry_bytes(e: EntryView) -> Seq<u8> {
    be16(family_code(e.family)) + field_bytes(e.address) + field_bytes(e.display_number) + field_bytes(
        e.auth_name,
    ) + field_bytes(e.auth_data)
}

/// The field that starts at `p` in `s`, and where the next thing starts.
pub open spec fn parse_field(s: Seq<u8>, p: int) -> Option<(Seq<u8>, int)> {
    if 0 <= p && p + 2 <= s.len() && p + 2 + read_be16(s, p) <= s.len() {
        Some((s.subrange(p + 2, p + 2 + read_be16(s, p)), p + 2 + read_be16(s, p)))
    } else {
        None
    }
}

/// The entry that starts at `p` in `s`, and where the next one starts;
/// `None` where a field runs past the end.
pub open spec fn parse_entry(s: Seq<u8>, p: int) -> Option<(EntryView, int)> {
    if 0 <= p && p + 2 <= s.len() {
        let family = family_of(read_be16(s, p));
        match parse_field(s, p + 2) {
            None => None,
            Some((address, after_address)) => match parse_field(s, after_address) {
                None => None,
                Some((display_number, after_display)) => match parse_field(s, after_display) {
                    None => None,
                    Some((auth_name, after_name)) => match parse_field(s, after_name) {
                        None => None,
                        Some((auth_data, after_data)) => Some(
                            (EntryView { family, address, display_number, auth_name, auth_data }, after_data),
                        ),
                    },
                },
            },
        }
    } else {
        None
    }
}

/// Why authority data could not be written or read.
#[derive(Clone, Copy, PartialEq, Eq, Structural, Debug)]
pub enum XauthError {
    /// A field is longer than its length can say.
    FieldTooLong,
    /// The data ends inside an entry.
    Truncated,
}

fn push_be16(out: &mut Vec<u8>, n: u16)
    ensures
        final(out)@ == old(out)@ + be16(n),
{
    out.push((n / 256) as u8);
    out.push((n % 256) as u8);
    assert(final(out)@ =~= old(out)@ + be16(n));
}

fn push_field(out: &mut Vec<u8>, b: &Vec<u8>)
    requires
        b@.len() <= 65535,
    ensures
        final(out)@ == old(out)@ + field_bytes(b@),
{
    push_be16(out, b.len() as u16);
    let mut copy = b.clone();
    out.append(&mut copy);
    assert(final(out)@ =~= old(out)@ + field_bytes(b@));
}

fn read_u16_at(s: &[u8], p: usize) -> (r: u16)
    requires
        p + 2 <= s@.len(),
    ensures
        r == read_be16(s@, p as int),
{
    s[p] as u16 * 256 + s[p + 1] as u16
}

fn copy_range(s: &[u8], start: usize, end: usize) -> (r: Vec<u8>)
    requires
        start <= end <= s@.len(),
    ensures
        r@ == s@.subrange(start as int, end as int),
{
    let mut r: Vec<u8> = Vec::new();
    let mut i = start;
    while i < end
        invariant
            start <= i <= end,
            end <= s@.len(),
            r@ == s@.subrange(start as int, i as int),
        decreases end - i,
    {
        r.push(s[i]);
        i = i + 1;
        assert(r@ =~= s@.subrange(start as int, i as int));
    }
    r
}

fn read_field(s: &[u8], p: usize) -> (r: Option<(Vec<u8>, usize)>)
    ensures
        match parse_field(s@, p as int) {
            None => r is None,
            Some((b, q)) => r matches Some((v, q2)) && v@ == b && q2 == q,
        },
{
    if p > s.len() || s.len() - p < 2 {
        return None;
    }
    let n = read_u16_at(s, p) as usize;
    if s.len() - (p + 2) < n {
        return None;
    }
    let v = copy_range(s, p + 2, p + 2 + n);
    Some((v, p + 2 + n))
}

impl Entry {
    /// Appends this entry, as written, to `out`; fails where a field is
    /// too long for its length to be written, leaving `out` as it was.
    pub fn write_to(&self, out: &mut Vec<u8>) -> (r: Result<(), XauthError>)
        ensures
            fits(self@) ==> r is Ok && final(out)@ == old(out)@ + entry_bytes(self@),
            !fits(self@) ==> r == Err::<(), XauthError>(XauthError::FieldTooLong) && final(out)@ == old(out)@,
    {
        if self.address.len() > 65535 || self.display_number.len() > 65535 || self.auth_name.len()
            > 65535 || self.auth_data.len() > 65535 {
            return Err(XauthError::FieldTooLong);
        }
        push_be16(out, self.family.encode());
        push_field(out, &self.address);
        push_field(out, &self.display_number);
        push_field(out, &self.auth_name);
        push_field(out, &self.auth_data);
        assert(final(out)@ =~= old(out)@ + entry_bytes(self@));
        Ok(())
    }

    /// Reads the entry that starts at `pos` in `input`, with where the next
    /// one starts. Fewer than two bytes left is the clean end of the data;
    /// an entry cut short is an error.
    pub fn read_from(input: &[u8], pos: usize) -> (r: Result<Option<(Entry, usize)>, XauthError>)
        requires
            pos <= input@.len(),
        ensures
            pos + 2 > input@.len() ==> r == Ok::<Option<(Entry, usize)>, XauthError>(None),
            pos + 2 <= input@.len() ==> match parse_entry(input@, pos as int) {
                None => r == Err::<Option<(Entry, usize)>, XauthError>(XauthError::Truncated),
                Some((e, q)) => r matches Ok(Some((entry, next))) && entry@ == e && next == q,
            },
    {
        if input.len() - pos < 2 {
            return Ok(None);
        }
        let family = Family::decode(read_u16_at(input, pos));
        let (address, after_address) = match read_field(input, pos + 2) {
            Some(x) => x,
            None => return Err(XauthError::Truncated),
        };
        let (display_number, after_display) = match read_field(input, after_address) {
            Some(x) => x,
            None => return Err(XauthError::Truncated),
        };
        let (auth_name, after_name) = match read_field(input, after_display) {
            Some(x) => x,
            None => return Err(XauthError::Truncated),
        };
        let (auth_data, after_data) = match read_field(input, after_name) {
            Some(x) => x,
            None => return Err(XauthError::Truncated),
        };
        Ok(Some((Entry { family, address, display_number, auth_name, auth_data }, after_data)))
    }
}

/// The method name that cookie entries carry.
pub open spec fn cookie_method() -> Seq<u8> {
    "MIT-MAGIC-COOKIE-1".spec_bytes()
}

/// A shared secret of 128 random bits that grants access to a display.
/// It is written to authority files only.
pub struct Cookie([u8; 16]);

impl View for Cookie {
    type V = Seq<u8>;

    closed spec fn view(&self) -> Seq<u8> {
        self.0@
    }
}

impl Cookie {
    /// The number of bytes in a cookie.
    pub const BYTES_LEN: usize = 16;

    /// The cookie made of `random_bytes`.
    pub fn new(random_bytes: [u8; 16]) -> (r: Cookie)
        ensures
            r@ == random_bytes@,
    {
        Cookie(random_bytes)
    }

    /// The method name and the secret, as entries carry them.
    pub fn raw_data(&self) -> (r: (Vec<u8>, Vec<u8>))
        ensures
            r.0@ == cookie_method(),
            r.1@ == self@,
            r.1@.len() == 16,
    {
        let name = vstd::slice::slice_to_vec("MIT-MAGIC-COOKIE-1".as_bytes());
        let mut data: Vec<u8> = Vec::new();
        let mut i: usize = 0;
        while i < 16
            invariant
                0 <= i <= 16,
                self.0@.len() == 16,
                data@ == self.0@.take(i as int),
            decreases 16 - i,
        {
            data.push(self.0[i]);
            i = i + 1;
            assert(data@ =~= self.0@.take(i as int));
        }
        assert(self.0@.take(16) =~= self.0@);
        (name, data)
    }
}

/// Which connections an entry grants.
pub enum Scope {
    /// Connections on the host with this name.
    Local(Vec<u8>),
    /// Connections from anywhere.
    Any,
}

/// The address that a wildcard entry carries.
pub open spec fn wildcard_address() -> Seq<u8> {
    seq![127u8, 0, 0, 2]
}

/// The family of a scope's entry.
pub open spec fn scope_family(s: Scope) -> Family {
    match s {
        Scope::Local(_) => Family::Local,
        Scope::Any => Family::Wild,
    }
}

/// The address that a scope's entry carries.
pub open spec fn scope_address(s: Scope) -> Seq<u8> {
    match s {
        Scope::Local(host) => host@,
        Scope::Any => wildcard_address(),
    }
}

/// Who uses an entry: the display server, by a slot of its own, or the
/// clients of a display.
#[derive(Clone, Copy, PartialEq, Eq, Structural, Debug)]
pub enum Target {
    Server { slot: u8 },
    Client { display_number: u8 },
}

/// The number that a target's entry names.
pub open spec fn target_number(t: Target) -> u8 {
    match t {
        Target::Server { slot } => slot,
        Target::Client { display_number } => display_number,
    }
}

/// The entry that grants `cookie` to `target` within `scope`.
pub open spec fn cookie_entry(cookie: Seq<u8>, scope: Scope, target: Target) -> EntryView {
    EntryView {
        family: scope_family(scope),
        address: scope_address(scope),
        display_number: decimal_of(target_number(target) as nat),
        auth_name: cookie_method(),
        auth_data: cookie,
    }
}

impl Entry {
    /// The entry that grants `cookie` to `target` within `scope`.
    pub fn new(cookie: &Cookie, scope: Scope, target: Target) -> (r: Entry)
        ensures
            r@ == cookie_entry(cookie@, scope, target),
    {
        let ghost scope_view = scope;
        let (family, address) = match scope {
            Scope::Local(host) => (Family::Local, host),
            Scope::Any => {
                let a = vec![127u8, 0, 0, 2];
                assert(a@ =~= wildcard_address());
                (Family::Wild, a)
            },
        };
        let number = match target {
            Target::Server { slot } => slot,
            Target::Client { display_number } => display_number,
        };
        let display_number = format_decimal(number as u64);
        let (auth_name, auth_data) = cookie.raw_data();
        let r = Entry { family, address, display_number, auth_name, auth_data };
        assert(r@ == cookie_entry(cookie@, scope_view, target));
        r
    }
}

/// The entries of an authority file, in order.
pub struct Authority(pub Vec<Entry>);

/// The contents of a list of entries.
pub open spec fn entries_view(es: Seq<Entry>) -> Seq<EntryView> {
    es.map_values(|e: Entry| e@)
}

/// A list of entries as written, one after the other.
pub open spec fn authority_bytes(es: Seq<EntryView>) -> Seq<u8>
    decreases es.len(),
{
    if es.len() == 0 {
        Seq::empty()
    } else {
        authority_bytes(es.drop_last()) + entry_bytes(es.last())
    }
}

/// The entries that `s` holds from `p` on, reading at most `fuel` of them;
/// `None` where one is cut short.
pub open spec fn parse_entries(s: Seq<u8>, p: int, fuel: nat) -> Option<Seq<EntryView>>
    decreases fuel,
{
    if p + 2 > s.len() {
        Some(Seq::empty())
    } else if fuel == 0 {
        None
    } else {
        match parse_entry(s, p) {
            None => None,
            Some((e, q)) => match parse_entries(s, q, (fuel - 1) as nat) {
                None => None,
                Some(es) => Some(seq![e] + es),
            },
        }
    }
}

impl Authority {
    /// The authority with `entries`, or none.
    pub fn new(entries: Option<Vec<Entry>>) -> (r: Authority)
        ensures
            entries_view(r.0@) == match entries {
                Some(es) => entries_view(es@),
                None => Seq::<EntryView>::empty(),
            },
    {
        match entries {
            Some(es) => Authority(es),
            None => {
                let r = Authority(Vec::new());
                assert(entries_view(r.0@) =~= Seq::<EntryView>::empty());
                r
            },
        }
    }

    /// Adds `entry` after the others.
    pub fn add_entry(&mut self, entry: Entry)
        ensures
            entries_view(final(self).0@) == entries_view(old(self).0@).push(entry@),
    {
        self.0.push(entry);
        assert(entries_view(self.0@) =~= entries_view(old(self).0@).push(entry@));
    }

    /// The authority as written; fails where a field of an entry is too long.
    pub fn write_to(&self) -> (r: Result<Vec<u8>, XauthError>)
        ensures
            match r {
                Ok(bytes) => (forall|i: int| 0 <= i < self.0@.len() ==> fits(#[trigger] self.0@[i]@))
                    && bytes@ == authority_bytes(entries_view(self.0@)),
                Err(e) => e == XauthError::FieldTooLong && exists|i: int|
                    0 <= i < self.0@.len() && !fits(#[trigger] self.0@[i]@),
            },
    {
        let mut out: Vec<u8> = Vec::new();
        let mut i: usize = 0;
        while i < self.0.len()
            invariant
                0 <= i <= self.0@.len(),
                forall|j: int| 0 <= j < i ==> fits(#[trigger] self.0@[j]@),
                out@ == authority_bytes(entries_view(self.0@).take(i as int)),
            decreases self.0@.len() - i,
        {
            match self.0[i].write_to(&mut out) {
                Ok(()) => {},
                Err(e) => {
                    return Err(e);
                },
            }
            assert(entries_view(self.0@).take(i + 1).drop_last() =~= entries_view(self.0@).take(i as int));
            i = i + 1;
        }
        assert(entries_view(self.0@).take(self.0@.len() as int) =~= entries_view(self.0@));
        Ok(out)
    }

    /// Reads the entries that `input` holds.
    pub fn read_from(input: &[u8]) -> (r: Result<Authority, XauthError>)
        ensures
            match parse_entries(input@, 0, input@.len()) {
                Some(es) => r matches Ok(a) && entries_view(a.0@) == es,
                None => r == Err::<Authority, XauthError>(XauthError::Truncated),
            },
    {
        let mut entries: Vec<Entry> = Vec::new();
        let mut pos: usize = 0;
        let ghost total = parse_entries(input@, 0, input@.len());
        loop
            invariant
                pos <= input@.len(),
                pos >= 10 * entries@.len(),
                total == parse_entries(input@, 0, input@.len()),
                total == match parse_entries(input@, pos as int, (input@.len() - entries@.len()) as nat) {
                    Some(rest) => Some(entries_view(entries@) + rest),
                    None => None::<Seq<EntryView>>,
                },
            decreases input@.len() - pos,
        {
            let ghost fuel = (input@.len() - entries@.len()) as nat;
            if input.len() - pos < 2 {
                assert(parse_entries(input@, pos as int, fuel) == Some(Seq::<EntryView>::empty()));
                assert(entries_view(entries@) + Seq::<EntryView>::empty() =~= entries_view(entries@));
                return Ok(Authority(entries));
            }
            assert(fuel > 0);
            match Entry::read_from(input, pos) {
                Ok(Some((entry, next))) => {
                    let ghost ev = entry@;
                    proof {
                        assert(next >= pos + 10);
                        let after = parse_entries(input@, next as int, (fuel - 1) as nat);
                        match after {
                            Some(rest) => {
                                assert(entries_view(entries@.push(entry)) =~= entries_view(entries@).push(ev));
                                assert(entries_view(entries@) + (seq![ev] + rest) =~= entries_view(
                                    entries@.push(entry),
                                ) + rest);
                            },
                            None => {},
                        }
                    }
                    entries.push(entry);
                    pos = next;
                },
                Ok(None) => {
                    return Ok(Authority(entries));
                },
                Err(e) => {
                    assert(parse_entries(input@, pos as int, fuel) is None);
                    return Err(e);
                },
            }
        }
    }
}

/// Writes and reads an X authority for one seat's display: the server's
/// file holds one wildcard entry, the clients' file a wildcard entry and
/// one for this host, all with the same cookie.
pub struct XAuthorityManager {
    lock: bool,
    directory: Vec<u8>,
    cookie: Cookie,
    hostname: Vec<u8>,
}

/// The path of the file `name` in `directory`.
pub open spec fn path_in(directory: Seq<u8>, name: Seq<char>) -> Seq<u8> {
    directory + seq![47u8] + name.map_values(|c: char| c as u8)
}

fn join_path(directory: &Vec<u8>, name: &str) -> (r: Vec<u8>)
    requires
        vstd::string::is_ascii(name),
    ensures
        r@ == path_in(directory@, name@),
{
    let mut r = directory.clone();
    r.push(47u8);
    let mut tail = vstd::slice::slice_to_vec(name.as_bytes());
    proof {
        vstd::string::is_ascii_spec_bytes(name);
    }
    r.append(&mut tail);
    assert(r@ =~= path_in(directory@, name@));
    r
}

impl XAuthorityManager {
    /// A manager whose files go under `runtime_dir`, in a directory named
    /// after the seat.
    pub fn new(runtime_dir: &Vec<u8>, seat: &Seat, cookie: Cookie, hostname: Vec<u8>, lock: bool) -> (r:
        XAuthorityManager)
        ensures
            r.spec_directory() == runtime_dir@ + seq![47u8] + seat.0@,
            r.spec_lock() == lock,
            r.spec_cookie() == cookie@,
            r.spec_hostname() == hostname@,
    {
        let mut directory = runtime_dir.clone();
        directory.push(47u8);
        let mut s = seat.0.clone();
        directory.append(&mut s);
        XAuthorityManager { lock, directory, cookie, hostname }
    }

    /// The directory that holds the files.
    pub closed spec fn spec_directory(&self) -> Seq<u8> {
        self.directory@
    }

    /// Whether the files are created under a lock.
    pub closed spec fn spec_lock(&self) -> bool {
        self.lock
    }

    /// The cookie that every entry carries.
    pub closed spec fn spec_cookie(&self) -> Seq<u8> {
        self.cookie@
    }

    /// The name of this host.
    pub closed spec fn spec_hostname(&self) -> Seq<u8> {
        self.hostname@
    }

    /// Whether the files are created under a lock.
    pub fn lock(&self) -> (r: bool)
        ensures
            r == self.spec_lock(),
    {
        self.lock
    }

    /// The directory that holds the files.
    pub fn directory(&self) -> (r: Vec<u8>)
        ensures
            r@ == self.spec_directory(),
    {
        self.directory.clone()
    }

    /// The path of the server's authority file.
    pub fn server_path(&self) -> (r: Vec<u8>)
        ensures
            r@ == path_in(self.spec_directory(), "server-authority"@),
    {
        proof {
            reveal_strlit("server-authority");
        }
        join_path(&self.directory, "server-authority")
    }

    /// The path of the clients' authority file.
    pub fn client_path(&self) -> (r: Vec<u8>)
        ensures
            r@ == path_in(self.spec_directory(), "client-authority"@),
    {
        proof {
            reveal_strlit("client-authority");
        }
        join_path(&self.directory, "client-authority")
    }

    /// The server's authority: one wildcard entry, in slot 0.
    pub fn setup_server(&self) -> (r: Authority)
        ensures
            entries_view(r.0@) == seq![cookie_entry(self.spec_cookie(), Scope::Any, Target::Server { slot: 0 })],
    {
        let mut a = Authority::new(None);
        a.add_entry(Entry::new(&self.cookie, Scope::Any, Target::Server { slot: 0 }));
        assert(entries_view(a.0@) =~= seq![cookie_entry(self.spec_cookie(), Scope::Any, Target::Server { slot: 0 })]);
        a
    }

    /// The clients' authority for `display`: a wildcard entry, for clients
    /// that look for no host or whose host was renamed, and one for this
    /// host, both with the one cookie; and the variable that points
    /// clients at the file.
    pub fn setup_client(&self, display: &Display) -> (r: (Authority, ClientAuthority))
        ensures
            entries_view(r.0.0@) == seq![
                cookie_entry(self.spec_cookie(), Scope::Any, Target::Client { display_number: display.0 }),
                EntryView {
                    family: Family::Local,
                    address: self.spec_hostname(),
                    display_number: decimal_of(display.0 as nat),
                    auth_name: cookie_method(),
                    auth_data: self.spec_cookie(),
                },
            ],
            r.1.0@ == path_in(self.spec_directory(), "client-authority"@),
    {
        let mut a = Authority::new(None);
        a.add_entry(Entry::new(&self.cookie, Scope::Any, Target::Client { display_number: display.0 }));
        let host = self.hostname.clone();
        a.add_entry(Entry::new(&self.cookie, Scope::Local(host), Target::Client { display_number: display.0 }));
        let path = self.client_path();
        assert(entries_view(a.0@) =~= seq![
            cookie_entry(self.spec_cookie(), Scope::Any, Target::Client { display_number: display.0 }),
            EntryView {
                family: Family::Local,
                address: self.spec_hostname(),
                display_number: decimal_of(display.0 as nat),
                auth_name: cookie_method(),
                auth_data: self.spec_cookie(),
            },
        ]);
        (a, ClientAuthority(path))
    }
}

proof fn lemma_be16_round_trip(n: u16, s: Seq<u8>, p: int)
    requires
        0 <= p,
        p + 2 <= s.len(),
        s.subrange(p, p + 2) == be16(n),
    ensures
        read_be16(s, p) == n,
{
    assert(s[p] == s.subrange(p, p + 2)[0]);
    assert(s[p + 1] == s.subrange(p, p + 2)[1]);
    assert((n / 256) as int * 256 + (n % 256) as int == n as int) by (nonlinear_arith);
}

proof fn lemma_field_round_trip(b: Seq<u8>, s: Seq<u8>, p: int)
    requires
        b.len() <= 65535,
        0 <= p,
        p + 2 + b.len() <= s.len(),
        s.subrange(p, p + 2 + b.len()) == field_bytes(b),
    ensures
        parse_field(s, p) == Some((b, p + 2 + b.len())),
{
    assert(s.subrange(p, p + 2) =~= s.subrange(p, p + 2 + b.len()).subrange(0, 2));
    assert(field_bytes(b).subrange(0, 2) =~= be16(b.len() as u16));
    lemma_be16_round_trip(b.len() as u16, s, p);
    assert(s.subrange(p + 2, p + 2 + b.len()) =~= s.subrange(p, p + 2 + b.len()).subrange(
        2,
        2 + b.len() as int,
    ));
    assert(field_bytes(b).subrange(2, 2 + b.len() as int) =~= b);
}

proof fn lemma_entry_at(e: EntryView, s: Seq<u8>, p: int)
    requires
        fits(e),
        0 <= p,
        p + entry_bytes(e).len() <= s.len(),
        s.subrange(p, p + entry_bytes(e).len()) == entry_bytes(e),
    ensures
        parse_entry(s, p) == Some((EntryView { family: family_of(family_code(e.family)), ..e }, p + entry_bytes(e).len())),
{
    let b = entry_bytes(e);
    let fa = field_bytes(e.address);
    let fd = field_bytes(e.display_number);
    let fn_ = field_bytes(e.auth_name);
    let fdata = field_bytes(e.auth_data);
    let after_address: int = p + 2 + fa.len() as int;
    let after_display: int = after_address + fd.len() as int;
    let after_name: int = after_display + fn_.len() as int;
    let after_data: int = after_name + fdata.len() as int;
    assert(after_data == p + b.len());
    assert(s.subrange(p, p + 2) =~= b.subrange(0, 2));
    assert(b.subrange(0, 2) =~= be16(family_code(e.family)));
    lemma_be16_round_trip(family_code(e.family), s, p);
    assert(s.subrange(p + 2, after_address) =~= b.subrange(2, after_address - p));
    assert(b.subrange(2, after_address - p) =~= fa);
    lemma_field_round_trip(e.address, s, p + 2);
    assert(s.subrange(after_address, after_display) =~= b.subrange(after_address - p, after_display - p));
    assert(b.subrange(after_address - p, after_display - p) =~= fd);
    lemma_field_round_trip(e.display_number, s, after_address);
    assert(s.subrange(after_display, after_name) =~= b.subrange(after_display - p, after_name - p));
    assert(b.subrange(after_display - p, after_name - p) =~= fn_);
    lemma_field_round_trip(e.auth_name, s, after_display);
    assert(s.subrange(after_name, after_data) =~= b.subrange(after_name - p, after_data - p));
    assert(b.subrange(after_name - p, after_data - p) =~= fdata);
    lemma_field_round_trip(e.auth_data, s, after_name);
}

/// Writing an entry and reading it back, whatever follows it, gives the
/// same family, address, display number, method name and secret, and
/// stops right after the entry. The family must be one that reads back as
/// itself (`Other(256)` reads as `Local`).
pub proof fn law_entry_round_trip(e: EntryView, rest: Seq<u8>)
    requires
        fits(e),
        is_canonical(e.family),
    ensures
        parse_entry(entry_bytes(e) + rest, 0) == Some((e, entry_bytes(e).len() as int)),
{
    let s = entry_bytes(e) + rest;
    assert(s.subrange(0, entry_bytes(e).len() as int) =~= entry_bytes(e));
    lemma_entry_at(e, s, 0);
    assert(EntryView { family: family_of(family_code(e.family)), ..e } == e);
}

proof fn lemma_authority_cons(e: EntryView, es: Seq<EntryView>)
    ensures
        authority_bytes(seq![e] + es) == entry_bytes(e) + authority_bytes(es),
    decreases es.len(),
{
    if es.len() == 0 {
        let all = seq![e] + es;
        assert(all.drop_last() =~= Seq::<EntryView>::empty());
        assert(all.last() == e);
        assert(authority_bytes(Seq::<EntryView>::empty()) == Seq::<u8>::empty());
        assert(authority_bytes(all) == authority_bytes(all.drop_last()) + entry_bytes(all.last()));
        assert(authority_bytes(all) =~= entry_bytes(e) + authority_bytes(es));
    } else {
        lemma_authority_cons(e, es.drop_last());
        let all = seq![e] + es;
        assert(all.drop_last() =~= seq![e] + es.drop_last());
        assert(all.last() == es.last());
        assert(authority_bytes(all) == authority_bytes(all.drop_last()) + entry_bytes(all.last()));
        assert(authority_bytes(es) == authority_bytes(es.drop_last()) + entry_bytes(es.last()));
        assert(authority_bytes(all) =~= entry_bytes(e) + authority_bytes(es));
    }
}

proof fn lemma_entries_at(es: Seq<EntryView>, s: Seq<u8>, p: int, fuel: nat)
    requires
        0 <= p <= s.len(),
        s.subrange(p, s.len() as int) == authority_bytes(es),
        fuel >= es.len(),
        forall|i: int| 0 <= i < es.len() ==> fits(#[trigger] es[i]) && is_canonical(es[i].family),
    ensures
        parse_entries(s, p, fuel) == Some(es),
    decreases es.len(),
{
    if es.len() == 0 {
        assert(s.subrange(p, s.len() as int).len() == 0);
    } else {
        let e = es[0];
        let rest = es.drop_first();
        assert(es =~= seq![e] + rest);
        lemma_authority_cons(e, rest);
        let n = entry_bytes(e).len() as int;
        assert(s.subrange(p, s.len() as int).len() == s.len() - p);
        assert(s.len() - p == n + authority_bytes(rest).len());
        assert(s.subrange(p, p + n) =~= s.subrange(p, s.len() as int).subrange(0, n));
        assert(s.subrange(p, s.len() as int).subrange(0, n) =~= entry_bytes(e));
        lemma_entry_at(e, s, p);
        assert(EntryView { family: family_of(family_code(e.family)), ..e } == e);
        assert(s.subrange(p + n, s.len() as int) =~= s.subrange(p, s.len() as int).subrange(n, s.len() - p));
        assert(s.subrange(p, s.len() as int).subrange(n, s.len() - p) =~= authority_bytes(rest));
        assert forall|i: int| 0 <= i < rest.len() implies fits(#[trigger] rest[i]) && is_canonical(rest[i].family) by {
            assert(rest[i] == es[i + 1]);
        }
        lemma_entries_at(rest, s, p + n, (fuel - 1) as nat);
    }
}

proof fn lemma_authority_len(es: Seq<EntryView>)
    ensures
        authority_bytes(es).len() >= 10 * es.len(),
    decreases es.len(),
{
    if es.len() > 0 {
        lemma_authority_len(es.drop_last());
    }
}

/// Writing a list of entries and reading the bytes back gives the same
/// entries, in order, each with the same family, address, display number,
/// method name and secret.
pub proof fn law_authority_round_trip(es: Seq<EntryView>)
    requires
        forall|i: int| 0 <= i < es.len() ==> fits(#[trigger] es[i]) && is_canonical(es[i].family),
    ensures
        parse_entries(authority_bytes(es), 0, authority_bytes(es).len()) == Some(es),
{
    let s = authority_bytes(es);
    lemma_authority_len(es);
    assert(s.subrange(0, s.len() as int) =~= s);
    lemma_entries_at(es, s, 0, s.len());
}

} // verus!
