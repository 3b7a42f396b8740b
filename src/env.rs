//! The process environment as an immutable map from variable names to
//! byte-string values.

use vstd::prelude::*;
use vstd::string::StringSliceAdditionalSpecFns;
use vstd::utf8::{decode_utf8, encode_utf8, valid_utf8};

verus! {

#[verifier::external_type_specification]
#[verifier::external_body]
#[verifier::reject_recursive_types(K)]
#[verifier::reject_recursive_types(V)]
#[verifier::reject_recursive_types(S)]
pub struct ExPersistentMap<K, V, S>(im::HashMap<K, V, S>);

/// The persistent map that backs an [`Env`].
pub type VarMap = im::HashMap<String, Vec<u8>>;

/// What a [`VarMap`] holds: each name (as characters) with its value bytes.
pub uninterp spec fn var_map_contents(m: im::HashMap<String, Vec<u8>>) -> Map<Seq<char>, Seq<u8>>;

/// The environment with no variables.
pub open spec fn no_vars() -> Map<Seq<char>, Seq<u8>> {
    Map::empty()
}

/// Relies on `im::HashMap::new`: the map starts empty.
#[verifier::external_body]
fn var_map_new() -> (r: VarMap)
    ensures
        var_map_contents(r) == no_vars(),
{
    im::HashMap::new()
}

/// Relies on `im::HashMap::update`: a copy of the map with `k` bound to `v`,
/// overwriting an earlier binding; the original is left as it was.
#[verifier::external_body]
fn var_map_update(m: &VarMap, k: String, v: Vec<u8>) -> (r: VarMap)
    ensures
        var_map_contents(r) == var_map_contents(*m).insert(k@, v@),
{
    m.update(k, v)
}

/// Relies on `im::HashMap::extract`: the value under `k` and a copy of the
/// map without `k`, or `None` when `k` is unbound.
#[verifier::external_body]
fn var_map_extract(m: &VarMap, k: &str) -> (r: Option<(Vec<u8>, VarMap)>)
    ensures
        match r {
            None => !var_map_contents(*m).contains_key(k@),
            Some((v, rest)) => {
                &&& var_map_contents(*m).contains_key(k@)
                &&& v@ == var_map_contents(*m)[k@]
                &&& var_map_contents(rest) == var_map_contents(*m).remove(k@)
            },
        },
{
    m.extract(k)
}

/// Relies on `im::HashMap::get`: a copy of the value under `k`, if any.
#[verifier::external_body]
fn var_map_get(m: &VarMap, k: &str) -> (r: Option<Vec<u8>>)
    ensures
        match r {
            None => !var_map_contents(*m).contains_key(k@),
            Some(v) => var_map_contents(*m).contains_key(k@) && v@ == var_map_contents(*m)[k@],
        },
{
    m.get(k).cloned()
}

/// Relies on `im::HashMap::iter`: every binding once, in an order that the
/// map's hasher decides.
#[verifier::external_body]
fn var_map_entries(m: &VarMap) -> (r: Vec<(String, Vec<u8>)>)
    ensures
        forall|i: int|
            0 <= i < r@.len() ==> #[trigger] var_map_contents(*m).contains_key(r@[i].0@)
                && var_map_contents(*m)[r@[i].0@] == r@[i].1@,
        forall|i: int, j: int| 0 <= i < j < r@.len() ==> r@[i].0@ != r@[j].0@,
        forall|k: Seq<char>|
            #[trigger] var_map_contents(*m).contains_key(k) ==> exists|i: int|
                0 <= i < r@.len() && r@[i].0@ == k,
{
    m.iter().map(|(k, v)| (k.clone(), v.clone())).collect()
}

/// Relies on `Clone` for `im::HashMap`: a map with the same bindings.
#[verifier::external_body]
fn var_map_clone(m: &VarMap) -> (r: VarMap)
    ensures
        var_map_contents(r) == var_map_contents(*m),
{
    m.clone()
}

/// A typed environment variable: its name and how its value is written
/// as bytes and read back.
pub trait EnvVar: Sized {
    /// The variable's name.
    spec fn spec_key() -> Seq<char>;

    /// The bytes that stand for `self` in an environment.
    spec fn spec_serialize(&self) -> Seq<u8>;

    /// `bytes` are a well-formed value of this variable.
    spec fn spec_readable(bytes: Seq<u8>) -> bool;

    /// `v` is the value that `bytes` stand for.
    spec fn spec_reads_as(bytes: Seq<u8>, v: Self) -> bool;

    /// Two values that the same bytes read as are written the same way.
    proof fn lemma_readings_agree(bytes: Seq<u8>, v: Self, w: Self)
        requires
            Self::spec_reads_as(bytes, v),
            Self::spec_reads_as(bytes, w),
        ensures
            v.spec_serialize() == w.spec_serialize(),
    ;

    fn key() -> (r: &'static str)
        ensures
            r@ == Self::spec_key(),
    ;

    fn serialize(&self) -> (r: Vec<u8>)
        ensures
            r@ == self.spec_serialize(),
    ;

    fn deserialize(bytes: &[u8]) -> (r: Option<Self>)
        ensures
            match r {
                Some(v) => Self::spec_readable(bytes@) && Self::spec_reads_as(bytes@, v),
                None => !Self::spec_readable(bytes@),
            },
    ;
}

/// Why a typed variable could not be read from an environment.
pub enum EnvError {
    /// The variable is not set.
    MissingVariable { key: String },
    /// The variable is set, but its value does not read as the expected type.
    InvalidVariable { key: String },
}

impl EnvError {
    /// The name of the variable concerned.
    pub open spec fn spec_key(&self) -> Seq<char> {
        match self {
            EnvError::MissingVariable { key } => key@,
            EnvError::InvalidVariable { key } => key@,
        }
    }

    /// A sentence that names the variable and what is wrong with it.
    pub fn message(&self) -> (r: String)
        ensures
            r@ == match self {
                EnvError::MissingVariable { key } => "Variable "@ + key@ + " does not exist"@,
                EnvError::InvalidVariable { key } => "Variable "@ + key@
                    + " exists, but contents are invalid"@,
            },
    {
        match self {
            EnvError::MissingVariable { key } => {
                String::from_str("Variable ").concat(key.as_str()).concat(" does not exist")
            },
            EnvError::InvalidVariable { key } => {
                String::from_str("Variable ").concat(key.as_str()).concat(
                    " exists, but contents are invalid",
                )
            },
        }
    }
}

/// What reading the typed variable `E` from an environment whose bindings
/// are `m` may give: its value, or the error that names it.
pub open spec fn read_outcome<E: EnvVar>(m: Map<Seq<char>, Seq<u8>>, r: Result<E, EnvError>) -> bool {
    let key = E::spec_key();
    match r {
        Ok(v) => m.contains_key(key) && E::spec_readable(m[key]) && E::spec_reads_as(m[key], v),
        Err(EnvError::MissingVariable { key: k }) => !m.contains_key(key) && k@ == key,
        Err(EnvError::InvalidVariable { key: k }) => {
            &&& m.contains_key(key)
            &&& !E::spec_readable(m[key])
            &&& k@ == key
        },
    }
}

/// The bindings that a list of pairs gives, a later pair overriding an
/// earlier one with the same name.
pub open spec fn vars_from_pairs(s: Seq<(Seq<char>, Seq<u8>)>) -> Map<Seq<char>, Seq<u8>>
    decreases s.len(),
{
    if s.len() == 0 {
        no_vars()
    } else {
        vars_from_pairs(s.drop_last()).insert(s.last().0, s.last().1)
    }
}

/// The views of a list of name and value pairs.
pub open spec fn pairs_view(s: Seq<(String, Vec<u8>)>) -> Seq<(Seq<char>, Seq<u8>)> {
    s.map_values(|p: (String, Vec<u8>)| (p.0@, p.1@))
}

/// The `NAME=VALUE` form in which a binding is handed to a new process.
pub open spec fn assignment_bytes(key: Seq<char>, value: Seq<u8>) -> Seq<u8> {
    encode_utf8(key) + seq![61u8] + value
}

/// `lines` hold each binding of `m` once, as `NAME=VALUE`, the names in
/// the order of `names`.
pub open spec fn is_listing(
    m: Map<Seq<char>, Seq<u8>>,
    names: Seq<Seq<char>>,
    lines: Seq<Vec<u8>>,
) -> bool {
    &&& names.len() == lines.len()
    &&& forall|i: int, j: int| 0 <= i < j < names.len() ==> names[i] != names[j]
    &&& forall|i: int|
        0 <= i < names.len() ==> #[trigger] m.contains_key(names[i]) && lines[i]@ == assignment_bytes(
            names[i],
            m[names[i]],
        )
    &&& forall|k: Seq<char>| #[trigger] m.contains_key(k) ==> exists|i: int| 0 <= i < names.len() && names[i] == k
}

/// An immutable process environment: each name is bound at most once.
pub struct Env {
    state: VarMap,
}

impl View for Env {
    type V = Map<Seq<char>, Seq<u8>>;

    closed spec fn view(&self) -> Map<Seq<char>, Seq<u8>> {
        var_map_contents(self.state)
    }
}

impl Env {
    /// The environment with no variables.
    pub fn empty() -> (r: Env)
        ensures
            r@ == no_vars(),
    {
        Env { state: var_map_new() }
    }

    /// The environment that a list of bindings gives; of two bindings with
    /// one name the later one stands.
    pub fn from_values(values: Vec<(String, Vec<u8>)>) -> (r: Env)
        ensures
            r@ == vars_from_pairs(pairs_view(values@)),
    {
        let mut state = var_map_new();
        let mut i: usize = 0;
        while i < values.len()
            invariant
                0 <= i <= values@.len(),
                var_map_contents(state) == vars_from_pairs(pairs_view(values@).take(i as int)),
            decreases values@.len() - i,
        {
            let k = values[i].0.clone();
            let v = values[i].1.clone();
            assert(pairs_view(values@).take(i + 1).drop_last() =~= pairs_view(values@).take(i as int));
            state = var_map_update(&state, k, v);
            i = i + 1;
        }
        assert(pairs_view(values@).take(values@.len() as int) =~= pairs_view(values@));
        Env { state }
    }

    /// A copy with the same bindings.
    pub fn duplicate(&self) -> (r: Env)
        ensures
            r@ == self@,
    {
        Env { state: var_map_clone(&self.state) }
    }

    /// The value bound to `key`, if any.
    pub fn get_raw(&self, key: &str) -> (r: Option<Vec<u8>>)
        ensures
            match r {
                None => !self@.contains_key(key@),
                Some(v) => self@.contains_key(key@) && v@ == self@[key@],
            },
    {
        var_map_get(&self.state, key)
    }

    /// This environment with `key` bound to `value`.
    pub fn set_untyped(self, key: String, value: Vec<u8>) -> (r: Env)
        ensures
            r@ == self@.insert(key@, value@),
    {
        Env { state: var_map_update(&self.state, key, value) }
    }

    /// This environment with the typed variable `var` set.
    pub fn set<E: EnvVar>(self, var: E) -> (r: Env)
        ensures
            r@ == self@.insert(E::spec_key(), var.spec_serialize()),
    {
        let key = String::from_str(E::key());
        let value = var.serialize();
        Env { state: var_map_update(&self.state, key, value) }
    }

    /// Reads the typed variable `E` without removing it.
    pub fn peek<E: EnvVar>(&self) -> (r: Result<E, EnvError>)
        ensures
            read_outcome(self@, r),
    {
        let key = E::key();
        match var_map_get(&self.state, key) {
            None => Err(EnvError::MissingVariable { key: String::from_str(key) }),
            Some(bytes) => match E::deserialize(bytes.as_slice()) {
                Some(v) => Ok(v),
                None => Err(EnvError::InvalidVariable { key: String::from_str(key) }),
            },
        }
    }

    /// Removes the typed variable `E` and reads it. The variable is removed
    /// when it is set, whether or not its value reads.
    pub fn pull<E: EnvVar>(&mut self) -> (r: Result<E, EnvError>)
        ensures
            read_outcome(old(self)@, r),
            final(self)@ == old(self)@.remove(E::spec_key()),
    {
        let key = E::key();
        match var_map_extract(&self.state, key) {
            None => {
                assert(old(self)@.remove(key@) =~= old(self)@);
                Err(EnvError::MissingVariable { key: String::from_str(key) })
            },
            Some((bytes, rest)) => {
                self.state = rest;
                match E::deserialize(bytes.as_slice()) {
                    Some(v) => Ok(v),
                    None => Err(EnvError::InvalidVariable { key: String::from_str(key) }),
                }
            },
        }
    }

    /// The union of both environments; where both bind a name, `other`'s
    /// value stands. `other`'s bindings are written over this environment
    /// one by one: `im::HashMap::union` keeps the values of whichever map
    /// is larger, not of a fixed side, so it cannot give this bias.
    pub fn merge(self, other: &Env) -> (r: Env)
        ensures
            r@ == self@.union_prefer_right(other@),
    {
        let entries = var_map_entries(&other.state);
        let mut state = self.state;
        let mut i: usize = 0;
        while i < entries.len()
            invariant
                0 <= i <= entries@.len(),
                forall|a: int| 0 <= a < entries@.len() ==> #[trigger] other@.contains_key(entries@[a].0@)
                    && other@[entries@[a].0@] == entries@[a].1@,
                forall|a: int, b: int| 0 <= a < b < entries@.len() ==> entries@[a].0@ != entries@[b].0@,
                forall|k: Seq<char>| #[trigger] other@.contains_key(k) ==> exists|a: int|
                    0 <= a < entries@.len() && entries@[a].0@ == k,
                forall|k: Seq<char>| #[trigger] var_map_contents(state).contains_key(k) <==> (
                    self@.contains_key(k) || exists|a: int| 0 <= a < i && entries@[a].0@ == k),
                forall|k: Seq<char>| #[trigger] var_map_contents(state).contains_key(k) ==> (
                    if exists|a: int| 0 <= a < i && entries@[a].0@ == k {
                        var_map_contents(state)[k] == other@[k]
                    } else {
                        var_map_contents(state)[k] == self@[k]
                    }),
            decreases entries@.len() - i,
        {
            let k = entries[i].0.clone();
            let v = entries[i].1.clone();
            let ghost before = var_map_contents(state);
            state = var_map_update(&state, k, v);
            assert forall|k2: Seq<char>| #[trigger] var_map_contents(state).contains_key(k2) <==> (
                self@.contains_key(k2) || exists|a: int| 0 <= a < i + 1 && entries@[a].0@ == k2) by {
                if k2 == entries@[i as int].0@ {
                } else {
                    if exists|a: int| 0 <= a < i + 1 && entries@[a].0@ == k2 {
                        let a = choose|a: int| 0 <= a < i + 1 && entries@[a].0@ == k2;
                        assert(a < i);
                    }
                }
            }
            assert forall|k2: Seq<char>| #[trigger] var_map_contents(state).contains_key(k2) implies (
                if exists|a: int| 0 <= a < i + 1 && entries@[a].0@ == k2 {
                    var_map_contents(state)[k2] == other@[k2]
                } else {
                    var_map_contents(state)[k2] == self@[k2]
                }) by {
                if k2 == entries@[i as int].0@ {
                    assert(other@.contains_key(entries@[i as int].0@));
                } else {
                    if exists|a: int| 0 <= a < i + 1 && entries@[a].0@ == k2 {
                        let a = choose|a: int| 0 <= a < i + 1 && entries@[a].0@ == k2;
                        assert(a < i);
                    }
                }
            }
            i = i + 1;
        }
        let r = Env { state };
        assert forall|k: Seq<char>| #[trigger] other@.contains_key(k) implies
            exists|a: int| 0 <= a < entries@.len() && entries@[a].0@ == k by {
        }
        assert(r@ =~= self@.union_prefer_right(other@));
        r
    }

    /// The bindings as `NAME=VALUE` byte strings, each once, in no
    /// particular order.
    pub fn to_vec(&self) -> (r: Vec<Vec<u8>>)
        ensures
            exists|names: Seq<Seq<char>>| #[trigger] is_listing(
                self@,
                names,
                r@,
            ),
    {
        let entries = var_map_entries(&self.state);
        let ghost names = entries@.map_values(|p: (String, Vec<u8>)| p.0@);
        let mut out: Vec<Vec<u8>> = Vec::new();
        let mut i: usize = 0;
        while i < entries.len()
            invariant
                0 <= i <= entries@.len(),
                names == entries@.map_values(|p: (String, Vec<u8>)| p.0@),
                out@.len() == i,
                forall|a: int| 0 <= a < entries@.len() ==> #[trigger] self@.contains_key(entries@[a].0@)
                    && self@[entries@[a].0@] == entries@[a].1@,
                forall|a: int| 0 <= a < i ==> #[trigger] out@[a]@ == assignment_bytes(
                    entries@[a].0@, entries@[a].1@),
                forall|a: int, b: int| 0 <= a < b < entries@.len() ==> entries@[a].0@ != entries@[b].0@,
                forall|k: Seq<char>| #[trigger] self@.contains_key(k) ==> exists|a: int|
                    0 <= a < entries@.len() && entries@[a].0@ == k,
            decreases entries@.len() - i,
        {
            let mut line = vstd::slice::slice_to_vec(entries[i].0.as_str().as_bytes());
            line.push(61u8);
            let mut value = entries[i].1.clone();
            line.append(&mut value);
            assert(line@ =~= assignment_bytes(entries@[i as int].0@, entries@[i as int].1@));
            out.push(line);
            i = i + 1;
        }
        assert forall|k: Seq<char>| #[trigger] self@.contains_key(k) implies exists|a: int|
            0 <= a < names.len() && names[a] == k by {
            let a = choose|a: int| 0 <= a < entries@.len() && entries@[a].0@ == k;
            assert(names[a] == k);
        }
        assert forall|a: int| 0 <= a < names.len() implies #[trigger] self@.contains_key(names[a])
            && out@[a]@ == assignment_bytes(names[a], self@[names[a]]) by {
            assert(names[a] == entries@[a].0@);
        }
        assert forall|a: int, b: int| 0 <= a < b < names.len() implies names[a] != names[b] by {
            assert(names[a] == entries@[a].0@);
            assert(names[b] == entries@[b].0@);
        }
        assert(is_listing(self@, names, out@));
        out
    }

    /// The bindings as name and value pairs, each once, in no particular
    /// order.
    pub fn entries(&self) -> (r: Vec<(String, Vec<u8>)>)
        ensures
            forall|i: int| 0 <= i < r@.len() ==> #[trigger] self@.contains_key(r@[i].0@)
                && self@[r@[i].0@] == r@[i].1@,
            forall|i: int, j: int| 0 <= i < j < r@.len() ==> r@[i].0@ != r@[j].0@,
            forall|k: Seq<char>| #[trigger] self@.contains_key(k) ==> exists|i: int|
                0 <= i < r@.len() && r@[i].0@ == k,
    {
        let r = var_map_entries(&self.state);
        assert forall|i: int| 0 <= i < r@.len() implies #[trigger] self@.contains_key(r@[i].0@)
            && self@[r@[i].0@] == r@[i].1@ by {
            assert(var_map_contents(self.state).contains_key(r@[i].0@));
        }
        r
    }
}

/// Relies on `String::from_utf8`: it accepts exactly the valid UTF-8 byte
/// strings, and the text holds the characters that they encode.
#[verifier::external_body]
pub(crate) fn utf8_string(b: Vec<u8>) -> (r: Option<String>)
    ensures
        r is Some <==> valid_utf8(b@),
        r matches Some(s) ==> s@ == decode_utf8(b@),
{
    String::from_utf8(b).ok()
}

/// `i` is where the first `=` of `line` stands.
pub open spec fn is_first_equals(line: Seq<u8>, i: int) -> bool {
    &&& 0 <= i < line.len()
    &&& line[i] == 61
    &&& forall|j: int| 0 <= j < i ==> line[j] != 61
}

/// The binding that a `NAME=VALUE` line gives: the name is what comes
/// before the first `=`, and must be valid UTF-8.
pub open spec fn assignment_binding(line: Seq<u8>) -> Option<(Seq<char>, Seq<u8>)> {
    if exists|i: int| is_first_equals(line, i) {
        let i = choose|i: int| is_first_equals(line, i);
        if valid_utf8(line.take(i)) {
            Some((decode_utf8(line.take(i)), line.skip(i + 1)))
        } else {
            None
        }
    } else {
        None
    }
}

/// The bindings that `NAME=VALUE` lines give, a later line overriding an
/// earlier one; lines without `=` or with a name that is not UTF-8 are
/// left out.
pub open spec fn vars_from_assignments(lines: Seq<Seq<u8>>) -> Map<Seq<char>, Seq<u8>>
    decreases lines.len(),
{
    if lines.len() == 0 {
        no_vars()
    } else {
        let m = vars_from_assignments(lines.drop_last());
        match assignment_binding(lines.last()) {
            Some((k, v)) => m.insert(k, v),
            None => m,
        }
    }
}

/// The name and value of one `NAME=VALUE` line.
fn split_assignment(line: &Vec<u8>) -> (r: Option<(String, Vec<u8>)>)
    ensures
        match assignment_binding(line@) {
            Some((k, v)) => r matches Some((name, value)) && name@ == k && value@ == v,
            None => r is None,
        },
{
    let mut found: Option<usize> = None;
    let mut j: usize = 0;
    while j < line.len()
        invariant
            0 <= j <= line@.len(),
            found matches Some(p) ==> is_first_equals(line@, p as int),
            found is None ==> forall|k: int| 0 <= k < j ==> line@[k] != 61,
        decreases line@.len() - j,
    {
        if found.is_none() && line[j] == 61u8 {
            found = Some(j);
        }
        j = j + 1;
    }
    let i = match found {
        Some(p) => p,
        None => {
            assert(!exists|k: int| is_first_equals(line@, k));
            return None;
        },
    };
    assert forall|k: int| is_first_equals(line@, k) implies k == i by {
        if k < i {
        } else if k > i {
            assert(line@[i as int] == 61);
        }
    }
    let name_bytes = vstd::slice::slice_to_vec(vstd::slice::slice_subrange(line.as_slice(), 0, i));
    let value = vstd::slice::slice_to_vec(vstd::slice::slice_subrange(line.as_slice(), i + 1, line.len()));
    assert(name_bytes@ =~= line@.take(i as int));
    assert(value@ =~= line@.skip(i + 1));
    match utf8_string(name_bytes) {
        Some(name) => Some((name, value)),
        None => None,
    }
}

impl Env {
    /// The environment that `NAME=VALUE` lines describe, as PAM hands back
    /// its environment list.
    pub fn from_assignments(lines: &Vec<Vec<u8>>) -> (r: Env)
        ensures
            r@ == vars_from_assignments(lines@.map_values(|l: Vec<u8>| l@)),
    {
        let ghost views = lines@.map_values(|l: Vec<u8>| l@);
        let mut env = Env::empty();
        let mut i: usize = 0;
        while i < lines.len()
            invariant
                0 <= i <= lines@.len(),
                views == lines@.map_values(|l: Vec<u8>| l@),
                env@ == vars_from_assignments(views.take(i as int)),
            decreases lines@.len() - i,
        {
            assert(views.take(i + 1).drop_last() =~= views.take(i as int));
            assert(views.take(i + 1).last() == lines@[i as int]@);
            match split_assignment(&lines[i]) {
                Some((name, value)) => {
                    env = env.set_untyped(name, value);
                },
                None => {},
            }
            i = i + 1;
        }
        assert(views.take(lines@.len() as int) =~= views);
        env
    }
}

/// No name in `m` holds a `=`.
pub open spec fn names_without_equals(m: Map<Seq<char>, Seq<u8>>) -> bool {
    forall|k: Seq<char>, i: int| m.contains_key(k) && 0 <= i < k.len() ==> #[trigger] k[i] != '='
}

proof fn lemma_scalar_without_equals(v: u32)
    requires
        v != 61,
    ensures
        forall|j: int| 0 <= j < vstd::utf8::encode_scalar(v).len() ==> vstd::utf8::encode_scalar(v)[j] != 61,
{
    assert(v <= 0x7F && v != 61 ==> (v & 0x7F) as u8 != 61) by (bit_vector);
    assert(forall|x: u8| (0x80u8 | x) != 61u8) by (bit_vector);
    assert(forall|x: u8| (0xC0u8 | x) != 61u8) by (bit_vector);
    assert(forall|x: u8| (0xE0u8 | x) != 61u8) by (bit_vector);
    assert(forall|x: u8| (0xF0u8 | x) != 61u8) by (bit_vector);
}

proof fn lemma_encoding_without_equals(k: Seq<char>)
    requires
        forall|i: int| 0 <= i < k.len() ==> k[i] != '=',
    ensures
        forall|j: int| 0 <= j < encode_utf8(k).len() ==> encode_utf8(k)[j] != 61,
    decreases k.len(),
{
    if k.len() > 0 {
        assert(k[0] != '=');
        assert(('=' as u32) == 61);
        if (k[0] as u32) == 61 {
            vstd::utf8::char_u32_cast(k[0], 61);
            vstd::utf8::char_u32_cast('=', 61);
        }
        lemma_scalar_without_equals(k[0] as u32);
        lemma_encoding_without_equals(k.drop_first());
        let head = vstd::utf8::encode_scalar(k[0] as u32);
        let tail = encode_utf8(k.drop_first());
        assert(encode_utf8(k) == head + tail);
        assert forall|j: int| 0 <= j < encode_utf8(k).len() implies encode_utf8(k)[j] != 61 by {
            if j < head.len() {
                assert(encode_utf8(k)[j] == head[j]);
            } else {
                assert(encode_utf8(k)[j] == tail[j - head.len()]);
            }
        }
    }
}

/// A `NAME=VALUE` line whose name holds no `=` gives back that name and value.
proof fn lemma_assignment_round_trip(k: Seq<char>, v: Seq<u8>)
    requires
        forall|i: int| 0 <= i < k.len() ==> k[i] != '=',
    ensures
        assignment_binding(assignment_bytes(k, v)) == Some((k, v)),
{
    let line = assignment_bytes(k, v);
    let n = encode_utf8(k).len() as int;
    lemma_encoding_without_equals(k);
    assert forall|j: int| 0 <= j < n implies line[j] != 61 by {
        assert(line[j] == encode_utf8(k)[j]);
    }
    assert(is_first_equals(line, n));
    assert forall|i: int| is_first_equals(line, i) implies i == n by {
        if i < n {
            assert(line[i] == encode_utf8(k)[i]);
        } else if i > n {
            assert(line[n] == 61);
        }
    }
    assert(line.take(n) =~= encode_utf8(k));
    assert(line.skip(n + 1) =~= v);
    vstd::utf8::encode_utf8_valid_utf8(k);
    vstd::utf8::encode_utf8_decode_utf8(k);
}

proof fn lemma_listing_prefix(m: Map<Seq<char>, Seq<u8>>, names: Seq<Seq<char>>, lines: Seq<Seq<u8>>, j: int)
    requires
        0 <= j <= names.len(),
        names.len() == lines.len(),
        names_without_equals(m),
        forall|a: int, b: int| 0 <= a < b < names.len() ==> names[a] != names[b],
        forall|i: int|
            0 <= i < names.len() ==> #[trigger] m.contains_key(names[i]) && lines[i] == assignment_bytes(
                names[i],
                m[names[i]],
            ),
    ensures
        forall|k: Seq<char>| #[trigger] vars_from_assignments(lines.take(j)).contains_key(k) <==> exists|i: int|
            0 <= i < j && names[i] == k,
        forall|k: Seq<char>| #[trigger] vars_from_assignments(lines.take(j)).contains_key(k) ==> vars_from_assignments(
            lines.take(j),
        )[k] == m[k],
    decreases j,
{
    if j > 0 {
        lemma_listing_prefix(m, names, lines, j - 1);
        let k = names[j - 1];
        assert(m.contains_key(k));
        assert forall|i: int| 0 <= i < k.len() implies k[i] != '=' by {
            assert(m.contains_key(k) && 0 <= i < k.len());
        }
        lemma_assignment_round_trip(k, m[k]);
        assert(lines.take(j).drop_last() =~= lines.take(j - 1));
        assert(lines.take(j).last() == lines[j - 1]);
        let prev = vars_from_assignments(lines.take(j - 1));
        assert(vars_from_assignments(lines.take(j)) == prev.insert(k, m[k]));
        assert forall|k2: Seq<char>| #[trigger] vars_from_assignments(lines.take(j)).contains_key(k2) <==> exists|i: int|
            0 <= i < j && names[i] == k2 by {
            if k2 != k && exists|i: int| 0 <= i < j && names[i] == k2 {
                let i = choose|i: int| 0 <= i < j && names[i] == k2;
                assert(i < j - 1);
            }
        }
    }
}

/// Listing an environment as `NAME=VALUE` lines and reading the lines back
/// gives the same environment, where no name holds a `=`.
pub proof fn law_listing_round_trip(m: Map<Seq<char>, Seq<u8>>, names: Seq<Seq<char>>, lines: Seq<Vec<u8>>)
    requires
        is_listing(m, names, lines),
        names_without_equals(m),
    ensures
        vars_from_assignments(lines.map_values(|l: Vec<u8>| l@)) == m,
{
    let views = lines.map_values(|l: Vec<u8>| l@);
    assert(forall|i: int|
        0 <= i < names.len() ==> #[trigger] m.contains_key(names[i]) && lines[i]@ == assignment_bytes(
            names[i],
            m[names[i]],
        ));
    assert forall|i: int| 0 <= i < names.len() implies #[trigger] m.contains_key(names[i]) && views[i]
        == assignment_bytes(names[i], m[names[i]]) by {
        assert(views[i] == lines[i]@);
    }
    lemma_listing_prefix(m, names, views, names.len() as int);
    assert(views.take(names.len() as int) =~= views);
    let r = vars_from_assignments(views);
    assert forall|k: Seq<char>| r.contains_key(k) <==> m.contains_key(k) by {
        if m.contains_key(k) {
            let i = choose|i: int| 0 <= i < names.len() && names[i] == k;
            assert(r.contains_key(names[i]));
        }
    }
    assert(r =~= m);
}

/// One step in composing an environment: a single untyped binding, or a
/// whole environment merged over the current one.
pub enum EnvUpdate {
    Assign { key: String, value: Vec<u8> },
    Merge { vars: Env },
}

impl EnvUpdate {
    /// The bindings that this step writes.
    pub open spec fn bindings(&self) -> Map<Seq<char>, Seq<u8>> {
        match self {
            EnvUpdate::Assign { key, value } => map![key@ => value@],
            EnvUpdate::Merge { vars } => vars@,
        }
    }

    /// The step that sets the typed variable `var`.
    pub fn typed<E: EnvVar>(var: E) -> (r: EnvUpdate)
        ensures
            r.bindings() == map![E::spec_key() => var.spec_serialize()],
    {
        EnvUpdate::Assign { key: String::from_str(E::key()), value: var.serialize() }
    }

    /// The step that a `NAME=VALUE` text describes, split at its first `=`;
    /// `None` where it holds no `=`.
    pub fn from_assignment(assignment: &str) -> (r: Option<EnvUpdate>)
        ensures
            match assignment_binding(assignment.spec_bytes()) {
                Some((k, v)) => r matches Some(u) && u.bindings() == map![k => v],
                None => r is None,
            },
    {
        let bytes = vstd::slice::slice_to_vec(assignment.as_bytes());
        match split_assignment(&bytes) {
            Some((key, value)) => Some(EnvUpdate::Assign { key, value }),
            None => None,
        }
    }

    /// The step that binds `key` to `value` as given.
    pub fn assign(key: &str, value: &str) -> (r: EnvUpdate)
        ensures
            r.bindings() == map![key@ => value.spec_bytes()],
    {
        EnvUpdate::Assign {
            key: String::from_str(key),
            value: vstd::slice::slice_to_vec(value.as_bytes()),
        }
    }
}

/// The views of a list of steps.
pub open spec fn updates_view(us: Seq<EnvUpdate>) -> Seq<Map<Seq<char>, Seq<u8>>> {
    us.map_values(|u: EnvUpdate| u.bindings())
}

/// `base` with each of `us` merged over it in turn.
pub open spec fn fold_updates(
    base: Map<Seq<char>, Seq<u8>>,
    us: Seq<Map<Seq<char>, Seq<u8>>>,
) -> Map<Seq<char>, Seq<u8>>
    decreases us.len(),
{
    if us.len() == 0 {
        base
    } else {
        fold_updates(base, us.drop_last()).union_prefer_right(us.last())
    }
}

/// The position of the last of `us` that binds `k`, or -1 where none does.
pub open spec fn last_binding(us: Seq<Map<Seq<char>, Seq<u8>>>, k: Seq<char>) -> int
    decreases us.len(),
{
    if us.len() == 0 {
        -1
    } else if us.last().contains_key(k) {
        us.len() - 1
    } else {
        last_binding(us.drop_last(), k)
    }
}

impl Env {
    /// This environment with each of `updates` merged over it in turn.
    pub fn apply(self, updates: Vec<EnvUpdate>) -> (r: Env)
        ensures
            r@ == fold_updates(self@, updates_view(updates@)),
    {
        let mut env = self;
        let ghost base = env@;
        let ghost all = updates@;
        let mut rest = updates;
        let ghost mut k: int = 0;
        while rest.len() > 0
            invariant
                0 <= k <= all.len(),
                rest@ == all.subrange(k, all.len() as int),
                env@ == fold_updates(base, updates_view(all.take(k))),
            decreases rest@.len(),
        {
            let u = rest.remove(0);
            let ghost prev = fold_updates(base, updates_view(all.take(k)));
            assert(u == all[k]);
            env = match u {
                EnvUpdate::Assign { key, value } => {
                    let ghost km = key@;
                    let ghost vm = value@;
                    let e = env.set_untyped(key, value);
                    assert(e@ =~= prev.union_prefer_right(map![km => vm]));
                    e
                },
                EnvUpdate::Merge { vars } => env.merge(&vars),
            };
            assert(updates_view(all.take(k + 1)).drop_last() =~= updates_view(all.take(k)));
            assert(updates_view(all.take(k + 1)).last() == all[k].bindings());
            proof {
                k = k + 1;
            }
            assert(rest@ =~= all.subrange(k, all.len() as int));
        }
        assert(all.take(k) =~= all);
        env
    }
}

/// Composing an environment from a sequence of steps binds exactly the
/// names of the base and of the steps; each name holds the value of the
/// last step that binds it, or the base's value where no step does.
pub proof fn law_last_write_wins(
    base: Map<Seq<char>, Seq<u8>>,
    us: Seq<Map<Seq<char>, Seq<u8>>>,
    k: Seq<char>,
)
    ensures
        fold_updates(base, us).contains_key(k) <==> (base.contains_key(k) || exists|i: int|
            0 <= i < us.len() && #[trigger] us[i].contains_key(k)),
        last_binding(us, k) >= 0 ==> {
            &&& last_binding(us, k) < us.len()
            &&& us[last_binding(us, k)].contains_key(k)
            &&& fold_updates(base, us)[k] == us[last_binding(us, k)][k]
            &&& forall|i: int| last_binding(us, k) < i < us.len() ==> !(#[trigger] us[i].contains_key(k))
        },
        last_binding(us, k) < 0 ==> {
            &&& forall|i: int| 0 <= i < us.len() ==> !(#[trigger] us[i].contains_key(k))
            &&& (base.contains_key(k) ==> fold_updates(base, us)[k] == base[k])
        },
    decreases us.len(),
{
    if us.len() > 0 {
        let init = us.drop_last();
        law_last_write_wins(base, init, k);
        assert forall|i: int| 0 <= i < us.len() - 1 implies us[i] == init[i] by {}
        if !us.last().contains_key(k) {
            if exists|i: int| 0 <= i < us.len() && #[trigger] us[i].contains_key(k) {
                let i = choose|i: int| 0 <= i < us.len() && #[trigger] us[i].contains_key(k);
                assert(init[i].contains_key(k));
            }
        }
    }
}

/// Merging is associative over environments.
pub proof fn law_merge_associative(
    a: Map<Seq<char>, Seq<u8>>,
    b: Map<Seq<char>, Seq<u8>>,
    c: Map<Seq<char>, Seq<u8>>,
)
    ensures
        a.union_prefer_right(b).union_prefer_right(c) == a.union_prefer_right(b.union_prefer_right(c)),
{
    assert(a.union_prefer_right(b).union_prefer_right(c) =~= a.union_prefer_right(
        b.union_prefer_right(c),
    ));
}

/// The empty environment is the identity of merging, on either side.
pub proof fn law_merge_identity(a: Map<Seq<char>, Seq<u8>>)
    ensures
        no_vars().union_prefer_right(a) == a,
        a.union_prefer_right(no_vars()) == a,
{
    assert(no_vars().union_prefer_right(a) =~= a);
    assert(a.union_prefer_right(no_vars()) =~= a);
}

/// Reading a typed variable right after setting it succeeds, and gives a
/// value that is written as the value set was, for a variable whose
/// written form reads back as a value written the same way. What is left
/// is the environment without that variable.
pub proof fn law_pull_after_set<E: EnvVar>(m: Map<Seq<char>, Seq<u8>>, v: E, r: Result<E, EnvError>)
    requires
        E::spec_readable(v.spec_serialize()),
        forall|w: E| #[trigger] E::spec_reads_as(v.spec_serialize(), w) ==> w.spec_serialize() == v.spec_serialize(),
        read_outcome(m.insert(E::spec_key(), v.spec_serialize()), r),
    ensures
        r is Ok,
        r->Ok_0.spec_serialize() == v.spec_serialize(),
        m.insert(E::spec_key(), v.spec_serialize()).remove(E::spec_key()) == m.remove(E::spec_key()),
{
    assert(m.insert(E::spec_key(), v.spec_serialize()).remove(E::spec_key()) =~= m.remove(
        E::spec_key(),
    ));
}

/// Reading a typed variable right after setting `v` gives a value written
/// as the value `w` that reading `v`'s written form on its own gives; it is
/// `w` itself where the written form reads as one value only.
pub proof fn law_pull_after_set_agrees<E: EnvVar>(
    m: Map<Seq<char>, Seq<u8>>,
    v: E,
    w: E,
    r: Result<E, EnvError>,
)
    requires
        E::spec_readable(v.spec_serialize()),
        E::spec_reads_as(v.spec_serialize(), w),
        read_outcome(m.insert(E::spec_key(), v.spec_serialize()), r),
    ensures
        r is Ok,
        E::spec_reads_as(v.spec_serialize(), r->Ok_0),
        r->Ok_0.spec_serialize() == w.spec_serialize(),
        (forall|x: E, y: E|
            #[trigger] E::spec_reads_as(v.spec_serialize(), x) && #[trigger] E::spec_reads_as(v.spec_serialize(), y)
                ==> x == y) ==> r == Ok::<E, EnvError>(w),
{
    E::lemma_readings_agree(v.spec_serialize(), r->Ok_0, w);
}

/// For a variable whose written form reads back as exactly the value
/// written, reading it right after setting it gives back that value.
pub proof fn law_pull_after_set_exact<E: EnvVar>(m: Map<Seq<char>, Seq<u8>>, v: E, r: Result<E, EnvError>)
    requires
        E::spec_readable(v.spec_serialize()),
        forall|w: E| #[trigger] E::spec_reads_as(v.spec_serialize(), w) ==> w == v,
        read_outcome(m.insert(E::spec_key(), v.spec_serialize()), r),
    ensures
        r == Ok::<E, EnvError>(v),
{
}

} // verus!
