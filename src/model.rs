//! The values that a resolved crate is made of: editions, identities, names,
//! dependency edges and cfg flags.

use vstd::prelude::*;
use vstd::string::StrSliceExecFns;
use vstd::string::StringExecFns;
use crate::text::{dashes_to_underscores, first_position, replace_dashes};

verus! {

/// The edition a crate is compiled with.
#[derive(Clone, Copy, Debug, PartialEq, Eq, Hash, Structural)]
pub enum Edition {
    Edition2015,
    Edition2018,
    Edition2021,
}

/// The identity of a crate: its position in the project's crate list.
/// Identities mean something only within the project that issued them.
#[derive(Clone, Copy, Debug, PartialEq, Eq, Hash, Structural)]
pub struct CrateId {
    raw: usize,
}

impl CrateId {
    pub open spec fn index(self) -> nat {
        self.raw_spec() as nat
    }

    pub closed spec fn raw_spec(self) -> usize {
        self.raw
    }

    /// The identity of the crate at position `raw`.
    pub fn from_raw(raw: usize) -> (r: CrateId)
        ensures
            r.index() == raw,
    {
        CrateId { raw }
    }

    /// The position that this identity stands for.
    pub fn into_raw(self) -> (r: usize)
        ensures
            r == self.index(),
    {
        self.raw
    }
}

pub uninterp spec fn alphanumeric(c: char) -> bool;

/// Relies on `char::is_alphanumeric`: whether `c` is alphabetic or numeric in
/// Unicode's sense, which depends on `c` alone.
#[verifier::external_body]
fn is_alphanumeric(c: char) -> (r: bool)
    ensures
        r == alphanumeric(c),
{
    c.is_alphanumeric()
}

/// A crate name is non-empty and made of letters, digits and `_`.
pub open spec fn is_crate_name(s: Seq<char>) -> bool {
    &&& s.len() > 0
    &&& forall|i: int| 0 <= i < s.len() ==> #[trigger] s[i] == '_' || alphanumeric(s[i])
}

/// The name under which a dependency is visible in the crate that uses it.
#[derive(Clone, Debug, PartialEq, Eq, Hash)]
pub struct CrateName {
    name: String,
}

impl View for CrateName {
    type V = Seq<char>;

    closed spec fn view(&self) -> Seq<char> {
        self.name@
    }
}

impl CrateName {
    /// Checks `name` against the rules of crate names.
    pub fn new(name: &str) -> (r: Option<CrateName>)
        ensures
            r is Some <==> is_crate_name(name@),
            r matches Some(n) ==> n@ == name@,
    {
        let n = name.unicode_len();
        if n == 0 {
            return None;
        }
        let mut i: usize = 0;
        while i < n
            invariant
                n == name@.len(),
                i <= n,
                forall|j: int| 0 <= j < i ==> #[trigger] name@[j] == '_' || alphanumeric(name@[j]),
            decreases n - i,
        {
            let c = name.get_char(i);
            if c != '_' && !is_alphanumeric(c) {
                return None;
            }
            i = i + 1;
        }
        Some(CrateName { name: name.to_owned() })
    }

    pub fn as_str(&self) -> (r: &str)
        ensures
            r@ == self@,
    {
        self.name.as_str()
    }
}

/// The name a crate is shown under. It keeps the name as written (the
/// canonical name) and, beside it, that name with each `-` written as `_`.
#[derive(Clone, Debug, PartialEq, Eq, Hash)]
pub struct CrateDisplayName {
    crate_name: String,
    canonical_name: String,
}

impl CrateDisplayName {
    pub closed spec fn canonical(&self) -> Seq<char> {
        self.canonical_name@
    }

    pub closed spec fn normalized(&self) -> Seq<char> {
        self.crate_name@
    }

    pub fn from_canonical_name(canonical_name: String) -> (r: CrateDisplayName)
        ensures
            r.canonical() == canonical_name@,
            r.normalized() == dashes_to_underscores(canonical_name@),
    {
        let crate_name = replace_dashes(canonical_name.as_str());
        CrateDisplayName { crate_name, canonical_name }
    }

    /// The name as written.
    pub fn canonical_name(&self) -> (r: &str)
        ensures
            r@ == self.canonical(),
    {
        self.canonical_name.as_str()
    }

    /// The name with each `-` written as `_`.
    pub fn crate_name(&self) -> (r: &str)
        ensures
            r@ == self.normalized(),
    {
        self.crate_name.as_str()
    }
}

/// An edge of the crate graph: the crate depended on, and the name it is
/// known by in the crate that depends on it.
#[derive(Clone, Debug, PartialEq, Eq, Hash)]
pub struct Dependency {
    pub crate_id: CrateId,
    pub name: CrateName,
}

impl Dependency {
    pub fn new(name: CrateName, crate_id: CrateId) -> (r: Dependency)
        ensures
            r.name == name,
            r.crate_id == crate_id,
    {
        Dependency { crate_id, name }
    }
}

/// A conditional-compilation flag: a bare name, or a key with a value.
#[derive(Clone, Debug, PartialEq, Eq, Hash)]
pub enum CfgFlag {
    Atom(String),
    KeyValue { key: String, value: String },
}

impl CfgFlag {
    /// Reads a flag: text with a `=` is split at its first `=` into a key and
    /// a value, text without one is a bare name.
    pub fn parse(s: &str) -> (r: CfgFlag)
        ensures
            r matches CfgFlag::Atom(a) ==> !s@.contains('=') && a@ == s@,
            r matches CfgFlag::KeyValue { key, value } ==> !key@.contains('=') && s@ == key@ + seq!['='] + value@,
            r is Atom <==> !s@.contains('='),
    {
        match first_position(s, '=') {
            None => CfgFlag::Atom(s.to_owned()),
            Some(k) => {
                let n = s.unicode_len();
                let key = s.substring_char(0, k).to_owned();
                let value = s.substring_char(k + 1, n).to_owned();
                assert(s@ =~= key@ + seq!['='] + value@);
                CfgFlag::KeyValue { key, value }
            },
        }
    }
}

} // verus!
