//! The project description as it is written: paths may be relative,
//! dependencies name crates by position, and several fields are optional.

use vstd::prelude::*;
use crate::model::{CrateName, CfgFlag, Edition, is_crate_name};
use crate::text::same_text;

verus! {

#[verifier::external_type_specification]
#[verifier::external_body]
pub struct ExVersion(semver::Version);

#[verifier::external_type_specification]
#[verifier::external_body]
pub struct ExFxHasher(rustc_hash::FxHasher);

#[verifier::external_type_specification]
#[verifier::external_body]
#[verifier::reject_recursive_types(H)]
pub struct ExBuildHasherDefault<H>(std::hash::BuildHasherDefault<H>);

/// The edition as the description writes it.
#[derive(Clone, Copy, Debug, PartialEq, Eq, Hash, Structural)]
pub enum EditionData {
    Edition2015,
    Edition2018,
    Edition2021,
}

/// What a description may fail on, field by field.
#[derive(Clone, Debug, PartialEq, Eq)]
pub enum SchemaError {
    /// An edition other than `2015`, `2018` and `2021`.
    UnknownEdition(String),
    /// A dependency name that is not a crate name.
    InvalidCrateName(String),
}

pub open spec fn edition_text(e: EditionData) -> Seq<char> {
    match e {
        EditionData::Edition2015 => seq!['2', '0', '1', '5'],
        EditionData::Edition2018 => seq!['2', '0', '1', '8'],
        EditionData::Edition2021 => seq!['2', '0', '2', '1'],
    }
}

impl EditionData {
    /// Reads an edition: exactly `2015`, `2018` or `2021`.
    pub fn from_text(s: &str) -> (r: Result<EditionData, SchemaError>)
        ensures
            r matches Ok(e) ==> edition_text(e) == s@,
            r is Err <==> (forall|e: EditionData| edition_text(e) != s@),
            r matches Err(err) ==> err matches SchemaError::UnknownEdition(t) && t@ == s@,
    {
        proof {
            reveal_strlit("2015");
            reveal_strlit("2018");
            reveal_strlit("2021");
        }
        if same_text(s, "2015") {
            assert(s@ =~= edition_text(EditionData::Edition2015));
            Ok(EditionData::Edition2015)
        } else if same_text(s, "2018") {
            assert(s@ =~= edition_text(EditionData::Edition2018));
            Ok(EditionData::Edition2018)
        } else if same_text(s, "2021") {
            assert(s@ =~= edition_text(EditionData::Edition2021));
            Ok(EditionData::Edition2021)
        } else {
            assert forall|e: EditionData| edition_text(e) != s@ by {
                match e {
                    EditionData::Edition2015 => assert(edition_text(e) =~= "2015"@),
                    EditionData::Edition2018 => assert(edition_text(e) =~= "2018"@),
                    EditionData::Edition2021 => assert(edition_text(e) =~= "2021"@),
                }
            }
            Err(SchemaError::UnknownEdition(s.to_owned()))
        }
    }
}

pub open spec fn edition_of(data: EditionData) -> Edition {
    match data {
        EditionData::Edition2015 => Edition::Edition2015,
        EditionData::Edition2018 => Edition::Edition2018,
        EditionData::Edition2021 => Edition::Edition2021,
    }
}

impl From<EditionData> for Edition {
    fn from(data: EditionData) -> (r: Edition)
        ensures
            r == edition_of(data),
    {
        match data {
            EditionData::Edition2015 => Edition::Edition2015,
            EditionData::Edition2018 => Edition::Edition2018,
            EditionData::Edition2021 => Edition::Edition2021,
        }
    }
}

impl vstd::std_specs::convert::FromSpecImpl<EditionData> for Edition {
    open spec fn obeys_from_spec() -> bool {
        true
    }

    open spec fn from_spec(data: EditionData) -> Edition {
        edition_of(data)
    }
}

/// Checks a dependency's name; the error carries the name that failed.
pub fn deserialize_crate_name(name: String) -> (r: Result<CrateName, SchemaError>)
    ensures
        r is Ok <==> is_crate_name(name@),
        r matches Ok(n) ==> n@ == name@,
        r matches Err(e) ==> e == SchemaError::InvalidCrateName(name),
{
    match CrateName::new(name.as_str()) {
        Some(n) => Ok(n),
        None => Err(SchemaError::InvalidCrateName(name)),
    }
}

/// A dependency as written: the position of the crate depended on in the
/// crate list, which is not checked here, and the name it is used under.
#[derive(Clone, Debug)]
pub struct PolyJsonDepData {
    pub krate: usize,
    pub name: CrateName,
}

/// The directories that a crate's files are taken from and left out of.
#[derive(Clone, Debug)]
pub struct PolyJsonCrateSource {
    pub include_dirs: Vec<String>,
    pub exclude_dirs: Vec<String>,
}

/// One crate as the description writes it.
#[derive(Debug)]
pub struct PolyJsonCrateData {
    pub display_name: Option<String>,
    pub root_module: String,
    pub edition: EditionData,
    pub version: Option<semver::Version>,
    pub deps: Vec<PolyJsonDepData>,
    pub cfg: Vec<CfgFlag>,
    pub target: Option<String>,
    pub env: rustc_hash::FxHashMap<String, String>,
    pub proc_macro_dylib_path: Option<String>,
    pub is_workspace_member: Option<bool>,
    pub source: Option<PolyJsonCrateSource>,
    pub is_proc_macro: bool,
    pub repository: Option<String>,
}

/// The whole description: where the sysroot is, and the crates in order.
#[derive(Debug)]
pub struct PolyJsonData {
    pub sysroot: Option<String>,
    pub sysroot_src: Option<String>,
    pub crates: Vec<PolyJsonCrateData>,
}

} // verus!
