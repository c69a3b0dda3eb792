//! The resolved project: every path absolute, every crate at the position it
//! was written at, every dependency an edge to a crate identity.

use vstd::prelude::*;
use crate::model::{CfgFlag, CrateDisplayName, CrateId, Dependency, Edition};
use crate::path::{AbsPathBuf, absolutized, has_prefix, is_absolute, lemma_rendered_absolute, rendered};
use crate::schema::{PolyJsonCrateData, PolyJsonCrateSource, PolyJsonData, PolyJsonDepData, edition_of};
use crate::text::dashes_to_underscores;

verus! {

/// One crate of a resolved project.
#[derive(Debug)]
pub struct PolyJsonCrate {
    pub display_name: Option<CrateDisplayName>,
    pub root_module: AbsPathBuf,
    pub edition: Edition,
    pub version: Option<String>,
    pub deps: Vec<Dependency>,
    pub cfg: Vec<CfgFlag>,
    pub target: Option<String>,
    pub env: rustc_hash::FxHashMap<String, String>,
    pub proc_macro_dylib_path: Option<AbsPathBuf>,
    pub is_workspace_member: bool,
    pub include_dirs: Vec<AbsPathBuf>,
    pub exclude_dirs: Vec<AbsPathBuf>,
    pub is_proc_macro: bool,
    pub repository: Option<String>,
}

/// Roots and crates that compose a project.
#[derive(Debug)]
pub struct PolyJsonProject {
    sysroot: Option<AbsPathBuf>,
    sysroot_src: Option<AbsPathBuf>,
    project_root: AbsPathBuf,
    crates: Vec<PolyJsonCrate>,
}

/// Why a description could not be resolved.
#[derive(Clone, Copy, Debug, PartialEq, Eq, Structural)]
pub enum BuildError {
    /// The crate at this position has no `source` block and its root module
    /// is the root directory, which has no parent to take files from.
    RootModuleWithoutParent(usize),
}

/// Each path is `dirs`' path at the same position, read from `base`.
pub open spec fn paths_resolved(ps: Seq<AbsPathBuf>, base: Seq<Seq<char>>, dirs: Seq<String>) -> bool {
    &&& ps.len() == dirs.len()
    &&& forall|j: int| 0 <= j < ps.len() ==> (#[trigger] ps[j])@ == absolutized(base, dirs[j]@)
}

pub open spec fn opt_path_resolved(p: Option<AbsPathBuf>, base: Seq<Seq<char>>, raw: Option<String>) -> bool {
    match (p, raw) {
        (None, None) => true,
        (Some(p), Some(raw)) => p@ == absolutized(base, raw@),
        _ => false,
    }
}

/// The directory of the files of a crate without a `source` block is the
/// one that holds its root module; the root directory has none.
pub open spec fn lacks_default_source(base: Seq<Seq<char>>, c: PolyJsonCrateData) -> bool {
    c.source is None && absolutized(base, c.root_module@).len() == 0
}

pub open spec fn display_name_resolved(d: Option<CrateDisplayName>, raw: Option<String>) -> bool {
    match (d, raw) {
        (None, None) => true,
        (Some(d), Some(raw)) => d.canonical() == raw@ && d.normalized() == dashes_to_underscores(raw@),
        _ => false,
    }
}

/// The version as text is what `semver::Version`'s `Display` writes.
pub open spec fn version_resolved(v: Option<String>, raw: Option<semver::Version>) -> bool {
    match (v, raw) {
        (None, None) => true,
        (Some(v), Some(raw)) => vstd::string::to_string_from_display_ensures::<semver::Version>(&raw, v),
        _ => false,
    }
}

pub open spec fn deps_resolved(deps: Seq<Dependency>, raw: Seq<PolyJsonDepData>) -> bool {
    &&& deps.len() == raw.len()
    &&& forall|j: int|
        0 <= j < deps.len() ==> (#[trigger] deps[j]).crate_id.index() == raw[j].krate && deps[j].name
            == raw[j].name
}

/// Whether the crate counts as a member of the workspace: as written, or
/// else whether its root module lies under the project root.
pub open spec fn member_resolved(k: PolyJsonCrate, base: Seq<Seq<char>>, c: PolyJsonCrateData) -> bool {
    k.is_workspace_member == match c.is_workspace_member {
        Some(b) => b,
        None => has_prefix(absolutized(base, c.root_module@), base),
    }
}

/// The directories files are taken from and left out of: the `source` block's,
/// read from `base`, or else the directory of the root module and none.
pub open spec fn source_resolved(k: PolyJsonCrate, base: Seq<Seq<char>>, c: PolyJsonCrateData) -> bool {
    match c.source {
        Some(src) => paths_resolved(k.include_dirs@, base, src.include_dirs@) && paths_resolved(
            k.exclude_dirs@,
            base,
            src.exclude_dirs@,
        ),
        None => k.include_dirs@.len() == 1 && k.include_dirs@[0]@ == absolutized(base, c.root_module@).drop_last()
            && k.exclude_dirs@.len() == 0,
    }
}

/// `k` is the crate that `c` describes, its paths read from `base`.
pub open spec fn crate_resolved(k: PolyJsonCrate, base: Seq<Seq<char>>, c: PolyJsonCrateData) -> bool {
    &&& display_name_resolved(k.display_name, c.display_name)
    &&& k.root_module@ == absolutized(base, c.root_module@)
    &&& k.edition == edition_of(c.edition)
    &&& version_resolved(k.version, c.version)
    &&& deps_resolved(k.deps@, c.deps@)
    &&& k.cfg == c.cfg
    &&& k.target == c.target
    &&& k.env == c.env
    &&& opt_path_resolved(k.proc_macro_dylib_path, base, c.proc_macro_dylib_path)
    &&& member_resolved(k, base, c)
    &&& source_resolved(k, base, c)
    &&& k.is_proc_macro == c.is_proc_macro
    &&& k.repository == c.repository
}

fn absolutize_all(base: &AbsPathBuf, dirs: &Vec<String>) -> (r: Vec<AbsPathBuf>)
    ensures
        paths_resolved(r@, base@, dirs@),
{
    let mut r: Vec<AbsPathBuf> = Vec::new();
    let mut i: usize = 0;
    while i < dirs.len()
        invariant
            i <= dirs@.len(),
            r@.len() == i,
            forall|j: int| 0 <= j < i ==> (#[trigger] r@[j])@ == absolutized(base@, dirs@[j]@),
        decreases dirs.len() - i,
    {
        r.push(base.absolutize(dirs[i].as_str()));
        i = i + 1;
    }
    r
}

fn absolutize_opt(base: &AbsPathBuf, p: &Option<String>) -> (r: Option<AbsPathBuf>)
    ensures
        opt_path_resolved(r, base@, *p),
{
    match p {
        Some(p) => Some(base.absolutize(p.as_str())),
        None => None,
    }
}

fn resolve_deps(deps: Vec<PolyJsonDepData>) -> (r: Vec<Dependency>)
    ensures
        deps_resolved(r@, deps@),
{
    let ghost raw = deps@;
    let mut r: Vec<Dependency> = Vec::new();
    for d in it: deps.into_iter()
        invariant
            it.seq() == raw,
            r@.len() == it.index(),
            forall|j: int|
                0 <= j < r@.len() ==> (#[trigger] r@[j]).crate_id.index() == raw[j].krate && r@[j].name
                    == raw[j].name,
    {
        r.push(Dependency::new(d.name, CrateId::from_raw(d.krate)));
    }
    r
}

/// Resolves one crate; `None` when it has no `source` block and its root
/// module has no parent directory.
fn resolve_crate(base: &AbsPathBuf, c: PolyJsonCrateData) -> (r: Option<PolyJsonCrate>)
    ensures
        r is None <==> lacks_default_source(base@, c),
        r matches Some(k) ==> crate_resolved(k, base@, c),
{
    let ghost raw = c;
    let PolyJsonCrateData {
        display_name,
        root_module,
        edition,
        version,
        deps,
        cfg,
        target,
        env,
        proc_macro_dylib_path,
        is_workspace_member,
        source,
        is_proc_macro,
        repository,
    } = c;
    let root_module = base.absolutize(root_module.as_str());
    let is_workspace_member = match is_workspace_member {
        Some(b) => b,
        None => root_module.starts_with(base),
    };
    let (include_dirs, exclude_dirs) = match source {
        Some(src) => (absolutize_all(base, &src.include_dirs), absolutize_all(base, &src.exclude_dirs)),
        None => match root_module.parent() {
            Some(dir) => {
                let mut dirs: Vec<AbsPathBuf> = Vec::new();
                dirs.push(dir);
                (dirs, Vec::new())
            },
            None => {
                return None;
            },
        },
    };
    let display_name = match display_name {
        Some(name) => Some(CrateDisplayName::from_canonical_name(name)),
        None => None,
    };
    let version = match &version {
        Some(v) => Some(v.to_string()),
        None => None,
    };
    let k = PolyJsonCrate {
        display_name,
        root_module,
        edition: Edition::from(edition),
        version,
        deps: resolve_deps(deps),
        cfg,
        target,
        env,
        proc_macro_dylib_path: absolutize_opt(base, &proc_macro_dylib_path),
        is_workspace_member,
        include_dirs,
        exclude_dirs,
        is_proc_macro,
        repository,
    };
    Some(k)
}

/// `p` is the project that `data` describes, read from `base`: same crates,
/// in the same order, each resolved from its description.
pub open spec fn project_resolved(p: PolyJsonProject, base: Seq<Seq<char>>, data: PolyJsonData) -> bool {
    &&& p.root() == base
    &&& opt_path_resolved(p.sysroot_spec(), base, data.sysroot)
    &&& opt_path_resolved(p.sysroot_src_spec(), base, data.sysroot_src)
    &&& p.crates_spec().len() == data.crates@.len()
    &&& forall|i: int|
        0 <= i < p.crates_spec().len() ==> crate_resolved(
            #[trigger] p.crates_spec()[i],
            base,
            data.crates@[i],
        )
}

/// Some crate of `data` cannot be resolved.
pub open spec fn some_crate_lacks_source(base: Seq<Seq<char>>, data: PolyJsonData) -> bool {
    exists|i: int| 0 <= i < data.crates@.len() && lacks_default_source(base, #[trigger] data.crates@[i])
}

/// A resolved project holds as many crates as its description, and the crate
/// at each position is the one described at that position.
pub proof fn law_crates_in_order(p: PolyJsonProject, base: Seq<Seq<char>>, data: PolyJsonData)
    requires
        project_resolved(p, base, data),
    ensures
        p.crates_spec().len() == data.crates@.len(),
        forall|i: int|
            0 <= i < data.crates@.len() ==> {
                let k = #[trigger] p.crates_spec()[i];
                let c = data.crates@[i];
                &&& k.root_module@ == absolutized(base, c.root_module@)
                &&& k.edition == edition_of(c.edition)
                &&& deps_resolved(k.deps@, c.deps@)
                &&& k.cfg == c.cfg
                &&& k.env == c.env
                &&& k.target == c.target
                &&& k.is_proc_macro == c.is_proc_macro
                &&& k.repository == c.repository
            },
{
}

/// Every path of a resolved project is absolute: the root module, the
/// proc-macro library, the directories taken and left out, and the sysroot
/// paths.
pub proof fn law_paths_absolute(p: PolyJsonProject, base: Seq<Seq<char>>, data: PolyJsonData)
    requires
        project_resolved(p, base, data),
    ensures
        is_absolute(rendered(p.root())),
        p.sysroot_spec() matches Some(s) ==> is_absolute(rendered(s@)),
        p.sysroot_src_spec() matches Some(s) ==> is_absolute(rendered(s@)),
        forall|i: int|
            0 <= i < p.crates_spec().len() ==> {
                let k = #[trigger] p.crates_spec()[i];
                &&& is_absolute(rendered(k.root_module@))
                &&& k.proc_macro_dylib_path matches Some(d) ==> is_absolute(rendered(d@))
                &&& forall|j: int| 0 <= j < k.include_dirs@.len() ==> is_absolute(rendered((#[trigger] k.include_dirs@[j])@))
                &&& forall|j: int| 0 <= j < k.exclude_dirs@.len() ==> is_absolute(rendered((#[trigger] k.exclude_dirs@[j])@))
            },
{
    assert forall|cs: Seq<Seq<char>>| is_absolute(#[trigger] rendered(cs)) by {
        lemma_rendered_absolute(cs);
    }
}

/// A `source` block that lists no directories to take files from is kept
/// as it is: the crate takes files from no directory.
pub proof fn law_empty_source_kept(p: PolyJsonProject, base: Seq<Seq<char>>, data: PolyJsonData, i: int)
    requires
        project_resolved(p, base, data),
        0 <= i < data.crates@.len(),
        data.crates@[i].source matches Some(src) && src.include_dirs@.len() == 0,
    ensures
        p.crates_spec()[i].include_dirs@.len() == 0,
{
}

/// A dependency's identity is the position written in the description,
/// whether or not the project has a crate at that position.
pub proof fn law_dependency_identity_as_written(
    p: PolyJsonProject,
    base: Seq<Seq<char>>,
    data: PolyJsonData,
    i: int,
    j: int,
)
    requires
        project_resolved(p, base, data),
        0 <= i < data.crates@.len(),
        0 <= j < data.crates@[i].deps@.len(),
    ensures
        p.crates_spec()[i].deps@[j].crate_id.index() == data.crates@[i].deps@[j].krate,
        p.crates_spec()[i].deps@[j].name == data.crates@[i].deps@[j].name,
{
    assert(crate_resolved(p.crates_spec()[i], base, data.crates@[i]));
}

impl PolyJsonProject {
    pub closed spec fn root(&self) -> Seq<Seq<char>> {
        self.project_root@
    }

    pub closed spec fn sysroot_spec(&self) -> Option<AbsPathBuf> {
        self.sysroot
    }

    pub closed spec fn sysroot_src_spec(&self) -> Option<AbsPathBuf> {
        self.sysroot_src
    }

    pub closed spec fn crates_spec(&self) -> Seq<PolyJsonCrate> {
        self.crates@
    }

    /// Resolves the description `data` of a project whose root directory is
    /// `base`: relative paths are read from `base`, crates keep their order,
    /// and defaults are filled in. Fails on the first crate that has no
    /// `source` block and whose root module has no parent directory.
    pub fn new(base: &AbsPathBuf, data: PolyJsonData) -> (r: Result<PolyJsonProject, BuildError>)
        ensures
            r is Err <==> some_crate_lacks_source(base@, data),
            r matches Ok(p) ==> project_resolved(p, base@, data),
            r matches Err(BuildError::RootModuleWithoutParent(i)) ==> {
                &&& i < data.crates@.len()
                &&& lacks_default_source(base@, data.crates@[i as int])
                &&& forall|j: int| 0 <= j < i ==> !lacks_default_source(base@, #[trigger] data.crates@[j])
            },
    {
        let ghost raw = data;
        let PolyJsonData { sysroot, sysroot_src, crates: raw_crates } = data;
        let mut crates: Vec<PolyJsonCrate> = Vec::new();
        for c in it: raw_crates.into_iter()
            invariant
                it.seq() == raw.crates@,
                raw == data,
                crates@.len() == it.index(),
                forall|j: int| 0 <= j < it.index() ==> !lacks_default_source(base@, #[trigger] raw.crates@[j]),
                forall|j: int|
                    0 <= j < crates@.len() ==> crate_resolved(#[trigger] crates@[j], base@, raw.crates@[j]),
        {
            let index = crates.len();
            assert(c == raw.crates@[index as int]);
            match resolve_crate(base, c) {
                Some(k) => crates.push(k),
                None => {
                    assert(lacks_default_source(base@, raw.crates@[index as int]));
                    return Err(BuildError::RootModuleWithoutParent(index));
                },
            }
        }
        Ok(PolyJsonProject {
            sysroot: absolutize_opt(base, &sysroot),
            sysroot_src: absolutize_opt(base, &sysroot_src),
            project_root: base.to_path_buf(),
            crates,
        })
    }

    /// The number of crates in the project.
    pub fn n_crates(&self) -> (r: usize)
        ensures
            r == self.crates_spec().len(),
    {
        self.crates.len()
    }

    /// Each crate with its identity, in the order of identities.
    pub fn crates(&self) -> (r: Vec<(CrateId, &PolyJsonCrate)>)
        ensures
            r@.len() == self.crates_spec().len(),
            forall|i: int|
                0 <= i < r@.len() ==> (#[trigger] r@[i]).0.index() == i && *r@[i].1 == self.crates_spec()[i],
    {
        let mut r: Vec<(CrateId, &PolyJsonCrate)> = Vec::new();
        let mut i: usize = 0;
        while i < self.crates.len()
            invariant
                i <= self.crates@.len(),
                r@.len() == i,
                forall|j: int|
                    0 <= j < i ==> (#[trigger] r@[j]).0.index() == j && *r@[j].1 == self.crates@[j],
            decreases self.crates.len() - i,
        {
            r.push((CrateId::from_raw(i), &self.crates[i]));
            i = i + 1;
        }
        r
    }

    /// The project's root directory.
    pub fn path(&self) -> (r: &AbsPathBuf)
        ensures
            r@ == self.root(),
    {
        &self.project_root
    }

    /// The sysroot, if the description names one.
    pub fn sysroot(&self) -> (r: Option<&AbsPathBuf>)
        ensures
            r is Some <==> self.sysroot_spec() is Some,
            r matches Some(p) ==> *p == self.sysroot_spec()->0,
    {
        match &self.sysroot {
            Some(p) => Some(p),
            None => None,
        }
    }

    /// The sources of the sysroot, if the description names them.
    pub fn sysroot_src(&self) -> (r: Option<&AbsPathBuf>)
        ensures
            r is Some <==> self.sysroot_src_spec() is Some,
            r matches Some(p) ==> *p == self.sysroot_src_spec()->0,
    {
        match &self.sysroot_src {
            Some(p) => Some(p),
            None => None,
        }
    }
}

} // verus!
