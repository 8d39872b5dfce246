//! The roots that toolchains name: where the Go module cache and the Cargo
//! registry of this machine are.

use crate::os_path::{decode_lossy, joined, text_of, OsPath};
use crate::patterns::CanonicalRoot;
use crate::text::trimmed;
use vstd::prelude::*;
use vstd::utf8::encode_utf8;

verus! {

/// The path that a text names, once trimmed: a blank text names none.
pub open spec fn named_path(text: Seq<char>) -> Option<Seq<u8>> {
    if trimmed(text).len() > 0 {
        Some(encode_utf8(trimmed(text)))
    } else {
        None
    }
}

/// The path that an environment variable names: none where it is unset or
/// blank.
pub open spec fn variable_path(value: Option<&str>) -> Option<Seq<u8>> {
    match value {
        Some(text) => named_path(text@),
        None => None,
    }
}

/// The bytes of a path that may be absent.
pub open spec fn path_view(path: Option<OsPath>) -> Option<Seq<u8>> {
    match path {
        Some(p) => Some(p@),
        None => None,
    }
}

/// The bytes of a path that may be absent.
pub open spec fn bytes_view(path: Option<Vec<u8>>) -> Option<Seq<u8>> {
    match path {
        Some(bytes) => Some(bytes@),
        None => None,
    }
}

/// A root, as a directory and the names of the directories below it that lead
/// to the root. How one is joined to the next is a matter of the platform.
#[derive(Debug)]
pub struct RootPath {
    /// The directory to begin with.
    pub base: OsPath,
    /// The names below it, from the outermost to the root itself.
    pub below: Vec<&'static str>,
}

/// The contents of a [`RootPath`].
pub struct RootPathView {
    pub base: Seq<u8>,
    pub below: Seq<Seq<char>>,
}

/// The texts of some names.
pub open spec fn names(list: Seq<&'static str>) -> Seq<Seq<char>> {
    list.map_values(|name: &'static str| name@)
}

impl View for RootPath {
    type V = RootPathView;

    open spec fn view(&self) -> RootPathView {
        RootPathView { base: self.base@, below: names(self.below@) }
    }
}

/// The contents of a root that may be absent.
pub open spec fn root_view(root: Option<RootPath>) -> Option<RootPathView> {
    match root {
        Some(r) => Some(r@),
        None => None,
    }
}

/// A root that is a directory by itself.
pub open spec fn directory(base: Seq<u8>) -> RootPathView {
    RootPathView { base, below: Seq::<Seq<char>>::empty() }
}

/// A root that is a directory by itself, if there is one.
pub open spec fn directory_if_any(base: Option<Seq<u8>>) -> Option<RootPathView> {
    match base {
        Some(path) => Some(directory(path)),
        None => None,
    }
}

/// `base` with one name after the other joined to it by a slash.
pub open spec fn spelled(base: Seq<u8>, below: Seq<Seq<char>>) -> Seq<u8>
    decreases below.len(),
{
    if below.len() == 0 {
        base
    } else {
        spelled(joined(base, encode_utf8(below[0])), below.drop_first())
    }
}

impl RootPath {
    /// The root as a path whose components are separated by slashes.
    pub fn spelled_with_slashes(&self) -> (path: OsPath)
        ensures
            path@ == spelled(self@.base, self@.below),
    {
        let mut path = self.base.clone();
        let ghost below = self@.below;
        assert(below.skip(0) =~= below);
        for i in 0..self.below.len()
            invariant
                below == names(self.below@),
                spelled(path@, below.skip(i as int)) == spelled(self@.base, below),
        {
            assert(below.skip(i as int)[0] == self.below@[i as int]@);
            assert(below.skip(i as int).drop_first() =~= below.skip(i + 1));
            path = path.join(self.below[i]);
        }
        path
    }
}

/// The path that a text names, once trimmed.
fn path_named(text: &str) -> (path: Option<OsPath>)
    ensures
        path_view(path) == named_path(text@),
{
    let name = text.trim();
    if name.is_empty() {
        None
    } else {
        Some(OsPath::from_text(name))
    }
}

/// The path that an environment variable names.
fn path_in_variable(value: Option<&str>) -> (path: Option<OsPath>)
    ensures
        path_view(path) == variable_path(value),
{
    match value {
        Some(text) => path_named(text),
        None => None,
    }
}

/// What came of asking a toolchain for a path.
#[derive(Debug)]
pub enum ToolchainRun {
    /// The program could not be run.
    NotStarted,
    /// The program ended, with or without success, and wrote `stdout`.
    Finished { success: bool, stdout: Vec<u8> },
}

/// The path that a run wrote: only a successful run names one, and only if it
/// wrote more than white space.
pub open spec fn path_in_run(run: ToolchainRun) -> Option<Seq<u8>> {
    match run {
        ToolchainRun::Finished { success: true, stdout } => named_path(text_of(stdout@)),
        _ => None,
    }
}

/// The single path on the standard output of a toolchain. `None` on a missing
/// toolchain, an unsuccessful exit, or blank output.
pub fn probe_toolchain_path(run: &ToolchainRun) -> (path: Option<OsPath>)
    ensures
        path_view(path) == path_in_run(*run),
{
    match run {
        ToolchainRun::NotStarted => None,
        ToolchainRun::Finished { success, stdout } => {
            if !*success {
                return None;
            }
            path_named(decode_lossy(stdout.as_slice()).as_str())
        },
    }
}

/// The root that is a directory by itself.
fn as_root(path: Option<OsPath>) -> (root: Option<RootPath>)
    ensures
        root_view(root) == directory_if_any(path_view(path)),
{
    match path {
        Some(base) => {
            let root = RootPath { base, below: Vec::new() };
            assert(root@.below =~= directory(base@).below);
            Some(root)
        },
        None => None,
    }
}

/// How far the search for a root has come.
#[derive(Debug)]
pub enum RootSearch {
    /// The search is over, with or without a root.
    Known(Option<RootPath>),
    /// The toolchain has to be asked: run `program` with `arguments`.
    Ask { program: &'static str, arguments: [&'static str; 2] },
}

/// The contents of a [`RootSearch`].
pub enum RootSearchView {
    Known(Option<RootPathView>),
    Ask { program: Seq<char>, arguments: Seq<Seq<char>> },
}

impl View for RootSearch {
    type V = RootSearchView;

    open spec fn view(&self) -> RootSearchView {
        match self {
            RootSearch::Known(root) => RootSearchView::Known(root_view(*root)),
            RootSearch::Ask { program, arguments } => RootSearchView::Ask {
                program: program@,
                arguments: seq![arguments@[0]@, arguments@[1]@],
            },
        }
    }
}

/// The search for the root of the Go module cache, given what `$GOMODCACHE` is
/// and what came of the toolchain, if it was run.
pub open spec fn go_search(gomodcache: Option<&str>, run: Option<ToolchainRun>) -> RootSearchView {
    match (variable_path(gomodcache), run) {
        (Some(path), _) => RootSearchView::Known(Some(directory(path))),
        (None, Some(run)) => RootSearchView::Known(directory_if_any(path_in_run(run))),
        (None, None) => RootSearchView::Ask {
            program: "go"@,
            arguments: seq!["env"@, "GOMODCACHE"@],
        },
    }
}

/// The root of the Go module cache: what `$GOMODCACHE` names, else what
/// `go env GOMODCACHE` reports. `run` is what came of that command, `None`
/// until it has been run; a variable that names a root makes it superfluous.
pub fn go_mod_cache(gomodcache: Option<&str>, run: Option<&ToolchainRun>) -> (search: RootSearch)
    ensures
        search@ == go_search(
            gomodcache,
            match run {
                Some(run) => Some(*run),
                None => None,
            },
        ),
{
    let named = path_in_variable(gomodcache);
    if named.is_some() {
        return RootSearch::Known(as_root(named));
    }
    match run {
        Some(run) => RootSearch::Known(as_root(probe_toolchain_path(run))),
        None => {
            let arguments: [&'static str; 2] = ["env", "GOMODCACHE"];
            RootSearch::Ask { program: "go", arguments }
        },
    }
}

/// The registry in the Cargo home directory that a variable names.
pub open spec fn registry_in(cargo_home: Seq<u8>) -> RootPathView {
    RootPathView { base: cargo_home, below: seq!["registry"@] }
}

/// The registry in the home directory of a user.
pub open spec fn default_registry(home: Seq<u8>) -> RootPathView {
    RootPathView { base: home, below: seq![".cargo"@, "registry"@] }
}

/// The registry, given what `$CARGO_HOME` and the user's home directory are.
pub open spec fn registry_for(cargo_home: Option<&str>, home: Option<Seq<u8>>) -> Option<
    RootPathView,
> {
    match (variable_path(cargo_home), home) {
        (Some(path), _) => Some(registry_in(path)),
        (None, Some(home)) => Some(default_registry(home)),
        (None, None) => None,
    }
}

/// `registry` in what `$CARGO_HOME` names, or `.cargo`, `registry` in the
/// user's home directory `home`.
pub fn cargo_registry_from(
    cargo_home: Option<&str>,
    home: Option<OsPath>,
) -> (root: Option<RootPath>)
    ensures
        root_view(root) == registry_for(cargo_home, path_view(home)),
{
    let mut below: Vec<&'static str> = Vec::new();
    let base = match path_in_variable(cargo_home) {
        Some(path) => path,
        None => match home {
            Some(home) => {
                below.push(".cargo");
                home
            },
            None => return None,
        },
    };
    below.push("registry");
    let root = RootPath { base, below };
    assert(root_view(Some(root))->0.below =~= registry_for(cargo_home, path_view(home))->0.below);
    Some(root)
}

/// `dirs::home_dir` finds the home directory of the user, as the environment
/// and the user database of the machine have it. Nothing is claimed of which
/// path it returns, or whether it returns one.
#[verifier::external_body]
pub(crate) fn home_dir() -> (home: Option<Vec<u8>>) {
    match dirs::home_dir() {
        Some(home) => Some(home.into_os_string().into_encoded_bytes()),
        None => None,
    }
}

/// Whether `home` is what [`home_dir`] came back with. To which paths that
/// applies depends on the machine.
pub closed spec fn is_home_dir(home: Option<Vec<u8>>) -> bool {
    call_ensures(home_dir, (), home)
}

/// A home directory counts as one that was found only if [`home_dir`] came back
/// with it.
pub(crate) proof fn law_home_dir(home: Option<Vec<u8>>)
    ensures
        is_home_dir(home) <==> call_ensures(home_dir, (), home),
{
}

/// The root of the Cargo registry: `$CARGO_HOME/registry`, defaulting to
/// `~/.cargo/registry`. Which directory `~` is depends on the machine; what
/// is made of it is fixed.
pub fn cargo_registry(cargo_home: Option<&str>) -> (root: Option<RootPath>)
    ensures
        variable_path(cargo_home) matches Some(path) ==> root_view(root) == Some(
            registry_in(path),
        ),
        exists|home: Option<Seq<u8>>| root_view(root) == #[trigger] registry_for(cargo_home, home),
        variable_path(cargo_home) is None ==> exists|home: Option<Vec<u8>>|
            {
                &&& #[trigger] is_home_dir(home)
                &&& root_view(root) == registry_for(cargo_home, bytes_view(home))
            },
{
    if path_in_variable(cargo_home).is_some() {
        return cargo_registry_from(cargo_home, None);
    }
    let ask = home_dir;
    let found = ask();
    assert(is_home_dir(found));
    let home = match found {
        Some(bytes) => Some(OsPath::from_bytes(bytes)),
        None => None,
    };
    cargo_registry_from(cargo_home, home)
}

/// The root of a cache whose root a toolchain names, given the value of the
/// variable that the toolchain takes it from and, for Go, what came of the
/// command, if it was run. The Cargo registry needs no command.
pub fn find_root(
    cache: CanonicalRoot,
    variable: Option<&str>,
    run: Option<&ToolchainRun>,
) -> (search: RootSearch)
    ensures
        match cache {
            CanonicalRoot::GoModCache => search@ == go_search(
                variable,
                match run {
                    Some(run) => Some(*run),
                    None => None,
                },
            ),
            CanonicalRoot::CargoRegistry => {
                &&& variable_path(variable) matches Some(path) ==> search@
                    == RootSearchView::Known(Some(registry_in(path)))
                &&& exists|home: Option<Seq<u8>>|
                    search@ == RootSearchView::Known(#[trigger] registry_for(variable, home))
                &&& variable_path(variable) is None ==> exists|home: Option<Vec<u8>>|
                    {
                        &&& #[trigger] is_home_dir(home)
                        &&& search@ == RootSearchView::Known(
                            registry_for(variable, bytes_view(home)),
                        )
                    }
            },
        },
{
    match cache {
        CanonicalRoot::GoModCache => go_mod_cache(variable, run),
        CanonicalRoot::CargoRegistry => RootSearch::Known(cargo_registry(variable)),
    }
}

} // verus!
