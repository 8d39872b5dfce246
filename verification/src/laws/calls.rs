//! What the executable functions give back, whenever they are called.

use crate::access::{
    access_in_cache, language_cache_access, progress_for, texts, JailQuery, Progress, Replies,
    Request,
};
use crate::laws::caches::{is_spelled_root, law_known_caches};
use crate::laws::paths::{
    contains_text, is_blank, is_tight, law_lies_under, law_lookalike_does_not_lie_under,
    law_text_of_spelled_path,
};
use crate::laws::toolchains::{
    is_name_in_space, law_go_search, law_registry, law_run_names_its_output,
    law_variable_names_its_value,
};
use crate::os_path::{components, decode_lossy, joined, parts, text_of, OsPath};
use crate::patterns::{
    detect_in_text, detect_language_cache, detected_cache_hint, detection, hint_in_text,
    CanonicalRoot, DetectedCache,
};
use crate::roots::{
    cargo_registry, cargo_registry_from, find_root, go_mod_cache, is_home_dir, names, path_view,
    probe_toolchain_path, spelled, variable_path, RootPath, RootSearch, ToolchainRun,
};
use crate::text::with_slashes;
use vstd::prelude::*;
use vstd::utf8::encode_utf8;

verus! {

/// A path is found to lie under a base exactly if its components are those of
/// the base, followed by some more or by none.
pub proof fn law_starts_with(path: &OsPath, base: &OsPath, under: bool)
    requires
        call_ensures(OsPath::starts_with, (path, base), under),
    ensures
        under <==> exists|rest: Seq<Seq<u8>>|
            components(path@) == #[trigger] (components(base@) + rest),
{
    law_lies_under(path@, base@);
}

/// Making a path, reading it, joining to it and taking it apart.
pub proof fn law_paths(
    text: &str,
    raw: Vec<u8>,
    from_text: OsPath,
    from_bytes: OsPath,
    path: &OsPath,
    bytes: &[u8],
    lossy: String,
    name: &str,
    child: OsPath,
    list: Vec<Vec<u8>>,
)
    requires
        call_ensures(OsPath::from_text, (text,), from_text),
        call_ensures(OsPath::from_bytes, (raw,), from_bytes),
        call_ensures(OsPath::as_bytes, (path,), bytes),
        call_ensures(OsPath::to_string_lossy, (path,), lossy),
        call_ensures(OsPath::join, (path, name), child),
        call_ensures(OsPath::components, (path,), list),
    ensures
        from_text@ == encode_utf8(text@),
        from_bytes@ == raw@,
        bytes@ == path@,
        lossy@ == text_of(path@),
        child@ == joined(path@, encode_utf8(name@)),
        parts(list@) == components(path@),
{
}

/// The text of bytes, and of a root that is spelled out.
pub proof fn law_spelling_out(bytes: &[u8], text: String, root: &RootPath, path: OsPath)
    requires
        call_ensures(decode_lossy, (bytes,), text),
        call_ensures(RootPath::spelled_with_slashes, (root,), path),
    ensures
        text@ == text_of(bytes@),
        path@ == spelled(root.base@, names(root.below@)),
{
}

// Recognition.

/// Whether a cache was found, and a hint given, as it should be for a text that
/// goes by `marker`.
pub open spec fn is_answer(
    text: Seq<char>,
    found: Option<DetectedCache>,
    hint: Option<String>,
    marker: Seq<char>,
    label: Seq<char>,
    example: Seq<char>,
    resolver: Option<CanonicalRoot>,
) -> bool {
    &&& found matches Some(cache)
    &&& cache.label@ == label
    &&& cache.resolver == resolver
    &&& is_spelled_root(with_slashes(text), marker, cache.root@)
    &&& hint matches Some(h)
    &&& h@ == ". Detected "@ + label + " — add read_only_roots = [\""@ + example
        + "\"] to ~/.config/lean-ctx/config.toml for cached, compressed reads without write access"@
}

/// Whether what was found, and the hint, are right for a text: the first of the
/// known caches whose mark stands in it, with slashes or backslashes.
pub open spec fn is_right_answer(
    text: Seq<char>,
    found: Option<DetectedCache>,
    hint: Option<String>,
) -> bool {
    let slashes = with_slashes(text);
    if contains_text(slashes, "/go/pkg/mod/"@) {
        is_answer(
            text,
            found,
            hint,
            "/go/pkg/mod/"@,
            "Go module cache"@,
            "~/go/pkg/mod"@,
            Some(CanonicalRoot::GoModCache),
        )
    } else if contains_text(slashes, "/.cargo/registry/"@) {
        is_answer(
            text,
            found,
            hint,
            "/.cargo/registry/"@,
            "Rust crate registry"@,
            "~/.cargo/registry"@,
            Some(CanonicalRoot::CargoRegistry),
        )
    } else if contains_text(slashes, "/site-packages/"@) {
        is_answer(
            text,
            found,
            hint,
            "/site-packages/"@,
            "Python site-packages"@,
            "<venv>/lib/pythonX.Y/site-packages"@,
            None,
        )
    } else if contains_text(slashes, "/node_modules/"@) {
        is_answer(
            text,
            found,
            hint,
            "/node_modules/"@,
            "Node modules"@,
            "<project>/node_modules"@,
            None,
        )
    } else if contains_text(slashes, "/.m2/repository/"@) {
        is_answer(
            text,
            found,
            hint,
            "/.m2/repository/"@,
            "Maven local repository"@,
            "~/.m2/repository"@,
            None,
        )
    } else if contains_text(slashes, "/.gradle/caches/"@) {
        is_answer(
            text,
            found,
            hint,
            "/.gradle/caches/"@,
            "Gradle cache"@,
            "~/.gradle/caches"@,
            None,
        )
    } else if contains_text(slashes, "/.nuget/packages/"@) {
        is_answer(
            text,
            found,
            hint,
            "/.nuget/packages/"@,
            "NuGet package cache"@,
            "~/.nuget/packages"@,
            None,
        )
    } else {
        found is None && hint is None
    }
}

/// What is found for a path, and the hint for it, are right for its text.
pub proof fn law_path_recognition(
    candidate: &OsPath,
    found: Option<DetectedCache>,
    hint: Option<String>,
)
    requires
        call_ensures(detect_language_cache, (candidate,), found),
        call_ensures(detected_cache_hint, (candidate,), hint),
    ensures
        is_right_answer(text_of(candidate@), found, hint),
{
    law_known_caches(text_of(candidate@));
}

/// What is found for a text, and the hint for it, are right for it.
pub proof fn law_text_recognition(
    text: &str,
    found: Option<DetectedCache>,
    hint: Option<String>,
)
    requires
        call_ensures(detect_in_text, (text,), found),
        call_ensures(hint_in_text, (text,), hint),
    ensures
        is_right_answer(text@, found, hint),
{
    law_known_caches(text@);
}

/// A path that a text spells is recognised as that text is.
pub proof fn law_spelled_path_recognition(
    candidate: &OsPath,
    text: Seq<char>,
    found: Option<DetectedCache>,
    hint: Option<String>,
)
    requires
        candidate@ == encode_utf8(text),
        call_ensures(detect_language_cache, (candidate,), found),
        call_ensures(detected_cache_hint, (candidate,), hint),
    ensures
        is_right_answer(text, found, hint),
{
    law_text_of_spelled_path(text);
    law_path_recognition(candidate, found, hint);
}

// Decisions.

/// How far a decision has come follows from the cache that the path is detected
/// in, what was handed in, and the replies.
pub proof fn law_access(
    candidate: &OsPath,
    jail_root: &OsPath,
    extra_roots: &[String],
    replies: &Replies,
    progress: Progress,
    cache: DetectedCache,
    progress_in_cache: Progress,
    progress_elsewhere: Progress,
)
    requires
        call_ensures(
            language_cache_access,
            (candidate, jail_root, extra_roots, replies),
            progress,
        ),
        call_ensures(
            access_in_cache,
            (Some(cache), candidate, jail_root, extra_roots, replies),
            progress_in_cache,
        ),
        call_ensures(
            access_in_cache,
            (None, candidate, jail_root, extra_roots, replies),
            progress_elsewhere,
        ),
    ensures
        ({
            let query = JailQuery {
                candidate: candidate@,
                jail_root: jail_root@,
                extra_roots: texts(extra_roots@),
            };
            &&& progress@ == progress_for(detection(text_of(candidate@)), query, replies@)
            &&& progress_in_cache@ == progress_for(Some(cache@), query, replies@)
            &&& progress_elsewhere == Progress::Decided(None)
        }),
{
}

/// A path in a Go or Cargo cache by its text that differs from the toolchain's
/// root in some component of that root gets nothing registered, whatever else
/// was replied: the decision is against it.
pub proof fn law_lookalike_is_refused(
    candidate: &OsPath,
    jail_root: &OsPath,
    extra_roots: &[String],
    replies: &Replies,
    progress: Progress,
    i: int,
)
    requires
        call_ensures(
            language_cache_access,
            (candidate, jail_root, extra_roots, replies),
            progress,
        ),
        ({
            ||| contains_text(with_slashes(text_of(candidate@)), "/go/pkg/mod/"@)
            ||| contains_text(with_slashes(text_of(candidate@)), "/.cargo/registry/"@)
        }),
        replies.resolved matches Some(Some(_)),
        replies.canonical_root is Some,
        replies.canonical_candidate is Some,
        0 <= i < components(replies.canonical_root->0@).len(),
        i < components(replies.canonical_candidate->0@).len() ==> components(
            replies.canonical_candidate->0@,
        )[i] != components(replies.canonical_root->0@)[i],
    ensures
        progress == Progress::Decided(None),
{
    law_known_caches(text_of(candidate@));
    law_lookalike_does_not_lie_under(
        replies.canonical_candidate->0@,
        replies.canonical_root->0@,
        i,
    );
}

/// A path in a Go cache whose components are those of the toolchain's root and
/// some more gets that root registered next.
pub proof fn law_confirmed_root_is_registered(
    candidate: &OsPath,
    jail_root: &OsPath,
    extra_roots: &[String],
    replies: &Replies,
    progress: Progress,
    rest: Seq<Seq<u8>>,
)
    requires
        call_ensures(
            language_cache_access,
            (candidate, jail_root, extra_roots, replies),
            progress,
        ),
        contains_text(with_slashes(text_of(candidate@)), "/go/pkg/mod/"@),
        replies.resolved matches Some(Some(_)),
        replies.canonical_root is Some,
        replies.canonical_candidate is Some,
        replies.root_registered is None,
        components(replies.canonical_candidate->0@) == components(replies.canonical_root->0@)
            + rest,
    ensures
        progress matches Progress::Pending(Request::RegisterCanonicalRoot { label, root }) && label@
            == "Go module cache"@ && root@ == replies.canonical_root->0@,
{
    law_known_caches(text_of(candidate@));
    law_lies_under(replies.canonical_candidate->0@, replies.canonical_root->0@);
}

// Roots.

/// The variables have the names that the toolchains know.
pub proof fn law_variable_names(cache: CanonicalRoot, name: &'static str)
    requires
        call_ensures(CanonicalRoot::variable, (cache,), name),
    ensures
        cache == CanonicalRoot::GoModCache ==> name@ == "GOMODCACHE"@,
        cache == CanonicalRoot::CargoRegistry ==> name@ == "CARGO_HOME"@,
{
}

/// The path that a run of a toolchain names is the whole of what it wrote, but
/// for the white space around it; only a successful run names one.
pub proof fn law_probe(run: &ToolchainRun, path: Option<OsPath>, name: Seq<char>)
    requires
        call_ensures(probe_toolchain_path, (run,), path),
        is_tight(name),
    ensures
        match *run {
            ToolchainRun::Finished { success: true, stdout } => {
                &&& name.len() > 0 && is_name_in_space(text_of(stdout@), name) ==> path_view(path)
                    == Some(encode_utf8(name))
                &&& is_blank(text_of(stdout@)) ==> path is None
            },
            _ => path is None,
        },
{
    match *run {
        ToolchainRun::Finished { success, stdout } => {
            law_run_names_its_output(stdout, name);
        },
        ToolchainRun::NotStarted => {},
    }
}

/// Whether a search has ended with the directory `path` as the root.
pub open spec fn is_directory(search: RootSearch, path: Seq<u8>) -> bool {
    &&& search matches RootSearch::Known(Some(root))
    &&& root.base@ == path
    &&& root.below@.len() == 0
}

/// The Go module cache is what the variable names, else what the run names; the
/// command is asked for where there was no run.
pub proof fn law_go_mod_cache(
    gomodcache: Option<&str>,
    run: Option<&ToolchainRun>,
    search: RootSearch,
    probed: Option<OsPath>,
)
    requires
        ({
            ||| call_ensures(go_mod_cache, (gomodcache, run), search)
            ||| call_ensures(find_root, (CanonicalRoot::GoModCache, gomodcache, run), search)
        }),
        run matches Some(r) ==> call_ensures(probe_toolchain_path, (r,), probed),
    ensures
        match variable_path(gomodcache) {
            Some(path) => is_directory(search, path),
            None => match run {
                Some(_) => match probed {
                    Some(path) => is_directory(search, path@),
                    None => search == RootSearch::Known(None),
                },
                None => search matches RootSearch::Ask { program, arguments } && program@ == "go"@
                    && arguments@[0]@ == "env"@ && arguments@[1]@ == "GOMODCACHE"@,
            },
        },
{
    law_go_search(
        gomodcache,
        match run {
            Some(r) => Some(*r),
            None => None,
        },
    );
    if let RootSearch::Known(Some(root)) = search {
        assert(names(root.below@).len() == root.below@.len());
    }
    if let RootSearch::Ask { program, arguments } = search {
        assert(search@->arguments[0] == arguments@[0]@);
        assert(search@->arguments[1] == arguments@[1]@);
    }
}

/// A variable that holds a name, with white space around it or not, decides.
pub proof fn law_variables_decide(
    value: &str,
    name: Seq<char>,
    run: Option<&ToolchainRun>,
    go: RootSearch,
    cargo: RootSearch,
)
    requires
        name.len() > 0,
        is_tight(name),
        is_name_in_space(value@, name),
        call_ensures(find_root, (CanonicalRoot::GoModCache, Some(value), run), go),
        call_ensures(find_root, (CanonicalRoot::CargoRegistry, Some(value), run), cargo),
    ensures
        is_directory(go, encode_utf8(name)),
        cargo matches RootSearch::Known(root) && is_registry(root, encode_utf8(name)),
{
    law_variable_names_its_value(value, name);
    law_registry(Some(value), None, encode_utf8(name));
    if let RootSearch::Known(Some(root)) = go {
        assert(names(root.below@).len() == root.below@.len());
    }
    if let RootSearch::Known(Some(root)) = cargo {
        assert(names(root.below@).len() == root.below@.len());
        assert(names(root.below@)[0] == root.below@[0]@);
    }
}

/// Whether a root is the registry in a Cargo home directory.
pub open spec fn is_registry(root: Option<RootPath>, cargo_home: Seq<u8>) -> bool {
    &&& root matches Some(r)
    &&& r.base@ == cargo_home
    &&& r.below@.len() == 1
    &&& r.below@[0]@ == "registry"@
}

/// Whether a root is the registry in the home directory of a user.
pub open spec fn is_registry_at_home(root: Option<RootPath>, home: Seq<u8>) -> bool {
    &&& root matches Some(r)
    &&& r.base@ == home
    &&& r.below@.len() == 2
    &&& r.below@[0]@ == ".cargo"@
    &&& r.below@[1]@ == "registry"@
}

/// The registry is in the directory that the variable names, else in the home
/// directory that is handed in; without both there is none.
pub proof fn law_cargo_registry_from(
    cargo_home: Option<&str>,
    home: Option<OsPath>,
    root: Option<RootPath>,
)
    requires
        call_ensures(cargo_registry_from, (cargo_home, home), root),
    ensures
        match (variable_path(cargo_home), home) {
            (Some(path), _) => is_registry(root, path),
            (None, Some(path)) => is_registry_at_home(root, path@),
            (None, None) => root is None,
        },
{
    law_registry(cargo_home, path_view(home), Seq::empty());
    lemma_below(root);
}

/// Without a variable that names a directory, the registry is in the very home
/// directory that the machine answered with; there is none only if it answered
/// with none.
pub proof fn law_cargo_registry(cargo_home: Option<&str>, root: Option<RootPath>)
    requires
        ({
            ||| call_ensures(cargo_registry, (cargo_home,), root)
            ||| exists|run: Option<&ToolchainRun>| #[trigger]
                call_ensures(
                    find_root,
                    (CanonicalRoot::CargoRegistry, cargo_home, run),
                    RootSearch::Known(root),
                )
        }),
    ensures
        match variable_path(cargo_home) {
            Some(path) => is_registry(root, path),
            None => exists|home: Option<Vec<u8>>| #[trigger]
                is_home_dir(home) && match home {
                    Some(bytes) => is_registry_at_home(root, bytes@),
                    None => root is None,
                },
        },
{
    lemma_below(root);
}

proof fn lemma_below(root: Option<RootPath>)
    ensures
        root matches Some(r) ==> {
            &&& names(r.below@).len() == r.below@.len()
            &&& r.below@.len() > 0 ==> names(r.below@)[0] == r.below@[0]@
            &&& r.below@.len() > 1 ==> names(r.below@)[1] == r.below@[1]@
        },
{
}

} // verus!
