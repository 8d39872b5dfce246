//! The language caches that are known, and how a path is recognised as lying
//! in one of them.

use crate::os_path::{text_of, OsPath};
use crate::text::{
    chars_of, find, lemma_position_exists, occurs, position, prefix_string, slashed, with_slashes,
};
use vstd::prelude::*;
use vstd::string::StringExecFns;
use vstd::utf8::encode_utf8;

verus! {

/// The caches whose root the toolchain itself names, cheaply and always the
/// same way.
#[derive(Debug, Clone, Copy, PartialEq, Eq, Structural)]
pub enum CanonicalRoot {
    /// `$GOMODCACHE`, else what `go env GOMODCACHE` reports.
    GoModCache,
    /// `$CARGO_HOME/registry`, with `~/.cargo` as the default of `$CARGO_HOME`.
    CargoRegistry,
}

/// The environment variable that a toolchain takes its root from.
pub open spec fn variable_of(root: CanonicalRoot) -> Seq<char> {
    match root {
        CanonicalRoot::GoModCache => "GOMODCACHE"@,
        CanonicalRoot::CargoRegistry => "CARGO_HOME"@,
    }
}

impl CanonicalRoot {
    /// The environment variable that the toolchain takes its root from.
    pub fn variable(self) -> (name: &'static str)
        ensures
            name@ == variable_of(self),
    {
        match self {
            CanonicalRoot::GoModCache => "GOMODCACHE",
            CanonicalRoot::CargoRegistry => "CARGO_HOME",
        }
    }
}

/// One kind of language cache.
#[derive(Debug, Clone, Copy)]
pub struct CachePattern {
    /// What a path in such a cache contains. It begins and ends with a slash.
    pub marker: &'static str,
    /// What people call the cache.
    pub label: &'static str,
    /// How its root may be written in a configuration file.
    pub example: &'static str,
    /// How its root is resolved, where there is one root per machine. A cache
    /// that each project has for itself has none.
    pub resolver: Option<CanonicalRoot>,
}

/// The known kinds, in the order in which a path is held against them.
pub open spec fn patterns() -> Seq<CachePattern> {
    seq![
        CachePattern {
            marker: "/go/pkg/mod/",
            label: "Go module cache",
            example: "~/go/pkg/mod",
            resolver: Some(CanonicalRoot::GoModCache),
        },
        CachePattern {
            marker: "/.cargo/registry/",
            label: "Rust crate registry",
            example: "~/.cargo/registry",
            resolver: Some(CanonicalRoot::CargoRegistry),
        },
        CachePattern {
            marker: "/site-packages/",
            label: "Python site-packages",
            example: "<venv>/lib/pythonX.Y/site-packages",
            resolver: None,
        },
        CachePattern {
            marker: "/node_modules/",
            label: "Node modules",
            example: "<project>/node_modules",
            resolver: None,
        },
        CachePattern {
            marker: "/.m2/repository/",
            label: "Maven local repository",
            example: "~/.m2/repository",
            resolver: None,
        },
        CachePattern {
            marker: "/.gradle/caches/",
            label: "Gradle cache",
            example: "~/.gradle/caches",
            resolver: None,
        },
        CachePattern {
            marker: "/.nuget/packages/",
            label: "NuGet package cache",
            example: "~/.nuget/packages",
            resolver: None,
        },
    ]
}

/// The known kinds of language cache: what a hint suggests and what access is
/// granted to both come from this one list.
pub fn language_cache_patterns() -> (list: [CachePattern; 7])
    ensures
        list@ == patterns(),
{
    let list: [CachePattern; 7] = [
        CachePattern {
            marker: "/go/pkg/mod/",
            label: "Go module cache",
            example: "~/go/pkg/mod",
            resolver: Some(CanonicalRoot::GoModCache),
        },
        CachePattern {
            marker: "/.cargo/registry/",
            label: "Rust crate registry",
            example: "~/.cargo/registry",
            resolver: Some(CanonicalRoot::CargoRegistry),
        },
        CachePattern {
            marker: "/site-packages/",
            label: "Python site-packages",
            example: "<venv>/lib/pythonX.Y/site-packages",
            resolver: None,
        },
        CachePattern {
            marker: "/node_modules/",
            label: "Node modules",
            example: "<project>/node_modules",
            resolver: None,
        },
        CachePattern {
            marker: "/.m2/repository/",
            label: "Maven local repository",
            example: "~/.m2/repository",
            resolver: None,
        },
        CachePattern {
            marker: "/.gradle/caches/",
            label: "Gradle cache",
            example: "~/.gradle/caches",
            resolver: None,
        },
        CachePattern {
            marker: "/.nuget/packages/",
            label: "NuGet package cache",
            example: "~/.nuget/packages",
            resolver: None,
        },
    ];
    assert(list@ =~= patterns());
    list
}

/// Whether the `k`-th kind is the one a text matches: the first of all kinds
/// whose marker stands in it.
pub open spec fn matches_first(text: Seq<char>, k: int) -> bool {
    &&& 0 <= k < patterns().len()
    &&& occurs(text, patterns()[k].marker@)
    &&& forall|j: int| 0 <= j < k ==> !occurs(text, #[trigger] patterns()[j].marker@)
}

/// The kind of cache that a text matches, as its place in the list.
pub open spec fn kind_of(text: Seq<char>) -> Option<int> {
    if exists|k: int| matches_first(text, k) {
        Some(choose|k: int| matches_first(text, k))
    } else {
        None
    }
}

/// No text matches two kinds.
pub proof fn lemma_kind(text: Seq<char>, k: int)
    requires
        matches_first(text, k),
    ensures
        kind_of(text) == Some(k),
{
    let m = choose|m: int| matches_first(text, m);
    if m < k {
        assert(!occurs(text, patterns()[m].marker@));
    }
    if k < m {
        assert(!occurs(text, patterns()[k].marker@));
    }
}

/// A text that matches no kind contains no marker.
pub proof fn lemma_no_kind(text: Seq<char>)
    ensures
        kind_of(text) is None <==> forall|k: int|
            0 <= k < patterns().len() ==> !occurs(text, #[trigger] patterns()[k].marker@),
{
    if kind_of(text) is None {
        assert forall|k: int| 0 <= k < patterns().len() implies !occurs(
            text,
            #[trigger] patterns()[k].marker@,
        ) by {
            if occurs(text, patterns()[k].marker@) {
                lemma_first_kind(text, k);
            }
        }
    }
}

proof fn lemma_first_kind(text: Seq<char>, k: int)
    requires
        0 <= k < patterns().len(),
        occurs(text, patterns()[k].marker@),
    ensures
        exists|m: int| m <= k && matches_first(text, m),
    decreases k,
{
    if exists|j: int| 0 <= j < k && occurs(text, #[trigger] patterns()[j].marker@) {
        let j = choose|j: int| 0 <= j < k && occurs(text, #[trigger] patterns()[j].marker@);
        lemma_first_kind(text, j);
    } else {
        assert(matches_first(text, k));
    }
}

/// Every marker is the name of a directory between slashes.
pub proof fn lemma_marker(k: int)
    requires
        0 <= k < patterns().len(),
    ensures
        patterns()[k].marker@.len() >= 2,
        patterns()[k].marker@[0] == '/',
        patterns()[k].marker@.last() == '/',
{
    reveal_strlit("/go/pkg/mod/");
    reveal_strlit("/.cargo/registry/");
    reveal_strlit("/site-packages/");
    reveal_strlit("/node_modules/");
    reveal_strlit("/.m2/repository/");
    reveal_strlit("/.gradle/caches/");
    reveal_strlit("/.nuget/packages/");
}

/// The kind of cache that a text matches.
fn kind(text: &Vec<char>) -> (found: Option<usize>)
    ensures
        match found {
            Some(k) => kind_of(text@) == Some(k as int),
            None => kind_of(text@) is None,
        },
{
    let list = language_cache_patterns();
    for k in 0..list.len()
        invariant
            list@ == patterns(),
            forall|j: int| 0 <= j < k ==> !occurs(text@, #[trigger] patterns()[j].marker@),
    {
        if find(text, &chars_of(list[k].marker)).is_some() {
            proof {
                lemma_kind(text@, k as int);
            }
            return Some(k);
        }
    }
    None
}

/// The suggestion that goes with a kind of cache.
pub open spec fn hint_text(pattern: CachePattern) -> Seq<char> {
    ". Detected "@ + pattern.label@ + " — add read_only_roots = [\""@ + pattern.example@
        + "\"] to ~/.config/lean-ctx/config.toml for cached, compressed reads without write access"@
}

/// The suggestion for a path with this text, if it matches a kind of cache.
/// Backslashes count as slashes.
pub open spec fn hint_for(text: Seq<char>) -> Option<Seq<char>> {
    match kind_of(with_slashes(text)) {
        Some(k) => Some(hint_text(patterns()[k])),
        None => None,
    }
}

/// The suggestion for a path with this text: which root to add to the
/// configuration so that reads in the cache are allowed.
pub fn hint_in_text(text: &str) -> (hint: Option<String>)
    ensures
        match hint {
            Some(h) => hint_for(text@) == Some(h@),
            None => hint_for(text@) is None,
        },
{
    let k: usize = match kind(&chars_of(slashed(text).as_str())) {
        Some(k) => k,
        None => return None,
    };
    let pattern: CachePattern = language_cache_patterns()[k];
    let mut hint = String::new();
    hint.append(". Detected ");
    hint.append(pattern.label);
    hint.append(" — add read_only_roots = [\"");
    hint.append(pattern.example);
    hint.append(
        "\"] to ~/.config/lean-ctx/config.toml for cached, compressed reads without write access",
    );
    assert(hint@ =~= hint_text(pattern));
    Some(hint)
}

/// The suggestion for a path in a well-known language cache, for callers that
/// do not grant access by themselves.
pub fn detected_cache_hint(candidate: &OsPath) -> (hint: Option<String>)
    ensures
        match hint {
            Some(h) => hint_for(text_of(candidate@)) == Some(h@),
            None => hint_for(text_of(candidate@)) is None,
        },
{
    hint_in_text(candidate.to_string_lossy().as_str())
}

/// The cache that a path lies in, as its text tells.
#[derive(Debug)]
pub struct DetectedCache {
    /// What people call the cache.
    pub label: &'static str,
    /// The path up to the end of the marker, without its last slash.
    pub root: OsPath,
    /// How the root is resolved, where there is one root per machine.
    pub resolver: Option<CanonicalRoot>,
}

/// The contents of a [`DetectedCache`].
pub struct Detection {
    pub label: Seq<char>,
    pub root: Seq<u8>,
    pub resolver: Option<CanonicalRoot>,
}

impl View for DetectedCache {
    type V = Detection;

    open spec fn view(&self) -> Detection {
        Detection { label: self.label@, root: self.root@, resolver: self.resolver }
    }
}

/// The text up to the end of the leftmost `marker`, without its last slash.
pub open spec fn marker_root(text: Seq<char>, marker: Seq<char>) -> Seq<char>
    recommends
        occurs(text, marker),
        marker.len() > 0,
{
    text.take(position(text, marker)->0 + marker.len() - 1)
}

/// The cache that a path with this text lies in. Backslashes count as slashes.
pub open spec fn detection(text: Seq<char>) -> Option<Detection> {
    let slashes = with_slashes(text);
    match kind_of(slashes) {
        Some(k) => Some(
            Detection {
                label: patterns()[k].label@,
                root: encode_utf8(marker_root(slashes, patterns()[k].marker@)),
                resolver: patterns()[k].resolver,
            },
        ),
        None => None,
    }
}

/// The cache that a path with this text lies in.
pub fn detect_in_text(text: &str) -> (found: Option<DetectedCache>)
    ensures
        match found {
            Some(cache) => detection(text@) == Some(cache@),
            None => detection(text@) is None,
        },
{
    let chars = chars_of(slashed(text).as_str());
    let k: usize = match kind(&chars) {
        Some(k) => k,
        None => return None,
    };
    let pattern: CachePattern = language_cache_patterns()[k];
    let marker = chars_of(pattern.marker);
    proof {
        lemma_marker(k as int);
        lemma_position_exists(chars@, marker@);
    }
    match find(&chars, &marker) {
        Some(i) => {
            assert(i + marker.len() <= chars.len());
            let end: usize = i + (marker.len() - 1);
            let root = OsPath::from_text(prefix_string(&chars, end).as_str());
            Some(DetectedCache { label: pattern.label, root, resolver: pattern.resolver })
        },
        None => None,
    }
}

/// The cache that a path lies in: its label, its root as the path spells it,
/// and how the root is resolved.
pub fn detect_language_cache(candidate: &OsPath) -> (found: Option<DetectedCache>)
    ensures
        match found {
            Some(cache) => detection(text_of(candidate@)) == Some(cache@),
            None => detection(text_of(candidate@)) is None,
        },
{
    detect_in_text(candidate.to_string_lossy().as_str())
}

} // verus!
