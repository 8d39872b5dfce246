//! Reads in a language cache, allowed for the session: what to do, step by
//! step, about a path that the path jail has rejected.
//!
//! What has to be done in the outside world (asking a toolchain, looking at
//! the file system, registering a root) is not done here. It is asked for, one
//! [`Request`] at a time, and what came of it is handed back in [`Replies`].

use crate::os_path::{lies_under, text_of, OsPath};
use crate::patterns::{detect_language_cache, detection, CanonicalRoot, DetectedCache, Detection};
use crate::roots::path_view;
use vstd::prelude::*;
use vstd::string::StringExecFns;

verus! {

/// What has been decided for a jail-rejected path.
#[derive(Debug)]
pub enum CacheAccess {
    /// The toolchain's canonical root is now a session read-only root and the
    /// jail re-ran clean: this path may be served at once.
    PassThrough(OsPath),
    /// The root that the path spells is now a session read-only root, but this
    /// read must still fail, with this message; the next try resolves.
    Retry(String),
}

/// The contents of a [`CacheAccess`].
pub enum CacheAccessView {
    PassThrough(Seq<u8>),
    Retry(Seq<char>),
}

impl View for CacheAccess {
    type V = CacheAccessView;

    open spec fn view(&self) -> CacheAccessView {
        match self {
            CacheAccess::PassThrough(path) => CacheAccessView::PassThrough(path@),
            CacheAccess::Retry(message) => CacheAccessView::Retry(message@),
        }
    }
}

/// Something to be done in the outside world.
#[derive(Debug)]
pub enum Request {
    /// Make `root` a read-only root of the session. The reply is whether it
    /// was not one yet.
    RegisterMarkerRoot { root: OsPath },
    /// Find the root that the toolchain names. The reply is the root, if there
    /// is one.
    ResolveRoot { cache: CanonicalRoot },
    /// Expand `name` as a user writes paths and canonicalize it. The reply is
    /// the canonical root.
    CanonicalizeRoot { name: String },
    /// Canonicalize `candidate`. The reply is the canonical path.
    CanonicalizeCandidate { candidate: OsPath },
    /// Make `root`, the canonical root of the cache called `label`, a
    /// read-only root of the session. The reply is whether it was not one yet.
    RegisterCanonicalRoot { label: &'static str, root: OsPath },
    /// Hold `candidate` against the jail once more. The reply is the path that
    /// the jail lets through, if it does.
    Jail { candidate: OsPath, jail_root: OsPath, extra_roots: Vec<String> },
}

/// The contents of a [`Request`].
pub enum RequestView {
    RegisterMarkerRoot { root: Seq<u8> },
    ResolveRoot { cache: CanonicalRoot },
    CanonicalizeRoot { name: Seq<char> },
    CanonicalizeCandidate { candidate: Seq<u8> },
    RegisterCanonicalRoot { label: Seq<char>, root: Seq<u8> },
    Jail { candidate: Seq<u8>, jail_root: Seq<u8>, extra_roots: Seq<Seq<char>> },
}

/// The texts of some strings.
pub open spec fn texts(list: Seq<String>) -> Seq<Seq<char>> {
    list.map_values(|s: String| s@)
}

impl View for Request {
    type V = RequestView;

    open spec fn view(&self) -> RequestView {
        match self {
            Request::RegisterMarkerRoot { root } => RequestView::RegisterMarkerRoot { root: root@ },
            Request::ResolveRoot { cache } => RequestView::ResolveRoot { cache: *cache },
            Request::CanonicalizeRoot { name } => RequestView::CanonicalizeRoot { name: name@ },
            Request::CanonicalizeCandidate { candidate } => RequestView::CanonicalizeCandidate {
                candidate: candidate@,
            },
            Request::RegisterCanonicalRoot { label, root } => RequestView::RegisterCanonicalRoot {
                label: label@,
                root: root@,
            },
            Request::Jail { candidate, jail_root, extra_roots } => RequestView::Jail {
                candidate: candidate@,
                jail_root: jail_root@,
                extra_roots: texts(extra_roots@),
            },
        }
    }
}

/// What came of the requests made so far for one path. `None` stands for a
/// request that has not been made.
#[derive(Debug)]
pub struct Replies {
    /// Whether the root that the path spells was not registered yet.
    pub marker_registered: Option<bool>,
    /// The root that the toolchain names, if it names one.
    pub resolved: Option<Option<OsPath>>,
    /// That root, expanded and canonical.
    pub canonical_root: Option<OsPath>,
    /// The path itself, canonical.
    pub canonical_candidate: Option<OsPath>,
    /// Whether the canonical root was not registered yet.
    pub root_registered: Option<bool>,
    /// The path that the jail lets through, if it does.
    pub jailed: Option<Option<OsPath>>,
}

/// The contents of [`Replies`].
pub struct RepliesView {
    pub marker_registered: Option<bool>,
    pub resolved: Option<Option<Seq<u8>>>,
    pub canonical_root: Option<Seq<u8>>,
    pub canonical_candidate: Option<Seq<u8>>,
    pub root_registered: Option<bool>,
    pub jailed: Option<Option<Seq<u8>>>,
}

/// The contents of a reply that is itself a path or none.
pub open spec fn reply_view(reply: Option<Option<OsPath>>) -> Option<Option<Seq<u8>>> {
    match reply {
        Some(path) => Some(path_view(path)),
        None => None,
    }
}

impl View for Replies {
    type V = RepliesView;

    open spec fn view(&self) -> RepliesView {
        RepliesView {
            marker_registered: self.marker_registered,
            resolved: reply_view(self.resolved),
            canonical_root: path_view(self.canonical_root),
            canonical_candidate: path_view(self.canonical_candidate),
            root_registered: self.root_registered,
            jailed: reply_view(self.jailed),
        }
    }
}

/// Before anything has been asked for.
pub open spec fn no_replies() -> RepliesView {
    RepliesView {
        marker_registered: None,
        resolved: None,
        canonical_root: None,
        canonical_candidate: None,
        root_registered: None,
        jailed: None,
    }
}

impl Replies {
    /// Before anything has been asked for.
    pub fn new() -> (replies: Replies)
        ensures
            replies@ == no_replies(),
    {
        Replies {
            marker_registered: None,
            resolved: None,
            canonical_root: None,
            canonical_candidate: None,
            root_registered: None,
            jailed: None,
        }
    }
}

/// What came of one [`Request`].
#[derive(Debug)]
pub enum Reply {
    /// Whether the root that the path spells was not registered yet.
    MarkerRegistered(bool),
    /// The root that the toolchain names, if it names one.
    Resolved(Option<OsPath>),
    /// The canonical root.
    CanonicalRoot(OsPath),
    /// The canonical path.
    CanonicalCandidate(OsPath),
    /// Whether the canonical root was not registered yet.
    RootRegistered(bool),
    /// The path that the jail lets through, if it does.
    Jailed(Option<OsPath>),
}

/// The contents of a [`Reply`].
pub enum ReplyView {
    MarkerRegistered(bool),
    Resolved(Option<Seq<u8>>),
    CanonicalRoot(Seq<u8>),
    CanonicalCandidate(Seq<u8>),
    RootRegistered(bool),
    Jailed(Option<Seq<u8>>),
}

impl View for Reply {
    type V = ReplyView;

    open spec fn view(&self) -> ReplyView {
        match self {
            Reply::MarkerRegistered(new) => ReplyView::MarkerRegistered(*new),
            Reply::Resolved(root) => ReplyView::Resolved(path_view(*root)),
            Reply::CanonicalRoot(root) => ReplyView::CanonicalRoot(root@),
            Reply::CanonicalCandidate(path) => ReplyView::CanonicalCandidate(path@),
            Reply::RootRegistered(new) => ReplyView::RootRegistered(*new),
            Reply::Jailed(path) => ReplyView::Jailed(path_view(*path)),
        }
    }
}

/// The replies with one more.
pub open spec fn with_reply(replies: RepliesView, reply: ReplyView) -> RepliesView {
    match reply {
        ReplyView::MarkerRegistered(new) => RepliesView {
            marker_registered: Some(new),
            ..replies
        },
        ReplyView::Resolved(root) => RepliesView { resolved: Some(root), ..replies },
        ReplyView::CanonicalRoot(root) => RepliesView { canonical_root: Some(root), ..replies },
        ReplyView::CanonicalCandidate(path) => RepliesView {
            canonical_candidate: Some(path),
            ..replies
        },
        ReplyView::RootRegistered(new) => RepliesView { root_registered: Some(new), ..replies },
        ReplyView::Jailed(path) => RepliesView { jailed: Some(path), ..replies },
    }
}

impl Replies {
    /// Adds what came of a request.
    pub fn record(&mut self, reply: Reply)
        ensures
            final(self)@ == with_reply(old(self)@, reply@),
    {
        match reply {
            Reply::MarkerRegistered(new) => {
                self.marker_registered = Some(new);
            },
            Reply::Resolved(root) => {
                self.resolved = Some(root);
            },
            Reply::CanonicalRoot(root) => {
                self.canonical_root = Some(root);
            },
            Reply::CanonicalCandidate(path) => {
                self.canonical_candidate = Some(path);
            },
            Reply::RootRegistered(new) => {
                self.root_registered = Some(new);
            },
            Reply::Jailed(path) => {
                self.jailed = Some(path);
            },
        }
    }
}

/// How far the decision about a path has come.
#[derive(Debug)]
pub enum Progress {
    /// This has to be done first.
    Pending(Request),
    /// The decision. `None` means that nothing is allowed: the jail's error
    /// stands.
    Decided(Option<CacheAccess>),
}

/// The contents of a [`Progress`].
pub enum ProgressView {
    Pending(RequestView),
    Decided(Option<CacheAccessView>),
}

impl View for Progress {
    type V = ProgressView;

    open spec fn view(&self) -> ProgressView {
        match self {
            Progress::Pending(request) => ProgressView::Pending(request@),
            Progress::Decided(Some(access)) => ProgressView::Decided(Some(access@)),
            Progress::Decided(None) => ProgressView::Decided(None),
        }
    }
}

/// What the caller is told after the root that a path spells was registered.
pub open spec fn retry_text(label: Seq<char>, root: Seq<u8>) -> Seq<char> {
    "Auto-detected "@ + label + " at "@ + text_of(root)
        + " — added as a read-only root for this session. Retry the read."@
}

/// A cache without a canonical root: the root that the path spells is
/// registered, and the read fails with a message that asks for another try. If
/// it was registered before, another try would not help.
pub open spec fn by_marker(cache: Detection, replies: RepliesView) -> ProgressView {
    match replies.marker_registered {
        None => ProgressView::Pending(RequestView::RegisterMarkerRoot { root: cache.root }),
        Some(true) => ProgressView::Decided(
            Some(CacheAccessView::Retry(retry_text(cache.label, cache.root))),
        ),
        Some(false) => ProgressView::Decided(None),
    }
}

/// What is handed to the jail.
pub struct JailQuery {
    pub candidate: Seq<u8>,
    pub jail_root: Seq<u8>,
    pub extra_roots: Seq<Seq<char>>,
}

/// A cache whose root the toolchain names: that root is registered, and the
/// jail asked again, only if the path really lies under it.
pub open spec fn by_toolchain(
    label: Seq<char>,
    resolver: CanonicalRoot,
    query: JailQuery,
    replies: RepliesView,
) -> ProgressView {
    match (replies.resolved, replies.canonical_root, replies.canonical_candidate) {
        (None, _, _) => ProgressView::Pending(RequestView::ResolveRoot { cache: resolver }),
        (Some(None), _, _) => ProgressView::Decided(None),
        (Some(Some(named)), None, _) => ProgressView::Pending(
            RequestView::CanonicalizeRoot { name: text_of(named) },
        ),
        (Some(Some(_)), Some(_), None) => ProgressView::Pending(
            RequestView::CanonicalizeCandidate { candidate: query.candidate },
        ),
        (Some(Some(_)), Some(base), Some(path)) => if lies_under(path, base) {
            after_confirmation(label, base, query, replies)
        } else {
            ProgressView::Decided(None)
        },
    }
}

/// The path lies under the canonical root `base`.
pub open spec fn after_confirmation(
    label: Seq<char>,
    base: Seq<u8>,
    query: JailQuery,
    replies: RepliesView,
) -> ProgressView {
    match (replies.root_registered, replies.jailed) {
        (None, _) => ProgressView::Pending(
            RequestView::RegisterCanonicalRoot { label, root: base },
        ),
        (Some(_), None) => ProgressView::Pending(
            RequestView::Jail {
                candidate: query.candidate,
                jail_root: query.jail_root,
                extra_roots: query.extra_roots,
            },
        ),
        (Some(_), Some(Some(path))) => ProgressView::Decided(
            Some(CacheAccessView::PassThrough(path)),
        ),
        (Some(_), Some(None)) => ProgressView::Decided(None),
    }
}

/// How far the decision about a path has come, given the cache it was detected
/// in and the replies so far. The kind of cache picks the strategy.
pub open spec fn progress_for(
    cache: Option<Detection>,
    query: JailQuery,
    replies: RepliesView,
) -> ProgressView {
    match cache {
        None => ProgressView::Decided(None),
        Some(cache) => match cache.resolver {
            None => by_marker(cache, replies),
            Some(resolver) => by_toolchain(cache.label, resolver, query, replies),
        },
    }
}

/// The message that asks for another try.
fn retry_message(label: &str, root: &OsPath) -> (message: String)
    ensures
        message@ == retry_text(label@, root@),
{
    let mut message = String::new();
    message.append("Auto-detected ");
    message.append(label);
    message.append(" at ");
    message.append(root.to_string_lossy().as_str());
    message.append(" — added as a read-only root for this session. Retry the read.");
    assert(message@ =~= retry_text(label@, root@));
    message
}

/// A copy of some strings.
fn copied(list: &[String]) -> (copy: Vec<String>)
    ensures
        texts(copy@) == texts(list@),
{
    let mut copy: Vec<String> = Vec::new();
    for i in 0..list.len()
        invariant
            copy@.len() == i,
            forall|j: int| 0 <= j < i ==> copy@[j]@ == list@[j]@,
    {
        copy.push(list[i].clone());
    }
    assert(texts(copy@) =~= texts(list@));
    copy
}

/// Decides about a path that was detected in `cache`, as far as the replies
/// reach.
pub fn access_in_cache(
    cache: Option<DetectedCache>,
    candidate: &OsPath,
    jail_root: &OsPath,
    extra_roots: &[String],
    replies: &Replies,
) -> (progress: Progress)
    ensures
        progress@ == progress_for(
            match cache {
                Some(c) => Some(c@),
                None => None,
            },
            (JailQuery {
                candidate: candidate@,
                jail_root: jail_root@,
                extra_roots: texts(extra_roots@),
            }),
            replies@,
        ),
{
    let cache = match cache {
        Some(cache) => cache,
        None => return Progress::Decided(None),
    };

    let resolver = match cache.resolver {
        Some(resolver) => resolver,
        None => {
            return match replies.marker_registered {
                None => Progress::Pending(Request::RegisterMarkerRoot { root: cache.root }),
                // The root is registered and the jail still says no: there is
                // nothing left for another try to fix.
                Some(false) => Progress::Decided(None),
                Some(true) => Progress::Decided(
                    Some(CacheAccess::Retry(retry_message(cache.label, &cache.root))),
                ),
            };
        },
    };

    let named = match &replies.resolved {
        None => return Progress::Pending(Request::ResolveRoot { cache: resolver }),
        Some(None) => return Progress::Decided(None),
        Some(Some(named)) => named,
    };
    let root = match &replies.canonical_root {
        None => {
            return Progress::Pending(Request::CanonicalizeRoot { name: named.to_string_lossy() });
        },
        Some(root) => root,
    };
    let path = match &replies.canonical_candidate {
        None => {
            return Progress::Pending(
                Request::CanonicalizeCandidate { candidate: candidate.clone() },
            );
        },
        Some(path) => path,
    };
    // The toolchain's root is trusted, and only for a path really under it.
    if !path.starts_with(root) {
        return Progress::Decided(None);
    }
    if replies.root_registered.is_none() {
        return Progress::Pending(
            Request::RegisterCanonicalRoot { label: cache.label, root: root.clone() },
        );
    }
    match &replies.jailed {
        None => Progress::Pending(
            Request::Jail {
                candidate: candidate.clone(),
                jail_root: jail_root.clone(),
                extra_roots: copied(extra_roots),
            },
        ),
        Some(None) => Progress::Decided(None),
        Some(Some(path)) => Progress::Decided(Some(CacheAccess::PassThrough(path.clone()))),
    }
}

/// Decides whether to allow, read-only and for this session, a jail-rejected
/// path that is dependency source in a language cache.
///
/// Which strategy applies is a property of the kind of cache, no fallback
/// chain. Where the toolchain names the root, the root is registered and the
/// jail asked again, but only for a path that really lies under it: a path
/// that merely looks like one in the cache gets nothing registered. Where
/// there is no such root, the root that the path spells is registered and the
/// caller asked to try again.
///
/// A decision may need several rounds: until it is there, the request that is
/// returned has to be carried out and its outcome recorded in `replies`.
pub fn language_cache_access(
    candidate: &OsPath,
    jail_root: &OsPath,
    extra_roots: &[String],
    replies: &Replies,
) -> (progress: Progress)
    ensures
        progress@ == progress_for(
            detection(text_of(candidate@)),
            (JailQuery {
                candidate: candidate@,
                jail_root: jail_root@,
                extra_roots: texts(extra_roots@),
            }),
            replies@,
        ),
{
    access_in_cache(detect_language_cache(candidate), candidate, jail_root, extra_roots, replies)
}

} // verus!
