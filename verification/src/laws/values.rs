//! What the views of values show: every part of a value, each for what it is.

use crate::access::{
    no_replies, reply_view, texts, with_reply, CacheAccess, CacheAccessView, Progress, ProgressView,
    Replies, RepliesView, Reply, ReplyView, Request, RequestView,
};
use crate::os_path::{parts, OsPath};
use crate::patterns::{CanonicalRoot, DetectedCache, Detection};
use crate::roots::{
    bytes_view, names, path_view, root_view, RootPath, RootPathView, RootSearch, RootSearchView,
};
use vstd::prelude::*;

verus! {

/// A value that may be absent is shown as it is, or as absent.
pub proof fn law_optional_values(path: OsPath, root: RootPath, bytes: Vec<u8>)
    ensures
        path_view(Some(path)) == Some(path@),
        path_view(None) is None,
        root_view(Some(root)) == Some(root@),
        root_view(None) is None,
        bytes_view(Some(bytes)) == Some(bytes@),
        bytes_view(None) is None,
        reply_view(Some(Some(path))) == Some(Some(path@)),
        reply_view(Some(None)) == Some(None::<Seq<u8>>),
        reply_view(None) is None,
{
}

/// A list is shown item by item, in its order.
pub proof fn law_lists(strings: Seq<String>, literals: Seq<&'static str>, pieces: Seq<Vec<u8>>)
    ensures
        texts(strings).len() == strings.len(),
        forall|i: int| 0 <= i < strings.len() ==> #[trigger] texts(strings)[i] == strings[i]@,
        names(literals).len() == literals.len(),
        forall|i: int| 0 <= i < literals.len() ==> #[trigger] names(literals)[i] == literals[i]@,
        parts(pieces).len() == pieces.len(),
        forall|i: int| 0 <= i < pieces.len() ==> #[trigger] parts(pieces)[i] == pieces[i]@,
{
}

/// What a detected cache, a root and a search for a root show.
pub proof fn law_caches_and_roots(
    cache: DetectedCache,
    root: RootPath,
    found: Option<RootPath>,
    program: &'static str,
    arguments: [&'static str; 2],
)
    ensures
        cache@ == (Detection {
            label: cache.label@,
            root: cache.root@,
            resolver: cache.resolver,
        }),
        root@ == (RootPathView { base: root.base@, below: names(root.below@) }),
        RootSearch::Known(found)@ == RootSearchView::Known(root_view(found)),
        (RootSearch::Ask { program, arguments })@ == (RootSearchView::Ask {
            program: program@,
            arguments: seq![arguments@[0]@, arguments@[1]@],
        }),
{
}

/// What a decision shows.
pub proof fn law_decisions(path: OsPath, message: String, access: CacheAccess, request: Request)
    ensures
        CacheAccess::PassThrough(path)@ == CacheAccessView::PassThrough(path@),
        CacheAccess::Retry(message)@ == CacheAccessView::Retry(message@),
        Progress::Pending(request)@ == ProgressView::Pending(request@),
        Progress::Decided(Some(access))@ == ProgressView::Decided(Some(access@)),
        Progress::Decided(None)@ == ProgressView::Decided(None),
{
}

/// What a request shows.
pub proof fn law_requests(
    cache: CanonicalRoot,
    label: &'static str,
    name: String,
    path: OsPath,
    jail_root: OsPath,
    extra_roots: Vec<String>,
)
    ensures
        (Request::RegisterMarkerRoot { root: path })@ == (RequestView::RegisterMarkerRoot {
            root: path@,
        }),
        (Request::ResolveRoot { cache })@ == (RequestView::ResolveRoot { cache }),
        (Request::CanonicalizeRoot { name })@ == (RequestView::CanonicalizeRoot { name: name@ }),
        (Request::CanonicalizeCandidate { candidate: path })@ == (
        RequestView::CanonicalizeCandidate { candidate: path@ }),
        (Request::RegisterCanonicalRoot { label, root: path })@ == (
        RequestView::RegisterCanonicalRoot { label: label@, root: path@ }),
        (Request::Jail { candidate: path, jail_root, extra_roots })@ == (RequestView::Jail {
            candidate: path@,
            jail_root: jail_root@,
            extra_roots: texts(extra_roots@),
        }),
{
}

/// What a reply shows.
pub proof fn law_replies(new: bool, path: OsPath, maybe: Option<OsPath>, replies: Replies)
    ensures
        Reply::MarkerRegistered(new)@ == ReplyView::MarkerRegistered(new),
        Reply::Resolved(maybe)@ == ReplyView::Resolved(path_view(maybe)),
        Reply::CanonicalRoot(path)@ == ReplyView::CanonicalRoot(path@),
        Reply::CanonicalCandidate(path)@ == ReplyView::CanonicalCandidate(path@),
        Reply::RootRegistered(new)@ == ReplyView::RootRegistered(new),
        Reply::Jailed(maybe)@ == ReplyView::Jailed(path_view(maybe)),
        replies@ == (RepliesView {
            marker_registered: replies.marker_registered,
            resolved: reply_view(replies.resolved),
            canonical_root: path_view(replies.canonical_root),
            canonical_candidate: path_view(replies.canonical_candidate),
            root_registered: replies.root_registered,
            jailed: reply_view(replies.jailed),
        }),
{
}

/// Recording a reply sets the answer to its own request and leaves the other
/// answers as they were; at first there is none.
pub proof fn law_recording(
    replies: RepliesView,
    new: bool,
    path: Seq<u8>,
    maybe: Option<Seq<u8>>,
)
    ensures
        no_replies() == (RepliesView {
            marker_registered: None,
            resolved: None,
            canonical_root: None,
            canonical_candidate: None,
            root_registered: None,
            jailed: None,
        }),
        with_reply(replies, ReplyView::MarkerRegistered(new)) == (RepliesView {
            marker_registered: Some(new),
            ..replies
        }),
        with_reply(replies, ReplyView::Resolved(maybe)) == (RepliesView {
            resolved: Some(maybe),
            ..replies
        }),
        with_reply(replies, ReplyView::CanonicalRoot(path)) == (RepliesView {
            canonical_root: Some(path),
            ..replies
        }),
        with_reply(replies, ReplyView::CanonicalCandidate(path)) == (RepliesView {
            canonical_candidate: Some(path),
            ..replies
        }),
        with_reply(replies, ReplyView::RootRegistered(new)) == (RepliesView {
            root_registered: Some(new),
            ..replies
        }),
        with_reply(replies, ReplyView::Jailed(maybe)) == (RepliesView {
            jailed: Some(maybe),
            ..replies
        }),
{
}

} // verus!
