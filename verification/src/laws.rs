//! What holds of the library as a whole: of texts and paths ([`paths`]), of the
//! caches that are recognised ([`caches`]), of the roots that toolchains name
//! ([`toolchains`]), of what the views of values show ([`values`]), of every call
//! of the executable functions ([`calls`]), and, here, of the decisions about a
//! path.

pub mod caches;
pub mod calls;
pub mod paths;
pub mod toolchains;
pub mod values;

use crate::access::{
    no_replies, progress_for, retry_text, with_reply, CacheAccessView, JailQuery, ProgressView,
    RepliesView, ReplyView, RequestView,
};
use crate::laws::paths::{lemma_encode_concat, lemma_lies_under_prefix};
use crate::os_path::{lies_under, text_of, SEPARATOR};
use crate::patterns::{
    detection, hint_for, hint_text, kind_of, lemma_marker, lemma_no_kind, marker_root,
    matches_first, patterns, CanonicalRoot, Detection,
};
use crate::roots::{
    directory_if_any, go_search, path_in_run, variable_path, RootSearchView, ToolchainRun,
};
use crate::text::{
    lemma_position_exists, occurs, occurs_at, occurs_first_at, position, with_slashes,
};
use vstd::prelude::*;
use vstd::utf8::{
    encode_utf8, encode_utf8_decode_utf8, encode_utf8_valid_utf8, is_ascii_chars_encode_utf8,
};

verus! {

// What a hint says and what access goes by.

/// The hint and the access never drift apart: both go by the same kind of
/// cache, or both by none.
pub proof fn law_hint_agrees_with_detection(text: Seq<char>)
    ensures
        match kind_of(with_slashes(text)) {
            Some(k) => {
                &&& hint_for(text) == Some(hint_text(patterns()[k]))
                &&& detection(text) matches Some(cache)
                &&& cache.label == patterns()[k].label@
                &&& cache.resolver == patterns()[k].resolver
            },
            None => hint_for(text) is None && detection(text) is None,
        },
{
}

/// A path is recognised exactly if it contains a marker, with slashes or
/// backslashes.
pub proof fn law_every_marker_is_recognised(text: Seq<char>)
    ensures
        detection(text) is Some <==> exists|k: int|
            0 <= k < patterns().len() && occurs(
                with_slashes(text),
                #[trigger] patterns()[k].marker@,
            ),
        hint_for(text) is Some <==> detection(text) is Some,
{
    lemma_no_kind(with_slashes(text));
}

// The root that a path spells.

/// A path lies under the root that it spells, so registering that root is what
/// makes the next try resolve.
pub proof fn law_path_lies_under_detected_root(text: Seq<char>)
    ensures
        detection(text) matches Some(cache) ==> lies_under(
            encode_utf8(with_slashes(text)),
            cache.root,
        ),
{
    if detection(text) is Some {
        let slashes = with_slashes(text);
        let k = kind_of(slashes)->0;
        assert(matches_first(slashes, k));
        let marker = patterns()[k].marker@;
        lemma_marker(k);
        lemma_position_exists(slashes, marker);
        let i = position(slashes, marker)->0;
        let end = i + marker.len() - 1;
        let root = marker_root(slashes, marker);
        let rest = slashes.skip(end + 1);
        assert(slashes.subrange(i, i + marker.len())[marker.len() - 1] == '/');
        assert(slashes =~= root + seq!['/'] + rest);
        lemma_encode_concat(root + seq!['/'], rest);
        lemma_encode_concat(root, seq!['/']);
        is_ascii_chars_encode_utf8(seq!['/']);
        assert(encode_utf8(seq!['/']) =~= seq![SEPARATOR]);
        assert(encode_utf8(slashes) =~= encode_utf8(root).push(SEPARATOR) + encode_utf8(rest));
        assert(root.len() > 0);
        assert(encode_utf8(root).len() > 0);
        lemma_lies_under_prefix(encode_utf8(root), encode_utf8(rest));
    }
}

/// The root that a path spells is the path's own text, up to the last slash of
/// the leftmost marker and without it; a message shows it letter for letter.
pub proof fn law_detected_root_is_spelled(text: Seq<char>)
    ensures
        detection(text) matches Some(cache) ==> {
            let root = text_of(cache.root);
            &&& exists|k: int|
                0 <= k < patterns().len() && cache.label == patterns()[k].label@ && root.push('/')
                    == with_slashes(text).take(root.len() as int + 1) && occurs_first_at(
                    root.push('/'),
                    #[trigger] patterns()[k].marker@,
                    root.len() + 1 - patterns()[k].marker@.len(),
                )
        },
{
    if detection(text) is Some {
        let slashes = with_slashes(text);
        let k = kind_of(slashes)->0;
        assert(matches_first(slashes, k));
        let marker = patterns()[k].marker@;
        lemma_marker(k);
        lemma_position_exists(slashes, marker);
        let i = position(slashes, marker)->0;
        let root = marker_root(slashes, marker);
        encode_utf8_decode_utf8(root);
        encode_utf8_valid_utf8(root);
        assert(text_of(detection(text)->0.root) == root);
        assert(slashes.subrange(i, i + marker.len())[marker.len() - 1] == '/');
        assert(root.push('/') =~= slashes.take(root.len() as int + 1));
        assert(root.push('/').subrange(i, i + marker.len()) =~= slashes.subrange(
            i,
            i + marker.len(),
        ));
        assert forall|j: int| 0 <= j < i implies !occurs_at(root.push('/'), marker, j) by {
            assert(!occurs_at(slashes, marker, j));
            assert(root.push('/').subrange(j, j + marker.len()) =~= slashes.subrange(
                j,
                j + marker.len(),
            ));
        }
        assert(occurs_first_at(root.push('/'), marker, root.len() + 1 - marker.len()));
    }
}

// One decision after another.

/// Whether a request asks to make a root of the session.
pub open spec fn registers(request: RequestView) -> bool {
    request is RegisterMarkerRoot || request is RegisterCanonicalRoot
}

/// Whether the reply to a request is still missing.
pub open spec fn unanswered(replies: RepliesView, request: RequestView) -> bool {
    match request {
        RequestView::RegisterMarkerRoot { .. } => replies.marker_registered is None,
        RequestView::ResolveRoot { .. } => replies.resolved is None,
        RequestView::CanonicalizeRoot { .. } => replies.canonical_root is None,
        RequestView::CanonicalizeCandidate { .. } => replies.canonical_candidate is None,
        RequestView::RegisterCanonicalRoot { .. } => replies.root_registered is None,
        RequestView::Jail { .. } => replies.jailed is None,
    }
}

/// No request is made twice.
pub proof fn law_requests_are_new(
    cache: Option<Detection>,
    query: JailQuery,
    replies: RepliesView,
)
    ensures
        progress_for(cache, query, replies) matches ProgressView::Pending(request) ==> unanswered(
            replies,
            request,
        ),
{
}

/// A path in no language cache is not acted on, whatever is replied.
pub proof fn law_other_paths_are_left_alone(query: JailQuery, replies: RepliesView)
    ensures
        progress_for(None, query, replies) == ProgressView::Decided(None),
{
}

/// A cache whose root the toolchain names never falls back to the root that the
/// path spells: that root is not registered and no other try is asked for.
pub proof fn law_toolchain_never_falls_back(
    cache: Detection,
    query: JailQuery,
    replies: RepliesView,
)
    requires
        cache.resolver is Some,
    ensures
        match progress_for(Some(cache), query, replies) {
            ProgressView::Pending(request) => !(request is RegisterMarkerRoot),
            ProgressView::Decided(access) => access matches Some(a) ==> a is PassThrough,
        },
{
}

/// A cache without a canonical root never passes a read through: all that is
/// asked for is that the root the path spells be registered.
pub proof fn law_marker_never_passes_through(
    cache: Detection,
    query: JailQuery,
    replies: RepliesView,
)
    requires
        cache.resolver is None,
    ensures
        match progress_for(Some(cache), query, replies) {
            ProgressView::Pending(request) => request == (RequestView::RegisterMarkerRoot {
                root: cache.root,
            }),
            ProgressView::Decided(access) => access matches Some(a) ==> a
                == CacheAccessView::Retry(retry_text(cache.label, cache.root)),
        },
{
}

/// The next step for a cache without a canonical root rests on one reply alone.
pub proof fn law_marker_steps(cache: Detection, query: JailQuery, replies: RepliesView)
    requires
        cache.resolver is None,
    ensures
        replies.marker_registered is None ==> progress_for(Some(cache), query, replies)
            == ProgressView::Pending(RequestView::RegisterMarkerRoot { root: cache.root }),
        replies.marker_registered == Some(true) ==> progress_for(Some(cache), query, replies)
            == ProgressView::Decided(
            Some(
                CacheAccessView::Retry(
                    "Auto-detected "@ + cache.label + " at "@ + text_of(cache.root)
                        + " — added as a read-only root for this session. Retry the read."@,
                ),
            ),
        ),
        replies.marker_registered == Some(false) ==> progress_for(Some(cache), query, replies)
            == ProgressView::Decided(None),
{
}

/// The next step for a cache whose root the toolchain names is the first that
/// has no reply yet; a missing root and a path outside it end the matter, and so
/// does the jail.
pub proof fn law_toolchain_steps(cache: Detection, query: JailQuery, replies: RepliesView)
    requires
        cache.resolver is Some,
    ensures
        ({
            let progress = progress_for(Some(cache), query, replies);
            &&& replies.resolved is None ==> progress == ProgressView::Pending(
                RequestView::ResolveRoot { cache: cache.resolver->0 },
            )
            &&& replies.resolved == Some(None::<Seq<u8>>) ==> progress == ProgressView::Decided(
                None,
            )
            &&& replies.resolved matches Some(Some(named)) ==> {
                &&& replies.canonical_root is None ==> progress == ProgressView::Pending(
                    RequestView::CanonicalizeRoot { name: text_of(named) },
                )
                &&& replies.canonical_root matches Some(base) ==> {
                    &&& replies.canonical_candidate is None ==> progress == ProgressView::Pending(
                        RequestView::CanonicalizeCandidate { candidate: query.candidate },
                    )
                    &&& replies.canonical_candidate matches Some(path) ==> {
                        &&& !lies_under(path, base) ==> progress == ProgressView::Decided(None)
                        &&& lies_under(path, base) && replies.root_registered is None ==> progress
                            == ProgressView::Pending(
                            RequestView::RegisterCanonicalRoot { label: cache.label, root: base },
                        )
                        &&& lies_under(path, base) && replies.root_registered is Some ==> progress
                            == match replies.jailed {
                            None => ProgressView::Pending(
                                RequestView::Jail {
                                    candidate: query.candidate,
                                    jail_root: query.jail_root,
                                    extra_roots: query.extra_roots,
                                },
                            ),
                            Some(Some(jailed)) => ProgressView::Decided(
                                Some(CacheAccessView::PassThrough(jailed)),
                            ),
                            Some(None) => ProgressView::Decided(None),
                        }
                    }
                }
            }
        }),
{
}

/// The toolchain, not the text of the path, is the authority: a root is
/// registered for a cache whose root the toolchain names only if it is the
/// canonical root and the canonical path lies under it.
pub proof fn law_only_confirmed_roots_are_registered(
    cache: Detection,
    query: JailQuery,
    replies: RepliesView,
)
    requires
        cache.resolver is Some,
    ensures
        match progress_for(Some(cache), query, replies) {
            ProgressView::Pending(request) => registers(request) ==> {
                &&& replies.canonical_root matches Some(base)
                &&& replies.canonical_candidate matches Some(path)
                &&& lies_under(path, base)
                &&& request == (RequestView::RegisterCanonicalRoot {
                    label: cache.label,
                    root: base,
                })
            },
            ProgressView::Decided(_) => true,
        },
{
}

/// A read passes through only with the path that the jail let through, after
/// the canonical root was registered and the canonical path found under it.
pub proof fn law_pass_through_is_jailed(
    cache: Option<Detection>,
    query: JailQuery,
    replies: RepliesView,
    path: Seq<u8>,
)
    requires
        progress_for(cache, query, replies) == ProgressView::Decided(
            Some(CacheAccessView::PassThrough(path)),
        ),
    ensures
        replies.jailed == Some(Some(path)),
        replies.root_registered is Some,
        replies.canonical_root is Some,
        replies.canonical_candidate is Some,
        lies_under(replies.canonical_candidate->0, replies.canonical_root->0),
{
}

// Whole runs.

/// What the outside world would reply to each request about one path.
pub struct World {
    pub marker_registered: bool,
    pub resolved: Option<Seq<u8>>,
    pub canonical_root: Seq<u8>,
    pub canonical_candidate: Seq<u8>,
    pub root_registered: bool,
    pub jailed: Option<Seq<u8>>,
}

/// The reply to one request.
pub open spec fn reply_to(request: RequestView, world: World) -> ReplyView {
    match request {
        RequestView::RegisterMarkerRoot { .. } => ReplyView::MarkerRegistered(
            world.marker_registered,
        ),
        RequestView::ResolveRoot { .. } => ReplyView::Resolved(world.resolved),
        RequestView::CanonicalizeRoot { .. } => ReplyView::CanonicalRoot(world.canonical_root),
        RequestView::CanonicalizeCandidate { .. } => ReplyView::CanonicalCandidate(
            world.canonical_candidate,
        ),
        RequestView::RegisterCanonicalRoot { .. } => ReplyView::RootRegistered(
            world.root_registered,
        ),
        RequestView::Jail { .. } => ReplyView::Jailed(world.jailed),
    }
}

/// How many replies are still missing.
pub open spec fn missing(replies: RepliesView) -> nat {
    let one = |absent: bool|
        if absent {
            1nat
        } else {
            0nat
        };
    one(replies.marker_registered is None) + one(replies.resolved is None) + one(
        replies.canonical_root is None,
    ) + one(replies.canonical_candidate is None) + one(replies.root_registered is None) + one(
        replies.jailed is None,
    )
}

/// The requests that are made until a decision is there, and the decision.
pub struct Run {
    pub requests: Seq<RequestView>,
    pub access: Option<CacheAccessView>,
}

/// The run from where the replies have come to: each request is carried out and
/// its reply recorded, until there is a decision.
pub open spec fn run_from(
    cache: Option<Detection>,
    query: JailQuery,
    replies: RepliesView,
    world: World,
) -> Run
    decreases missing(replies),
{
    match progress_for(cache, query, replies) {
        ProgressView::Decided(access) => Run { requests: seq![], access },
        ProgressView::Pending(request) => {
            let rest = run_from(
                cache,
                query,
                with_reply(replies, reply_to(request, world)),
                world,
            );
            Run { requests: seq![request] + rest.requests, access: rest.access }
        },
    }
}

/// The whole run for one path.
pub open spec fn run(cache: Option<Detection>, query: JailQuery, world: World) -> Run {
    run_from(cache, query, no_replies(), world)
}

/// A path in no language cache: nothing is asked for and nothing allowed.
pub proof fn law_run_elsewhere(query: JailQuery, world: World)
    ensures
        run(None, query, world).requests.len() == 0,
        run(None, query, world).access is None,
{
}

/// A path in a cache without a canonical root: its root is registered, once,
/// and another try asked for if the root was new.
pub proof fn law_run_by_marker(cache: Detection, query: JailQuery, world: World)
    requires
        cache.resolver is None,
    ensures
        run(Some(cache), query, world).requests == seq![
            RequestView::RegisterMarkerRoot { root: cache.root },
        ],
        run(Some(cache), query, world).access == if world.marker_registered {
            Some(CacheAccessView::Retry(retry_text(cache.label, cache.root)))
        } else {
            None
        },
{
    reveal_with_fuel(run_from, 2);
    assert(run(Some(cache), query, world).requests =~= seq![
        RequestView::RegisterMarkerRoot { root: cache.root },
    ]);
}

/// The canonical root is asked for, as is the canonical form of the path.
pub open spec fn inquiries(
    resolver: CanonicalRoot,
    named: Seq<u8>,
    query: JailQuery,
) -> Seq<RequestView> {
    seq![
        RequestView::ResolveRoot { cache: resolver },
        RequestView::CanonicalizeRoot { name: text_of(named) },
        RequestView::CanonicalizeCandidate { candidate: query.candidate },
    ]
}

/// The toolchain is absent or names no root: nothing else is asked for and
/// nothing allowed.
pub proof fn law_run_without_toolchain(cache: Detection, query: JailQuery, world: World)
    requires
        cache.resolver is Some,
        world.resolved is None,
    ensures
        run(Some(cache), query, world).requests == seq![
            RequestView::ResolveRoot { cache: cache.resolver->0 },
        ],
        run(Some(cache), query, world).access is None,
{
    reveal_with_fuel(run_from, 2);
    assert(run(Some(cache), query, world).requests =~= seq![
        RequestView::ResolveRoot { cache: cache.resolver->0 },
    ]);
}

/// A path that looks like one in the cache but lies outside its canonical root
/// is refused, and nothing at all is registered.
pub proof fn law_run_lookalike(cache: Detection, query: JailQuery, world: World)
    requires
        cache.resolver is Some,
        world.resolved is Some,
        !lies_under(world.canonical_candidate, world.canonical_root),
    ensures
        run(Some(cache), query, world).requests == inquiries(
            cache.resolver->0,
            world.resolved->0,
            query,
        ),
        forall|i: int|
            0 <= i < run(Some(cache), query, world).requests.len() ==> !registers(
                #[trigger] run(Some(cache), query, world).requests[i],
            ),
        run(Some(cache), query, world).access is None,
{
    reveal_with_fuel(run_from, 4);
    assert(run(Some(cache), query, world).requests =~= inquiries(
        cache.resolver->0,
        world.resolved->0,
        query,
    ));
}

/// A path under the canonical root of its cache: that root is registered, the
/// jail asked once more, and what it lets through passes in the same call.
pub proof fn law_run_under_canonical_root(cache: Detection, query: JailQuery, world: World)
    requires
        cache.resolver is Some,
        world.resolved is Some,
        lies_under(world.canonical_candidate, world.canonical_root),
    ensures
        run(Some(cache), query, world).requests == inquiries(
            cache.resolver->0,
            world.resolved->0,
            query,
        ) + seq![
            RequestView::RegisterCanonicalRoot { label: cache.label, root: world.canonical_root },
            RequestView::Jail {
                candidate: query.candidate,
                jail_root: query.jail_root,
                extra_roots: query.extra_roots,
            },
        ],
        run(Some(cache), query, world).access == match world.jailed {
            Some(path) => Some(CacheAccessView::PassThrough(path)),
            None => None,
        },
{
    reveal_with_fuel(run_from, 6);
    assert(run(Some(cache), query, world).requests =~= inquiries(
        cache.resolver->0,
        world.resolved->0,
        query,
    ) + seq![
        RequestView::RegisterCanonicalRoot { label: cache.label, root: world.canonical_root },
        RequestView::Jail {
            candidate: query.candidate,
            jail_root: query.jail_root,
            extra_roots: query.extra_roots,
        },
    ]);
}

/// A decision takes five requests at most.
pub proof fn law_runs_are_short(cache: Option<Detection>, query: JailQuery, world: World)
    ensures
        run(cache, query, world).requests.len() <= 5,
{
    if let Some(found) = cache {
        if found.resolver is None {
            law_run_by_marker(found, query, world);
        } else if world.resolved is None {
            law_run_without_toolchain(found, query, world);
        } else if lies_under(world.canonical_candidate, world.canonical_root) {
            law_run_under_canonical_root(found, query, world);
        } else {
            law_run_lookalike(found, query, world);
        }
    }
}

// The read-only roots of a session.

/// The read-only roots of a session once requests have been carried out.
pub open spec fn roots_after(roots: Set<Seq<u8>>, requests: Seq<RequestView>) -> Set<Seq<u8>>
    decreases requests.len(),
{
    if requests.len() == 0 {
        roots
    } else {
        let before = roots_after(roots, requests.drop_last());
        match requests.last() {
            RequestView::RegisterMarkerRoot { root } => before.insert(root),
            RequestView::RegisterCanonicalRoot { root, .. } => before.insert(root),
            _ => before,
        }
    }
}

/// Whether a path is in the read-only tier of a session: it lies under one of
/// the read-only roots.
pub open spec fn is_read_only(roots: Set<Seq<u8>>, path: Seq<u8>) -> bool {
    exists|root: Seq<u8>| #[trigger] roots.contains(root) && lies_under(path, root)
}

/// What a run adds to the read-only roots of a session: the root that the path
/// spells where there is no canonical one, the canonical root where the path
/// lies under it, and nothing in any other case.
pub proof fn law_registered_roots(
    cache: Option<Detection>,
    query: JailQuery,
    world: World,
    roots: Set<Seq<u8>>,
)
    ensures
        roots_after(roots, run(cache, query, world).requests) == match cache {
            None => roots,
            Some(found) => if found.resolver is None {
                roots.insert(found.root)
            } else if world.resolved is Some && lies_under(
                world.canonical_candidate,
                world.canonical_root,
            ) {
                roots.insert(world.canonical_root)
            } else {
                roots
            },
        },
{
    let requests = run(cache, query, world).requests;
    if let Some(found) = cache {
        if found.resolver is None {
            law_run_by_marker(found, query, world);
            reveal_with_fuel(roots_after, 2);
        } else if world.resolved is None {
            law_run_without_toolchain(found, query, world);
            reveal_with_fuel(roots_after, 2);
        } else if lies_under(world.canonical_candidate, world.canonical_root) {
            law_run_under_canonical_root(found, query, world);
            reveal_with_fuel(roots_after, 6);
        } else {
            law_run_lookalike(found, query, world);
            reveal_with_fuel(roots_after, 4);
        }
    }
}

/// A root without a canonical one gets another try asked for at most once in a
/// session, and only if it was not registered before: two paths that spell the
/// same root, one after the other, with whatever was registered between them.
/// The second changes nothing.
pub proof fn law_no_second_retry(
    earlier: Detection,
    earlier_query: JailQuery,
    earlier_world: World,
    roots: Set<Seq<u8>>,
    later: Detection,
    later_query: JailQuery,
    later_world: World,
    later_roots: Set<Seq<u8>>,
)
    requires
        earlier.resolver is None,
        later.resolver is None,
        earlier.root == later.root,
        earlier_world.marker_registered == !roots.contains(earlier.root),
        roots_after(
            roots,
            run(Some(earlier), earlier_query, earlier_world).requests,
        ).subset_of(later_roots),
        later_world.marker_registered == !later_roots.contains(later.root),
    ensures
        run(Some(earlier), earlier_query, earlier_world).access is Some <==> !roots.contains(
            earlier.root,
        ),
        run(Some(later), later_query, later_world).access is None,
        roots_after(later_roots, run(Some(later), later_query, later_world).requests)
            == later_roots,
{
    law_run_by_marker(earlier, earlier_query, earlier_world);
    law_run_by_marker(later, later_query, later_world);
    law_registered_roots(Some(earlier), earlier_query, earlier_world, roots);
    law_registered_roots(Some(later), later_query, later_world, later_roots);
    assert(roots.insert(earlier.root).contains(earlier.root));
    assert(later_roots.insert(later.root) =~= later_roots);
}

/// Access is granted read-only: by the time a path passes through, or another
/// try is asked for, it lies under a root that was registered as read-only.
pub proof fn law_granted_access_is_read_only(
    text: Seq<char>,
    query: JailQuery,
    world: World,
    roots: Set<Seq<u8>>,
)
    ensures
        ({
            let whole = run(detection(text), query, world);
            let after = roots_after(roots, whole.requests);
            match whole.access {
                Some(CacheAccessView::PassThrough(_)) => is_read_only(
                    after,
                    world.canonical_candidate,
                ),
                Some(CacheAccessView::Retry(_)) => is_read_only(
                    after,
                    encode_utf8(with_slashes(text)),
                ),
                None => true,
            }
        }),
{
    let cache = detection(text);
    law_registered_roots(cache, query, world, roots);
    let after = roots_after(roots, run(cache, query, world).requests);
    if let Some(found) = cache {
        if found.resolver is None {
            law_run_by_marker(found, query, world);
            law_path_lies_under_detected_root(text);
            assert(after.contains(found.root));
        } else if world.resolved is None {
            law_run_without_toolchain(found, query, world);
        } else if lies_under(world.canonical_candidate, world.canonical_root) {
            law_run_under_canonical_root(found, query, world);
            assert(after.contains(world.canonical_root));
        } else {
            law_run_lookalike(found, query, world);
        }
    }
}

// The Go toolchain.

/// Where no variable names a root, one run of the Go toolchain answers for
/// good: every later search finds what that run named, nothing if it failed,
/// and the toolchain is not asked again.
pub proof fn law_one_run_answers_for_good(
    earlier: Option<&str>,
    later: Option<&str>,
    run: ToolchainRun,
)
    requires
        variable_path(earlier) is None,
        variable_path(later) is None,
    ensures
        go_search(earlier, None) is Ask,
        go_search(earlier, Some(run)) == RootSearchView::Known(
            directory_if_any(path_in_run(run)),
        ),
        go_search(later, Some(run)) == go_search(earlier, Some(run)),
{
}

} // verus!
