//! What holds of the caches that are recognised.

use crate::laws::paths::{
    contains_text, law_only_backslashes_change, law_text_of_bytes, law_text_of_spelled_path,
    lemma_contains_text, lemma_encode_concat, lemma_leftmost_split, lemma_lies_under_prefix,
    lemma_splits_at,
};
use crate::access::retry_text;
use crate::os_path::{lies_under, text_of, SEPARATOR};
use crate::patterns::{
    detection, hint_for, kind_of, lemma_kind, lemma_marker, lemma_no_kind, marker_root,
    matches_first, patterns, CanonicalRoot,
};
use crate::text::{lemma_position_exists, occurs, position, with_slashes};
use vstd::prelude::*;
use vstd::utf8::{encode_utf8, is_ascii_chars_encode_utf8, valid_utf8};

verus! {

/// Whether `root` is what a text spells up to the end of the leftmost `marker`,
/// without the last slash of it.
pub open spec fn is_spelled_root(text: Seq<char>, marker: Seq<char>, root: Seq<u8>) -> bool {
    exists|before: Seq<char>, after: Seq<char>|
        {
            &&& text == #[trigger] (before + marker + after)
            &&& root == encode_utf8(before + marker.drop_last())
            &&& forall|left: Seq<char>, right: Seq<char>|
                text == #[trigger] (left + marker + right) ==> before.len() <= left.len()
        }
}

/// Whether a path with this text is taken to lie in the cache that people call
/// `label`, by the hint and by the detection alike.
pub open spec fn is_recognised(
    text: Seq<char>,
    marker: Seq<char>,
    label: Seq<char>,
    example: Seq<char>,
    resolver: Option<CanonicalRoot>,
) -> bool {
    &&& hint_for(text) == Some(
        ". Detected "@ + label + " — add read_only_roots = [\""@ + example
            + "\"] to ~/.config/lean-ctx/config.toml for cached, compressed reads without write access"@,
    )
    &&& detection(text) matches Some(cache)
    &&& cache.label == label
    &&& cache.resolver == resolver
    &&& is_spelled_root(with_slashes(text), marker, cache.root)
}

proof fn lemma_recognised(text: Seq<char>, k: int)
    requires
        matches_first(with_slashes(text), k),
    ensures
        is_recognised(
            text,
            patterns()[k].marker@,
            patterns()[k].label@,
            patterns()[k].example@,
            patterns()[k].resolver,
        ),
{
    let slashes = with_slashes(text);
    let marker = patterns()[k].marker@;
    lemma_kind(slashes, k);
    lemma_marker(k);
    lemma_position_exists(slashes, marker);
    let i = position(slashes, marker)->0;
    let before = slashes.take(i);
    let after = slashes.skip(i + marker.len());
    lemma_splits_at(slashes, marker, i);
    assert(before + marker.drop_last() =~= marker_root(slashes, marker)) by {
        assert(slashes == before + marker + after);
        assert((before + marker + after).take(i + marker.len() - 1) =~= before
            + marker.drop_last());
    }
    assert forall|left: Seq<char>, right: Seq<char>|
        slashes == #[trigger] (left + marker + right) implies before.len() <= left.len() by {
        lemma_leftmost_split(slashes, marker, i, left, right);
    }
    assert(slashes == before + marker + after);
}

/// Which caches are known, by what stands in a path, and which of them counts
/// where a path contains the marks of several. A path with none of the marks is
/// in no cache.
pub proof fn law_known_caches(text: Seq<char>)
    ensures
        ({
            let slashes = with_slashes(text);
            let go = contains_text(slashes, "/go/pkg/mod/"@);
            let cargo = contains_text(slashes, "/.cargo/registry/"@);
            let python = contains_text(slashes, "/site-packages/"@);
            let node = contains_text(slashes, "/node_modules/"@);
            let maven = contains_text(slashes, "/.m2/repository/"@);
            let gradle = contains_text(slashes, "/.gradle/caches/"@);
            let nuget = contains_text(slashes, "/.nuget/packages/"@);
            &&& go ==> is_recognised(
                text,
                "/go/pkg/mod/"@,
                "Go module cache"@,
                "~/go/pkg/mod"@,
                Some(CanonicalRoot::GoModCache),
            )
            &&& !go && cargo ==> is_recognised(
                text,
                "/.cargo/registry/"@,
                "Rust crate registry"@,
                "~/.cargo/registry"@,
                Some(CanonicalRoot::CargoRegistry),
            )
            &&& !go && !cargo && python ==> is_recognised(
                text,
                "/site-packages/"@,
                "Python site-packages"@,
                "<venv>/lib/pythonX.Y/site-packages"@,
                None,
            )
            &&& !go && !cargo && !python && node ==> is_recognised(
                text,
                "/node_modules/"@,
                "Node modules"@,
                "<project>/node_modules"@,
                None,
            )
            &&& !go && !cargo && !python && !node && maven ==> is_recognised(
                text,
                "/.m2/repository/"@,
                "Maven local repository"@,
                "~/.m2/repository"@,
                None,
            )
            &&& !go && !cargo && !python && !node && !maven && gradle ==> is_recognised(
                text,
                "/.gradle/caches/"@,
                "Gradle cache"@,
                "~/.gradle/caches"@,
                None,
            )
            &&& !go && !cargo && !python && !node && !maven && !gradle && nuget ==> is_recognised(
                text,
                "/.nuget/packages/"@,
                "NuGet package cache"@,
                "~/.nuget/packages"@,
                None,
            )
            &&& !go && !cargo && !python && !node && !maven && !gradle && !nuget ==> {
                &&& hint_for(text) is None
                &&& detection(text) is None
            }
        }),
{
    let slashes = with_slashes(text);
    lemma_contains_text(slashes, "/go/pkg/mod/"@);
    lemma_contains_text(slashes, "/.cargo/registry/"@);
    lemma_contains_text(slashes, "/site-packages/"@);
    lemma_contains_text(slashes, "/node_modules/"@);
    lemma_contains_text(slashes, "/.m2/repository/"@);
    lemma_contains_text(slashes, "/.gradle/caches/"@);
    lemma_contains_text(slashes, "/.nuget/packages/"@);
    lemma_no_kind(slashes);
    if kind_of(slashes) is Some {
        let k = kind_of(slashes)->0;
        assert(matches_first(slashes, k));
        lemma_recognised(text, k);
        assert(forall|j: int|
            0 <= j < k ==> !occurs(slashes, #[trigger] patterns()[j].marker@));
    }
    assert(patterns()[0].marker@ == "/go/pkg/mod/"@);
    assert(patterns()[1].marker@ == "/.cargo/registry/"@);
    assert(patterns()[2].marker@ == "/site-packages/"@);
    assert(patterns()[3].marker@ == "/node_modules/"@);
    assert(patterns()[4].marker@ == "/.m2/repository/"@);
    assert(patterns()[5].marker@ == "/.gradle/caches/"@);
    assert(patterns()[6].marker@ == "/.nuget/packages/"@);
}

/// The bytes of a path that is text and spelled with slashes alone begin with
/// the root that is detected, set off by a slash: the path itself lies under
/// that root.
pub proof fn law_path_itself_lies_under_detected_root(bytes: Seq<u8>)
    requires
        valid_utf8(bytes),
        forall|i: int| 0 <= i < text_of(bytes).len() ==> #[trigger] text_of(bytes)[i] != '\\',
    ensures
        detection(text_of(bytes)) matches Some(cache) ==> {
            &&& cache.root.len() > 0
            &&& cache.root.push(0x2f).is_prefix_of(bytes)
            &&& lies_under(bytes, cache.root)
        },
{
    let text = text_of(bytes);
    law_only_backslashes_change(text);
    law_text_of_bytes(bytes);
    if detection(text) is Some {
        let k = kind_of(text)->0;
        assert(matches_first(text, k));
        lemma_recognised(text, k);
        lemma_marker(k);
        let marker = patterns()[k].marker@;
        let root = detection(text)->0.root;
        let (before, after) = choose|before: Seq<char>, after: Seq<char>|
            {
                &&& text == #[trigger] (before + marker + after)
                &&& root == encode_utf8(before + marker.drop_last())
            };
        let spelled = before + marker.drop_last();
        assert(text =~= spelled + seq!['/'] + after);
        lemma_encode_concat(spelled + seq!['/'], after);
        lemma_encode_concat(spelled, seq!['/']);
        is_ascii_chars_encode_utf8(seq!['/']);
        assert(encode_utf8(seq!['/']) =~= seq![SEPARATOR]);
        assert(bytes =~= root.push(SEPARATOR) + encode_utf8(after));
        assert(encode_utf8(spelled).len() > 0);
        lemma_lies_under_prefix(root, encode_utf8(after));
        assert(root.push(0x2f) =~= bytes.subrange(0, root.len() as int + 1));
    }
}

/// The message that asks for another try names the cache and the root, letter
/// for letter.
pub proof fn law_retry_message(label: Seq<char>, root: Seq<char>, bytes: Seq<u8>)
    ensures
        retry_text(label, bytes) == "Auto-detected "@ + label + " at "@ + text_of(bytes)
            + " — added as a read-only root for this session. Retry the read."@,
        retry_text(label, encode_utf8(root)) == "Auto-detected "@ + label + " at "@ + root
            + " — added as a read-only root for this session. Retry the read."@,
{
    law_text_of_spelled_path(root);
}

} // verus!
