//! What holds of texts and of paths.

use crate::os_path::{
    anchor, components, is_named, joined, lemma_segments_nonempty, lies_under, segments, text_of,
    utf8_lossy, SEPARATOR,
};
use crate::text::{
    is_white_space, occurs, occurs_at, occurs_first_at, trimmed, with_slashes,
    without_leading_space, without_trailing_space,
};
use vstd::prelude::*;
use vstd::utf8::{
    decode_utf8_encode_utf8, encode_utf8, encode_utf8_decode_utf8, encode_utf8_valid_utf8,
    valid_utf8,
};

verus! {

// Texts.

/// White space is what Unicode calls White_Space, by code point.
pub proof fn law_white_space(c: char)
    ensures
        is_white_space(c) <==> {
            let code = c as u32;
            ||| 0x0009 <= code <= 0x000d
            ||| code == 0x0020
            ||| code == 0x0085
            ||| code == 0x00a0
            ||| code == 0x1680
            ||| 0x2000 <= code <= 0x200a
            ||| 0x2028 <= code <= 0x2029
            ||| code == 0x202f
            ||| code == 0x205f
            ||| code == 0x3000
        },
{
}

/// Whether a text is white space throughout.
pub open spec fn is_blank(text: Seq<char>) -> bool {
    forall|i: int| 0 <= i < text.len() ==> is_white_space(#[trigger] text[i])
}

/// Whether a text neither begins nor ends with white space.
pub open spec fn is_tight(text: Seq<char>) -> bool {
    text.len() > 0 ==> !is_white_space(text[0]) && !is_white_space(text.last())
}

proof fn lemma_leading_space(space: Seq<char>, rest: Seq<char>)
    requires
        is_blank(space),
        rest.len() > 0 ==> !is_white_space(rest[0]),
    ensures
        without_leading_space(space + rest) == rest,
    decreases space.len(),
{
    let whole = space + rest;
    if space.len() == 0 {
        assert(whole =~= rest);
    } else {
        assert(whole[0] == space[0]);
        assert(whole.drop_first() =~= space.drop_first() + rest);
        lemma_leading_space(space.drop_first(), rest);
    }
}

proof fn lemma_trailing_space(rest: Seq<char>, space: Seq<char>)
    requires
        is_blank(space),
        rest.len() > 0 ==> !is_white_space(rest.last()),
    ensures
        without_trailing_space(rest + space) == rest,
    decreases space.len(),
{
    let whole = rest + space;
    if space.len() == 0 {
        assert(whole =~= rest);
    } else {
        assert(whole.last() == space.last());
        assert(whole.drop_last() =~= rest + space.drop_last());
        lemma_trailing_space(rest, space.drop_last());
    }
}

/// Trimming takes away the white space at both ends, all of it, and nothing
/// between, however long the text.
pub proof fn law_trimming(before: Seq<char>, core: Seq<char>, after: Seq<char>)
    requires
        is_blank(before),
        is_tight(core),
        is_blank(after),
    ensures
        trimmed(before + core + after) == core,
{
    if core.len() == 0 {
        assert(before + core + after =~= (before + after) + core);
        lemma_leading_space(before + after, core);
        lemma_trailing_space(core, Seq::empty());
        assert(core + Seq::<char>::empty() =~= core);
    } else {
        assert(before + core + after =~= before + (core + after));
        assert((core + after)[0] == core[0]);
        lemma_leading_space(before, core + after);
        lemma_trailing_space(core, after);
    }
}

/// Counting backslashes as slashes changes the backslashes and leaves every
/// other character where it is.
pub proof fn law_only_backslashes_change(text: Seq<char>)
    ensures
        with_slashes(text).len() == text.len(),
        forall|i: int|
            0 <= i < text.len() ==> #[trigger] with_slashes(text)[i] == if text[i] == '\\' {
                '/'
            } else {
                text[i]
            },
        (forall|i: int| 0 <= i < text.len() ==> #[trigger] text[i] != '\\')
            ==> with_slashes(text) == text,
{
    if forall|i: int| 0 <= i < text.len() ==> #[trigger] text[i] != '\\' {
        assert(with_slashes(text) =~= text);
    }
}

/// Whether `part` stands in `text`: something before it, something after it.
pub open spec fn contains_text(text: Seq<char>, part: Seq<char>) -> bool {
    exists|before: Seq<char>, after: Seq<char>| text == #[trigger] (before + part + after)
}

pub(crate) proof fn lemma_contains_text(text: Seq<char>, part: Seq<char>)
    ensures
        contains_text(text, part) <==> occurs(text, part),
{
    if contains_text(text, part) {
        let (before, after) = choose|before: Seq<char>, after: Seq<char>|
            text == #[trigger] (before + part + after);
        lemma_occurs_between(before, part, after);
    }
    if occurs(text, part) {
        let i = choose|i: int| occurs_at(text, part, i);
        lemma_splits_at(text, part, i);
        assert(text == text.take(i) + part + text.skip(i + part.len()));
    }
}

pub(crate) proof fn lemma_occurs_between(before: Seq<char>, part: Seq<char>, after: Seq<char>)
    ensures
        occurs_at(before + part + after, part, before.len() as int),
        occurs(before + part + after, part),
{
    let i = before.len() as int;
    assert((before + part + after).subrange(i, i + part.len()) =~= part);
    assert(occurs_at(before + part + after, part, i));
}

pub(crate) proof fn lemma_splits_at(text: Seq<char>, part: Seq<char>, i: int)
    requires
        occurs_at(text, part, i),
    ensures
        text == text.take(i) + part + text.skip(i + part.len()),
{
    let whole = text.take(i) + part + text.skip(i + part.len());
    assert forall|j: int| 0 <= j < text.len() implies text[j] == whole[j] by {
        if i <= j < i + part.len() {
            assert(text.subrange(i, i + part.len())[j - i] == text[j]);
        }
    }
    assert(text =~= whole);
}

/// Nothing to the left of the leftmost position ends where the part begins.
pub(crate) proof fn lemma_leftmost_split(
    text: Seq<char>,
    part: Seq<char>,
    i: int,
    before: Seq<char>,
    after: Seq<char>,
)
    requires
        occurs_first_at(text, part, i),
        text == before + part + after,
    ensures
        i <= before.len(),
{
    lemma_occurs_between(before, part, after);
}

// Bytes and text.

/// The text of a path that a text spells is that text.
pub proof fn law_text_of_spelled_path(text: Seq<char>)
    ensures
        text_of(encode_utf8(text)) == text,
{
    encode_utf8_valid_utf8(text);
    encode_utf8_decode_utf8(text);
}

/// Valid UTF-8 is kept as it is; what other bytes become is a matter of the
/// lossy decoding alone.
pub proof fn law_text_of_bytes(bytes: Seq<u8>)
    ensures
        valid_utf8(bytes) ==> encode_utf8(text_of(bytes)) == bytes,
        !valid_utf8(bytes) ==> text_of(bytes) == utf8_lossy(bytes),
{
    if valid_utf8(bytes) {
        decode_utf8_encode_utf8(bytes);
    }
}

pub(crate) proof fn lemma_encode_concat(a: Seq<char>, b: Seq<char>)
    ensures
        encode_utf8(a + b) == encode_utf8(a) + encode_utf8(b),
    decreases a.len(),
{
    if a.len() == 0 {
        assert(a + b =~= b);
        assert(encode_utf8(a) + encode_utf8(b) =~= encode_utf8(b));
    } else {
        lemma_encode_concat(a.drop_first(), b);
        assert((a + b).drop_first() =~= a.drop_first() + b);
        assert(encode_utf8(a + b) =~= encode_utf8(a) + encode_utf8(b));
    }
}

/// A separator ends a segment.
pub(crate) proof fn lemma_segments_concat(a: Seq<u8>, b: Seq<u8>)
    ensures
        segments(a.push(SEPARATOR) + b) == segments(a) + segments(b),
    decreases b.len(),
{
    let whole = a.push(SEPARATOR) + b;
    if b.len() == 0 {
        assert(whole =~= a.push(SEPARATOR));
        assert(whole.drop_last() =~= a);
        assert(segments(whole) =~= segments(a) + segments(b));
    } else {
        lemma_segments_concat(a, b.drop_last());
        lemma_segments_nonempty(b.drop_last());
        assert(whole.drop_last() =~= a.push(SEPARATOR) + b.drop_last());
        assert(segments(whole) =~= segments(a) + segments(b));
    }
}

/// What stands before a separator is a directory that the whole lies under.
pub(crate) proof fn lemma_lies_under_prefix(base: Seq<u8>, rest: Seq<u8>)
    requires
        base.len() > 0,
    ensures
        lies_under(base.push(SEPARATOR) + rest, base),
{
    let path = base.push(SEPARATOR) + rest;
    let named = |segment: Seq<u8>| is_named(segment);
    lemma_segments_concat(base, rest);
    lemma_segments_nonempty(base);
    assert(path[0] == base[0]);
    assert(segments(path)[0] == segments(base)[0]);
    assert(anchor(path) == anchor(base));
    Seq::filter_distributes_over_add(segments(base), segments(rest), named);
    assert(components(path) =~= components(base) + segments(rest).filter(named));
    assert(components(base) =~= components(path).subrange(0, components(base).len() as int));
}

// Components.

/// Whether bytes name something in a directory: they are not empty, hold no
/// slash, and are not `.`.
pub open spec fn is_name(bytes: Seq<u8>) -> bool {
    &&& bytes.len() > 0
    &&& forall|i: int| 0 <= i < bytes.len() ==> #[trigger] bytes[i] != 0x2f
    &&& bytes != seq![0x2eu8]
}

proof fn lemma_one_segment(bytes: Seq<u8>)
    requires
        forall|i: int| 0 <= i < bytes.len() ==> #[trigger] bytes[i] != 0x2f,
    ensures
        segments(bytes) == seq![bytes],
    decreases bytes.len(),
{
    if bytes.len() > 0 {
        lemma_one_segment(bytes.drop_last());
        assert(bytes.drop_last().push(bytes.last()) =~= bytes);
        assert(segments(bytes) =~= seq![bytes]);
    } else {
        assert(bytes =~= Seq::<u8>::empty());
    }
}

proof fn lemma_filter_one(segment: Seq<u8>)
    ensures
        seq![segment].filter(|s: Seq<u8>| is_named(s)) == if is_named(segment) {
            seq![segment]
        } else {
            Seq::<Seq<u8>>::empty()
        },
{
    let named = |s: Seq<u8>| is_named(s);
    reveal_with_fuel(Seq::filter, 2);
    assert(seq![segment].drop_last() =~= Seq::<Seq<u8>>::empty());
    assert(seq![segment].filter(named) =~= if is_named(segment) {
        seq![segment]
    } else {
        Seq::<Seq<u8>>::empty()
    });
}

/// What one more segment, set off by a slash, adds to the components.
proof fn lemma_one_more_segment(base: Seq<u8>, segment: Seq<u8>)
    requires
        base.len() > 0,
        forall|i: int| 0 <= i < segment.len() ==> #[trigger] segment[i] != 0x2f,
    ensures
        components(base.push(SEPARATOR) + segment) == if is_named(segment) {
            components(base).push(segment)
        } else {
            components(base)
        },
{
    let path = base.push(SEPARATOR) + segment;
    let named = |s: Seq<u8>| is_named(s);
    lemma_segments_concat(base, segment);
    lemma_segments_nonempty(base);
    lemma_one_segment(segment);
    lemma_filter_one(segment);
    assert(path[0] == base[0]);
    assert(segments(path)[0] == segments(base)[0]);
    assert(anchor(path) == anchor(base));
    Seq::filter_distributes_over_add(segments(base), segments(segment), named);
    assert(components(path) =~= if is_named(segment) {
        components(base).push(segment)
    } else {
        components(base)
    });
}

/// A name behind a slash is one more component, the last.
pub proof fn law_name_adds_component(base: Seq<u8>, name: Seq<u8>)
    requires
        base.len() > 0,
        is_name(name),
    ensures
        components(base.push(0x2f) + name) == components(base).push(name),
{
    lemma_one_more_segment(base, name);
}

/// A slash at the end, a repeated slash, and `.` behind a slash add nothing.
pub proof fn law_slash_and_dot_add_nothing(base: Seq<u8>)
    requires
        base.len() > 0,
    ensures
        components(base.push(0x2f)) == components(base),
        components(base.push(0x2f).push(0x2e)) == components(base),
{
    lemma_one_more_segment(base, Seq::empty());
    assert(base.push(SEPARATOR) + Seq::<u8>::empty() =~= base.push(0x2f));
    lemma_one_more_segment(base, seq![0x2eu8]);
    assert(base.push(SEPARATOR) + seq![0x2eu8] =~= base.push(0x2f).push(0x2e));
}

/// What a path begins with: the root is a component of its own, a relative path
/// begins with its first name, and `.` counts only as all there is so far.
pub proof fn law_first_components(name: Seq<u8>)
    requires
        is_name(name),
    ensures
        components(Seq::<u8>::empty()) == Seq::<Seq<u8>>::empty(),
        components(seq![0x2eu8]) == seq![seq![0x2eu8]],
        components(name) == seq![name],
        components(seq![0x2fu8]) == seq![seq![0x2fu8]],
        components(seq![0x2fu8, 0x2eu8]) == seq![seq![0x2fu8]],
        components(seq![0x2fu8] + name) == seq![seq![0x2fu8], name],
{
    let nothing = Seq::<u8>::empty();
    let dot = seq![0x2eu8];
    let named = |s: Seq<u8>| is_named(s);
    assert(nothing != dot) by {
        assert(nothing.len() != dot.len());
    }
    lemma_filter_one(nothing);
    lemma_filter_one(dot);
    lemma_filter_one(name);
    lemma_one_segment(nothing);
    lemma_one_segment(dot);
    lemma_one_segment(name);
    assert(components(nothing) =~= Seq::<Seq<u8>>::empty());
    assert(components(dot) =~= seq![dot]);
    assert(components(name) =~= seq![name]);

    lemma_segments_concat(nothing, nothing);
    assert(nothing.push(SEPARATOR) + nothing =~= seq![0x2fu8]);
    Seq::filter_distributes_over_add(segments(nothing), segments(nothing), named);
    assert(components(seq![0x2fu8]) =~= seq![seq![0x2fu8]]);

    lemma_segments_concat(nothing, dot);
    assert(nothing.push(SEPARATOR) + dot =~= seq![0x2fu8, 0x2eu8]);
    Seq::filter_distributes_over_add(segments(nothing), segments(dot), named);
    assert(components(seq![0x2fu8, 0x2eu8]) =~= seq![seq![0x2fu8]]);

    lemma_segments_concat(nothing, name);
    assert(nothing.push(SEPARATOR) + name =~= seq![0x2fu8] + name);
    Seq::filter_distributes_over_add(segments(nothing), segments(name), named);
    assert(components(seq![0x2fu8] + name) =~= seq![seq![0x2fu8], name]);
}

// One path under another.

/// A path lies under a base exactly if its components are those of the base,
/// every one of them, followed by some more or by none.
pub proof fn law_lies_under(path: Seq<u8>, base: Seq<u8>)
    ensures
        lies_under(path, base) <==> exists|rest: Seq<Seq<u8>>|
            components(path) == #[trigger] (components(base) + rest),
{
    let whole = components(path);
    let part = components(base);
    if lies_under(path, base) {
        let rest = whole.skip(part.len() as int);
        assert forall|i: int| 0 <= i < part.len() implies whole[i] == part[i] by {
            assert(whole.subrange(0, part.len() as int)[i] == part[i]);
        }
        assert(whole =~= part + rest);
    }
    if exists|rest: Seq<Seq<u8>>| whole == #[trigger] (part + rest) {
        let rest = choose|rest: Seq<Seq<u8>>| whole == #[trigger] (part + rest);
        assert(part =~= whole.subrange(0, part.len() as int));
    }
}

/// A path that differs from a base in one component of the base, or is shorter
/// than it, does not lie under it.
pub proof fn law_lookalike_does_not_lie_under(path: Seq<u8>, base: Seq<u8>, i: int)
    requires
        0 <= i < components(base).len(),
        i < components(path).len() ==> components(path)[i] != components(base)[i],
    ensures
        !lies_under(path, base),
{
    if lies_under(path, base) {
        law_lies_under(path, base);
        let rest = choose|rest: Seq<Seq<u8>>| components(path) == #[trigger] (components(base) + rest);
        assert((components(base) + rest)[i] == components(base)[i]);
    }
}

/// A path lies under itself, and under whatever a directory above it lies
/// under.
pub proof fn law_lies_under_is_an_order(path: Seq<u8>, middle: Seq<u8>, base: Seq<u8>)
    ensures
        lies_under(path, path),
        lies_under(path, middle) && lies_under(middle, base) ==> lies_under(path, base),
{
    law_lies_under(path, path);
    assert(components(path) =~= components(path) + Seq::<Seq<u8>>::empty());
    if lies_under(path, middle) && lies_under(middle, base) {
        law_lies_under(path, middle);
        law_lies_under(middle, base);
        law_lies_under(path, base);
        let lower = choose|rest: Seq<Seq<u8>>|
            components(path) == #[trigger] (components(middle) + rest);
        let upper = choose|rest: Seq<Seq<u8>>|
            components(middle) == #[trigger] (components(base) + rest);
        assert(components(path) =~= components(base) + (upper + lower));
    }
}

/// Joining puts exactly one slash between a directory and what is in it; an
/// absolute path stands alone.
pub proof fn law_joining(base: Seq<u8>, rest: Seq<u8>)
    ensures
        rest.len() > 0 && rest[0] == 0x2f ==> joined(base, rest) == rest,
        rest.len() == 0 || rest[0] != 0x2f ==> {
            &&& base.len() == 0 ==> joined(base, rest) == rest
            &&& base.len() > 0 && base.last() == 0x2f ==> joined(base, rest) == base + rest
            &&& base.len() > 0 && base.last() != 0x2f ==> joined(base, rest) == base + seq![0x2fu8]
                + rest
        },
{
    assert(Seq::<u8>::empty() + rest =~= rest);
    if base.len() == 0 {
        assert(base + rest =~= rest);
    }
    assert(base.push(SEPARATOR) + rest =~= base + seq![0x2fu8] + rest);
}

} // verus!
