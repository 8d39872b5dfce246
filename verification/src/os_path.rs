//! Paths as the operating system sees them: bytes, separated by slashes, not
//! always valid UTF-8.

use vstd::prelude::*;
use vstd::slice::slice_to_vec;
use vstd::utf8::{decode_utf8, encode_utf8, valid_utf8};

verus! {

/// The byte that separates the components of a path.
pub const SEPARATOR: u8 = 0x2f;

/// The only byte of the component `.`.
pub const DOT: u8 = 0x2e;

/// A path, as its bytes. Where the paths of a platform are not bytes, it holds
/// their text.
#[derive(Debug, PartialEq, Eq)]
pub struct OsPath {
    bytes: Vec<u8>,
}

impl View for OsPath {
    type V = Seq<u8>;

    closed spec fn view(&self) -> Seq<u8> {
        self.bytes@
    }
}

impl Clone for OsPath {
    fn clone(&self) -> (path: OsPath)
        ensures
            path@ == self@,
    {
        OsPath { bytes: slice_to_vec(self.bytes.as_slice()) }
    }
}

/// What `String::from_utf8_lossy` makes of bytes.
pub uninterp spec fn utf8_lossy(bytes: Seq<u8>) -> Seq<char>;

/// `String::from_utf8_lossy` decodes valid UTF-8 as it stands. Of other bytes
/// it makes a text that depends on nothing but these bytes, with replacement
/// characters for what is not valid; where they fall is not stated.
#[verifier::external_body]
fn from_utf8_lossy(bytes: &[u8]) -> (text: String)
    ensures
        text@ == utf8_lossy(bytes@),
        valid_utf8(bytes@) ==> text@ == decode_utf8(bytes@),
{
    String::from_utf8_lossy(bytes).into_owned()
}

/// The text of a path: its bytes decoded, with replacement characters where
/// they are not valid UTF-8.
pub open spec fn text_of(bytes: Seq<u8>) -> Seq<char> {
    if valid_utf8(bytes) {
        decode_utf8(bytes)
    } else {
        utf8_lossy(bytes)
    }
}

/// The bytes decoded, with replacement characters where they are not valid
/// UTF-8.
pub fn decode_lossy(bytes: &[u8]) -> (text: String)
    ensures
        text@ == text_of(bytes@),
{
    from_utf8_lossy(bytes)
}

/// `base` followed by `rest`: an absolute `rest` stands alone, any other is
/// set off by exactly one separator unless `base` is empty or ends in one.
pub open spec fn joined(base: Seq<u8>, rest: Seq<u8>) -> Seq<u8> {
    if rest.len() > 0 && rest[0] == SEPARATOR {
        rest
    } else if base.len() == 0 || base.last() == SEPARATOR {
        base + rest
    } else {
        base.push(SEPARATOR) + rest
    }
}

/// The stretches of `bytes` between separators, empty ones among them.
pub open spec fn segments(bytes: Seq<u8>) -> Seq<Seq<u8>>
    decreases bytes.len(),
{
    if bytes.len() == 0 {
        seq![Seq::<u8>::empty()]
    } else {
        let before = segments(bytes.drop_last());
        if bytes.last() == SEPARATOR {
            before.push(Seq::<u8>::empty())
        } else {
            before.drop_last().push(before.last().push(bytes.last()))
        }
    }
}

/// Whether a segment names something: an empty one and `.` do not.
pub open spec fn is_named(segment: Seq<u8>) -> bool {
    segment.len() > 0 && segment != seq![DOT]
}

/// What a path begins with: the root of an absolute path, `.` where a relative
/// path begins with it, otherwise nothing.
pub open spec fn anchor(bytes: Seq<u8>) -> Seq<Seq<u8>> {
    if bytes.len() > 0 && bytes[0] == SEPARATOR {
        seq![seq![SEPARATOR]]
    } else if segments(bytes)[0] == seq![DOT] {
        seq![seq![DOT]]
    } else {
        Seq::<Seq<u8>>::empty()
    }
}

/// The components of a path: its anchor, then the segments that name
/// something. Repeated and trailing separators do not count, nor does `.`
/// after the beginning; `..` is a component like any other.
pub open spec fn components(bytes: Seq<u8>) -> Seq<Seq<u8>> {
    anchor(bytes) + segments(bytes).filter(|segment: Seq<u8>| is_named(segment))
}

/// Whether `path` is `base` or lies under it, component by component.
pub open spec fn lies_under(path: Seq<u8>, base: Seq<u8>) -> bool {
    components(base).is_prefix_of(components(path))
}

/// The bytes of each part of a path.
pub open spec fn parts(list: Seq<Vec<u8>>) -> Seq<Seq<u8>> {
    list.map_values(|part: Vec<u8>| part@)
}

/// The stretches of `bytes` between separators.
fn split(bytes: &Vec<u8>) -> (list: Vec<Vec<u8>>)
    ensures
        parts(list@) == segments(bytes@),
{
    let mut list: Vec<Vec<u8>> = Vec::new();
    let mut current: Vec<u8> = Vec::new();
    assert(parts(list@).push(current@) =~= segments(bytes@.take(0)));
    for i in 0..bytes.len()
        invariant
            parts(list@).push(current@) == segments(bytes@.take(i as int)),
    {
        let ghost before = parts(list@);
        let ghost seen = bytes@.take(i + 1);
        assert(seen.drop_last() =~= bytes@.take(i as int));
        let byte: u8 = bytes[i];
        if byte == SEPARATOR {
            list.push(current);
            current = Vec::new();
            assert(parts(list@) =~= segments(seen.drop_last()));
        } else {
            assert(segments(seen.drop_last()).drop_last() =~= before);
            current.push(byte);
        }
    }
    assert(bytes@.take(bytes@.len() as int) =~= bytes@);
    list.push(current);
    assert(parts(list@) =~= segments(bytes@));
    list
}

/// Whether two stretches of bytes are the same.
fn same_bytes(a: &Vec<u8>, b: &Vec<u8>) -> (same: bool)
    ensures
        same == (a@ == b@),
{
    if a.len() != b.len() {
        return false;
    }
    for i in 0..a.len()
        invariant
            a@.len() == b@.len(),
            forall|j: int| 0 <= j < i ==> a@[j] == b@[j],
    {
        if a[i] != b[i] {
            return false;
        }
    }
    assert(a@ =~= b@);
    true
}

/// There is a segment in any bytes, an empty one at least.
pub proof fn lemma_segments_nonempty(bytes: Seq<u8>)
    ensures
        segments(bytes).len() > 0,
    decreases bytes.len(),
{
    if bytes.len() > 0 {
        lemma_segments_nonempty(bytes.drop_last());
    }
}

impl OsPath {
    /// The path with these bytes.
    pub fn from_bytes(bytes: Vec<u8>) -> (path: OsPath)
        ensures
            path@ == bytes@,
    {
        OsPath { bytes }
    }

    /// The path that a text spells.
    pub fn from_text(text: &str) -> (path: OsPath)
        ensures
            path@ == encode_utf8(text@),
    {
        OsPath { bytes: slice_to_vec(text.as_bytes()) }
    }

    /// The bytes of the path.
    pub fn as_bytes(&self) -> (bytes: &[u8])
        ensures
            bytes@ == self@,
    {
        self.bytes.as_slice()
    }

    /// The text of the path, with replacement characters where its bytes are
    /// not valid UTF-8.
    pub fn to_string_lossy(&self) -> (text: String)
        ensures
            text@ == text_of(self@),
    {
        decode_lossy(self.bytes.as_slice())
    }

    /// The path with `rest` behind it, set off by a slash.
    pub fn join(&self, rest: &str) -> (path: OsPath)
        ensures
            path@ == joined(self@, encode_utf8(rest@)),
    {
        let tail = rest.as_bytes();
        if tail.len() > 0 && tail[0] == SEPARATOR {
            return OsPath { bytes: slice_to_vec(tail) };
        }
        let mut bytes: Vec<u8> = slice_to_vec(self.bytes.as_slice());
        if bytes.len() > 0 && bytes[bytes.len() - 1] != SEPARATOR {
            bytes.push(SEPARATOR);
        }
        bytes.extend_from_slice(tail);
        assert(bytes@ =~= joined(self@, encode_utf8(rest@)));
        OsPath { bytes }
    }

    /// The components of the path.
    pub fn components(&self) -> (list: Vec<Vec<u8>>)
        ensures
            parts(list@) == components(self@),
    {
        let pieces = split(&self.bytes);
        let mut dot: Vec<u8> = Vec::new();
        dot.push(DOT);
        assert(dot@ =~= seq![DOT]);
        let mut list: Vec<Vec<u8>> = Vec::new();
        proof {
            lemma_segments_nonempty(self@);
            assert(pieces@.len() == parts(pieces@).len());
            assert(parts(pieces@)[0] == pieces@[0]@);
        }
        if self.bytes.len() > 0 && self.bytes[0] == SEPARATOR {
            let mut root: Vec<u8> = Vec::new();
            root.push(SEPARATOR);
            assert(root@ =~= seq![SEPARATOR]);
            list.push(root);
        } else if same_bytes(&pieces[0], &dot) {
            list.push(slice_to_vec(dot.as_slice()));
        }
        assert(parts(list@) =~= anchor(self@));
        let ghost named = |segment: Seq<u8>| is_named(segment);
        let ghost all = segments(self@);
        assert(all.take(0).filter(named) =~= Seq::<Seq<u8>>::empty()) by {
            reveal(Seq::filter);
        }
        for i in 0..pieces.len()
            invariant
                dot@ == seq![DOT],
                parts(pieces@) == all,
                named == (|segment: Seq<u8>| is_named(segment)),
                parts(list@) == anchor(self@) + all.take(i as int).filter(named),
        {
            let ghost before = parts(list@);
            assert(all[i as int] == pieces@[i as int]@);
            assert(all.take(i + 1) =~= all.take(i as int).push(all[i as int]));
            assert(all.take(i + 1).drop_last() =~= all.take(i as int));
            assert(all.take(i + 1).filter(named) == if named(all[i as int]) {
                all.take(i as int).filter(named).push(all[i as int])
            } else {
                all.take(i as int).filter(named)
            }) by {
                reveal(Seq::filter);
            }
            if pieces[i].len() > 0 && !same_bytes(&pieces[i], &dot) {
                list.push(slice_to_vec(pieces[i].as_slice()));
                assert(parts(list@) =~= before.push(all[i as int]));
                assert(named(all[i as int]));
            }
            assert(parts(list@) =~= anchor(self@) + all.take(i + 1).filter(named));
        }
        assert(all.take(all.len() as int) =~= all);
        list
    }

    /// Whether the path is `base` or lies under it, component by component.
    pub fn starts_with(&self, base: &OsPath) -> (under: bool)
        ensures
            under == lies_under(self@, base@),
    {
        let list = self.components();
        let wanted = base.components();
        assert(list@.len() == components(self@).len());
        assert(wanted@.len() == components(base@).len());
        if list.len() < wanted.len() {
            return false;
        }
        for i in 0..wanted.len()
            invariant
                wanted@.len() <= list@.len(),
                parts(list@) == components(self@),
                parts(wanted@) == components(base@),
                forall|j: int| 0 <= j < i ==> components(base@)[j] == components(self@)[j],
        {
            assert(components(base@)[i as int] == wanted@[i as int]@);
            assert(components(self@)[i as int] == list@[i as int]@);
            if !same_bytes(&list[i], &wanted[i]) {
                assert(components(self@).subrange(0, wanted@.len() as int)[i as int] == list@[i as int]@);
                return false;
            }
        }
        assert(components(base@) =~= components(self@).subrange(0, wanted@.len() as int));
        true
    }
}

} // verus!
