//! Text as a sequence of characters: trimming, searching, rewriting.

use vstd::prelude::*;

verus! {

/// Whether `c` has the Unicode property White_Space.
pub open spec fn is_white_space(c: char) -> bool {
    ||| '\u{9}' <= c <= '\u{d}'
    ||| c == '\u{20}'
    ||| c == '\u{85}'
    ||| c == '\u{a0}'
    ||| c == '\u{1680}'
    ||| '\u{2000}' <= c <= '\u{200a}'
    ||| c == '\u{2028}'
    ||| c == '\u{2029}'
    ||| c == '\u{202f}'
    ||| c == '\u{205f}'
    ||| c == '\u{3000}'
}

/// `s` without the white space at its start.
pub open spec fn without_leading_space(s: Seq<char>) -> Seq<char>
    decreases s.len(),
{
    if s.len() > 0 && is_white_space(s[0]) {
        without_leading_space(s.drop_first())
    } else {
        s
    }
}

/// `s` without the white space at its end.
pub open spec fn without_trailing_space(s: Seq<char>) -> Seq<char>
    decreases s.len(),
{
    if s.len() > 0 && is_white_space(s.last()) {
        without_trailing_space(s.drop_last())
    } else {
        s
    }
}

/// `s` without the white space at both ends.
pub open spec fn trimmed(s: Seq<char>) -> Seq<char> {
    without_trailing_space(without_leading_space(s))
}

/// `str::trim` cuts off every leading and every trailing character that has
/// the property White_Space, and nothing else.
pub assume_specification[ str::trim ](s: &str) -> (res: &str)
    ensures
        res@ == trimmed(s@),
;

/// `String::push` appends one character.
pub assume_specification[ String::push ](s: &mut String, c: char)
    ensures
        final(s)@ == old(s)@.push(c),
;

/// Whether `pattern` stands in `text` at position `i`.
pub open spec fn occurs_at(text: Seq<char>, pattern: Seq<char>, i: int) -> bool {
    &&& 0 <= i <= text.len() - pattern.len()
    &&& text.subrange(i, i + pattern.len()) == pattern
}

/// Whether `pattern` stands somewhere in `text`.
pub open spec fn occurs(text: Seq<char>, pattern: Seq<char>) -> bool {
    exists|i: int| occurs_at(text, pattern, i)
}

/// Whether `i` is the leftmost position at which `pattern` stands in `text`.
pub open spec fn occurs_first_at(text: Seq<char>, pattern: Seq<char>, i: int) -> bool {
    &&& occurs_at(text, pattern, i)
    &&& forall|j: int| 0 <= j < i ==> !occurs_at(text, pattern, j)
}

/// The leftmost position of `pattern` in `text`, if it stands there at all.
pub open spec fn position(text: Seq<char>, pattern: Seq<char>) -> Option<int> {
    if occurs(text, pattern) {
        Some(choose|i: int| occurs_first_at(text, pattern, i))
    } else {
        None
    }
}

/// `text` with every backslash turned into a slash.
pub open spec fn with_slashes(text: Seq<char>) -> Seq<char> {
    text.map_values(
        |c: char|
            if c == '\\' {
                '/'
            } else {
                c
            },
    )
}

/// The characters of a string.
pub(crate) fn chars_of(s: &str) -> (chars: Vec<char>)
    ensures
        chars@ == s@,
{
    let mut chars: Vec<char> = Vec::new();
    for c in iter: s.chars()
        invariant
            iter.seq() == s@,
            chars@ == s@.take(iter.index() as int),
    {
        chars.push(c);
    }
    chars
}

/// The first `end` characters of `chars`, as a string.
pub(crate) fn prefix_string(chars: &Vec<char>, end: usize) -> (s: String)
    requires
        end <= chars@.len(),
    ensures
        s@ == chars@.take(end as int),
{
    let mut s = String::new();
    for i in 0..end
        invariant
            end <= chars@.len(),
            s@ == chars@.take(i as int),
    {
        s.push(chars[i]);
    }
    s
}

/// `text` with every backslash turned into a slash.
pub(crate) fn slashed(text: &str) -> (s: String)
    ensures
        s@ == with_slashes(text@),
{
    let mut s = String::new();
    for c in iter: text.chars()
        invariant
            iter.seq() == text@,
            s@ == with_slashes(text@).take(iter.index() as int),
    {
        if c == '\\' {
            s.push('/');
        } else {
            s.push(c);
        }
    }
    s
}

/// Whether `pattern` stands in `text` at position `i`.
fn stands_at(text: &Vec<char>, pattern: &Vec<char>, i: usize) -> (found: bool)
    requires
        i + pattern@.len() <= text@.len(),
    ensures
        found == occurs_at(text@, pattern@, i as int),
{
    let ghost window = text@.subrange(i as int, i + pattern@.len());
    let len: usize = text.len();
    for k in 0..pattern.len()
        invariant
            len == text@.len(),
            i + pattern@.len() <= len,
            window == text@.subrange(i as int, i + pattern@.len()),
            forall|m: int| 0 <= m < k ==> window[m] == pattern@[m],
    {
        if text[i + k] != pattern[k] {
            assert(window[k as int] != pattern@[k as int]);
            return false;
        }
    }
    assert(window =~= pattern@);
    true
}

/// The leftmost position of `pattern` in `text`.
pub(crate) fn find(text: &Vec<char>, pattern: &Vec<char>) -> (found: Option<usize>)
    ensures
        match found {
            Some(i) => position(text@, pattern@) == Some(i as int),
            None => position(text@, pattern@) is None,
        },
{
    if text.len() < pattern.len() {
        return None;
    }
    let last: usize = text.len() - pattern.len();
    for i in 0..last
        invariant
            last == text@.len() - pattern@.len(),
            forall|j: int| 0 <= j < i ==> !occurs_at(text@, pattern@, j),
    {
        if stands_at(text, pattern, i) {
            proof {
                lemma_position(text@, pattern@, i as int);
            }
            return Some(i);
        }
    }
    if stands_at(text, pattern, last) {
        proof {
            lemma_position(text@, pattern@, last as int);
        }
        return Some(last);
    }
    None
}

/// The leftmost position is the only one with nothing to its left.
pub proof fn lemma_position(text: Seq<char>, pattern: Seq<char>, i: int)
    requires
        occurs_first_at(text, pattern, i),
    ensures
        position(text, pattern) == Some(i),
{
    let k = choose|k: int| occurs_first_at(text, pattern, k);
    assert(occurs_first_at(text, pattern, k));
    assert(k == i);
}

/// A pattern that stands in a text has a leftmost position there.
pub proof fn lemma_position_exists(text: Seq<char>, pattern: Seq<char>)
    requires
        occurs(text, pattern),
    ensures
        position(text, pattern) matches Some(i) && occurs_first_at(text, pattern, i),
{
    let i = choose|i: int| occurs_at(text, pattern, i);
    lemma_leftmost(text, pattern, i);
}

proof fn lemma_leftmost(text: Seq<char>, pattern: Seq<char>, i: int)
    requires
        occurs_at(text, pattern, i),
    ensures
        exists|k: int| occurs_first_at(text, pattern, k),
    decreases i,
{
    if exists|j: int| 0 <= j < i && occurs_at(text, pattern, j) {
        let j = choose|j: int| 0 <= j < i && occurs_at(text, pattern, j);
        lemma_leftmost(text, pattern, j);
    } else {
        assert(occurs_first_at(text, pattern, i));
    }
}

} // verus!
