//! Slash-delimited paths and their segments.
use core::cmp::Ordering;
use vstd::prelude::*;
use vstd::std_specs::cmp::{PartialEqSpec, PartialEqSpecImpl, PartialOrdSpec, PartialOrdSpecImpl};
use vstd::std_specs::convert::FromSpecImpl;
use vstd::utf8::{encode_utf8, encode_utf8_decode_utf8};

verus! {

/// The character that separates the segments of a path.
pub const SEPARATOR: char = '/';

/// Number of characters of `s` in front of its first separator: the index of
/// that separator, or the length of `s` when it holds none.
pub open spec fn first_separator(s: Seq<char>) -> nat
    decreases s.len(),
{
    if s.len() == 0 || s[0] == SEPARATOR {
        0
    } else {
        1 + first_separator(s.drop_first())
    }
}

/// The segments of `s`: its maximal runs of characters other than the
/// separator, in the order in which they occur. Empty runs (a leading or a
/// trailing separator, two separators in a row) give no segment.
pub open spec fn segments(s: Seq<char>) -> Seq<Seq<char>>
    decreases s.len(),
{
    if s.len() == 0 {
        Seq::empty()
    } else {
        let k = first_separator(s) as int;
        let rest = if k < s.len() {
            segments(s.skip(k + 1))
        } else {
            Seq::empty()
        };
        if k > 0 {
            seq![s.take(k)] + rest
        } else {
            rest
        }
    }
}

/// A segment is a non-empty run of characters that holds no separator.
pub open spec fn is_segment(w: Seq<char>) -> bool {
    w.len() > 0 && !w.contains(SEPARATOR)
}

/// What `first_separator` finds: it lies within `s`, no separator stands in
/// front of it, and where it is not the end of `s` a separator stands at it.
pub proof fn lemma_first_separator(s: Seq<char>)
    ensures
        first_separator(s) <= s.len(),
        forall|i: int| 0 <= i < first_separator(s) ==> s[i] != SEPARATOR,
        first_separator(s) < s.len() ==> s[first_separator(s) as int] == SEPARATOR,
    decreases s.len(),
{
    if s.len() == 0 || s[0] == SEPARATOR {
    } else {
        let t = s.drop_first();
        lemma_first_separator(t);
        assert forall|i: int| 0 <= i < first_separator(s) implies s[i] != SEPARATOR by {
            if i > 0 {
                assert(s[i] == t[i - 1]);
            }
        }
        assert(first_separator(s) < s.len() ==> s[first_separator(s) as int] == t[first_separator(
            t,
        ) as int]);
    }
}

/// An index that lies within `s`, with no separator in front of it and a
/// separator at it unless it is the end of `s`, is what `first_separator`
/// finds.
pub proof fn lemma_first_separator_is(s: Seq<char>, k: int)
    requires
        0 <= k <= s.len(),
        forall|i: int| 0 <= i < k ==> s[i] != SEPARATOR,
        k < s.len() ==> s[k] == SEPARATOR,
    ensures
        first_separator(s) == k,
{
    lemma_first_separator(s);
    let f = first_separator(s) as int;
    if f < k {
        assert(s[f] == SEPARATOR);
    } else if k < f {
        assert(s[k] != SEPARATOR);
    }
}

/// Where the first separator of `s` stands at `k`, the segments of `s` are the
/// run in front of it, if it is not empty, and then the segments of what
/// follows the separator.
pub proof fn lemma_segments_at_separator(s: Seq<char>, k: int)
    requires
        0 <= k < s.len(),
        forall|i: int| 0 <= i < k ==> s[i] != SEPARATOR,
        s[k] == SEPARATOR,
    ensures
        segments(s) == if k > 0 {
            seq![s.take(k)] + segments(s.skip(k + 1))
        } else {
            segments(s.skip(k + 1))
        },
{
    lemma_first_separator_is(s, k);
}

/// A sequence without a separator is its own single segment, or has none
/// when it is empty.
pub proof fn lemma_segments_without_separator(s: Seq<char>)
    requires
        !s.contains(SEPARATOR),
    ensures
        segments(s) == if s.len() > 0 {
            seq![s]
        } else {
            Seq::<Seq<char>>::empty()
        },
{
    if s.len() > 0 {
        assert forall|i: int| 0 <= i < s.len() implies s[i] != SEPARATOR by {
            assert(s.contains(s[i]));
        }
        lemma_first_separator_is(s, s.len() as int);
        assert(s.take(s.len() as int) == s);
        assert(seq![s] + Seq::<Seq<char>>::empty() == seq![s]);
    }
}

/// Every segment of a sequence is non-empty and holds no separator.
pub proof fn lemma_segments_are_segments(s: Seq<char>)
    ensures
        forall|i: int| 0 <= i < segments(s).len() ==> is_segment(#[trigger] segments(s)[i]),
    decreases s.len(),
{
    if s.len() > 0 {
        lemma_first_separator(s);
        let k = first_separator(s) as int;
        let head = s.take(k);
        if k < s.len() {
            lemma_segments_are_segments(s.skip(k + 1));
        }
        let rest = if k < s.len() {
            segments(s.skip(k + 1))
        } else {
            Seq::empty()
        };
        if k > 0 {
            assert(!head.contains(SEPARATOR)) by {
                if head.contains(SEPARATOR) {
                    let i = choose|i: int| 0 <= i < head.len() && head[i] == SEPARATOR;
                    assert(s[i] == SEPARATOR);
                }
            }
            assert forall|i: int| 0 <= i < segments(s).len() implies is_segment(
                #[trigger] segments(s)[i],
            ) by {
                if i > 0 {
                    assert(segments(s)[i] == rest[i - 1]);
                }
            }
        }
    }
}

/// A segment is the only segment of itself.
pub proof fn lemma_segments_of_segment(w: Seq<char>)
    requires
        is_segment(w),
    ensures
        segments(w) == seq![w],
{
    lemma_segments_without_separator(w);
}

/// Segments are taken on each side of a separator independently: a separator
/// between `a` and `b` only parts the segments of `a` from those of `b`. So a
/// leading or a trailing separator adds no segment, and neither does one
/// that follows another.
pub proof fn lemma_segments_around_separator(a: Seq<char>, b: Seq<char>)
    ensures
        segments(a + seq![SEPARATOR] + b) == segments(a) + segments(b),
    decreases a.len(),
{
    let s = a + seq![SEPARATOR] + b;
    lemma_first_separator(a);
    let k = first_separator(a) as int;
    assert forall|i: int| 0 <= i < k implies s[i] != SEPARATOR by {
        assert(s[i] == a[i]);
    }
    if k < a.len() {
        let a_rest = a.skip(k + 1);
        assert(s[k] == a[k]);
        lemma_segments_at_separator(s, k);
        lemma_segments_at_separator(a, k);
        assert(s.skip(k + 1) == a_rest + seq![SEPARATOR] + b);
        assert(s.take(k) == a.take(k));
        lemma_segments_around_separator(a_rest, b);
    } else {
        assert(s[k] == SEPARATOR);
        lemma_segments_at_separator(s, k);
        assert(s.skip(k + 1) == b);
        assert(s.take(k) == a);
        assert(!a.contains(SEPARATOR));
        lemma_segments_without_separator(a);
    }
}

/// A sequence of separators only has no segment.
pub proof fn lemma_segments_of_separators(s: Seq<char>)
    requires
        forall|i: int| 0 <= i < s.len() ==> s[i] == SEPARATOR,
    ensures
        segments(s).len() == 0,
    decreases s.len(),
{
    if s.len() > 0 {
        lemma_first_separator_is(s, 0);
        lemma_segments_of_separators(s.skip(1));
    }
}

/// Separators in front of a sequence and behind it add no segment.
pub proof fn lemma_segments_between_separators(before: Seq<char>, s: Seq<char>, after: Seq<char>)
    requires
        forall|i: int| 0 <= i < before.len() ==> before[i] == SEPARATOR,
        forall|i: int| 0 <= i < after.len() ==> after[i] == SEPARATOR,
    ensures
        segments(before + s + after) == segments(s),
    decreases before.len() + after.len(),
{
    let empty = Seq::<char>::empty();
    if before.len() > 0 {
        let rest = before.skip(1);
        assert(before + s + after == empty + seq![SEPARATOR] + (rest + s + after));
        lemma_segments_around_separator(empty, rest + s + after);
        lemma_segments_between_separators(rest, s, after);
        assert(segments(empty) + segments(s) == segments(s));
    } else if after.len() > 0 {
        let front = after.drop_last();
        assert(before + s + after == (before + s + front) + seq![SEPARATOR] + empty);
        lemma_segments_around_separator(before + s + front, empty);
        lemma_segments_between_separators(before, s, front);
        assert(segments(s) + segments(empty) == segments(s));
    } else {
        assert(before + s + after == s);
    }
}

/// How `a` stands to `b` in the order of the dictionary, taken byte by
/// byte: -1 where `a` comes first, 1 where `b` does, 0 where they are the
/// same. The first byte in which they differ decides, and a sequence comes
/// before every longer one that it begins.
pub open spec fn lexicographic(a: Seq<u8>, b: Seq<u8>) -> int
    decreases a.len(),
{
    if a.len() == 0 && b.len() == 0 {
        0
    } else if a.len() == 0 {
        -1
    } else if b.len() == 0 {
        1
    } else if a[0] < b[0] {
        -1
    } else if a[0] > b[0] {
        1
    } else {
        lexicographic(a.drop_first(), b.drop_first())
    }
}

/// Two sequences are the same exactly where neither comes first.
pub proof fn lemma_lexicographic_equal(a: Seq<u8>, b: Seq<u8>)
    ensures
        lexicographic(a, b) == 0 <==> a == b,
    decreases a.len(),
{
    if a.len() > 0 && b.len() > 0 {
        lemma_lexicographic_equal(a.drop_first(), b.drop_first());
        if a[0] == b[0] && a.drop_first() == b.drop_first() {
            assert(a == seq![a[0]] + a.drop_first());
            assert(b == seq![b[0]] + b.drop_first());
        }
    } else if a.len() == 0 && b.len() == 0 {
        assert(a =~= b);
    }
}

/// Where `a` comes before `b`, `b` comes after `a`.
pub proof fn lemma_lexicographic_antisymmetric(a: Seq<u8>, b: Seq<u8>)
    ensures
        lexicographic(a, b) == -lexicographic(b, a),
    decreases a.len(),
{
    if a.len() > 0 && b.len() > 0 {
        lemma_lexicographic_antisymmetric(a.drop_first(), b.drop_first());
    }
}

/// Where `a` comes no later than `b` and `b` no later than `c`, `a` comes no
/// later than `c`.
pub proof fn lemma_lexicographic_transitive(a: Seq<u8>, b: Seq<u8>, c: Seq<u8>)
    requires
        lexicographic(a, b) <= 0,
        lexicographic(b, c) <= 0,
    ensures
        lexicographic(a, c) <= 0,
    decreases a.len(),
{
    if a.len() > 0 && b.len() > 0 && c.len() > 0 {
        if a[0] == b[0] && b[0] == c[0] {
            lemma_lexicographic_transitive(a.drop_first(), b.drop_first(), c.drop_first());
        }
    }
}

/// Compares two slices of bytes in the order of the dictionary.
fn compare_bytes(x: &[u8], y: &[u8]) -> (r: i8)
    ensures
        r == lexicographic(x@, y@),
{
    let mut i: usize = 0;
    assert(x@.skip(0) == x@ && y@.skip(0) == y@);
    while i < x.len() && i < y.len()
        invariant
            i <= x.len(),
            i <= y.len(),
            lexicographic(x@, y@) == lexicographic(x@.skip(i as int), y@.skip(i as int)),
        decreases x.len() - i,
    {
        assert(x@.skip(i as int).drop_first() == x@.skip(i + 1));
        assert(y@.skip(i as int).drop_first() == y@.skip(i + 1));
        if x[i] < y[i] {
            return -1;
        }
        if x[i] > y[i] {
            return 1;
        }
        i = i + 1;
    }
    if x.len() < y.len() {
        -1
    } else if x.len() > y.len() {
        1
    } else {
        0
    }
}

/// A path, held as the string it was written as.
///
/// Two paths are equal when their strings are, character for character:
/// `/a/b` and `a/b//` name the same segments and are different paths.
/// Paths are ordered as their strings are, which is by the bytes of the
/// strings in UTF-8, and hashed as their strings are.
#[derive(Debug, Eq, Ord, Hash)]
pub struct Path(String);

impl View for Path {
    type V = Seq<char>;

    closed spec fn view(&self) -> Seq<char> {
        self.0@
    }
}

impl Clone for Path {
    fn clone(&self) -> (r: Self)
        ensures
            r@ == self@,
    {
        Path(self.0.clone())
    }
}

impl PartialEq for Path {
    fn eq(&self, other: &Self) -> (r: bool) {
        self.0 == other.0
    }
}

impl PartialEqSpecImpl for Path {
    open spec fn obeys_eq_spec() -> bool {
        true
    }

    open spec fn eq_spec(&self, other: &Self) -> bool {
        self@ == other@
    }
}

impl PartialOrd for Path {
    fn partial_cmp(&self, other: &Self) -> (r: Option<Ordering>) {
        let c = compare_bytes(self.0.as_str().as_bytes(), other.0.as_str().as_bytes());
        if c < 0 {
            Some(Ordering::Less)
        } else if c == 0 {
            Some(Ordering::Equal)
        } else {
            Some(Ordering::Greater)
        }
    }
}

impl PartialOrdSpecImpl for Path {
    open spec fn obeys_partial_cmp_spec() -> bool {
        true
    }

    open spec fn partial_cmp_spec(&self, other: &Self) -> Option<Ordering> {
        let c = lexicographic(encode_utf8(self@), encode_utf8(other@));
        if c < 0 {
            Some(Ordering::Less)
        } else if c == 0 {
            Some(Ordering::Equal)
        } else {
            Some(Ordering::Greater)
        }
    }
}

/// The order of paths agrees with their equality: two paths are equal
/// exactly where neither comes before the other.
pub proof fn lemma_order_agrees_with_equality(p: Path, q: Path)
    ensures
        PartialOrdSpec::partial_cmp_spec(&p, &q) == Some(Ordering::Equal) <==> PartialEqSpec::eq_spec(
            &p,
            &q,
        ),
{
    lemma_lexicographic_equal(encode_utf8(p@), encode_utf8(q@));
    encode_utf8_decode_utf8(p@);
    encode_utf8_decode_utf8(q@);
}

/// Where one path comes before another, the other comes after it.
pub proof fn lemma_order_is_antisymmetric(p: Path, q: Path)
    ensures
        PartialOrdSpec::partial_cmp_spec(&p, &q) == Some(Ordering::Less)
            <==> PartialOrdSpec::partial_cmp_spec(&q, &p) == Some(Ordering::Greater),
{
    lemma_lexicographic_antisymmetric(encode_utf8(p@), encode_utf8(q@));
}

/// The order of paths is transitive.
pub proof fn lemma_order_is_transitive(p: Path, q: Path, r: Path)
    requires
        PartialOrdSpec::partial_cmp_spec(&p, &q) != Some(Ordering::Greater),
        PartialOrdSpec::partial_cmp_spec(&q, &r) != Some(Ordering::Greater),
    ensures
        PartialOrdSpec::partial_cmp_spec(&p, &r) != Some(Ordering::Greater),
{
    lemma_lexicographic_transitive(encode_utf8(p@), encode_utf8(q@), encode_utf8(r@));
}

impl From<String> for Path {
    fn from(path: String) -> (r: Self)
        ensures
            r@ == path@,
    {
        Path(path)
    }
}

impl FromSpecImpl<String> for Path {
    open spec fn obeys_from_spec() -> bool {
        true
    }

    closed spec fn from_spec(path: String) -> Self {
        Path(path)
    }
}

impl From<&str> for Path {
    fn from(path: &str) -> (r: Self)
        ensures
            r@ == path@,
    {
        Path(path.to_owned())
    }
}

/// The conversion from a string slice allocates the string that the path
/// holds, so its result is known by its view only and `from_spec` names no
/// path.
impl FromSpecImpl<&str> for Path {
    open spec fn obeys_from_spec() -> bool {
        false
    }

    closed spec fn from_spec(path: &str) -> Self {
        Path(arbitrary())
    }
}

impl Path {
    /// The segments that the path names.
    pub open spec fn spec_parts(&self) -> Seq<Seq<char>> {
        segments(self@)
    }

    /// Makes a path of a string, which is kept as it is.
    pub fn new(path: &str) -> (r: Self)
        ensures
            r@ == path@,
    {
        Path(path.to_owned())
    }

    /// The string that the path was made of.
    pub fn get_path(&self) -> (r: &str)
        ensures
            r@ == self@,
    {
        self.0.as_str()
    }

    /// The segments of the path, in order. A path that is empty or made of
    /// separators only has none.
    pub fn get_parts(&self) -> (parts: Vec<String>)
        ensures
            parts.deep_view() == self.spec_parts(),
    {
        let s = self.0.as_str();
        let n = s.unicode_len();
        let mut parts: Vec<String> = Vec::new();
        let mut start: usize = 0;
        let mut pos: usize = 0;
        assert(s@.skip(0) == s@);
        assert(Seq::<Seq<char>>::empty() + segments(s@) == segments(s@));
        for c in it: s.chars()
            invariant
                n == s@.len(),
                it.seq() == s@,
                pos == it.index(),
                start <= pos <= n,
                forall|i: int| start <= i < pos ==> s@[i] != SEPARATOR,
                segments(s@) == parts.deep_view() + segments(s@.skip(start as int)),
        {
            if c == SEPARATOR {
                let ghost done = parts.deep_view();
                let ghost tail = s@.skip(start as int);
                proof {
                    lemma_segments_at_separator(tail, pos - start);
                    assert(tail.skip(pos - start + 1) == s@.skip(pos + 1));
                    assert(tail.take(pos - start) == s@.subrange(start as int, pos as int));
                }
                if start < pos {
                    let part = s.substring_char(start, pos).to_owned();
                    parts.push(part);
                    assert(parts.deep_view() == done.push(part@));
                    assert(done.push(part@) + segments(s@.skip(pos + 1)) == done + (seq![part@]
                        + segments(s@.skip(pos + 1))));
                }
                start = pos + 1;
            }
            pos = pos + 1;
        }
        let ghost done = parts.deep_view();
        let ghost tail = s@.skip(start as int);
        proof {
            assert(!tail.contains(SEPARATOR)) by {
                if tail.contains(SEPARATOR) {
                    let i = choose|i: int| 0 <= i < tail.len() && tail[i] == SEPARATOR;
                    assert(s@[start + i] == SEPARATOR);
                }
            }
            lemma_segments_without_separator(tail);
        }
        if start < pos {
            let part = s.substring_char(start, pos).to_owned();
            parts.push(part);
            assert(s@.subrange(start as int, pos as int) == tail);
            assert(parts.deep_view() == done.push(part@));
            assert(done.push(part@) == done + seq![part@]);
        } else {
            assert(done + Seq::<Seq<char>>::empty() == done);
        }
        parts
    }
}

} // verus!
