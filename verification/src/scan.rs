//! Searching and trimming of byte strings.
//!
//! Lines of diagnostic output are handled as bytes. A search reports the
//! leftmost occurrence of a pattern, and trimming removes ASCII white space
//! from both ends.

use vstd::prelude::*;
use vstd::slice::slice_subrange;

verus! {

/// `needle` stands in `hay` at index `i`.
pub open spec fn occurs_at(hay: Seq<u8>, needle: Seq<u8>, i: int) -> bool {
    &&& 0 <= i
    &&& i + needle.len() <= hay.len()
    &&& hay.subrange(i, i + needle.len()) == needle
}

/// `needle` stands somewhere in `hay`.
pub open spec fn occurs(hay: Seq<u8>, needle: Seq<u8>) -> bool {
    exists|i: int| occurs_at(hay, needle, i)
}

/// `i` is the leftmost index at which `needle` stands in `hay`.
pub open spec fn is_first_occurrence(hay: Seq<u8>, needle: Seq<u8>, i: int) -> bool {
    &&& occurs_at(hay, needle, i)
    &&& forall|j: int| 0 <= j < i ==> !occurs_at(hay, needle, j)
}

/// The leftmost index at which `needle` stands in `hay`, if there is one.
pub open spec fn first_occurrence(hay: Seq<u8>, needle: Seq<u8>) -> Option<int> {
    if occurs(hay, needle) {
        Some(choose|i: int| is_first_occurrence(hay, needle, i))
    } else {
        None
    }
}

/// The leftmost index at which the byte `b` stands in `s`, if there is one.
pub open spec fn first_index_of(s: Seq<u8>, b: u8) -> Option<int> {
    first_occurrence(s, seq![b])
}

/// A leftmost occurrence is the value of `first_occurrence`.
pub proof fn lemma_first_occurrence_unique(hay: Seq<u8>, needle: Seq<u8>, i: int)
    requires
        is_first_occurrence(hay, needle, i),
    ensures
        first_occurrence(hay, needle) == Some(i),
{
}

/// Where nothing occurs, `first_occurrence` is `None`; where it is `Some`,
/// the index is a leftmost occurrence.
pub proof fn lemma_first_occurrence_found(hay: Seq<u8>, needle: Seq<u8>)
    ensures
        match first_occurrence(hay, needle) {
            Some(i) => is_first_occurrence(hay, needle, i),
            None => forall|j: int| !occurs_at(hay, needle, j),
        },
    decreases hay.len(),
{
    if occurs(hay, needle) {
        let w = choose|i: int| occurs_at(hay, needle, i);
        lemma_leftmost_exists(hay, needle, w);
    }
}

/// Below any occurrence there is a leftmost one.
proof fn lemma_leftmost_exists(hay: Seq<u8>, needle: Seq<u8>, w: int)
    requires
        occurs_at(hay, needle, w),
    ensures
        exists|i: int| is_first_occurrence(hay, needle, i),
    decreases w,
{
    if exists|j: int| 0 <= j < w && occurs_at(hay, needle, j) {
        let j = choose|j: int| 0 <= j < w && occurs_at(hay, needle, j);
        lemma_leftmost_exists(hay, needle, j);
    } else {
        assert(is_first_occurrence(hay, needle, w));
    }
}

/// A one-byte pattern stands at `i` exactly when the byte at `i` is that byte.
pub proof fn lemma_byte_occurs_at(s: Seq<u8>, b: u8, i: int)
    ensures
        occurs_at(s, seq![b], i) <==> (0 <= i < s.len() && s[i] == b),
{
    let needle = seq![b];
    assert(needle[0] == b);
    if 0 <= i < s.len() {
        let window = s.subrange(i, i + 1);
        if s[i] == b {
            assert(window =~= needle);
        }
    }
}

/// Tells whether `needle` stands in `hay` at index `i`.
pub fn starts_at(hay: &[u8], needle: &[u8], i: usize) -> (r: bool)
    ensures
        r == occurs_at(hay@, needle@, i as int),
{
    let n: usize = hay.len();
    let m: usize = needle.len();
    if i > n || m > n - i {
        return false;
    }
    let mut k: usize = 0;
    while k < m
        invariant
            n == hay@.len(),
            m == needle@.len(),
            i + m <= n,
            k <= m,
            forall|l: int| 0 <= l < k ==> hay@[i + l] == needle@[l],
        decreases m - k,
    {
        if hay[i + k] != needle[k] {
            return false;
        }
        k += 1;
    }
    proof {
        assert(hay@.subrange(i as int, i + m) =~= needle@);
    }
    true
}

/// Finds the leftmost occurrence of `needle` in `hay`.
pub fn find(hay: &[u8], needle: &[u8]) -> (r: Option<usize>)
    ensures
        match r {
            Some(i) => first_occurrence(hay@, needle@) == Some(i as int),
            None => first_occurrence(hay@, needle@) is None,
        },
{
    let n: usize = hay.len();
    let m: usize = needle.len();
    if m > n {
        return None;
    }
    let last: usize = n - m;
    let mut i: usize = 0;
    loop
        invariant_except_break
            i <= last,
            forall|j: int| 0 <= j < i ==> !occurs_at(hay@, needle@, j),
        invariant
            n == hay@.len(),
            m == needle@.len(),
            last == n - m,
        ensures
            forall|j: int| 0 <= j <= last ==> !occurs_at(hay@, needle@, j),
        decreases last - i,
    {
        if starts_at(hay, needle, i) {
            proof {
                lemma_first_occurrence_unique(hay@, needle@, i as int);
            }
            return Some(i);
        }
        if i == last {
            break;
        }
        i += 1;
    }
    None
}

/// Finds the leftmost index at which the byte `b` stands in `s`.
pub fn find_byte(s: &[u8], b: u8) -> (r: Option<usize>)
    ensures
        match r {
            Some(i) => first_index_of(s@, b) == Some(i as int) && i < s@.len() && s@[i as int] == b,
            None => first_index_of(s@, b) is None && !s@.contains(b),
        },
{
    let n: usize = s.len();
    let mut i: usize = 0;
    while i < n
        invariant
            n == s@.len(),
            i <= n,
            forall|j: int| 0 <= j < i ==> !occurs_at(s@, seq![b], j),
            forall|j: int| 0 <= j < i ==> s@[j] != b,
        decreases n - i,
    {
        proof {
            lemma_byte_occurs_at(s@, b, i as int);
        }
        if s[i] == b {
            proof {
                lemma_first_occurrence_unique(s@, seq![b], i as int);
            }
            return Some(i);
        }
        i += 1;
    }
    None
}

/// ASCII white space: the blank and the control characters from tab to
/// carriage return.
pub open spec fn is_space(b: u8) -> bool {
    b == 32 || (9 <= b && b <= 13)
}

/// The number of white-space bytes at the start of `s`.
pub open spec fn leading_spaces(s: Seq<u8>) -> nat
    decreases s.len(),
{
    if s.len() > 0 && is_space(s[0]) {
        1 + leading_spaces(s.drop_first())
    } else {
        0
    }
}

/// The number of white-space bytes at the end of `s`.
pub open spec fn trailing_spaces(s: Seq<u8>) -> nat
    decreases s.len(),
{
    if s.len() > 0 && is_space(s.last()) {
        1 + trailing_spaces(s.drop_last())
    } else {
        0
    }
}

/// `s` without the white space at its two ends.
pub open spec fn trimmed(s: Seq<u8>) -> Seq<u8> {
    let rest = s.skip(leading_spaces(s) as int);
    rest.take(rest.len() - trailing_spaces(rest))
}

/// Tells whether `b` is ASCII white space.
pub fn byte_is_space(b: u8) -> (r: bool)
    ensures
        r == is_space(b),
{
    b == 32 || (9 <= b && b <= 13)
}

/// Removes the ASCII white space at both ends of `s`.
pub fn trim(s: &[u8]) -> (r: &[u8])
    ensures
        r@ == trimmed(s@),
{
    let n: usize = s.len();
    let mut a: usize = 0;
    proof {
        assert(s@.skip(0) =~= s@);
    }
    while a < n && byte_is_space(s[a])
        invariant
            n == s@.len(),
            a <= n,
            leading_spaces(s@) == a + leading_spaces(s@.skip(a as int)),
        decreases n - a,
    {
        proof {
            let tail = s@.skip(a as int);
            assert(tail.drop_first() =~= s@.skip(a + 1));
        }
        a += 1;
    }
    let ghost rest = s@.skip(a as int);
    let mut b: usize = n;
    proof {
        assert(rest.take(n - a) =~= rest);
    }
    while b > a && byte_is_space(s[b - 1])
        invariant
            n == s@.len(),
            a <= b <= n,
            rest == s@.skip(a as int),
            trailing_spaces(rest) == (n - b) + trailing_spaces(rest.take(b - a)),
        decreases b,
    {
        proof {
            let head = rest.take(b - a);
            assert(head.drop_last() =~= rest.take(b - 1 - a));
        }
        b -= 1;
    }
    slice_subrange(s, a, b)
}

} // verus!
