//! Comparisons on text, stated over sequences of characters.

use vstd::prelude::*;

verus! {

/// `a` comes before `b`, or equals it, when both are read character by
/// character and characters are compared by code point: either `a` is a
/// prefix of `b`, or at the first place where they differ `a` holds the
/// smaller character.
pub open spec fn text_le(a: Seq<char>, b: Seq<char>) -> bool {
    a.is_prefix_of(b) || exists|k: int| differ_at(a, b, k) && (a[k] as u32) < (b[k] as u32)
}

/// `a` and `b` agree on their first `k` characters and both have a
/// character at place `k`, and those two differ.
pub open spec fn differ_at(a: Seq<char>, b: Seq<char>, k: int) -> bool {
    &&& 0 <= k < a.len()
    &&& k < b.len()
    &&& a.subrange(0, k) == b.subrange(0, k)
    &&& a[k] != b[k]
}

/// Two texts differ at no more than one first place.
pub proof fn lemma_differ_at_unique(a: Seq<char>, b: Seq<char>, j: int, k: int)
    requires
        differ_at(a, b, j),
        differ_at(a, b, k),
    ensures
        j == k,
{
    if j < k {
        assert(a.subrange(0, k)[j] == b.subrange(0, k)[j]);
    } else if k < j {
        assert(a.subrange(0, j)[k] == b.subrange(0, j)[k]);
    }
}

/// Distinct characters have distinct code points.
pub proof fn lemma_code_point_distinct(c: char, d: char)
    requires
        c != d,
    ensures
        c as u32 != d as u32,
{
    vstd::utf8::char_u32_cast(c, c as u32);
    vstd::utf8::char_u32_cast(d, d as u32);
}

/// Any two texts are comparable.
pub proof fn lemma_text_le_total(a: Seq<char>, b: Seq<char>)
    ensures
        text_le(a, b) || text_le(b, a),
{
    assert(a.subrange(0, 0) =~= b.subrange(0, 0));
    lemma_common_prefix(a, b, 0);
    if !a.is_prefix_of(b) && !b.is_prefix_of(a) {
        let k = choose|k: int| differ_at(a, b, k);
        assert(differ_at(b, a, k));
        lemma_code_point_distinct(a[k], b[k]);
    }
}

/// Starting from an agreed prefix of length `i`, either one text is a
/// prefix of the other or a first differing place exists.
proof fn lemma_common_prefix(a: Seq<char>, b: Seq<char>, i: int)
    requires
        0 <= i <= a.len(),
        i <= b.len(),
        a.subrange(0, i) == b.subrange(0, i),
    ensures
        a.is_prefix_of(b) || b.is_prefix_of(a) || exists|k: int| differ_at(a, b, k),
    decreases a.len() - i,
{
    if i == a.len() {
        assert(a.subrange(0, i) == a);
        assert(a.is_prefix_of(b));
    } else if i == b.len() {
        assert(b.subrange(0, i) == b);
        assert(b.is_prefix_of(a));
    } else if a[i] != b[i] {
        assert(differ_at(a, b, i));
    } else {
        assert(a.subrange(0, i + 1) == a.subrange(0, i).push(a[i]));
        assert(b.subrange(0, i + 1) == b.subrange(0, i).push(b[i]));
        lemma_common_prefix(a, b, i + 1);
    }
}

/// The order is transitive.
pub proof fn lemma_text_le_transitive(a: Seq<char>, b: Seq<char>, c: Seq<char>)
    requires
        text_le(a, b),
        text_le(b, c),
    ensures
        text_le(a, c),
{
    if a.is_prefix_of(b) {
        if b.is_prefix_of(c) {
            assert(a =~= c.subrange(0, a.len() as int));
        } else {
            let k = choose|k: int| differ_at(b, c, k) && (b[k] as u32) < (c[k] as u32);
            if k < a.len() {
                assert(a.subrange(0, k) =~= b.subrange(0, k));
                assert(a[k] == b[k]);
                assert(differ_at(a, c, k));
            } else {
                assert forall|i: int| 0 <= i < a.len() implies a[i] == c[i] by {
                    assert(b.subrange(0, k)[i] == c.subrange(0, k)[i]);
                }
                assert(a =~= c.subrange(0, a.len() as int));
            }
        }
    } else {
        let j = choose|j: int| differ_at(a, b, j) && (a[j] as u32) < (b[j] as u32);
        if b.is_prefix_of(c) {
            assert(b.subrange(0, j) =~= c.subrange(0, j));
            assert(b[j] == c[j]);
            assert(differ_at(a, c, j));
        } else {
            let k = choose|k: int| differ_at(b, c, k) && (b[k] as u32) < (c[k] as u32);
            if j <= k {
                assert(b.subrange(0, j) =~= c.subrange(0, j)) by {
                    assert forall|i: int| 0 <= i < j implies b[i] == c[i] by {
                        assert(b.subrange(0, k)[i] == c.subrange(0, k)[i]);
                    }
                }
                if j < k {
                    assert(b.subrange(0, k)[j] == c.subrange(0, k)[j]);
                }
                assert(differ_at(a, c, j));
            } else {
                assert(a.subrange(0, k) =~= c.subrange(0, k)) by {
                    assert forall|i: int| 0 <= i < k implies a[i] == c[i] by {
                        assert(a.subrange(0, j)[i] == b.subrange(0, j)[i]);
                        assert(b.subrange(0, k)[i] == c.subrange(0, k)[i]);
                    }
                }
                assert(a.subrange(0, j)[k] == b.subrange(0, j)[k]);
                assert(differ_at(a, c, k));
            }
        }
    }
}

/// Texts that come before each other are equal.
pub proof fn lemma_text_le_antisymmetric(a: Seq<char>, b: Seq<char>)
    requires
        text_le(a, b),
        text_le(b, a),
    ensures
        a == b,
{
    if a.is_prefix_of(b) && b.is_prefix_of(a) {
        assert(a =~= b);
    } else if a.is_prefix_of(b) {
        let k = choose|k: int| differ_at(b, a, k) && (b[k] as u32) < (a[k] as u32);
        assert(a[k] == b.subrange(0, a.len() as int)[k]);
    } else if b.is_prefix_of(a) {
        let k = choose|k: int| differ_at(a, b, k) && (a[k] as u32) < (b[k] as u32);
        assert(b[k] == a.subrange(0, b.len() as int)[k]);
    } else {
        let j = choose|j: int| differ_at(a, b, j) && (a[j] as u32) < (b[j] as u32);
        let k = choose|k: int| differ_at(b, a, k) && (b[k] as u32) < (a[k] as u32);
        assert(differ_at(a, b, k));
        lemma_differ_at_unique(a, b, j, k);
    }
}

/// The characters of `s`, in order.
pub fn chars_of(s: &str) -> (v: Vec<char>)
    ensures
        v@ == s@,
{
    let mut v: Vec<char> = Vec::new();
    for c in it: s.chars()
        invariant
            it.seq() == s@,
            v@ == s@.subrange(0, it.index() as int),
    {
        v.push(c);
    }
    v
}

/// Whether two texts hold the same characters.
pub fn same_text(a: &str, b: &str) -> (r: bool)
    ensures
        r == (a@ == b@),
{
    let x = chars_of(a);
    let y = chars_of(b);
    if x.len() != y.len() {
        return false;
    }
    let mut i: usize = 0;
    while i < x.len()
        invariant
            x@ == a@,
            y@ == b@,
            i <= x.len(),
            x.len() == y.len(),
            x@.subrange(0, i as int) == y@.subrange(0, i as int),
        decreases x.len() - i,
    {
        if x[i] != y[i] {
            return false;
        }
        assert(x@.subrange(0, i + 1) == x@.subrange(0, i as int).push(x@[i as int]));
        assert(y@.subrange(0, i + 1) == y@.subrange(0, i as int).push(y@[i as int]));
        i = i + 1;
    }
    assert(x@ == x@.subrange(0, x.len() as int));
    assert(y@ == y@.subrange(0, y.len() as int));
    true
}

/// Whether `a` comes before `b` or equals it, by code points.
pub fn text_precedes(a: &str, b: &str) -> (r: bool)
    ensures
        r == text_le(a@, b@),
{
    let x = chars_of(a);
    let y = chars_of(b);
    let mut i: usize = 0;
    while i < x.len() && i < y.len()
        invariant
            x@ == a@,
            y@ == b@,
            i <= x.len(),
            i <= y.len(),
            x@.subrange(0, i as int) == y@.subrange(0, i as int),
        decreases x.len() - i,
    {
        if x[i] != y[i] {
            let lower = (x[i] as u32) < (y[i] as u32);
            proof {
                assert(differ_at(x@, y@, i as int));
                if !lower {
                    lemma_code_point_distinct(x@[i as int], y@[i as int]);
                    assert(differ_at(y@, x@, i as int));
                    assert(text_le(y@, x@));
                    if text_le(x@, y@) {
                        lemma_text_le_antisymmetric(x@, y@);
                    }
                }
            }
            return lower;
        }
        assert(x@.subrange(0, i + 1) == x@.subrange(0, i as int).push(x@[i as int]));
        assert(y@.subrange(0, i + 1) == y@.subrange(0, i as int).push(y@[i as int]));
        i = i + 1;
    }
    if i == x.len() {
        assert(x@ == x@.subrange(0, i as int));
        assert(x@.is_prefix_of(y@));
        true
    } else {
        proof {
            assert(y@ == y@.subrange(0, i as int));
            assert(y@.is_prefix_of(x@));
            if text_le(x@, y@) {
                lemma_text_le_antisymmetric(x@, y@);
            }
        }
        false
    }
}

} // verus!
