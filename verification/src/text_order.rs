use vstd::prelude::*;

verus! {

/// `a` and `b` agree on their first `n` characters.
pub open spec fn agree_before(a: Seq<char>, b: Seq<char>, n: int) -> bool {
    forall|j: int| 0 <= j < n ==> a[j] == b[j]
}

/// `a` comes before `b` in the lexicographic order of their characters' code points, the
/// order in which Rust sorts strings: they agree up to some position where `a` either ends
/// while `b` goes on, or holds the smaller character.
pub open spec fn text_less(a: Seq<char>, b: Seq<char>) -> bool {
    exists|n: int|
        #![trigger agree_before(a, b, n)]
        0 <= n <= a.len() && n <= b.len() && agree_before(a, b, n) && (n == a.len() < b.len() || (n
            < a.len() && n < b.len() && (a[n] as int) < (b[n] as int)))
}

/// The relative order of two texts.
#[derive(Debug, Clone, Copy, PartialEq, Eq)]
pub enum TextOrder {
    Before,
    Same,
    After,
}

/// No text comes before itself, and the order is total.
pub proof fn lemma_text_order_total(a: Seq<char>, b: Seq<char>)
    ensures
        !text_less(a, a),
        a != b ==> text_less(a, b) || text_less(b, a),
        !(text_less(a, b) && text_less(b, a)),
{
    if text_less(a, a) {
        let n = choose|n: int| #![trigger agree_before(a, a, n)]
            0 <= n <= a.len() && n <= a.len() && agree_before(a, a, n) && (n == a.len() < a.len()
                || (n < a.len() && n < a.len() && (a[n] as int) < (a[n] as int)));
    }
    if text_less(a, b) && text_less(b, a) {
        let n = choose|n: int| #![trigger agree_before(a, b, n)]
            0 <= n <= a.len() && n <= b.len() && agree_before(a, b, n) && (n == a.len() < b.len()
                || (n < a.len() && n < b.len() && (a[n] as int) < (b[n] as int)));
        let m = choose|m: int| #![trigger agree_before(b, a, m)]
            0 <= m <= b.len() && m <= a.len() && agree_before(b, a, m) && (m == b.len() < a.len()
                || (m < b.len() && m < a.len() && (b[m] as int) < (a[m] as int)));
        if n < m {
            assert(b[n] == a[n]);
        } else if m < n {
            assert(a[m] == b[m]);
        }
    }
    if a != b {
        lemma_first_difference(a, b);
        let n = first_difference(a, b);
        assert(agree_before(a, b, n));
        assert(agree_before(b, a, n));
        if n == a.len() && n == b.len() {
            assert(a =~= b);
        } else if n == a.len() {
            assert(text_less(a, b));
        } else if n == b.len() {
            assert(text_less(b, a));
        } else if (a[n] as int) < (b[n] as int) {
            assert(text_less(a, b));
        } else {
            assert((b[n] as int) < (a[n] as int));
            assert(text_less(b, a));
        }
    }
}

/// The first position at which `a` and `b` differ, or the shorter length.
spec fn first_difference(a: Seq<char>, b: Seq<char>) -> int
    decreases a.len(),
{
    if a.len() == 0 || b.len() == 0 || a[0] != b[0] {
        0
    } else {
        1 + first_difference(a.drop_first(), b.drop_first())
    }
}

proof fn lemma_first_difference(a: Seq<char>, b: Seq<char>)
    ensures
        0 <= first_difference(a, b) <= a.len(),
        first_difference(a, b) <= b.len(),
        agree_before(a, b, first_difference(a, b)),
        first_difference(a, b) < a.len() && first_difference(a, b) < b.len() ==> a[first_difference(
            a,
            b,
        )] != b[first_difference(a, b)],
    decreases a.len(),
{
    if !(a.len() == 0 || b.len() == 0 || a[0] != b[0]) {
        lemma_first_difference(a.drop_first(), b.drop_first());
        let n = first_difference(a.drop_first(), b.drop_first());
        assert forall|j: int| 0 <= j < n + 1 implies a[j] == b[j] by {
            if j > 0 {
                assert(a.drop_first()[j - 1] == b.drop_first()[j - 1]);
            }
        }
    }
}

/// The order is transitive.
pub proof fn lemma_text_less_transitive(a: Seq<char>, b: Seq<char>, c: Seq<char>)
    requires
        text_less(a, b),
        text_less(b, c),
    ensures
        text_less(a, c),
{
    let n = choose|n: int| #![trigger agree_before(a, b, n)]
        0 <= n <= a.len() && n <= b.len() && agree_before(a, b, n) && (n == a.len() < b.len() || (n
            < a.len() && n < b.len() && (a[n] as int) < (b[n] as int)));
    let m = choose|m: int| #![trigger agree_before(b, c, m)]
        0 <= m <= b.len() && m <= c.len() && agree_before(b, c, m) && (m == b.len() < c.len() || (m
            < b.len() && m < c.len() && (b[m] as int) < (c[m] as int)));
    let k = if n < m { n } else { m };
    assert(agree_before(a, c, k));
}


/// The spec of a text order: `Before` when `a` sorts before `b`, `Same` when they are equal,
/// `After` otherwise.
pub open spec fn text_order_of(a: Seq<char>, b: Seq<char>) -> TextOrder {
    if a == b {
        TextOrder::Same
    } else if text_less(a, b) {
        TextOrder::Before
    } else {
        TextOrder::After
    }
}

/// Compares two texts character by character.
pub fn text_order(a: &[char], b: &[char]) -> (order: TextOrder)
    ensures
        order == text_order_of(a@, b@),
        order == TextOrder::After ==> text_less(b@, a@),
{
    proof {
        lemma_text_order_total(a@, b@);
    }
    let mut i: usize = 0;
    while i < a.len() && i < b.len()
        invariant
            i <= a@.len(),
            i <= b@.len(),
            agree_before(a@, b@, i as int),
        decreases a@.len() - i,
    {
        if a[i] != b[i] {
            if a[i] < b[i] {
                assert(text_less(a@, b@));
                return TextOrder::Before;
            } else {
                assert(agree_before(b@, a@, i as int));
                assert(text_less(b@, a@));
                return TextOrder::After;
            }
        }
        i = i + 1;
    }
    if i < b.len() {
        assert(text_less(a@, b@));
        TextOrder::Before
    } else if i < a.len() {
        assert(agree_before(b@, a@, i as int));
        assert(text_less(b@, a@));
        TextOrder::After
    } else {
        assert(a@ =~= b@);
        TextOrder::Same
    }
}

} // verus!
