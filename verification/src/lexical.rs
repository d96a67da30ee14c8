use vstd::prelude::*;

verus! {

/// Where one byte string stands against another in lexicographic order.
#[derive(Debug, Clone, Copy, PartialEq, Eq)]
pub enum LexOrder {
    /// The first string sorts before the second.
    Before,
    /// The two strings are equal.
    Same,
    /// The first string sorts after the second.
    After,
}

/// Lexicographic order of byte strings, the order of `[u8]` and of `str`:
/// the first differing byte decides, and a proper prefix sorts first.
pub open spec fn lex_order(a: Seq<u8>, b: Seq<u8>) -> LexOrder
    decreases a.len(),
{
    if a.len() == 0 {
        if b.len() == 0 {
            LexOrder::Same
        } else {
            LexOrder::Before
        }
    } else if b.len() == 0 {
        LexOrder::After
    } else if a[0] < b[0] {
        LexOrder::Before
    } else if a[0] > b[0] {
        LexOrder::After
    } else {
        lex_order(a.drop_first(), b.drop_first())
    }
}

/// Two byte strings stand in the same place exactly when they are equal.
pub proof fn lemma_lex_order_same_iff_equal(a: Seq<u8>, b: Seq<u8>)
    ensures
        (lex_order(a, b) == LexOrder::Same) <==> a == b,
    decreases a.len(),
{
    if a.len() > 0 && b.len() > 0 && a[0] == b[0] {
        lemma_lex_order_same_iff_equal(a.drop_first(), b.drop_first());
        if a.drop_first() == b.drop_first() {
            assert(a =~= b) by {
                assert forall|i: int| 0 <= i < a.len() implies a[i] == b[i] by {
                    if i > 0 {
                        assert(a[i] == a.drop_first()[i - 1]);
                        assert(b[i] == b.drop_first()[i - 1]);
                    }
                }
            }
        }
        if a == b {
            assert(a.drop_first() =~= b.drop_first());
        }
    } else if a.len() > 0 && b.len() > 0 {
        assert(a[0] != b[0]);
    } else if a.len() == 0 && b.len() == 0 {
        assert(a =~= b);
    }
}

/// Swapping the two strings swaps `Before` and `After`.
pub proof fn lemma_lex_order_antisymmetric(a: Seq<u8>, b: Seq<u8>)
    ensures
        (lex_order(a, b) == LexOrder::After) <==> (lex_order(b, a) == LexOrder::Before),
        (lex_order(a, b) == LexOrder::Before) <==> (lex_order(b, a) == LexOrder::After),
        (lex_order(a, b) == LexOrder::Same) <==> (lex_order(b, a) == LexOrder::Same),
    decreases a.len(),
{
    if a.len() > 0 && b.len() > 0 && a[0] == b[0] {
        lemma_lex_order_antisymmetric(a.drop_first(), b.drop_first());
    }
}

/// The first byte at which two strings differ decides their order.
pub proof fn lemma_lex_order_first_difference(a: Seq<u8>, b: Seq<u8>, i: int)
    requires
        0 <= i < a.len(),
        i < b.len(),
        a.take(i) == b.take(i),
        a[i] != b[i],
    ensures
        lex_order(a, b) == (if a[i] < b[i] {
            LexOrder::Before
        } else {
            LexOrder::After
        }),
    decreases i,
{
    if i > 0 {
        assert(a[0] == a.take(i)[0] && b[0] == b.take(i)[0]);
        assert(a.drop_first().take(i - 1) =~= a.take(i).drop_first());
        assert(b.drop_first().take(i - 1) =~= b.take(i).drop_first());
        lemma_lex_order_first_difference(a.drop_first(), b.drop_first(), i - 1);
    }
}

/// A proper prefix sorts before the longer string.
pub proof fn lemma_lex_order_prefix_first(a: Seq<u8>, b: Seq<u8>)
    requires
        a.len() < b.len(),
        b.take(a.len() as int) == a,
    ensures
        lex_order(a, b) == LexOrder::Before,
    decreases a.len(),
{
    if a.len() > 0 {
        assert(b[0] == b.take(a.len() as int)[0]);
        assert(b.drop_first().take(a.len() - 1) =~= a.drop_first());
        lemma_lex_order_prefix_first(a.drop_first(), b.drop_first());
    }
}

/// The order is transitive.
pub proof fn lemma_lex_order_transitive(a: Seq<u8>, b: Seq<u8>, c: Seq<u8>)
    requires
        lex_order(a, b) == LexOrder::Before,
        lex_order(b, c) == LexOrder::Before,
    ensures
        lex_order(a, c) == LexOrder::Before,
    decreases a.len(),
{
    if a.len() > 0 && b.len() > 0 && c.len() > 0 && a[0] == b[0] && b[0] == c[0] {
        lemma_lex_order_transitive(a.drop_first(), b.drop_first(), c.drop_first());
    }
}

/// Compares two byte strings lexicographically.
pub fn compare_bytes(a: &[u8], b: &[u8]) -> (r: LexOrder)
    ensures
        r == lex_order(a@, b@),
{
    let mut i: usize = 0;
    assert(a@.skip(0) =~= a@ && b@.skip(0) =~= b@);
    while i < a.len() && i < b.len()
        invariant
            i <= a.len(),
            i <= b.len(),
            lex_order(a@, b@) == lex_order(a@.skip(i as int), b@.skip(i as int)),
        decreases a.len() - i,
    {
        if a[i] < b[i] {
            return LexOrder::Before;
        }
        if a[i] > b[i] {
            return LexOrder::After;
        }
        assert(a@.skip(i as int).drop_first() =~= a@.skip(i + 1));
        assert(b@.skip(i as int).drop_first() =~= b@.skip(i + 1));
        i = i + 1;
    }
    if a.len() == b.len() {
        LexOrder::Same
    } else if a.len() < b.len() {
        LexOrder::Before
    } else {
        LexOrder::After
    }
}

} // verus!
