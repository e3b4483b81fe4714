//! Lexicographic comparison of sequences, and the order of byte strings.
use vstd::prelude::*;

verus! {

/// A comparison function is a strict weak order that agrees with equality:
/// it is antisymmetric, transitive, and zero exactly on equal values.
pub open spec fn is_comparison<T>(c: spec_fn(T, T) -> int) -> bool {
    &&& forall|x: T, y: T| #[trigger] c(x, y) == -c(y, x)
    &&& forall|x: T, y: T| (#[trigger] c(x, y) == 0) == (x == y)
    &&& forall|x: T, y: T| -1 <= #[trigger] c(x, y) <= 1
    &&& forall|x: T, y: T, z: T| #[trigger] c(x, y) < 0 && #[trigger] c(y, z) < 0 ==> c(x, z) < 0
}

/// Lexicographic comparison: the first differing element decides, and a
/// proper prefix comes first. The result is -1, 0 or 1.
pub open spec fn lex_order<T>(a: Seq<T>, b: Seq<T>, c: spec_fn(T, T) -> int) -> int
    decreases a.len(),
{
    if a.len() == 0 {
        if b.len() == 0 {
            0
        } else {
            -1
        }
    } else if b.len() == 0 {
        1
    } else if c(a[0], b[0]) != 0 {
        c(a[0], b[0])
    } else {
        lex_order(a.drop_first(), b.drop_first(), c)
    }
}

/// Lexicographic comparison over a comparison is a comparison.
pub proof fn lemma_lex_antisymmetric<T>(a: Seq<T>, b: Seq<T>, c: spec_fn(T, T) -> int)
    requires
        is_comparison(c),
    ensures
        lex_order(a, b, c) == -lex_order(b, a, c),
        (lex_order(a, b, c) == 0) == (a == b),
        -1 <= lex_order(a, b, c) <= 1,
    decreases a.len(),
{
    if a.len() > 0 && b.len() > 0 {
        assert(c(a[0], b[0]) == -c(b[0], a[0]));
        if c(a[0], b[0]) == 0 {
            lemma_lex_antisymmetric(a.drop_first(), b.drop_first(), c);
            if a.drop_first() == b.drop_first() {
                assert(a =~= seq![a[0]] + a.drop_first());
                assert(b =~= seq![b[0]] + b.drop_first());
            }
        } else {
            assert(a[0] != b[0]);
        }
    } else if a.len() == 0 && b.len() > 0 {
        assert(a != b);
    } else if a.len() > 0 && b.len() == 0 {
        assert(a != b);
    } else {
        assert(a =~= b);
    }
}

/// Lexicographic comparison is transitive.
pub proof fn lemma_lex_transitive<T>(a: Seq<T>, b: Seq<T>, d: Seq<T>, c: spec_fn(T, T) -> int)
    requires
        is_comparison(c),
        lex_order(a, b, c) < 0,
        lex_order(b, d, c) < 0,
    ensures
        lex_order(a, d, c) < 0,
    decreases a.len(),
{
    if a.len() > 0 && b.len() > 0 && d.len() > 0 {
        let x = a[0];
        let y = b[0];
        let z = d[0];
        if c(x, y) == 0 && c(y, z) == 0 {
            assert(x == y && y == z);
            lemma_lex_transitive(a.drop_first(), b.drop_first(), d.drop_first(), c);
        } else if c(x, y) == 0 {
            assert(x == y);
        } else if c(y, z) == 0 {
            assert(y == z);
        } else {
            assert(c(x, y) < 0 && c(y, z) < 0);
        }
    }
}

/// The comparison of two bytes.
pub open spec fn byte_order(x: u8, y: u8) -> int {
    if x < y {
        -1
    } else if x > y {
        1
    } else {
        0
    }
}

/// Lexicographic comparison is zero only on equal sequences.
pub proof fn lemma_lex_zero<T>(a: Seq<T>, b: Seq<T>, c: spec_fn(T, T) -> int)
    requires
        is_comparison(c),
        lex_order(a, b, c) == 0,
    ensures
        a == b,
    decreases a.len(),
{
    if a.len() > 0 && b.len() > 0 {
        lemma_lex_zero(a.drop_first(), b.drop_first(), c);
        assert(c(a[0], b[0]) == 0);
        assert(a =~= b) by {
            assert forall|i: int| 0 <= i < a.len() implies a[i] == b[i] by {
                if i > 0 {
                    assert(a[i] == a.drop_first()[i - 1]);
                    assert(b[i] == b.drop_first()[i - 1]);
                }
            }
        }
    }
}

/// The order of byte strings: lexicographic on unsigned bytes, as Rust orders
/// `[u8]`, `str` and Unix `OsStr` values.
pub open spec fn bytes_order(a: Seq<u8>, b: Seq<u8>) -> int {
    lex_order(a, b, byte_order_fn())
}

/// `byte_order` as a function value.
pub open spec fn byte_order_fn() -> spec_fn(u8, u8) -> int {
    |x: u8, y: u8| byte_order(x, y)
}

/// The byte comparison is a comparison.
pub proof fn lemma_byte_order_is_comparison()
    ensures
        is_comparison(byte_order_fn()),
{
}

/// Compares two byte strings lexicographically.
pub fn compare_bytes(a: &[u8], b: &[u8]) -> (r: i8)
    ensures
        r as int == bytes_order(a@, b@),
{
    let ghost c = byte_order_fn();
    proof {
        assert(a@.skip(0) =~= a@);
        assert(b@.skip(0) =~= b@);
    }
    let mut i: usize = 0;
    while i < a.len() && i < b.len() && a[i] == b[i]
        invariant
            i <= a@.len(),
            i <= b@.len(),
            c == byte_order_fn(),
            bytes_order(a@, b@) == lex_order(a@.skip(i as int), b@.skip(i as int), c),
        decreases a.len() - i,
    {
        proof {
            assert(a@.skip(i as int)[0] == a@[i as int]);
            assert(b@.skip(i as int)[0] == b@[i as int]);
            assert(c(a@[i as int], b@[i as int]) == 0);
            assert(a@.skip(i as int).drop_first() =~= a@.skip(i + 1));
            assert(b@.skip(i as int).drop_first() =~= b@.skip(i + 1));
        }
        i = i + 1;
    }
    if i == a.len() {
        if i == b.len() {
            0
        } else {
            -1
        }
    } else if i == b.len() {
        1
    } else if a[i] < b[i] {
        -1
    } else {
        1
    }
}

} // verus!
