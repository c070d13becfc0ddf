//! Shortlex order on strings over an alphabet: shorter strings first, strings
//! of one length by their symbol indices. The position of a string in that
//! order, the odometer step that leads to the next string, and the laws that
//! tie the two together.
use vstd::prelude::*;
use vstd::arithmetic::power::*;
use crate::symbols::{space_size, lemma_pow_nat, lemma_space_size_grows};

verus! {

/// Every digit names a symbol of an alphabet of `k` symbols.
pub open spec fn valid_digits(s: Seq<nat>, k: nat) -> bool {
    forall|i: int| 0 <= i < s.len() ==> #[trigger] s[i] < k
}

/// Position of the string with symbol indices `s` among all strings over `k`
/// symbols in shortlex order, the empty string being at position 0.
pub open spec fn shortlex_index(s: Seq<nat>, k: nat) -> nat
    decreases s.len(),
{
    if s.len() == 0 {
        0
    } else {
        ((s[0] + 1) * pow(k as int, (s.len() - 1) as nat)) as nat + shortlex_index(
            s.drop_first(),
            k,
        )
    }
}

/// The string that a sequence of symbol indices spells over `charset`.
pub open spec fn spelled(s: Seq<nat>, charset: Seq<char>) -> Seq<char> {
    Seq::new(s.len(), |i: int| charset[s[i] as int])
}

/// Over an alphabet that holds no symbol twice, two strings that read the
/// same have the same symbol indices.
pub proof fn lemma_spelled_is_injective(a: Seq<nat>, b: Seq<nat>, charset: Seq<char>)
    requires
        valid_digits(a, charset.len()),
        valid_digits(b, charset.len()),
        charset.no_duplicates(),
        spelled(a, charset) == spelled(b, charset),
    ensures
        a == b,
{
    assert(a.len() == spelled(a, charset).len());
    assert(b.len() == spelled(b, charset).len());
    assert forall|i: int| 0 <= i < a.len() implies a[i] == b[i] by {
        assert(spelled(a, charset)[i] == charset[a[i] as int]);
        assert(spelled(b, charset)[i] == charset[b[i] as int]);
    }
    assert(a =~= b);
}

/// A string of `n` symbols comes after all shorter strings and before all
/// longer ones.
pub proof fn lemma_shortlex_index_bounds(s: Seq<nat>, k: nat)
    requires
        valid_digits(s, k),
    ensures
        s.len() > 0 ==> shortlex_index(s, k) >= space_size(k, 0, (s.len() - 1) as nat),
        shortlex_index(s, k) < space_size(k, 0, s.len()),
    decreases s.len(),
{
    if s.len() > 0 {
        let n = s.len();
        let t = s.drop_first();
        let w = pow(k as int, (n - 1) as nat);
        assert(valid_digits(t, k)) by {
            assert forall|i: int| 0 <= i < t.len() implies #[trigger] t[i] < k by {
                assert(t[i] == s[i + 1]);
            }
        }
        lemma_shortlex_index_bounds(t, k);
        lemma_pow_nat(k, (n - 1) as nat);
        assert(s[0] < k);
        assert((s[0] + 1) * w >= w) by (nonlinear_arith)
            requires
                w >= 0,
                s[0] >= 0,
        ;
        assert((s[0] + 1) * w <= k * w) by (nonlinear_arith)
            requires
                w >= 0,
                s[0] + 1 <= k,
        ;
        assert(pow(k as int, n) == k * w) by {
            reveal(pow);
        }
        if n == 1 {
            assert(w == 1) by {
                reveal(pow);
            }
        }
    }
}

/// Appending a symbol multiplies the position by the alphabet's size and
/// adds the symbol's own place.
pub proof fn lemma_shortlex_index_push(s: Seq<nat>, d: nat, k: nat)
    ensures
        shortlex_index(s.push(d), k) == shortlex_index(s, k) * k + d + 1,
    decreases s.len(),
{
    let sp = s.push(d);
    if s.len() == 0 {
        assert(sp.drop_first() =~= Seq::<nat>::empty());
        assert(pow(k as int, 0) == 1) by {
            reveal(pow);
        }
        assert(shortlex_index(sp.drop_first(), k) == 0);
        assert(shortlex_index(s, k) * k == 0) by (nonlinear_arith)
            requires
                shortlex_index(s, k) == 0,
        ;
        assert(sp[0] == d);
        assert((d + 1) * pow(k as int, 0) == d + 1) by (nonlinear_arith)
            requires
                pow(k as int, 0) == 1,
        ;
        assert(shortlex_index(sp, k) == ((sp[0] + 1) * pow(k as int, (sp.len() - 1) as nat)) as nat
            + shortlex_index(sp.drop_first(), k));
    } else {
        let n = s.len();
        let t = s.drop_first();
        let w = pow(k as int, (n - 1) as nat);
        assert(sp.drop_first() =~= t.push(d));
        lemma_shortlex_index_push(t, d, k);
        lemma_pow_nat(k, (n - 1) as nat);
        lemma_pow_nat(k, n);
        assert(pow(k as int, n) == k * w) by {
            reveal(pow);
        }
        assert((s[0] + 1) * w >= 0) by (nonlinear_arith)
            requires
                w >= 0,
        ;
        assert((s[0] + 1) * (k * w) >= 0) by (nonlinear_arith)
            requires
                w >= 0,
        ;
        assert((s[0] + 1) * (k * w) + shortlex_index(t, k) * k == ((s[0] + 1) * w
            + shortlex_index(t, k)) * k) by (nonlinear_arith);
        assert(sp[0] == s[0]);
        assert(shortlex_index(sp, k) == ((sp[0] + 1) * pow(k as int, (sp.len() - 1) as nat)) as nat
            + shortlex_index(sp.drop_first(), k));
        assert(shortlex_index(s, k) == ((s[0] + 1) * w) as nat + shortlex_index(t, k));
    }
}

/// Two strings at the same position are the same string.
pub proof fn lemma_shortlex_index_injective(a: Seq<nat>, b: Seq<nat>, k: nat)
    requires
        valid_digits(a, k),
        valid_digits(b, k),
        shortlex_index(a, k) == shortlex_index(b, k),
    ensures
        a == b,
    decreases a.len(),
{
    lemma_shortlex_index_bounds(a, k);
    lemma_shortlex_index_bounds(b, k);
    if a.len() < b.len() {
        lemma_space_size_grows(k, 0, a.len(), (b.len() - 1) as nat);
    }
    if b.len() < a.len() {
        lemma_space_size_grows(k, 0, b.len(), (a.len() - 1) as nat);
    }
    assert(a.len() == b.len());
    if a.len() > 0 {
        let n = a.len();
        let w = pow(k as int, (n - 1) as nat);
        let ta = a.drop_first();
        let tb = b.drop_first();
        assert(valid_digits(ta, k)) by {
            assert forall|i: int| 0 <= i < ta.len() implies #[trigger] ta[i] < k by {
                assert(ta[i] == a[i + 1]);
            }
        }
        assert(valid_digits(tb, k)) by {
            assert forall|i: int| 0 <= i < tb.len() implies #[trigger] tb[i] < k by {
                assert(tb[i] == b[i + 1]);
            }
        }
        lemma_shortlex_index_bounds(ta, k);
        lemma_shortlex_index_bounds(tb, k);
        lemma_pow_nat(k, (n - 1) as nat);
        let base: int = if n > 1 {
            space_size(k, 0, (n - 2) as nat) as int
        } else {
            0
        };
        assert(space_size(k, 0, (n - 1) as nat) == w + base) by {
            reveal(pow);
        }
        let xa = shortlex_index(ta, k) - base;
        let xb = shortlex_index(tb, k) - base;
        assert((a[0] + 1) * w >= 0 && (b[0] + 1) * w >= 0) by (nonlinear_arith)
            requires
                w >= 0,
        ;
        assert(a[0] == b[0]) by (nonlinear_arith)
            requires
                (a[0] + 1) * w + xa == (b[0] + 1) * w + xb,
                0 <= xa < w,
                0 <= xb < w,
        ;
        lemma_shortlex_index_injective(ta, tb, k);
        assert(a =~= b) by {
            assert forall|i: int| 0 <= i < a.len() implies a[i] == b[i] by {
                if i > 0 {
                    assert(ta[i - 1] == a[i]);
                    assert(tb[i - 1] == b[i]);
                }
            }
        }
    }
}

/// The string of `n` symbols that holds the alphabet's first symbol only.
pub open spec fn first_of_length(n: nat) -> Seq<nat> {
    Seq::new(n, |i: int| 0nat)
}

/// The first string of a length comes right after all shorter strings.
pub proof fn lemma_first_of_length_index(k: nat, n: nat)
    ensures
        n == 0 ==> shortlex_index(first_of_length(n), k) == 0,
        n > 0 ==> shortlex_index(first_of_length(n), k) == space_size(k, 0, (n - 1) as nat),
    decreases n,
{
    if n > 0 {
        let s = first_of_length(n);
        assert(s.drop_first() =~= first_of_length((n - 1) as nat));
        lemma_first_of_length_index(k, (n - 1) as nat);
        lemma_pow_nat(k, (n - 1) as nat);
        assert(s[0] == 0);
        assert((s[0] + 1) * pow(k as int, (n - 1) as nat) == pow(k as int, (n - 1) as nat))
            by (nonlinear_arith)
            requires
                s[0] == 0,
        ;
        if n == 1 {
            assert(pow(k as int, 0) == 1) by {
                reveal(pow);
            }
        }
    }
}

/// The strings of at most `max` symbols are those shorter than `min` and
/// those of `min` to `max` symbols: the first string of `min` symbols stands
/// exactly `space_size(k, min, max)` positions before the end.
pub proof fn lemma_first_of_length_to_end(k: nat, min: nat, max: nat)
    requires
        min <= max,
    ensures
        shortlex_index(first_of_length(min), k) + space_size(k, min, max) == space_size(k, 0, max),
    decreases max,
{
    lemma_first_of_length_index(k, min);
    lemma_pow_nat(k, max);
    if max > min {
        lemma_first_of_length_to_end(k, min, (max - 1) as nat);
    } else if max > 0 {
        assert(space_size(k, min, (max - 1) as nat) == 0);
    }
}

/// The string that follows `s`: the last symbol is raised; where it was the
/// alphabet's last, it falls back to the first and the carry goes to the
/// symbol before it; a carry out of the first symbol gives the string of one
/// more symbol that holds the first symbol only.
pub open spec fn successor(s: Seq<nat>, k: nat) -> Seq<nat>
    decreases s.len(),
{
    if s.len() == 0 {
        seq![0nat]
    } else if s.last() + 1 < k {
        s.drop_last().push(s.last() + 1)
    } else {
        successor(s.drop_last(), k).push(0)
    }
}

/// The string reached from `s` by `n` single steps.
pub open spec fn nth_successor(s: Seq<nat>, k: nat, n: nat) -> Seq<nat>
    decreases n,
{
    if n == 0 {
        s
    } else {
        successor(nth_successor(s, k, (n - 1) as nat), k)
    }
}

/// A single step leads to the next position, and to a string over the same
/// alphabet.
pub proof fn lemma_successor_index(s: Seq<nat>, k: nat)
    requires
        valid_digits(s, k),
        k >= 1,
    ensures
        valid_digits(successor(s, k), k),
        shortlex_index(successor(s, k), k) == shortlex_index(s, k) + 1,
        s.len() <= successor(s, k).len() <= s.len() + 1,
    decreases s.len(),
{
    if s.len() == 0 {
        lemma_shortlex_index_push(s, 0, k);
        assert(seq![0nat] =~= s.push(0));
        assert(shortlex_index(s, k) * k == 0) by (nonlinear_arith)
            requires
                shortlex_index(s, k) == 0,
        ;
    } else {
        let p = s.drop_last();
        let l = s.last();
        assert(s =~= p.push(l));
        lemma_shortlex_index_push(p, l, k);
        if l + 1 < k {
            lemma_shortlex_index_push(p, l + 1, k);
        } else {
            lemma_successor_index(p, k);
            lemma_shortlex_index_push(successor(p, k), 0, k);
            assert((shortlex_index(p, k) + 1) * k == shortlex_index(p, k) * k + k)
                by (nonlinear_arith);
        }
    }
}

/// `n` single steps lead `n` positions on.
pub proof fn lemma_nth_successor_index(s: Seq<nat>, k: nat, n: nat)
    requires
        valid_digits(s, k),
        k >= 1,
    ensures
        valid_digits(nth_successor(s, k, n), k),
        shortlex_index(nth_successor(s, k, n), k) == shortlex_index(s, k) + n,
    decreases n,
{
    if n > 0 {
        lemma_nth_successor_index(s, k, (n - 1) as nat);
        lemma_successor_index(nth_successor(s, k, (n - 1) as nat), k);
    }
}

/// Moving `n` positions at once ends on the string that `n` single steps
/// end on.
pub proof fn lemma_advance_is_repeated_step(from: Seq<nat>, to: Seq<nat>, k: nat, n: nat)
    requires
        valid_digits(from, k),
        valid_digits(to, k),
        k >= 1 || n == 0,
        shortlex_index(to, k) == shortlex_index(from, k) + n,
    ensures
        to == nth_successor(from, k, n),
{
    if n == 0 {
        lemma_shortlex_index_injective(from, to, k);
    } else {
        lemma_nth_successor_index(from, k, n);
        lemma_shortlex_index_injective(to, nth_successor(from, k, n), k);
    }
}

/// Two moves in a row are one move by the sum.
pub proof fn lemma_nth_successor_adds(s: Seq<nat>, k: nat, m: nat, n: nat)
    requires
        valid_digits(s, k),
        k >= 1,
    ensures
        nth_successor(nth_successor(s, k, m), k, n) == nth_successor(s, k, m + n),
{
    lemma_nth_successor_index(s, k, m);
    lemma_nth_successor_index(nth_successor(s, k, m), k, n);
    lemma_nth_successor_index(s, k, m + n);
    lemma_shortlex_index_injective(
        nth_successor(nth_successor(s, k, m), k, n),
        nth_successor(s, k, m + n),
        k,
    );
}

} // verus!
