//! Alphabets and the size of the candidate space they span.
use vstd::prelude::*;
use vstd::arithmetic::power::*;

pub mod builder;

pub use builder::Builder;

verus! {

/// Why a search configuration is refused before any worker starts.
#[derive(Clone, Copy, Debug, PartialEq, Eq, Structural)]
pub enum ConfigurationError {
    /// The minimum length is greater than the maximum length.
    Range,
    /// The number of candidates does not fit in `usize`.
    Overflow,
    /// The alphabet is empty although candidates longer than zero are asked for.
    EmptyAlphabet,
}

/// Number of strings over `k` symbols whose length lies in `[min, max]`:
/// the sum of `k^len` over those lengths, with `0^0 == 1`.
pub open spec fn space_size(k: nat, min: nat, max: nat) -> nat
    decreases max,
{
    if max < min {
        0
    } else if max == 0 {
        1
    } else {
        pow(k as int, max) as nat + space_size(k, min, (max - 1) as nat)
    }
}

/// The parameters describe a search that can be run: the lengths are in
/// order, and the alphabet is empty only where no candidate has a symbol.
pub open spec fn valid_search(charset: Seq<char>, min_length: nat, max_length: nat) -> bool {
    &&& min_length <= max_length
    &&& (charset.len() > 0 || max_length == 0)
    &&& space_size(charset.len(), min_length, max_length) <= usize::MAX
}

/// Why the parameters are refused, if they are: the lengths are looked at
/// first, then the alphabet, then the size of the space.
pub open spec fn refusal(charset: Seq<char>, min_length: nat, max_length: nat) -> Option<
    ConfigurationError,
> {
    if min_length > max_length {
        Some(ConfigurationError::Range)
    } else if charset.len() == 0 && max_length > 0 {
        Some(ConfigurationError::EmptyAlphabet)
    } else if space_size(charset.len(), min_length, max_length) > usize::MAX {
        Some(ConfigurationError::Overflow)
    } else {
        None
    }
}

/// A power of a natural number is a natural number.
pub proof fn lemma_pow_nat(k: nat, e: nat)
    ensures
        pow(k as int, e) >= 0,
        k >= 1 ==> pow(k as int, e) >= 1,
    decreases e,
{
    reveal(pow);
    if e > 0 {
        lemma_pow_nat(k, (e - 1) as nat);
        assert(pow(k as int, e) == k * pow(k as int, (e - 1) as nat));
        assert(k * pow(k as int, (e - 1) as nat) >= 0) by (nonlinear_arith)
            requires
                k >= 0,
                pow(k as int, (e - 1) as nat) >= 0,
        ;
        if k >= 1 {
            assert(k * pow(k as int, (e - 1) as nat) >= 1) by (nonlinear_arith)
                requires
                    k >= 1,
                    pow(k as int, (e - 1) as nat) >= 1,
            ;
        }
    }
}

/// The space of a range holds at least its longest strings.
pub proof fn lemma_space_size_lower_bound(k: nat, min: nat, max: nat)
    requires
        min <= max,
    ensures
        space_size(k, min, max) >= pow(k as int, max),
        space_size(k, min, max) >= 1 || k == 0,
{
    lemma_pow_nat(k, max);
    if max == 0 {
        reveal(pow);
    }
}

/// What counting the candidates comes to: a refusal where the lengths are
/// out of order or the number does not fit in `usize`, the number otherwise.
pub open spec fn counted(k: nat, min: nat, max: nat) -> Result<usize, ConfigurationError> {
    if min > max {
        Err(ConfigurationError::Range)
    } else if space_size(k, min, max) > usize::MAX {
        Err(ConfigurationError::Overflow)
    } else {
        Ok(space_size(k, min, max) as usize)
    }
}

/// Raises `k` to the power `e`, if the power fits in `usize`.
pub fn checked_power(k: usize, e: u8) -> (res: Option<usize>)
    ensures
        match res {
            Some(p) => p == pow(k as int, e as nat),
            None => pow(k as int, e as nat) > usize::MAX,
        },
{
    let mut power: usize = 1;
    let mut i: u8 = 0;
    proof {
        reveal(pow);
    }
    while i < e
        invariant
            i <= e,
            power == pow(k as int, i as nat),
        decreases e - i,
    {
        proof {
            reveal(pow);
            assert(pow(k as int, (i + 1) as nat) == k * pow(k as int, i as nat));
            assert(k * pow(k as int, i as nat) == pow(k as int, i as nat) * k)
                by (nonlinear_arith);
        }
        match power.checked_mul(k) {
            Some(p) => {
                power = p;
            },
            None => {
                proof {
                    if k >= 1 {
                        lemma_pow_increases(k as nat, (i + 1) as nat, e as nat);
                    } else {
                        assert(power * k == 0) by (nonlinear_arith)
                            requires
                                k == 0,
                        ;
                    }
                }
                return None;
            },
        }
        i = i + 1;
    }
    Some(power)
}

/// Counts the candidates over `charset` whose length lies in
/// `[min_length, max_length]`.
///
/// Every product and every partial sum is checked: the count is returned
/// only when it fits in `usize`.
pub fn combination_count(charset: &[char], min_length: u8, max_length: u8) -> (res: Result<
    usize,
    ConfigurationError,
>)
    ensures
        res == counted(charset@.len(), min_length as nat, max_length as nat),
{
    if min_length > max_length {
        return Err(ConfigurationError::Range);
    }
    let k: usize = charset.len();
    let ghost kn: nat = charset@.len();
    let ghost lo: nat = min_length as nat;
    let ghost hi: nat = max_length as nat;
    let mut power: usize = match checked_power(k, min_length) {
        Some(p) => p,
        None => {
            proof {
                lemma_space_size_lower_bound(kn, lo, lo);
                lemma_space_size_grows(kn, lo, lo, hi);
            }
            return Err(ConfigurationError::Overflow);
        },
    };
    let mut e: u8 = min_length;
    let mut sum: usize = power;
    proof {
        lemma_space_size_single(kn, lo);
    }
    while e < max_length
        invariant
            min_length <= e <= max_length,
            k == kn,
            kn == charset@.len(),
            lo == min_length as nat,
            hi == max_length as nat,
            power == pow(kn as int, e as nat),
            sum == space_size(kn, lo, e as nat),
        decreases max_length - e,
    {
        proof {
            reveal(pow);
            assert(pow(kn as int, (e + 1) as nat) == kn * pow(kn as int, e as nat));
            assert(kn * pow(kn as int, e as nat) == pow(kn as int, e as nat) * kn)
                by (nonlinear_arith);
            lemma_space_size_grows(kn, lo, (e + 1) as nat, hi);
            lemma_space_size_lower_bound(kn, lo, (e + 1) as nat);
            lemma_pow_nat(kn, (e + 1) as nat);
        }
        match power.checked_mul(k) {
            Some(p) => {
                power = p;
            },
            None => {
                return Err(ConfigurationError::Overflow);
            },
        }
        e = e + 1;
        match sum.checked_add(power) {
            Some(s) => {
                sum = s;
            },
            None => {
                return Err(ConfigurationError::Overflow);
            },
        }
    }
    Ok(sum)
}

/// Number of candidates of at least `min` symbols that are shorter than
/// `len` symbols.
pub open spec fn shorter_candidates(k: nat, min: nat, len: nat) -> nat {
    if len <= min {
        0
    } else {
        space_size(k, min, (len - 1) as nat)
    }
}

/// The candidate at place `index` has `len` symbols: it comes after all
/// shorter candidates and before all longer ones.
pub open spec fn has_length_at(k: nat, min: nat, max: nat, index: nat, len: nat) -> bool {
    &&& min <= len <= max
    &&& shorter_candidates(k, min, len) <= index < space_size(k, min, len)
}

/// A place holds candidates of one length only.
pub proof fn lemma_length_at_is_unique(k: nat, min: nat, max: nat, index: nat, a: nat, b: nat)
    requires
        has_length_at(k, min, max, index, a),
        has_length_at(k, min, max, index, b),
    ensures
        a == b,
{
    if a < b {
        lemma_space_size_grows(k, min, a, (b - 1) as nat);
    }
    if b < a {
        lemma_space_size_grows(k, min, b, (a - 1) as nat);
    }
}

/// Says how many symbols the candidate at place `index` has, the first
/// candidate of `min_length` symbols being at place 0. There is none when
/// the lengths are out of order or the place is past the last candidate.
pub fn length_at(charset: &[char], min_length: u8, max_length: u8, index: usize) -> (res: Option<
    u8,
>)
    ensures
        match res {
            Some(len) => has_length_at(
                charset@.len(),
                min_length as nat,
                max_length as nat,
                index as nat,
                len as nat,
            ),
            None => min_length > max_length || index >= space_size(
                charset@.len(),
                min_length as nat,
                max_length as nat,
            ),
        },
{
    if min_length > max_length {
        return None;
    }
    let k: usize = charset.len();
    let ghost kn: nat = charset@.len();
    let ghost lo: nat = min_length as nat;
    let mut power: usize = match checked_power(k, min_length) {
        Some(p) => p,
        None => {
            proof {
                lemma_space_size_single(kn, lo);
            }
            return Some(min_length);
        },
    };
    let mut e: u8 = min_length;
    let mut below: usize = 0;
    proof {
        lemma_space_size_single(kn, lo);
    }
    loop
        invariant
            min_length <= e <= max_length,
            k == kn,
            kn == charset@.len(),
            lo == min_length as nat,
            power == pow(kn as int, e as nat),
            below == shorter_candidates(kn, lo, e as nat),
            below <= index,
            below + power == space_size(kn, lo, e as nat),
        decreases max_length - e,
    {
        if index - below < power {
            return Some(e);
        }
        if e == max_length {
            return None;
        }
        below = below + power;
        proof {
            reveal(pow);
            assert(pow(kn as int, (e + 1) as nat) == kn * pow(kn as int, e as nat));
            assert(kn * pow(kn as int, e as nat) == pow(kn as int, e as nat) * kn)
                by (nonlinear_arith);
        }
        match power.checked_mul(k) {
            Some(p) => {
                power = p;
            },
            None => {
                return Some((e + 1) as u8);
            },
        }
        e = e + 1;
    }
}

/// The space of a single length is one power.
pub proof fn lemma_space_size_single(k: nat, len: nat)
    ensures
        space_size(k, len, len) == pow(k as int, len),
{
    lemma_pow_nat(k, len);
    reveal(pow);
    if len > 0 {
        assert(space_size(k, len, (len - 1) as nat) == 0);
    }
}

/// Widening a range upwards never shrinks its space.
pub proof fn lemma_space_size_grows(k: nat, min: nat, mid: nat, max: nat)
    requires
        mid <= max,
    ensures
        space_size(k, min, mid) <= space_size(k, min, max),
    decreases max,
{
    if mid < max {
        lemma_space_size_grows(k, min, mid, (max - 1) as nat);
        lemma_pow_nat(k, max);
    }
}

} // verus!
