//! The candidate counter: a cursor that walks every string over an alphabet
//! in shortlex order (shorter strings first, equal lengths by symbol index).
use vstd::prelude::*;
use vstd::arithmetic::power::*;
use crate::symbols::{ConfigurationError, space_size, lemma_pow_nat, lemma_space_size_grows};
use crate::shortlex::{
    first_of_length,
    lemma_advance_is_repeated_step,
    lemma_first_of_length_to_end,
    lemma_shortlex_index_bounds,
    nth_successor,
    shortlex_index,
    spelled,
    valid_digits,
};

verus! {

/// Marks a position of the counter that holds no symbol.
pub const UNUSED: usize = usize::MAX;

/// The cursor would move past the last candidate of the greatest length.
#[derive(Clone, Copy, Debug, PartialEq, Eq, Structural)]
pub struct Exhausted;

/// The digits that a position vector holds between two places.
pub open spec fn digits_between(v: Seq<usize>, from: int, to: int) -> Seq<nat> {
    Seq::new((to - from) as nat, |i: int| v[from + i] as nat)
}

/// One digit of a carrying addition: what the digit and the carry become.
proof fn lemma_carry_step(d: int, c: int, n: int, c2: int, k: int, w: int, a: int, b: int)
    requires
        d + c == n + k * c2,
        a + c * w == b,
    ensures
        (n + 1) * w + a + c2 * (k * w) == (d + 1) * w + b,
{
    assert((n + 1) * w + c2 * (k * w) == (n + k * c2 + 1) * w) by (nonlinear_arith);
    assert((d + c + 1) * w == (d + 1) * w + c * w) by (nonlinear_arith);
}

/// Two position vectors that agree before `pos`, and whose digits from `pos`
/// on differ by `steps` places, differ by `steps` places as a whole.
proof fn lemma_extend_to_front(a: Seq<usize>, b: Seq<usize>, pos: int, len: int, k: nat, steps: nat)
    requires
        0 <= pos <= len <= a.len(),
        a.len() == b.len(),
        forall|i: int| 0 <= i < pos ==> a[i] == b[i],
        shortlex_index(digits_between(a, pos, len), k) == shortlex_index(
            digits_between(b, pos, len),
            k,
        ) + steps,
    ensures
        shortlex_index(digits_between(a, 0, len), k) == shortlex_index(
            digits_between(b, 0, len),
            k,
        ) + steps,
    decreases pos,
{
    if pos > 0 {
        let sa = digits_between(a, pos - 1, len);
        let sb = digits_between(b, pos - 1, len);
        assert(sa.drop_first() =~= digits_between(a, pos, len));
        assert(sb.drop_first() =~= digits_between(b, pos, len));
        assert(sa[0] == sb[0]);
        lemma_extend_to_front(a, b, pos - 1, len, k, steps);
    }
}

/// A cursor into the candidate space of one alphabet, holding the symbol
/// indices of the current candidate in the first places of a vector of fixed
/// length and `UNUSED` in the rest.
pub struct CandidateCounter<'a> {
    charset: &'a [char],
    positions: Vec<usize>,
    active: usize,
}

impl<'a> View for CandidateCounter<'a> {
    type V = Seq<nat>;

    /// The symbol indices of the current candidate, first symbol first.
    closed spec fn view(&self) -> Seq<nat> {
        digits_between(self.positions@, 0, self.active as int)
    }
}

impl<'a> CandidateCounter<'a> {
    /// The representation invariant: an active prefix of valid symbol indices,
    /// followed by unused positions only.
    pub closed spec fn wf(&self) -> bool {
        &&& self.active <= self.positions@.len()
        &&& self.positions@.len() <= u8::MAX
        &&& (self.charset@.len() >= 1 || self.positions@.len() == 0)
        &&& forall|i: int| 0 <= i < self.active ==> #[trigger] self.positions@[i] < self.charset@.len()
        &&& forall|i: int|
            self.active <= i < self.positions@.len() ==> #[trigger] self.positions@[i] == UNUSED
    }

    /// The alphabet that the counter draws its symbols from.
    pub closed spec fn alphabet(&self) -> Seq<char> {
        self.charset@
    }

    /// The greatest length of a candidate.
    pub closed spec fn capacity(&self) -> nat {
        self.positions@.len()
    }

    /// Position of the current candidate in shortlex order.
    pub open spec fn index(&self) -> nat {
        shortlex_index(self@, self.alphabet().len())
    }

    /// Number of candidates that the counter can stand on.
    pub open spec fn limit(&self) -> nat {
        space_size(self.alphabet().len(), 0, self.capacity())
    }

    /// What a well-formed counter says of its candidate.
    pub proof fn lemma_wf(&self)
        requires
            self.wf(),
        ensures
            valid_digits(self@, self.alphabet().len()),
            self@.len() <= self.capacity() <= u8::MAX,
            self.alphabet().len() >= 1 || self.capacity() == 0,
            self.index() < self.limit(),
    {
        lemma_shortlex_index_bounds(self@, self.alphabet().len());
        lemma_space_size_grows(self.alphabet().len(), 0, self@.len(), self.capacity());
    }

    /// Places the cursor on the first candidate of `min_length` symbols,
    /// for candidates of at most `max_length` symbols.
    pub fn seed(charset: &'a [char], min_length: u8, max_length: u8) -> (res: Result<
        Self,
        ConfigurationError,
    >)
        ensures
            min_length > max_length ==> res is Err && res->Err_0 == ConfigurationError::Range,
            min_length <= max_length && charset@.len() == 0 && max_length > 0 ==> res is Err
                && res->Err_0 == ConfigurationError::EmptyAlphabet,
            min_length <= max_length && (charset@.len() > 0 || max_length == 0) ==> res is Ok,
            res is Ok ==> {
                let c = res->Ok_0;
                &&& c.wf()
                &&& c.alphabet() == charset@
                &&& c.capacity() == max_length
                &&& c@ == first_of_length(min_length as nat)
                &&& c.index() + space_size(charset@.len(), min_length as nat, max_length as nat)
                    == c.limit()
            },
    {
        if min_length > max_length {
            return Err(ConfigurationError::Range);
        }
        if charset.len() == 0 && max_length > 0 {
            return Err(ConfigurationError::EmptyAlphabet);
        }
        let mut positions: Vec<usize> = Vec::new();
        let mut i: u8 = 0;
        while i < max_length
            invariant
                i <= max_length,
                min_length <= max_length,
                positions@.len() == i,
                forall|j: int| 0 <= j < i && j < min_length ==> #[trigger] positions@[j] == 0,
                forall|j: int| min_length <= j < i ==> #[trigger] positions@[j] == UNUSED,
            decreases max_length - i,
        {
            if i < min_length {
                positions.push(0);
            } else {
                positions.push(UNUSED);
            }
            i = i + 1;
        }
        let c = CandidateCounter { charset, positions, active: min_length as usize };
        assert(c@ =~= first_of_length(min_length as nat));
        proof {
            lemma_first_of_length_to_end(charset@.len(), min_length as nat, max_length as nat);
        }
        Ok(c)
    }

    /// Moves the cursor `steps` candidates forward.
    ///
    /// The outcome is that of `steps` single steps of an odometer: the last
    /// symbol is raised first, carries run towards the first symbol, and a
    /// carry out of the first symbol lengthens the candidate by one. When the
    /// cursor would leave the candidates of the greatest length the call
    /// fails, and the counter may then stand anywhere.
    pub fn advance(&mut self, steps: usize) -> (res: Result<(), Exhausted>)
        requires
            old(self).wf(),
        ensures
            final(self).wf(),
            final(self).alphabet() == old(self).alphabet(),
            final(self).capacity() == old(self).capacity(),
            res is Ok <==> old(self).index() + steps < old(self).limit(),
            res is Ok ==> final(self).index() == old(self).index() + steps,
            res is Ok ==> final(self)@ == nth_successor(
                old(self)@,
                old(self).alphabet().len(),
                steps as nat,
            ),
    {
        let k: usize = self.charset.len();
        let len: usize = self.active;
        let ghost kn: nat = self.charset@.len();
        let ghost before: Seq<usize> = self.positions@;
        let mut carry: usize = steps;
        let mut pos: usize = len;
        proof {
            reveal(pow);
            assert(digits_between(before, len as int, len as int) =~= Seq::<nat>::empty());
        }
        while pos > 0 && carry > 0
            invariant
                self.wf(),
                self.charset == old(self).charset,
                k == kn == self.charset@.len(),
                self.active == len,
                before == old(self).positions@,
                before.len() == self.positions@.len(),
                pos <= len <= before.len(),
                forall|i: int| 0 <= i < len ==> #[trigger] before[i] < k,
                forall|i: int| 0 <= i < pos ==> self.positions@[i] == before[i],
                shortlex_index(digits_between(self.positions@, pos as int, len as int), kn) + carry
                    * pow(kn as int, (len - pos) as nat) == shortlex_index(
                    digits_between(before, pos as int, len as int),
                    kn,
                ) + steps,
            decreases pos,
        {
            let ghost prev: Seq<usize> = self.positions@;
            let ghost w: int = pow(kn as int, (len - pos) as nat);
            pos = pos - 1;
            let d: usize = self.positions[pos];
            assert(d == before[pos as int]);
            assert(d < k);
            let q: usize = carry / k;
            let r: usize = carry % k;
            proof {
                assert(carry == k * q + r) by (nonlinear_arith)
                    requires
                        q == carry / k,
                        r == carry % k,
                        k > 0,
                ;
                if r >= 1 {
                    assert(q < usize::MAX) by (nonlinear_arith)
                        requires
                            carry == k * q + r,
                            r >= 1,
                            k >= 1,
                            q >= 0,
                            carry <= usize::MAX,
                    ;
                }
            }
            let digit: usize;
            let next: usize;
            if r >= k - d {
                digit = r - (k - d);
                next = q + 1;
                assert(d + carry == digit + k * next) by (nonlinear_arith)
                    requires
                        carry == k * q + r,
                        digit == r - (k - d),
                        next == q + 1,
                ;
            } else {
                digit = d + r;
                next = q;
            }
            self.positions.set(pos, digit);
            proof {
                let now = self.positions@;
                let sa = digits_between(now, pos as int, len as int);
                let sb = digits_between(before, pos as int, len as int);
                assert(sa.drop_first() =~= digits_between(prev, pos + 1, len as int));
                assert(sb.drop_first() =~= digits_between(before, pos + 1, len as int));
                assert(sa[0] == digit);
                assert(sb[0] == d);
                lemma_pow_nat(kn, (len - pos - 1) as nat);
                assert(pow(kn as int, (len - pos) as nat) == kn * w) by {
                    reveal(pow);
                }
                lemma_carry_step(
                    d as int,
                    carry as int,
                    digit as int,
                    next as int,
                    kn as int,
                    w,
                    shortlex_index(sa.drop_first(), kn) as int,
                    shortlex_index(sb.drop_first(), kn) + steps,
                );
                assert((digit + 1) * w >= 0) by (nonlinear_arith)
                    requires
                        w >= 0,
                        digit >= 0,
                ;
                assert((d + 1) * w >= 0) by (nonlinear_arith)
                    requires
                        w >= 0,
                        d >= 0,
                ;
            }
            carry = next;
        }
        proof {
            if pos > 0 {
                assert(carry == 0);
                assert(carry * pow(kn as int, (len - pos) as nat) == 0) by (nonlinear_arith)
                    requires
                        carry == 0,
                ;
                lemma_extend_to_front(
                    self.positions@,
                    before,
                    pos as int,
                    len as int,
                    kn,
                    steps as nat,
                );
                assert(0 * pow(kn as int, len as nat) == 0) by (nonlinear_arith);
            }
        }
        while carry > 0
            invariant
                self.wf(),
                self.charset == old(self).charset,
                k == kn == self.charset@.len(),
                self.positions@.len() == before.len(),
                before == old(self).positions@,
                len == old(self).active,
                shortlex_index(self@, kn) + carry * pow(kn as int, self@.len()) == shortlex_index(
                    digits_between(before, 0, len as int),
                    kn,
                ) + steps,
            decreases carry,
        {
            let ghost cur: Seq<nat> = self@;
            let ghost w: int = pow(kn as int, cur.len());
            proof {
                lemma_pow_nat(kn, cur.len());
            }
            if self.active == self.positions.len() {
                proof {
                    lemma_shortlex_index_bounds(cur, kn);
                    assert(carry * w >= w) by (nonlinear_arith)
                        requires
                            carry >= 1,
                            w >= 0,
                    ;
                    if cur.len() == 0 {
                        assert(w == 1) by {
                            reveal(pow);
                        }
                    }
                }
                return Err(Exhausted);
            }
            let c1: usize = carry - 1;
            let digit: usize = c1 % k;
            let next: usize = c1 / k;
            proof {
                assert(c1 == k * next + digit && next <= c1) by (nonlinear_arith)
                    requires
                        next == c1 / k,
                        digit == c1 % k,
                        k > 0,
                        c1 >= 0,
                ;
            }
            self.positions.pop();
            self.positions.insert(0, digit);
            self.active = self.active + 1;
            proof {
                let now = self@;
                assert(now.drop_first() =~= cur);
                assert(now[0] == digit);
                assert(pow(kn as int, now.len()) == kn * w) by {
                    reveal(pow);
                }
                lemma_carry_step(
                    -1,
                    carry as int,
                    digit as int,
                    next as int,
                    kn as int,
                    w,
                    shortlex_index(cur, kn) as int,
                    shortlex_index(digits_between(before, 0, len as int), kn) + steps,
                );
                assert((digit + 1) * w >= 0) by (nonlinear_arith)
                    requires
                        w >= 0,
                        digit >= 0,
                ;
            }
            carry = next;
        }
        proof {
            assert(carry * pow(kn as int, self@.len()) == 0) by (nonlinear_arith)
                requires
                    carry == 0,
            ;
            self.lemma_wf();
            old(self).lemma_wf();
            lemma_advance_is_repeated_step(old(self)@, self@, kn, steps as nat);
        }
        Ok(())
    }

    /// Writes the current candidate into `buffer`, replacing what it held.
    pub fn render(&self, buffer: &mut String)
        requires
            self.wf(),
        ensures
            final(buffer)@ == spelled(self@, self.alphabet()),
    {
        buffer.clear();
        let mut i: usize = 0;
        while i < self.active
            invariant
                self.wf(),
                i <= self.active,
                buffer@ == spelled(self@, self.alphabet()).subrange(0, i as int),
            decreases self.active - i,
        {
            let d: usize = self.positions[i];
            buffer.push(self.charset[d]);
            i = i + 1;
            assert(buffer@ =~= spelled(self@, self.alphabet()).subrange(0, i as int));
        }
        assert(buffer@ =~= spelled(self@, self.alphabet()));
    }

    /// Number of symbols of the current candidate.
    pub fn len(&self) -> (n: usize)
        requires
            self.wf(),
        ensures
            n == self@.len(),
    {
        self.active
    }
}

/// `String::push` appends the character to the end of the string.
pub assume_specification[ String::push ](s: &mut String, ch: char)
    ensures
        final(s)@ == old(s)@.push(ch),
;

/// `String::clear` removes all of the string's characters.
pub assume_specification[ String::clear ](s: &mut String)
    ensures
        final(s)@ == Seq::<char>::empty(),
;

} // verus!
