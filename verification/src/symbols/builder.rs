//! A shorthand to build an alphabet out of the usual groups of symbols.
use vstd::prelude::*;

verus! {

/// The symbols from `lo` to `hi`, both included.
pub open spec fn symbol_range(lo: char, hi: char) -> Set<char> {
    Set::new(|c: char| lo as u32 <= c as u32 <= hi as u32)
}

/// The digits `0` to `9`.
pub open spec fn digits() -> Set<char> {
    symbol_range('0', '9')
}

/// The capital letters `A` to `Z`.
pub open spec fn latin_uc() -> Set<char> {
    symbol_range('A', 'Z')
}

/// The small letters `a` to `z`.
pub open spec fn latin_lc() -> Set<char> {
    symbol_range('a', 'z')
}

/// Each symbol comes before the next one, so none occurs twice.
pub open spec fn strictly_increasing(s: Seq<char>) -> bool {
    forall|i: int, j: int| 0 <= i < j < s.len() ==> (s[i] as u32) < (s[j] as u32)
}

/// Symbols in strictly increasing order are all different.
pub proof fn lemma_increasing_has_no_duplicates(s: Seq<char>)
    requires
        strictly_increasing(s),
    ensures
        s.no_duplicates(),
{
    assert forall|i: int, j: int| 0 <= i < s.len() && 0 <= j < s.len() && i != j implies s[i]
        != s[j] by {
        if i < j {
            assert((s[i] as u32) < (s[j] as u32));
        } else {
            assert((s[j] as u32) < (s[i] as u32));
        }
    }
}

/// Two symbols with the same code point are the same symbol.
pub proof fn lemma_code_point_tells(a: char, b: char)
    ensures
        a as u32 == b as u32 ==> a == b,
{
    vstd::utf8::char_u32_cast(a, a as u32);
    vstd::utf8::char_u32_cast(b, b as u32);
}

/// Inserting a symbol into a sequence adds it to the symbols that occur.
pub proof fn lemma_insert_to_set(s: Seq<char>, i: int, c: char)
    requires
        0 <= i <= s.len(),
    ensures
        s.insert(i, c).to_set() == s.to_set().insert(c),
{
    let t = s.insert(i, c);
    assert forall|x: char| t.to_set().contains(x) <==> s.to_set().insert(c).contains(x) by {
        if t.contains(x) {
            let j = choose|j: int| 0 <= j < t.len() && t[j] == x;
            if j < i {
                assert(s[j] == x);
            } else if j > i {
                assert(s[j - 1] == x);
            }
        }
        if s.contains(x) {
            let j = choose|j: int| 0 <= j < s.len() && s[j] == x;
            if j < i {
                assert(t[j] == x);
            } else {
                assert(t[j + 1] == x);
            }
        }
        if x == c {
            assert(t[i] == c);
        }
    }
    assert(t.to_set() =~= s.to_set().insert(c));
}

/// `Vec::into_boxed_slice` turns the vector into a boxed slice of the same
/// elements in the same order.
#[verifier::external_body]
fn into_boxed_slice(v: Vec<char>) -> (b: Box<[char]>)
    ensures
        b@ == v@,
{
    v.into_boxed_slice()
}

/// Collects the symbols of an alphabet. The symbols are kept in the order
/// of their code points, each once, so that the same symbols always give the
/// same alphabet.
#[derive(Debug)]
pub struct Builder {
    chars: Vec<char>,
}

impl View for Builder {
    type V = Set<char>;

    /// The symbols collected so far.
    closed spec fn view(&self) -> Set<char> {
        self.chars@.to_set()
    }
}

impl Default for Builder {
    fn default() -> (res: Self)
        ensures
            res.wf(),
            res@ == Set::<char>::empty(),
    {
        Builder::new()
    }
}

impl Builder {
    /// The representation invariant: the symbols are kept in strictly
    /// increasing order.
    pub closed spec fn wf(&self) -> bool {
        strictly_increasing(self.chars@)
    }

    /// Creates a builder that holds no symbol.
    pub fn new() -> (res: Self)
        ensures
            res.wf(),
            res@ == Set::<char>::empty(),
    {
        let res = Builder { chars: Vec::new() };
        assert(res@ =~= Set::<char>::empty());
        res
    }

    /// Hands out the alphabet: the collected symbols in the order of their
    /// code points.
    pub fn build(self) -> (res: Box<[char]>)
        requires
            self.wf(),
            !self@.is_empty(),
        ensures
            res@.to_set() == self@,
            strictly_increasing(res@),
            res@.no_duplicates(),
            res@.len() > 0,
    {
        proof {
            lemma_increasing_has_no_duplicates(self.chars@);
            if self.chars@.len() == 0 {
                assert(self@ =~= Set::<char>::empty());
            }
        }
        into_boxed_slice(self.chars)
    }

    /// Adds the digits `0` to `9`.
    pub fn with_digits(self) -> (res: Self)
        requires
            self.wf(),
        ensures
            res.wf(),
            res@ == self@.union(digits()),
    {
        self.with_range(48, 57)
    }

    /// Adds the capital letters `A` to `Z`.
    pub fn with_latin_uc(self) -> (res: Self)
        requires
            self.wf(),
        ensures
            res.wf(),
            res@ == self@.union(latin_uc()),
    {
        self.with_range(65, 90)
    }

    /// Adds the small letters `a` to `z`.
    pub fn with_latin_lc(self) -> (res: Self)
        requires
            self.wf(),
        ensures
            res.wf(),
            res@ == self@.union(latin_lc()),
    {
        self.with_range(97, 122)
    }

    /// Adds the capital and the small letters.
    pub fn with_latin_letters(self) -> (res: Self)
        requires
            self.wf(),
        ensures
            res.wf(),
            res@ == self@.union(latin_uc()).union(latin_lc()),
    {
        self.with_latin_uc().with_latin_lc()
    }

    /// Adds the letters and the digits.
    pub fn with_alphanumeric(self) -> (res: Self)
        requires
            self.wf(),
        ensures
            res.wf(),
            res@ == self@.union(latin_uc()).union(latin_lc()).union(digits()),
    {
        self.with_latin_letters().with_digits()
    }

    /// Adds one symbol.
    pub fn with_char(self, char: char) -> (res: Self)
        requires
            self.wf(),
        ensures
            res.wf(),
            res@ == self@.insert(char),
    {
        let mut chars = self.chars;
        let ghost before = chars@;
        let mut i: usize = 0;
        while i < chars.len() && (chars[i] as u32) < (char as u32)
            invariant
                i <= chars.len(),
                chars@ == before,
                strictly_increasing(before),
                forall|j: int| 0 <= j < i ==> (before[j] as u32) < (char as u32),
            decreases chars.len() - i,
        {
            i = i + 1;
        }
        if i < chars.len() && chars[i] == char {
            assert(before.to_set().insert(char) =~= before.to_set());
        } else {
            chars.insert(i, char);
            proof {
                lemma_insert_to_set(before, i as int, char);
                assert forall|a: int, b: int| 0 <= a < b < chars@.len() implies (chars@[a] as u32)
                    < (chars@[b] as u32) by {
                    if i < before.len() {
                        lemma_code_point_tells(before[i as int], char);
                    }
                }
            }
        }
        Builder { chars }
    }

    /// Adds each symbol of a slice.
    pub fn with_chars(self, chars: &[char]) -> (res: Self)
        requires
            self.wf(),
        ensures
            res.wf(),
            res@ == self@.union(chars@.to_set()),
    {
        let mut res = self;
        let mut i: usize = 0;
        assert(chars@.subrange(0, 0).to_set() =~= Set::<char>::empty());
        assert(self@.union(Set::<char>::empty()) =~= self@);
        while i < chars.len()
            invariant
                i <= chars.len(),
                res.wf(),
                res@ == self@.union(chars@.subrange(0, i as int).to_set()),
            decreases chars.len() - i,
        {
            proof {
                let head = chars@.subrange(0, i as int);
                lemma_insert_to_set(head, i as int, chars@[i as int]);
                assert(head.insert(i as int, chars@[i as int]) =~= chars@.subrange(0, i + 1));
                assert(self@.union(head.to_set()).insert(chars@[i as int]) =~= self@.union(
                    head.to_set().insert(chars@[i as int]),
                ));
            }
            res = res.with_char(chars[i]);
            i = i + 1;
        }
        assert(chars@.subrange(0, i as int) =~= chars@);
        res
    }

    /// Whether no symbol has been collected.
    pub fn is_empty(&self) -> (r: bool)
        ensures
            r == self@.is_empty(),
    {
        proof {
            if self.chars@.len() == 0 {
                assert(self@ =~= Set::<char>::empty());
            } else {
                assert(self.chars@.contains(self.chars@[0]));
                assert(self@.contains(self.chars@[0]));
            }
        }
        self.chars.len() == 0
    }

    /// Adds the symbols with the code points `lo` to `hi`.
    fn with_range(self, lo: u8, hi: u8) -> (res: Self)
        requires
            self.wf(),
            lo <= hi < 128,
        ensures
            res.wf(),
            res@ == self@.union(symbol_range(lo as char, hi as char)),
    {
        let mut res = self;
        let mut b: u8 = lo;
        assert(self@.union(Set::new(|c: char| lo as u32 <= c as u32 && (c as u32) < b as u32)) =~= self@);
        while b <= hi
            invariant
                lo <= b <= hi + 1,
                hi < 128,
                res.wf(),
                res@ == self@.union(Set::new(|c: char| lo as u32 <= c as u32 && (c as u32) < b as u32)),
            decreases hi + 1 - b,
        {
            let c: char = b as char;
            assert(c as u32 == b as u32);
            res = res.with_char(c);
            proof {
                let target = self@.union(
                    Set::new(|c: char| lo as u32 <= c as u32 && (c as u32) < b as u32 + 1),
                );
                assert forall|x: char| #[trigger] res@.contains(x) <==> target.contains(x) by {
                    lemma_code_point_tells(x, c);
                }
                assert(res@ =~= target);
            }
            b = b + 1;
        }
        assert(res@ =~= self@.union(symbol_range(lo as char, hi as char)));
        res
    }
}

} // verus!
