//! What the caller asks a search for.
use vstd::prelude::*;
use crate::symbols::{ConfigurationError, space_size, combination_count, refusal, valid_search};

verus! {

/// What a set of search parameters holds.
pub struct CrackParamModel {
    pub charset: Seq<char>,
    pub min_length: nat,
    pub max_length: nat,
    pub output_contains: Seq<char>,
}

/// The parameters of one search: the alphabet, the lengths of the
/// candidates, and the text that the verifier's answer holds on a match.
#[derive(Debug, Clone)]
pub struct CrackParam {
    charset: Vec<char>,
    min_length: u8,
    max_length: u8,
    total_combos: usize,
    output_contains: String,
}

impl View for CrackParam {
    type V = CrackParamModel;

    closed spec fn view(&self) -> CrackParamModel {
        CrackParamModel {
            charset: self.charset@,
            min_length: self.min_length as nat,
            max_length: self.max_length as nat,
            output_contains: self.output_contains@,
        }
    }
}

impl CrackParam {
    /// Number of candidates of the search.
    pub open spec fn total(&self) -> nat {
        space_size(self@.charset.len(), self@.min_length, self@.max_length)
    }

    /// The representation invariant: the parameters are those of a valid
    /// search, and the stored number of candidates is the right one.
    pub open spec fn wf(&self) -> bool {
        &&& valid_search(self@.charset, self@.min_length, self@.max_length)
        &&& self.counted() == self.total()
    }

    /// The number of candidates that was counted when the parameters were
    /// made.
    pub closed spec fn counted(&self) -> nat {
        self.total_combos as nat
    }

    /// Checks the parameters and counts the candidates.
    pub fn new(charset: Box<[char]>, min_length: u8, max_length: u8, output_contains: &str) -> (res:
        Result<Self, ConfigurationError>)
        ensures
            match refusal(charset@, min_length as nat, max_length as nat) {
                Some(e) => res is Err && res->Err_0 == e,
                None => res is Ok && res->Ok_0.wf() && res->Ok_0@ == (CrackParamModel {
                    charset: charset@,
                    min_length: min_length as nat,
                    max_length: max_length as nat,
                    output_contains: output_contains@,
                }),
            },
    {
        let charset: Vec<char> = charset.into_vec();
        if min_length > max_length {
            return Err(ConfigurationError::Range);
        }
        if charset.len() == 0 && max_length > 0 {
            return Err(ConfigurationError::EmptyAlphabet);
        }
        let total_combos = match combination_count(charset.as_slice(), min_length, max_length) {
            Ok(n) => n,
            Err(e) => {
                return Err(e);
            },
        };
        Ok(
            Self {
                charset,
                min_length,
                max_length,
                total_combos,
                output_contains: output_contains.to_owned(),
            },
        )
    }

    /// The alphabet.
    pub fn charset(&self) -> (r: &[char])
        ensures
            r@ == self@.charset,
    {
        self.charset.as_slice()
    }

    /// The greatest length of a candidate.
    pub fn max_length(&self) -> (r: u8)
        ensures
            r == self@.max_length,
    {
        self.max_length
    }

    /// The least length of a candidate.
    pub fn min_length(&self) -> (r: u8)
        ensures
            r == self@.min_length,
    {
        self.min_length
    }

    /// Number of candidates of the search.
    pub fn total_combos(&self) -> (r: usize)
        ensures
            r == self.counted(),
    {
        self.total_combos
    }

    /// The text that marks a match in the verifier's answer.
    pub fn output_contains(&self) -> (r: &String)
        ensures
            r@ == self@.output_contains,
    {
        &self.output_contains
    }
}

} // verus!
