//! The parameters of a search together with the child process that verifies.
use vstd::prelude::*;
use crate::parameters::spawn::Spawn;
use crate::symbols::{ConfigurationError, space_size, combination_count, refusal, valid_search};

verus! {

/// What a set of search parameters holds.
pub struct CrackParamModel<I, S> {
    pub spawn: Spawn<I, S>,
    pub charset: Seq<char>,
    pub min_length: nat,
    pub max_length: nat,
}

/// The parameters of one search: the child process that verifies, the
/// alphabet, and the lengths of the candidates.
#[derive(Debug, Clone)]
pub struct CrackParam<I, S> {
    spawn: Spawn<I, S>,
    charset: Vec<char>,
    min_length: u8,
    max_length: u8,
    total_combos: usize,
}

impl<I, S> View for CrackParam<I, S> {
    type V = CrackParamModel<I, S>;

    closed spec fn view(&self) -> CrackParamModel<I, S> {
        CrackParamModel {
            spawn: self.spawn,
            charset: self.charset@,
            min_length: self.min_length as nat,
            max_length: self.max_length as nat,
        }
    }
}

impl<I, S> CrackParam<I, S> {
    /// Number of candidates of the search.
    pub open spec fn total(&self) -> nat {
        space_size(self@.charset.len(), self@.min_length, self@.max_length)
    }

    /// The number of candidates that was counted when the parameters were
    /// made.
    pub closed spec fn counted(&self) -> nat {
        self.total_combos as nat
    }

    /// The representation invariant: the parameters are those of a valid
    /// search, and the stored number of candidates is the right one.
    pub open spec fn wf(&self) -> bool {
        &&& valid_search(self@.charset, self@.min_length, self@.max_length)
        &&& self.counted() == self.total()
    }

    /// Checks the parameters and counts the candidates.
    pub fn new(spawn: Spawn<I, S>, charset: Box<[char]>, min_length: u8, max_length: u8) -> (res:
        Result<Self, ConfigurationError>)
        ensures
            match refusal(charset@, min_length as nat, max_length as nat) {
                Some(e) => res is Err && res->Err_0 == e,
                None => res is Ok && res->Ok_0.wf() && res->Ok_0@ == (CrackParamModel {
                    spawn,
                    charset: charset@,
                    min_length: min_length as nat,
                    max_length: max_length as nat,
                }),
            },
    {
        let charset: Vec<char> = charset.into_vec();
        if min_length > max_length {
            return Err(ConfigurationError::Range);
        }
        if charset.len() == 0 && max_length > 0 {
            return Err(ConfigurationError::EmptyAlphabet);
        }
        let total_combos = match combination_count(charset.as_slice(), min_length, max_length) {
            Ok(n) => n,
            Err(e) => {
                return Err(e);
            },
        };
        Ok(Self { spawn, charset, min_length, max_length, total_combos })
    }

    /// The alphabet.
    pub fn charset(&self) -> (r: &[char])
        ensures
            r@ == self@.charset,
    {
        self.charset.as_slice()
    }

    /// The greatest length of a candidate.
    pub fn max_length(&self) -> (r: u8)
        ensures
            r == self@.max_length,
    {
        self.max_length
    }

    /// The least length of a candidate.
    pub fn min_length(&self) -> (r: u8)
        ensures
            r == self@.min_length,
    {
        self.min_length
    }

    /// The child process that verifies.
    pub fn spawn(&self) -> (r: &Spawn<I, S>)
        ensures
            *r == self@.spawn,
    {
        &self.spawn
    }

    /// Number of candidates of the search.
    pub fn total_combos(&self) -> (r: usize)
        ensures
            r == self.counted(),
    {
        self.total_combos
    }
}

} // verus!
