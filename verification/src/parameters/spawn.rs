//! How the verifying child process is started and what marks a match.
use vstd::prelude::*;

verus! {

/// What a `Spawn` holds.
pub struct SpawnModel<I, S> {
    pub script: S,
    pub args: I,
    pub look_for_output: S,
}

/// The program to start, its arguments, and the text that its output holds
/// on a match.
#[derive(Debug, Clone)]
pub struct Spawn<I, S> {
    script: S,
    args: I,
    look_for_output: S,
}

impl<I, S> View for Spawn<I, S> {
    type V = SpawnModel<I, S>;

    closed spec fn view(&self) -> SpawnModel<I, S> {
        SpawnModel {
            script: self.script,
            args: self.args,
            look_for_output: self.look_for_output,
        }
    }
}

impl<I, S> Spawn<I, S> {
    /// Puts the three parts together.
    pub fn new(script: S, args: I, look_for_output: S) -> (res: Self)
        ensures
            res@ == (SpawnModel { script, args, look_for_output }),
    {
        Self { script, args, look_for_output }
    }

    /// The program to start.
    pub fn script(&self) -> (r: &S)
        ensures
            *r == self@.script,
    {
        &self.script
    }

    /// The arguments of the program.
    pub fn args(&self) -> (r: &I)
        ensures
            *r == self@.args,
    {
        &self.args
    }

    /// The text that the program's output holds on a match.
    pub fn look_for_output(&self) -> (r: &S)
        ensures
            *r == self@.look_for_output,
    {
        &self.look_for_output
    }
}

} // verus!
