use vstd::prelude::*;

use crate::error::SetupError;
use crate::ports::{bind, Direction, Port, PortTable};

verus! {

/// Relies on rand::random: a value drawn from the thread-local generator.
/// Nothing is known of the value.
pub assume_specification<T>[ rand::random::<T> ]() -> (r: T)
    where
        rand::distributions::Standard: rand::distributions::Distribution<T>,
;

/// A random source: emits a random number on `Random` once per invocation,
/// one second apart.
pub struct RandomSource {
    pub output: Port,
}

impl RandomSource {
    /// Takes the output port `Random`.
    pub fn setup(ports: &mut PortTable) -> (r: Result<RandomSource, SetupError>)
        requires
            old(ports).wf(),
        ensures
            final(ports).wf(),
            r.is_ok() <==> old(ports).available(Direction::Output).contains("Random"@),
            match r {
                Ok(s) => s.output.name@ == "Random"@,
                Err(e) => e == SetupError::PortNotFound,
            },
    {
        match bind(ports, "Random", Direction::Output) {
            Ok(output) => Ok(RandomSource { output }),
            Err(e) => Err(e),
        }
    }

    /// One invocation: the value to send, any `usize` at all.
    pub fn iterate(&self) -> (r: usize) {
        rand::random::<usize>()
    }
}

} // verus!
