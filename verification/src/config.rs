//! What a load run is configured with.

use vstd::prelude::*;
use crate::parse::{parse_u64, parse_u64_spec, NumberError};
use crate::sampler::{
    lemma_round_starts_while_ticks_remain, punctual_ticks, SAMPLING_INTERVAL_NANOS,
};

verus! {

/// Nanoseconds in one second.
pub const NANOS_PER_SEC: u64 = 1_000_000_000;

/// The settings of one run; nothing changes them while it lasts.
#[derive(Clone, Copy, Debug, PartialEq, Eq, Structural)]
pub struct RunConfig {
    /// How long the run lasts, in whole seconds.
    pub duration_secs: u64,
    /// How many workload tasks issue operations side by side.
    pub num_tasks: usize,
    /// How many distinct keys the run addresses: the keys are drawn from
    /// `0 .. keyspace`.
    pub keyspace: u64,
}

impl RunConfig {
    /// The run's length in nanoseconds.
    pub open spec fn duration_nanos_spec(self) -> nat {
        (self.duration_secs * NANOS_PER_SEC) as nat
    }

    /// The run's length in nanoseconds, as wide as it takes.
    pub fn duration_nanos(&self) -> (nanos: u128)
        ensures
            nanos == self.duration_nanos_spec(),
    {
        (self.duration_secs as u128) * (NANOS_PER_SEC as u128)
    }

    /// Whether a task that has run for `elapsed_nanos` starts another
    /// round: it does while the time that has passed is short of the
    /// run's length. The test is made between rounds only, so the last
    /// round may end after the deadline. For the sampler this is to say
    /// that a round starts exactly while a sampler that keeps its pace
    /// would still have samples to take.
    pub fn within_deadline(&self, elapsed_nanos: u128) -> (go_on: bool)
        ensures
            go_on == (elapsed_nanos < self.duration_nanos_spec()),
            go_on == (punctual_ticks(
                elapsed_nanos as nat,
                self.duration_nanos_spec(),
                SAMPLING_INTERVAL_NANOS as nat,
            ) > 0),
    {
        proof {
            lemma_round_starts_while_ticks_remain(
                elapsed_nanos as nat,
                self.duration_nanos_spec(),
                SAMPLING_INTERVAL_NANOS as nat,
            );
        }
        elapsed_nanos < self.duration_nanos()
    }
}

/// Reads a run length given as a whole number of seconds.
pub fn parse_duration(arg: &str) -> (r: Result<u64, NumberError>)
    ensures
        r == parse_u64_spec(arg@),
{
    parse_u64(arg)
}

} // verus!
