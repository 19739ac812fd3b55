//! Signature moves: the active-firing window record, the attribute-fit
//! trigger predicates and the bias multipliers an active signature applies.

use vstd::prelude::*;

pub mod bias_apply;
pub mod dispatcher;
pub mod gate;
pub mod ledger;
pub mod triggers;

verus! {

/// Default length of a firing window: 60 ticks (one second).
pub const DEFAULT_FIRING_DURATION_TICKS: u32 = 60;

/// A signature in flight for a player: which signature, when it fired, and
/// how many ticks its bias window lasts.
#[derive(Debug, Clone, PartialEq, Eq)]
pub struct SignatureFiring {
    id: String,
    start_tick: i64,
    duration_ticks: u32,
}

impl SignatureFiring {
    /// The signature id.
    pub closed spec fn id_spec(&self) -> Seq<char> {
        self.id@
    }

    /// The tick the signature fired at.
    pub closed spec fn start_tick_spec(&self) -> i64 {
        self.start_tick
    }

    /// The window length in ticks.
    pub closed spec fn duration_ticks_spec(&self) -> u32 {
        self.duration_ticks
    }

    /// A firing of signature `id` at `start_tick` lasting `duration_ticks`.
    pub fn new(id: String, start_tick: i64, duration_ticks: u32) -> (f: SignatureFiring)
        ensures
            f.id_spec() == id@,
            f.start_tick_spec() == start_tick,
            f.duration_ticks_spec() == duration_ticks,
    {
        SignatureFiring { id, start_tick, duration_ticks }
    }

    /// The signature in flight.
    pub fn id(&self) -> (r: &String)
        ensures
            r@ == self.id_spec(),
    {
        &self.id
    }

    /// Tick at which the signature fired.
    pub fn start_tick(&self) -> (t: i64)
        ensures
            t == self.start_tick_spec(),
    {
        self.start_tick
    }

    /// Length of the bias window in ticks.
    pub fn duration_ticks(&self) -> (d: u32)
        ensures
            d == self.duration_ticks_spec(),
    {
        self.duration_ticks
    }

    /// Is the window open at `current_tick`? Exactly when
    /// `start_tick ≤ current_tick < start_tick + duration_ticks`. A window
    /// end beyond the tick range is a simulation invariant violation.
    pub fn is_active(&self, current_tick: i64) -> (b: bool)
        requires
            current_tick >= self.start_tick_spec() ==> self.start_tick_spec()
                + self.duration_ticks_spec() <= i64::MAX,
        ensures
            b <==> (self.start_tick_spec() <= current_tick < self.start_tick_spec()
                + self.duration_ticks_spec()),
    {
        if current_tick < self.start_tick {
            return false;
        }
        let end_tick = self.start_tick + self.duration_ticks as i64;
        current_tick < end_tick
    }
}

} // verus!
