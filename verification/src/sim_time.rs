//! Simulation clock: current time, speed multiplier, pause state and the
//! physics timestep, all in integer milliseconds.

use vstd::prelude::*;

verus! {

/// Largest wall-clock delta (milliseconds) one advance accepts.
pub const ADVANCE_DELTA_LIMIT_MS: u64 = 1_000_000_000;

/// Global simulation time and control.
pub struct SimulationTime {
    /// Current simulation time in milliseconds since the epoch.
    pub current_ms: u64,
    /// Speed multiplier: 1 is real time, 3600 one hour per second.
    pub speed_multiplier: u64,
    /// Whether the simulation is paused.
    pub paused: bool,
    /// Physics timestep in milliseconds.
    pub timestep_ms: u64,
}

impl Default for SimulationTime {
    /// Starts at the epoch, unpaused, one hour of simulated time per real
    /// second, one-second physics steps.
    fn default() -> (t: SimulationTime)
        ensures
            t.current_ms == 0,
            t.speed_multiplier == 3600,
            !t.paused,
            t.timestep_ms == 1000,
    {
        SimulationTime { current_ms: 0, speed_multiplier: 3600, paused: false, timestep_ms: 1000 }
    }
}

/// How far the clock moves for a wall-clock delta: above an hour-per-second
/// speed the step is rescaled (delta · speed / 3600 · 60, i.e. delta ·
/// speed / 60), below it the plain product is used.
pub open spec fn spec_effective_delta_ms(delta_ms: u64, speed: u64) -> int {
    if speed > 3600 {
        delta_ms * speed / 60
    } else {
        delta_ms * speed
    }
}

impl SimulationTime {
    /// Advance the clock by a wall-clock delta, scaled by the speed
    /// multiplier; a paused clock does not move. The time saturates at the
    /// largest representable instant instead of wrapping.
    pub fn advance(&mut self, delta_ms: u64)
        requires
            delta_ms <= ADVANCE_DELTA_LIMIT_MS,
        ensures
            old(self).paused ==> *final(self) == *old(self),
            !old(self).paused ==> final(self).current_ms == if old(self).current_ms
                + spec_effective_delta_ms(delta_ms, old(self).speed_multiplier) <= u64::MAX {
                old(self).current_ms + spec_effective_delta_ms(
                    delta_ms,
                    old(self).speed_multiplier,
                )
            } else {
                u64::MAX as int
            },
            final(self).speed_multiplier == old(self).speed_multiplier,
            final(self).paused == old(self).paused,
            final(self).timestep_ms == old(self).timestep_ms,
    {
        if self.paused {
            return;
        }
        proof {
            assert((delta_ms as int) * (self.speed_multiplier as int) <= 1_000_000_000 * (
            0xffff_ffff_ffff_ffff_int)) by (nonlinear_arith)
                requires
                    delta_ms <= 1_000_000_000,
                    self.speed_multiplier <= 0xffff_ffff_ffff_ffff_u64,
            ;
        }
        let product: u128 = (delta_ms as u128) * (self.speed_multiplier as u128);
        let effective: u128 = if self.speed_multiplier > 3600 {
            product / 60
        } else {
            product
        };
        let headroom: u128 = (u64::MAX - self.current_ms) as u128;
        if effective <= headroom {
            self.current_ms = self.current_ms + (effective as u64);
        } else {
            self.current_ms = u64::MAX;
        }
    }

    /// Freeze the clock.
    pub fn pause(&mut self)
        ensures
            final(self).paused,
            final(self).current_ms == old(self).current_ms,
            final(self).speed_multiplier == old(self).speed_multiplier,
            final(self).timestep_ms == old(self).timestep_ms,
    {
        self.paused = true;
    }

    /// Let the clock run again.
    pub fn resume(&mut self)
        ensures
            !final(self).paused,
            final(self).current_ms == old(self).current_ms,
            final(self).speed_multiplier == old(self).speed_multiplier,
            final(self).timestep_ms == old(self).timestep_ms,
    {
        self.paused = false;
    }

    /// Set the speed multiplier. Any value is kept as given; the unsigned
    /// type already rules negative speeds out.
    pub fn set_speed(&mut self, multiplier: u64)
        ensures
            final(self).speed_multiplier == multiplier,
            final(self).current_ms == old(self).current_ms,
            final(self).paused == old(self).paused,
            final(self).timestep_ms == old(self).timestep_ms,
    {
        self.speed_multiplier = multiplier;
    }
}

} // verus!
