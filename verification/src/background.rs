//! Decision rules for background debris activity: how many debris pieces a
//! periodic injection adds, and when a low body decays out of orbit.
//!
//! The rules are pure functions from plain values; the shell around the
//! kernel performs the sampling and the spawning they call for.

use vstd::prelude::*;

verus! {

/// How many debris pieces one periodic injection adds: the given
/// percentage (in hundredths of a percent) of the existing debris count,
/// rounded up, and at least one.
pub open spec fn spec_injection_count(existing: nat, percentage_centis: nat) -> nat {
    let raw = (existing * percentage_centis + 9999) / 10000;
    if raw < 1 {
        1
    } else {
        raw
    }
}

/// Compute the injection count for an existing debris population.
pub fn injection_count(existing: u64, percentage_centis: u64) -> (n: u64)
    requires
        existing <= 0xffff_ffff,
        percentage_centis <= 0xffff_ffff,
    ensures
        n == spec_injection_count(existing as nat, percentage_centis as nat),
        n >= 1,
{
    proof {
        assert(existing * percentage_centis <= 0xffff_ffff * 0xffff_ffff_int)
            by (nonlinear_arith)
            requires
                0 <= existing <= 0xffff_ffff,
                0 <= percentage_centis <= 0xffff_ffff,
        ;
    }
    let raw: u64 = (existing * percentage_centis + 9999) / 10000;
    if raw < 1 {
        1
    } else {
        raw
    }
}

/// The chance, in thousandths, that a body below the decay altitude falls
/// out of orbit this pass: zero at the decay altitude and above, rising
/// linearly to certainty at the center.
pub open spec fn spec_decay_probability_permille(altitude_km: nat, min_altitude_km: nat) -> nat {
    if min_altitude_km == 0 || altitude_km >= min_altitude_km {
        0
    } else {
        (1000 * (min_altitude_km - altitude_km) / (min_altitude_km as int)) as nat
    }
}

/// Compute the decay probability for an altitude.
pub fn decay_probability_permille(altitude_km: u64, min_altitude_km: u64) -> (p: u64)
    requires
        min_altitude_km <= 1_000_000,
    ensures
        p == spec_decay_probability_permille(altitude_km as nat, min_altitude_km as nat),
        p <= 1000,
    {
    if min_altitude_km == 0 || altitude_km >= min_altitude_km {
        return 0;
    }
    let p: u64 = 1000 * (min_altitude_km - altitude_km) / min_altitude_km;
    proof {
        vstd::arithmetic::div_mod::lemma_div_is_ordered(
            1000 * (min_altitude_km - altitude_km) as int,
            1000 * min_altitude_km as int,
            min_altitude_km as int,
        );
        vstd::arithmetic::div_mod::lemma_div_multiples_vanish(
            1000,
            min_altitude_km as int,
        );
        assert(1000 * min_altitude_km == min_altitude_km * 1000) by (nonlinear_arith);
    }
    p
}

/// Whether a uniform roll in `[0, 1000)` falls under the decay
/// probability: the decision the decay pass makes per low body.
pub fn decay_roll_hits(probability_permille: u64, roll_permille: u64) -> (hit: bool)
    ensures
        hit == (roll_permille < probability_permille),
{
    roll_permille < probability_permille
}

} // verus!
