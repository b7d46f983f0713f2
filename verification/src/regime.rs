//! Market regimes: the five-way tag, the static parameter table and the
//! Markov transition sampler.
//!
//! Parameters are fixed point: volatilities and multipliers in parts per
//! million, drift and probabilities in parts per billion (signed for drift),
//! spreads in cents, rates in events per second, durations in milliseconds.

use vstd::prelude::*;
use crate::rng::rng_below;

verus! {

/// One part per billion; probabilities are fractions of this.
pub const PPB: u64 = 1_000_000_000;

/// The regime tag.
#[derive(Clone, Copy, Debug, PartialEq, Eq, Structural)]
pub enum Regime {
    Calm,
    Volatile,
    Crash,
    Rally,
    Recovery,
}

impl Regime {
    /// Position of the tag in the declared order.
    pub open spec fn spec_index(self) -> int {
        match self {
            Regime::Calm => 0,
            Regime::Volatile => 1,
            Regime::Crash => 2,
            Regime::Rally => 3,
            Regime::Recovery => 4,
        }
    }

    pub fn index(self) -> (r: usize)
        ensures
            r == self.spec_index(),
    {
        match self {
            Regime::Calm => 0,
            Regime::Volatile => 1,
            Regime::Crash => 2,
            Regime::Rally => 3,
            Regime::Recovery => 4,
        }
    }

    /// The regime's display name.
    pub open spec fn spec_name(self) -> Seq<char> {
        match self {
            Regime::Calm => "CALM"@,
            Regime::Volatile => "VOLATILE"@,
            Regime::Crash => "CRASH"@,
            Regime::Rally => "RALLY"@,
            Regime::Recovery => "RECOVERY"@,
        }
    }

    pub fn name(self) -> (r: &'static str)
        ensures
            r@ == self.spec_name(),
    {
        match self {
            Regime::Calm => "CALM",
            Regime::Volatile => "VOLATILE",
            Regime::Crash => "CRASH",
            Regime::Rally => "RALLY",
            Regime::Recovery => "RECOVERY",
        }
    }
}

/// The lowercase regime name used by the control plane, or `None`.
pub open spec fn spec_parse_regime(s: Seq<char>) -> Option<Regime> {
    if s == "calm"@ {
        Some(Regime::Calm)
    } else if s == "volatile"@ {
        Some(Regime::Volatile)
    } else if s == "crash"@ {
        Some(Regime::Crash)
    } else if s == "rally"@ {
        Some(Regime::Rally)
    } else if s == "recovery"@ {
        Some(Regime::Recovery)
    } else {
        None
    }
}

/// Parse a lowercase regime name.
pub fn parse_regime(s: &str) -> (r: Option<Regime>)
    ensures
        r == spec_parse_regime(s@),
{
    if crate::text::str_eq(s, "calm") {
        Some(Regime::Calm)
    } else if crate::text::str_eq(s, "volatile") {
        Some(Regime::Volatile)
    } else if crate::text::str_eq(s, "crash") {
        Some(Regime::Crash)
    } else if crate::text::str_eq(s, "rally") {
        Some(Regime::Rally)
    } else if crate::text::str_eq(s, "recovery") {
        Some(Regime::Recovery)
    } else {
        None
    }
}

/// The static parameters of one regime.
#[derive(Clone, Copy, Debug, PartialEq, Eq, Structural)]
pub struct RegimeParams {
    /// Annualized volatility, parts per million.
    pub sigma_ppm: u64,
    /// Per-second drift, parts per billion, signed.
    pub mu_ppb: i64,
    /// Limit-order arrivals per second.
    pub limit_rate: u64,
    /// Market-order arrivals per second.
    pub market_rate: u64,
    /// Regime-driven cancellations per second.
    pub cancel_rate: u64,
    /// Probability a generated order buys, parts per billion.
    pub buy_prob_ppb: u64,
    /// Half spread, cents.
    pub half_spread_cents: u64,
    /// Rate of the exponential price-offset distribution, parts per million.
    pub offset_lambda_ppm: u64,
    /// Market-order size multiplier, parts per million.
    pub size_mult_ppm: u64,
    /// Sampled regime duration window, milliseconds.
    pub min_duration_ms: u64,
    pub max_duration_ms: u64,
}

impl RegimeParams {
    pub open spec fn wf(self) -> bool {
        &&& self.buy_prob_ppb <= PPB
        &&& 0 < self.min_duration_ms <= self.max_duration_ms
    }
}

/// The fixed parameter table, by regime.
pub open spec fn spec_params(regime: Regime) -> RegimeParams {
    match regime {
        Regime::Calm => RegimeParams {
            sigma_ppm: 150_000,
            mu_ppb: 0i64,
            limit_rate: 50,
            market_rate: 5,
            cancel_rate: 20,
            buy_prob_ppb: 500_000_000,
            half_spread_cents: 3,
            offset_lambda_ppm: 5_000_000,
            size_mult_ppm: 1_000_000,
            min_duration_ms: 5_000,
            max_duration_ms: 30_000,
        },
        Regime::Volatile => RegimeParams {
            sigma_ppm: 800_000,
            mu_ppb: 0i64,
            limit_rate: 80,
            market_rate: 15,
            cancel_rate: 40,
            buy_prob_ppb: 500_000_000,
            half_spread_cents: 8,
            offset_lambda_ppm: 2_500_000,
            size_mult_ppm: 1_500_000,
            min_duration_ms: 3_000,
            max_duration_ms: 15_000,
        },
        Regime::Crash => RegimeParams {
            sigma_ppm: 2_000_000,
            mu_ppb: -45_000_000i64,
            limit_rate: 15,
            market_rate: 45,
            cancel_rate: 80,
            buy_prob_ppb: 120_000_000,
            half_spread_cents: 25,
            offset_lambda_ppm: 1_200_000,
            size_mult_ppm: 3_000_000,
            min_duration_ms: 2_000,
            max_duration_ms: 10_000,
        },
        Regime::Rally => RegimeParams {
            sigma_ppm: 1_500_000,
            mu_ppb: 35_000_000i64,
            limit_rate: 25,
            market_rate: 35,
            cancel_rate: 50,
            buy_prob_ppb: 880_000_000,
            half_spread_cents: 15,
            offset_lambda_ppm: 1_800_000,
            size_mult_ppm: 2_500_000,
            min_duration_ms: 2_000,
            max_duration_ms: 12_000,
        },
        Regime::Recovery => RegimeParams {
            sigma_ppm: 500_000,
            mu_ppb: 5_000_000i64,
            limit_rate: 60,
            market_rate: 8,
            cancel_rate: 25,
            buy_prob_ppb: 550_000_000,
            half_spread_cents: 5,
            offset_lambda_ppm: 4_000_000,
            size_mult_ppm: 1_000_000,
            min_duration_ms: 3_000,
            max_duration_ms: 15_000,
        },
    }
}

/// Look up the fixed parameters of a regime.
pub fn params(regime: Regime) -> (r: RegimeParams)
    ensures
        r == spec_params(regime),
        r.wf(),
{
    match regime {
        Regime::Calm => RegimeParams {
            sigma_ppm: 150_000,
            mu_ppb: 0,
            limit_rate: 50,
            market_rate: 5,
            cancel_rate: 20,
            buy_prob_ppb: 500_000_000,
            half_spread_cents: 3,
            offset_lambda_ppm: 5_000_000,
            size_mult_ppm: 1_000_000,
            min_duration_ms: 5_000,
            max_duration_ms: 30_000,
        },
        Regime::Volatile => RegimeParams {
            sigma_ppm: 800_000,
            mu_ppb: 0,
            limit_rate: 80,
            market_rate: 15,
            cancel_rate: 40,
            buy_prob_ppb: 500_000_000,
            half_spread_cents: 8,
            offset_lambda_ppm: 2_500_000,
            size_mult_ppm: 1_500_000,
            min_duration_ms: 3_000,
            max_duration_ms: 15_000,
        },
        Regime::Crash => RegimeParams {
            sigma_ppm: 2_000_000,
            mu_ppb: -45_000_000,
            limit_rate: 15,
            market_rate: 45,
            cancel_rate: 80,
            buy_prob_ppb: 120_000_000,
            half_spread_cents: 25,
            offset_lambda_ppm: 1_200_000,
            size_mult_ppm: 3_000_000,
            min_duration_ms: 2_000,
            max_duration_ms: 10_000,
        },
        Regime::Rally => RegimeParams {
            sigma_ppm: 1_500_000,
            mu_ppb: 35_000_000,
            limit_rate: 25,
            market_rate: 35,
            cancel_rate: 50,
            buy_prob_ppb: 880_000_000,
            half_spread_cents: 15,
            offset_lambda_ppm: 1_800_000,
            size_mult_ppm: 2_500_000,
            min_duration_ms: 2_000,
            max_duration_ms: 12_000,
        },
        Regime::Recovery => RegimeParams {
            sigma_ppm: 500_000,
            mu_ppb: 5_000_000,
            limit_rate: 60,
            market_rate: 8,
            cancel_rate: 25,
            buy_prob_ppb: 550_000_000,
            half_spread_cents: 5,
            offset_lambda_ppm: 4_000_000,
            size_mult_ppm: 1_000_000,
            min_duration_ms: 3_000,
            max_duration_ms: 15_000,
        },
    }
}

/// Per-tick Markov transition probability from one regime to another, in
/// parts per billion. The diagonal is zero: staying put is the remainder.
pub open spec fn spec_transition_ppb(from: Regime, to: Regime) -> u64 {
    match from {
        Regime::Calm => match to {
            Regime::Calm => 0,
            Regime::Volatile => 8_000_000,
            Regime::Crash => 3_000_000,
            Regime::Rally => 3_000_000,
            Regime::Recovery => 0,
        },
        Regime::Volatile => match to {
            Regime::Calm => 5_000_000,
            Regime::Volatile => 0,
            Regime::Crash => 8_000_000,
            Regime::Rally => 6_000_000,
            Regime::Recovery => 4_000_000,
        },
        Regime::Crash => match to {
            Regime::Calm => 0,
            Regime::Volatile => 4_000_000,
            Regime::Crash => 0,
            Regime::Rally => 2_000_000,
            Regime::Recovery => 20_000_000,
        },
        Regime::Rally => match to {
            Regime::Calm => 0,
            Regime::Volatile => 6_000_000,
            Regime::Crash => 2_000_000,
            Regime::Rally => 0,
            Regime::Recovery => 15_000_000,
        },
        Regime::Recovery => match to {
            Regime::Calm => 15_000_000,
            Regime::Volatile => 4_000_000,
            Regime::Crash => 1_000_000,
            Regime::Rally => 2_000_000,
            Regime::Recovery => 0,
        },
    }
}

/// Look up one entry of the transition table.
pub fn transition_ppb(from: Regime, to: Regime) -> (r: u64)
    ensures
        r == spec_transition_ppb(from, to),
{
    let row: [u64; 5] = match from {
        Regime::Calm => [0, 8_000_000, 3_000_000, 3_000_000, 0],
        Regime::Volatile => [5_000_000, 0, 8_000_000, 6_000_000, 4_000_000],
        Regime::Crash => [0, 4_000_000, 0, 2_000_000, 20_000_000],
        Regime::Rally => [0, 6_000_000, 2_000_000, 0, 15_000_000],
        Regime::Recovery => [15_000_000, 4_000_000, 1_000_000, 2_000_000, 0],
    };
    row[to.index()]
}

/// The mutable regime position: current tag, elapsed time in it, the sampled
/// duration, and the tag it came from.
#[derive(Clone, Copy, Debug, PartialEq, Eq, Structural)]
pub struct RegimeState {
    pub current: Regime,
    pub time_in_regime_ms: u64,
    pub regime_duration_ms: u64,
    pub previous: Regime,
}

impl RegimeState {
    /// A freshly sampled duration lies inside the regime's window.
    pub open spec fn wf(self) -> bool {
        spec_params(self.current).min_duration_ms <= self.regime_duration_ms <= spec_params(
            self.current,
        ).max_duration_ms
    }

    /// Enter `regime` with a freshly sampled duration.
    pub fn new(regime: Regime, rng: &mut rand::rngs::StdRng) -> (r: Self)
        ensures
            r.current == regime,
            r.previous == regime,
            r.time_in_regime_ms == 0,
            r.wf(),
    {
        let duration = random_regime_duration(regime, rng);
        RegimeState {
            current: regime,
            time_in_regime_ms: 0,
            regime_duration_ms: duration,
            previous: regime,
        }
    }

    /// Move to `next`, remembering where we came from, resetting the clock
    /// and resampling the duration.
    pub fn transition_to(&mut self, next: Regime, rng: &mut rand::rngs::StdRng)
        ensures
            final(self).current == next,
            final(self).previous == old(self).current,
            final(self).time_in_regime_ms == 0,
            final(self).wf(),
    {
        let duration = random_regime_duration(next, rng);
        self.previous = self.current;
        self.current = next;
        self.time_in_regime_ms = 0;
        self.regime_duration_ms = duration;
    }
}

/// The duration a roll selects from the regime's window.
pub open spec fn spec_duration_from_roll(regime: Regime, roll: u64) -> u64 {
    let p = spec_params(regime);
    let span = p.max_duration_ms - p.min_duration_ms + 1;
    (p.min_duration_ms + (roll as int) % span) as u64
}

/// Reduce a roll to a duration inside the regime's window.
pub fn duration_from_roll(regime: Regime, roll: u64) -> (d: u64)
    ensures
        d == spec_duration_from_roll(regime, roll),
        spec_params(regime).min_duration_ms <= d <= spec_params(regime).max_duration_ms,
{
    let p = params(regime);
    p.min_duration_ms + roll % (p.max_duration_ms - p.min_duration_ms + 1)
}

/// The state after a transition whose duration comes from `dur_roll`.
pub open spec fn spec_transition_with_roll(st: RegimeState, next: Regime, dur_roll: u64) -> RegimeState {
    RegimeState {
        current: next,
        previous: st.current,
        time_in_regime_ms: 0,
        regime_duration_ms: spec_duration_from_roll(next, dur_roll),
    }
}

impl RegimeState {
    /// Move to `next` with the duration that `dur_roll` selects.
    pub fn transition_with_roll(&mut self, next: Regime, dur_roll: u64)
        ensures
            *final(self) == spec_transition_with_roll(*old(self), next, dur_roll),
            final(self).wf(),
    {
        let duration = duration_from_roll(next, dur_roll);
        self.previous = self.current;
        self.current = next;
        self.time_in_regime_ms = 0;
        self.regime_duration_ms = duration;
    }
}

/// Draw a regime duration uniformly from the regime's window.
pub fn random_regime_duration(regime: Regime, rng: &mut rand::rngs::StdRng) -> (d: u64)
    ensures
        spec_params(regime).min_duration_ms <= d <= spec_params(regime).max_duration_ms,
{
    let p = params(regime);
    let span = p.max_duration_ms - p.min_duration_ms;
    p.min_duration_ms + rng_below(rng, span + 1)
}

/// The regime a roll in `[0, PPB)` selects: walk the transition row in the
/// declared order, accumulating probabilities; past the row's sum the
/// transition is declined and the current regime stays.
pub open spec fn spec_try_transition(st: RegimeState, allow: bool, roll_ppb: u64) -> Regime {
    if !allow || st.time_in_regime_ms < st.regime_duration_ms {
        st.current
    } else {
        let c = st.current;
        let b1 = spec_transition_ppb(c, Regime::Calm);
        let b2 = b1 + spec_transition_ppb(c, Regime::Volatile);
        let b3 = b2 + spec_transition_ppb(c, Regime::Crash);
        let b4 = b3 + spec_transition_ppb(c, Regime::Rally);
        let b5 = b4 + spec_transition_ppb(c, Regime::Recovery);
        if roll_ppb < b1 {
            Regime::Calm
        } else if roll_ppb < b2 {
            Regime::Volatile
        } else if roll_ppb < b3 {
            Regime::Crash
        } else if roll_ppb < b4 {
            Regime::Rally
        } else if roll_ppb < b5 {
            Regime::Recovery
        } else {
            c
        }
    }
}

/// Roll the Markov transition for the current regime, if the scenario allows
/// transitions and the regime has outlived its sampled duration.
pub fn try_transition(st: &RegimeState, allow_transitions: bool, rng: &mut rand::rngs::StdRng) -> (r:
    Regime)
    ensures
        exists|roll: u64| roll < PPB && r == spec_try_transition(*st, allow_transitions, roll),
        (!allow_transitions || st.time_in_regime_ms < st.regime_duration_ms) ==> r == st.current,
        r == st.current || spec_transition_ppb(st.current, r) > 0,
{
    if !allow_transitions || st.time_in_regime_ms < st.regime_duration_ms {
        proof {
            assert(0u64 < PPB && spec_try_transition(*st, allow_transitions, 0) == st.current);
        }
        return st.current;
    }
    let roll = rng_below(rng, PPB);
    let c = st.current;
    let b1 = transition_ppb(c, Regime::Calm);
    let b2 = b1 + transition_ppb(c, Regime::Volatile);
    let b3 = b2 + transition_ppb(c, Regime::Crash);
    let b4 = b3 + transition_ppb(c, Regime::Rally);
    let b5 = b4 + transition_ppb(c, Regime::Recovery);
    let r = if roll < b1 {
        Regime::Calm
    } else if roll < b2 {
        Regime::Volatile
    } else if roll < b3 {
        Regime::Crash
    } else if roll < b4 {
        Regime::Rally
    } else if roll < b5 {
        Regime::Recovery
    } else {
        c
    };
    proof {
        assert(r == spec_try_transition(*st, allow_transitions, roll));
        lemma_try_transition_reachable(*st, allow_transitions, roll);
    }
    r
}

/// Roll the Markov transition with a caller-supplied roll.
pub fn try_transition_with_roll(st: &RegimeState, allow_transitions: bool, roll_ppb: u64) -> (r:
    Regime)
    ensures
        r == spec_try_transition(*st, allow_transitions, roll_ppb),
{
    if !allow_transitions || st.time_in_regime_ms < st.regime_duration_ms {
        return st.current;
    }
    let c = st.current;
    let b1 = transition_ppb(c, Regime::Calm);
    let b2 = b1 + transition_ppb(c, Regime::Volatile);
    let b3 = b2 + transition_ppb(c, Regime::Crash);
    let b4 = b3 + transition_ppb(c, Regime::Rally);
    let b5 = b4 + transition_ppb(c, Regime::Recovery);
    if roll_ppb < b1 {
        Regime::Calm
    } else if roll_ppb < b2 {
        Regime::Volatile
    } else if roll_ppb < b3 {
        Regime::Crash
    } else if roll_ppb < b4 {
        Regime::Rally
    } else if roll_ppb < b5 {
        Regime::Recovery
    } else {
        c
    }
}

/// A declined or disallowed roll keeps the current regime; an accepted one
/// lands only on a regime the transition table can reach from the current
/// one.
pub proof fn lemma_try_transition_reachable(st: RegimeState, allow: bool, roll_ppb: u64)
    ensures
        ({
            let r = spec_try_transition(st, allow, roll_ppb);
            r == st.current || spec_transition_ppb(st.current, r) > 0
        }),
{
}

} // verus!
