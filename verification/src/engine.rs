//! The simulation engine: the tick-driven core that advances the mid price,
//! generates orders, expires and cancels them, and rolls regime transitions.
//!
//! A tick is a pure function of the engine state, the drained control
//! commands, the caller-sampled stochastic draws (`TickDraws`) and the
//! integer entropy (`TickEntropy`); `draw_tick_entropy` fills the latter from
//! the run's seeded generator. The caller shuffles nothing and decides
//! nothing: every decision is taken, and verified, here.

use vstd::prelude::*;
use crate::control::{EngineCommand, ReloadTunables};
use crate::order::{Order, OrderType, Side, MARKET_BUY_PRICE, MARKET_SELL_PRICE};
use crate::regime::{
    Regime, RegimeParams, RegimeState, spec_params, params, spec_duration_from_roll,
    spec_transition_with_roll, spec_try_transition, PPB,
};
use crate::rng::rng_below;
use crate::scenario::{Scenario, ScenarioConfig, spec_from_scenario};

verus! {

/// Ceiling for the mid price, in cents. Price updates clamp here.
pub const MID_MAX: u64 = 1_000_000_000_000_000_000;

/// Ceiling for a sampled limit-price offset, in cents.
pub const OFFSET_MAX: u64 = 1_000_000_000_000_000;

/// Ceiling for the throughput scale, in thousandths (a million-fold scale).
pub const SCALE_MAX_MILLI: u64 = 1_000_000_000;

/// Ceiling for the display interval, in milliseconds.
pub const DISPLAY_MAX_MS: u64 = 1_000_000_000_000;

/// Ceiling for the tick interval, in milliseconds.
pub const TICK_MAX_MS: u64 = 60_000;

/// Ceiling for the tick size, in cents.
pub const TICK_SIZE_MAX: u64 = 1_000_000_000;

/// Ceiling for the number of orders one tick may generate.
pub const BATCH_MAX: u64 = 1_000_000;

/// a + b, saturating at the top of u64.
pub open spec fn spec_sat_add(a: u64, b: u64) -> u64 {
    if a + b <= u64::MAX {
        (a + b) as u64
    } else {
        u64::MAX
    }
}

fn sat_add(a: u64, b: u64) -> (r: u64)
    ensures
        r == spec_sat_add(a, b),
{
    if a <= u64::MAX - b {
        a + b
    } else {
        u64::MAX
    }
}

/// Counters accumulated between two summary blocks. They saturate instead of
/// wrapping.
#[derive(Clone, Copy, Debug, PartialEq, Eq, Structural)]
pub struct TickStats {
    pub limits_generated: u64,
    pub markets_generated: u64,
    pub cancels_expired: u64,
    pub cancels_regime: u64,
    pub messages_sent: u64,
}

impl TickStats {
    pub open spec fn spec_zero() -> TickStats {
        TickStats {
            limits_generated: 0,
            markets_generated: 0,
            cancels_expired: 0,
            cancels_regime: 0,
            messages_sent: 0,
        }
    }

    pub fn new() -> (r: Self)
        ensures
            r == TickStats::spec_zero(),
    {
        TickStats {
            limits_generated: 0,
            markets_generated: 0,
            cancels_expired: 0,
            cancels_regime: 0,
            messages_sent: 0,
        }
    }

    pub fn reset(&mut self)
        ensures
            *final(self) == TickStats::spec_zero(),
    {
        self.limits_generated = 0;
        self.markets_generated = 0;
        self.cancels_expired = 0;
        self.cancels_regime = 0;
        self.messages_sent = 0;
    }

    pub fn total_orders(&self) -> (r: u64)
        ensures
            r == spec_sat_add(self.limits_generated, self.markets_generated),
    {
        sat_add(self.limits_generated, self.markets_generated)
    }

    pub fn total_cancels(&self) -> (r: u64)
        ensures
            r == spec_sat_add(self.cancels_expired, self.cancels_regime),
    {
        sat_add(self.cancels_expired, self.cancels_regime)
    }
}

/// The tunables the control plane may change while the loop runs.
#[derive(Clone, Copy, Debug, PartialEq, Eq, Structural)]
pub struct RuntimeTunables {
    /// Multiplier on all Poisson rates, thousandths.
    pub throughput_scale_milli: u64,
    /// Seconds between summary blocks, milliseconds.
    pub display_interval_ms: u64,
    /// Probability a shock fires on a tick, parts per billion.
    pub shock_prob_ppb: u64,
    pub paused: bool,
}

impl RuntimeTunables {
    pub open spec fn wf(self) -> bool {
        &&& self.throughput_scale_milli <= SCALE_MAX_MILLI
        &&& 1 <= self.display_interval_ms <= DISPLAY_MAX_MS
        &&& self.shock_prob_ppb <= PPB
    }
}

/// The resolved, immutable configuration the engine starts from.
#[derive(Clone, Copy, Debug, PartialEq, Eq, Structural)]
pub struct EngineConfig {
    pub scenario: Scenario,
    /// Simulated milliseconds one tick advances.
    pub tick_ms: u64,
    /// Minimum price increment, cents.
    pub tick_size_cents: u64,
    /// Starting mid price, cents.
    pub initial_price_cents: u64,
    /// Shock percentage window, parts per billion.
    pub shock_min_pct_ppb: u64,
    pub shock_max_pct_ppb: u64,
    /// Limit-order time-to-live window, milliseconds.
    pub ttl_min_ms: u64,
    pub ttl_max_ms: u64,
    /// Starting values of the runtime tunables.
    pub throughput_scale_milli: u64,
    pub display_interval_ms: u64,
    pub shock_prob_ppb: u64,
}

impl EngineConfig {
    pub open spec fn wf(self) -> bool {
        &&& 1 <= self.tick_ms <= TICK_MAX_MS
        &&& 1 <= self.tick_size_cents <= TICK_SIZE_MAX
        &&& self.tick_size_cents <= self.initial_price_cents <= MID_MAX
        &&& self.shock_min_pct_ppb <= self.shock_max_pct_ppb <= PPB
        &&& 1 <= self.ttl_min_ms <= self.ttl_max_ms
        &&& self.throughput_scale_milli <= SCALE_MAX_MILLI
        &&& 1 <= self.display_interval_ms <= DISPLAY_MAX_MS
        &&& self.shock_prob_ppb <= PPB
    }

    /// Whether the configuration lies inside the engine's documented ranges.
    /// Startup must reject a configuration for which this returns false.
    pub fn validate(&self) -> (r: bool)
        ensures
            r == self.wf(),
    {
        1 <= self.tick_ms && self.tick_ms <= TICK_MAX_MS && 1 <= self.tick_size_cents
            && self.tick_size_cents <= TICK_SIZE_MAX && self.tick_size_cents
            <= self.initial_price_cents && self.initial_price_cents <= MID_MAX
            && self.shock_min_pct_ppb <= self.shock_max_pct_ppb && self.shock_max_pct_ppb <= PPB
            && 1 <= self.ttl_min_ms && self.ttl_min_ms <= self.ttl_max_ms
            && self.throughput_scale_milli <= SCALE_MAX_MILLI && 1 <= self.display_interval_ms
            && self.display_interval_ms <= DISPLAY_MAX_MS && self.shock_prob_ppb <= PPB
    }
}

/// One outbound wire message record.
#[derive(Clone, Copy, Debug, PartialEq, Eq, Structural)]
pub enum Msg {
    Order(Order),
    Cancel { id: u64, time_ms: u64 },
}

/// The numbers one summary block reports.
#[derive(Clone, Copy, Debug, PartialEq, Eq, Structural)]
pub struct SummaryData {
    /// Simulated time at the block, milliseconds.
    pub t_ms: u64,
    pub mid_cents: u64,
    pub regime: Regime,
    pub active_orders: u64,
    pub stats: TickStats,
    /// Actual elapsed interval the rates divide by, milliseconds.
    pub elapsed_ms: u64,
}

/// The mutable engine state, as specifications see it.
pub ghost struct EngineModel {
    pub tunables: RuntimeTunables,
    pub forced_event_fired: bool,
    pub mid_cents: u64,
    pub next_id: u64,
    pub current_time_ms: u64,
    pub state: RegimeState,
    pub last_printed_regime: Regime,
    pub active: Seq<Order>,
    pub stats: TickStats,
    pub time_since_display_ms: u64,
}

/// The simulation engine.
#[derive(Debug)]
pub struct Engine {
    pub cfg: EngineConfig,
    pub scenario_cfg: ScenarioConfig,
    pub tunables: RuntimeTunables,
    pub forced_event_fired: bool,
    pub mid_cents: u64,
    pub next_id: u64,
    pub current_time_ms: u64,
    pub state: RegimeState,
    pub last_printed_regime: Regime,
    pub active: Vec<Order>,
    pub stats: TickStats,
    pub time_since_display_ms: u64,
}

impl View for Engine {
    type V = EngineModel;

    open spec fn view(&self) -> EngineModel {
        EngineModel {
            tunables: self.tunables,
            forced_event_fired: self.forced_event_fired,
            mid_cents: self.mid_cents,
            next_id: self.next_id,
            current_time_ms: self.current_time_ms,
            state: self.state,
            last_printed_regime: self.last_printed_regime,
            active: self.active@,
            stats: self.stats,
            time_since_display_ms: self.time_since_display_ms,
        }
    }
}

/// A resting order the engine keeps: a well-formed limit order, created no
/// later than now, with a price snapped to the tick grid and at least one
/// tick.
pub open spec fn spec_active_order_ok(o: Order, next_id: u64, now: u64, tick: u64) -> bool {
    &&& o.wf()
    &&& o.order_type is Limit
    &&& o.id < next_id
    &&& o.created_at <= now
    &&& o.price % tick == 0
    &&& o.price >= tick
}

/// The active index is kept sorted by id, every entry a resting order.
pub open spec fn spec_active_wf(a: Seq<Order>, next_id: u64, now: u64, tick: u64) -> bool {
    &&& forall|i: int| 0 <= i < a.len() ==> spec_active_order_ok(#[trigger] a[i], next_id, now, tick)
    &&& forall|i: int, j: int| 0 <= i < j < a.len() ==> a[i].id < a[j].id
}

impl EngineModel {
    /// The engine's invariant over its mutable state.
    pub open spec fn wf(self, cfg: EngineConfig) -> bool {
        &&& self.tunables.wf()
        &&& self.state.wf()
        &&& cfg.tick_size_cents <= self.mid_cents <= MID_MAX
        &&& self.state.time_in_regime_ms <= self.current_time_ms
        &&& self.time_since_display_ms <= DISPLAY_MAX_MS
        &&& spec_active_wf(self.active, self.next_id, self.current_time_ms, cfg.tick_size_cents)
    }
}

impl Engine {
    /// The engine invariant: configuration in range, the scenario profile
    /// resolved from the configured scenario, and the mutable state sound.
    pub open spec fn wf(self) -> bool {
        &&& self.cfg.wf()
        &&& self.scenario_cfg == spec_from_scenario(self.cfg.scenario)
        &&& self@.wf(self.cfg)
    }

    /// Start the engine: time zero, the first id zero, the mid at the
    /// configured initial price, the regime the scenario's starting regime.
    pub fn new(cfg: EngineConfig, rng: &mut rand::rngs::StdRng) -> (e: Engine)
        requires
            cfg.wf(),
        ensures
            e.wf(),
            e.cfg == cfg,
            e.next_id == 0,
            e.current_time_ms == 0,
            e.mid_cents == cfg.initial_price_cents,
            e.active@ =~= Seq::<Order>::empty(),
            e.state.current == spec_from_scenario(cfg.scenario).starting_regime,
            e.state.time_in_regime_ms == 0,
            !e.forced_event_fired,
            !e.tunables.paused,
            e.tunables.throughput_scale_milli == cfg.throughput_scale_milli,
            e.tunables.display_interval_ms == cfg.display_interval_ms,
            e.tunables.shock_prob_ppb == cfg.shock_prob_ppb,
            e.stats == TickStats::spec_zero(),
            e.time_since_display_ms == 0,
    {
        let scenario_cfg = ScenarioConfig::from_scenario(cfg.scenario);
        let state = RegimeState::new(scenario_cfg.starting_regime, rng);
        Engine {
            cfg,
            scenario_cfg,
            tunables: RuntimeTunables {
                throughput_scale_milli: cfg.throughput_scale_milli,
                display_interval_ms: cfg.display_interval_ms,
                shock_prob_ppb: cfg.shock_prob_ppb,
                paused: false,
            },
            forced_event_fired: false,
            mid_cents: cfg.initial_price_cents,
            next_id: 0,
            current_time_ms: 0,
            state,
            last_printed_regime: state.current,
            active: Vec::new(),
            stats: TickStats::new(),
            time_since_display_ms: 0,
        }
    }
}

/// Every rate in the regime table is at most 80 events per second.
pub proof fn lemma_rate_bounds(regime: Regime)
    ensures
        spec_params(regime).limit_rate <= 80,
        spec_params(regime).market_rate <= 80,
        spec_params(regime).cancel_rate <= 80,
        spec_params(regime).buy_prob_ppb <= PPB,
{
    match regime {
        Regime::Calm => {},
        Regime::Volatile => {},
        Regime::Crash => {},
        Regime::Rally => {},
        Regime::Recovery => {},
    }
}

/// A Poisson rate for one tick, in micro-events: events per second, times
/// the throughput scale in thousandths, times the tick length in
/// milliseconds.
pub open spec fn spec_lambda_micro(rate: u64, scale_milli: u64, tick_ms: u64) -> int {
    rate * scale_milli * tick_ms
}

fn lambda_micro(rate: u64, scale_milli: u64, tick_ms: u64) -> (r: u64)
    requires
        rate <= 80,
        scale_milli <= SCALE_MAX_MILLI,
        tick_ms <= TICK_MAX_MS,
    ensures
        r == spec_lambda_micro(rate, scale_milli, tick_ms),
{
    proof {
        assert(rate * scale_milli <= 80_000_000_000) by (nonlinear_arith)
            requires
                rate <= 80,
                scale_milli <= 1_000_000_000,
        ;
        assert(rate * scale_milli * tick_ms <= 80_000_000_000 * 60_000) by (nonlinear_arith)
            requires
                rate * scale_milli <= 80_000_000_000,
                0 <= rate * scale_milli,
                tick_ms <= 60_000,
        ;
    }
    rate * scale_milli * tick_ms
}

impl Engine {
    /// The tick's three Poisson rates in micro-events per tick, in order:
    /// limit arrivals, market arrivals, cancellations. The caller samples
    /// the per-tick counts from these.
    pub fn lambdas_micro(&self) -> (r: (u64, u64, u64))
        requires
            self.wf(),
        ensures
            r.0 == spec_lambda_micro(
                spec_params(self.state.current).limit_rate,
                self.tunables.throughput_scale_milli,
                self.cfg.tick_ms,
            ),
            r.1 == spec_lambda_micro(
                spec_params(self.state.current).market_rate,
                self.tunables.throughput_scale_milli,
                self.cfg.tick_ms,
            ),
            r.2 == spec_lambda_micro(
                spec_params(self.state.current).cancel_rate,
                self.tunables.throughput_scale_milli,
                self.cfg.tick_ms,
            ),
    {
        proof {
            lemma_rate_bounds(self.state.current);
        }
        let p = params(self.state.current);
        (
            lambda_micro(p.limit_rate, self.tunables.throughput_scale_milli, self.cfg.tick_ms),
            lambda_micro(p.market_rate, self.tunables.throughput_scale_milli, self.cfg.tick_ms),
            lambda_micro(p.cancel_rate, self.tunables.throughput_scale_milli, self.cfg.tick_ms),
        )
    }
}

/// Clamp a computed mid into `[tick_size, MID_MAX]`.
pub open spec fn spec_clamp_mid(v: int, tick: u64) -> u64 {
    if v < tick {
        tick
    } else if v > MID_MAX {
        MID_MAX
    } else {
        v as u64
    }
}

/// The mid after one multiplicative factor in parts per billion, clamped.
pub open spec fn spec_scale_mid(mid: u64, factor_ppb: u64, tick: u64) -> u64 {
    spec_clamp_mid(mid * factor_ppb / (PPB as int), tick)
}

/// Apply a multiplicative factor in parts per billion to the mid, clamping
/// the result into `[tick_size, MID_MAX]`.
fn scale_mid(mid: u64, factor_ppb: u64, tick: u64) -> (r: u64)
    requires
        1 <= tick <= TICK_SIZE_MAX,
    ensures
        r == spec_scale_mid(mid, factor_ppb, tick),
{
    proof {
        assert((mid as int) * (factor_ppb as int) <= (u64::MAX as int) * (u64::MAX as int))
            by (nonlinear_arith)
            requires
                0 <= mid <= u64::MAX,
                0 <= factor_ppb <= u64::MAX,
        ;
    }
    let prod: u128 = (mid as u128) * (factor_ppb as u128);
    let q: u128 = prod / (PPB as u128);
    if q < tick as u128 {
        tick
    } else if q > MID_MAX as u128 {
        MID_MAX
    } else {
        q as u64
    }
}

/// Snap a raw price to the nearest multiple of the tick size, rounding half
/// up, then clamp below to one tick.
pub open spec fn spec_snap_price(raw: int, tick: u64) -> u64 {
    let snapped = (raw + tick / 2) / (tick as int) * tick;
    if snapped < tick {
        tick
    } else {
        snapped as u64
    }
}

fn snap_price(raw: u64, tick: u64) -> (r: u64)
    requires
        1 <= tick <= TICK_SIZE_MAX,
        raw <= MID_MAX + OFFSET_MAX,
    ensures
        r == spec_snap_price(raw as int, tick),
{
    proof {
        let a = raw + tick / 2;
        let t = tick as int;
        assert(0 <= a / t * t <= a) by (nonlinear_arith)
            requires
                t >= 1,
                a >= 0,
        ;
    }
    let snapped = (raw + tick / 2) / tick * tick;
    if snapped < tick {
        tick
    } else {
        snapped
    }
}

/// A snapped price is a positive multiple of the tick size.
pub proof fn lemma_snap_price_on_grid(raw: int, tick: u64)
    requires
        1 <= tick,
        0 <= raw <= MID_MAX + OFFSET_MAX,
    ensures
        spec_snap_price(raw, tick) % tick == 0,
        spec_snap_price(raw, tick) >= tick,
{
    let t = tick as int;
    let a = raw + tick / 2;
    let q = a / t;
    assert(0 <= a / t * t <= a) by (nonlinear_arith)
        requires
            t >= 1,
            a >= 0,
    ;
    assert(a / t * t % t == 0) by (nonlinear_arith)
        requires
            t >= 1,
    ;
    assert(tick % tick == 0) by (nonlinear_arith)
        requires
            tick >= 1,
    ;
}

/// The caller-sampled stochastic draws one tick consumes: the Poisson counts
/// and the values that need floating-point distributions. The engine trusts
/// none of them: counts are zeroed when the matching rate is zero, sizes are
/// clamped to one, offsets are bounded by the precondition.
#[derive(Debug)]
pub struct TickDraws {
    /// Multiplicative mid-price factor for this tick, parts per billion.
    pub gbm_factor_ppb: u64,
    /// Poisson counts for limit orders, market orders and cancellations.
    pub n_limits: u64,
    pub n_markets: u64,
    pub n_cancels: u64,
    /// Price offsets of the limit orders, cents; length `n_limits`.
    pub limit_offsets_cents: Vec<u64>,
    /// Raw sizes of the limit orders; length `n_limits`.
    pub limit_sizes: Vec<u32>,
    /// Raw sizes of the market orders, already scaled by the regime's
    /// multiplier; length `n_markets`.
    pub market_sizes: Vec<u32>,
}

impl TickDraws {
    pub open spec fn wf(self) -> bool {
        &&& self.n_limits + self.n_markets <= BATCH_MAX
        &&& self.n_cancels <= BATCH_MAX
        &&& self.limit_offsets_cents@.len() == self.n_limits
        &&& self.limit_sizes@.len() == self.n_limits
        &&& self.market_sizes@.len() == self.n_markets
        &&& forall|i: int|
            0 <= i < self.n_limits ==> #[trigger] self.limit_offsets_cents@[i] <= OFFSET_MAX
    }

    /// A tick that draws nothing.
    pub fn empty() -> (r: TickDraws)
        ensures
            r.wf(),
            r.gbm_factor_ppb == PPB,
            r.n_limits == 0,
            r.n_markets == 0,
            r.n_cancels == 0,
    {
        TickDraws {
            gbm_factor_ppb: PPB,
            n_limits: 0,
            n_markets: 0,
            n_cancels: 0,
            limit_offsets_cents: Vec::new(),
            limit_sizes: Vec::new(),
            market_sizes: Vec::new(),
        }
    }
}

/// Integer entropy for the control-and-shock half of a tick.
#[derive(Debug)]
pub struct PrepEntropy {
    /// Decides whether a shock fires.
    pub shock_roll_ppb: u64,
    /// Offset of the shock percentage inside the configured window.
    pub shock_pct_roll: u64,
    /// Decides the shock direction.
    pub shock_dir_roll_ppb: u64,
    /// Duration rolls: one per command, then one for the forced event, one
    /// for the flash-crash override, one for a shock-triggered transition.
    pub dur_rolls: Vec<u64>,
}

impl PrepEntropy {
    pub open spec fn wf(self, n_cmds: int, cfg: EngineConfig) -> bool {
        &&& self.shock_roll_ppb < PPB
        &&& self.shock_pct_roll <= cfg.shock_max_pct_ppb - cfg.shock_min_pct_ppb
        &&& self.shock_dir_roll_ppb < PPB
        &&& self.dur_rolls@.len() == n_cmds + 3
    }
}

/// Integer entropy for the generation half of a tick.
#[derive(Debug)]
pub struct TickEntropy {
    /// Buy-or-sell rolls, one per generated order.
    pub side_rolls_ppb: Vec<u64>,
    /// Time-to-live offsets inside the configured window, one per limit.
    pub ttl_rolls: Vec<u64>,
    /// Index rolls for regime-driven cancellations.
    pub cancel_rolls: Vec<u64>,
    /// Swap rolls for the batch shuffle, one per generated order.
    pub shuffle_rolls: Vec<u64>,
    /// The end-of-tick Markov transition roll.
    pub trans_roll_ppb: u64,
    /// Duration roll for an accepted end-of-tick transition.
    pub dur_roll: u64,
}

impl TickEntropy {
    pub open spec fn wf(self, n_limits: u64, n_markets: u64, n_cancels: u64, cfg: EngineConfig) -> bool {
        &&& self.side_rolls_ppb@.len() == n_limits + n_markets
        &&& self.ttl_rolls@.len() == n_limits
        &&& self.cancel_rolls@.len() == n_cancels
        &&& self.shuffle_rolls@.len() == n_limits + n_markets
        &&& self.trans_roll_ppb < PPB
        &&& forall|i: int| 0 <= i < self.ttl_rolls@.len() ==> #[trigger] self.ttl_rolls@[i]
            <= cfg.ttl_max_ms - cfg.ttl_min_ms
    }
}

impl Engine {
    /// Draw the integer entropy for the control-and-shock half of a tick.
    pub fn draw_prep_entropy(&self, rng: &mut rand::rngs::StdRng, n_cmds: usize) -> (en:
        PrepEntropy)
        requires
            self.wf(),
            n_cmds + 3 <= usize::MAX,
        ensures
            en.wf(n_cmds as int, self.cfg),
    {
        let span = self.cfg.shock_max_pct_ppb - self.cfg.shock_min_pct_ppb;
        let shock_roll_ppb = rng_below(rng, PPB);
        let shock_pct_roll = rng_below(rng, span + 1);
        let shock_dir_roll_ppb = rng_below(rng, PPB);
        let mut dur_rolls: Vec<u64> = Vec::new();
        let mut i: usize = 0;
        while i < n_cmds + 3
            invariant
                i <= n_cmds + 3,
                dur_rolls@.len() == i,
                n_cmds + 3 <= usize::MAX,
            decreases n_cmds + 3 - i,
        {
            dur_rolls.push(rng_below(rng, PPB));
            i += 1;
        }
        PrepEntropy { shock_roll_ppb, shock_pct_roll, shock_dir_roll_ppb, dur_rolls }
    }

    /// Draw the integer entropy for the generation half of a tick.
    pub fn draw_tick_entropy(
        &self,
        rng: &mut rand::rngs::StdRng,
        n_limits: u64,
        n_markets: u64,
        n_cancels: u64,
    ) -> (en: TickEntropy)
        requires
            self.wf(),
            n_limits + n_markets <= BATCH_MAX,
            n_cancels <= BATCH_MAX,
        ensures
            en.wf(n_limits, n_markets, n_cancels, self.cfg),
    {
        let total = n_limits + n_markets;
        let mut side_rolls_ppb: Vec<u64> = Vec::new();
        let mut i: u64 = 0;
        while i < total
            invariant
                i <= total,
                side_rolls_ppb@.len() == i,
            decreases total - i,
        {
            side_rolls_ppb.push(rng_below(rng, PPB));
            i += 1;
        }
        let ttl_span = self.cfg.ttl_max_ms - self.cfg.ttl_min_ms;
        let mut ttl_rolls: Vec<u64> = Vec::new();
        let mut i: u64 = 0;
        while i < n_limits
            invariant
                i <= n_limits,
                ttl_rolls@.len() == i,
                ttl_span < u64::MAX,
                forall|j: int| 0 <= j < i ==> #[trigger] ttl_rolls@[j] <= ttl_span,
            decreases n_limits - i,
        {
            ttl_rolls.push(rng_below(rng, ttl_span + 1));
            i += 1;
        }
        let mut cancel_rolls: Vec<u64> = Vec::new();
        let mut i: u64 = 0;
        while i < n_cancels
            invariant
                i <= n_cancels,
                cancel_rolls@.len() == i,
            decreases n_cancels - i,
        {
            cancel_rolls.push(rng_below(rng, PPB));
            i += 1;
        }
        let mut shuffle_rolls: Vec<u64> = Vec::new();
        let mut i: u64 = 0;
        while i < total
            invariant
                i <= total,
                shuffle_rolls@.len() == i,
            decreases total - i,
        {
            shuffle_rolls.push(rng_below(rng, PPB));
            i += 1;
        }
        let trans_roll_ppb = rng_below(rng, PPB);
        let dur_roll = rng_below(rng, PPB);
        TickEntropy { side_rolls_ppb, ttl_rolls, cancel_rolls, shuffle_rolls, trans_roll_ppb, dur_roll }
    }
}

/// The state one control command leaves behind. Out-of-range values leave
/// the state unchanged (the engine reports them as invalid).
pub open spec fn spec_apply_command(m: EngineModel, cmd: EngineCommand, dur_roll: u64) -> EngineModel {
    match cmd {
        EngineCommand::Pause => EngineModel {
            tunables: RuntimeTunables { paused: true, ..m.tunables },
            ..m
        },
        EngineCommand::Resume => EngineModel {
            tunables: RuntimeTunables { paused: false, ..m.tunables },
            ..m
        },
        EngineCommand::Throughput(v) => if 0 <= v <= SCALE_MAX_MILLI {
            EngineModel {
                tunables: RuntimeTunables { throughput_scale_milli: v as u64, ..m.tunables },
                ..m
            }
        } else {
            m
        },
        EngineCommand::DisplayInterval(v) => if 1 <= v <= DISPLAY_MAX_MS {
            EngineModel {
                tunables: RuntimeTunables { display_interval_ms: v as u64, ..m.tunables },
                ..m
            }
        } else {
            m
        },
        EngineCommand::Regime(r) => EngineModel {
            state: spec_transition_with_roll(m.state, r, dur_roll),
            ..m
        },
        EngineCommand::Reload(ort) => match ort {
            Some(rt) => if rt.throughput_scale_milli <= SCALE_MAX_MILLI && 1
                <= rt.display_interval_ms <= DISPLAY_MAX_MS && rt.shock_prob_ppb <= PPB {
                EngineModel {
                    tunables: RuntimeTunables {
                        throughput_scale_milli: rt.throughput_scale_milli,
                        display_interval_ms: rt.display_interval_ms,
                        shock_prob_ppb: rt.shock_prob_ppb,
                        paused: m.tunables.paused,
                    },
                    ..m
                }
            } else {
                m
            },
            None => m,
        },
        EngineCommand::Stats => m,
    }
}

/// The state a burst of commands leaves behind, applied in arrival order.
pub open spec fn spec_apply_commands(m: EngineModel, cmds: Seq<EngineCommand>, rolls: Seq<u64>) -> EngineModel
    decreases cmds.len(),
{
    if cmds.len() == 0 {
        m
    } else {
        spec_apply_commands(
            spec_apply_command(m, cmds[0], rolls[0]),
            cmds.drop_first(),
            rolls.drop_first(),
        )
    }
}

/// One command keeps the engine invariant.
pub proof fn lemma_apply_command_wf(m: EngineModel, cfg: EngineConfig, cmd: EngineCommand, dur_roll: u64)
    requires
        m.wf(cfg),
    ensures
        spec_apply_command(m, cmd, dur_roll).wf(cfg),
        spec_apply_command(m, cmd, dur_roll).active == m.active,
        spec_apply_command(m, cmd, dur_roll).next_id == m.next_id,
        spec_apply_command(m, cmd, dur_roll).current_time_ms == m.current_time_ms,
        spec_apply_command(m, cmd, dur_roll).mid_cents == m.mid_cents,
        spec_apply_command(m, cmd, dur_roll).stats == m.stats,
        spec_apply_command(m, cmd, dur_roll).time_since_display_ms == m.time_since_display_ms,
{
}

/// A burst of commands keeps the engine invariant and touches only the
/// tunables and the regime state.
pub proof fn lemma_apply_commands_wf(m: EngineModel, cfg: EngineConfig, cmds: Seq<EngineCommand>, rolls: Seq<u64>)
    requires
        m.wf(cfg),
    ensures
        spec_apply_commands(m, cmds, rolls).wf(cfg),
        spec_apply_commands(m, cmds, rolls).active == m.active,
        spec_apply_commands(m, cmds, rolls).next_id == m.next_id,
        spec_apply_commands(m, cmds, rolls).current_time_ms == m.current_time_ms,
        spec_apply_commands(m, cmds, rolls).mid_cents == m.mid_cents,
        spec_apply_commands(m, cmds, rolls).stats == m.stats,
        spec_apply_commands(m, cmds, rolls).time_since_display_ms == m.time_since_display_ms,
    decreases cmds.len(),
{
    if cmds.len() == 0 {
    } else {
        lemma_apply_command_wf(m, cfg, cmds[0], rolls[0]);
        lemma_apply_commands_wf(
            spec_apply_command(m, cmds[0], rolls[0]),
            cfg,
            cmds.drop_first(),
            rolls.drop_first(),
        );
    }
}

/// Folding one more command from the right.
pub proof fn lemma_apply_commands_snoc(m: EngineModel, cmds: Seq<EngineCommand>, rolls: Seq<u64>, cmd: EngineCommand, roll: u64)
    requires
        cmds.len() == rolls.len(),
    ensures
        spec_apply_commands(m, cmds.push(cmd), rolls.push(roll)) == spec_apply_command(
            spec_apply_commands(m, cmds, rolls),
            cmd,
            roll,
        ),
    decreases cmds.len(),
{
    let cs = cmds.push(cmd);
    let rs = rolls.push(roll);
    if cmds.len() == 0 {
        assert(cs[0] == cmd);
        assert(rs[0] == roll);
        let m1 = spec_apply_command(m, cmd, roll);
        assert(spec_apply_commands(m, cs, rs) == spec_apply_commands(
            m1,
            cs.drop_first(),
            rs.drop_first(),
        ));
        assert(cs.drop_first().len() == 0);
        assert(spec_apply_commands(m1, cs.drop_first(), rs.drop_first()) == m1);
        assert(spec_apply_commands(m, cmds, rolls) == m);
    } else {
        assert(cs.drop_first() =~= cmds.drop_first().push(cmd));
        assert(rs.drop_first() =~= rolls.drop_first().push(roll));
        assert(cs[0] == cmds[0]);
        assert(rs[0] == rolls[0]);
        let m1 = spec_apply_command(m, cmds[0], rolls[0]);
        assert(spec_apply_commands(m, cs, rs) == spec_apply_commands(
            m1,
            cs.drop_first(),
            rs.drop_first(),
        ));
        lemma_apply_commands_snoc(m1, cmds.drop_first(), rolls.drop_first(), cmd, roll);
        assert(spec_apply_commands(m, cmds, rolls) == spec_apply_commands(
            m1,
            cmds.drop_first(),
            rolls.drop_first(),
        ));
    }
}

/// The state after the scenario's forced event is checked: when the scenario
/// has one, it has not fired yet, and its time has come, the regime jumps to
/// the forced regime; the flash-crash scenario overrides the new duration
/// with a value in [3000, 7000] milliseconds.
pub open spec fn spec_forced_event(
    m: EngineModel,
    scen: ScenarioConfig,
    is_flash: bool,
    dur_roll: u64,
    flash_roll: u64,
) -> EngineModel {
    if !m.forced_event_fired && scen.forced_event_time_ms is Some && m.current_time_ms
        >= scen.forced_event_time_ms->0 {
        let st = spec_transition_with_roll(m.state, scen.forced_regime, dur_roll);
        let st2 = if is_flash {
            RegimeState { regime_duration_ms: (3000 + (flash_roll as int) % 4001) as u64, ..st }
        } else {
            st
        };
        EngineModel { forced_event_fired: true, state: st2, ..m }
    } else {
        m
    }
}

/// The state after the shock sample: when the roll falls under the shock
/// probability, the mid jumps by the sampled percentage in the sampled
/// direction (clamped to the tick grid's floor), and from a calm or recovery
/// regime a downward shock forces a crash, an upward one a rally.
pub open spec fn spec_shock(
    m: EngineModel,
    cfg: EngineConfig,
    roll_ppb: u64,
    pct_roll: u64,
    dir_roll_ppb: u64,
    dur_roll: u64,
) -> EngineModel {
    if roll_ppb < m.tunables.shock_prob_ppb {
        let pct_ppb = (cfg.shock_min_pct_ppb + pct_roll) as u64;
        let up = dir_roll_ppb < 500_000_000;
        let factor = if up {
            (PPB + pct_ppb) as u64
        } else {
            (PPB - pct_ppb) as u64
        };
        let m1 = EngineModel {
            mid_cents: spec_scale_mid(m.mid_cents, factor, cfg.tick_size_cents),
            ..m
        };
        if m.state.current is Calm || m.state.current is Recovery {
            let next = if up {
                Regime::Rally
            } else {
                Regime::Crash
            };
            EngineModel { state: spec_transition_with_roll(m1.state, next, dur_roll), ..m1 }
        } else {
            m1
        }
    } else {
        m
    }
}

fn event_line(text: &str) -> (s: String) {
    String::from_str(text)
}

fn event_control_throughput(v: u64) -> (s: String) {
    let mut s = String::from_str("  \u{25b6} CONTROL throughput=");
    let num = crate::text::fmt_milli3(v);
    s.append(num.as_str());
    s.append("x");
    s
}

fn event_control_display(v: u64) -> (s: String) {
    let mut s = String::from_str("  \u{25b6} CONTROL display_interval=");
    let num = crate::text::fmt_ms3(v);
    s.append(num.as_str());
    s.append("s");
    s
}

fn event_control_regime(r: Regime) -> (s: String) {
    let mut s = String::from_str("  \u{25b6} CONTROL regime -> ");
    s.append(r.name());
    s
}

fn event_reload_ok(rt: &ReloadTunables) -> (s: String) {
    let mut s = String::from_str("  \u{25b6} CONTROL reload OK throughput=");
    let num = crate::text::fmt_milli3(rt.throughput_scale_milli);
    s.append(num.as_str());
    s.append("x display=");
    let num = crate::text::fmt_ms3(rt.display_interval_ms);
    s.append(num.as_str());
    s.append("s shock_prob=");
    let num = crate::text::fmt_ppb9(rt.shock_prob_ppb);
    s.append(num.as_str());
    s
}

fn event_stats(time_ms: u64, mid_cents: u64, regime: Regime, active: usize, paused: bool, scale_milli: u64) -> (s: String) {
    let mut s = String::from_str("  \u{25b6} CONTROL stats t=");
    let num = crate::text::fmt_ms1(time_ms);
    s.append(num.as_str());
    s.append("s mid=");
    let num = crate::text::fmt_cents4(mid_cents);
    s.append(num.as_str());
    s.append(" regime=");
    s.append(regime.name());
    s.append(" active=");
    let num = crate::text::u64_to_dec(active as u64);
    s.append(num.as_str());
    s.append(" paused=");
    s.append(if paused { "true" } else { "false" });
    s.append(" throughput=");
    let num = crate::text::fmt_milli3(scale_milli);
    s.append(num.as_str());
    s.append("x");
    s
}

fn event_forced(regime: Regime, time_ms: u64) -> (s: String) {
    let mut s = String::from_str("  \u{25b6} FORCED EVENT  regime -> ");
    s.append(regime.name());
    s.append("  t=");
    let num = crate::text::fmt_ms1(time_ms);
    s.append(num.as_str());
    s.append("s");
    s
}

fn event_shock(up: bool, pct_ppb: u64, mid_cents: u64, time_ms: u64) -> (s: String) {
    let mut s = String::from_str("  \u{26a1} SHOCK  ");
    s.append(if up { "+" } else { "-" });
    let num = crate::text::fmt_pct2(pct_ppb);
    s.append(num.as_str());
    s.append("% -> mid=");
    let num = crate::text::fmt_cents4(mid_cents);
    s.append(num.as_str());
    s.append("  t=");
    let num = crate::text::fmt_ms1(time_ms);
    s.append(num.as_str());
    s.append("s");
    s
}

fn event_shock_regime(regime: Regime) -> (s: String) {
    let mut s = String::from_str("  \u{26a1} SHOCK triggered regime -> ");
    s.append(regime.name());
    s
}

impl Engine {
    /// The control-and-shock half of a tick: drain the command burst in
    /// arrival order, and unless the engine ends up paused, fire a due
    /// scenario forced event and sample the shock. Returns the event lines
    /// and whether the tick proceeds (false exactly when paused).
    pub fn prepare_tick(&mut self, cmds: &Vec<EngineCommand>, en: &PrepEntropy) -> (r: (
        Vec<String>,
        bool,
    ))
        requires
            old(self).wf(),
            en.wf(cmds@.len() as int, old(self).cfg),
        ensures
            final(self).wf(),
            final(self).cfg == old(self).cfg,
            final(self).scenario_cfg == old(self).scenario_cfg,
            ({
                let mc = spec_apply_commands(old(self)@, cmds@, en.dur_rolls@);
                let n = cmds@.len() as int;
                &&& r.1 == !mc.tunables.paused
                &&& mc.tunables.paused ==> final(self)@ == mc
                &&& !mc.tunables.paused ==> final(self)@ == spec_shock(
                    spec_forced_event(
                        mc,
                        old(self).scenario_cfg,
                        old(self).cfg.scenario is FlashCrash,
                        en.dur_rolls@[n],
                        en.dur_rolls@[n + 1],
                    ),
                    old(self).cfg,
                    en.shock_roll_ppb,
                    en.shock_pct_roll,
                    en.shock_dir_roll_ppb,
                    en.dur_rolls@[n + 2],
                )
            }),
    {
        let ghost m0 = self@;
        let ghost rolls = en.dur_rolls@;
        let mut events: Vec<String> = Vec::new();
        let n = cmds.len();
        let dlen = en.dur_rolls.len();
        proof {
            assert(dlen == n + 3);
        }
        let mut i: usize = 0;
        proof {
            assert(cmds@.take(0) =~= Seq::<EngineCommand>::empty());
            assert(rolls.take(0) =~= Seq::<u64>::empty());
        }
        while i < n
            invariant
                i <= n,
                n == cmds@.len(),
                rolls.len() == n + 3,
                rolls == en.dur_rolls@,
                self@ == spec_apply_commands(m0, cmds@.take(i as int), rolls.take(i as int)),
                self.cfg == old(self).cfg,
                self.scenario_cfg == old(self).scenario_cfg,
                m0.wf(self.cfg),
                self.wf(),
            decreases n - i,
        {
            let ghost pre = self@;
            let cmd = cmds[i];
            match cmd {
                EngineCommand::Pause => {
                    self.tunables.paused = true;
                    events.push(event_line("  \u{25b6} CONTROL pause"));
                },
                EngineCommand::Resume => {
                    self.tunables.paused = false;
                    events.push(event_line("  \u{25b6} CONTROL resume"));
                },
                EngineCommand::Throughput(v) => {
                    if 0 <= v && v <= SCALE_MAX_MILLI as i64 {
                        self.tunables.throughput_scale_milli = v as u64;
                        events.push(event_control_throughput(v as u64));
                    } else {
                        events.push(event_line("  \u{26a0} invalid control value"));
                    }
                },
                EngineCommand::DisplayInterval(v) => {
                    if 1 <= v && v <= DISPLAY_MAX_MS as i64 {
                        self.tunables.display_interval_ms = v as u64;
                        events.push(event_control_display(v as u64));
                    } else {
                        events.push(event_line("  \u{26a0} invalid control value"));
                    }
                },
                EngineCommand::Regime(r) => {
                    self.state.transition_with_roll(r, en.dur_rolls[i]);
                    events.push(event_control_regime(r));
                },
                EngineCommand::Reload(ort) => {
                    match ort {
                        Some(rt) => {
                            if rt.throughput_scale_milli <= SCALE_MAX_MILLI
                                && 1 <= rt.display_interval_ms
                                && rt.display_interval_ms <= DISPLAY_MAX_MS
                                && rt.shock_prob_ppb <= PPB {
                                self.tunables.throughput_scale_milli = rt.throughput_scale_milli;
                                self.tunables.display_interval_ms = rt.display_interval_ms;
                                self.tunables.shock_prob_ppb = rt.shock_prob_ppb;
                                events.push(event_reload_ok(&rt));
                            } else {
                                events.push(event_line("  \u{26a0} invalid control value"));
                            }
                        },
                        None => {
                            events.push(
                                event_line("  \u{26a0} reload unavailable or unreadable"),
                            );
                        },
                    }
                },
                EngineCommand::Stats => {
                    events.push(
                        event_stats(
                            self.current_time_ms,
                            self.mid_cents,
                            self.state.current,
                            self.active.len(),
                            self.tunables.paused,
                            self.tunables.throughput_scale_milli,
                        ),
                    );
                },
            }
            proof {
                assert(self@ == spec_apply_command(pre, cmds@[i as int], rolls[i as int]));
                lemma_apply_commands_snoc(
                    m0,
                    cmds@.take(i as int),
                    rolls.take(i as int),
                    cmds@[i as int],
                    rolls[i as int],
                );
                assert(cmds@.take(i + 1) =~= cmds@.take(i as int).push(cmds@[i as int]));
                assert(rolls.take(i + 1) =~= rolls.take(i as int).push(rolls[i as int]));
                lemma_apply_commands_wf(m0, self.cfg, cmds@.take(i + 1), rolls.take(i + 1));
            }
            i += 1;
        }
        proof {
            assert(cmds@.take(n as int) =~= cmds@);
            assert(self@ == spec_apply_commands(m0, cmds@, rolls.take(n as int)));
            lemma_apply_commands_take_rolls(m0, cmds@, rolls);
        }
        if self.tunables.paused {
            return (events, false);
        }
        let ghost mc = self@;
        // Scenario forced event.
        let due = if self.forced_event_fired {
            false
        } else {
            match self.scenario_cfg.forced_event_time_ms {
                Some(t) => self.current_time_ms >= t,
                None => false,
            }
        };
        if due {
            self.forced_event_fired = true;
            self.state.transition_with_roll(self.scenario_cfg.forced_regime, en.dur_rolls[n]);
            let is_flash = match self.cfg.scenario {
                Scenario::FlashCrash => true,
                _ => false,
            };
            if is_flash {
                proof {
                    crate::regime::lemma_try_transition_reachable(self.state, false, 0);
                    assert(self.scenario_cfg.forced_regime is Crash);
                }
                self.state.regime_duration_ms = 3000 + en.dur_rolls[n + 1] % 4001;
            }
            events.push(event_forced(self.state.current, self.current_time_ms));
        }
        let ghost mf = self@;
        proof {
            assert(mf == spec_forced_event(
                mc,
                self.scenario_cfg,
                self.cfg.scenario is FlashCrash,
                rolls[n as int],
                rolls[n as int + 1],
            ));
        }
        // Shock sample.
        if en.shock_roll_ppb < self.tunables.shock_prob_ppb {
            let pct_ppb = self.cfg.shock_min_pct_ppb + en.shock_pct_roll;
            let up = en.shock_dir_roll_ppb < 500_000_000;
            let factor = if up {
                PPB + pct_ppb
            } else {
                PPB - pct_ppb
            };
            self.mid_cents = scale_mid(self.mid_cents, factor, self.cfg.tick_size_cents);
            events.push(event_shock(up, pct_ppb, self.mid_cents, self.current_time_ms));
            let kick = match self.state.current {
                Regime::Calm => true,
                Regime::Recovery => true,
                _ => false,
            };
            if kick {
                let next = if up {
                    Regime::Rally
                } else {
                    Regime::Crash
                };
                self.state.transition_with_roll(next, en.dur_rolls[n + 2]);
                events.push(event_shock_regime(self.state.current));
            }
        }
        proof {
            assert(self@ == spec_shock(
                mf,
                self.cfg,
                en.shock_roll_ppb,
                en.shock_pct_roll,
                en.shock_dir_roll_ppb,
                rolls[n as int + 2],
            ));
        }
        (events, true)
    }
}

/// The limit order the `i`-th set of draws stands for: side by the buy
/// probability, price the mid shifted away by the offset and snapped to the
/// tick grid, size at least one, TTL inside the configured window.
pub open spec fn spec_limit_order(
    cfg: EngineConfig,
    p: RegimeParams,
    mid: u64,
    now: u64,
    id: u64,
    side_roll: u64,
    offset: u64,
    size_raw: u32,
    ttl_roll: u64,
) -> Order {
    let side = if side_roll < p.buy_prob_ppb {
        Side::Buy
    } else {
        Side::Sell
    };
    let raw: u64 = if side is Buy {
        if mid > offset {
            (mid - offset) as u64
        } else {
            0u64
        }
    } else {
        (mid + offset) as u64
    };
    Order {
        id,
        side,
        order_type: OrderType::Limit,
        price: spec_snap_price(raw as int, cfg.tick_size_cents),
        size: if size_raw == 0 {
            1u32
        } else {
            size_raw
        },
        created_at: now,
        ttl: (cfg.ttl_min_ms + ttl_roll) as u64,
    }
}

/// The market order the `i`-th set of draws stands for.
pub open spec fn spec_market_order(
    p: RegimeParams,
    now: u64,
    id: u64,
    side_roll: u64,
    size_raw: u32,
) -> Order {
    let side = if side_roll < p.buy_prob_ppb {
        Side::Buy
    } else {
        Side::Sell
    };
    Order {
        id,
        side,
        order_type: OrderType::Market,
        price: if side is Buy {
            MARKET_BUY_PRICE
        } else {
            MARKET_SELL_PRICE
        },
        size: if size_raw == 0 {
            1u32
        } else {
            size_raw
        },
        created_at: now,
        ttl: 0,
    }
}

/// The tick's limit orders, ids `id0, id0+1, ...`.
pub open spec fn spec_limit_batch(
    cfg: EngineConfig,
    p: RegimeParams,
    mid: u64,
    now: u64,
    id0: u64,
    draws: TickDraws,
    en: TickEntropy,
    n_l: u64,
) -> Seq<Order> {
    Seq::new(
        n_l as nat,
        |i: int| spec_limit_order(
            cfg,
            p,
            mid,
            now,
            (id0 + i) as u64,
            en.side_rolls_ppb@[i],
            draws.limit_offsets_cents@[i],
            draws.limit_sizes@[i],
            en.ttl_rolls@[i],
        ),
    )
}

/// The tick's market orders, ids following the limit orders'.
pub open spec fn spec_market_batch(
    p: RegimeParams,
    now: u64,
    id0: u64,
    draws: TickDraws,
    en: TickEntropy,
    n_l: u64,
    n_m: u64,
) -> Seq<Order> {
    Seq::new(
        n_m as nat,
        |i: int| spec_market_order(
            p,
            now,
            (id0 + i) as u64,
            en.side_rolls_ppb@[n_l + i],
            draws.market_sizes@[i],
        ),
    )
}

/// Whether a resting order's time-to-live has run out.
pub open spec fn spec_is_expired(o: Order, now: u64) -> bool {
    o.ttl > 0 && now >= o.created_at + o.ttl
}

/// Partition the active set into the orders that stay and the ones whose
/// TTL has run out, both in index order.
pub open spec fn spec_split_expired(s: Seq<Order>, now: u64) -> (Seq<Order>, Seq<Order>)
    decreases s.len(),
{
    if s.len() == 0 {
        (Seq::empty(), Seq::empty())
    } else {
        let r = spec_split_expired(s.drop_last(), now);
        if spec_is_expired(s.last(), now) {
            (r.0, r.1.push(s.last()))
        } else {
            (r.0.push(s.last()), r.1)
        }
    }
}

/// Ids strictly increase along the sequence.
pub open spec fn spec_sorted_by_id(s: Seq<Order>) -> bool {
    forall|i: int, j: int| 0 <= i < j < s.len() ==> s[i].id < s[j].id
}

/// The TTL partition keeps every order, splits the length, and both halves
/// are subsequences of a sorted input: sorted, with every element drawn from
/// the input.
pub proof fn lemma_split_expired_props(s: Seq<Order>, now: u64)
    ensures
        ({
            let r = spec_split_expired(s, now);
            &&& r.0.len() + r.1.len() == s.len()
            &&& forall|k: int| 0 <= k < r.0.len() ==> s.contains(#[trigger] r.0[k])
                && !spec_is_expired(r.0[k], now)
            &&& forall|k: int| 0 <= k < r.1.len() ==> s.contains(#[trigger] r.1[k])
                && spec_is_expired(r.1[k], now)
            &&& spec_sorted_by_id(s) ==> spec_sorted_by_id(r.0) && spec_sorted_by_id(r.1)
        }),
    decreases s.len(),
{
    if s.len() == 0 {
    } else {
        let d = s.drop_last();
        lemma_split_expired_props(d, now);
        let r = spec_split_expired(s, now);
        let rd = spec_split_expired(d, now);
        assert(forall|k: int| 0 <= k < d.len() ==> s[k] == d[k]);
        assert(forall|o: Order| d.contains(o) ==> s.contains(o));
        assert(s.contains(s.last()));
        if spec_sorted_by_id(s) {
            assert(spec_sorted_by_id(d));
            assert(forall|k: int| 0 <= k < d.len() ==> #[trigger] d[k].id < s.last().id);
            assert(forall|k: int| 0 <= k < rd.0.len() ==> #[trigger] rd.0[k].id < s.last().id) by {
                assert(forall|k: int| 0 <= k < rd.0.len() ==> d.contains(#[trigger] rd.0[k]));
            }
            assert(forall|k: int| 0 <= k < rd.1.len() ==> #[trigger] rd.1[k].id < s.last().id) by {
                assert(forall|k: int| 0 <= k < rd.1.len() ==> d.contains(#[trigger] rd.1[k]));
            }
        }
    }
}

/// Select and remove orders without replacement: each roll picks an index
/// into what is left; selection stops when the rolls or the orders run out.
pub open spec fn spec_cancel_sel(s: Seq<Order>, rolls: Seq<u64>, now: u64) -> (Seq<Order>, Seq<Msg>)
    decreases rolls.len(),
{
    if rolls.len() == 0 || s.len() == 0 {
        (s, Seq::empty())
    } else {
        let idx = (rolls[0] as int) % (s.len() as int);
        let o = s[idx];
        let r = spec_cancel_sel(s.remove(idx), rolls.drop_first(), now);
        (r.0, seq![Msg::Cancel { id: o.id, time_ms: now }] + r.1)
    }
}

/// Selection cancels `min(rolls, orders)` distinct active orders: the
/// survivors and the cancelled ids all come from the input, survivors stay
/// sorted, and the counts add up.
pub proof fn lemma_cancel_sel_props(s: Seq<Order>, rolls: Seq<u64>, now: u64)
    ensures
        ({
            let r = spec_cancel_sel(s, rolls, now);
            &&& r.0.len() + r.1.len() == s.len() || r.1.len() == rolls.len()
            &&& r.0.len() + r.1.len() == s.len()
            &&& r.1.len() == if rolls.len() <= s.len() {
                rolls.len() as int
            } else {
                s.len() as int
            }
            &&& forall|k: int| 0 <= k < r.0.len() ==> s.contains(#[trigger] r.0[k])
            &&& forall|k: int| 0 <= k < r.1.len() ==> ((#[trigger] r.1[k]) matches Msg::Cancel {
                id,
                time_ms,
            } && time_ms == now && (exists|q: int| 0 <= q < s.len() && s[q].id == id))
            &&& spec_sorted_by_id(s) ==> spec_sorted_by_id(r.0)
        }),
    decreases rolls.len(),
{
    if rolls.len() == 0 || s.len() == 0 {
    } else {
        let idx = (rolls[0] as int) % (s.len() as int);
        let o = s[idx];
        let rem = s.remove(idx);
        lemma_cancel_sel_props(rem, rolls.drop_first(), now);
        assert(forall|k: int| 0 <= k < rem.len() ==> s.contains(#[trigger] rem[k])) by {
            assert(forall|k: int| 0 <= k < idx ==> rem[k] == s[k]);
            assert(forall|k: int| idx <= k < rem.len() ==> rem[k] == s[k + 1]);
        }
        assert(forall|o2: Order| rem.contains(o2) ==> s.contains(o2));
        let r = spec_cancel_sel(s, rolls, now);
        let rr = spec_cancel_sel(rem, rolls.drop_first(), now);
        assert(r.1 == seq![Msg::Cancel { id: o.id, time_ms: now }] + rr.1);
        assert(r.1[0] == Msg::Cancel { id: o.id, time_ms: now });
        assert(forall|k: int| 1 <= k < r.1.len() ==> r.1[k] == rr.1[k - 1]);
        if spec_sorted_by_id(s) {
            assert(forall|a: int, b: int| 0 <= a < b < rem.len() ==> rem[a].id < rem[b].id) by {
                assert(forall|k: int| 0 <= k < idx ==> rem[k] == s[k]);
                assert(forall|k: int| idx <= k < rem.len() ==> rem[k] == s[k + 1]);
            }
        }
    }
}

/// Exchange two positions of a sequence.
pub open spec fn spec_swap(s: Seq<Order>, i: int, j: int) -> Seq<Order> {
    s.update(i, s[j]).update(j, s[i])
}

/// Swapping keeps the sequence's multiset of elements.
pub proof fn lemma_swap_multiset(s: Seq<Order>, i: int, j: int)
    requires
        0 <= i < s.len(),
        0 <= j < s.len(),
    ensures
        spec_swap(s, i, j).len() == s.len(),
        spec_swap(s, i, j).to_multiset() == s.to_multiset(),
{
    broadcast use vstd::seq_lib::to_multiset_update, vstd::seq_lib::to_multiset_contains, vstd::multiset::group_multiset_properties, vstd::multiset::group_multiset_axioms;

    if i == j {
        assert(spec_swap(s, i, j) =~= s);
    } else {
        let s1 = s.update(i, s[j]);
        assert(s1[j] == s[j]);
        assert(s.contains(s[i]));
        assert(s.contains(s[j]));
        assert(s1.to_multiset() == s.to_multiset().insert(s[j]).remove(s[i]));
        assert(spec_swap(s, i, j).to_multiset() == s1.to_multiset().insert(s[i]).remove(s1[j]));
        assert(spec_swap(s, i, j).to_multiset() =~= s.to_multiset());
    }
}

/// Fisher-Yates from position `len - 1 - k` downward, each step swapping
/// with an index the roll selects at or below it.
pub open spec fn spec_shuffle_from(s: Seq<Order>, rolls: Seq<u64>, k: int) -> Seq<Order>
    decreases s.len() - k,
{
    if s.len() == 0 || k < 0 || k >= s.len() - 1 {
        s
    } else {
        let i = s.len() - 1 - k;
        let j = (rolls[k] as int) % (i + 1);
        spec_shuffle_from(spec_swap(s, i, j), rolls, k + 1)
    }
}

/// The batch permutation a tick's shuffle rolls select.
pub open spec fn spec_shuffle(s: Seq<Order>, rolls: Seq<u64>) -> Seq<Order> {
    spec_shuffle_from(s, rolls, 0)
}

/// The shuffle permutes: same length, same orders.
pub proof fn lemma_shuffle_from_multiset(s: Seq<Order>, rolls: Seq<u64>, k: int)
    ensures
        spec_shuffle_from(s, rolls, k).len() == s.len(),
        spec_shuffle_from(s, rolls, k).to_multiset() == s.to_multiset(),
    decreases s.len() - k,
{
    if s.len() == 0 || k < 0 || k >= s.len() - 1 {
    } else {
        let i = s.len() - 1 - k;
        let j = (rolls[k] as int) % (i + 1);
        assert(0 <= j <= i) by (nonlinear_arith)
            requires
                i >= 0,
                j == (rolls[k] as int) % (i + 1),
        ;
        lemma_swap_multiset(s, i, j);
        lemma_shuffle_from_multiset(spec_swap(s, i, j), rolls, k + 1);
    }
}

/// Every order of a limit batch is a well-formed resting order with the
/// expected id, freshly created, on the tick grid, with a TTL inside the
/// configured window; the batch is sorted by id.
pub proof fn lemma_limit_batch_props(
    cfg: EngineConfig,
    p: RegimeParams,
    mid: u64,
    now: u64,
    id0: u64,
    draws: TickDraws,
    en: TickEntropy,
    n_l: u64,
)
    requires
        cfg.wf(),
        mid <= MID_MAX,
        id0 + n_l <= u64::MAX,
        n_l <= draws.n_limits,
        draws.wf(),
        en.wf(draws.n_limits, draws.n_markets, draws.n_cancels, cfg),
    ensures
        ({
            let b = spec_limit_batch(cfg, p, mid, now, id0, draws, en, n_l);
            &&& b.len() == n_l
            &&& forall|i: int| 0 <= i < n_l ==> (#[trigger] b[i]).id == id0 + i
            &&& forall|i: int| 0 <= i < n_l ==> (#[trigger] b[i]).order_type is Limit
            &&& forall|i: int| 0 <= i < n_l ==> (#[trigger] b[i]).created_at == now
            &&& forall|i: int| 0 <= i < n_l ==> (#[trigger] b[i]).wf()
            &&& forall|i: int| 0 <= i < n_l ==> (#[trigger] b[i]).price % cfg.tick_size_cents == 0
            &&& forall|i: int| 0 <= i < n_l ==> (#[trigger] b[i]).price >= cfg.tick_size_cents
            &&& forall|i: int| 0 <= i < n_l ==> cfg.ttl_min_ms <= (#[trigger] b[i]).ttl
                <= cfg.ttl_max_ms
            &&& spec_sorted_by_id(b)
        }),
{
    let b = spec_limit_batch(cfg, p, mid, now, id0, draws, en, n_l);
    assert forall|i: int| 0 <= i < n_l implies {
        let o = #[trigger] b[i];
        &&& o.id == id0 + i
        &&& o.order_type is Limit
        &&& o.created_at == now
        &&& o.wf()
        &&& o.price % cfg.tick_size_cents == 0
        &&& o.price >= cfg.tick_size_cents
        &&& cfg.ttl_min_ms <= o.ttl <= cfg.ttl_max_ms
    } by {
        let offset = draws.limit_offsets_cents@[i];
        let side_roll = en.side_rolls_ppb@[i];
        let side = if side_roll < p.buy_prob_ppb {
            Side::Buy
        } else {
            Side::Sell
        };
        let raw: u64 = if side is Buy {
            if mid > offset {
                (mid - offset) as u64
            } else {
                0u64
            }
        } else {
            (mid + offset) as u64
        };
        lemma_snap_price_on_grid(raw as int, cfg.tick_size_cents);
    }
}

/// Every order of a market batch is a well-formed market order with the
/// expected id and the side's sentinel price; the batch is sorted by id.
pub proof fn lemma_market_batch_props(
    p: RegimeParams,
    now: u64,
    id0: u64,
    draws: TickDraws,
    en: TickEntropy,
    n_l: u64,
    n_m: u64,
)
    requires
        id0 + n_m <= u64::MAX,
        n_l + n_m <= draws.n_limits + draws.n_markets,
        n_m <= draws.n_markets,
        draws.wf(),
        en.side_rolls_ppb@.len() == draws.n_limits + draws.n_markets,
    ensures
        ({
            let b = spec_market_batch(p, now, id0, draws, en, n_l, n_m);
            &&& b.len() == n_m
            &&& forall|i: int| 0 <= i < n_m ==> (#[trigger] b[i]).id == id0 + i
            &&& forall|i: int| 0 <= i < n_m ==> (#[trigger] b[i]).order_type is Market
            &&& forall|i: int| 0 <= i < n_m ==> (#[trigger] b[i]).created_at == now
            &&& forall|i: int| 0 <= i < n_m ==> (#[trigger] b[i]).ttl == 0
            &&& forall|i: int| 0 <= i < n_m ==> (#[trigger] b[i]).wf()
            &&& spec_sorted_by_id(b)
        }),
{
}

/// What one tick of the engine computes.
pub ghost struct TickRes {
    /// The state the engine is left in.
    pub m: EngineModel,
    /// The generated orders, in generation (id) order.
    pub batch: Seq<Order>,
    /// The generated orders as they go on the wire, shuffled.
    pub wire_batch: Seq<Order>,
    /// TTL-expiry cancels followed by regime-driven cancels.
    pub cancels: Seq<Msg>,
    /// The summary block due this tick, if the display interval elapsed.
    pub summary: Option<SummaryData>,
    /// The effective generation and cancellation counts (zero where the
    /// matching rate is zero).
    pub n_limits: u64,
    pub n_markets: u64,
}

/// The generation half of a tick as a pure function of the engine state,
/// the caller-sampled draws and the integer entropy: advance the mid by the
/// tick's factor, generate and emit the order batch, expire TTLs, select
/// regime-driven cancellations, roll the summary accumulator, and advance
/// the regime clock and the simulated time.
pub open spec fn spec_run_tick(
    cfg: EngineConfig,
    scen: ScenarioConfig,
    m: EngineModel,
    draws: TickDraws,
    en: TickEntropy,
) -> TickRes {
    let p = spec_params(m.state.current);
    let lam_l = spec_lambda_micro(p.limit_rate, m.tunables.throughput_scale_milli, cfg.tick_ms);
    let lam_m = spec_lambda_micro(p.market_rate, m.tunables.throughput_scale_milli, cfg.tick_ms);
    let lam_c = spec_lambda_micro(p.cancel_rate, m.tunables.throughput_scale_milli, cfg.tick_ms);
    let n_l: u64 = if lam_l == 0 {
        0
    } else {
        draws.n_limits
    };
    let n_m: u64 = if lam_m == 0 {
        0
    } else {
        draws.n_markets
    };
    let n_c: u64 = if lam_c == 0 {
        0
    } else {
        draws.n_cancels
    };
    let mid1 = spec_scale_mid(m.mid_cents, draws.gbm_factor_ppb, cfg.tick_size_cents);
    let now = m.current_time_ms;
    let limits = spec_limit_batch(cfg, p, mid1, now, m.next_id, draws, en, n_l);
    let markets = spec_market_batch(p, now, (m.next_id + n_l) as u64, draws, en, n_l, n_m);
    let batch = limits + markets;
    let wire_batch = spec_shuffle(batch, en.shuffle_rolls@);
    let active1 = m.active + limits;
    let sp = spec_split_expired(active1, now);
    let exp_msgs = Seq::new(sp.1.len(), |k: int| Msg::Cancel { id: sp.1[k].id, time_ms: now });
    let sel = spec_cancel_sel(sp.0, en.cancel_rolls@.take(n_c as int), now);
    let stats1 = TickStats {
        limits_generated: spec_sat_add(m.stats.limits_generated, n_l),
        markets_generated: spec_sat_add(m.stats.markets_generated, n_m),
        cancels_expired: spec_sat_add(m.stats.cancels_expired, sp.1.len() as u64),
        cancels_regime: spec_sat_add(m.stats.cancels_regime, sel.1.len() as u64),
        messages_sent: spec_sat_add(
            spec_sat_add(
                spec_sat_add(m.stats.messages_sent, batch.len() as u64),
                sp.1.len() as u64,
            ),
            sel.1.len() as u64,
        ),
    };
    let tsd = (m.time_since_display_ms + cfg.tick_ms) as u64;
    let display = tsd >= m.tunables.display_interval_ms;
    let summary = if display {
        Some(
            SummaryData {
                t_ms: now,
                mid_cents: mid1,
                regime: m.state.current,
                active_orders: sel.0.len() as u64,
                stats: stats1,
                elapsed_ms: tsd,
            },
        )
    } else {
        None
    };
    let st1 = RegimeState {
        time_in_regime_ms: (m.state.time_in_regime_ms + cfg.tick_ms) as u64,
        ..m.state
    };
    let nxt = spec_try_transition(st1, scen.allow_transitions, en.trans_roll_ppb);
    let st2 = if nxt != st1.current {
        spec_transition_with_roll(st1, nxt, en.dur_roll)
    } else {
        st1
    };
    TickRes {
        m: EngineModel {
            tunables: m.tunables,
            forced_event_fired: m.forced_event_fired,
            mid_cents: mid1,
            next_id: (m.next_id + n_l + n_m) as u64,
            current_time_ms: (now + cfg.tick_ms) as u64,
            state: st2,
            last_printed_regime: m.state.current,
            active: sel.0,
            stats: if display {
                TickStats::spec_zero()
            } else {
                stats1
            },
            time_since_display_ms: if display {
                0
            } else {
                tsd
            },
        },
        batch,
        wire_batch,
        cancels: exp_msgs + sel.1,
        summary,
        n_limits: n_l,
        n_markets: n_m,
    }
}

/// What one tick hands back to the loop: the wire messages in send order,
/// the human-readable event lines, and the summary block when one is due.
#[derive(Debug)]
pub struct TickOutput {
    pub msgs: Vec<Msg>,
    pub events: Vec<String>,
    pub summary: Option<SummaryData>,
}

fn mag_i64(v: i64) -> (r: u64)
    ensures
        v >= 0 ==> r == v,
        v < 0 ==> r == -(v as int),
{
    if v >= 0 {
        v as u64
    } else {
        (-(v + 1)) as u64 + 1
    }
}

fn event_regime_change(from: Regime, to: Regime, p: &RegimeParams, time_ms: u64) -> (s: String) {
    let mut s = String::from_str("  \u{2194} REGIME  ");
    s.append(from.name());
    s.append(" -> ");
    s.append(to.name());
    s.append("  (\u{3c3}=");
    let num = crate::text::fmt_milli3(p.sigma_ppm / 1000);
    s.append(num.as_str());
    s.append(" \u{3bc}=");
    if p.mu_ppb < 0 {
        s.append("-");
    }
    let num = crate::text::fmt_ppb9(mag_i64(p.mu_ppb));
    s.append(num.as_str());
    s.append(" buy_prob=");
    let num = crate::text::fmt_milli3(p.buy_prob_ppb / 1_000_000);
    s.append(num.as_str());
    s.append(")  t=");
    let num = crate::text::fmt_ms1(time_ms);
    s.append(num.as_str());
    s.append("s");
    s
}

/// Permute a batch in place with the given swap rolls.
fn shuffle_in_place(v: &mut Vec<Order>, rolls: &Vec<u64>)
    requires
        rolls@.len() + 1 >= old(v)@.len(),
    ensures
        final(v)@ == spec_shuffle(old(v)@, rolls@),
{
    let n = v.len();
    if n == 0 {
        return ;
    }
    let ghost orig = v@;
    let mut k: usize = 0;
    while k + 1 < n
        invariant
            k < n,
            n == v@.len(),
            rolls@.len() + 1 >= n,
            spec_shuffle_from(orig, rolls@, 0) == spec_shuffle_from(v@, rolls@, k as int),
        decreases n - k,
    {
        let ghost before = v@;
        let i = n - 1 - k;
        let j = (rolls[k] % ((i + 1) as u64)) as usize;
        proof {
            assert((rolls@[k as int] as int) % (i + 1) < i + 1) by (nonlinear_arith)
                requires
                    i >= 0,
            ;
            assert((rolls@[k as int] as int) % (i + 1) >= 0) by (nonlinear_arith)
                requires
                    i >= 0,
            ;
        }
        let tmp_i = v[i];
        let tmp_j = v[j];
        v[i] = tmp_j;
        v[j] = tmp_i;
        proof {
            assert(v@ =~= spec_swap(before, i as int, j as int));
        }
        k += 1;
    }
}

fn orders_to_msgs(batch: &Vec<Order>) -> (msgs: Vec<Msg>)
    ensures
        msgs@ == batch@.map_values(|o: Order| Msg::Order(o)),
{
    let mut msgs: Vec<Msg> = Vec::new();
    let n = batch.len();
    let mut i: usize = 0;
    while i < n
        invariant
            i <= n,
            n == batch@.len(),
            msgs@ =~= batch@.take(i as int).map_values(|o: Order| Msg::Order(o)),
        decreases n - i,
    {
        msgs.push(Msg::Order(batch[i]));
        proof {
            assert(batch@.take(i + 1) =~= batch@.take(i as int).push(batch@[i as int]));
            assert(batch@.take(i + 1).map_values(|o: Order| Msg::Order(o)) =~= batch@.take(
                i as int,
            ).map_values(|o: Order| Msg::Order(o)).push(Msg::Order(batch@[i as int])));
        }
        i += 1;
    }
    proof {
        assert(batch@.take(n as int) =~= batch@);
    }
    msgs
}

fn expiry_msgs(expired: &Vec<Order>, now: u64) -> (msgs: Vec<Msg>)
    ensures
        msgs@ == Seq::new(expired@.len(), |k: int| Msg::Cancel { id: expired@[k].id, time_ms: now }),
{
    let mut msgs: Vec<Msg> = Vec::new();
    let n = expired.len();
    let mut i: usize = 0;
    while i < n
        invariant
            i <= n,
            n == expired@.len(),
            msgs@ =~= Seq::new(i as nat, |k: int| Msg::Cancel { id: expired@[k].id, time_ms: now }),
        decreases n - i,
    {
        msgs.push(Msg::Cancel { id: expired[i].id, time_ms: now });
        proof {
            assert(Seq::new(
                (i + 1) as nat,
                |k: int| Msg::Cancel { id: expired@[k].id, time_ms: now },
            ) =~= Seq::new(i as nat, |k: int| Msg::Cancel { id: expired@[k].id, time_ms: now }).push(
                Msg::Cancel { id: expired@[i as int].id, time_ms: now },
            ));
        }
        i += 1;
    }
    proof {
        assert(msgs@ =~= Seq::new(
            expired@.len(),
            |k: int| Msg::Cancel { id: expired@[k].id, time_ms: now },
        ));
    }
    msgs
}

impl Engine {
    /// Generate the tick's limit and market orders in id order, inserting
    /// the limit orders into the active set and advancing the id counter.
    fn gen_phase(&mut self, draws: &TickDraws, en: &TickEntropy, n_l: u64, n_m: u64) -> (batch:
        Vec<Order>)
        requires
            old(self).wf(),
            draws.wf(),
            en.wf(draws.n_limits, draws.n_markets, draws.n_cancels, old(self).cfg),
            n_l <= draws.n_limits,
            n_m <= draws.n_markets,
            old(self).next_id + n_l + n_m <= u64::MAX,
        ensures
            ({
                let cfg = old(self).cfg;
                let p = spec_params(old(self).state.current);
                let limits = spec_limit_batch(
                    cfg,
                    p,
                    old(self).mid_cents,
                    old(self).current_time_ms,
                    old(self).next_id,
                    *draws,
                    *en,
                    n_l,
                );
                let markets = spec_market_batch(
                    p,
                    old(self).current_time_ms,
                    (old(self).next_id + n_l) as u64,
                    *draws,
                    *en,
                    n_l,
                    n_m,
                );
                &&& batch@ == limits + markets
                &&& final(self).active@ == old(self).active@ + limits
            }),
            final(self).next_id == old(self).next_id + n_l + n_m,
            final(self).cfg == old(self).cfg,
            final(self).scenario_cfg == old(self).scenario_cfg,
            final(self).tunables == old(self).tunables,
            final(self).forced_event_fired == old(self).forced_event_fired,
            final(self).mid_cents == old(self).mid_cents,
            final(self).current_time_ms == old(self).current_time_ms,
            final(self).state == old(self).state,
            final(self).last_printed_regime == old(self).last_printed_regime,
            final(self).stats == old(self).stats,
            final(self).time_since_display_ms == old(self).time_since_display_ms,
    {
        let ghost m0 = self@;
        let cfg = self.cfg;
        let p = params(self.state.current);
        let mid1 = self.mid_cents;
        let now = self.current_time_ms;
        let id0 = self.next_id;
        let ghost limits_spec = spec_limit_batch(cfg, p, mid1, now, id0, *draws, *en, n_l);
        let ghost markets_spec = spec_market_batch(
            p,
            now,
            (id0 + n_l) as u64,
            *draws,
            *en,
            n_l,
            n_m,
        );
        let mut batch: Vec<Order> = Vec::new();
        let mut i: u64 = 0;
        while i < n_l
            invariant
                i <= n_l,
                n_l <= draws.n_limits,
                draws.wf(),
                en.wf(draws.n_limits, draws.n_markets, draws.n_cancels, cfg),
                cfg.wf(),
                id0 + n_l <= u64::MAX,
                mid1 <= MID_MAX,
                batch@ =~= limits_spec.take(i as int),
                self.active@ =~= m0.active + limits_spec.take(i as int),
                limits_spec == spec_limit_batch(cfg, p, mid1, now, id0, *draws, *en, n_l),
                self.next_id == id0,
                self.cfg == cfg,
                self.scenario_cfg == old(self).scenario_cfg,
                self.tunables == m0.tunables,
                self.stats == m0.stats,
                self.state == m0.state,
                self.mid_cents == mid1,
                self.forced_event_fired == m0.forced_event_fired,
                self.last_printed_regime == m0.last_printed_regime,
                self.current_time_ms == now,
                self.time_since_display_ms == m0.time_since_display_ms,
            decreases n_l - i,
        {
            let iu = i as usize;
            let side_roll = en.side_rolls_ppb[iu];
            let side = if side_roll < p.buy_prob_ppb {
                Side::Buy
            } else {
                Side::Sell
            };
            let offset = draws.limit_offsets_cents[iu];
            let raw: u64 = match side {
                Side::Buy => if mid1 > offset {
                    mid1 - offset
                } else {
                    0
                },
                Side::Sell => mid1 + offset,
            };
            let price = snap_price(raw, cfg.tick_size_cents);
            let size_raw = draws.limit_sizes[iu];
            let size = if size_raw == 0 {
                1
            } else {
                size_raw
            };
            let ttl = cfg.ttl_min_ms + en.ttl_rolls[iu];
            let o = Order {
                id: id0 + i,
                side,
                order_type: OrderType::Limit,
                price,
                size,
                created_at: now,
                ttl,
            };
            proof {
                assert(o == limits_spec[i as int]);
                assert(limits_spec.take(i + 1) =~= limits_spec.take(i as int).push(o));
            }
            batch.push(o);
            self.active.push(o);
            i += 1;
        }
        proof {
            assert(limits_spec.take(n_l as int) =~= limits_spec);
            assert(batch@ =~= limits_spec);
            assert(self.active@ =~= m0.active + limits_spec);
        }
        let mut i: u64 = 0;
        while i < n_m
            invariant
                i <= n_m,
                n_m <= draws.n_markets,
                n_l <= draws.n_limits,
                draws.wf(),
                en.wf(draws.n_limits, draws.n_markets, draws.n_cancels, cfg),
                id0 + n_l + n_m <= u64::MAX,
                batch@ =~= limits_spec + markets_spec.take(i as int),
                limits_spec.len() == n_l,
                self.active@ =~= m0.active + limits_spec,
                markets_spec == spec_market_batch(p, now, (id0 + n_l) as u64, *draws, *en, n_l, n_m),
                self.next_id == id0,
                self.cfg == cfg,
                self.scenario_cfg == old(self).scenario_cfg,
                self.tunables == m0.tunables,
                self.stats == m0.stats,
                self.state == m0.state,
                self.mid_cents == mid1,
                self.forced_event_fired == m0.forced_event_fired,
                self.last_printed_regime == m0.last_printed_regime,
                self.current_time_ms == now,
                self.time_since_display_ms == m0.time_since_display_ms,
            decreases n_m - i,
        {
            let iu = (n_l + i) as usize;
            let side_roll = en.side_rolls_ppb[iu];
            let side = if side_roll < p.buy_prob_ppb {
                Side::Buy
            } else {
                Side::Sell
            };
            let price = match side {
                Side::Buy => MARKET_BUY_PRICE,
                Side::Sell => MARKET_SELL_PRICE,
            };
            let size_raw = draws.market_sizes[i as usize];
            let size = if size_raw == 0 {
                1
            } else {
                size_raw
            };
            let o = Order {
                id: id0 + n_l + i,
                side,
                order_type: OrderType::Market,
                price,
                size,
                created_at: now,
                ttl: 0,
            };
            proof {
                assert(o == markets_spec[i as int]);
                assert(markets_spec.take(i + 1) =~= markets_spec.take(i as int).push(o));
                assert(limits_spec + markets_spec.take(i + 1) =~= (limits_spec
                    + markets_spec.take(i as int)).push(o));
            }
            batch.push(o);
            i += 1;
        }
        proof {
            assert(markets_spec.take(n_m as int) =~= markets_spec);
            assert(batch@ =~= limits_spec + markets_spec);
        }
        self.next_id = id0 + n_l + n_m;
        batch
    }

    /// Remove and return the active orders whose TTL has run out, in index
    /// order.
    fn expire_phase(&mut self) -> (expired: Vec<Order>)
        requires
            forall|k: int| 0 <= k < old(self).active@.len() ==> (#[trigger] old(
                self,
            ).active@[k]).created_at <= old(self).current_time_ms,
        ensures
            (final(self).active@, expired@) == spec_split_expired(
                old(self).active@,
                old(self).current_time_ms,
            ),
            final(self).next_id == old(self).next_id,
            final(self).cfg == old(self).cfg,
            final(self).scenario_cfg == old(self).scenario_cfg,
            final(self).tunables == old(self).tunables,
            final(self).forced_event_fired == old(self).forced_event_fired,
            final(self).mid_cents == old(self).mid_cents,
            final(self).current_time_ms == old(self).current_time_ms,
            final(self).state == old(self).state,
            final(self).last_printed_regime == old(self).last_printed_regime,
            final(self).stats == old(self).stats,
            final(self).time_since_display_ms == old(self).time_since_display_ms,
    {
        let ghost m0 = self@;
        let ghost active1 = self.active@;
        let now = self.current_time_ms;
        let mut kept: Vec<Order> = Vec::new();
        let mut expired: Vec<Order> = Vec::new();
        proof {
            assert(active1.take(0) =~= Seq::<Order>::empty());
        }
        let alen = self.active.len();
        let mut i: usize = 0;
        while i < alen
            invariant
                i <= alen,
                alen == self.active@.len(),
                self.active@ == active1,
                now == m0.current_time_ms,
                forall|k: int| 0 <= k < active1.len() ==> (#[trigger] active1[k]).created_at <= now,
                (kept@, expired@) == spec_split_expired(active1.take(i as int), now),
            decreases alen - i,
        {
            let o = self.active[i];
            proof {
                assert(active1.take(i + 1).drop_last() =~= active1.take(i as int));
                assert(active1.take(i + 1).last() == o);
            }
            if o.ttl > 0 && now - o.created_at >= o.ttl {
                expired.push(o);
            } else {
                kept.push(o);
            }
            i += 1;
        }
        proof {
            assert(active1.take(alen as int) =~= active1);
        }
        self.active = kept;
        expired
    }

    /// Cancel up to `n_c` randomly selected active orders, without
    /// replacement, returning their cancel messages in selection order.
    fn cancel_phase(&mut self, rolls: &Vec<u64>, n_c: u64) -> (cmsgs: Vec<Msg>)
        requires
            n_c <= rolls@.len(),
        ensures
            final(self).active@ == spec_cancel_sel(
                old(self).active@,
                rolls@.take(n_c as int),
                old(self).current_time_ms,
            ).0,
            cmsgs@ == spec_cancel_sel(
                old(self).active@,
                rolls@.take(n_c as int),
                old(self).current_time_ms,
            ).1,
            final(self).next_id == old(self).next_id,
            final(self).cfg == old(self).cfg,
            final(self).scenario_cfg == old(self).scenario_cfg,
            final(self).tunables == old(self).tunables,
            final(self).forced_event_fired == old(self).forced_event_fired,
            final(self).mid_cents == old(self).mid_cents,
            final(self).current_time_ms == old(self).current_time_ms,
            final(self).state == old(self).state,
            final(self).last_printed_regime == old(self).last_printed_regime,
            final(self).stats == old(self).stats,
            final(self).time_since_display_ms == old(self).time_since_display_ms,
    {
        let ghost m0 = self@;
        let now = self.current_time_ms;
        let ghost act2 = self.active@;
        let ghost crolls = rolls@.take(n_c as int);
        let ghost selres = spec_cancel_sel(act2, crolls, now);
        let mut cmsgs: Vec<Msg> = Vec::new();
        let mut k: usize = 0;
        let rlen = rolls.len();
        proof {
            assert(n_c <= rlen);
        }
        let n_c_us = n_c as usize;
        proof {
            assert(crolls.skip(0) =~= crolls);
        }
        while k < n_c_us && self.active.len() > 0
            invariant
                k <= n_c_us,
                n_c_us == n_c,
                n_c <= rolls@.len(),
                now == m0.current_time_ms,
                crolls == rolls@.take(n_c as int),
                selres == spec_cancel_sel(act2, crolls, now),
                selres.0 == spec_cancel_sel(self.active@, crolls.skip(k as int), now).0,
                selres.1 =~= cmsgs@ + spec_cancel_sel(self.active@, crolls.skip(k as int), now).1,
                self.next_id == m0.next_id,
                self.cfg == old(self).cfg,
                self.scenario_cfg == old(self).scenario_cfg,
                self.tunables == m0.tunables,
                self.stats == m0.stats,
                self.state == m0.state,
                self.mid_cents == m0.mid_cents,
                self.forced_event_fired == m0.forced_event_fired,
                self.last_printed_regime == m0.last_printed_regime,
                self.current_time_ms == now,
                self.time_since_display_ms == m0.time_since_display_ms,
            decreases n_c_us - k,
        {
            let ghost cur = self.active@;
            let ghost rem_rolls = crolls.skip(k as int);
            let len64 = self.active.len() as u64;
            let roll = rolls[k];
            let idx64 = roll % len64;
            let idx = idx64 as usize;
            proof {
                assert(rem_rolls.len() > 0);
                assert(rem_rolls[0] == crolls[k as int]);
                assert(crolls[k as int] == rolls@[k as int]);
                assert(idx64 < len64);
                assert((roll as int) % (cur.len() as int) == idx64);
            }
            let victim = self.active.remove(idx);
            cmsgs.push(Msg::Cancel { id: victim.id, time_ms: now });
            proof {
                assert(rem_rolls.drop_first() =~= crolls.skip(k + 1));
                let step = spec_cancel_sel(cur, rem_rolls, now);
                assert(step.0 == spec_cancel_sel(
                    cur.remove(idx64 as int),
                    rem_rolls.drop_first(),
                    now,
                ).0);
                assert(step.1 == seq![Msg::Cancel { id: victim.id, time_ms: now }]
                    + spec_cancel_sel(cur.remove(idx64 as int), rem_rolls.drop_first(), now).1);
                assert(self.active@ == cur.remove(idx64 as int));
                assert(cmsgs@ + spec_cancel_sel(self.active@, crolls.skip(k + 1), now).1
                    =~= cmsgs@.drop_last() + step.1);
            }
            k += 1;
        }
        proof {
            if k == n_c_us {
                assert(crolls.skip(k as int).len() == 0);
            }
            assert(spec_cancel_sel(self.active@, crolls.skip(k as int), now).1 =~= Seq::<
                Msg,
            >::empty());
            assert(spec_cancel_sel(self.active@, crolls.skip(k as int), now).0 == self.active@);
            assert(selres.0 == self.active@);
            assert(selres.1 =~= cmsgs@);
        }
        cmsgs
    }

    /// Fold this tick's counts into the statistics and, when the display
    /// interval has elapsed, hand back the summary block and reset.
    fn rollup_phase(&mut self, n_l: u64, n_m: u64, n_batch: u64, n_expired: u64, n_regime: u64) -> (summary: Option<SummaryData>)
        requires
            old(self).time_since_display_ms + old(self).cfg.tick_ms <= u64::MAX,
        ensures
            ({
                let m = old(self)@;
                let cfg = old(self).cfg;
                let stats1 = TickStats {
                    limits_generated: spec_sat_add(m.stats.limits_generated, n_l),
                    markets_generated: spec_sat_add(m.stats.markets_generated, n_m),
                    cancels_expired: spec_sat_add(m.stats.cancels_expired, n_expired),
                    cancels_regime: spec_sat_add(m.stats.cancels_regime, n_regime),
                    messages_sent: spec_sat_add(
                        spec_sat_add(spec_sat_add(m.stats.messages_sent, n_batch), n_expired),
                        n_regime,
                    ),
                };
                let tsd = (m.time_since_display_ms + cfg.tick_ms) as u64;
                let display = tsd >= m.tunables.display_interval_ms;
                &&& final(self).stats == if display {
                    TickStats::spec_zero()
                } else {
                    stats1
                }
                &&& final(self).time_since_display_ms == if display {
                    0u64
                } else {
                    tsd
                }
                &&& summary == if display {
                    Some(
                        SummaryData {
                            t_ms: m.current_time_ms,
                            mid_cents: m.mid_cents,
                            regime: m.state.current,
                            active_orders: m.active.len() as u64,
                            stats: stats1,
                            elapsed_ms: tsd,
                        },
                    )
                } else {
                    None::<SummaryData>
                }
            }),
            final(self).active@ == old(self).active@,
            final(self).next_id == old(self).next_id,
            final(self).cfg == old(self).cfg,
            final(self).scenario_cfg == old(self).scenario_cfg,
            final(self).tunables == old(self).tunables,
            final(self).forced_event_fired == old(self).forced_event_fired,
            final(self).mid_cents == old(self).mid_cents,
            final(self).current_time_ms == old(self).current_time_ms,
            final(self).state == old(self).state,
            final(self).last_printed_regime == old(self).last_printed_regime,
    {
        self.stats.limits_generated = sat_add(self.stats.limits_generated, n_l);
        self.stats.markets_generated = sat_add(self.stats.markets_generated, n_m);
        self.stats.cancels_expired = sat_add(self.stats.cancels_expired, n_expired);
        self.stats.cancels_regime = sat_add(self.stats.cancels_regime, n_regime);
        self.stats.messages_sent = sat_add(
            sat_add(sat_add(self.stats.messages_sent, n_batch), n_expired),
            n_regime,
        );
        self.time_since_display_ms = self.time_since_display_ms + self.cfg.tick_ms;
        if self.time_since_display_ms >= self.tunables.display_interval_ms {
            let data = SummaryData {
                t_ms: self.current_time_ms,
                mid_cents: self.mid_cents,
                regime: self.state.current,
                active_orders: self.active.len() as u64,
                stats: self.stats,
                elapsed_ms: self.time_since_display_ms,
            };
            self.stats.reset();
            self.time_since_display_ms = 0;
            Some(data)
        } else {
            None
        }
    }

    /// Advance the regime clock by one tick, roll the Markov transition, and
    /// advance the simulated time.
    fn transition_phase(&mut self, trans_roll_ppb: u64, dur_roll: u64)
        requires
            old(self).state.time_in_regime_ms + old(self).cfg.tick_ms <= u64::MAX,
            old(self).current_time_ms + old(self).cfg.tick_ms <= u64::MAX,
        ensures
            ({
                let m = old(self)@;
                let cfg = old(self).cfg;
                let st1 = RegimeState {
                    time_in_regime_ms: (m.state.time_in_regime_ms + cfg.tick_ms) as u64,
                    ..m.state
                };
                let nxt = spec_try_transition(
                    st1,
                    old(self).scenario_cfg.allow_transitions,
                    trans_roll_ppb,
                );
                &&& final(self).state == if nxt != st1.current {
                    spec_transition_with_roll(st1, nxt, dur_roll)
                } else {
                    st1
                }
                &&& final(self).current_time_ms == m.current_time_ms + cfg.tick_ms
            }),
            final(self).active@ == old(self).active@,
            final(self).next_id == old(self).next_id,
            final(self).cfg == old(self).cfg,
            final(self).scenario_cfg == old(self).scenario_cfg,
            final(self).tunables == old(self).tunables,
            final(self).forced_event_fired == old(self).forced_event_fired,
            final(self).mid_cents == old(self).mid_cents,
            final(self).last_printed_regime == old(self).last_printed_regime,
            final(self).stats == old(self).stats,
            final(self).time_since_display_ms == old(self).time_since_display_ms,
    {
        self.state.time_in_regime_ms = self.state.time_in_regime_ms + self.cfg.tick_ms;
        let nxt = crate::regime::try_transition_with_roll(
            &self.state,
            self.scenario_cfg.allow_transitions,
            trans_roll_ppb,
        );
        if nxt != self.state.current {
            self.state.transition_with_roll(nxt, dur_roll);
        }
        self.current_time_ms = self.current_time_ms + self.cfg.tick_ms;
    }

    /// The generation half of a tick. Runs after `prepare_tick` said to
    /// proceed: advances the mid by the sampled factor, announces a regime
    /// change, generates the tick's batch (zero orders for a zero rate),
    /// shuffles it onto the wire, inserts the limit orders into the active
    /// set, expires TTLs, cancels regime-driven picks, rolls the summary,
    /// advances the regime clock and the simulated time.
    #[verifier::rlimit(100)]
    pub fn run_tick(&mut self, draws: &TickDraws, en: &TickEntropy) -> (out: TickOutput)
        requires
            old(self).wf(),
            draws.wf(),
            en.wf(draws.n_limits, draws.n_markets, draws.n_cancels, old(self).cfg),
            old(self).next_id + draws.n_limits + draws.n_markets <= u64::MAX,
            old(self).current_time_ms + old(self).cfg.tick_ms <= u64::MAX,
        ensures
            final(self).wf(),
            final(self).cfg == old(self).cfg,
            final(self).scenario_cfg == old(self).scenario_cfg,
            ({
                let r = spec_run_tick(old(self).cfg, old(self).scenario_cfg, old(self)@, *draws, *en);
                &&& final(self)@ == r.m
                &&& out.msgs@ == r.wire_batch.map_values(|o: Order| Msg::Order(o)) + r.cancels
                &&& out.summary == r.summary
            }),
    {
        let ghost m0 = self@;
        let ghost r = spec_run_tick(self.cfg, self.scenario_cfg, self@, *draws, *en);
        let mut events: Vec<String> = Vec::new();
        let cfg = self.cfg;
        let p = params(self.state.current);
        proof {
            lemma_rate_bounds(self.state.current);
        }
        let lam_l = lambda_micro(p.limit_rate, self.tunables.throughput_scale_milli, cfg.tick_ms);
        let lam_m = lambda_micro(p.market_rate, self.tunables.throughput_scale_milli, cfg.tick_ms);
        let lam_c = lambda_micro(p.cancel_rate, self.tunables.throughput_scale_milli, cfg.tick_ms);
        let n_l: u64 = if lam_l == 0 {
            0
        } else {
            draws.n_limits
        };
        let n_m: u64 = if lam_m == 0 {
            0
        } else {
            draws.n_markets
        };
        let n_c: u64 = if lam_c == 0 {
            0
        } else {
            draws.n_cancels
        };
        // Mid-price advance by the tick's sampled factor.
        self.mid_cents = scale_mid(self.mid_cents, draws.gbm_factor_ppb, cfg.tick_size_cents);
        let mid1 = self.mid_cents;
        // Regime-change announcement.
        if self.state.current != self.last_printed_regime {
            events.push(
                event_regime_change(
                    self.last_printed_regime,
                    self.state.current,
                    &p,
                    self.current_time_ms,
                ),
            );
        }
        self.last_printed_regime = self.state.current;
        let now = self.current_time_ms;
        let id0 = self.next_id;
        let ghost limits_spec = spec_limit_batch(cfg, p, mid1, now, id0, *draws, *en, n_l);
        let ghost markets_spec = spec_market_batch(
            p,
            now,
            (id0 + n_l) as u64,
            *draws,
            *en,
            n_l,
            n_m,
        );
        proof {
            lemma_limit_batch_props(cfg, p, mid1, now, id0, *draws, *en, n_l);
            lemma_market_batch_props(p, now, (id0 + n_l) as u64, *draws, *en, n_l, n_m);
        }
        let mut batch = self.gen_phase(draws, en, n_l, n_m);
        proof {
            assert(batch@ == r.batch);
            assert(self.active@ == m0.active + limits_spec);
        }
        // Shuffle the batch onto the wire.
        shuffle_in_place(&mut batch, &en.shuffle_rolls);
        proof {
            lemma_shuffle_from_multiset(r.batch, en.shuffle_rolls@, 0);
            assert(batch@ == r.wire_batch);
        }
        let mut msgs = orders_to_msgs(&batch);
        let blen = batch.len();
        // TTL expiry.
        let ghost active1 = self.active@;
        proof {
            assert forall|k: int| 0 <= k < active1.len() implies (#[trigger] active1[k]).created_at
                <= now by {
                if k < m0.active.len() {
                    assert(active1[k] == m0.active[k]);
                    assert(spec_active_order_ok(
                        m0.active[k],
                        m0.next_id,
                        m0.current_time_ms,
                        cfg.tick_size_cents,
                    ));
                } else {
                    assert(active1[k] == limits_spec[k - m0.active.len()]);
                }
            }
        }
        let expired = self.expire_phase();
        let ghost sp = spec_split_expired(active1, now);
        let n_expired = expired.len();
        let mut emsgs = expiry_msgs(&expired, now);
        msgs.append(&mut emsgs);
        // Regime-driven cancellations.
        let ghost act2 = self.active@;
        let ghost crolls = en.cancel_rolls@.take(n_c as int);
        let ghost selres = spec_cancel_sel(act2, crolls, now);
        let mut cmsgs = self.cancel_phase(&en.cancel_rolls, n_c);
        let n_regime_cancels = cmsgs.len();
        msgs.append(&mut cmsgs);
        proof {
            assert(act2 == sp.0);
            assert(msgs@ =~= r.wire_batch.map_values(|o: Order| Msg::Order(o)) + r.cancels);
        }
        // Statistics rollup and display decision.
        let summary = self.rollup_phase(n_l, n_m, blen as u64, n_expired as u64, n_regime_cancels as u64);
        // Regime transition and time advance.
        self.transition_phase(en.trans_roll_ppb, en.dur_roll);
        proof {
            assert(self.active@ == r.m.active);
            assert(self.stats == r.m.stats);
            assert(self.state == r.m.state);
            assert(self.time_since_display_ms == r.m.time_since_display_ms);
            assert(self.current_time_ms == r.m.current_time_ms);
            assert(self@ =~= r.m);
            assert(summary == r.summary);
            lemma_run_tick_wf(cfg, self.scenario_cfg, m0, *draws, *en);
            assert(self.wf());
        }
        TickOutput { msgs, events, summary }
    }
}


/// One tick keeps the engine invariant.
pub proof fn lemma_run_tick_wf(
    cfg: EngineConfig,
    scen: ScenarioConfig,
    m: EngineModel,
    draws: TickDraws,
    en: TickEntropy,
)
    requires
        cfg.wf(),
        m.wf(cfg),
        draws.wf(),
        en.wf(draws.n_limits, draws.n_markets, draws.n_cancels, cfg),
        m.next_id + draws.n_limits + draws.n_markets <= u64::MAX,
        m.current_time_ms + cfg.tick_ms <= u64::MAX,
    ensures
        spec_run_tick(cfg, scen, m, draws, en).m.wf(cfg),
{
    let r = spec_run_tick(cfg, scen, m, draws, en);
    let p = spec_params(m.state.current);
    let lam_l = spec_lambda_micro(p.limit_rate, m.tunables.throughput_scale_milli, cfg.tick_ms);
    let lam_m = spec_lambda_micro(p.market_rate, m.tunables.throughput_scale_milli, cfg.tick_ms);
    let lam_c = spec_lambda_micro(p.cancel_rate, m.tunables.throughput_scale_milli, cfg.tick_ms);
    let n_l: u64 = if lam_l == 0 { 0 } else { draws.n_limits };
    let n_m: u64 = if lam_m == 0 { 0 } else { draws.n_markets };
    let n_c: u64 = if lam_c == 0 { 0 } else { draws.n_cancels };
    let mid1 = spec_scale_mid(m.mid_cents, draws.gbm_factor_ppb, cfg.tick_size_cents);
    let now = m.current_time_ms;
    let limits = spec_limit_batch(cfg, p, mid1, now, m.next_id, draws, en, n_l);
    let active1 = m.active + limits;
    let sp = spec_split_expired(active1, now);
    let crolls = en.cancel_rolls@.take(n_c as int);
    let sel = spec_cancel_sel(sp.0, crolls, now);
    lemma_limit_batch_props(cfg, p, mid1, now, m.next_id, draws, en, n_l);
    lemma_split_expired_props(active1, now);
    lemma_cancel_sel_props(sp.0, crolls, now);
    assert(spec_sorted_by_id(active1)) by {
        assert(forall|a: int, b: int| 0 <= a < b < m.active.len() ==> active1[a].id
            < active1[b].id);
    }
    assert forall|q: int| 0 <= q < active1.len() implies spec_active_order_ok(
        #[trigger] active1[q],
        r.m.next_id,
        r.m.current_time_ms,
        cfg.tick_size_cents,
    ) by {
        if q < m.active.len() {
            assert(active1[q] == m.active[q]);
            assert(spec_active_order_ok(
                m.active[q],
                m.next_id,
                m.current_time_ms,
                cfg.tick_size_cents,
            ));
        } else {
            assert(active1[q] == limits[q - m.active.len()]);
        }
    }
    assert forall|q: int| 0 <= q < sp.0.len() implies spec_active_order_ok(
        #[trigger] sp.0[q],
        r.m.next_id,
        r.m.current_time_ms,
        cfg.tick_size_cents,
    ) by {
        assert(active1.contains(sp.0[q]));
        let w = choose|w: int| 0 <= w < active1.len() && active1[w] == sp.0[q];
        assert(spec_active_order_ok(
            active1[w],
            r.m.next_id,
            r.m.current_time_ms,
            cfg.tick_size_cents,
        ));
    }
    assert forall|q: int| 0 <= q < sel.0.len() implies spec_active_order_ok(
        #[trigger] sel.0[q],
        r.m.next_id,
        r.m.current_time_ms,
        cfg.tick_size_cents,
    ) by {
        assert(sp.0.contains(sel.0[q]));
        let w = choose|w: int| 0 <= w < sp.0.len() && sp.0[w] == sel.0[q];
        assert(spec_active_order_ok(
            sp.0[w],
            r.m.next_id,
            r.m.current_time_ms,
            cfg.tick_size_cents,
        ));
    }
    assert(r.m.active == sel.0);
    assert(r.m.state.wf());
    assert(r.m.wf(cfg));
}

/// Extra rolls beyond the command burst do not change the fold.
pub proof fn lemma_apply_commands_take_rolls(m: EngineModel, cmds: Seq<EngineCommand>, rolls: Seq<u64>)
    requires
        cmds.len() <= rolls.len(),
    ensures
        spec_apply_commands(m, cmds, rolls.take(cmds.len() as int)) == spec_apply_commands(
            m,
            cmds,
            rolls,
        ),
    decreases cmds.len(),
{
    if cmds.len() == 0 {
    } else {
        let t = rolls.take(cmds.len() as int);
        assert(t[0] == rolls[0]);
        assert(t.drop_first() =~= rolls.drop_first().take(cmds.len() - 1));
        lemma_apply_commands_take_rolls(
            spec_apply_command(m, cmds[0], rolls[0]),
            cmds.drop_first(),
            rolls.drop_first(),
        );
    }
}

} // verus!
