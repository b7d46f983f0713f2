//! The engine's global guarantees, stated and proved over the pure tick
//! function `spec_run_tick` and the control fold `spec_apply_commands`.

use vstd::prelude::*;
use crate::control::EngineCommand;
use crate::engine::{
    EngineConfig, EngineModel, Msg, PrepEntropy, TickDraws, TickEntropy, TickRes, spec_run_tick,
    spec_apply_commands, spec_forced_event, spec_shock, spec_limit_batch, spec_market_batch,
    spec_split_expired, spec_cancel_sel, spec_scale_mid, spec_lambda_micro, spec_sorted_by_id,
    lemma_apply_commands_wf, lemma_limit_batch_props, lemma_market_batch_props,
    lemma_split_expired_props, lemma_cancel_sel_props, lemma_shuffle_from_multiset, MID_MAX,
};
use crate::order::{Order, OrderType, Side, MARKET_BUY_PRICE, MARKET_SELL_PRICE};
use crate::regime::{Regime, spec_params, spec_try_transition, PPB};
use crate::scenario::{Scenario, ScenarioConfig, spec_from_scenario};

verus! {

/// The id a message names.
pub open spec fn spec_msg_id(msg: Msg) -> u64 {
    match msg {
        Msg::Order(o) => o.id,
        Msg::Cancel { id, time_ms } => id,
    }
}

/// The preconditions one tick of the engine needs.
pub open spec fn spec_tick_pre(cfg: EngineConfig, m: EngineModel, draws: TickDraws, en: TickEntropy) -> bool {
    &&& cfg.wf()
    &&& m.wf(cfg)
    &&& draws.wf()
    &&& en.wf(draws.n_limits, draws.n_markets, draws.n_cancels, cfg)
    &&& m.next_id + draws.n_limits + draws.n_markets <= u64::MAX
    &&& m.current_time_ms + cfg.tick_ms <= u64::MAX
}

/// Price discipline: every limit order a tick generates carries a price that
/// is a positive multiple of the tick size; every market order carries the
/// side's sentinel price, a zero TTL, and a positive size.
pub proof fn lemma_price_snapping(
    cfg: EngineConfig,
    scen: ScenarioConfig,
    m: EngineModel,
    draws: TickDraws,
    en: TickEntropy,
)
    requires
        spec_tick_pre(cfg, m, draws, en),
    ensures
        ({
            let r = spec_run_tick(cfg, scen, m, draws, en);
            forall|i: int| 0 <= i < r.batch.len() ==> {
                let o = #[trigger] r.batch[i];
                &&& (o.order_type is Limit ==> o.price % cfg.tick_size_cents == 0 && o.price
                    >= cfg.tick_size_cents)
                &&& (o.order_type is Market && o.side is Buy ==> o.price == MARKET_BUY_PRICE)
                &&& (o.order_type is Market && o.side is Sell ==> o.price == MARKET_SELL_PRICE)
                &&& (o.order_type is Market ==> o.ttl == 0)
                &&& o.size >= 1
            }
        }),
{
    let r = spec_run_tick(cfg, scen, m, draws, en);
    let p = spec_params(m.state.current);
    let mid1 = spec_scale_mid(m.mid_cents, draws.gbm_factor_ppb, cfg.tick_size_cents);
    let now = m.current_time_ms;
    lemma_limit_batch_props(cfg, p, mid1, now, m.next_id, draws, en, r.n_limits);
    lemma_market_batch_props(
        p,
        now,
        (m.next_id + r.n_limits) as u64,
        draws,
        en,
        r.n_limits,
        r.n_markets,
    );
    let limits = spec_limit_batch(cfg, p, mid1, now, m.next_id, draws, en, r.n_limits);
    assert forall|i: int| 0 <= i < r.batch.len() implies {
        let o = #[trigger] r.batch[i];
        &&& (o.order_type is Limit ==> o.price % cfg.tick_size_cents == 0 && o.price
            >= cfg.tick_size_cents)
        &&& (o.order_type is Market && o.side is Buy ==> o.price == MARKET_BUY_PRICE)
        &&& (o.order_type is Market && o.side is Sell ==> o.price == MARKET_SELL_PRICE)
        &&& (o.order_type is Market ==> o.ttl == 0)
        &&& o.size >= 1
    } by {
        if i < limits.len() {
            assert(r.batch[i] == limits[i]);
        } else {
            assert(r.batch[i] == spec_market_batch(
                p,
                now,
                (m.next_id + r.n_limits) as u64,
                draws,
                en,
                r.n_limits,
                r.n_markets,
            )[i - limits.len()]);
        }
    }
}

/// The mid price never falls below one tick, and never exceeds the engine's
/// ceiling: true of the tick's price advance and of every shock.
pub proof fn lemma_mid_floor(mid: u64, factor_ppb: u64, tick: u64)
    requires
        1 <= tick <= MID_MAX,
    ensures
        tick <= spec_scale_mid(mid, factor_ppb, tick) <= MID_MAX,
{
    assert(mid * factor_ppb >= 0) by (nonlinear_arith)
        requires
            mid >= 0,
            factor_ppb >= 0,
    ;
    assert(mid * factor_ppb / (PPB as int) >= 0) by (nonlinear_arith)
        requires
            mid * factor_ppb >= 0,
    ;
}

/// After a tick, the mid the engine holds stays within its floor and
/// ceiling.
pub proof fn lemma_mid_floor_tick(
    cfg: EngineConfig,
    scen: ScenarioConfig,
    m: EngineModel,
    draws: TickDraws,
    en: TickEntropy,
)
    requires
        spec_tick_pre(cfg, m, draws, en),
    ensures
        cfg.tick_size_cents <= spec_run_tick(cfg, scen, m, draws, en).m.mid_cents <= MID_MAX,
{
}

/// Conservation of active orders: after a tick, the size of the active set
/// plus the number of cancel messages emitted equals its size before the
/// tick plus the number of limit orders generated. (Market orders never
/// enter the active set; each removal emits exactly one cancel.)
pub proof fn lemma_active_count(
    cfg: EngineConfig,
    scen: ScenarioConfig,
    m: EngineModel,
    draws: TickDraws,
    en: TickEntropy,
)
    requires
        spec_tick_pre(cfg, m, draws, en),
    ensures
        ({
            let r = spec_run_tick(cfg, scen, m, draws, en);
            r.m.active.len() + r.cancels.len() == m.active.len() + r.n_limits
        }),
{
    let r = spec_run_tick(cfg, scen, m, draws, en);
    let p = spec_params(m.state.current);
    let mid1 = spec_scale_mid(m.mid_cents, draws.gbm_factor_ppb, cfg.tick_size_cents);
    let now = m.current_time_ms;
    let limits = spec_limit_batch(cfg, p, mid1, now, m.next_id, draws, en, r.n_limits);
    let active1 = m.active + limits;
    let sp = spec_split_expired(active1, now);
    let n_c: u64 = if spec_lambda_micro(
        p.cancel_rate,
        m.tunables.throughput_scale_milli,
        cfg.tick_ms,
    ) == 0 {
        0
    } else {
        draws.n_cancels
    };
    let crolls = en.cancel_rolls@.take(n_c as int);
    lemma_split_expired_props(active1, now);
    lemma_cancel_sel_props(sp.0, crolls, now);
}

/// A zero Poisson rate generates nothing: when the limit, market or cancel
/// rate of the tick is zero, the corresponding effective count is zero,
/// whatever the caller sampled.
pub proof fn lemma_zero_rate(
    cfg: EngineConfig,
    scen: ScenarioConfig,
    m: EngineModel,
    draws: TickDraws,
    en: TickEntropy,
)
    requires
        spec_tick_pre(cfg, m, draws, en),
    ensures
        ({
            let r = spec_run_tick(cfg, scen, m, draws, en);
            let p = spec_params(m.state.current);
            let scale = m.tunables.throughput_scale_milli;
            &&& spec_lambda_micro(p.limit_rate, scale, cfg.tick_ms) == 0 ==> r.n_limits == 0
            &&& spec_lambda_micro(p.market_rate, scale, cfg.tick_ms) == 0 ==> r.n_markets == 0
            &&& r.batch.len() == r.n_limits + r.n_markets
        }),
{
    let r = spec_run_tick(cfg, scen, m, draws, en);
    let p = spec_params(m.state.current);
    let mid1 = spec_scale_mid(m.mid_cents, draws.gbm_factor_ppb, cfg.tick_size_cents);
    lemma_limit_batch_props(cfg, p, mid1, m.current_time_ms, m.next_id, draws, en, r.n_limits);
}

/// Throughput scale zero suppresses all generation and all regime-driven
/// cancellation, but the loop does not halt: TTL expiry still runs, the
/// regime clock still advances, and simulated time moves one tick.
pub proof fn lemma_zero_scale(
    cfg: EngineConfig,
    scen: ScenarioConfig,
    m: EngineModel,
    draws: TickDraws,
    en: TickEntropy,
)
    requires
        spec_tick_pre(cfg, m, draws, en),
        m.tunables.throughput_scale_milli == 0,
    ensures
        ({
            let r = spec_run_tick(cfg, scen, m, draws, en);
            let sp = spec_split_expired(m.active, m.current_time_ms);
            &&& r.batch.len() == 0
            &&& r.m.active == sp.0
            &&& r.cancels.len() == sp.1.len()
            &&& r.m.current_time_ms == m.current_time_ms + cfg.tick_ms
            &&& r.m.state.time_in_regime_ms == 0 || r.m.state.time_in_regime_ms
                == m.state.time_in_regime_ms + cfg.tick_ms
        }),
{
    let r = spec_run_tick(cfg, scen, m, draws, en);
    let p = spec_params(m.state.current);
    let mid1 = spec_scale_mid(m.mid_cents, draws.gbm_factor_ppb, cfg.tick_size_cents);
    let now = m.current_time_ms;
    let limits = spec_limit_batch(cfg, p, mid1, now, m.next_id, draws, en, 0);
    assert(limits.len() == 0);
    assert(m.active + limits =~= m.active);
    let sp = spec_split_expired(m.active, now);
    assert(spec_cancel_sel(sp.0, en.cancel_rolls@.take(0), now).0 == sp.0);
    assert(spec_cancel_sel(sp.0, en.cancel_rolls@.take(0), now).1 =~= Seq::<Msg>::empty());
    assert(r.cancels =~= Seq::new(sp.1.len(), |k: int| Msg::Cancel { id: sp.1[k].id, time_ms: now })
        + Seq::<Msg>::empty());
}

/// Pause freezes the simulation: when the command burst leaves the engine
/// paused, the loop skips the tick entirely, so only the tunables and the
/// regime state can change — the clock, the mid, the order flow, the active
/// set and the statistics stay exactly as they were.
pub proof fn lemma_pause_freezes(
    cfg: EngineConfig,
    m: EngineModel,
    cmds: Seq<EngineCommand>,
    rolls: Seq<u64>,
)
    requires
        m.wf(cfg),
    ensures
        ({
            let mc = spec_apply_commands(m, cmds, rolls);
            &&& mc.current_time_ms == m.current_time_ms
            &&& mc.mid_cents == m.mid_cents
            &&& mc.active == m.active
            &&& mc.next_id == m.next_id
            &&& mc.stats == m.stats
            &&& mc.time_since_display_ms == m.time_since_display_ms
        }),
{
    lemma_apply_commands_wf(m, cfg, cmds, rolls);
}

/// Determinism: the whole tick is a mathematical function of the engine
/// state, the command burst and the sampled draws. Two runs from equal
/// states, fed equal commands and equal draws, produce equal states and
/// equal message streams; randomness enters only through the draw and
/// entropy inputs.
pub proof fn lemma_tick_deterministic(
    cfg: EngineConfig,
    scen: ScenarioConfig,
    m1: EngineModel,
    m2: EngineModel,
    draws1: TickDraws,
    draws2: TickDraws,
    en1: TickEntropy,
    en2: TickEntropy,
)
    requires
        m1 == m2,
        draws1.gbm_factor_ppb == draws2.gbm_factor_ppb,
        draws1.n_limits == draws2.n_limits,
        draws1.n_markets == draws2.n_markets,
        draws1.n_cancels == draws2.n_cancels,
        draws1.limit_offsets_cents@ == draws2.limit_offsets_cents@,
        draws1.limit_sizes@ == draws2.limit_sizes@,
        draws1.market_sizes@ == draws2.market_sizes@,
        en1.side_rolls_ppb@ == en2.side_rolls_ppb@,
        en1.ttl_rolls@ == en2.ttl_rolls@,
        en1.cancel_rolls@ == en2.cancel_rolls@,
        en1.shuffle_rolls@ == en2.shuffle_rolls@,
        en1.trans_roll_ppb == en2.trans_roll_ppb,
        en1.dur_roll == en2.dur_roll,
    ensures
        ({
            let r1 = spec_run_tick(cfg, scen, m1, draws1, en1);
            let r2 = spec_run_tick(cfg, scen, m2, draws2, en2);
            &&& r1.m == r2.m
            &&& r1.batch == r2.batch
            &&& r1.wire_batch == r2.wire_batch
            &&& r1.cancels == r2.cancels
            &&& r1.summary == r2.summary
        }),
{
    let r1 = spec_run_tick(cfg, scen, m1, draws1, en1);
    let r2 = spec_run_tick(cfg, scen, m2, draws2, en2);
    assert(spec_limit_batch(
        cfg,
        spec_params(m1.state.current),
        spec_scale_mid(m1.mid_cents, draws1.gbm_factor_ppb, cfg.tick_size_cents),
        m1.current_time_ms,
        m1.next_id,
        draws1,
        en1,
        r1.n_limits,
    ) =~= spec_limit_batch(
        cfg,
        spec_params(m2.state.current),
        spec_scale_mid(m2.mid_cents, draws2.gbm_factor_ppb, cfg.tick_size_cents),
        m2.current_time_ms,
        m2.next_id,
        draws2,
        en2,
        r2.n_limits,
    ));
    assert(spec_market_batch(
        spec_params(m1.state.current),
        m1.current_time_ms,
        (m1.next_id + r1.n_limits) as u64,
        draws1,
        en1,
        r1.n_limits,
        r1.n_markets,
    ) =~= spec_market_batch(
        spec_params(m2.state.current),
        m2.current_time_ms,
        (m2.next_id + r2.n_limits) as u64,
        draws2,
        en2,
        r2.n_limits,
        r2.n_markets,
    ));
    lemma_shuffle_rolls_only(r1.batch, en1.shuffle_rolls@, en2.shuffle_rolls@, 0);
    lemma_cancel_sel_rolls_only(
        spec_split_expired(m1.active + r1.batch.take(r1.n_limits as int), m1.current_time_ms).0,
        en1.cancel_rolls@,
        en2.cancel_rolls@,
        m1.current_time_ms,
    );
}

proof fn lemma_shuffle_rolls_only(s: Seq<Order>, r1: Seq<u64>, r2: Seq<u64>, k: int)
    requires
        r1 == r2,
    ensures
        crate::engine::spec_shuffle_from(s, r1, k) == crate::engine::spec_shuffle_from(s, r2, k),
{
}

proof fn lemma_cancel_sel_rolls_only(s: Seq<Order>, r1: Seq<u64>, r2: Seq<u64>, now: u64)
    requires
        r1 == r2,
    ensures
        spec_cancel_sel(s, r1, now) == spec_cancel_sel(s, r2, now),
{
}

/// The ids of a sequence of orders, in order.
pub open spec fn spec_ids(s: Seq<Order>) -> Seq<u64> {
    s.map_values(|o: Order| o.id)
}

/// The ids a sequence of messages names, in order.
pub open spec fn spec_msg_ids(s: Seq<Msg>) -> Seq<u64> {
    s.map_values(|msg: Msg| spec_msg_id(msg))
}

/// Multiset algebra: inserting into either side of a union inserts into the
/// union.
proof fn lemma_add_insert<V>(a: vstd::multiset::Multiset<V>, b: vstd::multiset::Multiset<V>, x: V)
    ensures
        a.add(b.insert(x)) == a.add(b).insert(x),
        a.insert(x).add(b) == a.add(b).insert(x),
{
    broadcast use vstd::multiset::group_multiset_axioms;

    assert(a.add(b.insert(x)) =~= a.add(b).insert(x));
    assert(a.insert(x).add(b) =~= a.add(b).insert(x));
}

/// Removing a present element and putting it back restores the multiset.
proof fn lemma_remove_insert<V>(m: vstd::multiset::Multiset<V>, x: V)
    requires
        m.count(x) >= 1,
    ensures
        m.remove(x).insert(x) == m,
{
    broadcast use vstd::multiset::group_multiset_axioms;

    assert(m.remove(x).insert(x) =~= m);
}

/// The TTL partition splits the multiset of ids.
proof fn lemma_split_expired_ids(s: Seq<Order>, now: u64)
    ensures
        ({
            let sp = spec_split_expired(s, now);
            spec_ids(sp.0).to_multiset().add(spec_ids(sp.1).to_multiset()) == spec_ids(
                s,
            ).to_multiset()
        }),
    decreases s.len(),
{
    broadcast use vstd::seq_lib::to_multiset_build, vstd::multiset::group_multiset_axioms;

    if s.len() == 0 {
        let sp = spec_split_expired(s, now);
        assert(spec_ids(sp.0) =~= Seq::<u64>::empty());
        assert(spec_ids(sp.1) =~= Seq::<u64>::empty());
        assert(spec_ids(s) =~= Seq::<u64>::empty());
        assert forall|x: u64| #[trigger] spec_ids(sp.0).to_multiset().add(
            spec_ids(sp.1).to_multiset(),
        ).count(x) == spec_ids(s).to_multiset().count(x) by {
            vstd::seq_lib::to_multiset_contains(spec_ids(sp.0), x);
            vstd::seq_lib::to_multiset_contains(spec_ids(sp.1), x);
            vstd::seq_lib::to_multiset_contains(spec_ids(s), x);
        }
        assert(spec_ids(sp.0).to_multiset().add(spec_ids(sp.1).to_multiset()) =~= spec_ids(
            s,
        ).to_multiset());
    } else {
        let d = s.drop_last();
        lemma_split_expired_ids(d, now);
        let sp = spec_split_expired(s, now);
        let rd = spec_split_expired(d, now);
        assert(spec_ids(s) =~= spec_ids(d).push(s.last().id));
        vstd::seq_lib::to_multiset_build(spec_ids(d), s.last().id);
        if spec_is_expired_local(s.last(), now) {
            assert(sp.0 == rd.0 && sp.1 == rd.1.push(s.last()));
            assert(spec_ids(sp.1) =~= spec_ids(rd.1).push(s.last().id));
            vstd::seq_lib::to_multiset_build(spec_ids(rd.1), s.last().id);
            assert(spec_ids(sp.1).to_multiset() == spec_ids(rd.1).to_multiset().insert(
                s.last().id,
            ));
            lemma_add_insert(
                spec_ids(rd.0).to_multiset(),
                spec_ids(rd.1).to_multiset(),
                s.last().id,
            );
            assert(spec_ids(sp.0).to_multiset().add(spec_ids(sp.1).to_multiset()) == spec_ids(
                s,
            ).to_multiset());
        } else {
            assert(sp.0 == rd.0.push(s.last()) && sp.1 == rd.1);
            assert(spec_ids(sp.0) =~= spec_ids(rd.0).push(s.last().id));
            vstd::seq_lib::to_multiset_build(spec_ids(rd.0), s.last().id);
            assert(spec_ids(sp.0).to_multiset() == spec_ids(rd.0).to_multiset().insert(
                s.last().id,
            ));
            lemma_add_insert(
                spec_ids(rd.0).to_multiset(),
                spec_ids(rd.1).to_multiset(),
                s.last().id,
            );
            assert(spec_ids(sp.0).to_multiset().add(spec_ids(sp.1).to_multiset()) == spec_ids(
                s,
            ).to_multiset());
        }
    }
}

/// Mirror of the engine's expiry predicate, for the induction above.
spec fn spec_is_expired_local(o: Order, now: u64) -> bool {
    o.ttl > 0 && now >= o.created_at + o.ttl
}

/// Random selection splits the multiset of ids between the survivors and
/// the cancel messages.
proof fn lemma_cancel_sel_ids(s: Seq<Order>, rolls: Seq<u64>, now: u64)
    ensures
        ({
            let sel = spec_cancel_sel(s, rolls, now);
            spec_ids(sel.0).to_multiset().add(spec_msg_ids(sel.1).to_multiset()) == spec_ids(
                s,
            ).to_multiset()
        }),
    decreases rolls.len(),
{
    broadcast use vstd::seq_lib::to_multiset_remove, vstd::multiset::group_multiset_axioms;

    let sel = spec_cancel_sel(s, rolls, now);
    if rolls.len() == 0 || s.len() == 0 {
        assert(spec_msg_ids(sel.1) =~= Seq::<u64>::empty());
        assert(sel.0 == s);
        assert forall|x: u64| #[trigger] spec_ids(sel.0).to_multiset().add(
            spec_msg_ids(sel.1).to_multiset(),
        ).count(x) == spec_ids(s).to_multiset().count(x) by {
            vstd::seq_lib::to_multiset_contains(spec_msg_ids(sel.1), x);
        }
        assert(spec_ids(sel.0).to_multiset().add(spec_msg_ids(sel.1).to_multiset())
            =~= spec_ids(s).to_multiset());
    } else {
        let idx = (rolls[0] as int) % (s.len() as int);
        let o = s[idx];
        let rem = s.remove(idx);
        lemma_cancel_sel_ids(rem, rolls.drop_first(), now);
        let rr = spec_cancel_sel(rem, rolls.drop_first(), now);
        assert(spec_ids(rem) =~= spec_ids(s).remove(idx));
        assert(spec_ids(s).to_multiset() == spec_ids(s).remove(idx).to_multiset().insert(
            spec_ids(s)[idx],
        )) by {
            assert(spec_ids(s).remove(idx).to_multiset() == spec_ids(s).to_multiset().remove(
                spec_ids(s)[idx],
            ));
            assert(spec_ids(s).to_multiset().contains(spec_ids(s)[idx])) by {
                vstd::seq_lib::to_multiset_contains(spec_ids(s), spec_ids(s)[idx]);
                assert(spec_ids(s).contains(spec_ids(s)[idx]));
            }
            assert(spec_ids(s).remove(idx).to_multiset().insert(spec_ids(s)[idx]) =~= spec_ids(
                s,
            ).to_multiset());
        }
        assert(spec_ids(s)[idx] == o.id);
        assert(spec_msg_ids(sel.1) =~= seq![o.id] + spec_msg_ids(rr.1));
        assert(spec_msg_ids(sel.1).to_multiset() == spec_msg_ids(rr.1).to_multiset().insert(o.id))
            by {
            assert(spec_msg_ids(sel.1) =~= spec_msg_ids(rr.1).insert(0, o.id));
            vstd::seq_lib::to_multiset_insert(spec_msg_ids(rr.1), 0, o.id);
        }
        assert(sel.0 == rr.0);
        assert(spec_ids(sel.0).to_multiset().add(spec_msg_ids(rr.1).to_multiset()) == spec_ids(
            rem,
        ).to_multiset());
        lemma_add_insert(
            spec_ids(sel.0).to_multiset(),
            spec_msg_ids(rr.1).to_multiset(),
            o.id,
        );
        assert(spec_ids(sel.0).to_multiset().add(spec_msg_ids(sel.1).to_multiset()) == spec_ids(
            rem,
        ).to_multiset().insert(o.id));
        assert(spec_ids(rem).to_multiset() == spec_ids(s).to_multiset().remove(o.id));
        assert(spec_ids(s).to_multiset().count(o.id) >= 1) by {
            vstd::seq_lib::to_multiset_contains(spec_ids(s), o.id);
            assert(spec_ids(s)[idx] == o.id);
            assert(spec_ids(s).contains(o.id));
        }
        lemma_remove_insert(spec_ids(s).to_multiset(), o.id);
        assert(spec_ids(sel.0).to_multiset().add(spec_msg_ids(sel.1).to_multiset()) == spec_ids(
            s,
        ).to_multiset());
    }
}

/// Cancel soundness: every cancel a tick emits names a distinct limit order
/// that was resting when the tick ran (either carried over or generated this
/// very tick); no two cancels of the tick name the same id; and no cancelled
/// id survives in the active set. Together with `lemma_ids_gap_free` (ids
/// are fresh and never reused) this makes a second cancel for the same id
/// impossible across an entire run.
#[verifier::rlimit(100)]
pub proof fn lemma_cancel_soundness(
    cfg: EngineConfig,
    scen: ScenarioConfig,
    m: EngineModel,
    draws: TickDraws,
    en: TickEntropy,
)
    requires
        spec_tick_pre(cfg, m, draws, en),
    ensures
        ({
            let r = spec_run_tick(cfg, scen, m, draws, en);
            let resting = m.active + r.batch.take(r.n_limits as int);
            &&& forall|k: int| 0 <= k < r.cancels.len() ==> ((#[trigger] r.cancels[k]) matches
                Msg::Cancel { id, time_ms } && time_ms == m.current_time_ms && exists|q: int|
                    0 <= q < resting.len() && (#[trigger] resting[q]).id == id && resting[q].order_type is Limit)
            &&& forall|k1: int, k2: int| 0 <= k1 < k2 < r.cancels.len() ==> spec_msg_id(
                #[trigger] r.cancels[k1],
            ) != spec_msg_id(#[trigger] r.cancels[k2])
            &&& forall|k: int, q: int| 0 <= k < r.cancels.len() && 0 <= q < r.m.active.len()
                ==> spec_msg_id(#[trigger] r.cancels[k]) != (#[trigger] r.m.active[q]).id
            &&& forall|q: int| 0 <= q < r.m.active.len() ==> (#[trigger] r.m.active[q]).id
                < r.m.next_id
        }),
{
    broadcast use vstd::multiset::group_multiset_axioms;

    let r = spec_run_tick(cfg, scen, m, draws, en);
    let p = spec_params(m.state.current);
    let mid1 = spec_scale_mid(m.mid_cents, draws.gbm_factor_ppb, cfg.tick_size_cents);
    let now = m.current_time_ms;
    let limits = spec_limit_batch(cfg, p, mid1, now, m.next_id, draws, en, r.n_limits);
    let active1 = m.active + limits;
    let sp = spec_split_expired(active1, now);
    let n_c: u64 = if spec_lambda_micro(
        p.cancel_rate,
        m.tunables.throughput_scale_milli,
        cfg.tick_ms,
    ) == 0 {
        0
    } else {
        draws.n_cancels
    };
    let crolls = en.cancel_rolls@.take(n_c as int);
    let sel = spec_cancel_sel(sp.0, crolls, now);
    lemma_limit_batch_props(cfg, p, mid1, now, m.next_id, draws, en, r.n_limits);
    lemma_market_batch_props(
        p,
        now,
        (m.next_id + r.n_limits) as u64,
        draws,
        en,
        r.n_limits,
        r.n_markets,
    );
    assert(r.batch.take(r.n_limits as int) =~= limits);
    lemma_split_expired_props(active1, now);
    lemma_cancel_sel_props(sp.0, crolls, now);
    lemma_split_expired_ids(active1, now);
    lemma_cancel_sel_ids(sp.0, crolls, now);
    // Everything resting is a limit order with an id below the new counter.
    assert(spec_sorted_by_id(active1)) by {
        assert(forall|a: int, b: int| 0 <= a < b < m.active.len() ==> active1[a].id
            < active1[b].id);
    }
    assert(forall|q: int| 0 <= q < active1.len() ==> (#[trigger] active1[q]).order_type is Limit
        && active1[q].id < m.next_id + r.n_limits) by {
        assert(forall|q: int| 0 <= q < m.active.len() ==> crate::engine::spec_active_order_ok(
            #[trigger] m.active[q],
            m.next_id,
            m.current_time_ms,
            cfg.tick_size_cents,
        ));
    }
    // Distinct ids among everything resting.
    let aids = spec_ids(active1);
    assert(aids.no_duplicates()) by {
        assert(forall|a: int, b: int| 0 <= a < b < aids.len() ==> aids[a] != aids[b]);
    }
    aids.lemma_multiset_has_no_duplicates();
    // The tick's cancel ids, as one sequence.
    let exp_ids = spec_ids(sp.1);
    let sel_ids = spec_msg_ids(sel.1);
    let cids = spec_msg_ids(r.cancels);
    assert(cids =~= exp_ids + sel_ids) by {
        assert(forall|k: int| 0 <= k < sp.1.len() ==> spec_msg_id(#[trigger] r.cancels[k])
            == sp.1[k].id);
        assert(forall|k: int| sp.1.len() <= k < r.cancels.len() ==> r.cancels[k] == sel.1[k
            - sp.1.len()]);
    }
    // Multiset bookkeeping: survivors + cancels = resting, with every count
    // at most one.
    vstd::seq_lib::lemma_multiset_commutative(exp_ids, sel_ids);
    let surv_ids = spec_ids(sel.0);
    assert(surv_ids.to_multiset().add(cids.to_multiset()) =~= aids.to_multiset());
    assert(forall|x: u64| #[trigger] aids.to_multiset().count(x) <= 1) by {
        assert(forall|x: u64| aids.to_multiset().contains(x) ==> aids.to_multiset().count(x) == 1);
    }
    assert forall|x: u64| #[trigger] cids.to_multiset().count(x) <= 1 && (
        cids.to_multiset().count(x) >= 1 ==> surv_ids.to_multiset().count(x) == 0) by {
        assert(surv_ids.to_multiset().add(cids.to_multiset()).count(x) == surv_ids.to_multiset().count(
            x,
        ) + cids.to_multiset().count(x));
        assert(aids.to_multiset().count(x) <= 1);
    }
    cids.lemma_multiset_has_no_duplicates_conv();
    // Each cancel names a resting limit order at the tick's time.
    assert forall|k: int| 0 <= k < r.cancels.len() implies ((#[trigger] r.cancels[k]) matches
        Msg::Cancel { id, time_ms } && time_ms == m.current_time_ms && exists|q: int|
            0 <= q < active1.len() && (#[trigger] active1[q]).id == id && active1[q].order_type is Limit) by {
        if k < sp.1.len() {
            assert(r.cancels[k] == Msg::Cancel { id: sp.1[k].id, time_ms: now });
            assert(active1.contains(sp.1[k]));
            let q = choose|q: int| 0 <= q < active1.len() && active1[q] == sp.1[k];
            assert(active1[q].id == sp.1[k].id);
        } else {
            let kk = k - sp.1.len();
            assert(r.cancels[k] == sel.1[kk]);
            let q0 = choose|q0: int| 0 <= q0 < sp.0.len() && sp.0[q0].id == spec_msg_id(sel.1[kk]);
            assert(sp.0.contains(sp.0[q0]));
            let q = choose|q: int| 0 <= q < active1.len() && active1[q] == sp.0[q0];
            assert(active1[q].id == spec_msg_id(sel.1[kk]));
        }
    }
    // No duplicate cancel, and no cancelled id survives.
    assert forall|k1: int, k2: int| 0 <= k1 < k2 < r.cancels.len() implies spec_msg_id(
        #[trigger] r.cancels[k1],
    ) != spec_msg_id(#[trigger] r.cancels[k2]) by {
        assert(cids[k1] == spec_msg_id(r.cancels[k1]));
        assert(cids[k2] == spec_msg_id(r.cancels[k2]));
    }
    assert forall|k: int, q: int| 0 <= k < r.cancels.len() && 0 <= q < r.m.active.len() implies
        spec_msg_id(#[trigger] r.cancels[k]) != (#[trigger] r.m.active[q]).id by {
        let x = spec_msg_id(r.cancels[k]);
        assert(cids[k] == x);
        assert(cids.contains(x));
        vstd::seq_lib::to_multiset_contains(cids, x);
        assert(cids.to_multiset().count(x) >= 1);
        assert(surv_ids.to_multiset().count(x) == 0);
        vstd::seq_lib::to_multiset_contains(surv_ids, x);
        assert(!surv_ids.contains(x));
        assert(surv_ids[q] == r.m.active[q].id);
    }
    // Surviving ids stay below the id counter.
    assert forall|q: int| 0 <= q < r.m.active.len() implies (#[trigger] r.m.active[q]).id
        < r.m.next_id by {
        assert(sp.0.contains(sel.0[q]));
        let w = choose|w: int| 0 <= w < sp.0.len() && sp.0[w] == sel.0[q];
        assert(active1.contains(sp.0[w]));
        let w2 = choose|w2: int| 0 <= w2 < active1.len() && active1[w2] == sp.0[w];
    }
}

/// Order ids are assigned consecutively: within a tick the batch carries ids
/// `next_id, next_id + 1, ...`, and the counter advances by the batch size.
pub proof fn lemma_ids_consecutive(
    cfg: EngineConfig,
    scen: ScenarioConfig,
    m: EngineModel,
    draws: TickDraws,
    en: TickEntropy,
)
    requires
        spec_tick_pre(cfg, m, draws, en),
    ensures
        ({
            let r = spec_run_tick(cfg, scen, m, draws, en);
            &&& forall|i: int| 0 <= i < r.batch.len() ==> (#[trigger] r.batch[i]).id == m.next_id
                + i
            &&& r.m.next_id == m.next_id + r.batch.len()
        }),
{
    let r = spec_run_tick(cfg, scen, m, draws, en);
    let p = spec_params(m.state.current);
    let mid1 = spec_scale_mid(m.mid_cents, draws.gbm_factor_ppb, cfg.tick_size_cents);
    lemma_limit_batch_props(cfg, p, mid1, m.current_time_ms, m.next_id, draws, en, r.n_limits);
    lemma_market_batch_props(
        p,
        m.current_time_ms,
        (m.next_id + r.n_limits) as u64,
        draws,
        en,
        r.n_limits,
        r.n_markets,
    );
}

/// One generation step of a run: the stochastic inputs of one tick.
pub ghost struct GenStep {
    pub draws: TickDraws,
    pub en: TickEntropy,
}

/// Whether every tick of the run meets the engine's preconditions.
pub open spec fn spec_gen_ok(cfg: EngineConfig, scen: ScenarioConfig, m: EngineModel, steps: Seq<GenStep>) -> bool
    decreases steps.len(),
{
    if steps.len() == 0 {
        true
    } else {
        &&& spec_tick_pre(cfg, m, steps[0].draws, steps[0].en)
        &&& spec_gen_ok(
            cfg,
            scen,
            spec_run_tick(cfg, scen, m, steps[0].draws, steps[0].en).m,
            steps.drop_first(),
        )
    }
}

/// All orders a run generates, in generation order.
pub open spec fn spec_run_orders(cfg: EngineConfig, scen: ScenarioConfig, m: EngineModel, steps: Seq<GenStep>) -> Seq<Order>
    decreases steps.len(),
{
    if steps.len() == 0 {
        Seq::empty()
    } else {
        let r = spec_run_tick(cfg, scen, m, steps[0].draws, steps[0].en);
        r.batch + spec_run_orders(cfg, scen, r.m, steps.drop_first())
    }
}

/// The state a run ends in.
pub open spec fn spec_run_final(cfg: EngineConfig, scen: ScenarioConfig, m: EngineModel, steps: Seq<GenStep>) -> EngineModel
    decreases steps.len(),
{
    if steps.len() == 0 {
        m
    } else {
        let r = spec_run_tick(cfg, scen, m, steps[0].draws, steps[0].en);
        spec_run_final(cfg, scen, r.m, steps.drop_first())
    }
}

/// Across a whole run, order ids are consecutive from the starting counter:
/// strictly increasing with no gaps. From a fresh engine, whose counter is
/// zero, ids are exactly 0, 1, 2, ...
pub proof fn lemma_ids_gap_free(
    cfg: EngineConfig,
    scen: ScenarioConfig,
    m: EngineModel,
    steps: Seq<GenStep>,
)
    requires
        spec_gen_ok(cfg, scen, m, steps),
    ensures
        ({
            let os = spec_run_orders(cfg, scen, m, steps);
            &&& forall|i: int| 0 <= i < os.len() ==> (#[trigger] os[i]).id == m.next_id + i
            &&& spec_run_final(cfg, scen, m, steps).next_id == m.next_id + os.len()
        }),
    decreases steps.len(),
{
    if steps.len() == 0 {
    } else {
        let r = spec_run_tick(cfg, scen, m, steps[0].draws, steps[0].en);
        lemma_ids_consecutive(cfg, scen, m, steps[0].draws, steps[0].en);
        lemma_ids_gap_free(cfg, scen, r.m, steps.drop_first());
        let os = spec_run_orders(cfg, scen, m, steps);
        let rest = spec_run_orders(cfg, scen, r.m, steps.drop_first());
        assert(forall|i: int| 0 <= i < r.batch.len() ==> os[i] == r.batch[i]);
        assert(forall|i: int| r.batch.len() <= i < os.len() ==> os[i] == rest[i - r.batch.len()]);
    }
}

/// Market orders carry TTL zero, are never cancelled, and appear exactly
/// once: the batch has strictly increasing ids (so an order sits at exactly
/// one position), the wire carries exactly the batch's orders, and no cancel
/// of the tick names a market order's id.
pub proof fn lemma_market_orders(
    cfg: EngineConfig,
    scen: ScenarioConfig,
    m: EngineModel,
    draws: TickDraws,
    en: TickEntropy,
)
    requires
        spec_tick_pre(cfg, m, draws, en),
    ensures
        ({
            let r = spec_run_tick(cfg, scen, m, draws, en);
            &&& forall|i: int| 0 <= i < r.batch.len() && (#[trigger] r.batch[i]).order_type is Market
                ==> r.batch[i].ttl == 0
            &&& forall|i: int, k: int| 0 <= i < r.batch.len() && (#[trigger] r.batch[i]).order_type is Market
                && 0 <= k < r.cancels.len() ==> spec_msg_id(#[trigger] r.cancels[k])
                != r.batch[i].id
            &&& spec_sorted_by_id(r.batch)
            &&& r.wire_batch.to_multiset() == r.batch.to_multiset()
        }),
{
    let r = spec_run_tick(cfg, scen, m, draws, en);
    let p = spec_params(m.state.current);
    let mid1 = spec_scale_mid(m.mid_cents, draws.gbm_factor_ppb, cfg.tick_size_cents);
    let now = m.current_time_ms;
    let limits = spec_limit_batch(cfg, p, mid1, now, m.next_id, draws, en, r.n_limits);
    let markets = spec_market_batch(
        p,
        now,
        (m.next_id + r.n_limits) as u64,
        draws,
        en,
        r.n_limits,
        r.n_markets,
    );
    lemma_limit_batch_props(cfg, p, mid1, now, m.next_id, draws, en, r.n_limits);
    lemma_market_batch_props(
        p,
        now,
        (m.next_id + r.n_limits) as u64,
        draws,
        en,
        r.n_limits,
        r.n_markets,
    );
    lemma_shuffle_from_multiset(r.batch, en.shuffle_rolls@, 0);
    lemma_cancel_soundness(cfg, scen, m, draws, en);
    let active1 = m.active + limits;
    assert forall|i: int, k: int| 0 <= i < r.batch.len() && (#[trigger] r.batch[i]).order_type is Market
        && 0 <= k < r.cancels.len() implies spec_msg_id(#[trigger] r.cancels[k])
        != r.batch[i].id by {
        assert(r.batch[i] == markets[i - r.n_limits]);
        assert(r.batch[i].id >= m.next_id + r.n_limits);
        let resting = m.active + r.batch.take(r.n_limits as int);
        let q = choose|q: int| 0 <= q < resting.len() && (#[trigger] resting[q]).id == spec_msg_id(
            r.cancels[k],
        ) && resting[q].order_type is Limit;
        assert(r.batch.take(r.n_limits as int) =~= limits);
        if q < m.active.len() {
            assert(crate::engine::spec_active_order_ok(
                m.active[q],
                m.next_id,
                m.current_time_ms,
                cfg.tick_size_cents,
            ));
            assert(resting[q].id < m.next_id);
        } else {
            assert(resting[q] == limits[q - m.active.len()]);
            assert(resting[q].id < m.next_id + r.n_limits);
        }
    }
}

/// The volatile scenario never leaves the volatile regime: with free
/// transitions disabled, no forced event, and no regime override from the
/// control plane, both halves of a tick keep the regime tag.
pub proof fn lemma_volatile_stays(
    cfg: EngineConfig,
    m: EngineModel,
    cmds: Seq<EngineCommand>,
    rolls: Seq<u64>,
    prep: PrepEntropy,
    draws: TickDraws,
    en: TickEntropy,
    n: int,
)
    requires
        cfg.scenario is Volatile,
        m.state.current is Volatile,
        forall|i: int| 0 <= i < cmds.len() ==> !((#[trigger] cmds[i]) is Regime),
        n == cmds.len(),
        rolls.len() >= n + 3,
    ensures
        ({
            let scen = spec_from_scenario(cfg.scenario);
            let mc = spec_apply_commands(m, cmds, rolls);
            let mf = spec_forced_event(mc, scen, false, rolls[n], rolls[n + 1]);
            let ms = spec_shock(
                mf,
                cfg,
                prep.shock_roll_ppb,
                prep.shock_pct_roll,
                prep.shock_dir_roll_ppb,
                rolls[n + 2],
            );
            &&& mc.state.current is Volatile
            &&& ms.state.current is Volatile
            &&& spec_run_tick(cfg, scen, ms, draws, en).m.state.current is Volatile
        }),
    decreases cmds.len(),
{
    let scen = spec_from_scenario(cfg.scenario);
    lemma_no_regime_cmds_keep_tag(m, cmds, rolls);
    let mc = spec_apply_commands(m, cmds, rolls);
    let mf = spec_forced_event(mc, scen, false, rolls[n], rolls[n + 1]);
    assert(mf == mc);
    let ms = spec_shock(
        mf,
        cfg,
        prep.shock_roll_ppb,
        prep.shock_pct_roll,
        prep.shock_dir_roll_ppb,
        rolls[n + 2],
    );
    assert(ms.state.current is Volatile);
    let st1 = crate::regime::RegimeState {
        time_in_regime_ms: (ms.state.time_in_regime_ms + cfg.tick_ms) as u64,
        ..ms.state
    };
    assert(spec_try_transition(st1, scen.allow_transitions, en.trans_roll_ppb) == st1.current);
}

/// A command burst without a regime override keeps the regime tag.
proof fn lemma_no_regime_cmds_keep_tag(m: EngineModel, cmds: Seq<EngineCommand>, rolls: Seq<u64>)
    requires
        forall|i: int| 0 <= i < cmds.len() ==> !((#[trigger] cmds[i]) is Regime),
    ensures
        spec_apply_commands(m, cmds, rolls).state == m.state,
    decreases cmds.len(),
{
    if cmds.len() == 0 {
    } else {
        assert(!(cmds[0] is Regime));
        lemma_no_regime_cmds_keep_tag(
            crate::engine::spec_apply_command(m, cmds[0], rolls[0]),
            cmds.drop_first(),
            rolls.drop_first(),
        );
    }
}

} // verus!
