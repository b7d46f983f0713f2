use orderflow::config::{parse_output_mode, parse_wire_format, OutputMode, WireFormat};
use orderflow::control::{parse_control_command, ControlCommand};
use orderflow::engine::{Engine, EngineConfig, TickDraws};
use orderflow::order::{
    cancel_from_wire_binary, cancel_from_wire_text, cancel_to_wire_binary, cancel_to_wire_text,
    order_from_wire_binary, order_from_wire_text, Order, OrderType, Side,
};
use orderflow::regime::{params, Regime};
use orderflow::scenario::{parse_scenario, Scenario, ScenarioConfig};
use rand::SeedableRng;

fn sample_order() -> Order {
    Order {
        id: 42,
        side: Side::Buy,
        order_type: OrderType::Limit,
        price: 10125,
        size: 3,
        created_at: 300,
        ttl: 5000,
    }
}

#[test]
fn binary_order_round_trip_and_length() {
    let o = sample_order();
    let bytes = o.to_wire_binary();
    assert_eq!(bytes.len(), 34);
    let back = order_from_wire_binary(&bytes).unwrap();
    assert_eq!(back, Order { ttl: 0, ..o });
}

#[test]
fn binary_cancel_round_trip_and_length() {
    let bytes = cancel_to_wire_binary(7, 1500);
    assert_eq!(bytes.len(), 20);
    assert_eq!(cancel_from_wire_binary(&bytes), Some((7, 1500)));
}

#[test]
fn text_order_encodes_exactly() {
    let o = sample_order();
    let s = o.to_wire_text();
    assert_eq!(
        s,
        "ORDER|id=42|side=BUY|type=LIMIT|price=101.25|size=3|time=0.300"
    );
}

#[test]
fn text_order_round_trip() {
    let o = sample_order();
    let s = o.to_wire_text();
    let back = order_from_wire_text(&s).unwrap();
    assert_eq!(back, Order { ttl: 0, ..o });
}

#[test]
fn text_cancel_round_trip() {
    let s = cancel_to_wire_text(99, 12345);
    assert_eq!(s, "CANCEL|id=99|time=12.345");
    assert_eq!(cancel_from_wire_text(&s), Some((99, 12345)));
}

#[test]
fn text_decoder_rejects_noise() {
    assert_eq!(order_from_wire_text("CANCEL|id=1|time=0.000"), None);
    assert_eq!(order_from_wire_text(""), None);
    assert_eq!(cancel_from_wire_text("nonsense"), None);
}

#[test]
fn control_commands_parse() {
    assert_eq!(parse_control_command("pause"), Some(ControlCommand::Pause));
    assert_eq!(parse_control_command("RESUME"), Some(ControlCommand::Resume));
    assert_eq!(
        parse_control_command("rate 2.5"),
        Some(ControlCommand::Throughput(2500))
    );
    assert_eq!(
        parse_control_command("throughput 0"),
        Some(ControlCommand::Throughput(0))
    );
    assert_eq!(
        parse_control_command("display 1.5"),
        Some(ControlCommand::DisplayInterval(1500))
    );
    assert_eq!(
        parse_control_command("regime crash"),
        Some(ControlCommand::Regime(Regime::Crash))
    );
    assert_eq!(parse_control_command("rate"), None);
    assert_eq!(parse_control_command(""), None);
    assert_eq!(parse_control_command("bogus 1"), None);
    assert_eq!(
        parse_control_command("rate -1"),
        Some(ControlCommand::Throughput(-1000))
    );
}

#[test]
fn names_parse_both_ways() {
    assert_eq!(parse_scenario("flash-crash"), Some(Scenario::FlashCrash));
    assert_eq!(parse_scenario("weird"), None);
    assert_eq!(parse_output_mode("both"), Some(OutputMode::Both));
    assert_eq!(parse_output_mode("nope"), None);
    assert_eq!(parse_wire_format("binary"), Some(WireFormat::Binary));
    assert_eq!(Regime::Calm.index(), 0);
    assert_eq!(Regime::Recovery.index(), 4);
}

#[test]
fn regime_table_matches_contract() {
    let calm = params(Regime::Calm);
    assert_eq!(calm.limit_rate, 50);
    assert_eq!(calm.market_rate, 5);
    assert_eq!(calm.cancel_rate, 20);
    assert_eq!(calm.buy_prob_ppb, 500_000_000);
    let crash = params(Regime::Crash);
    assert_eq!(crash.mu_ppb, -45_000_000);
    assert_eq!(crash.sigma_ppm, 2_000_000);
}

#[test]
fn volatile_scenario_disallows_transitions() {
    let sc = ScenarioConfig::from_scenario(Scenario::Volatile);
    assert_eq!(sc.starting_regime, Regime::Volatile);
    assert!(!sc.allow_transitions);
    assert_eq!(sc.forced_event_time_ms, None);
}

fn test_config() -> EngineConfig {
    EngineConfig {
        scenario: Scenario::Normal,
        tick_ms: 100,
        tick_size_cents: 1,
        initial_price_cents: 10_000,
        shock_min_pct_ppb: 20_000_000,
        shock_max_pct_ppb: 60_000_000,
        ttl_min_ms: 1000,
        ttl_max_ms: 30_000,
        throughput_scale_milli: 1000,
        display_interval_ms: 1000,
        shock_prob_ppb: 0,
    }
}

#[test]
fn engine_tick_advances_time_and_ids() {
    let mut rng = rand::rngs::StdRng::seed_from_u64(42);
    let cfg = test_config();
    assert!(cfg.validate());
    let mut e = Engine::new(cfg, &mut rng);
    assert_eq!(e.current_time_ms, 0);
    assert_eq!(e.next_id, 0);
    let cmds = Vec::new();
    let prep = e.draw_prep_entropy(&mut rng, 0);
    let (_events, proceed) = e.prepare_tick(&cmds, &prep);
    assert!(proceed);
    let draws = TickDraws {
        gbm_factor_ppb: 1_000_000_000,
        n_limits: 2,
        n_markets: 1,
        n_cancels: 0,
        limit_offsets_cents: vec![3, 5],
        limit_sizes: vec![10, 0],
        market_sizes: vec![7],
    };
    let en = e.draw_tick_entropy(&mut rng, 2, 1, 0);
    let out = e.run_tick(&draws, &en);
    assert_eq!(e.current_time_ms, 100);
    assert_eq!(e.next_id, 3);
    assert_eq!(e.active.len(), 2);
    assert_eq!(out.msgs.len(), 3);
    assert!(e.mid_cents >= cfg.tick_size_cents);
}

#[test]
fn pause_freezes_the_clock() {
    let mut rng = rand::rngs::StdRng::seed_from_u64(7);
    let cfg = test_config();
    let mut e = Engine::new(cfg, &mut rng);
    let cmds = vec![orderflow::control::EngineCommand::Pause];
    let prep = e.draw_prep_entropy(&mut rng, 1);
    let (events, proceed) = e.prepare_tick(&cmds, &prep);
    assert!(!proceed);
    assert_eq!(e.current_time_ms, 0);
    assert!(e.tunables.paused);
    assert_eq!(events.len(), 1);
    let cmds = vec![orderflow::control::EngineCommand::Resume];
    let prep = e.draw_prep_entropy(&mut rng, 1);
    let (_events, proceed) = e.prepare_tick(&cmds, &prep);
    assert!(proceed);
    assert!(!e.tunables.paused);
}

#[test]
fn rate_zero_generates_nothing() {
    let mut rng = rand::rngs::StdRng::seed_from_u64(1);
    let cfg = test_config();
    let mut e = Engine::new(cfg, &mut rng);
    let cmds = vec![orderflow::control::EngineCommand::Throughput(0)];
    let prep = e.draw_prep_entropy(&mut rng, 1);
    let (_events, proceed) = e.prepare_tick(&cmds, &prep);
    assert!(proceed);
    let (lam_l, lam_m, lam_c) = e.lambdas_micro();
    assert_eq!((lam_l, lam_m, lam_c), (0, 0, 0));
    // Even with nonzero sampled counts, a zero rate generates no orders.
    let draws = TickDraws {
        gbm_factor_ppb: 1_000_000_000,
        n_limits: 5,
        n_markets: 5,
        n_cancels: 5,
        limit_offsets_cents: vec![1; 5],
        limit_sizes: vec![1; 5],
        market_sizes: vec![1; 5],
    };
    let en = e.draw_tick_entropy(&mut rng, 5, 5, 5);
    let out = e.run_tick(&draws, &en);
    assert_eq!(out.msgs.len(), 0);
    assert_eq!(e.next_id, 0);
    assert_eq!(e.current_time_ms, 100);
}

#[test]
fn summary_lines_format() {
    let mut rng = rand::rngs::StdRng::seed_from_u64(3);
    let cfg = test_config();
    let mut e = Engine::new(cfg, &mut rng);
    let mut summary = None;
    for _ in 0..10 {
        let cmds = Vec::new();
        let prep = e.draw_prep_entropy(&mut rng, 0);
        let (_ev, proceed) = e.prepare_tick(&cmds, &prep);
        assert!(proceed);
        let draws = TickDraws {
            gbm_factor_ppb: 1_000_000_000,
            n_limits: 1,
            n_markets: 0,
            n_cancels: 0,
            limit_offsets_cents: vec![2],
            limit_sizes: vec![4],
            market_sizes: vec![],
        };
        let en = e.draw_tick_entropy(&mut rng, 1, 0, 0);
        let out = e.run_tick(&draws, &en);
        if out.summary.is_some() {
            summary = out.summary;
        }
    }
    let d = summary.expect("a summary after one display interval");
    assert_eq!(d.stats.limits_generated, 10);
    let line = orderflow::output::summary_file_line(&d);
    assert!(line.starts_with("SUMMARY|t=0.9|"));
    assert!(line.contains("|limits=10|"));
    let boxed = orderflow::output::summary_box_lines(&d);
    assert_eq!(boxed.len(), 6);
}

#[test]
fn determinism_same_seed_same_stream() {
    let run = || {
        let mut rng = rand::rngs::StdRng::seed_from_u64(42);
        let cfg = test_config();
        let mut e = Engine::new(cfg, &mut rng);
        let mut all = Vec::new();
        for _ in 0..20 {
            let cmds = Vec::new();
            let prep = e.draw_prep_entropy(&mut rng, 0);
            let (_ev, proceed) = e.prepare_tick(&cmds, &prep);
            assert!(proceed);
            let draws = TickDraws {
                gbm_factor_ppb: 999_000_000,
                n_limits: 3,
                n_markets: 1,
                n_cancels: 1,
                limit_offsets_cents: vec![2, 4, 6],
                limit_sizes: vec![1, 2, 3],
                market_sizes: vec![9],
            };
            let en = e.draw_tick_entropy(&mut rng, 3, 1, 1);
            let out = e.run_tick(&draws, &en);
            for m in out.msgs {
                match m {
                    orderflow::engine::Msg::Order(o) => all.extend(o.to_wire_binary()),
                    orderflow::engine::Msg::Cancel { id, time_ms } => {
                        all.extend(cancel_to_wire_binary(id, time_ms))
                    }
                }
            }
        }
        all
    };
    assert_eq!(run(), run());
}
