use spam_engine::collector::{Callback, LogCallback, Outcome, PendingTx};
use spam_engine::context::{
    Backend, ContenderCtx, FunctionCallDefinition, Liveness, SpamRequest, Target, TestConfig,
};
use spam_engine::error::{ConfigError, ConnectivityError};
use spam_engine::pools::{AgentPools, PoolSpec, Seed};
use spam_engine::run_opts::RunOpts;
use spam_engine::scheduler::{pacing_delay, Action, Event, Phase, Scheduler, TimedSpammer};

fn sender_config() -> TestConfig {
    TestConfig::new().with_spam(vec![SpamRequest::new_tx(
        &FunctionCallDefinition::new("{_sender}").with_from_pool("spammers"),
    )])
}

fn spammers(seed: u64, size: usize) -> AgentPools {
    AgentPools::allocate(
        &Seed::from_value(seed),
        &vec![PoolSpec { name: "spammers".to_string(), size }],
    )
    .unwrap()
}

/// Drives a scheduler through a whole run, invoking `callback` once per
/// dispatched submission; returns the final action and the submissions made.
fn drive(opts: &RunOpts, callback: &mut Callback, receipts: bool) -> (Scheduler, Action, u64) {
    let mut s = Scheduler::new(opts, TimedSpammer::new(1000)).unwrap();
    let mut action = s.step(Event::Started);
    let mut submitted: u64 = 0;
    let mut clock: u64 = 0;
    loop {
        let (period, count) = match action {
            Action::Dispatch { period, count } => (period, count),
            Action::SleepThenDispatch { sleep_ms, period, count } => {
                clock += sleep_ms;
                (period, count)
            }
            _ => break,
        };
        let started = clock;
        for i in 0..count {
            let tx = PendingTx { tx_hash: format!("0x{:02x}{:04x}", period, i), start_ms: clock };
            submitted += 1;
            if let Some(tx) = callback.on_submit(tx) {
                if receipts {
                    if let Callback::Log(c) = callback {
                        let ok = i % 7 != 0;
                        assert!(c.on_receipt(&tx.tx_hash, Outcome::Confirmed { end_ms: clock + 5, success: ok }));
                    }
                }
            }
        }
        clock += 300;
        action = s.step(Event::PeriodDispatched { started_ms: started, finished_ms: clock, failed: 0 });
    }
    (s, action, submitted)
}

#[test]
fn two_periods_nil_collector_make_two_hundred_submissions() {
    let opts = RunOpts::new().txs_per_period(100).periods(2);
    let mut cb = Callback::Nil;
    let (s, action, submitted) = drive(&opts, &mut cb, false);
    assert_eq!(submitted, 200);
    assert_eq!(s.collected, 200);
    assert_eq!(s.phase, Phase::Completed);
    assert_eq!(action, Action::Complete { submitted: 200, failed: 0 });
}

#[test]
fn four_periods_log_collector_write_four_hundred_records() {
    let ctx = ContenderCtx::build(
        sender_config(),
        spammers(7, 2),
        Seed::from_value(7),
        "http://localhost:8545".to_string(),
        Backend::Ephemeral,
        None,
    )
    .unwrap();
    assert!(ctx.build_scenario(None, Liveness::Reachable { chain_id: 1 }, true).is_ok());
    let opts = RunOpts::new().txs_per_period(100).periods(4).name("SimpleSample");
    let mut cb = Callback::Log(LogCallback::new());
    let (s, _, submitted) = drive(&opts, &mut cb, true);
    assert_eq!(submitted, 400);
    assert_eq!(s.phase, Phase::Completed);
    match cb {
        Callback::Log(c) => {
            assert_eq!(c.record_count(), 400);
            assert_eq!(c.in_flight(), 0);
            for r in &c.records {
                assert!(!r.tx_hash.is_empty());
                assert!(r.end_ms.is_some());
            }
            assert!(c.records.iter().any(|r| !r.success));
            assert!(c.records.iter().any(|r| r.success));
        }
        Callback::Nil => panic!("collector changed variant"),
    }
}

#[test]
fn unreachable_endpoint_fails_before_funding() {
    let ctx = ContenderCtx::build(
        sender_config(),
        spammers(1, 3),
        Seed::from_value(1),
        "http://localhost:8545".to_string(),
        Backend::File("myContender.db".to_string()),
        Some(1_000_000_000_000_000_000),
    )
    .unwrap();
    let r = ctx.build_scenario(None, Liveness::Unreachable, true);
    assert!(matches!(r, Err(ConnectivityError::Unreachable)));
    assert!(ctx.pools.pools[0].agents.iter().all(|a| !a.funded));
}

#[test]
fn collector_invoked_periods_times_txs() {
    let opts = RunOpts::new().txs_per_period(3).periods(5);
    let mut s = Scheduler::new(&opts, TimedSpammer::new(1000)).unwrap();
    assert_eq!(s.step(Event::Started), Action::Dispatch { period: 0, count: 3 });
    for k in 0..5u64 {
        let a = s.step(Event::PeriodDispatched { started_ms: k * 1000, finished_ms: k * 1000 + 10, failed: 1 });
        if k < 4 {
            assert_eq!(a, Action::SleepThenDispatch { sleep_ms: 990, period: k + 1, count: 3 });
        } else {
            assert_eq!(a, Action::Complete { submitted: 15, failed: 5 });
        }
    }
    assert_eq!(s.collected, 15);
    assert_eq!(s.periods_done, 5);
}

#[test]
fn overrun_period_starts_next_at_once() {
    assert_eq!(pacing_delay(1000, 0, 250), 750);
    assert_eq!(pacing_delay(1000, 0, 1000), 0);
    assert_eq!(pacing_delay(1000, 100, 2500), 0);
    assert_eq!(pacing_delay(1000, 500, 100), 1000);
    let opts = RunOpts::new().txs_per_period(1).periods(3);
    let mut s = Scheduler::new(&opts, TimedSpammer::new(100)).unwrap();
    s.step(Event::Started);
    let a = s.step(Event::PeriodDispatched { started_ms: 0, finished_ms: 400, failed: 0 });
    assert_eq!(a, Action::SleepThenDispatch { sleep_ms: 0, period: 1, count: 1 });
}

#[test]
fn connectivity_loss_aborts_with_periods_done() {
    let opts = RunOpts::new().txs_per_period(10).periods(4);
    let mut s = Scheduler::new(&opts, TimedSpammer::new(1000)).unwrap();
    s.step(Event::Started);
    s.step(Event::PeriodDispatched { started_ms: 0, finished_ms: 10, failed: 2 });
    assert_eq!(
        s.step(Event::ConnectivityLost { error: ConnectivityError::Unreachable }),
        Action::Abort { periods_done: 1, submitted: 10, error: ConnectivityError::Unreachable }
    );
    assert_eq!(s.phase, Phase::Failed);
    assert_eq!(s.step(Event::Started), Action::Ignore);
}

#[test]
fn malformed_events_are_ignored() {
    let opts = RunOpts::new().txs_per_period(10).periods(2);
    let mut s = Scheduler::new(&opts, TimedSpammer::new(1000)).unwrap();
    assert_eq!(s.step(Event::PeriodDispatched { started_ms: 0, finished_ms: 1, failed: 0 }), Action::Ignore);
    s.step(Event::Started);
    assert_eq!(s.step(Event::PeriodDispatched { started_ms: 0, finished_ms: 1, failed: 11 }), Action::Ignore);
    assert_eq!(s.step(Event::PeriodDispatched { started_ms: 5, finished_ms: 4, failed: 0 }), Action::Ignore);
    assert_eq!(s.periods_done, 0);
    s.step(Event::PeriodDispatched { started_ms: 10, finished_ms: 50, failed: 0 });
    assert_eq!(s.last_finished_ms, 50);
    assert_eq!(s.step(Event::PeriodDispatched { started_ms: 40, finished_ms: 60, failed: 0 }), Action::Ignore);
    assert_eq!(s.periods_done, 1);
    assert_eq!(
        s.step(Event::PeriodDispatched { started_ms: 50, finished_ms: 60, failed: 0 }),
        Action::Complete { submitted: 20, failed: 0 }
    );
}

#[test]
fn run_options_are_validated() {
    assert!(matches!(RunOpts::new().periods(0).validate(), Err(ConfigError::ZeroPeriods)));
    assert!(matches!(RunOpts::new().txs_per_period(0).validate(), Err(ConfigError::ZeroTxsPerPeriod)));
    assert!(matches!(
        RunOpts::new().txs_per_period(u64::MAX).periods(2).validate(),
        Err(ConfigError::TooLarge)
    ));
    assert!(Scheduler::new(&RunOpts::new().periods(0), TimedSpammer::new(1)).is_err());
    let opts = RunOpts::new().txs_per_period(100).periods(4);
    assert!(opts.validate().is_ok());
    assert_eq!(opts.total_txs(), 400);
    assert_eq!(opts.name("x").name.as_deref(), Some("x"));
}

#[test]
fn allocation_is_deterministic() {
    let specs = vec![
        PoolSpec { name: "spammers".to_string(), size: 4 },
        PoolSpec { name: "admins".to_string(), size: 2 },
    ];
    let a = AgentPools::allocate(&Seed::from_value(42), &specs).unwrap();
    let b = AgentPools::allocate(&Seed::from_value(42), &specs).unwrap();
    assert_eq!(a.pools.len(), 2);
    for p in 0..2 {
        assert_eq!(a.pools[p].name, b.pools[p].name);
        assert_eq!(a.pools[p].agents, b.pools[p].agents);
    }
    assert_eq!(a.pools[0].agents.len(), 4);
    assert_eq!(a.pools[1].agents[1].index, 1);
    assert_eq!(a.pools[1].agents[1].seed, 42);
}

#[test]
fn agents_belong_to_one_pool() {
    let specs = vec![
        PoolSpec { name: "a".to_string(), size: 3 },
        PoolSpec { name: "b".to_string(), size: 3 },
    ];
    let pools = AgentPools::allocate(&Seed::from_value(9), &specs).unwrap();
    for x in &pools.pools[0].agents {
        for y in &pools.pools[1].agents {
            assert_ne!(x, y);
            assert_eq!(x.pool, 0);
            assert_eq!(y.pool, 1);
        }
    }
}

#[test]
fn duplicate_pool_names_are_refused() {
    let specs = vec![
        PoolSpec { name: "a".to_string(), size: 1 },
        PoolSpec { name: "a".to_string(), size: 2 },
    ];
    assert!(matches!(AgentPools::allocate(&Seed::from_value(1), &specs), Err(ConfigError::DuplicatePool)));
}

#[test]
fn every_agent_funded_once() {
    let mut pools = spammers(3, 3);
    let plan = pools.funding_plan(5);
    assert_eq!(plan.len(), 3);
    assert!(plan.iter().enumerate().all(|(i, t)| t.pool == 0 && t.index == i && t.amount == 5));
    pools.mark_funded(0, 1);
    let again = pools.funding_plan(5);
    assert_eq!(again.len(), 2);
    assert_eq!(again[0].index, 0);
    assert_eq!(again[1].index, 2);
    pools.mark_funded(0, 0);
    pools.mark_funded(0, 2);
    assert!(pools.funding_plan(5).is_empty());
}

#[test]
fn scenario_funds_unfunded_agents() {
    let ctx = ContenderCtx::build(
        sender_config(),
        spammers(3, 2),
        Seed::from_value(3),
        "http://localhost:8545".to_string(),
        Backend::Ephemeral,
        Some(77),
    )
    .unwrap();
    let plan = ctx.build_scenario(Some(31337), Liveness::Reachable { chain_id: 31337 }, true).unwrap();
    assert_eq!(plan.chain_id, 31337);
    assert_eq!(plan.funding.len(), 2);
    assert_eq!(plan.funding[1].amount, 77);
}

#[test]
fn nil_collector_needs_no_backend() {
    let ctx = ContenderCtx::build(
        sender_config(),
        spammers(3, 2),
        Seed::from_value(3),
        "http://localhost:8545".to_string(),
        Backend::Absent,
        None,
    )
    .unwrap();
    let plan = ctx.build_scenario(None, Liveness::Reachable { chain_id: 1 }, false).unwrap();
    assert!(plan.funding.is_empty());
    let mut cb = Callback::Nil;
    let (s, _, submitted) = drive(&RunOpts::new().txs_per_period(5).periods(3), &mut cb, false);
    assert_eq!(submitted, 15);
    assert_eq!(s.phase, Phase::Completed);
}

#[test]
fn identity_and_backend_errors() {
    let ctx = ContenderCtx::build(
        sender_config(),
        spammers(3, 2),
        Seed::from_value(3),
        "http://localhost:8545".to_string(),
        Backend::File("x.db".to_string()),
        None,
    )
    .unwrap();
    assert!(matches!(
        ctx.build_scenario(Some(1), Liveness::Reachable { chain_id: 2 }, true),
        Err(ConnectivityError::IdentityMismatch)
    ));
    assert!(matches!(
        ctx.build_scenario(None, Liveness::Reachable { chain_id: 2 }, false),
        Err(ConnectivityError::BackendUnavailable)
    ));
}

#[test]
fn cancelled_collector_stops_lookups_keeps_records() {
    let mut c = LogCallback::new();
    let tx = c.on_submit(PendingTx { tx_hash: "0x01".to_string(), start_ms: 1 }).unwrap();
    let tx2 = c.on_submit(PendingTx { tx_hash: "0x02".to_string(), start_ms: 2 }).unwrap();
    assert!(c.on_receipt(&tx.tx_hash, Outcome::Confirmed { end_ms: 3, success: true }));
    c.cancel();
    assert!(!c.is_quiesced());
    assert!(c.on_submit(PendingTx { tx_hash: "0x03".to_string(), start_ms: 4 }).is_none());
    assert_eq!(c.in_flight(), 1);
    assert!(c.on_receipt(&tx2.tx_hash, Outcome::LookupFailed { error: "timeout".to_string() }));
    assert!(c.is_quiesced());
    assert_eq!(c.record_count(), 2);
    assert_eq!(c.records[0].tx_hash, "0x01");
    assert!(c.records[0].success);
    assert_eq!(c.records[1].tx_hash, "0x02");
    assert_eq!(c.records[1].start_ms, 2);
    assert!(!c.records[1].success);
    assert_eq!(c.records[1].error.as_deref(), Some("timeout"));
    assert!(!c.on_receipt(&"0x04".to_string(), Outcome::Confirmed { end_ms: 6, success: true }));
    assert_eq!(c.record_count(), 2);
}

#[test]
fn collector_refuses_empty_and_repeated_ids() {
    let mut c = LogCallback::new();
    assert!(c.on_submit(PendingTx { tx_hash: String::new(), start_ms: 1 }).is_none());
    assert!(c.on_submit(PendingTx { tx_hash: "0xaa".to_string(), start_ms: 1 }).is_some());
    assert!(c.on_submit(PendingTx { tx_hash: "0xaa".to_string(), start_ms: 2 }).is_none());
    assert_eq!(c.in_flight(), 1);
    assert!(!c.on_receipt(&"0xbb".to_string(), Outcome::Confirmed { end_ms: 3, success: true }));
    assert!(c.on_receipt(&"0xaa".to_string(), Outcome::Confirmed { end_ms: 3, success: true }));
    assert!(!c.on_receipt(&"0xaa".to_string(), Outcome::Confirmed { end_ms: 4, success: true }));
    assert!(c.on_submit(PendingTx { tx_hash: "0xaa".to_string(), start_ms: 5 }).is_none());
    assert_eq!(c.record_count(), 1);
    assert_eq!(c.records[0].end_ms, Some(3));
}

#[test]
fn receipts_match_their_transactions_in_any_order() {
    let mut c = LogCallback::new();
    for (h, t) in [("0x01", 10u64), ("0x02", 20), ("0x03", 30)] {
        assert!(c.on_submit(PendingTx { tx_hash: h.to_string(), start_ms: t }).is_some());
    }
    assert!(c.on_receipt(&"0x02".to_string(), Outcome::Confirmed { end_ms: 25, success: true }));
    assert!(c.on_receipt(&"0x03".to_string(), Outcome::Confirmed { end_ms: 35, success: false }));
    assert!(c.on_receipt(&"0x01".to_string(), Outcome::LookupFailed { error: "gone".to_string() }));
    assert_eq!(c.records[0].tx_hash, "0x02");
    assert_eq!(c.records[0].start_ms, 20);
    assert_eq!(c.records[1].start_ms, 30);
    assert!(!c.records[1].success);
    assert_eq!(c.records[2].start_ms, 10);
    assert_eq!(c.records[2].end_ms, None);
    assert_eq!(c.in_flight(), 0);
}

#[test]
fn template_with_empty_pool_resolves_to_nothing() {
    let ctx = ContenderCtx::build(sender_config(), spammers(5, 0), Seed::from_value(5), "u".to_string(), Backend::Absent, None)
        .unwrap();
    assert!(ctx.resolve(0, 0).is_none());
}

#[test]
fn context_build_errors() {
    let mk = |config: TestConfig, pools: AgentPools| {
        ContenderCtx::build(config, pools, Seed::from_value(0), "http://localhost:8545".to_string(), Backend::Absent, None)
    };
    assert!(matches!(mk(TestConfig::new(), spammers(0, 1)), Err(ConfigError::EmptyDefinition)));
    let other = TestConfig::new().with_spam(vec![SpamRequest::new_tx(
        &FunctionCallDefinition::new("{_sender}").with_from_pool("missing"),
    )]);
    assert!(matches!(mk(other, spammers(0, 1)), Err(ConfigError::MissingPool)));
    let mut dup = spammers(0, 1);
    dup.pools.push(dup.pools[0].clone());
    assert!(matches!(mk(sender_config(), dup), Err(ConfigError::DuplicatePool)));
}

#[test]
fn placeholder_resolves_round_robin() {
    let config = TestConfig::new().with_spam(vec![
        SpamRequest::new_tx(&FunctionCallDefinition::new("{_sender}").with_from_pool("spammers")),
        SpamRequest::new_tx(&FunctionCallDefinition::new("0xbeef").with_from_pool("spammers")),
        SpamRequest::new_tx(&FunctionCallDefinition::new("0xbeef")),
    ]);
    let ctx = ContenderCtx::build(config, spammers(5, 2), Seed::from_value(5), "u".to_string(), Backend::Absent, None)
        .unwrap();
    let s0 = ctx.resolve(0, 0).unwrap();
    let s1 = ctx.resolve(0, 1).unwrap();
    let s2 = ctx.resolve(0, 2).unwrap();
    assert_eq!(s0.from.index, 0);
    assert_eq!(s1.from.index, 1);
    assert_eq!(s2.from.index, 0);
    assert!(matches!(s1.to, Target::Sender(a) if a == s1.from));
    let lit = ctx.resolve(1, 3).unwrap();
    assert!(matches!(lit.to, Target::Literal(ref t) if t == "0xbeef"));
    assert!(ctx.resolve(2, 0).is_none());
}
