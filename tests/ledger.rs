use my_oapp::errors::{LedgerError, MyOAppError, YieldAggregatorError};
use my_oapp::ledger::{
    AddProtocolParams, CompoundYieldParams, DepositForYieldParams, EmergencyPauseParams,
    GetOptimalStrategyParams, InitializeYieldAggregatorParams, RebalancePositionParams,
    UpdateYieldRatesParams, WithdrawYieldParams, YieldLedger,
};
use my_oapp::pubkey::Pubkey;

fn key(b: u8) -> Pubkey {
    Pubkey::new_from_array([b; 32])
}

const NOW: i64 = 1_700_000_000;

fn admin() -> Pubkey {
    key(0xAD)
}

fn ledger() -> YieldLedger {
    YieldLedger::initialize_yield_aggregator(InitializeYieldAggregatorParams { admin: admin() }, NOW)
}

fn add(l: &mut YieldLedger, name: &str, apy: u64, cap: u64, risk: u8) -> Result<(), LedgerError> {
    l.add_protocol(
        &admin(),
        AddProtocolParams {
            name: name.to_string(),
            chain_id: 40168,
            initial_apy: apy,
            max_capacity: cap,
            risk_score: risk,
        },
        NOW,
    )
}

fn deposit(l: &mut YieldLedger, user: &Pubkey, amount: u64, target: &str, min_apy: u64) -> Result<(), LedgerError> {
    l.deposit_for_yield(
        user,
        DepositForYieldParams {
            amount,
            target_protocol: target.to_string(),
            target_chain_id: 40168,
            min_apy,
        },
        NOW + 1,
    )
    .map(|_| ())
}

fn withdraw(l: &mut YieldLedger, signer: &Pubkey, owner: &Pubkey, amount: u64) -> Result<(), LedgerError> {
    l.withdraw_yield(signer, owner, WithdrawYieldParams { amount, target_chain_id: 40168 }, NOW + 2)
        .map(|_| ())
}

fn counters(l: &YieldLedger, user: &Pubkey, name: &str) -> (u64, u64, u64) {
    let pos = l.position(user).map(|p| p.total_deposits).unwrap_or(0);
    let tvl = l.protocol(&name.to_string()).unwrap().tvl;
    (pos, tvl, l.aggregator.total_value_locked)
}

#[test]
fn initialized_ledger_is_empty_and_running() {
    let l = ledger();
    assert_eq!(l.aggregator.admin, admin());
    assert_eq!(l.aggregator.total_protocols, 0);
    assert_eq!(l.aggregator.total_value_locked, 0);
    assert!(!l.aggregator.emergency_paused);
    assert_eq!(l.aggregator.created_at, NOW);
    assert!(l.protocols.is_empty() && l.positions.is_empty());
}

#[test]
fn deposit_scenario_with_apy_floor() {
    let mut l = ledger();
    let u = key(1);
    add(&mut l, "alpha", 500, 1_000_000, 5).unwrap();
    assert_eq!(deposit(&mut l, &u, 100_000, "alpha", 400), Ok(()));
    assert_eq!(counters(&l, &u, "alpha"), (100_000, 100_000, 100_000));
    assert_eq!(
        deposit(&mut l, &u, 100_000, "alpha", 600),
        Err(LedgerError::Aggregator(YieldAggregatorError::ApyTooLow))
    );
    assert_eq!(counters(&l, &u, "alpha"), (100_000, 100_000, 100_000));
    let p = l.position(&u).unwrap();
    assert_eq!(p.position_count, 1);
    assert_eq!(p.last_activity, NOW + 1);
}

#[test]
fn strategy_scenario_filters_by_risk() {
    let mut l = ledger();
    add(&mut l, "alpha", 500, 1_000_000, 6).unwrap();
    add(&mut l, "beta", 450, 1_000_000, 4).unwrap();
    let r = l
        .get_optimal_strategy(GetOptimalStrategyParams { amount: 1000, risk_tolerance: 5, min_apy: 300 })
        .unwrap();
    assert_eq!(r.recommended_protocol, "beta");
    assert_eq!(r.expected_apy, 450);
    assert_eq!(r.risk_score, 4);
    assert_eq!(r.chain_id, 40168);
}

#[test]
fn strategy_tie_breaks_and_empty_result() {
    let mut l = ledger();
    assert!(l
        .get_optimal_strategy(GetOptimalStrategyParams { amount: 1, risk_tolerance: 10, min_apy: 0 })
        .is_none());
    add(&mut l, "a", 700, 10, 3).unwrap();
    add(&mut l, "b", 700, 10, 2).unwrap();
    add(&mut l, "c", 700, 10, 2).unwrap();
    add(&mut l, "d", 900, 10, 9).unwrap();
    let best = |l: &YieldLedger, rt: u8, min_apy: u64| {
        l.get_optimal_strategy(GetOptimalStrategyParams { amount: 1, risk_tolerance: rt, min_apy })
            .map(|r| r.recommended_protocol)
    };
    assert_eq!(best(&l, 10, 0), Some("d".to_string()));
    assert_eq!(best(&l, 5, 0), Some("b".to_string()));
    assert_eq!(best(&l, 5, 701), None);
    assert_eq!(best(&l, 1, 0), None);
}

#[test]
fn deposit_then_withdraw_restores_counters() {
    let mut l = ledger();
    let u = key(2);
    add(&mut l, "alpha", 500, 1_000_000, 5).unwrap();
    deposit(&mut l, &u, 40, "alpha", 0).unwrap();
    let before = counters(&l, &u, "alpha");
    deposit(&mut l, &u, 25, "alpha", 0).unwrap();
    withdraw(&mut l, &u, &u, 25).unwrap();
    let after = counters(&l, &u, "alpha");
    assert_eq!(after.0, before.0);
    assert_eq!(after.2, before.2);
    assert_eq!(l.position(&u).unwrap().last_activity, NOW + 2);
}

#[test]
fn withdraw_errors() {
    let mut l = ledger();
    let u = key(3);
    let other = key(4);
    add(&mut l, "alpha", 500, 1_000_000, 5).unwrap();
    assert_eq!(
        withdraw(&mut l, &u, &u, 1),
        Err(LedgerError::App(MyOAppError::PositionNotFound))
    );
    deposit(&mut l, &u, 10, "alpha", 0).unwrap();
    assert_eq!(
        withdraw(&mut l, &other, &u, 1),
        Err(LedgerError::Aggregator(YieldAggregatorError::Unauthorized))
    );
    assert_eq!(
        withdraw(&mut l, &u, &u, 0),
        Err(LedgerError::Aggregator(YieldAggregatorError::InvalidAmount))
    );
    assert_eq!(
        withdraw(&mut l, &u, &u, 11),
        Err(LedgerError::App(MyOAppError::WithdrawalExceedsBalance))
    );
    assert_eq!(withdraw(&mut l, &u, &u, 10), Ok(()));
    assert_eq!(l.position(&u).unwrap().total_deposits, 0);
}

#[test]
fn capacity_is_never_exceeded() {
    let mut l = ledger();
    let u = key(5);
    add(&mut l, "small", 500, 100, 5).unwrap();
    assert_eq!(deposit(&mut l, &u, 100, "small", 0), Ok(()));
    assert_eq!(
        deposit(&mut l, &u, 1, "small", 0),
        Err(LedgerError::Aggregator(YieldAggregatorError::ProtocolCapacityExceeded))
    );
    assert_eq!(counters(&l, &u, "small"), (100, 100, 100));
    let p = l.protocol(&"small".to_string()).unwrap();
    assert!(p.tvl <= p.max_capacity);
}

#[test]
fn deposit_errors() {
    let mut l = ledger();
    let u = key(6);
    add(&mut l, "alpha", 500, u64::MAX, 5).unwrap();
    assert_eq!(
        deposit(&mut l, &u, 0, "alpha", 0),
        Err(LedgerError::Aggregator(YieldAggregatorError::InvalidAmount))
    );
    assert_eq!(
        deposit(&mut l, &u, 1, "gamma", 0),
        Err(LedgerError::App(MyOAppError::InvalidProtocol))
    );
    deposit(&mut l, &u, u64::MAX, "alpha", 0).unwrap();
    assert_eq!(
        deposit(&mut l, &key(7), 1, "alpha", 0),
        Err(LedgerError::Aggregator(YieldAggregatorError::ProtocolCapacityExceeded))
    );
}

#[test]
fn pause_blocks_user_operations_until_resumed() {
    let mut l = ledger();
    let u = key(8);
    add(&mut l, "alpha", 500, 1_000_000, 5).unwrap();
    add(&mut l, "beta", 900, 1_000_000, 5).unwrap();
    deposit(&mut l, &u, 50, "alpha", 0).unwrap();
    l.credit_yield(&admin(), &u, 5).unwrap();
    l.emergency_pause(&admin(), EmergencyPauseParams { pause: true }).unwrap();
    assert!(l.aggregator.emergency_paused);
    let paused = Err(LedgerError::Aggregator(YieldAggregatorError::EmergencyPaused));
    assert_eq!(deposit(&mut l, &u, 1, "alpha", 0), paused);
    assert_eq!(withdraw(&mut l, &u, &u, 1), paused);
    assert_eq!(
        l.compound_yield(&u, &u, CompoundYieldParams { protocol_name: "alpha".to_string() }, NOW)
            .err(),
        Some(LedgerError::Aggregator(YieldAggregatorError::EmergencyPaused))
    );
    assert_eq!(
        l.rebalance_position(
            &u,
            &u,
            RebalancePositionParams {
                from_protocol: "alpha".to_string(),
                to_protocol: "beta".to_string(),
                amount: 1,
                min_apy_improvement: 0,
            },
            NOW,
        )
        .err(),
        Some(LedgerError::Aggregator(YieldAggregatorError::EmergencyPaused))
    );
    assert_eq!(counters(&l, &u, "alpha"), (50, 50, 50));
    assert_eq!(l.position(&u).unwrap().total_yield_earned, 5);
    assert!(l.get_optimal_strategy(GetOptimalStrategyParams { amount: 1, risk_tolerance: 10, min_apy: 0 }).is_some());
    l.emergency_pause(&admin(), EmergencyPauseParams { pause: false }).unwrap();
    assert_eq!(deposit(&mut l, &u, 1, "alpha", 0), Ok(()));
    assert_eq!(withdraw(&mut l, &u, &u, 1), Ok(()));
}

#[test]
fn only_the_admin_pauses_registers_and_updates() {
    let mut l = ledger();
    let intruder = key(9);
    assert_eq!(
        l.emergency_pause(&intruder, EmergencyPauseParams { pause: true }),
        Err(LedgerError::Aggregator(YieldAggregatorError::Unauthorized))
    );
    assert_eq!(
        l.add_protocol(
            &intruder,
            AddProtocolParams {
                name: "x".to_string(),
                chain_id: 1,
                initial_apy: 1,
                max_capacity: 1,
                risk_score: 1,
            },
            NOW,
        ),
        Err(LedgerError::Aggregator(YieldAggregatorError::Unauthorized))
    );
    add(&mut l, "alpha", 500, 10, 5).unwrap();
    assert_eq!(
        l.update_yield_rates(
            &intruder,
            UpdateYieldRatesParams { protocol_name: "alpha".to_string(), new_apy: 600 },
            NOW,
        ),
        Err(LedgerError::Aggregator(YieldAggregatorError::Unauthorized))
    );
    assert_eq!(l.protocol(&"alpha".to_string()).unwrap().current_apy, 500);
    assert!(!l.aggregator.emergency_paused);
}

#[test]
fn add_protocol_rules() {
    let mut l = ledger();
    assert_eq!(
        add(&mut l, "r0", 1, 1, 0),
        Err(LedgerError::Aggregator(YieldAggregatorError::InvalidRiskScore))
    );
    assert_eq!(
        add(&mut l, "r11", 1, 1, 11),
        Err(LedgerError::Aggregator(YieldAggregatorError::InvalidRiskScore))
    );
    let long = "n".repeat(33);
    assert_eq!(
        add(&mut l, &long, 1, 1, 5),
        Err(LedgerError::Aggregator(YieldAggregatorError::InvalidProtocolName))
    );
    assert_eq!(add(&mut l, &"n".repeat(32), 1, 1, 1), Ok(()));
    assert_eq!(add(&mut l, "alpha", 1, 1, 10), Ok(()));
    assert_eq!(add(&mut l, "alpha", 2, 2, 2), Err(LedgerError::App(MyOAppError::InvalidProtocol)));
    assert_eq!(l.aggregator.total_protocols, 2);
    let p = l.protocol(&"alpha".to_string()).unwrap();
    assert_eq!((p.current_apy, p.tvl, p.max_capacity, p.risk_score, p.is_active), (1, 0, 1, 10, true));
    assert_eq!(p.last_update, NOW);
}

#[test]
fn rate_updates_are_bounded() {
    let mut l = ledger();
    add(&mut l, "alpha", 500, 10, 5).unwrap();
    let upd = |l: &mut YieldLedger, name: &str, apy: u64| {
        l.update_yield_rates(
            &admin(),
            UpdateYieldRatesParams { protocol_name: name.to_string(), new_apy: apy },
            NOW + 9,
        )
    };
    assert_eq!(upd(&mut l, "alpha", 0), Err(LedgerError::App(MyOAppError::InvalidYieldRate)));
    assert_eq!(upd(&mut l, "alpha", 10_001), Err(LedgerError::App(MyOAppError::InvalidYieldRate)));
    assert_eq!(upd(&mut l, "zeta", 100), Err(LedgerError::App(MyOAppError::InvalidProtocol)));
    assert_eq!(upd(&mut l, "alpha", 10_000), Ok(()));
    let p = l.protocol(&"alpha".to_string()).unwrap();
    assert_eq!((p.current_apy, p.last_update), (10_000, NOW + 9));
}

#[test]
fn compounding_folds_yield_into_principal() {
    let mut l = ledger();
    let u = key(10);
    add(&mut l, "alpha", 500, 1_000, 5).unwrap();
    deposit(&mut l, &u, 100, "alpha", 0).unwrap();
    let params = || CompoundYieldParams { protocol_name: "alpha".to_string() };
    assert_eq!(
        l.compound_yield(&u, &u, params(), NOW),
        Err(LedgerError::Aggregator(YieldAggregatorError::NoYieldToCompound))
    );
    assert_eq!(
        l.credit_yield(&u, &u, 7),
        Err(LedgerError::Aggregator(YieldAggregatorError::Unauthorized))
    );
    l.credit_yield(&admin(), &u, 7).unwrap();
    assert_eq!(
        l.compound_yield(&key(11), &u, params(), NOW),
        Err(LedgerError::Aggregator(YieldAggregatorError::Unauthorized))
    );
    assert_eq!(l.compound_yield(&u, &u, params(), NOW + 5), Ok(()));
    let p = l.position(&u).unwrap();
    assert_eq!((p.total_deposits, p.total_yield_earned, p.last_activity), (107, 0, NOW + 5));
    assert_eq!(l.aggregator.total_value_locked, 107);
}

#[test]
fn rebalance_records_intent_only() {
    let mut l = ledger();
    let u = key(12);
    add(&mut l, "alpha", 500, 1_000, 5).unwrap();
    add(&mut l, "beta", 800, 1_000, 5).unwrap();
    deposit(&mut l, &u, 100, "alpha", 0).unwrap();
    let req = |amount, min_apy_improvement| RebalancePositionParams {
        from_protocol: "alpha".to_string(),
        to_protocol: "beta".to_string(),
        amount,
        min_apy_improvement,
    };
    assert_eq!(
        l.rebalance_position(&u, &u, req(0, 0), NOW).err(),
        Some(LedgerError::Aggregator(YieldAggregatorError::InvalidAmount))
    );
    assert_eq!(
        l.rebalance_position(&u, &u, req(10, 300), NOW).err(),
        Some(LedgerError::App(MyOAppError::RebalanceNotNeeded))
    );
    assert_eq!(
        l.rebalance_position(&u, &u, req(101, 0), NOW).err(),
        Some(LedgerError::App(MyOAppError::WithdrawalExceedsBalance))
    );
    let ev = l.rebalance_position(&u, &u, req(60, 299), NOW + 3).unwrap();
    assert_eq!(ev.user, u);
    assert_eq!((ev.from_protocol.as_str(), ev.to_protocol.as_str()), ("alpha", "beta"));
    assert_eq!((ev.amount, ev.target_chain, ev.timestamp), (60, 40168, NOW + 3));
    assert_eq!(counters(&l, &u, "alpha"), (100, 100, 100));
    assert_eq!(l.position(&u).unwrap().last_activity, NOW + 3);
}

#[test]
fn deposits_and_withdrawals_return_their_notices() {
    let mut l = ledger();
    let u = key(13);
    add(&mut l, "alpha", 500, 1_000, 5).unwrap();
    let d = l
        .deposit_for_yield(
            &u,
            DepositForYieldParams {
                amount: 30,
                target_protocol: "alpha".to_string(),
                target_chain_id: 30101,
                min_apy: 0,
            },
            NOW + 4,
        )
        .unwrap();
    assert_eq!(d.user, u);
    assert_eq!((d.amount, d.target_chain, d.timestamp), (30, 30101, NOW + 4));
    assert_eq!(d.target_protocol, "alpha");
    let w = l
        .withdraw_yield(&u, &u, WithdrawYieldParams { amount: 10, target_chain_id: 30110 }, NOW + 5)
        .unwrap();
    assert_eq!(w.user, u);
    assert_eq!((w.amount, w.target_chain, w.timestamp), (10, 30110, NOW + 5));
    assert_eq!(l.position(&u).unwrap().total_deposits, 20);
}

#[test]
fn inactive_protocols_refuse_deposits_but_take_rate_updates() {
    let mut l = ledger();
    let u = key(14);
    add(&mut l, "alpha", 500, 1_000, 5).unwrap();
    l.protocols[0].is_active = false;
    assert_eq!(
        deposit(&mut l, &u, 1, "alpha", 0),
        Err(LedgerError::Aggregator(YieldAggregatorError::ProtocolInactive))
    );
    assert_eq!(
        l.update_yield_rates(
            &admin(),
            UpdateYieldRatesParams { protocol_name: "alpha".to_string(), new_apy: 10_001 },
            NOW,
        ),
        Err(LedgerError::App(MyOAppError::InvalidYieldRate))
    );
    assert_eq!(
        l.update_yield_rates(
            &admin(),
            UpdateYieldRatesParams { protocol_name: "alpha".to_string(), new_apy: 600 },
            NOW + 7,
        ),
        Ok(())
    );
    let p = l.protocol(&"alpha".to_string()).unwrap();
    assert_eq!((p.current_apy, p.last_update, p.is_active), (600, NOW + 7, false));
    assert!(l
        .get_optimal_strategy(GetOptimalStrategyParams { amount: 1, risk_tolerance: 10, min_apy: 0 })
        .is_none());
}

#[test]
fn aggregate_overflow_is_refused() {
    let mut l = ledger();
    add(&mut l, "alpha", 500, u64::MAX, 5).unwrap();
    add(&mut l, "beta", 500, u64::MAX, 5).unwrap();
    deposit(&mut l, &key(15), u64::MAX, "alpha", 0).unwrap();
    assert_eq!(
        deposit(&mut l, &key(16), 1, "beta", 0),
        Err(LedgerError::Aggregator(YieldAggregatorError::InvalidAmount))
    );
    assert_eq!(l.protocol(&"beta".to_string()).unwrap().tvl, 0);
    assert_eq!(l.aggregator.total_value_locked, u64::MAX);
}
