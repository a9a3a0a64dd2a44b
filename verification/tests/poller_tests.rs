use pool_price_feed::address::Address;
use pool_price_feed::pool::{
    Pool, PoolImmutables, RawPriceState, ReadFailure, ResolutionError, Token,
};
use pool_price_feed::poller::{
    start, step, Action, Emission, Event, Interval, Phase, PollerConfig, Termination, TickFailure,
};
use pool_price_feed::price::{ConversionError, DerivedPrice};
use pool_price_feed::sqrt_price::{SqrtPriceX96, Q96};

fn address(last: u8) -> Address {
    let mut bytes = [0u8; 20];
    bytes[19] = last;
    Address { bytes }
}

fn config(interval: u64) -> PollerConfig {
    PollerConfig {
        pool: address(9),
        version: 3,
        reference: address(1),
        interval: Interval::new(interval).unwrap(),
    }
}

fn immutables() -> PoolImmutables {
    PoolImmutables { token0: address(1), token1: address(2), fee: 3000 }
}

fn resolved_pool() -> Pool {
    Pool {
        address: address(9),
        version: 3,
        token0: Token { address: address(1), decimals: 6 },
        token1: Token { address: address(2), decimals: 18 },
        fee: 3000,
    }
}

fn state(sqrt_price: u128) -> RawPriceState {
    RawPriceState {
        sqrt_price: SqrtPriceX96::from_u128(sqrt_price),
        tick: 0,
        observation_index: 0,
        observation_cardinality: 1,
        observation_cardinality_next: 1,
        fee_protocol: 0,
        unlocked: true,
    }
}

/// Resolves a poller at time `now` and returns the phase in which its first
/// read is under way.
fn resolved(config: &PollerConfig, now: u64) -> Phase {
    let (phase, action) = start(config);
    assert_eq!(action, Action::ReadImmutables { pool: config.pool });
    let (phase, action) = step(config, phase, Event::Immutables(Ok(immutables())), now);
    assert_eq!(action, Action::ReadDecimals { token0: address(1), token1: address(2) });
    let (phase, action) = step(config, phase, Event::Decimals(Ok((6, 18))), now);
    assert_eq!(action, Action::ReadState { pool: config.pool });
    phase
}

/// What one simulated poller has done: the ticks it emitted, each with its
/// time, and the ticks it reported as failed.
struct Record {
    emitted: Vec<(u64, u64)>,
    failed: Vec<u64>,
}

/// Delivers `event` to a poller at time `now`, answers every read at once,
/// and goes on until the poller sleeps. The reads whose tick number is in
/// `failing` fail.
fn deliver(
    config: &PollerConfig,
    phase: &mut Phase,
    event: Event,
    now: u64,
    failing: &[u64],
    record: &mut Record,
) {
    let mut pending = Some(event);
    while let Some(event) = pending.take() {
        let (next, action) = step(config, *phase, event, now);
        *phase = next;
        match action {
            Action::ReadDecimals { .. } => pending = Some(Event::Decimals(Ok((6, 18)))),
            Action::ReadState { .. } => {
                let tick = match *phase {
                    Phase::InFlight { tick, .. } => tick,
                    _ => panic!("a read was asked for outside a tick"),
                };
                pending = Some(Event::State(if failing.contains(&tick) {
                    Err(ReadFailure::Transport)
                } else {
                    Ok(state(2 * Q96))
                }));
            }
            Action::Emit { emission, .. } => {
                record.emitted.push((emission.tick, emission.timestamp))
            }
            Action::Report { tick, .. } => record.failed.push(tick),
            Action::Sleep { .. } | Action::Nothing => {}
            Action::ReadImmutables { .. } | Action::Stop { .. } => panic!("unexpected action"),
        }
    }
}

/// Runs one poller per entry of `pools`, an interval and the ticks whose
/// read fails, side by side on one clock that advances a second at a time
/// from second zero up to but not including `horizon`.
fn simulate(pools: &[(u64, &[u64])], horizon: u64) -> Vec<Record> {
    let configs: Vec<PollerConfig> = pools.iter().map(|(interval, _)| config(*interval)).collect();
    let mut phases: Vec<Phase> = configs.iter().map(|config| start(config).0).collect();
    let mut records: Vec<Record> =
        pools.iter().map(|_| Record { emitted: Vec::new(), failed: Vec::new() }).collect();
    for now in 0..horizon {
        for index in 0..pools.len() {
            let event = if now == 0 {
                Event::Immutables(Ok(immutables()))
            } else {
                Event::Timer
            };
            deliver(&configs[index], &mut phases[index], event, now, pools[index].1, &mut records[index]);
        }
    }
    records
}

#[test]
fn interval_must_not_be_zero() {
    assert_eq!(Interval::new(0), None);
    assert_eq!(Interval::new(12).unwrap().seconds(), 12);
    assert_eq!(Interval::new(u64::MAX).unwrap().seconds(), u64::MAX);
}

#[test]
fn poller_starts_by_resolving_its_pool() {
    let config = config(12);
    assert_eq!(
        start(&config),
        (Phase::ResolvingImmutables, Action::ReadImmutables { pool: address(9) })
    );
}

#[test]
fn unsupported_version_ends_the_poller_before_any_read() {
    let mut config = config(12);
    config.version = 2;
    let cause = Termination::UnsupportedPoolVersion(2);
    assert_eq!(
        start(&config),
        (Phase::Terminated { cause }, Action::Stop { pool: address(9), cause })
    );
}

#[test]
fn resolution_reads_immutables_then_decimals_then_state() {
    let config = config(12);
    let phase = resolved(&config, 100);
    assert_eq!(phase, Phase::InFlight { pool: resolved_pool(), tick: 0, due: 100 });
}

#[test]
fn failed_resolution_ends_the_poller() {
    let config = config(12);
    let (phase, _) = start(&config);
    let cause = Termination::Resolution(ResolutionError::InterfaceMissing);
    assert_eq!(
        step(&config, phase, Event::Immutables(Err(ReadFailure::Rejected)), 0),
        (Phase::Terminated { cause }, Action::Stop { pool: address(9), cause })
    );
    let (phase, _) = step(&config, phase, Event::Immutables(Ok(immutables())), 0);
    let cause = Termination::Resolution(ResolutionError::DecimalsUnavailable);
    assert_eq!(
        step(&config, phase, Event::Decimals(Err(ReadFailure::Rejected)), 0),
        (Phase::Terminated { cause }, Action::Stop { pool: address(9), cause })
    );
}

#[test]
fn pool_with_identical_tokens_is_not_polled() {
    let config = config(12);
    let (phase, _) = start(&config);
    let twice = PoolImmutables { token0: address(1), token1: address(1), fee: 3000 };
    let cause = Termination::Resolution(ResolutionError::IdenticalTokens);
    assert_eq!(
        step(&config, phase, Event::Immutables(Ok(twice)), 0),
        (Phase::Terminated { cause }, Action::Stop { pool: address(9), cause })
    );
}

#[test]
fn tick_emits_the_price_and_sleeps_until_the_next_boundary() {
    let config = config(12);
    let phase = resolved(&config, 100);
    let (phase, action) = step(&config, phase, Event::State(Ok(state(2 * Q96))), 101);
    let emission = Emission {
        pool: address(9),
        tick: 0,
        timestamp: 101,
        price: DerivedPrice { mantissa: 4, exponent: 12, inverted: true },
    };
    assert_eq!(action, Action::Emit { emission, sleep_until: 112 });
    assert_eq!(phase, Phase::Idle { pool: resolved_pool(), tick: 1, due: 112 });
}

#[test]
fn early_timer_goes_back_to_sleep() {
    let config = config(12);
    let idle = Phase::Idle { pool: resolved_pool(), tick: 1, due: 112 };
    assert_eq!(step(&config, idle, Event::Timer, 111), (idle, Action::Sleep { until: 112 }));
    assert_eq!(
        step(&config, idle, Event::Timer, 112),
        (
            Phase::InFlight { pool: resolved_pool(), tick: 1, due: 112 },
            Action::ReadState { pool: address(9) }
        )
    );
}

#[test]
fn slow_read_skips_the_boundaries_it_missed() {
    let config = config(5);
    let in_flight = Phase::InFlight { pool: resolved_pool(), tick: 4, due: 20 };
    let (phase, _) = step(&config, in_flight, Event::State(Ok(state(Q96))), 24);
    assert_eq!(phase, Phase::Idle { pool: resolved_pool(), tick: 5, due: 25 });
    let (phase, _) = step(&config, in_flight, Event::State(Ok(state(Q96))), 25);
    assert_eq!(phase, Phase::Idle { pool: resolved_pool(), tick: 5, due: 30 });
    let (phase, _) = step(&config, in_flight, Event::State(Ok(state(Q96))), 37);
    assert_eq!(phase, Phase::Idle { pool: resolved_pool(), tick: 5, due: 40 });
}

#[test]
fn boundary_and_tick_number_stop_at_the_largest_value() {
    let config = config(10);
    let in_flight = Phase::InFlight { pool: resolved_pool(), tick: u64::MAX, due: u64::MAX - 3 };
    let (phase, action) = step(&config, in_flight, Event::State(Err(ReadFailure::Rejected)), 7);
    assert_eq!(phase, Phase::Idle { pool: resolved_pool(), tick: u64::MAX, due: u64::MAX });
    assert_eq!(
        action,
        Action::Report {
            pool: address(9),
            tick: u64::MAX,
            failure: TickFailure::StateRead(ReadFailure::Rejected),
            sleep_until: u64::MAX,
        }
    );
}

#[test]
fn timer_during_a_read_starts_no_second_read() {
    let config = config(12);
    let in_flight = resolved(&config, 0);
    assert_eq!(step(&config, in_flight, Event::Timer, 50), (in_flight, Action::Nothing));
    assert_eq!(
        step(&config, in_flight, Event::Decimals(Ok((1, 2))), 50),
        (in_flight, Action::Nothing)
    );
}

#[test]
fn degenerate_state_is_reported_and_the_poller_goes_on() {
    let config = config(12);
    let in_flight = resolved(&config, 0);
    let (phase, action) = step(&config, in_flight, Event::State(Ok(state(0))), 1);
    assert_eq!(
        action,
        Action::Report {
            pool: address(9),
            tick: 0,
            failure: TickFailure::Conversion(ConversionError::ZeroSqrtPrice),
            sleep_until: 12,
        }
    );
    assert_eq!(phase, Phase::Idle { pool: resolved_pool(), tick: 1, due: 12 });
}

#[test]
fn shutdown_ends_the_poller_in_every_phase() {
    let config = config(12);
    let cause = Termination::Shutdown;
    let stopped = (Phase::Terminated { cause }, Action::Stop { pool: address(9), cause });
    let phases = [
        Phase::ResolvingImmutables,
        Phase::ResolvingDecimals { immutables: immutables() },
        Phase::Idle { pool: resolved_pool(), tick: 3, due: 36 },
        Phase::InFlight { pool: resolved_pool(), tick: 3, due: 36 },
    ];
    for phase in phases {
        assert_eq!(step(&config, phase, Event::Shutdown, 40), stopped);
    }
}

#[test]
fn terminated_poller_ignores_everything() {
    let config = config(12);
    let ended = Phase::Terminated { cause: Termination::Shutdown };
    let events = [
        Event::Immutables(Ok(immutables())),
        Event::Decimals(Ok((6, 18))),
        Event::Timer,
        Event::State(Ok(state(Q96))),
        Event::Shutdown,
    ];
    for event in events {
        assert_eq!(step(&config, ended, event, 5), (ended, Action::Nothing));
    }
}

#[test]
fn two_pools_tick_independently() {
    // Two pools with intervals of 5 and 12 seconds, over 30 simulated seconds.
    let records = simulate(&[(5, &[]), (12, &[])], 30);
    assert_eq!(records[0].emitted, vec![(0, 0), (1, 5), (2, 10), (3, 15), (4, 20), (5, 25)]);
    assert_eq!(records[1].emitted, vec![(0, 0), (1, 12), (2, 24)]);
    assert!(records[0].failed.is_empty());
    assert!(records[1].failed.is_empty());
}

#[test]
fn failed_read_on_tick_three_does_not_prevent_tick_four() {
    let records = simulate(&[(5, &[3])], 30);
    assert_eq!(records[0].failed, vec![3]);
    assert_eq!(records[0].emitted, vec![(0, 0), (1, 5), (2, 10), (4, 20), (5, 25)]);
}

#[test]
fn failures_of_one_pool_leave_the_other_pool_alone() {
    let records = simulate(&[(5, &[0, 1, 2, 3, 4, 5]), (12, &[])], 30);
    assert!(records[0].emitted.is_empty());
    assert_eq!(records[0].failed, vec![0, 1, 2, 3, 4, 5]);
    assert_eq!(records[1].emitted, vec![(0, 0), (1, 12), (2, 24)]);
}

#[test]
fn failed_read_is_reported_with_its_tick() {
    let config = config(12);
    let in_flight = Phase::InFlight { pool: resolved_pool(), tick: 3, due: 36 };
    let (phase, action) = step(&config, in_flight, Event::State(Err(ReadFailure::Transport)), 38);
    assert_eq!(
        action,
        Action::Report {
            pool: address(9),
            tick: 3,
            failure: TickFailure::StateRead(ReadFailure::Transport),
            sleep_until: 48,
        }
    );
    let (phase, action) = step(&config, phase, Event::Timer, 48);
    assert_eq!(action, Action::ReadState { pool: address(9) });
    assert_eq!(phase, Phase::InFlight { pool: resolved_pool(), tick: 4, due: 48 });
}
