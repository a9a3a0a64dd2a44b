//! The poller of one pool, as a state machine.
//!
//! A poller resolves its pool once, then reads the pool's state at every tick
//! boundary, derives the price and emits it. It performs no I/O itself: each
//! transition names the action that the host must carry out, and the host
//! hands the outcome back as the next event, together with the current time
//! in seconds.
//!
//! Policy: a pool that cannot be resolved is never polled; a read or a
//! conversion that fails at one tick is reported and the poller goes on to
//! the next tick.

use crate::address::Address;
use crate::pool::{
    assemble_pool,
    assemble_pool_spec,
    check_immutables,
    check_immutables_spec,
    get_price,
    get_price_spec,
    Pool,
    PoolImmutables,
    PriceError,
    RawPriceState,
    ReadFailure,
    ResolutionError,
    SUPPORTED_POOL_VERSION,
};
use crate::price::{ConversionError, DerivedPrice};
use vstd::prelude::*;

verus! {

/// The time between two ticks of a poller, in seconds. It is never zero.
#[derive(Clone, Copy, Debug, PartialEq, Eq)]
pub struct Interval {
    seconds: u64,
}

impl View for Interval {
    type V = nat;

    closed spec fn view(&self) -> nat {
        self.seconds as nat
    }
}

impl Interval {
    #[verifier::type_invariant]
    spec fn is_positive(self) -> bool {
        self.seconds > 0
    }

    /// An interval of the given number of seconds, or `None` for zero.
    pub fn new(seconds: u64) -> (interval: Option<Interval>)
        ensures
            interval is Some <==> seconds > 0,
            interval matches Some(i) ==> i@ == seconds,
    {
        if seconds == 0 {
            None
        } else {
            Some(Interval { seconds })
        }
    }

    /// The length of the interval in seconds.
    pub fn seconds(&self) -> (seconds: u64)
        ensures
            seconds == self@,
            seconds > 0,
    {
        proof {
            use_type_invariant(self);
        }
        self.seconds
    }
}

/// What a poller is told at startup.
#[derive(Clone, Copy, Debug, PartialEq, Eq)]
pub struct PollerConfig {
    /// The address of the pool to monitor.
    pub pool: Address,
    /// The version of the pool's on-chain layout.
    pub version: u8,
    /// The reference currency, which is quoted against whenever the pool
    /// holds it as token0.
    pub reference: Address,
    /// The time between two ticks.
    pub interval: Interval,
}

/// Why a poller has stopped for good.
#[derive(Clone, Copy, Debug, PartialEq, Eq, Structural)]
pub enum Termination {
    /// The process is shutting down.
    Shutdown,
    /// The pool's descriptor could not be resolved.
    Resolution(ResolutionError),
    /// The pool's version is not supported.
    UnsupportedPoolVersion(u8),
}

/// Where a poller stands.
#[derive(Clone, Copy, Debug, PartialEq, Eq)]
pub enum Phase {
    /// Waiting for the token addresses and the fee tier.
    ResolvingImmutables,
    /// Waiting for the two decimal precisions.
    ResolvingDecimals { immutables: PoolImmutables },
    /// Asleep until the tick boundary `due`. `tick` numbers the next read.
    Idle { pool: Pool, tick: u64, due: u64 },
    /// The read of tick `tick`, which fell due at `due`, is under way.
    InFlight { pool: Pool, tick: u64, due: u64 },
    /// Stopped for good.
    Terminated { cause: Termination },
}

/// What the host reports to a poller.
#[derive(Clone, Copy, Debug, PartialEq, Eq)]
pub enum Event {
    /// The outcome of the read asked for by [`Action::ReadImmutables`].
    Immutables(Result<PoolImmutables, ReadFailure>),
    /// The outcome of the read asked for by [`Action::ReadDecimals`]: the
    /// decimal precisions of token0 and token1.
    Decimals(Result<(u8, u8), ReadFailure>),
    /// The sleep has ended.
    Timer,
    /// The outcome of the read asked for by [`Action::ReadState`].
    State(Result<RawPriceState, ReadFailure>),
    /// The process is shutting down.
    Shutdown,
}

/// Why a tick produced no price.
#[derive(Clone, Copy, Debug, PartialEq, Eq, Structural)]
pub enum TickFailure {
    /// The pool's state could not be read.
    StateRead(ReadFailure),
    /// The state that was read has no price.
    Conversion(ConversionError),
}

/// One price, as it is handed to the output sink.
#[derive(Clone, Copy, Debug, PartialEq, Eq)]
pub struct Emission {
    /// The pool that the price belongs to.
    pub pool: Address,
    /// The number of the tick, counted from zero.
    pub tick: u64,
    /// The time at which the state was read, in seconds.
    pub timestamp: u64,
    pub price: DerivedPrice,
}

/// What the host must do next.
#[derive(Clone, Copy, Debug, PartialEq, Eq)]
pub enum Action {
    /// Read token0, token1 and the fee tier of `pool` in one batch.
    ReadImmutables { pool: Address },
    /// Read the decimal precisions of the two tokens in one batch.
    ReadDecimals { token0: Address, token1: Address },
    /// Read the current state of `pool`.
    ReadState { pool: Address },
    /// Hand `emission` to the sink, then sleep until `sleep_until`.
    Emit { emission: Emission, sleep_until: u64 },
    /// Report that tick `tick` of `pool` failed, then sleep until
    /// `sleep_until`.
    Report { pool: Address, tick: u64, failure: TickFailure, sleep_until: u64 },
    /// Sleep until `until`.
    Sleep { until: u64 },
    /// Report `cause` and end the poller.
    Stop { pool: Address, cause: Termination },
    /// The event called for nothing.
    Nothing,
}

/// The tick boundary that follows a tick which fell due at `due` and was
/// finished at `now`: the first time after `now` that lies a whole number of
/// intervals after `due`. Boundaries that passed while the read was under way
/// are skipped. A boundary beyond the last representable second is replaced
/// by that second.
pub open spec fn next_boundary(due: u64, interval: nat, now: u64) -> u64
    recommends
        interval > 0,
{
    let elapsed = if now > due {
        now - due
    } else {
        0
    };
    let exact = due + (elapsed / (interval as int) + 1) * interval;
    if exact > u64::MAX {
        u64::MAX
    } else {
        exact as u64
    }
}

/// The number of the tick after `tick`. The count stops at the largest
/// number.
pub open spec fn next_tick(tick: u64) -> u64 {
    if tick < u64::MAX {
        (tick + 1) as u64
    } else {
        tick
    }
}

/// The state and the first action of a poller: an unsupported version ends
/// it before anything is read, otherwise resolution begins.
pub open spec fn start_spec(config: PollerConfig) -> (Phase, Action) {
    if config.version != SUPPORTED_POOL_VERSION {
        let cause = Termination::UnsupportedPoolVersion(config.version);
        (Phase::Terminated { cause }, Action::Stop { pool: config.pool, cause })
    } else {
        (Phase::ResolvingImmutables, Action::ReadImmutables { pool: config.pool })
    }
}

/// The transition of a poller that ends it.
pub open spec fn stop_spec(config: PollerConfig, cause: Termination) -> (Phase, Action) {
    (Phase::Terminated { cause }, Action::Stop { pool: config.pool, cause })
}

/// The transition on the outcome of a state read at tick `tick`.
pub open spec fn tick_spec(
    config: PollerConfig,
    pool: Pool,
    tick: u64,
    due: u64,
    read: Result<RawPriceState, ReadFailure>,
    now: u64,
) -> (Phase, Action) {
    let sleep_until = next_boundary(due, config.interval@, now);
    let idle = Phase::Idle { pool, tick: next_tick(tick), due: sleep_until };
    match read {
        Err(failure) => (
            idle,
            Action::Report {
                pool: pool.address,
                tick,
                failure: TickFailure::StateRead(failure),
                sleep_until,
            },
        ),
        Ok(state) => match get_price_spec(pool, state, config.reference) {
            Ok(price) => (
                idle,
                Action::Emit {
                    emission: Emission { pool: pool.address, tick, timestamp: now, price },
                    sleep_until,
                },
            ),
            Err(PriceError::Conversion(error)) => (
                idle,
                Action::Report {
                    pool: pool.address,
                    tick,
                    failure: TickFailure::Conversion(error),
                    sleep_until,
                },
            ),
            Err(PriceError::UnsupportedPoolVersion(version)) => stop_spec(
                config,
                Termination::UnsupportedPoolVersion(version),
            ),
        },
    }
}

/// The transition function of a poller: the phase that follows `phase` on
/// `event` at time `now`, and the action that the host must carry out.
///
/// An event that the phase does not wait for changes nothing. In particular
/// a timer that fires while a read is under way starts no second read.
pub open spec fn step_spec(config: PollerConfig, phase: Phase, event: Event, now: u64) -> (
    Phase,
    Action,
) {
    match (phase, event) {
        (Phase::Terminated { .. }, _) => (phase, Action::Nothing),
        (_, Event::Shutdown) => stop_spec(config, Termination::Shutdown),
        (Phase::ResolvingImmutables, Event::Immutables(read)) => match check_immutables_spec(read) {
            Ok(immutables) => (
                Phase::ResolvingDecimals { immutables },
                Action::ReadDecimals { token0: immutables.token0, token1: immutables.token1 },
            ),
            Err(error) => stop_spec(config, Termination::Resolution(error)),
        },
        (Phase::ResolvingDecimals { immutables }, Event::Decimals(read)) => match assemble_pool_spec(
            config.pool,
            config.version,
            immutables,
            read,
        ) {
            Ok(pool) => (
                Phase::InFlight { pool, tick: 0, due: now },
                Action::ReadState { pool: pool.address },
            ),
            Err(error) => stop_spec(config, Termination::Resolution(error)),
        },
        (Phase::Idle { pool, tick, due }, Event::Timer) => if now >= due {
            (Phase::InFlight { pool, tick, due }, Action::ReadState { pool: pool.address })
        } else {
            (phase, Action::Sleep { until: due })
        },
        (Phase::InFlight { pool, tick, due }, Event::State(read)) => tick_spec(
            config,
            pool,
            tick,
            due,
            read,
            now,
        ),
        _ => (phase, Action::Nothing),
    }
}

/// Starts a poller: returns its first phase and its first action.
pub fn start(config: &PollerConfig) -> (r: (Phase, Action))
    ensures
        r == start_spec(*config),
{
    if config.version != SUPPORTED_POOL_VERSION {
        let cause = Termination::UnsupportedPoolVersion(config.version);
        (Phase::Terminated { cause }, Action::Stop { pool: config.pool, cause })
    } else {
        (Phase::ResolvingImmutables, Action::ReadImmutables { pool: config.pool })
    }
}

/// Computes [`next_boundary`].
fn boundary_after(due: u64, interval: &Interval, now: u64) -> (next: u64)
    ensures
        next == next_boundary(due, interval@, now),
{
    let seconds = interval.seconds();
    let elapsed = if now > due {
        now - due
    } else {
        0
    };
    let periods = elapsed / seconds;
    proof {
        let e = elapsed as int;
        let s = seconds as int;
        vstd::arithmetic::div_mod::lemma_fundamental_div_mod(e, s);
        vstd::arithmetic::div_mod::lemma_mod_bound(e, s);
        assert((e / s) * s == s * (e / s) && (e / s + 1) * s == (e / s) * s + s)
            by (nonlinear_arith);
    }
    let skipped = periods * seconds;
    due.saturating_add(skipped).saturating_add(seconds)
}

fn stop(config: &PollerConfig, cause: Termination) -> (r: (Phase, Action))
    ensures
        r == stop_spec(*config, cause),
{
    (Phase::Terminated { cause }, Action::Stop { pool: config.pool, cause })
}

/// Handles the outcome of the state read of one tick.
fn finish_tick(
    config: &PollerConfig,
    pool: Pool,
    tick: u64,
    due: u64,
    read: Result<RawPriceState, ReadFailure>,
    now: u64,
) -> (r: (Phase, Action))
    ensures
        r == tick_spec(*config, pool, tick, due, read, now),
{
    let sleep_until = boundary_after(due, &config.interval, now);
    let following = if tick < u64::MAX {
        tick + 1
    } else {
        tick
    };
    let idle = Phase::Idle { pool, tick: following, due: sleep_until };
    match read {
        Err(failure) => (
            idle,
            Action::Report {
                pool: pool.address,
                tick,
                failure: TickFailure::StateRead(failure),
                sleep_until,
            },
        ),
        Ok(state) => match get_price(&pool, &state, &config.reference) {
            Ok(price) => (
                idle,
                Action::Emit {
                    emission: Emission { pool: pool.address, tick, timestamp: now, price },
                    sleep_until,
                },
            ),
            Err(PriceError::Conversion(error)) => (
                idle,
                Action::Report {
                    pool: pool.address,
                    tick,
                    failure: TickFailure::Conversion(error),
                    sleep_until,
                },
            ),
            Err(PriceError::UnsupportedPoolVersion(version)) => stop(
                config,
                Termination::UnsupportedPoolVersion(version),
            ),
        },
    }
}

/// Advances a poller by one event, received at time `now`.
pub fn step(config: &PollerConfig, phase: Phase, event: Event, now: u64) -> (r: (Phase, Action))
    ensures
        r == step_spec(*config, phase, event, now),
{
    match (phase, event) {
        (Phase::Terminated { .. }, _) => (phase, Action::Nothing),
        (_, Event::Shutdown) => stop(config, Termination::Shutdown),
        (Phase::ResolvingImmutables, Event::Immutables(read)) => match check_immutables(read) {
            Ok(immutables) => (
                Phase::ResolvingDecimals { immutables },
                Action::ReadDecimals { token0: immutables.token0, token1: immutables.token1 },
            ),
            Err(error) => stop(config, Termination::Resolution(error)),
        },
        (Phase::ResolvingDecimals { immutables }, Event::Decimals(read)) => match assemble_pool(
            config.pool,
            config.version,
            immutables,
            read,
        ) {
            Ok(pool) => (
                Phase::InFlight { pool, tick: 0, due: now },
                Action::ReadState { pool: pool.address },
            ),
            Err(error) => stop(config, Termination::Resolution(error)),
        },
        (Phase::Idle { pool, tick, due }, Event::Timer) => {
            if now >= due {
                (Phase::InFlight { pool, tick, due }, Action::ReadState { pool: pool.address })
            } else {
                (phase, Action::Sleep { until: due })
            }
        },
        (Phase::InFlight { pool, tick, due }, Event::State(read)) => finish_tick(
            config,
            pool,
            tick,
            due,
            read,
            now,
        ),
        _ => (phase, Action::Nothing),
    }
}

/// The pool that a phase holds, once it is resolved.
pub open spec fn pool_of(phase: Phase) -> Option<Pool> {
    match phase {
        Phase::Idle { pool, .. } => Some(pool),
        Phase::InFlight { pool, .. } => Some(pool),
        _ => None,
    }
}

/// A phase is well formed for a poller when whatever it has resolved so far
/// can belong to a well-formed descriptor of the configured pool.
pub open spec fn phase_wf(config: PollerConfig, phase: Phase) -> bool {
    match phase {
        Phase::ResolvingDecimals { immutables } => immutables.token0 != immutables.token1
            && immutables.fee <= crate::pool::MAX_FEE,
        Phase::Idle { pool, .. } | Phase::InFlight { pool, .. } => pool.wf() && pool.address
            == config.pool && pool.version == config.version,
        _ => true,
    }
}

/// Unless it would pass the last second, the next tick boundary lies after
/// the boundary before it and after the time at which the tick was finished,
/// at most one interval after the later of the two, and a whole number of
/// intervals after the boundary before it.
pub proof fn lemma_next_boundary(due: u64, interval: nat, now: u64)
    requires
        interval > 0,
    ensures
        next_boundary(due, interval, now) >= due,
        next_boundary(due, interval, now) < u64::MAX ==> ({
            let next = next_boundary(due, interval, now);
            &&& next > now
            &&& next > due
            &&& next <= (if now > due {
                now
            } else {
                due
            }) + interval
            &&& (next - due) % (interval as int) == 0
        }),
{
    let elapsed: int = if now > due {
        now - due
    } else {
        0
    };
    let s = interval as int;
    let k = elapsed / s;
    vstd::arithmetic::div_mod::lemma_fundamental_div_mod(elapsed, s);
    vstd::arithmetic::div_mod::lemma_mod_bound(elapsed, s);
    vstd::arithmetic::div_mod::lemma_div_pos_is_pos(elapsed, s);
    assert((k + 1) * s == s * k + s && (k + 1) * s >= s) by (nonlinear_arith)
        requires
            k >= 0,
            s > 0,
    ;
    vstd::arithmetic::div_mod::lemma_mod_multiples_basic(k + 1, s);
}

/// A tick that is finished before the next boundary leaves the cadence as it
/// was: the poller sleeps until exactly one interval after the tick fell due.
pub proof fn lemma_prompt_tick_keeps_cadence(due: u64, interval: nat, now: u64)
    requires
        interval > 0,
        now < due + interval <= u64::MAX,
    ensures
        next_boundary(due, interval, now) == due + interval,
{
    let elapsed: int = if now > due {
        now - due
    } else {
        0
    };
    vstd::arithmetic::div_mod::lemma_basic_div(elapsed, interval as int);
    let s = interval as int;
    assert((0 + 1) * s == s) by (nonlinear_arith);
}

/// The cadence is fixed: a tick that starts when the timer ends the sleep
/// and whose read is answered before the next boundary, with whatever
/// outcome, is followed by a sleep until exactly one interval after the
/// boundary at which the tick fell due.
pub proof fn lemma_cycle_keeps_cadence(
    config: PollerConfig,
    pool: Pool,
    tick: u64,
    due: u64,
    read: Result<RawPriceState, ReadFailure>,
    woken: u64,
    answered: u64,
)
    requires
        config.interval@ > 0,
        pool.version == SUPPORTED_POOL_VERSION,
        due <= woken,
        answered < due + config.interval@ <= u64::MAX,
    ensures
        ({
            let idle = Phase::Idle { pool, tick, due };
            let (in_flight, read_state) = step_spec(config, idle, Event::Timer, woken);
            let (asleep, _) = step_spec(config, in_flight, Event::State(read), answered);
            &&& in_flight == Phase::InFlight { pool, tick, due }
            &&& read_state == Action::ReadState { pool: pool.address }
            &&& asleep == Phase::Idle {
                pool,
                tick: next_tick(tick),
                due: (due + config.interval@) as u64,
            }
        }),
{
    lemma_prompt_tick_keeps_cadence(due, config.interval@, answered);
}

/// A poller that has stopped stays stopped and asks for nothing.
pub proof fn lemma_terminated_is_final(
    config: PollerConfig,
    cause: Termination,
    event: Event,
    now: u64,
)
    ensures
        step_spec(config, Phase::Terminated { cause }, event, now) == (
            Phase::Terminated { cause },
            Action::Nothing,
        ),
{
}

/// A shutdown ends a running poller at once, in whatever phase it is.
pub proof fn lemma_shutdown_ends_every_phase(config: PollerConfig, phase: Phase, now: u64)
    requires
        !(phase is Terminated),
    ensures
        step_spec(config, phase, Event::Shutdown, now) == (
            Phase::Terminated { cause: Termination::Shutdown },
            Action::Stop { pool: config.pool, cause: Termination::Shutdown },
        ),
{
}

/// A poller stops only on shutdown, on a failed resolution, or on a pool
/// version that is not supported. No failure at a tick of a supported pool
/// stops it.
pub proof fn lemma_causes_of_termination(config: PollerConfig, phase: Phase, event: Event, now: u64)
    requires
        !(phase is Terminated),
        step_spec(config, phase, event, now).0 is Terminated,
    ensures
        event is Shutdown || ((phase is ResolvingImmutables || phase is ResolvingDecimals)
            && step_spec(config, phase, event, now).0 matches Phase::Terminated {
            cause: Termination::Resolution(_),
        }) || (pool_of(phase) matches Some(pool) && pool.version != SUPPORTED_POOL_VERSION),
{
}

/// A failed read does not end the poller: it is reported, the poller sleeps
/// until the next boundary, and the timer that ends the sleep starts the
/// read of the next tick.
pub proof fn lemma_failed_read_goes_on(
    config: PollerConfig,
    pool: Pool,
    tick: u64,
    due: u64,
    failure: ReadFailure,
    now: u64,
    later: u64,
)
    requires
        later >= next_boundary(due, config.interval@, now),
    ensures
        ({
            let sleep_until = next_boundary(due, config.interval@, now);
            let (idle, report) = step_spec(
                config,
                Phase::InFlight { pool, tick, due },
                Event::State(Err(failure)),
                now,
            );
            &&& idle == Phase::Idle { pool, tick: next_tick(tick), due: sleep_until }
            &&& report == Action::Report {
                pool: pool.address,
                tick,
                failure: TickFailure::StateRead(failure),
                sleep_until,
            }
            &&& step_spec(config, idle, Event::Timer, later) == (
                Phase::InFlight { pool, tick: next_tick(tick), due: sleep_until },
                Action::ReadState { pool: pool.address },
            )
        }),
{
}

/// A state that has no price does not end the poller of a supported pool
/// either: the tick is reported as failed and the next tick follows.
pub proof fn lemma_failed_conversion_goes_on(
    config: PollerConfig,
    pool: Pool,
    tick: u64,
    due: u64,
    state: RawPriceState,
    now: u64,
)
    requires
        get_price_spec(pool, state, config.reference) matches Err(PriceError::Conversion(_)),
    ensures
        ({
            let sleep_until = next_boundary(due, config.interval@, now);
            let (idle, report) = step_spec(
                config,
                Phase::InFlight { pool, tick, due },
                Event::State(Ok(state)),
                now,
            );
            &&& idle == Phase::Idle { pool, tick: next_tick(tick), due: sleep_until }
            &&& report matches Action::Report { failure: TickFailure::Conversion(_), .. }
        }),
{
}

/// The ticks of a poller are strictly sequential. A read of the pool's state
/// is asked for only by a poller that has none under way, which then waits
/// for its outcome; and while a read is under way, nothing but its outcome
/// or a shutdown changes the poller or makes it act.
pub proof fn lemma_reads_never_overlap(config: PollerConfig, phase: Phase, event: Event, now: u64)
    ensures
        step_spec(config, phase, event, now).1 is ReadState ==> !(phase is InFlight) && step_spec(
            config,
            phase,
            event,
            now,
        ).0 is InFlight,
        phase is InFlight && !(event is State) && !(event is Shutdown) ==> step_spec(
            config,
            phase,
            event,
            now,
        ) == (phase, Action::Nothing),
{
}

/// Every price that is emitted belongs to the tick whose read has just
/// ended, carries the time of that read, and is the price of the pool in
/// the state that was read.
pub proof fn lemma_emission(config: PollerConfig, phase: Phase, event: Event, now: u64)
    requires
        step_spec(config, phase, event, now).1 is Emit,
    ensures
        ({
            let emission = step_spec(config, phase, event, now).1->emission;
            &&& phase matches Phase::InFlight { pool, tick, due }
            &&& event matches Event::State(Ok(state))
            &&& emission.pool == pool.address
            &&& emission.tick == tick
            &&& emission.timestamp == now
            &&& get_price_spec(pool, state, config.reference) == Ok::<DerivedPrice, PriceError>(
                emission.price,
            )
        }),
{
}

/// A poller starts in a well-formed phase, and every transition keeps the
/// phase well formed. Once a descriptor is resolved it never changes.
pub proof fn lemma_phase_stays_well_formed(
    config: PollerConfig,
    phase: Phase,
    event: Event,
    now: u64,
)
    requires
        phase_wf(config, phase),
    ensures
        phase_wf(config, start_spec(config).0),
        phase_wf(config, step_spec(config, phase, event, now).0),
        pool_of(phase) is Some && pool_of(step_spec(config, phase, event, now).0) is Some
            ==> pool_of(step_spec(config, phase, event, now).0) == pool_of(phase),
{
}

} // verus!
