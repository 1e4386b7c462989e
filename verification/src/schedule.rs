//! When the next run is due, and the two-state loop that waits for it.
//!
//! The run is due once a day, when the clocks of a fixed time zone read a
//! fixed time. [`next_trigger`] finds the next such instant after `now`;
//! [`Scheduler`] turns the wake-ups and returns of the surrounding loop into
//! the next thing to do. Sleeping and running the task are the caller's.

use crate::calendar::{Date, TimeOfDay};
use crate::clock::{civil_date, date_in_zone, known_zone, local_time, reading_in_zone};
use crate::clock::zone_is_known;
use crate::clock::{Instant, LocalInstant};
use vstd::prelude::*;

verus! {

/// Why a trigger configuration was turned down.
#[derive(Clone, Copy, Debug, PartialEq, Eq, Structural)]
pub enum ConfigError {
    /// Hour, minute and second do not name a time of day.
    InvalidTime,
    /// No time zone has this name.
    UnknownZone,
}

/// Why no trigger could be computed.
#[derive(Clone, Copy, Debug, PartialEq, Eq, Structural)]
pub enum ScheduleError {
    /// The instant, the civil day it falls on, or the day after is outside
    /// what can be computed with.
    OutOfRange,
    /// The clocks of the zone skip the trigger time on that day.
    NoSuchLocalTime,
    /// The clocks of the zone show the trigger time twice on that day.
    AmbiguousLocalTime,
    /// The trigger found for the following day is not after `now`.
    NotAhead,
    /// The event does not belong to the state the scheduler is in.
    OutOfTurn,
}

/// The time zone and the time of day at which the run is due, both checked.
pub struct TriggerConfig {
    zone: String,
    at: TimeOfDay,
}

impl TriggerConfig {
    /// What every configuration meets: the time of day exists and the zone is known.
    #[verifier::type_invariant]
    pub closed spec fn checked(self) -> bool {
        self.at.is_valid() && zone_is_known(self.zone@)
    }

    /// The name of the time zone.
    pub closed spec fn spec_zone(&self) -> Seq<char> {
        self.zone@
    }

    /// The time of day at which the run is due.
    pub closed spec fn spec_at(&self) -> TimeOfDay {
        self.at
    }

    /// Accepts a zone that exists and a time of day that exists, and nothing else.
    pub fn new(zone: String, at: TimeOfDay) -> (config: Result<TriggerConfig, ConfigError>)
        ensures
            !at.is_valid() ==> config == Err::<TriggerConfig, ConfigError>(
                ConfigError::InvalidTime,
            ),
            at.is_valid() && !zone_is_known(zone@) ==> config == Err::<TriggerConfig, ConfigError>(
                ConfigError::UnknownZone,
            ),
            at.is_valid() && zone_is_known(zone@) ==> (config matches Ok(c) && c.spec_zone()
                == zone@ && c.spec_at() == at),
    {
        if !at.check() {
            return Err(ConfigError::InvalidTime);
        }
        if !known_zone(zone.as_str()) {
            return Err(ConfigError::UnknownZone);
        }
        Ok(TriggerConfig { zone, at })
    }

    /// The name of the time zone.
    pub fn zone(&self) -> (zone: &str)
        ensures
            zone@ == self.spec_zone(),
            zone_is_known(zone@),
    {
        proof {
            use_type_invariant(self);
        }
        self.zone.as_str()
    }

    /// The time of day at which the run is due.
    #[verifier::when_used_as_spec(spec_at)]
    pub fn at(&self) -> (at: TimeOfDay)
        ensures
            at == self.spec_at(),
            at.is_valid(),
    {
        proof {
            use_type_invariant(self);
        }
        self.at
    }
}

/// The trigger that a wall-clock reading stands for, if it stands for exactly one.
pub open spec fn single_instant(found: Option<LocalInstant>) -> Result<i64, ScheduleError> {
    match found {
        None => Err(ScheduleError::OutOfRange),
        Some(LocalInstant::Gap) => Err(ScheduleError::NoSuchLocalTime),
        Some(LocalInstant::Fold(_, _)) => Err(ScheduleError::AmbiguousLocalTime),
        Some(LocalInstant::Single(at)) => Ok(at),
    }
}

/// The next trigger after `now`, given the trigger on the civil day of `now`
/// and the trigger on the day after: today's while `now` has not reached it,
/// else tomorrow's. A reading that the zone's clocks skip or show twice is an
/// error, and so is a trigger for tomorrow that is not after `now`.
pub open spec fn choose_trigger(
    now: Instant,
    today: Option<LocalInstant>,
    tomorrow: Option<LocalInstant>,
) -> Result<i64, ScheduleError> {
    match single_instant(today) {
        Err(e) => Err(e),
        Ok(at) => if at > now.secs {
            Ok(at)
        } else {
            match single_instant(tomorrow) {
                Err(e) => Err(e),
                Ok(next) => if next > now.secs {
                    Ok(next)
                } else {
                    Err(ScheduleError::NotAhead)
                },
            }
        },
    }
}

/// Whole seconds from `now` until the instant `trigger`, and zero where
/// `trigger` is not after `now`.
pub open spec fn seconds_until(now: Instant, trigger: i64) -> int {
    let nanos_left = (trigger - now.secs) * 1_000_000_000 - now.nanos;
    if nanos_left <= 0 {
        0
    } else {
        nanos_left / 1_000_000_000
    }
}

/// The trigger on one day, if the reading stands for exactly one instant.
pub fn single(found: Option<LocalInstant>) -> (at: Result<i64, ScheduleError>)
    ensures
        at == single_instant(found),
{
    match found {
        None => Err(ScheduleError::OutOfRange),
        Some(LocalInstant::Gap) => Err(ScheduleError::NoSuchLocalTime),
        Some(LocalInstant::Fold(_, _)) => Err(ScheduleError::AmbiguousLocalTime),
        Some(LocalInstant::Single(at)) => Ok(at),
    }
}

/// Picks between today's trigger and tomorrow's.
pub fn pick_trigger(now: Instant, today: Option<LocalInstant>, tomorrow: Option<LocalInstant>) -> (next:
    Result<i64, ScheduleError>)
    ensures
        next == choose_trigger(now, today, tomorrow),
        next matches Ok(at) ==> at > now.secs,
{
    let at = match single(today) {
        Ok(at) => at,
        Err(e) => {
            return Err(e);
        },
    };
    if at > now.secs {
        return Ok(at);
    }
    let next = match single(tomorrow) {
        Ok(next) => next,
        Err(e) => {
            return Err(e);
        },
    };
    if next > now.secs {
        Ok(next)
    } else {
        Err(ScheduleError::NotAhead)
    }
}

/// The instant at which the zone's clocks read `at` on the day after `today`.
pub open spec fn reading_on_the_day_after(zone: Seq<char>, today: Date, at: TimeOfDay) -> Option<
    LocalInstant,
> {
    match today.next() {
        Some(tomorrow) => reading_in_zone(zone, tomorrow, at),
        None => None,
    }
}

/// The next trigger after `now` under `config`: chosen between the instant
/// at which the zone's clocks read the configured time on the zone's civil
/// date at `now`, and the instant at which they do on the following day.
pub open spec fn due(config: &TriggerConfig, now: Instant) -> Result<i64, ScheduleError> {
    match date_in_zone(config.spec_zone(), now) {
        Some(today) => choose_trigger(
            now,
            reading_in_zone(config.spec_zone(), today, config.spec_at()),
            reading_on_the_day_after(config.spec_zone(), today, config.spec_at()),
        ),
        None => Err(ScheduleError::OutOfRange),
    }
}

/// The next instant after `now` at which the clocks of the configured zone
/// read the configured time, in seconds since 1970-01-01 00:00:00 UTC.
pub fn next_trigger(config: &TriggerConfig, now: Instant) -> (next: Result<i64, ScheduleError>)
    ensures
        next == due(config, now),
        next matches Ok(at) ==> at > now.secs,
{
    let today = match civil_date(config.zone(), now) {
        Some(today) => today,
        None => {
            return Err(ScheduleError::OutOfRange);
        },
    };
    let on_the_day = local_time(config.zone(), today, config.at());
    let on_the_next = match today.next_day() {
        Some(tomorrow) => local_time(config.zone(), tomorrow, config.at()),
        None => None,
    };
    pick_trigger(now, on_the_day, on_the_next)
}

/// Whole seconds to sleep from `now` until `trigger`.
pub fn sleep_seconds(now: Instant, trigger: i64) -> (seconds: u64)
    ensures
        seconds == seconds_until(now, trigger),
{
    let whole: i128 = trigger as i128 - now.secs as i128;
    if whole <= 0 {
        return 0;
    }
    let nanos_left: i128 = whole * 1_000_000_000 - now.nanos as i128;
    if nanos_left <= 0 {
        return 0;
    }
    let seconds: i128 = nanos_left / 1_000_000_000;
    seconds as u64
}

/// The two states of the loop. There is no final state.
#[derive(Clone, Copy, Debug, PartialEq, Eq, Structural)]
pub enum CycleState {
    /// Waiting for the next trigger.
    Sleeping,
    /// The daily task is running.
    Running,
}

/// What the surrounding loop reports.
#[derive(Clone, Copy, Debug, PartialEq, Eq, Structural)]
pub enum SchedulerEvent {
    /// The sleep that was asked for is over.
    SleepElapsed,
    /// The daily task came back; `seeded` tells whether it got as far as writing rows.
    TaskReturned { seeded: bool },
}

/// What the surrounding loop is to do next.
#[derive(Clone, Copy, Debug, PartialEq, Eq, Structural)]
pub enum Command {
    /// Sleep this many seconds, then report [`SchedulerEvent::SleepElapsed`].
    Sleep(u64),
    /// Run the daily task for this date, then report [`SchedulerEvent::TaskReturned`].
    Run(Date),
}

/// The sleep that leads from `now` to the next trigger.
pub open spec fn sleep_command(config: &TriggerConfig, now: Instant) -> Result<
    Command,
    ScheduleError,
> {
    match due(config, now) {
        Ok(at) => Ok(Command::Sleep(seconds_until(now, at) as u64)),
        Err(e) => Err(e),
    }
}

/// The run for the civil date of `now`.
pub open spec fn run_command(config: &TriggerConfig, now: Instant) -> Result<
    Command,
    ScheduleError,
> {
    match date_in_zone(config.spec_zone(), now) {
        Some(today) => Ok(Command::Run(today)),
        None => Err(ScheduleError::OutOfRange),
    }
}

/// What an event at `now` asks for in `state`: a wake-up while sleeping
/// starts the run, the task's return while running starts the next sleep,
/// whatever the task reports, and any other event is out of turn.
pub open spec fn command_for(
    state: CycleState,
    event: SchedulerEvent,
    config: &TriggerConfig,
    now: Instant,
) -> Result<Command, ScheduleError> {
    match (state, event) {
        (CycleState::Sleeping, SchedulerEvent::SleepElapsed) => run_command(config, now),
        (CycleState::Running, SchedulerEvent::TaskReturned { .. }) => sleep_command(config, now),
        _ => Err(ScheduleError::OutOfTurn),
    }
}

/// Whether `event` is one that `state` waits for.
pub open spec fn in_turn(state: CycleState, event: SchedulerEvent) -> bool {
    match (state, event) {
        (CycleState::Sleeping, SchedulerEvent::SleepElapsed) => true,
        (CycleState::Running, SchedulerEvent::TaskReturned { .. }) => true,
        _ => false,
    }
}

/// The other state.
pub open spec fn flipped(state: CycleState) -> CycleState {
    match state {
        CycleState::Sleeping => CycleState::Running,
        CycleState::Running => CycleState::Sleeping,
    }
}

/// The loop's state together with its configuration.
pub struct Scheduler {
    config: TriggerConfig,
    state: CycleState,
}

impl Scheduler {
    /// The state the loop is in.
    pub closed spec fn spec_state(&self) -> CycleState {
        self.state
    }

    /// The configuration the scheduler was started with.
    pub closed spec fn spec_config(&self) -> &TriggerConfig {
        &self.config
    }

    /// Enters the loop at `now`: the scheduler sleeps, and the command says for how long.
    pub fn start(config: TriggerConfig, now: Instant) -> (started: Result<
        (Scheduler, Command),
        ScheduleError,
    >)
        ensures
            match sleep_command(&config, now) {
                Ok(command) => started matches Ok((scheduler, first)) && first == command
                    && scheduler.state() == CycleState::Sleeping && *scheduler.config()
                    == config,
                Err(e) => started matches Err(f) && f == e,
            },
    {
        let at = match next_trigger(&config, now) {
            Ok(at) => at,
            Err(e) => {
                return Err(e);
            },
        };
        let command = Command::Sleep(sleep_seconds(now, at));
        Ok((Scheduler { config, state: CycleState::Sleeping }, command))
    }

    /// The state the loop is in.
    #[verifier::when_used_as_spec(spec_state)]
    pub fn state(&self) -> (state: CycleState)
        ensures
            state == self.spec_state(),
    {
        self.state
    }

    /// The configuration the scheduler was started with.
    #[verifier::when_used_as_spec(spec_config)]
    pub fn config(&self) -> (config: &TriggerConfig)
        ensures
            config == self.spec_config(),
    {
        &self.config
    }

    /// Takes an event that happened at `now` and says what to do next. An
    /// accepted event moves the scheduler to the other state; one that is
    /// refused leaves it where it was.
    pub fn handle(&mut self, event: SchedulerEvent, now: Instant) -> (command: Result<
        Command,
        ScheduleError,
    >)
        ensures
            command == command_for(old(self).state(), event, old(self).config(), now),
            final(self).config() == old(self).config(),
            final(self).state() == if command is Ok {
                flipped(old(self).state())
            } else {
                old(self).state()
            },
    {
        match (self.state, event) {
            (CycleState::Sleeping, SchedulerEvent::SleepElapsed) => {
                match civil_date(self.config.zone(), now) {
                    Some(today) => {
                        self.state = CycleState::Running;
                        Ok(Command::Run(today))
                    },
                    None => Err(ScheduleError::OutOfRange),
                }
            },
            (CycleState::Running, SchedulerEvent::TaskReturned { .. }) => {
                match next_trigger(&self.config, now) {
                    Ok(at) => {
                        self.state = CycleState::Sleeping;
                        Ok(Command::Sleep(sleep_seconds(now, at)))
                    },
                    Err(e) => Err(e),
                }
            },
            _ => Err(ScheduleError::OutOfTurn),
        }
    }
}

} // verus!
