//! The controller: what it does next, by its state and by what came of what it
//! did last.
use vstd::prelude::*;
use vstd::string::StringExecFns;

use crate::config;
use crate::config::AppConfig;
use crate::controller_config;
use crate::controller_config::{AppError, Config};
use crate::lease::LeaseRecord;
use crate::number;
use crate::number::push_decimal;
use crate::power::PowerCommand;
use crate::system;
use crate::system::{LidState, ProcessMatch, SystemError};
use crate::time::{Moment, Span};

verus! {

/// The rest between putting the machine to sleep and keeping it awake again, in
/// seconds.
pub const SLEEP_PAUSE_SECONDS: u64 = 5;

/// What holds the machine awake while the lid is closed.
#[derive(Clone, Copy, Debug, Eq, PartialEq, Structural)]
pub enum ClosedSleepState {
    /// The delay that started at a moment.
    Delay(Moment),
    /// Processes that run; so many were found last.
    WaitingForProcesses { last_count: usize },
    /// The grace after the last process was gone, from a moment on.
    ProcessExitGrace(Moment),
}

/// What the controller remembers from one poll to the next.
#[derive(Clone, Copy, Debug, Eq, PartialEq, Structural)]
pub struct RuntimeState {
    pub active: bool,
    pub lid: LidState,
    pub closed_sleep: Option<ClosedSleepState>,
    pub reload_generation: Option<u64>,
}

/// What the state of a closed lid calls for.
#[derive(Clone, Copy, Debug, Eq, PartialEq, Structural)]
pub enum ClosedStep {
    /// Nothing but waiting on, in a state.
    Stay(ClosedSleepState),
    /// A look at the processes.
    Scan,
    /// Sleep.
    ForceSleep,
}

/// What a closed lid calls for, before the processes are looked at.
pub open spec fn closed_step(
    state: ClosedSleepState,
    settings: controller_config::ConfigModel,
    now: Moment,
) -> ClosedStep {
    match state {
        ClosedSleepState::Delay(started) => if now.after(started).nanos < settings.delay.nanos {
            ClosedStep::Stay(state)
        } else if settings.process_wait.active() {
            ClosedStep::Scan
        } else {
            ClosedStep::ForceSleep
        },
        ClosedSleepState::WaitingForProcesses { .. } => ClosedStep::Scan,
        ClosedSleepState::ProcessExitGrace(started) => if now.after(started).nanos
            < settings.process_wait.exit_grace.nanos {
            ClosedStep::Stay(state)
        } else {
            ClosedStep::Scan
        },
    }
}

/// What a closed lid calls for, once so many processes were found; nothing new
/// where the look at the processes failed.
pub open spec fn scanned_step(state: ClosedSleepState, found: Option<usize>, now: Moment) -> ClosedStep {
    match found {
        None => ClosedStep::Stay(state),
        Some(0) => match state {
            ClosedSleepState::WaitingForProcesses { .. } => ClosedStep::Stay(ClosedSleepState::ProcessExitGrace(now)),
            _ => ClosedStep::ForceSleep,
        },
        Some(count) => ClosedStep::Stay(ClosedSleepState::WaitingForProcesses { last_count: count }),
    }
}

/// Decides what a closed lid calls for, before the processes are looked at.
pub fn handle_closed_sleep_state(state: ClosedSleepState, config: &Config, now: Moment) -> (r: ClosedStep)
    ensures
        r == closed_step(state, config@, now),
{
    match state {
        ClosedSleepState::Delay(started) => {
            if now.saturating_duration_since(started).nanos < config.delay.nanos {
                ClosedStep::Stay(state)
            } else if config.process_wait.is_active() {
                ClosedStep::Scan
            } else {
                ClosedStep::ForceSleep
            }
        },
        ClosedSleepState::WaitingForProcesses { .. } => ClosedStep::Scan,
        ClosedSleepState::ProcessExitGrace(started) => {
            if now.saturating_duration_since(started).nanos < config.process_wait.exit_grace.nanos {
                ClosedStep::Stay(state)
            } else {
                ClosedStep::Scan
            }
        },
    }
}

/// Decides what a closed lid calls for, once the processes were looked at.
pub fn handle_process_scan(state: ClosedSleepState, found: Option<usize>, now: Moment) -> (r: ClosedStep)
    ensures
        r == scanned_step(state, found, now),
{
    match found {
        None => ClosedStep::Stay(state),
        Some(count) => {
            if count > 0 {
                return ClosedStep::Stay(ClosedSleepState::WaitingForProcesses { last_count: count });
            }
            match state {
                ClosedSleepState::WaitingForProcesses { .. } => ClosedStep::Stay(
                    ClosedSleepState::ProcessExitGrace(now),
                ),
                _ => ClosedStep::ForceSleep,
            }
        },
    }
}

/// The number of matching processes that are named one by one.
pub const NAMED_MATCHES: usize = 5;

/// The line on a matching process.
pub open spec fn match_line(process: (u32, Seq<char>)) -> Seq<char> {
    "process match: pid="@ + number::decimal(process.0 as nat) + " "@ + process.1
}

/// The lines on the matching processes: the first ones, and how many more there are.
pub open spec fn match_lines(processes: Seq<(u32, Seq<char>)>) -> Seq<Seq<char>> {
    if processes.len() > NAMED_MATCHES {
        processes.take(NAMED_MATCHES as int).map_values(|p: (u32, Seq<char>)| match_line(p)).push(
            "process match: ... "@ + number::decimal((processes.len() - NAMED_MATCHES) as nat) + " more"@,
        )
    } else {
        processes.map_values(|p: (u32, Seq<char>)| match_line(p))
    }
}

/// The lines on the matching processes.
pub fn log_process_matches(matches: &Vec<ProcessMatch>) -> (lines: Vec<String>)
    ensures
        system::string_views(lines@) == match_lines(system::match_views(matches@)),
{
    let ghost all = system::match_views(matches@);
    let mut lines: Vec<String> = Vec::new();
    let mut i: usize = 0;
    while i < matches.len() && i < NAMED_MATCHES
        invariant
            i <= matches@.len(),
            i <= NAMED_MATCHES,
            all == system::match_views(matches@),
            lines@.len() == i,
            forall|j: int| 0 <= j < i ==> (#[trigger] lines@[j])@ == match_line(all[j]),
        decreases matches@.len() - i,
    {
        let mut line = "process match: pid=".to_owned();
        push_decimal(&mut line, matches[i].pid as u128);
        line.append(" ");
        line.append(matches[i].command.as_str());
        assert(line@ =~= match_line(all[i as int]));
        lines.push(line);
        i = i + 1;
    }
    if matches.len() > NAMED_MATCHES {
        let mut line = "process match: ... ".to_owned();
        push_decimal(&mut line, (matches.len() - NAMED_MATCHES) as u128);
        line.append(" more");
        lines.push(line);
    }
    assert(system::string_views(lines@) =~= match_lines(all));
    lines
}

/// Where the controller is in its round.
#[derive(Debug, Eq, PartialEq)]
pub enum Phase {
    /// Before a round: has it been told to stop?
    RoundStart,
    /// Waiting for the next poll.
    Polling,
    /// Looking for a request to reset.
    CheckingReset,
    /// Taking the request away.
    ClearingReset,
    /// Reading the application's lease.
    ReadingLease { reset: bool },
    /// Reading the configuration again.
    Reloading { reset: bool, lease: LeaseRecord },
    /// Taking control: keeping the machine awake.
    Enabling,
    /// Taking control with the lid closed: putting the display to sleep.
    DarkeningAtStart,
    /// Giving control up: letting the machine sleep as usual.
    Restoring,
    /// Reading the lid.
    ReadingLid,
    /// The lid was closed: putting the display to sleep.
    Darkening,
    /// The lid was opened: waking the display.
    Lighting,
    /// Looking at the processes, in a state of the closed lid.
    Scanning(ClosedSleepState),
    /// Sleep is forced: letting the machine sleep.
    AllowingSleep,
    /// Sleep is forced: putting the machine to sleep.
    Sleeping,
    /// Sleep is forced: resting.
    Resting,
    /// Sleep is forced: keeping the machine awake again.
    Reenabling,
    /// Leaving: letting the machine sleep as usual.
    Leaving(Result<(), AppError>),
    /// Done.
    Finished(Result<(), AppError>),
}

/// What the controller wants done.
#[derive(Debug, Eq, PartialEq)]
pub enum Action {
    CheckShutdown,
    Wait(Span),
    CheckReset,
    ClearReset,
    ReadLease,
    LoadConfig,
    Run(PowerCommand),
    ReadLid,
    FindProcesses,
    Finish,
}

/// What came of what the controller wanted.
#[derive(Debug)]
pub enum Event {
    /// Whether the controller was told to stop.
    ShutdownChecked(bool),
    /// A wait is over.
    Waited,
    /// Whether there is a request to reset.
    ResetChecked(Result<bool, AppError>),
    ResetCleared(Result<(), AppError>),
    /// The lease, where there is a fresh one.
    LeaseRead(Result<Option<LeaseRecord>, AppError>),
    ConfigLoaded(Result<AppConfig, AppError>),
    CommandDone(Result<(), AppError>),
    LidRead(Result<LidState, AppError>),
    ProcessesFound(Result<Vec<ProcessMatch>, SystemError>),
}

/// What an event holds.
pub enum EventModel {
    ShutdownChecked(bool),
    Waited,
    ResetChecked(Result<bool, AppError>),
    ResetCleared(Result<(), AppError>),
    LeaseRead(Result<Option<LeaseRecord>, AppError>),
    ConfigLoaded(Option<config::AppModel>),
    CommandDone(Result<(), AppError>),
    LidRead(Option<LidState>),
    ProcessesFound(Option<usize>),
}

impl Event {
    pub open spec fn model(self) -> EventModel {
        match self {
            Event::ShutdownChecked(stop) => EventModel::ShutdownChecked(stop),
            Event::Waited => EventModel::Waited,
            Event::ResetChecked(r) => EventModel::ResetChecked(r),
            Event::ResetCleared(r) => EventModel::ResetCleared(r),
            Event::LeaseRead(r) => EventModel::LeaseRead(r),
            Event::ConfigLoaded(Ok(file)) => EventModel::ConfigLoaded(Some(file@)),
            Event::ConfigLoaded(Err(_)) => EventModel::ConfigLoaded(None),
            Event::CommandDone(r) => EventModel::CommandDone(r),
            Event::LidRead(Ok(lid)) => EventModel::LidRead(Some(lid)),
            Event::LidRead(Err(_)) => EventModel::LidRead(None),
            Event::ProcessesFound(Ok(matches)) => EventModel::ProcessesFound(Some(matches.len())),
            Event::ProcessesFound(Err(_)) => EventModel::ProcessesFound(None),
        }
    }
}

/// The controller.
#[derive(Debug)]
pub struct Controller {
    pub config: Config,
    pub runtime: RuntimeState,
    pub phase: Phase,
}

/// What the controller holds.
pub struct ControllerModel {
    pub config: controller_config::ConfigModel,
    pub runtime: RuntimeState,
    pub phase: Phase,
}

impl View for Controller {
    type V = ControllerModel;

    open spec fn view(&self) -> ControllerModel {
        ControllerModel { config: self.config@, runtime: self.runtime, phase: self.phase }
    }
}

/// What is wanted in a phase.
pub open spec fn action_in(m: ControllerModel) -> Action {
    match m.phase {
        Phase::RoundStart => Action::CheckShutdown,
        Phase::Polling => Action::Wait(m.config.poll),
        Phase::CheckingReset => Action::CheckReset,
        Phase::ClearingReset => Action::ClearReset,
        Phase::ReadingLease { .. } => Action::ReadLease,
        Phase::Reloading { .. } => Action::LoadConfig,
        Phase::Enabling => Action::Run(PowerCommand::PreventSleep),
        Phase::DarkeningAtStart => Action::Run(PowerCommand::SleepDisplay),
        Phase::Restoring => Action::Run(PowerCommand::AllowSleep),
        Phase::ReadingLid => Action::ReadLid,
        Phase::Darkening => Action::Run(PowerCommand::SleepDisplay),
        Phase::Lighting => Action::Run(PowerCommand::WakeDisplay),
        Phase::Scanning(_) => Action::FindProcesses,
        Phase::AllowingSleep => Action::Run(PowerCommand::AllowSleep),
        Phase::Sleeping => Action::Run(PowerCommand::SleepNow),
        Phase::Resting => Action::Wait(controller_config::secs(SLEEP_PAUSE_SECONDS)),
        Phase::Reenabling => Action::Run(PowerCommand::PreventSleep),
        Phase::Leaving(_) => Action::Run(PowerCommand::AllowSleep),
        Phase::Finished(_) => Action::Finish,
    }
}

impl ControllerModel {
    /// The same controller in another phase.
    pub open spec fn at(self, phase: Phase) -> ControllerModel {
        ControllerModel { phase, ..self }
    }

    /// Giving up or stopping: the override is taken back on the way out, unless
    /// it was asked to be left.
    pub open spec fn leaving(self, result: Result<(), AppError>) -> ControllerModel {
        if self.config.keep_disabled_on_exit {
            self.at(Phase::Finished(result))
        } else {
            self.at(Phase::Leaving(result))
        }
    }

    /// The same controller with the closed lid in a state.
    pub open spec fn closed(self, state: Option<ClosedSleepState>) -> ControllerModel {
        ControllerModel { runtime: RuntimeState { closed_sleep: state, ..self.runtime }, ..self }
    }

    /// After the lease, and the configuration where it had to be read again.
    pub open spec fn leased(self, lease: Option<LeaseRecord>, reset: bool) -> ControllerModel {
        let active = (match lease {
            Some(record) => record.enabled && self.config.enabled,
            None => false,
        }) && !reset;
        let taken = ControllerModel {
            runtime: RuntimeState { active, closed_sleep: None, ..self.runtime },
            ..self
        };
        if active == self.runtime.active {
            self.ready()
        } else if active {
            taken.at(Phase::Enabling)
        } else if self.config.keep_disabled_on_exit {
            taken.ready()
        } else {
            taken.at(Phase::Restoring)
        }
    }

    /// In control or not, as far as the lid: an idle controller leaves it alone.
    pub open spec fn ready(self) -> ControllerModel {
        if self.runtime.active {
            self.at(Phase::ReadingLid)
        } else {
            self.at(Phase::RoundStart)
        }
    }

    /// After a step of the closed lid.
    pub open spec fn stepped(self, step: ClosedStep, state: ClosedSleepState) -> ControllerModel {
        match step {
            ClosedStep::Stay(next) => self.closed(Some(next)).at(Phase::RoundStart),
            ClosedStep::Scan => self.closed(None).at(Phase::Scanning(state)),
            ClosedStep::ForceSleep => self.closed(None).at(Phase::AllowingSleep),
        }
    }

    /// After the lid was read, and the display followed it.
    pub open spec fn settled(self, now: Moment) -> ControllerModel {
        match (self.runtime.lid, self.runtime.closed_sleep) {
            (LidState::Closed, Some(state)) => self.stepped(closed_step(state, self.config, now), state),
            _ => self.at(Phase::RoundStart),
        }
    }

    /// With the lid as it was read.
    pub open spec fn with_lid(self, lid: LidState) -> ControllerModel {
        ControllerModel { runtime: RuntimeState { lid, ..self.runtime }, ..self }
    }
}

/// What the controller becomes by an event. An event that does not answer what
/// it wants leaves it as it is.
pub open spec fn next(m: ControllerModel, event: EventModel, now: Moment) -> ControllerModel {
    match (m.phase, event) {
        (Phase::RoundStart, EventModel::ShutdownChecked(stop)) => if stop {
            m.leaving(Ok(()))
        } else {
            m.at(Phase::Polling)
        },
        (Phase::Polling, EventModel::Waited) => m.at(Phase::CheckingReset),
        (Phase::CheckingReset, EventModel::ResetChecked(r)) => match r {
            Ok(true) => m.at(Phase::ClearingReset),
            Ok(false) => m.at(Phase::ReadingLease { reset: false }),
            Err(error) => m.leaving(Err(error)),
        },
        (Phase::ClearingReset, EventModel::ResetCleared(r)) => match r {
            Ok(()) => m.at(Phase::ReadingLease { reset: true }),
            Err(error) => m.leaving(Err(error)),
        },
        (Phase::ReadingLease { reset }, EventModel::LeaseRead(r)) => match r {
            Ok(Some(lease)) => if m.runtime.reload_generation == Some(lease.reload_generation) {
                m.leased(Some(lease), reset)
            } else {
                ControllerModel {
                    runtime: RuntimeState { reload_generation: Some(lease.reload_generation), ..m.runtime },
                    ..m
                }.at(Phase::Reloading { reset, lease })
            },
            Ok(None) => m.leased(None, reset),
            Err(error) => m.leaving(Err(error)),
        },
        (Phase::Reloading { reset, lease }, EventModel::ConfigLoaded(loaded)) => match loaded {
            Some(file) => {
                let read = ControllerModel { config: controller_config::reloaded(m.config, file), ..m };
                if m.runtime.active && m.runtime.lid == LidState::Closed {
                    read.closed(Some(ClosedSleepState::Delay(now))).leased(Some(lease), reset)
                } else {
                    read.leased(Some(lease), reset)
                }
            },
            None => m.leased(Some(lease), reset),
        },
        (Phase::Enabling, EventModel::CommandDone(r)) => match r {
            Ok(()) => if m.runtime.lid == LidState::Closed {
                m.at(Phase::DarkeningAtStart)
            } else {
                m.ready()
            },
            Err(error) => m.leaving(Err(error)),
        },
        (Phase::DarkeningAtStart, EventModel::CommandDone(r)) => match r {
            Ok(()) => m.closed(Some(ClosedSleepState::Delay(now))).ready(),
            Err(error) => m.leaving(Err(error)),
        },
        (Phase::Restoring, EventModel::CommandDone(r)) => match r {
            Ok(()) => m.ready(),
            Err(error) => m.leaving(Err(error)),
        },
        (Phase::ReadingLid, EventModel::LidRead(read)) => match read {
            None => m.at(Phase::RoundStart),
            Some(lid) => if lid == m.runtime.lid {
                m.settled(now)
            } else if lid == LidState::Closed {
                m.at(Phase::Darkening)
            } else {
                m.closed(None).at(Phase::Lighting)
            },
        },
        (Phase::Darkening, EventModel::CommandDone(_)) => m.closed(Some(ClosedSleepState::Delay(now))).with_lid(
            LidState::Closed,
        ).settled(now),
        (Phase::Lighting, EventModel::CommandDone(_)) => m.with_lid(LidState::Open).settled(now),
        (Phase::Scanning(state), EventModel::ProcessesFound(found)) => m.stepped(
            scanned_step(state, found, now),
            state,
        ),
        (Phase::AllowingSleep, EventModel::CommandDone(r)) => match r {
            Ok(()) => m.at(Phase::Sleeping),
            Err(error) => m.leaving(Err(error)),
        },
        (Phase::Sleeping, EventModel::CommandDone(r)) => match r {
            Ok(()) => m.at(Phase::Resting),
            Err(error) => m.leaving(Err(error)),
        },
        (Phase::Resting, EventModel::Waited) => m.at(Phase::Reenabling),
        (Phase::Reenabling, EventModel::CommandDone(r)) => match r {
            Ok(()) => m.closed(Some(ClosedSleepState::Delay(now))).at(Phase::RoundStart),
            Err(error) => m.leaving(Err(error)),
        },
        (Phase::Leaving(result), EventModel::CommandDone(_)) => m.at(Phase::Finished(result)),
        _ => m,
    }
}

/// What the controller relies on: between two rounds it has a state for the
/// closed lid exactly while it is in control and the lid is closed, and in the
/// course of a round it is in control where it acts.
pub open spec fn is_sound(m: ControllerModel) -> bool {
    let closed = m.runtime.active && m.runtime.lid == LidState::Closed;
    match m.phase {
        Phase::RoundStart | Phase::Polling | Phase::CheckingReset | Phase::ClearingReset => closed
            == m.runtime.closed_sleep is Some,
        Phase::ReadingLease { .. } | Phase::Reloading { .. } => closed == m.runtime.closed_sleep is Some,
        Phase::ReadingLid => m.runtime.active && closed == m.runtime.closed_sleep is Some,
        Phase::Enabling => m.runtime.active && m.runtime.closed_sleep is None,
        Phase::DarkeningAtStart => closed && m.runtime.closed_sleep is None,
        Phase::Restoring => !m.runtime.active && m.runtime.closed_sleep is None,
        Phase::Darkening => m.runtime.active && m.runtime.lid == LidState::Open && m.runtime.closed_sleep is None,
        Phase::Lighting => closed && m.runtime.closed_sleep is None,
        Phase::Scanning(_) => closed && m.runtime.closed_sleep is None,
        Phase::AllowingSleep | Phase::Sleeping | Phase::Resting | Phase::Reenabling => closed
            && m.runtime.closed_sleep is None,
        Phase::Leaving(_) => !m.config.keep_disabled_on_exit,
        Phase::Finished(_) => true,
    }
}

/// Whatever happens, what the controller relies on stays true.
pub proof fn events_keep_soundness(m: ControllerModel, event: EventModel, now: Moment)
    requires
        is_sound(m),
    ensures
        is_sound(next(m, event, now)),
{
}

impl Controller {
    fn at(self, phase: Phase) -> (r: Controller)
        ensures
            r@ == self@.at(phase),
    {
        Controller { phase, ..self }
    }

    fn leaving(self, result: Result<(), AppError>) -> (r: Controller)
        ensures
            r@ == self@.leaving(result),
    {
        if self.config.keep_disabled_on_exit {
            self.at(Phase::Finished(result))
        } else {
            self.at(Phase::Leaving(result))
        }
    }

    fn closed(self, state: Option<ClosedSleepState>) -> (r: Controller)
        ensures
            r@ == self@.closed(state),
    {
        Controller { runtime: RuntimeState { closed_sleep: state, ..self.runtime }, ..self }
    }

    fn with_lid(self, lid: LidState) -> (r: Controller)
        ensures
            r@ == self@.with_lid(lid),
    {
        Controller { runtime: RuntimeState { lid, ..self.runtime }, ..self }
    }

    fn ready(self) -> (r: Controller)
        ensures
            r@ == self@.ready(),
    {
        if self.runtime.active {
            self.at(Phase::ReadingLid)
        } else {
            self.at(Phase::RoundStart)
        }
    }

    fn leased(self, lease: Option<LeaseRecord>, reset: bool) -> (r: Controller)
        ensures
            r@ == self@.leased(lease, reset),
    {
        let active = (match lease {
            Some(record) => record.enabled && self.config.enabled,
            None => false,
        }) && !reset;
        if active == self.runtime.active {
            return self.ready();
        }
        let taken = Controller { runtime: RuntimeState { active, closed_sleep: None, ..self.runtime }, ..self };
        if active {
            taken.at(Phase::Enabling)
        } else if taken.config.keep_disabled_on_exit {
            taken.ready()
        } else {
            taken.at(Phase::Restoring)
        }
    }

    fn stepped(self, step: ClosedStep, state: ClosedSleepState) -> (r: Controller)
        ensures
            r@ == self@.stepped(step, state),
    {
        match step {
            ClosedStep::Stay(next) => self.closed(Some(next)).at(Phase::RoundStart),
            ClosedStep::Scan => self.closed(None).at(Phase::Scanning(state)),
            ClosedStep::ForceSleep => self.closed(None).at(Phase::AllowingSleep),
        }
    }

    fn settled(self, now: Moment) -> (r: Controller)
        ensures
            r@ == self@.settled(now),
    {
        match (self.runtime.lid, self.runtime.closed_sleep) {
            (LidState::Closed, Some(state)) => {
                let step = handle_closed_sleep_state(state, &self.config, now);
                self.stepped(step, state)
            },
            _ => self.at(Phase::RoundStart),
        }
    }

    /// A controller at its start, with the lid as it was read. It does nothing
    /// where the lid could not be read, or where reading it was all that was asked.
    pub fn new(config: Config, lid: Result<LidState, AppError>) -> (r: Controller)
        ensures
            r@.config == config@,
            is_sound(r@),
            !r.runtime.active && r.runtime.closed_sleep is None && r.runtime.reload_generation is None,
            match lid {
                Err(error) => r.phase == Phase::Finished(Err(error)),
                Ok(state) => r.runtime.lid == state && r.phase == (if config@.once {
                    Phase::Finished(Ok(()))
                } else {
                    Phase::RoundStart
                }),
            },
            lid is Ok && !config@.once ==> action_in(r@) == Action::CheckShutdown,
            lid is Err || config@.once ==> action_in(r@) == Action::Finish,
    {
        match lid {
            Err(error) => Controller {
                config,
                runtime: RuntimeState {
                    active: false,
                    lid: LidState::Open,
                    closed_sleep: None,
                    reload_generation: None,
                },
                phase: Phase::Finished(Err(error)),
            },
            Ok(state) => {
                let phase = if config.once {
                    Phase::Finished(Ok(()))
                } else {
                    Phase::RoundStart
                };
                Controller {
                    config,
                    runtime: RuntimeState {
                        active: false,
                        lid: state,
                        closed_sleep: None,
                        reload_generation: None,
                    },
                    phase,
                }
            },
        }
    }

    /// What the controller wants done.
    pub fn action(&self) -> (r: Action)
        ensures
            r == action_in(self@),
    {
        match &self.phase {
            Phase::RoundStart => Action::CheckShutdown,
            Phase::Polling => Action::Wait(self.config.poll),
            Phase::CheckingReset => Action::CheckReset,
            Phase::ClearingReset => Action::ClearReset,
            Phase::ReadingLease { .. } => Action::ReadLease,
            Phase::Reloading { .. } => Action::LoadConfig,
            Phase::Enabling => Action::Run(PowerCommand::PreventSleep),
            Phase::DarkeningAtStart => Action::Run(PowerCommand::SleepDisplay),
            Phase::Restoring => Action::Run(PowerCommand::AllowSleep),
            Phase::ReadingLid => Action::ReadLid,
            Phase::Darkening => Action::Run(PowerCommand::SleepDisplay),
            Phase::Lighting => Action::Run(PowerCommand::WakeDisplay),
            Phase::Scanning(_) => Action::FindProcesses,
            Phase::AllowingSleep => Action::Run(PowerCommand::AllowSleep),
            Phase::Sleeping => Action::Run(PowerCommand::SleepNow),
            Phase::Resting => Action::Wait(Span::from_secs(SLEEP_PAUSE_SECONDS)),
            Phase::Reenabling => Action::Run(PowerCommand::PreventSleep),
            Phase::Leaving(_) => Action::Run(PowerCommand::AllowSleep),
            Phase::Finished(_) => Action::Finish,
        }
    }

    /// What the controller becomes by what came of what it wanted.
    pub fn advance(self, event: Event, now: Moment) -> (r: Controller)
        ensures
            r@ == next(self@, event.model(), now),
            is_sound(self@) ==> is_sound(r@),
    {
        proof {
            if is_sound(self@) {
                events_keep_soundness(self@, event.model(), now);
            }
        }
        let Controller { config, runtime, phase } = self;
        match phase {
            Phase::RoundStart => {
                let m = Controller { config, runtime, phase: Phase::RoundStart };
                match event {
                    Event::ShutdownChecked(true) => m.leaving(Ok(())),
                    Event::ShutdownChecked(false) => m.at(Phase::Polling),
                    _ => m,
                }
            },
            Phase::Polling => {
                let m = Controller { config, runtime, phase: Phase::Polling };
                match event {
                    Event::Waited => m.at(Phase::CheckingReset),
                    _ => m,
                }
            },
            Phase::CheckingReset => {
                let m = Controller { config, runtime, phase: Phase::CheckingReset };
                match event {
                    Event::ResetChecked(Ok(true)) => m.at(Phase::ClearingReset),
                    Event::ResetChecked(Ok(false)) => m.at(Phase::ReadingLease { reset: false }),
                    Event::ResetChecked(Err(error)) => m.leaving(Err(error)),
                    _ => m,
                }
            },
            Phase::ClearingReset => {
                let m = Controller { config, runtime, phase: Phase::ClearingReset };
                match event {
                    Event::ResetCleared(Ok(())) => m.at(Phase::ReadingLease { reset: true }),
                    Event::ResetCleared(Err(error)) => m.leaving(Err(error)),
                    _ => m,
                }
            },
            Phase::ReadingLease { reset } => {
                let m = Controller { config, runtime, phase: Phase::ReadingLease { reset } };
                match event {
                    Event::LeaseRead(Ok(Some(lease))) => {
                        let known = match m.runtime.reload_generation {
                            Some(generation) => generation == lease.reload_generation,
                            None => false,
                        };
                        if known {
                            return m.leased(Some(lease), reset);
                        }
                        Controller {
                            runtime: RuntimeState { reload_generation: Some(lease.reload_generation), ..m.runtime },
                            ..m
                        }.at(Phase::Reloading { reset, lease })
                    },
                    Event::LeaseRead(Ok(None)) => m.leased(None, reset),
                    Event::LeaseRead(Err(error)) => m.leaving(Err(error)),
                    _ => m,
                }
            },
            Phase::Reloading { reset, lease } => {
                let m = Controller { config, runtime, phase: Phase::Reloading { reset, lease } };
                match event {
                    Event::ConfigLoaded(Ok(file)) => {
                        let config = m.config.with_app_config(file);
                        let read = Controller { config, ..m };
                        if read.runtime.active && read.runtime.lid == LidState::Closed {
                            read.closed(Some(ClosedSleepState::Delay(now))).leased(Some(lease), reset)
                        } else {
                            read.leased(Some(lease), reset)
                        }
                    },
                    Event::ConfigLoaded(Err(_)) => m.leased(Some(lease), reset),
                    _ => m,
                }
            },
            Phase::Enabling => {
                let m = Controller { config, runtime, phase: Phase::Enabling };
                match event {
                    Event::CommandDone(Ok(())) => {
                        if m.runtime.lid == LidState::Closed {
                            m.at(Phase::DarkeningAtStart)
                        } else {
                            m.ready()
                        }
                    },
                    Event::CommandDone(Err(error)) => m.leaving(Err(error)),
                    _ => m,
                }
            },
            Phase::DarkeningAtStart => {
                let m = Controller { config, runtime, phase: Phase::DarkeningAtStart };
                match event {
                    Event::CommandDone(Ok(())) => m.closed(Some(ClosedSleepState::Delay(now))).ready(),
                    Event::CommandDone(Err(error)) => m.leaving(Err(error)),
                    _ => m,
                }
            },
            Phase::Restoring => {
                let m = Controller { config, runtime, phase: Phase::Restoring };
                match event {
                    Event::CommandDone(Ok(())) => m.ready(),
                    Event::CommandDone(Err(error)) => m.leaving(Err(error)),
                    _ => m,
                }
            },
            Phase::ReadingLid => {
                let m = Controller { config, runtime, phase: Phase::ReadingLid };
                match event {
                    Event::LidRead(Err(_)) => m.at(Phase::RoundStart),
                    Event::LidRead(Ok(lid)) => {
                        if lid == m.runtime.lid {
                            m.settled(now)
                        } else if lid == LidState::Closed {
                            m.at(Phase::Darkening)
                        } else {
                            m.closed(None).at(Phase::Lighting)
                        }
                    },
                    _ => m,
                }
            },
            Phase::Darkening => {
                let m = Controller { config, runtime, phase: Phase::Darkening };
                match event {
                    Event::CommandDone(_) => m.closed(Some(ClosedSleepState::Delay(now))).with_lid(
                        LidState::Closed,
                    ).settled(now),
                    _ => m,
                }
            },
            Phase::Lighting => {
                let m = Controller { config, runtime, phase: Phase::Lighting };
                match event {
                    Event::CommandDone(_) => m.with_lid(LidState::Open).settled(now),
                    _ => m,
                }
            },
            Phase::Scanning(state) => {
                let m = Controller { config, runtime, phase: Phase::Scanning(state) };
                match event {
                    Event::ProcessesFound(Ok(matches)) => m.stepped(
                        handle_process_scan(state, Some(matches.len()), now),
                        state,
                    ),
                    Event::ProcessesFound(Err(_)) => m.stepped(handle_process_scan(state, None, now), state),
                    _ => m,
                }
            },
            Phase::AllowingSleep => {
                let m = Controller { config, runtime, phase: Phase::AllowingSleep };
                match event {
                    Event::CommandDone(Ok(())) => m.at(Phase::Sleeping),
                    Event::CommandDone(Err(error)) => m.leaving(Err(error)),
                    _ => m,
                }
            },
            Phase::Sleeping => {
                let m = Controller { config, runtime, phase: Phase::Sleeping };
                match event {
                    Event::CommandDone(Ok(())) => m.at(Phase::Resting),
                    Event::CommandDone(Err(error)) => m.leaving(Err(error)),
                    _ => m,
                }
            },
            Phase::Resting => {
                let m = Controller { config, runtime, phase: Phase::Resting };
                match event {
                    Event::Waited => m.at(Phase::Reenabling),
                    _ => m,
                }
            },
            Phase::Reenabling => {
                let m = Controller { config, runtime, phase: Phase::Reenabling };
                match event {
                    Event::CommandDone(Ok(())) => m.closed(Some(ClosedSleepState::Delay(now))).at(Phase::RoundStart),
                    Event::CommandDone(Err(error)) => m.leaving(Err(error)),
                    _ => m,
                }
            },
            Phase::Leaving(result) => {
                match event {
                    Event::CommandDone(_) => Controller { config, runtime, phase: Phase::Finished(result) },
                    _ => Controller { config, runtime, phase: Phase::Leaving(result) },
                }
            },
            Phase::Finished(result) => Controller { config, runtime, phase: Phase::Finished(result) },
        }
    }
}

/// The controller must be run by the administrator, unless it changes nothing.
pub fn check_privilege(config: &Config, effective_user: u32) -> (r: Result<(), AppError>)
    ensures
        r == (if !config@.dry_run && effective_user != 0 {
            Err::<(), AppError>(AppError::RootRequired)
        } else {
            Ok::<(), AppError>(())
        }),
        r is Ok <==> config@.dry_run || effective_user == 0,
{
    if !config.dry_run && effective_user != 0 {
        return Err(AppError::RootRequired);
    }
    Ok(())
}

/// A phase in which the machine is on its way to a forced sleep.
pub open spec fn forces_sleep(phase: Phase) -> bool {
    phase is AllowingSleep || phase is Sleeping
}

/// The delay of a closed lid has passed.
pub open spec fn delay_has_passed(m: ControllerModel, now: Moment) -> bool {
    match m.runtime.closed_sleep {
        Some(ClosedSleepState::Delay(started)) => now.after(started).nanos >= m.config.delay.nanos,
        _ => m.phase is Darkening && m.config.delay.nanos == 0,
    }
}

/// An event after which sleep is due: no process was found after the delay or
/// after the grace, or the delay has passed and no process is waited for.
pub open spec fn sleep_is_due(m: ControllerModel, event: EventModel, now: Moment) -> bool {
    match m.phase {
        Phase::Scanning(state) => !(state is WaitingForProcesses) && event == EventModel::ProcessesFound(Some(0)),
        _ => !m.config.process_wait.active() && delay_has_passed(m, now),
    }
}

/// Sleep is forced only while the controller is in control and the lid is
/// closed, and only where the delay has passed and no process is to be waited
/// for, or where a look found no process after the delay or after the grace.
pub proof fn sleep_is_forced_only_when_due(m: ControllerModel, event: EventModel, now: Moment)
    requires
        is_sound(m),
        !forces_sleep(m.phase),
        forces_sleep(next(m, event, now).phase),
    ensures
        next(m, event, now).runtime.active,
        next(m, event, now).runtime.lid == LidState::Closed,
        sleep_is_due(m, event, now),
{
}

/// With the lid still closed after the delay, the machine is put to sleep where
/// no process is to be waited for, and else the processes are looked at.
pub proof fn passed_delay_is_acted_on(m: ControllerModel, started: Moment, now: Moment)
    requires
        is_sound(m),
        m.phase is ReadingLid,
        m.runtime.lid == LidState::Closed,
        m.runtime.closed_sleep == Some(ClosedSleepState::Delay(started)),
        now.after(started).nanos >= m.config.delay.nanos,
    ensures
        action_in(next(m, EventModel::LidRead(Some(LidState::Closed)), now)) == (if m.config.process_wait.active() {
            Action::FindProcesses
        } else {
            Action::Run(PowerCommand::AllowSleep)
        }),
        forces_sleep(next(m, EventModel::LidRead(Some(LidState::Closed)), now).phase)
            == !m.config.process_wait.active(),
{
}

/// With the lid still closed, processes that are waited for are looked at in
/// every round, and once more after the grace.
pub proof fn waiting_looks_again(m: ControllerModel, now: Moment)
    requires
        is_sound(m),
        m.phase is ReadingLid,
        m.runtime.lid == LidState::Closed,
        m.runtime.closed_sleep matches Some(ClosedSleepState::Delay(_)) ==> false,
        m.runtime.closed_sleep matches Some(ClosedSleepState::ProcessExitGrace(started)) ==> now.after(started).nanos
            >= m.config.process_wait.exit_grace.nanos,
    ensures
        action_in(next(m, EventModel::LidRead(Some(LidState::Closed)), now)) == Action::FindProcesses,
{
}

/// Where no process is found after the delay or after the grace, the machine is
/// put to sleep.
pub proof fn missing_processes_bring_sleep(m: ControllerModel, now: Moment)
    requires
        is_sound(m),
        m.phase matches Phase::Scanning(state) && !(state is WaitingForProcesses),
    ensures
        forces_sleep(next(m, EventModel::ProcessesFound(Some(0)), now).phase),
        action_in(next(m, EventModel::ProcessesFound(Some(0)), now)) == Action::Run(PowerCommand::AllowSleep),
{
}

/// A forced sleep takes its course: the machine may sleep, is put to sleep, and
/// after a pause is kept awake again, with the delay started anew.
pub proof fn forced_sleep_takes_its_course(
    m: ControllerModel,
    allowed_at: Moment,
    slept_at: Moment,
    rested_at: Moment,
    now: Moment,
)
    requires
        is_sound(m),
        m.phase is AllowingSleep,
    ensures
        ({
            let done = EventModel::CommandDone(Ok(()));
            let allowed = next(m, done, allowed_at);
            let slept = next(allowed, done, slept_at);
            let rested = next(slept, EventModel::Waited, rested_at);
            let awake = next(rested, done, now);
            &&& action_in(m) == Action::Run(PowerCommand::AllowSleep)
            &&& action_in(allowed) == Action::Run(PowerCommand::SleepNow)
            &&& action_in(slept) == Action::Wait(controller_config::secs(SLEEP_PAUSE_SECONDS))
            &&& action_in(rested) == Action::Run(PowerCommand::PreventSleep)
            &&& awake.phase is RoundStart
            &&& awake.runtime.active
            &&& awake.runtime.lid == LidState::Closed
            &&& awake.runtime.closed_sleep == Some(ClosedSleepState::Delay(now))
        }),
{
}

/// The processes are looked at after the delay only when it has passed, and
/// after the grace only when it has.
pub proof fn processes_are_looked_at_only_when_due(m: ControllerModel, event: EventModel, now: Moment)
    requires
        is_sound(m),
        !(m.phase is Scanning),
        next(m, event, now).phase is Scanning,
    ensures
        next(m, event, now).phase->Scanning_0 matches ClosedSleepState::Delay(started) ==> now.after(started).nanos
            >= m.config.delay.nanos && m.config.process_wait.active(),
        next(m, event, now).phase->Scanning_0 matches ClosedSleepState::ProcessExitGrace(started) ==> now.after(
            started,
        ).nanos >= m.config.process_wait.exit_grace.nanos,
{
}

/// While processes are found, or cannot be looked at, the machine stays awake.
pub proof fn running_processes_hold_sleep(m: ControllerModel, found: Option<usize>, now: Moment)
    requires
        is_sound(m),
        m.phase is Scanning,
        found != Some(0usize),
    ensures
        next(m, EventModel::ProcessesFound(found), now).phase is RoundStart,
        next(m, EventModel::ProcessesFound(found), now).runtime.closed_sleep == Some(
            match found {
                Some(count) => ClosedSleepState::WaitingForProcesses { last_count: count },
                None => m.phase->Scanning_0,
            },
        ),
{
}

/// When the last process is gone, the grace starts; it is not skipped.
pub proof fn grace_follows_waiting(m: ControllerModel, now: Moment)
    requires
        is_sound(m),
        m.phase matches Phase::Scanning(state) && state is WaitingForProcesses,
    ensures
        next(m, EventModel::ProcessesFound(Some(0)), now).phase is RoundStart,
        next(m, EventModel::ProcessesFound(Some(0)), now).runtime.closed_sleep == Some(
            ClosedSleepState::ProcessExitGrace(now),
        ),
{
}

/// Opening the lid cancels whatever the closed lid had started, and wakes the
/// display; whether waking worked does not matter.
pub proof fn opening_the_lid_cancels(m: ControllerModel, read: Moment, woken: Result<(), AppError>, now: Moment)
    requires
        is_sound(m),
        m.phase is ReadingLid,
        m.runtime.lid == LidState::Closed,
    ensures
        ({
            let opened = next(m, EventModel::LidRead(Some(LidState::Open)), read);
            let done = next(opened, EventModel::CommandDone(woken), now);
            &&& action_in(opened) == Action::Run(PowerCommand::WakeDisplay)
            &&& opened.runtime.closed_sleep is None
            &&& done.phase is RoundStart
            &&& done.runtime.lid == LidState::Open
            &&& done.runtime.closed_sleep is None
            &&& done.runtime.active
        }),
{
}

/// Closing the lid puts the display to sleep and starts the delay; whether the
/// display went to sleep does not matter.
pub proof fn closing_the_lid_starts_the_delay(
    m: ControllerModel,
    read: Moment,
    darkened: Result<(), AppError>,
    now: Moment,
)
    requires
        is_sound(m),
        m.phase is ReadingLid,
        m.runtime.lid == LidState::Open,
        m.config.delay.nanos > 0,
    ensures
        ({
            let closed = next(m, EventModel::LidRead(Some(LidState::Closed)), read);
            let done = next(closed, EventModel::CommandDone(darkened), now);
            &&& action_in(closed) == Action::Run(PowerCommand::SleepDisplay)
            &&& done.phase is RoundStart
            &&& done.runtime.lid == LidState::Closed
            &&& done.runtime.closed_sleep == Some(ClosedSleepState::Delay(now))
        }),
{
}

/// A configuration that cannot be read changes no setting.
pub proof fn failed_reload_keeps_settings(m: ControllerModel, now: Moment)
    requires
        m.phase is Reloading,
    ensures
        next(m, EventModel::ConfigLoaded(None), now).config == m.config,
{
}

/// A configuration that is read again while the lid is closed starts the delay
/// anew, as long as the controller stays in control.
pub proof fn reload_restarts_the_delay(m: ControllerModel, file: config::AppModel, now: Moment)
    requires
        is_sound(m),
        m.phase is Reloading,
        m.runtime.active,
        m.runtime.lid == LidState::Closed,
        next(m, EventModel::ConfigLoaded(Some(file)), now).runtime.active,
    ensures
        next(m, EventModel::ConfigLoaded(Some(file)), now).runtime.closed_sleep == Some(ClosedSleepState::Delay(now)),
        next(m, EventModel::ConfigLoaded(Some(file)), now).config == controller_config::reloaded(m.config, file),
{
}

/// Without a lease that is enabled, or on a request to reset, the controller
/// gives control up and lets the machine sleep as usual.
pub proof fn control_ends_without_lease(
    m: ControllerModel,
    reset: bool,
    lease: Option<LeaseRecord>,
    now: Moment,
)
    requires
        is_sound(m),
        m.phase == (Phase::ReadingLease { reset }),
        m.runtime.active,
        reset || lease is None || !(lease->0).enabled,
        lease matches Some(record) ==> m.runtime.reload_generation == Some(record.reload_generation),
    ensures
        ({
            let ended = next(m, EventModel::LeaseRead(Ok(lease)), now);
            &&& !ended.runtime.active
            &&& ended.runtime.closed_sleep is None
            &&& !m.config.keep_disabled_on_exit ==> action_in(ended) == Action::Run(PowerCommand::AllowSleep)
        }),
{
}

/// Control ends in the same way where the configuration was read first, whatever
/// came of that; a configuration that turns the application off ends it too.
pub proof fn control_ends_after_reload(
    m: ControllerModel,
    reset: bool,
    lease: LeaseRecord,
    loaded: Option<config::AppModel>,
    now: Moment,
)
    requires
        is_sound(m),
        m.phase == (Phase::Reloading { reset, lease }),
        m.runtime.active,
        reset || !lease.enabled || (loaded matches Some(file) && !file.enabled),
    ensures
        ({
            let ended = next(m, EventModel::ConfigLoaded(loaded), now);
            &&& !ended.runtime.active
            &&& ended.runtime.closed_sleep is None
            &&& !m.config.keep_disabled_on_exit ==> action_in(ended) == Action::Run(PowerCommand::AllowSleep)
        }),
{
}

/// A lease of another generation has the configuration read before anything else.
pub proof fn new_generation_reloads(m: ControllerModel, reset: bool, lease: LeaseRecord, now: Moment)
    requires
        m.phase == (Phase::ReadingLease { reset }),
        m.runtime.reload_generation != Some(lease.reload_generation),
    ensures
        action_in(next(m, EventModel::LeaseRead(Ok(Some(lease))), now)) == Action::LoadConfig,
        next(m, EventModel::LeaseRead(Ok(Some(lease))), now).runtime.reload_generation == Some(
            lease.reload_generation,
        ),
{
}

/// The machine is kept awake only by a controller that is in control.
pub proof fn override_needs_control(m: ControllerModel)
    requires
        is_sound(m),
        action_in(m) == Action::Run(PowerCommand::PreventSleep),
    ensures
        m.runtime.active,
{
}

/// A controller that was at work ends only after it has let the machine sleep
/// as usual, unless it was asked to leave the override.
pub proof fn leaving_restores_sleep(m: ControllerModel, event: EventModel, now: Moment)
    requires
        is_sound(m),
        !(m.phase is Finished),
        next(m, event, now).phase is Finished,
    ensures
        m.config.keep_disabled_on_exit || (action_in(m) == Action::Run(PowerCommand::AllowSleep) && event is CommandDone),
{
}

/// What is wanted of a controller whose control was just decided: the override is
/// set where control begins, and taken back where it ends, unless it is to stay;
/// in control it goes on to the lid, and otherwise it waits for the next round.
pub open spec fn is_wanted_after_lease(before: ControllerModel, after: ControllerModel) -> bool {
    action_in(after) == (if after.runtime.active && !before.runtime.active {
        Action::Run(PowerCommand::PreventSleep)
    } else if before.runtime.active && !after.runtime.active && !before.config.keep_disabled_on_exit {
        Action::Run(PowerCommand::AllowSleep)
    } else if after.runtime.active {
        Action::ReadLid
    } else {
        Action::CheckShutdown
    })
}

/// The controller is in control after a round's lease exactly where there is a
/// lease, it is enabled, the settings are enabled, and there was no request to
/// reset; whether it was in control before does not matter.
pub proof fn control_follows_the_lease(m: ControllerModel, reset: bool, lease: Option<LeaseRecord>, now: Moment)
    requires
        m.phase == (Phase::ReadingLease { reset }),
        lease matches Some(record) ==> m.runtime.reload_generation == Some(record.reload_generation),
    ensures
        ({
            let after = next(m, EventModel::LeaseRead(Ok(lease)), now);
            &&& after.runtime.active <==> lease is Some && (lease->0).enabled && m.config.enabled && !reset
            &&& is_wanted_after_lease(m, after)
            &&& after.runtime.closed_sleep == (if after.runtime.active == m.runtime.active {
                m.runtime.closed_sleep
            } else {
                None
            })
            &&& after.config == m.config
            &&& after.runtime.lid == m.runtime.lid
            &&& after.runtime.reload_generation == m.runtime.reload_generation
        }),
{
}

/// The same holds where the configuration was read first: by the settings of the
/// file where it could be read, and by the present ones where not.
pub proof fn control_follows_the_reload(
    m: ControllerModel,
    reset: bool,
    lease: LeaseRecord,
    loaded: Option<config::AppModel>,
    now: Moment,
)
    requires
        m.phase == (Phase::Reloading { reset, lease }),
    ensures
        ({
            let after = next(m, EventModel::ConfigLoaded(loaded), now);
            let enabled = match loaded {
                Some(file) => file.enabled,
                None => m.config.enabled,
            };
            &&& after.runtime.active <==> lease.enabled && enabled && !reset
            &&& is_wanted_after_lease(m, after)
            &&& after.runtime.closed_sleep == (if after.runtime.active != m.runtime.active {
                None
            } else if loaded is Some && m.runtime.active && m.runtime.lid == LidState::Closed {
                Some(ClosedSleepState::Delay(now))
            } else {
                m.runtime.closed_sleep
            })
            &&& loaded is None ==> after.config == m.config
            &&& after.runtime.lid == m.runtime.lid
            &&& after.runtime.reload_generation == m.runtime.reload_generation
        }),
{
}

/// A lease of another generation changes nothing yet but the generation.
pub proof fn new_generation_waits_for_the_file(m: ControllerModel, reset: bool, lease: LeaseRecord, now: Moment)
    requires
        m.phase == (Phase::ReadingLease { reset }),
        m.runtime.reload_generation != Some(lease.reload_generation),
    ensures
        ({
            let after = next(m, EventModel::LeaseRead(Ok(Some(lease))), now);
            &&& after.phase == (Phase::Reloading { reset, lease })
            &&& after.config == m.config
            &&& after.runtime.active == m.runtime.active
            &&& after.runtime.lid == m.runtime.lid
            &&& after.runtime.closed_sleep == m.runtime.closed_sleep
        }),
{
}

/// The lease, the file and the lid change what they are about, and nothing else
/// changes it: control by the lease or the file, the settings by the file, the
/// generation by the lease, and the lid when the display has followed it.
pub proof fn events_change_what_they_are_about(m: ControllerModel, event: EventModel, now: Moment)
    ensures
        next(m, event, now).runtime.active != m.runtime.active ==> (m.phase is ReadingLease && event is LeaseRead) || (
        m.phase is Reloading && event is ConfigLoaded),
        next(m, event, now).config != m.config ==> m.phase is Reloading && event is ConfigLoaded,
        next(m, event, now).runtime.reload_generation != m.runtime.reload_generation ==> m.phase is ReadingLease
            && event is LeaseRead,
        next(m, event, now).runtime.lid != m.runtime.lid ==> (m.phase is Darkening || m.phase is Lighting)
            && event is CommandDone,
{
}

/// An event answers what the controller wants.
pub open spec fn answers(action: Action, event: EventModel) -> bool {
    match event {
        EventModel::ShutdownChecked(_) => action is CheckShutdown,
        EventModel::Waited => action is Wait,
        EventModel::ResetChecked(_) => action is CheckReset,
        EventModel::ResetCleared(_) => action is ClearReset,
        EventModel::LeaseRead(_) => action is ReadLease,
        EventModel::ConfigLoaded(_) => action is LoadConfig,
        EventModel::CommandDone(_) => action is Run,
        EventModel::LidRead(_) => action is ReadLid,
        EventModel::ProcessesFound(_) => action is FindProcesses,
    }
}

/// What answers something else than the controller wants changes nothing, and a
/// controller that is done stays so.
pub proof fn unasked_answers_leave_the_controller(m: ControllerModel, event: EventModel, now: Moment)
    requires
        !answers(action_in(m), event),
    ensures
        next(m, event, now) == m,
{
}

/// A round goes from the wait for the next poll over a request to reset to the
/// lease. The request is taken away before the lease is read, and remembered.
pub proof fn rounds_lead_to_the_lease(m: ControllerModel, t: Moment)
    requires
        m.phase is RoundStart,
    ensures
        ({
            let waiting = next(m, EventModel::ShutdownChecked(false), t);
            let asking = next(waiting, EventModel::Waited, t);
            let calm = next(asking, EventModel::ResetChecked(Ok(false)), t);
            let asked = next(asking, EventModel::ResetChecked(Ok(true)), t);
            let cleared = next(asked, EventModel::ResetCleared(Ok(())), t);
            &&& action_in(waiting) == Action::Wait(m.config.poll)
            &&& action_in(asking) == Action::CheckReset
            &&& action_in(asked) == Action::ClearReset
            &&& calm.phase == (Phase::ReadingLease { reset: false })
            &&& cleared.phase == (Phase::ReadingLease { reset: true })
            &&& action_in(calm) == Action::ReadLease
            &&& action_in(cleared) == Action::ReadLease
            &&& calm.runtime == m.runtime && calm.config == m.config
            &&& cleared.runtime == m.runtime && cleared.config == m.config
        }),
{
}

/// A controller that is told to stop, or for which something fails that it cannot
/// do without, ends with that result. It lets the machine sleep as usual before,
/// whether that works or not, unless the override is to stay.
pub proof fn controller_ends_with_its_result(
    m: ControllerModel,
    event: EventModel,
    restored: Result<(), AppError>,
    result: Result<(), AppError>,
    t: Moment,
    now: Moment,
)
    requires
        ({
            ||| m.phase is RoundStart && event == EventModel::ShutdownChecked(true) && result == Ok::<(), AppError>(())
            ||| m.phase is CheckingReset && result is Err && event == EventModel::ResetChecked(Err(result->Err_0))
            ||| m.phase is ClearingReset && result is Err && event == EventModel::ResetCleared(Err(result->Err_0))
            ||| m.phase is ReadingLease && result is Err && event == EventModel::LeaseRead(Err(result->Err_0))
            ||| (m.phase is Enabling || m.phase is DarkeningAtStart || m.phase is Restoring) && result is Err && event
                == EventModel::CommandDone(result)
            ||| (m.phase is AllowingSleep || m.phase is Sleeping || m.phase is Reenabling) && result is Err && event
                == EventModel::CommandDone(result)
        }),
    ensures
        ({
            let leaving = next(m, event, t);
            let ended = next(leaving, EventModel::CommandDone(restored), now);
            &&& leaving.config == m.config && leaving.runtime == m.runtime
            &&& m.config.keep_disabled_on_exit ==> leaving.phase == Phase::Finished(result)
            &&& !m.config.keep_disabled_on_exit ==> action_in(leaving) == Action::Run(PowerCommand::AllowSleep)
            &&& ended.phase == Phase::Finished(result)
            &&& action_in(ended) == Action::Finish
        }),
{
}

/// Once the override is set, a controller with an open lid goes on to the lid. With
/// a closed one it first puts the display to sleep, and the delay starts.
pub proof fn taking_control_goes_on_to_the_lid(m: ControllerModel, t: Moment, now: Moment)
    requires
        is_sound(m),
        m.phase is Enabling,
    ensures
        ({
            let set = next(m, EventModel::CommandDone(Ok(())), t);
            let dark = next(set, EventModel::CommandDone(Ok(())), now);
            &&& set.runtime == m.runtime && set.config == m.config
            &&& m.runtime.lid == LidState::Open ==> action_in(set) == Action::ReadLid
            &&& m.runtime.lid == LidState::Closed ==> {
                &&& action_in(set) == Action::Run(PowerCommand::SleepDisplay)
                &&& action_in(dark) == Action::ReadLid
                &&& dark.runtime.closed_sleep == Some(ClosedSleepState::Delay(now))
                &&& dark.runtime.active && dark.runtime.lid == LidState::Closed
            }
        }),
{
    assert(m.runtime.lid == LidState::Open || m.runtime.lid == LidState::Closed);
}

/// Once control was given up, the next round comes, and nothing else changes.
pub proof fn giving_control_up_ends_the_round(m: ControllerModel, now: Moment)
    requires
        is_sound(m),
        m.phase is Restoring,
    ensures
        next(m, EventModel::CommandDone(Ok(())), now).phase is RoundStart,
        next(m, EventModel::CommandDone(Ok(())), now).runtime == m.runtime,
        next(m, EventModel::CommandDone(Ok(())), now).config == m.config,
{
}

/// A lid that is still open, or cannot be read, changes nothing.
pub proof fn open_or_unread_lid_changes_nothing(m: ControllerModel, now: Moment)
    requires
        m.phase is ReadingLid,
    ensures
        next(m, EventModel::LidRead(None), now).phase is RoundStart,
        next(m, EventModel::LidRead(None), now).runtime == m.runtime,
        m.runtime.lid == LidState::Open ==> {
            &&& next(m, EventModel::LidRead(Some(LidState::Open)), now).phase is RoundStart
            &&& next(m, EventModel::LidRead(Some(LidState::Open)), now).runtime == m.runtime
        },
{
}

/// A closed lid waits on in the same state until its time has come: the delay, or
/// the grace, after it started. Then, or while processes are waited for, the
/// processes are looked at in that state; where none are to be waited for after
/// the delay, sleep is forced.
pub proof fn closed_lid_waits_until_its_time(m: ControllerModel, state: ClosedSleepState, now: Moment)
    requires
        m.phase is ReadingLid,
        m.runtime.lid == LidState::Closed,
        m.runtime.closed_sleep == Some(state),
        state matches ClosedSleepState::Delay(started) ==> started.nanos <= now.nanos,
        state matches ClosedSleepState::ProcessExitGrace(started) ==> started.nanos <= now.nanos,
    ensures
        ({
            let after = next(m, EventModel::LidRead(Some(LidState::Closed)), now);
            let due = match state {
                ClosedSleepState::Delay(started) => now.nanos >= started.nanos + m.config.delay.nanos,
                ClosedSleepState::WaitingForProcesses { .. } => true,
                ClosedSleepState::ProcessExitGrace(started) => now.nanos >= started.nanos
                    + m.config.process_wait.exit_grace.nanos,
            };
            let waits = m.config.process_wait.enabled && m.config.process_wait.command_substrings.len() > 0;
            &&& after.config == m.config
            &&& after.runtime.active == m.runtime.active
            &&& !due ==> after.phase is RoundStart && after.runtime == m.runtime
            &&& due && state is Delay && !waits ==> after.phase is AllowingSleep
            &&& due && !(state is Delay && !waits) ==> after.phase == Phase::Scanning(state)
        }),
{
}

/// The first five matching processes are named, by number and command, in their
/// order; of the others it is said how many there are.
pub proof fn five_matches_are_named(processes: Seq<(u32, Seq<char>)>, i: int)
    requires
        0 <= i < processes.len(),
    ensures
        match_lines(processes).len() == (if processes.len() <= 5 {
            processes.len()
        } else {
            6
        }),
        i < 5 ==> match_lines(processes)[i] == "process match: pid="@ + number::decimal(processes[i].0 as nat) + " "@
            + processes[i].1,
        processes.len() > 5 ==> match_lines(processes)[5] == "process match: ... "@ + number::decimal(
            (processes.len() - 5) as nat,
        ) + " more"@,
{
}

/// After a forced sleep the machine rests for five seconds.
pub proof fn forced_sleep_rests_five_seconds(m: ControllerModel)
    requires
        m.phase is Resting,
    ensures
        action_in(m) matches Action::Wait(span) && span.nanos == 5_000_000_000,
{
}

/// An event holds what came of what the controller wanted: how many processes were
/// found, the configuration that was read, and whether a reading failed.
pub proof fn events_hold_what_came(
    file: AppConfig,
    lid: LidState,
    matches: Vec<ProcessMatch>,
    done: Result<(), AppError>,
    lease: Result<Option<LeaseRecord>, AppError>,
    failed: AppError,
    unseen: SystemError,
    stop: bool,
)
    ensures
        Event::ConfigLoaded(Ok(file)).model() == EventModel::ConfigLoaded(Some(file@)),
        Event::ConfigLoaded(Err(failed)).model() == EventModel::ConfigLoaded(None),
        Event::LidRead(Ok(lid)).model() == EventModel::LidRead(Some(lid)),
        Event::LidRead(Err(failed)).model() == EventModel::LidRead(None),
        Event::ProcessesFound(Ok(matches)).model() == EventModel::ProcessesFound(Some(matches@.len() as usize)),
        Event::ProcessesFound(Err(unseen)).model() == EventModel::ProcessesFound(None),
        Event::CommandDone(done).model() == EventModel::CommandDone(done),
        Event::ResetCleared(done).model() == EventModel::ResetCleared(done),
        Event::LeaseRead(lease).model() == EventModel::LeaseRead(lease),
        Event::ShutdownChecked(stop).model() == EventModel::ShutdownChecked(stop),
        Event::Waited.model() == EventModel::Waited,
{
}

} // verus!
