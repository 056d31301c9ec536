//! The course of a data acquisition: run follows run until the user quits or
//! the wanted number of runs has been taken.
//!
//! [`Status::run`] decides. Its caller performs each [`RunAction`] and comes back
//! with the [`RunEvent`] that it led to. Times are nanoseconds on a clock that
//! never goes back.
use crate::acquisition::{acquiring, data_taking_stops_when_told, events_to_check, take_accepts_all};
use crate::acquisition::{take_after, take_inv, TakeEvent, TakePhase, TakeState};
use crate::config::Conf;
use crate::device::Command;
use crate::event::EventContents;
use crate::processing::{total_event_size, RunInfo};
use crate::runs::{entry_names, entry_run, find_latest_run, latest_run, latest_run_is_greatest};
use crate::runs::{new_run_file_is_fresh, next_run};
use crate::runs::{run_file, run_file_is_numbered, run_file_name, run_number};
use crate::text::{all_digits, decimal, decimal_has_no_leading_zero, decimal_reads_back};
use crate::text::{decimal_text, digits_value, joined};
use vstd::prelude::*;
use vstd::string::*;

verus! {

/// The nanoseconds of a second.
pub const NANOS_PER_SEC: u64 = 1_000_000_000;

/// How often the statistics are gathered and shown, in seconds.
pub const TICK_SECS: u64 = 1;

/// The time from `begin` to `now`, or none if `now` comes first.
pub open spec fn elapsed(begin: u64, now: u64) -> nat {
    if now >= begin {
        (now - begin) as nat
    } else {
        0
    }
}

/// Measures the time from `begin` to `now`.
pub fn time_since(begin: u64, now: u64) -> (nanos: u64)
    ensures
        nanos == elapsed(begin, now),
{
    if now >= begin {
        now - begin
    } else {
        0
    }
}

/// Counts the events of a run.
#[derive(Debug, Clone, Copy, PartialEq, Eq, Structural)]
pub struct Counter {
    /// When counting began.
    pub t_begin: u64,
    pub n_events: usize,
    /// The sizes of all events together.
    pub total_size: usize,
}

/// A counter that begins at `now`.
pub open spec fn new_counter(now: u64) -> Counter {
    Counter { t_begin: now, n_events: 0, total_size: 0 }
}

/// Whether one more event, of the given size, can be counted.
pub open spec fn can_count(counter: Counter, size: int) -> bool {
    &&& counter.n_events < usize::MAX
    &&& counter.total_size + size <= usize::MAX
}

/// The counter after one more event.
pub open spec fn counted(counter: Counter, size: int) -> Counter {
    Counter {
        n_events: (counter.n_events + 1) as usize,
        total_size: (counter.total_size + size) as usize,
        ..counter
    }
}

impl Counter {
    /// Begins to count at `now`.
    pub fn new(now: u64) -> (counter: Counter)
        ensures
            counter == new_counter(now),
    {
        Counter { t_begin: now, n_events: 0, total_size: 0 }
    }

    /// Begins anew at `now`.
    pub fn reset(&mut self, now: u64)
        ensures
            *final(self) == new_counter(now),
    {
        *self = Counter::new(now);
    }

    /// Counts an event of the given size.
    pub fn increment(&mut self, size: usize)
        requires
            can_count(*old(self), size as int),
        ensures
            *final(self) == counted(*old(self), size as int),
    {
        self.n_events += 1;
        self.total_size += size;
    }
}

/// Why a run ends.
#[derive(Debug, Clone, Copy, PartialEq, Eq, Structural)]
pub enum StatusExit {
    Quit,
    Timeout,
}

/// A key of the keyboard.
#[derive(Debug, Clone, Copy, PartialEq, Eq, Structural)]
pub enum KeyCode {
    Char(char),
    /// Any key that stands for no character.
    Other,
}

/// What happened to a key.
#[derive(Debug, Clone, Copy, PartialEq, Eq, Structural)]
pub enum KeyEventKind {
    Press,
    Repeat,
    Release,
}

/// Something that happened to a key.
#[derive(Debug, Clone, Copy, PartialEq, Eq, Structural)]
pub struct KeyEvent {
    pub code: KeyCode,
    pub kind: KeyEventKind,
}

/// Something that happened at the terminal.
#[derive(Debug, Clone, Copy, PartialEq, Eq, Structural)]
pub enum TerminalEvent {
    Key(KeyEvent),
    /// Anything else, such as a change of size.
    Other,
}

/// What an attempt to receive statistics gives.
#[derive(Debug, Clone, Copy, PartialEq, Eq, Structural)]
pub enum StatsReply {
    Info(RunInfo),
    /// There are none at the moment.
    Empty,
    /// There will be none any more.
    Disconnected,
}

/// What the acquisition waits for.
#[derive(Debug, Clone, Copy, PartialEq, Eq, Structural)]
pub enum RunPhase {
    /// A new run begins.
    Ready,
    SpawningDataTaking,
    AwaitingEndpoints,
    SignallingStart,
    StartingAcquisition,
    ListingRuns,
    SpawningProcessing,
    AwaitingTick,
    /// The first statistics since the last tick are being received.
    FirstStats,
    MoreStats,
    PollingTerminal,
    ReadingClock,
    Drawing,
    ShuttingDown,
    StoppingDataTaking,
    /// The board with this index is being disarmed.
    Disarming(usize),
    JoiningDataTaking,
    JoiningProcessing,
    /// The board with this index is being closed.
    Closing(usize),
    Finished,
}

/// What the acquisition is told. What has gone wrong is an `E`.
#[derive(Debug)]
pub enum RunEvent<E> {
    /// The time.
    Clock(u64),
    /// What was wanted has been done.
    Done,
    /// What was wanted has failed because of this.
    Failed(E),
    /// The entries of the campaign's directory. An entry is `None` when it could
    /// not be read or its name is not Unicode.
    Runs(Vec<Option<String>>),
    Stats(StatsReply),
    /// What has happened at the terminal, if anything has.
    Terminal(Option<TerminalEvent>),
}

/// What the acquisition wants done. The name of a file is an `N`, and what has
/// gone wrong is an `E`.
#[derive(Debug)]
pub enum RunAction<N, E> {
    ReadClock,
    SpawnDataTaking,
    /// Wait until all endpoints are set up.
    AwaitEndpoints,
    /// Tell data taking that the acquisition starts.
    SignalStart,
    /// Send a command to the board with this handle.
    SendCommand(u64, Command),
    /// Make sure that the campaign's directory is there, and list its entries.
    ListRuns,
    /// Begin to process events and store them in this file.
    SpawnProcessing(N),
    AwaitTick,
    ReceiveStats,
    PollTerminal,
    Draw,
    /// Tell all threads to shut down, data taking among them.
    SetShutdown,
    /// Tell data taking to stop. Event processing goes on.
    StopDataTaking,
    JoinDataTaking,
    /// Hand over no more events, and wait until all are processed.
    JoinProcessing,
    /// Close the board with this handle.
    Close(u64),
    /// The acquisition is over.
    Finish,
    /// The acquisition is over because of this.
    Fail(E),
}

impl<E> View for RunAction<String, E> {
    type V = RunAction<Seq<char>, E>;

    open spec fn view(&self) -> RunAction<Seq<char>, E> {
        match *self {
            RunAction::ReadClock => RunAction::ReadClock,
            RunAction::SpawnDataTaking => RunAction::SpawnDataTaking,
            RunAction::AwaitEndpoints => RunAction::AwaitEndpoints,
            RunAction::SignalStart => RunAction::SignalStart,
            RunAction::SendCommand(handle, command) => RunAction::SendCommand(handle, command),
            RunAction::ListRuns => RunAction::ListRuns,
            RunAction::SpawnProcessing(name) => RunAction::SpawnProcessing(name@),
            RunAction::AwaitTick => RunAction::AwaitTick,
            RunAction::ReceiveStats => RunAction::ReceiveStats,
            RunAction::PollTerminal => RunAction::PollTerminal,
            RunAction::Draw => RunAction::Draw,
            RunAction::SetShutdown => RunAction::SetShutdown,
            RunAction::StopDataTaking => RunAction::StopDataTaking,
            RunAction::JoinDataTaking => RunAction::JoinDataTaking,
            RunAction::JoinProcessing => RunAction::JoinProcessing,
            RunAction::Close(handle) => RunAction::Close(handle),
            RunAction::Finish => RunAction::Finish,
            RunAction::Fail(error) => RunAction::Fail(error),
        }
    }
}

/// The state of an acquisition.
#[derive(Debug)]
pub struct Status {
    pub counter: Counter,
    /// When the run began.
    pub t_begin: u64,
    /// The length of a run in seconds.
    pub run_duration: u64,
    /// The number of the run in its campaign.
    pub run_num: usize,
    pub camp_num: usize,
    /// How many runs have been taken.
    pub curr_run: usize,
    /// How many events were waiting when the last one was processed.
    pub buffer_len: usize,
    pub config: Conf,
    /// The number and the handle of each board.
    pub boards: Vec<(usize, u64)>,
    /// How many runs are wanted, if there is a limit.
    pub max_runs: Option<usize>,
    pub exit: Option<StatusExit>,
    /// Whether the user has asked to quit the run.
    pub user_quit: bool,
    pub phase: RunPhase,
}

/// How many runs are wanted. Zero stands for no limit.
pub open spec fn run_limit(s: Status) -> usize {
    match s.max_runs {
        Some(limit) => limit,
        None => 0,
    }
}

/// Whether the run that began at `s.t_begin` has lasted its full time at `now`.
pub open spec fn run_is_over(s: Status, now: u64) -> bool {
    elapsed(s.t_begin, now) >= s.run_duration * NANOS_PER_SEC
}

/// The directory of a campaign.
pub open spec fn camp_dir(config: Conf) -> Seq<char> {
    config.run_settings.output_dir@ + "/camp"@ + decimal(config.run_settings.campaign_num as nat)
}

/// Whether a terminal event asks to quit: the key `q` is pressed.
pub open spec fn asks_to_quit(event: TerminalEvent) -> bool {
    event == TerminalEvent::Key(
        KeyEvent { code: KeyCode::Char('q'), kind: KeyEventKind::Press },
    )
}

/// What every operation of the acquisition keeps.
pub open spec fn run_inv(s: Status) -> bool {
    // The limit is reached by the last run alone.
    &&& run_limit(s) != 0 ==> s.curr_run <= run_limit(s)
    &&& run_limit(s) != 0 && s.curr_run == run_limit(s) ==> s.phase is Closing
        || s.phase == RunPhase::Finished
    &&& s.user_quit ==> s.exit == Some(StatusExit::Quit)
    &&& match s.phase {
        RunPhase::Disarming(i) => i < s.boards@.len() && s.exit is Some,
        RunPhase::Closing(i) => {
            &&& i < s.boards@.len()
            &&& s.exit is Some
            &&& s.exit == Some(StatusExit::Quit) || (run_limit(s) != 0 && s.curr_run == run_limit(
                s,
            ))
        },
        RunPhase::SpawningDataTaking => s.exit != Some(StatusExit::Timeout),
        RunPhase::AwaitingEndpoints => s.exit != Some(StatusExit::Timeout),
        RunPhase::SignallingStart => s.exit != Some(StatusExit::Timeout),
        RunPhase::StartingAcquisition => s.exit != Some(StatusExit::Timeout),
        RunPhase::ListingRuns => s.exit != Some(StatusExit::Timeout),
        RunPhase::SpawningProcessing => s.exit != Some(StatusExit::Timeout),
        RunPhase::AwaitingTick => s.exit != Some(StatusExit::Timeout),
        RunPhase::FirstStats => s.exit != Some(StatusExit::Timeout),
        RunPhase::MoreStats => s.exit != Some(StatusExit::Timeout),
        RunPhase::PollingTerminal => s.exit != Some(StatusExit::Timeout),
        RunPhase::ReadingClock => s.exit != Some(StatusExit::Timeout),
        RunPhase::ShuttingDown => s.exit == Some(StatusExit::Quit),
        RunPhase::StoppingDataTaking => s.exit is Some,
        RunPhase::JoiningDataTaking => s.exit is Some,
        RunPhase::JoiningProcessing => s.exit is Some,
        _ => true,
    }
}

/// Whether `event` can follow in the state `s`. There has to be a board to start
/// the acquisition with, and what is counted has to fit in a machine word.
pub open spec fn run_accepts<E>(s: Status, event: RunEvent<E>) -> bool {
    match (s.phase, event) {
        (RunPhase::Ready, RunEvent::Clock(_)) => true,
        (RunPhase::SpawningDataTaking, RunEvent::Done) => true,
        (RunPhase::AwaitingEndpoints, RunEvent::Done) => true,
        (RunPhase::SignallingStart, RunEvent::Done) => s.boards@.len() > 0,
        (RunPhase::StartingAcquisition, RunEvent::Done) => true,
        (RunPhase::StartingAcquisition, RunEvent::Failed(_)) => true,
        (RunPhase::ListingRuns, RunEvent::Runs(entries)) => next_run(entry_names(entries@))
            <= usize::MAX,
        (RunPhase::SpawningProcessing, RunEvent::Done) => true,
        (RunPhase::AwaitingTick, RunEvent::Done) => true,
        (RunPhase::FirstStats, RunEvent::Stats(reply)) => can_take_in(s, reply),
        (RunPhase::MoreStats, RunEvent::Stats(reply)) => can_take_in(s, reply),
        (RunPhase::PollingTerminal, RunEvent::Terminal(_)) => true,
        (RunPhase::PollingTerminal, RunEvent::Failed(_)) => true,
        (RunPhase::ReadingClock, RunEvent::Clock(_)) => true,
        (RunPhase::Drawing, RunEvent::Done) => true,
        (RunPhase::Drawing, RunEvent::Failed(_)) => true,
        (RunPhase::ShuttingDown, RunEvent::Done) => true,
        (RunPhase::StoppingDataTaking, RunEvent::Done) => true,
        (RunPhase::Disarming(_), RunEvent::Done) => true,
        (RunPhase::Disarming(_), RunEvent::Failed(_)) => true,
        (RunPhase::JoiningDataTaking, RunEvent::Done) => true,
        (RunPhase::JoiningDataTaking, RunEvent::Failed(_)) => true,
        (RunPhase::JoiningProcessing, RunEvent::Done) => s.exit == Some(StatusExit::Quit)
            || s.curr_run < usize::MAX,
        (RunPhase::JoiningProcessing, RunEvent::Failed(_)) => true,
        (RunPhase::Closing(_), RunEvent::Done) => true,
        (RunPhase::Closing(_), RunEvent::Failed(_)) => true,
        _ => false,
    }
}

/// Whether statistics can be added to what is counted.
pub open spec fn can_take_in(s: Status, reply: StatsReply) -> bool {
    match reply {
        StatsReply::Info(info) => can_count(s.counter, total_event_size(info)),
        _ => true,
    }
}

/// The state once statistics have been added to what is counted.
pub open spec fn with_stats(s: Status, info: RunInfo) -> Status {
    Status {
        counter: counted(s.counter, total_event_size(info)),
        buffer_len: info.event_channel_buf,
        ..s
    }
}

/// The next phase and action when the boards from index `i` on are to be
/// disarmed.
pub open spec fn disarm_from<E>(boards: Seq<(usize, u64)>, i: int) -> (
    RunPhase,
    RunAction<Seq<char>, E>,
) {
    if i < boards.len() {
        (
            RunPhase::Disarming(i as usize),
            RunAction::SendCommand(boards[i].1, Command::DisarmAcquisition),
        )
    } else {
        (RunPhase::JoiningDataTaking, RunAction::JoinDataTaking)
    }
}

/// The next phase and action when the boards from index `i` on are to be closed.
pub open spec fn close_from<E>(boards: Seq<(usize, u64)>, i: int) -> (
    RunPhase,
    RunAction<Seq<char>, E>,
) {
    if i < boards.len() {
        (RunPhase::Closing(i as usize), RunAction::Close(boards[i].1))
    } else {
        (RunPhase::Finished, RunAction::Finish)
    }
}

/// The state in which a run begins at `now`.
pub open spec fn run_begun(s: Status, now: u64) -> Status {
    Status {
        t_begin: now,
        exit: None,
        user_quit: false,
        counter: new_counter(now),
        buffer_len: 0,
        phase: RunPhase::SpawningDataTaking,
        ..s
    }
}

/// The state in which the run that follows those in the campaign's directory
/// has its number. A campaign without runs leaves the number as it is.
pub open spec fn numbered(s: Status, entries: Seq<Option<Seq<char>>>) -> Status {
    Status {
        run_num: if latest_run(entries) is Some {
            next_run(entries) as usize
        } else {
            s.run_num
        },
        ..s
    }
}

/// The step from the end of a run to what follows it: a user who has quit, or
/// the last of the wanted runs, ends the acquisition; otherwise the next run
/// begins.
pub open spec fn run_ended<E>(s: Status) -> (Status, RunAction<Seq<char>, E>) {
    if s.exit == Some(StatusExit::Quit) {
        let (phase, action) = close_from(s.boards@, 0);
        (Status { phase, ..s }, action)
    } else {
        let curr_run = (s.curr_run + 1) as usize;
        if curr_run == run_limit(s) && run_limit(s) != 0 {
            let (phase, action) = close_from(s.boards@, 0);
            (Status { curr_run, phase, ..s }, action)
        } else {
            (Status { curr_run, phase: RunPhase::Ready, ..s }, RunAction::ReadClock)
        }
    }
}

/// The next phase and action of a run that goes on until it has a reason to end.
pub open spec fn go_on_or_stop<E>(s: Status) -> (RunPhase, RunAction<Seq<char>, E>) {
    match s.exit {
        None => (RunPhase::AwaitingTick, RunAction::AwaitTick),
        Some(StatusExit::Quit) => (RunPhase::ShuttingDown, RunAction::SetShutdown),
        Some(StatusExit::Timeout) => (RunPhase::StoppingDataTaking, RunAction::StopDataTaking),
    }
}

/// The state `s` in another phase, and what is then to be done.
pub open spec fn on_to<E>(s: Status, next: (RunPhase, RunAction<Seq<char>, E>)) -> (
    Status,
    RunAction<Seq<char>, E>,
) {
    (Status { phase: next.0, ..s }, next.1)
}

/// What the state `s` becomes by `event`, and what is then to be done.
pub open spec fn run_step<E>(s: Status, event: RunEvent<E>) -> (Status, RunAction<Seq<char>, E>) {
    match (s.phase, event) {
        (_, RunEvent::Failed(error)) => on_to(s, (RunPhase::Finished, RunAction::Fail(error))),
        (RunPhase::Ready, RunEvent::Clock(now)) => (
            run_begun(s, now),
            RunAction::SpawnDataTaking,
        ),
        (RunPhase::SpawningDataTaking, _) => on_to(
            s,
            (RunPhase::AwaitingEndpoints, RunAction::AwaitEndpoints),
        ),
        (RunPhase::AwaitingEndpoints, _) => on_to(
            s,
            (RunPhase::SignallingStart, RunAction::SignalStart),
        ),
        (RunPhase::SignallingStart, _) => on_to(
            s,
            (
                RunPhase::StartingAcquisition,
                RunAction::SendCommand(s.boards@[0].1, Command::SwStartAcquisition),
            ),
        ),
        (RunPhase::StartingAcquisition, _) => on_to(
            s,
            (RunPhase::ListingRuns, RunAction::ListRuns),
        ),
        (RunPhase::ListingRuns, RunEvent::Runs(entries)) => on_to(
            numbered(s, entry_names(entries@)),
            (
                RunPhase::SpawningProcessing,
                RunAction::SpawnProcessing(run_file(next_run(entry_names(entries@)))),
            ),
        ),
        (RunPhase::SpawningProcessing, _) => on_to(s, go_on_or_stop(s)),
        (RunPhase::AwaitingTick, _) => on_to(s, (RunPhase::FirstStats, RunAction::ReceiveStats)),
        (RunPhase::FirstStats, RunEvent::Stats(reply)) => on_to(
            match reply {
                StatsReply::Info(info) => with_stats(s, info),
                StatsReply::Empty => s,
                StatsReply::Disconnected => Status { exit: Some(StatusExit::Quit), ..s },
            },
            (RunPhase::MoreStats, RunAction::ReceiveStats),
        ),
        (RunPhase::MoreStats, RunEvent::Stats(StatsReply::Info(info))) => on_to(
            with_stats(s, info),
            (RunPhase::MoreStats, RunAction::ReceiveStats),
        ),
        (RunPhase::MoreStats, _) => on_to(s, (RunPhase::PollingTerminal, RunAction::PollTerminal)),
        (RunPhase::PollingTerminal, RunEvent::Terminal(happened)) => on_to(
            terminal_handled(s, happened),
            (RunPhase::ReadingClock, RunAction::ReadClock),
        ),
        (RunPhase::ReadingClock, RunEvent::Clock(now)) => on_to(
            Status {
                exit: if !s.user_quit && run_is_over(s, now) {
                    Some(StatusExit::Timeout)
                } else {
                    s.exit
                },
                ..s
            },
            (RunPhase::Drawing, RunAction::Draw),
        ),
        (RunPhase::Drawing, _) => on_to(s, go_on_or_stop(s)),
        (RunPhase::ShuttingDown, _) => on_to(s, disarm_from(s.boards@, 0)),
        (RunPhase::StoppingDataTaking, _) => on_to(s, disarm_from(s.boards@, 0)),
        (RunPhase::Disarming(i), _) => on_to(s, disarm_from(s.boards@, i + 1)),
        (RunPhase::JoiningDataTaking, _) => on_to(
            s,
            (RunPhase::JoiningProcessing, RunAction::JoinProcessing),
        ),
        (RunPhase::JoiningProcessing, _) => run_ended(s),
        (RunPhase::Closing(i), _) => on_to(s, close_from(s.boards@, i + 1)),
        _ => on_to(s, (RunPhase::Finished, RunAction::Finish)),
    }
}

/// The state once the user has asked to quit.
pub open spec fn quit_by_user(s: Status) -> Status {
    Status { exit: Some(StatusExit::Quit), user_quit: true, ..s }
}

/// The state once a key is handled.
pub open spec fn key_handled(s: Status, key: KeyEvent) -> Status {
    if key.code == KeyCode::Char('q') {
        quit_by_user(s)
    } else {
        s
    }
}

/// The state once what has happened at the terminal is handled.
pub open spec fn terminal_handled(s: Status, happened: Option<TerminalEvent>) -> Status {
    if happened is Some && asks_to_quit(happened.unwrap()) {
        quit_by_user(s)
    } else {
        s
    }
}

/// The state that the events `es`, one after another, lead to from `s`.
pub open spec fn run_after<E>(s: Status, es: Seq<RunEvent<E>>) -> Status
    decreases es.len(),
{
    if es.len() == 0 {
        s
    } else {
        run_step(run_after(s, es.drop_last()), es.last()).0
    }
}

/// What is done while the events `es` come one after another from `s` on.
pub open spec fn run_actions<E>(s: Status, es: Seq<RunEvent<E>>) -> Seq<RunAction<Seq<char>, E>>
    decreases es.len(),
{
    if es.len() == 0 {
        seq![]
    } else {
        run_actions(s, es.drop_last()).push(run_step(run_after(s, es.drop_last()), es.last()).1)
    }
}

/// Whether the events `es` can come one after another from `s` on.
pub open spec fn run_accepts_all<E>(s: Status, es: Seq<RunEvent<E>>) -> bool
    decreases es.len(),
{
    es.len() > 0 ==> {
        &&& run_accepts_all(s, es.drop_last())
        &&& run_accepts(run_after(s, es.drop_last()), es.last())
    }
}

/// Whether `actions` ends with `tail`.
pub open spec fn ends_with<E>(
    actions: Seq<RunAction<Seq<char>, E>>,
    tail: Seq<RunAction<Seq<char>, E>>,
) -> bool {
    tail.len() <= actions.len() && actions.skip(actions.len() - tail.len()) == tail
}

/// The commands that disarm the boards, in order.
pub open spec fn disarm_all<E>(boards: Seq<(usize, u64)>) -> Seq<RunAction<Seq<char>, E>> {
    boards.map_values(
        |board: (usize, u64)|
            RunAction::<Seq<char>, E>::SendCommand(board.1, Command::DisarmAcquisition),
    )
}

/// The actions that close the boards, in order.
pub open spec fn close_all<E>(boards: Seq<(usize, u64)>) -> Seq<RunAction<Seq<char>, E>> {
    boards.map_values(|board: (usize, u64)| RunAction::<Seq<char>, E>::Close(board.1))
}

/// Whether none of `actions` closes a board.
pub open spec fn closes_nothing<E>(actions: Seq<RunAction<Seq<char>, E>>) -> bool {
    forall|k: int| 0 <= k < actions.len() ==> (#[trigger] actions[k]) !is Close
}

/// What is counted of the run that is under way after the events `es`: the
/// number and the sizes of all statistics that came since the run began.
pub open spec fn received<E>(s: Status, es: Seq<RunEvent<E>>) -> (nat, int)
    decreases es.len(),
{
    if es.len() == 0 || run_after(s, es.drop_last()).phase == RunPhase::Ready {
        (0, 0)
    } else {
        let (n, size) = received(s, es.drop_last());
        match es.last() {
            RunEvent::Stats(StatsReply::Info(info)) => (n + 1, size + total_event_size(info)),
            _ => (n, size),
        }
    }
}

/// No event breaks what holds of an acquisition.
pub proof fn run_step_keeps_inv<E>(s: Status, event: RunEvent<E>)
    requires
        run_inv(s),
        run_accepts(s, event),
    ensures
        run_inv(run_step(s, event).0),
{
    assert(s.boards.len() == s.boards@.len());
}

/// Whatever events come, the invariant holds, and the boards, the
/// configuration, the length of a run and the limit of runs stay as they are.
pub proof fn acquisitions_are_sound<E>(s: Status, es: Seq<RunEvent<E>>)
    requires
        run_inv(s),
        run_accepts_all(s, es),
    ensures
        ({
            let after = run_after(s, es);
            &&& run_inv(after)
            &&& after.boards == s.boards
            &&& after.config == s.config
            &&& after.camp_num == s.camp_num
            &&& after.run_duration == s.run_duration
            &&& after.max_runs == s.max_runs
        }),
    decreases es.len(),
{
    if es.len() > 0 {
        acquisitions_are_sound(s, es.drop_last());
        run_step_keeps_inv(run_after(s, es.drop_last()), es.last());
    }
}

/// Never more runs are taken than wanted; and an acquisition that ends well has
/// been quit or has taken all of them.
pub proof fn wanted_runs_are_taken<E>(s: Status, es: Seq<RunEvent<E>>)
    requires
        run_inv(s),
        run_accepts_all(s, es),
    ensures
        ({
            let after = run_after(s, es);
            &&& run_limit(s) != 0 ==> after.curr_run <= run_limit(s)
            &&& es.len() > 0 && run_actions(s, es).last() == RunAction::<Seq<char>, E>::Finish ==> {
                ||| after.exit == Some(StatusExit::Quit)
                ||| run_limit(s) != 0 && after.curr_run == run_limit(s)
            }
        }),
{
    acquisitions_are_sound(s, es);
    if es.len() > 0 {
        acquisitions_are_sound(s, es.drop_last());
    }
}

/// The number of runs taken grows by one with each run that lasts its full time,
/// and by nothing else.
pub proof fn runs_are_counted_one_by_one<E>(s: Status, event: RunEvent<E>)
    requires
        run_inv(s),
        run_accepts(s, event),
    ensures
        run_step(s, event).0.curr_run == s.curr_run + (if s.phase == RunPhase::JoiningProcessing
            && event == RunEvent::<E>::Done && s.exit == Some(StatusExit::Timeout) {
            1int
        } else {
            0
        }),
{
}

/// The boards are disarmed one after another, and closed one after another.
proof fn lemma_boards_in_turn<E>(s: Status, es: Seq<RunEvent<E>>)
    requires
        run_inv(s),
        s.phase == RunPhase::Ready,
        run_accepts_all(s, es),
    ensures
        ({
            let after = run_after(s, es);
            let actions = run_actions(s, es);
            let disarm = disarm_all(s.boards@);
            let close = close_all(s.boards@);
            &&& match after.phase {
                RunPhase::Disarming(i) => ends_with(actions, disarm.take(i + 1))
                    && closes_nothing(actions),
                RunPhase::JoiningDataTaking => ends_with(
                    actions,
                    disarm.push(RunAction::JoinDataTaking),
                ) && closes_nothing(actions),
                RunPhase::Closing(i) => ends_with(actions, close.take(i + 1)) && closes_nothing(
                    actions.take(actions.len() - (i + 1)),
                ),
                RunPhase::Finished => true,
                _ => closes_nothing(actions),
            }
            &&& es.len() > 0 && actions.last() == RunAction::<Seq<char>, E>::Finish ==> ends_with(
                actions,
                close.push(RunAction::Finish),
            ) && closes_nothing(actions.take(actions.len() - close.len() - 1))
        }),
    decreases es.len(),
{
    if es.len() > 0 {
        let rest = es.drop_last();
        lemma_boards_in_turn(s, rest);
        acquisitions_are_sound(s, rest);
        acquisitions_are_sound(s, es);
        let before = run_after(s, rest);
        let after = run_after(s, es);
        let actions = run_actions(s, es);
        let earlier = run_actions(s, rest);
        let disarm = disarm_all(s.boards@);
        let close = close_all(s.boards@);
        let n = s.boards@.len() as int;
        assert(s.boards.len() == s.boards@.len());
        assert(actions.drop_last() =~= earlier);
        match after.phase {
            RunPhase::Disarming(i) => {
                let tail = disarm.take(i + 1);
                lemma_tail_grows(earlier, disarm.take(i as int), actions.last());
                assert(disarm.take(i as int).push(actions.last()) =~= tail);
            },
            RunPhase::JoiningDataTaking => {
                assert(disarm.take(n) =~= disarm);
                lemma_tail_grows(earlier, disarm, actions.last());
            },
            RunPhase::Closing(i) => {
                let tail = close.take(i + 1);
                lemma_tail_grows(earlier, close.take(i as int), actions.last());
                assert(close.take(i as int).push(actions.last()) =~= tail);
                assert(actions.take(actions.len() - (i + 1)) =~= earlier.take(earlier.len() - i));
                assert(i == 0 ==> earlier.take(earlier.len() as int) =~= earlier);
            },
            _ => {},
        }
        if actions.last() == RunAction::<Seq<char>, E>::Finish {
            assert(close.take(n) =~= close);
            lemma_tail_grows(earlier, close, actions.last());
            assert(actions.take(actions.len() - n - 1) =~= earlier.take(earlier.len() - n));
            assert(n == 0 ==> earlier.take(earlier.len() as int) =~= earlier);
        }
    }
}

/// What ends with `tail` ends, with one more action, with one more action.
proof fn lemma_tail_grows<E>(
    actions: Seq<RunAction<Seq<char>, E>>,
    tail: Seq<RunAction<Seq<char>, E>>,
    action: RunAction<Seq<char>, E>,
)
    requires
        tail.len() == 0 || ends_with(actions, tail),
    ensures
        ends_with(actions.push(action), tail.push(action)),
{
    assert(actions.push(action).skip(actions.len() - tail.len()) =~= actions.skip(
        actions.len() - tail.len(),
    ).push(action));
    if tail.len() == 0 {
        assert(actions.skip(actions.len() as int) =~= tail);
    }
}

/// Data taking is waited for only right after every board has been disarmed, in
/// order.
pub proof fn boards_are_disarmed_first<E>(s: Status, es: Seq<RunEvent<E>>)
    requires
        run_inv(s),
        s.phase == RunPhase::Ready,
        run_accepts_all(s, es),
        es.len() > 0,
        run_actions(s, es).last() == RunAction::<Seq<char>, E>::JoinDataTaking,
    ensures
        ends_with(run_actions(s, es), disarm_all(s.boards@).push(RunAction::JoinDataTaking)),
{
    lemma_boards_in_turn(s, es);
    acquisitions_are_sound(s, es.drop_last());
}

/// An acquisition that ends well has just closed every board, in order, and none
/// before.
pub proof fn boards_are_closed_last<E>(s: Status, es: Seq<RunEvent<E>>)
    requires
        run_inv(s),
        s.phase == RunPhase::Ready,
        run_accepts_all(s, es),
        es.len() > 0,
        run_actions(s, es).last() == RunAction::<Seq<char>, E>::Finish,
    ensures
        ends_with(run_actions(s, es), close_all(s.boards@).push(RunAction::Finish)),
        closes_nothing(run_actions(s, es).take(run_actions(s, es).len() - s.boards@.len() - 1)),
{
    lemma_boards_in_turn(s, es);
}

/// Whether an action starts the acquisition.
pub open spec fn starts_acquisition<E>(action: RunAction<Seq<char>, E>) -> bool {
    action matches RunAction::SendCommand(_, command) && command == Command::SwStartAcquisition
}

/// Whether the action with index `k`, if it is one by which a run begins, stands
/// right after the one that has to come before it: data taking begins, all
/// endpoints are waited for, data taking is told of the start, the first board
/// starts the acquisition, the runs are listed, and event processing begins.
pub open spec fn begins_in_order<E>(
    boards: Seq<(usize, u64)>,
    actions: Seq<RunAction<Seq<char>, E>>,
    k: int,
) -> bool {
    match actions[k] {
        RunAction::AwaitEndpoints => k > 0 && actions[k - 1] is SpawnDataTaking,
        RunAction::SignalStart => k > 0 && actions[k - 1] is AwaitEndpoints,
        RunAction::SendCommand(handle, Command::SwStartAcquisition) => k > 0 && actions[k
            - 1] is SignalStart && handle == boards[0].1,
        RunAction::ListRuns => k > 0 && starts_acquisition(actions[k - 1]),
        RunAction::SpawnProcessing(_) => k > 0 && actions[k - 1] is ListRuns,
        _ => true,
    }
}

/// The phase tells the last action while a run begins and while it is waited for
/// its threads, and every action by which a run begins stands in order.
proof fn lemma_runs_begin_in_order<E>(s: Status, es: Seq<RunEvent<E>>)
    requires
        run_inv(s),
        s.phase == RunPhase::Ready,
        run_accepts_all(s, es),
    ensures
        ({
            let actions = run_actions(s, es);
            &&& actions.len() == es.len()
            &&& match run_after(s, es).phase {
                RunPhase::SpawningDataTaking => es.len() > 0 && actions.last() is SpawnDataTaking,
                RunPhase::AwaitingEndpoints => es.len() > 0 && actions.last() is AwaitEndpoints,
                RunPhase::SignallingStart => es.len() > 0 && actions.last() is SignalStart,
                RunPhase::StartingAcquisition => es.len() > 0 && starts_acquisition(
                    actions.last(),
                ),
                RunPhase::ListingRuns => es.len() > 0 && actions.last() is ListRuns,
                RunPhase::JoiningDataTaking => es.len() > 0 && actions.last() is JoinDataTaking,
                RunPhase::JoiningProcessing => es.len() > 1 && actions.last() is JoinProcessing
                    && actions[es.len() - 2] is JoinDataTaking,
                _ => true,
            }
            &&& forall|k: int| 0 <= k < es.len() ==> #[trigger] begins_in_order(s.boards@, actions, k)
        }),
    decreases es.len(),
{
    if es.len() > 0 {
        let rest = es.drop_last();
        lemma_runs_begin_in_order(s, rest);
        acquisitions_are_sound(s, rest);
        let actions = run_actions(s, es);
        let earlier = run_actions(s, rest);
        assert(actions.drop_last() =~= earlier);
        assert(rest.len() > 0 ==> actions[es.len() - 2] == earlier.last());
        assert forall|k: int| 0 <= k < es.len() implies #[trigger] begins_in_order(
            s.boards@,
            actions,
            k,
        ) by {
            if k < rest.len() {
                assert(begins_in_order(s.boards@, earlier, k));
                assert(actions[k] == earlier[k]);
                assert(k > 0 ==> actions[k - 1] == earlier[k - 1]);
            }
        }
    }
}

/// Every run begins in order: the acquisition is started by the first board, after
/// all endpoints are set up and before the runs are listed and event processing
/// begins; and between two starts of the acquisition data taking begins anew.
pub proof fn runs_begin_in_order<E>(s: Status, es: Seq<RunEvent<E>>)
    requires
        run_inv(s),
        s.phase == RunPhase::Ready,
        run_accepts_all(s, es),
    ensures
        ({
            let actions = run_actions(s, es);
            &&& forall|k: int|
                0 <= k < actions.len() ==> #[trigger] begins_in_order(s.boards@, actions, k)
            &&& forall|k: int|
                0 <= k < actions.len() && starts_acquisition(#[trigger] actions[k]) ==> {
                    &&& k >= 3
                    &&& actions[k] == RunAction::<Seq<char>, E>::SendCommand(
                        s.boards@[0].1,
                        Command::SwStartAcquisition,
                    )
                    &&& actions[k - 1] is SignalStart
                    &&& actions[k - 2] is AwaitEndpoints
                    &&& actions[k - 3] is SpawnDataTaking
                }
            &&& forall|i: int, j: int|
                0 <= i < j < actions.len() && starts_acquisition(#[trigger] actions[i])
                    && starts_acquisition(#[trigger] actions[j]) ==> i < j - 3 && actions[j
                    - 3] is SpawnDataTaking
        }),
{
    lemma_runs_begin_in_order(s, es);
    let actions = run_actions(s, es);
    assert forall|k: int|
        0 <= k < actions.len() && starts_acquisition(#[trigger] actions[k]) implies k >= 3
        && actions[k] == RunAction::<Seq<char>, E>::SendCommand(
        s.boards@[0].1,
        Command::SwStartAcquisition,
    ) && actions[k - 1] is SignalStart && actions[k - 2] is AwaitEndpoints && actions[k
        - 3] is SpawnDataTaking by {
        assert(begins_in_order(s.boards@, actions, k));
        assert(begins_in_order(s.boards@, actions, k - 1));
        assert(begins_in_order(s.boards@, actions, k - 2));
    }
    assert forall|i: int, j: int|
        0 <= i < j < actions.len() && starts_acquisition(#[trigger] actions[i])
            && starts_acquisition(#[trigger] actions[j]) implies i < j - 3 && actions[j
        - 3] is SpawnDataTaking by {
        assert(actions[j - 1] is SignalStart);
    }
}

/// Whether the boards are being closed at index `k` of `actions` because both
/// threads of the last run have ended: nothing but closing came since.
pub open spec fn closed_after_threads<E>(actions: Seq<RunAction<Seq<char>, E>>, k: int) -> bool {
    exists|j: int|
        {
            &&& 0 < j < k
            &&& (#[trigger] actions[j]) is JoinProcessing
            &&& actions[j - 1] is JoinDataTaking
            &&& forall|m: int| j < m <= k ==> (#[trigger] actions[m]) is Close
        }
}

/// No board is closed before data taking and event processing of the last run
/// have ended.
pub proof fn boards_are_closed_after_the_threads<E>(s: Status, es: Seq<RunEvent<E>>)
    requires
        run_inv(s),
        s.phase == RunPhase::Ready,
        run_accepts_all(s, es),
    ensures
        ({
            let actions = run_actions(s, es);
            &&& forall|k: int|
                0 <= k < actions.len() && (#[trigger] actions[k]) is Close ==> closed_after_threads(
                    actions,
                    k,
                )
            &&& run_after(s, es).phase is Closing ==> es.len() > 0 && actions.last() is Close
        }),
    decreases es.len(),
{
    if es.len() > 0 {
        let rest = es.drop_last();
        boards_are_closed_after_the_threads(s, rest);
        lemma_runs_begin_in_order(s, rest);
        lemma_runs_begin_in_order(s, es);
        acquisitions_are_sound(s, rest);
        let actions = run_actions(s, es);
        let earlier = run_actions(s, rest);
        let before = run_after(s, rest);
        let last = actions.len() - 1;
        assert(actions.drop_last() =~= earlier);
        assert forall|k: int|
            0 <= k < actions.len() && (#[trigger] actions[k]) is Close implies closed_after_threads(
            actions,
            k,
        ) by {
            if k == last && before.phase == RunPhase::JoiningProcessing {
                assert(actions[last - 1] == earlier.last());
                assert(actions[last - 2] == earlier[rest.len() - 2]);
                assert(actions[last - 1] is JoinProcessing);
            } else {
                let before_k = if k == last {
                    k - 1
                } else {
                    k
                };
                assert(actions[before_k] == earlier[before_k]);
                assert(closed_after_threads(earlier, before_k));
                let j = choose|j: int|
                    {
                        &&& 0 < j < before_k
                        &&& (#[trigger] earlier[j]) is JoinProcessing
                        &&& earlier[j - 1] is JoinDataTaking
                        &&& forall|m: int| j < m <= before_k ==> (#[trigger] earlier[m]) is Close
                    };
                assert(actions[j] == earlier[j] && actions[j - 1] == earlier[j - 1]);
                assert forall|m: int| j < m <= k implies (#[trigger] actions[m]) is Close by {
                    if m <= before_k {
                        assert(actions[m] == earlier[m]);
                    }
                }
            }
        }
    }
}

/// The counter holds the number and the sizes of the events whose statistics
/// came in since the run began.
pub proof fn counter_counts_the_run<E>(s: Status, es: Seq<RunEvent<E>>)
    requires
        s.phase == RunPhase::Ready,
        s.counter.n_events == 0,
        s.counter.total_size == 0,
        run_accepts_all(s, es),
    ensures
        run_after(s, es).counter.n_events == received(s, es).0,
        run_after(s, es).counter.total_size == received(s, es).1,
    decreases es.len(),
{
    if es.len() > 0 {
        counter_counts_the_run(s, es.drop_last());
    }
}

/// A run that the user has not quit ends by itself as soon as it is seen to have
/// lasted its full time, and never before.
pub proof fn full_runs_time_out<E>(s: Status, event: RunEvent<E>)
    requires
        run_inv(s),
        run_accepts(s, event),
        s.exit != Some(StatusExit::Timeout),
    ensures
        run_step(s, event).0.exit == Some(StatusExit::Timeout) <==> (s.phase
            == RunPhase::ReadingClock && !s.user_quit && (event matches RunEvent::Clock(now)
            && run_is_over(s, now))),
{
}

/// A user who has quit a run is not overruled: whatever events come, the run
/// stays quit and no other run begins.
pub proof fn quitting_is_final<E>(s: Status, es: Seq<RunEvent<E>>)
    requires
        run_inv(s),
        s.phase != RunPhase::Ready,
        s.user_quit,
        run_accepts_all(s, es),
    ensures
        run_after(s, es).user_quit,
        run_after(s, es).exit == Some(StatusExit::Quit),
        run_after(s, es).phase != RunPhase::Ready,
        forall|k: int|
            0 <= k < run_actions(s, es).len() ==> (#[trigger] run_actions(s, es)[k])
                !is SpawnDataTaking,
    decreases es.len(),
{
    if es.len() > 0 {
        let rest = es.drop_last();
        quitting_is_final(s, rest);
        acquisitions_are_sound(s, rest);
        assert forall|k: int| 0 <= k < run_actions(s, es).len() implies (
        #[trigger] run_actions(s, es)[k]) !is SpawnDataTaking by {
            if k < run_actions(s, rest).len() {
                assert(run_actions(s, es)[k] == run_actions(s, rest)[k]);
            }
        }
    }
}

/// Whether an action tells data taking to stop.
pub open spec fn stops_data_taking<E>(action: RunAction<Seq<char>, E>) -> bool {
    action is StopDataTaking || action is SetShutdown
}

/// Whether data taking has been told to stop since it last began.
pub open spec fn told_to_stop<E>(actions: Seq<RunAction<Seq<char>, E>>) -> bool {
    exists|k: int|
        {
            &&& 0 <= k < actions.len()
            &&& stops_data_taking(#[trigger] actions[k])
            &&& forall|j: int| k < j < actions.len() ==> (#[trigger] actions[j]) !is SpawnDataTaking
        }
}

/// What has been told stays told while nothing begins anew.
proof fn lemma_still_told<E>(
    actions: Seq<RunAction<Seq<char>, E>>,
    action: RunAction<Seq<char>, E>,
)
    requires
        stops_data_taking(action) || (told_to_stop(actions) && action !is SpawnDataTaking),
    ensures
        told_to_stop(actions.push(action)),
{
    let longer = actions.push(action);
    if stops_data_taking(action) {
        assert(stops_data_taking(longer[actions.len() as int]));
    } else {
        let k = choose|k: int|
            {
                &&& 0 <= k < actions.len()
                &&& stops_data_taking(#[trigger] actions[k])
                &&& forall|j: int|
                    k < j < actions.len() ==> (#[trigger] actions[j]) !is SpawnDataTaking
            };
        assert(stops_data_taking(longer[k]));
        assert forall|j: int| k < j < longer.len() implies (
        #[trigger] longer[j]) !is SpawnDataTaking by {
            if j < actions.len() {
                assert(longer[j] == actions[j]);
            }
        }
    }
}

/// Data taking has been told to stop in every phase from then on until it has
/// ended.
proof fn lemma_told_to_stop<E>(s: Status, es: Seq<RunEvent<E>>)
    requires
        run_inv(s),
        s.phase == RunPhase::Ready,
        run_accepts_all(s, es),
    ensures
        match run_after(s, es).phase {
            RunPhase::ShuttingDown => told_to_stop(run_actions(s, es)),
            RunPhase::StoppingDataTaking => told_to_stop(run_actions(s, es)),
            RunPhase::Disarming(_) => told_to_stop(run_actions(s, es)),
            RunPhase::JoiningDataTaking => told_to_stop(run_actions(s, es)),
            _ => true,
        },
    decreases es.len(),
{
    if es.len() > 0 {
        let rest = es.drop_last();
        lemma_told_to_stop(s, rest);
        acquisitions_are_sound(s, rest);
        let action = run_step(run_after(s, rest), es.last()).1;
        if stops_data_taking(action) || (told_to_stop(run_actions(s, rest))
            && action !is SpawnDataTaking) {
            lemma_still_told(run_actions(s, rest), action);
        }
    }
}

/// Data taking is waited for only after it has been told to stop, however the
/// run ends.
pub proof fn data_taking_is_stopped_first<E>(s: Status, es: Seq<RunEvent<E>>)
    requires
        run_inv(s),
        s.phase == RunPhase::Ready,
        run_accepts_all(s, es),
        es.len() > 0,
        run_actions(s, es).last() == RunAction::<Seq<char>, E>::JoinDataTaking,
    ensures
        told_to_stop(run_actions(s, es)),
{
    lemma_told_to_stop(s, es);
    acquisitions_are_sound(s, es.drop_last());
}

/// Waiting for data taking comes to an end: data taking that learns, whenever it
/// asks, whether it has been told to stop, stops after a bounded number of
/// events.
pub proof fn data_taking_is_not_waited_for_in_vain<E>(
    s: Status,
    es: Seq<RunEvent<E>>,
    taker: TakeState,
    taken: Seq<(Seq<EventContents>, TakeEvent)>,
)
    requires
        run_inv(s),
        s.phase == RunPhase::Ready,
        run_accepts_all(s, es),
        es.len() > 0,
        run_actions(s, es).last() == RunAction::<Seq<char>, E>::JoinDataTaking,
        take_inv(taker),
        acquiring(taker),
        take_accepts_all(taker, taken),
        forall|i: int|
            0 <= i < taken.len() ==> ((#[trigger] taken[i]).1 matches TakeEvent::Shutdown(told)
                ==> told == told_to_stop(run_actions(s, es))),
    ensures
        take_after(taker, taken).phase == TakePhase::Stopped || events_to_check(
            take_after(taker, taken),
        ) + taken.len() <= events_to_check(taker),
{
    data_taking_is_stopped_first(s, es);
    assert forall|i: int| 0 <= i < taken.len() implies (#[trigger] taken[i]).1
        != TakeEvent::Shutdown(false) by {}
    data_taking_stops_when_told(taker, taken);
}

/// All threads are told to shut down only when the user quits or event
/// processing is gone. A run that times out lets event processing go on until no
/// more events come.
pub proof fn only_quitting_shuts_down<E>(s: Status, event: RunEvent<E>)
    requires
        run_inv(s),
        run_accepts(s, event),
        run_step(s, event).1 is SetShutdown,
    ensures
        s.exit == Some(StatusExit::Quit),
{
}

/// The acquisition reports what has gone wrong, and ends.
pub proof fn failures_are_reported<E>(s: Status, error: E)
    ensures
        run_step(s, RunEvent::Failed(error)).1 == RunAction::<Seq<char>, E>::Fail(error),
        run_step(s, RunEvent::Failed(error)).0.phase == RunPhase::Finished,
{
}

/// How many runs were begun.
pub open spec fn begun<E>(actions: Seq<RunAction<Seq<char>, E>>) -> nat
    decreases actions.len(),
{
    if actions.len() == 0 {
        0
    } else {
        begun(actions.drop_last()) + if actions.last() is SpawnDataTaking {
            1nat
        } else {
            0
        }
    }
}

/// Every run that was begun has been counted, but for one that is under way or
/// was quit.
proof fn lemma_begun_runs<E>(s: Status, es: Seq<RunEvent<E>>)
    requires
        run_inv(s),
        s.phase == RunPhase::Ready,
        run_accepts_all(s, es),
    ensures
        ({
            let after = run_after(s, es);
            let n = begun(run_actions(s, es)) + s.curr_run;
            match after.phase {
                RunPhase::Ready => n == after.curr_run,
                RunPhase::Closing(_) => after.exit == Some(StatusExit::Quit) || n
                    == after.curr_run,
                RunPhase::Finished => {
                    ||| after.exit == Some(StatusExit::Quit)
                    ||| n == after.curr_run
                    ||| es.len() > 0 && run_actions(s, es).last() is Fail
                },
                _ => n == after.curr_run + 1,
            }
        }),
    decreases es.len(),
{
    if es.len() > 0 {
        let rest = es.drop_last();
        lemma_begun_runs(s, rest);
        acquisitions_are_sound(s, rest);
        assert(run_actions(s, es).drop_last() =~= run_actions(s, rest));
    }
}

/// An acquisition with a limit that ends well, and that nobody has quit, has begun
/// and completed exactly that many runs.
pub proof fn limit_is_the_number_of_runs<E>(s: Status, es: Seq<RunEvent<E>>)
    requires
        run_inv(s),
        s.phase == RunPhase::Ready,
        s.curr_run == 0,
        run_accepts_all(s, es),
        es.len() > 0,
        run_actions(s, es).last() == RunAction::<Seq<char>, E>::Finish,
        run_after(s, es).exit != Some(StatusExit::Quit),
    ensures
        run_limit(s) != 0,
        begun(run_actions(s, es)) == run_limit(s),
        run_after(s, es).curr_run == run_limit(s),
        run_after(s, es).exit == Some(StatusExit::Timeout),
{
    lemma_begun_runs(s, es);
    wanted_runs_are_taken(s, es);
    acquisitions_are_sound(s, es.drop_last());
}

/// The state of an acquisition before its first run.
pub open spec fn fresh_status(
    config: Conf,
    boards: Vec<(usize, u64)>,
    max_runs: Option<usize>,
    now: u64,
) -> Status {
    Status {
        counter: new_counter(now),
        t_begin: now,
        run_duration: config.run_settings.run_duration,
        run_num: 0,
        camp_num: config.run_settings.campaign_num,
        curr_run: 0,
        buffer_len: 0,
        config,
        boards,
        max_runs,
        exit: None,
        user_quit: false,
        phase: RunPhase::Ready,
    }
}

/// An acquisition takes its settings from the configuration, and the boards and the
/// limit of runs as they are given; nothing is counted yet.
pub proof fn acquisitions_start_as_configured(
    config: Conf,
    boards: Vec<(usize, u64)>,
    max_runs: Option<usize>,
    now: u64,
)
    ensures
        ({
            let s = fresh_status(config, boards, max_runs, now);
            &&& s.run_duration == config.run_settings.run_duration
            &&& s.camp_num == config.run_settings.campaign_num
            &&& s.config == config && s.boards == boards && s.max_runs == max_runs
            &&& s.t_begin == now && s.counter.t_begin == now
            &&& s.counter.n_events == 0 && s.counter.total_size == 0
            &&& s.run_num == 0 && s.curr_run == 0 && s.buffer_len == 0
            &&& s.exit is None && !s.user_quit && s.phase == RunPhase::Ready
        }),
{
}

/// When the run under way began: at the last clock reading with which a run was
/// begun, or at `s.t_begin` before the first.
pub open spec fn begun_at<E>(s: Status, es: Seq<RunEvent<E>>) -> u64
    decreases es.len(),
{
    if es.len() == 0 {
        s.t_begin
    } else if run_after(s, es.drop_last()).phase == RunPhase::Ready {
        match es.last() {
            RunEvent::Clock(now) => now,
            _ => begun_at(s, es.drop_last()),
        }
    } else {
        begun_at(s, es.drop_last())
    }
}

/// A run keeps the time at which it began.
proof fn lemma_begin_is_kept<E>(s: Status, es: Seq<RunEvent<E>>)
    requires
        run_accepts_all(s, es),
    ensures
        run_after(s, es).t_begin == begun_at(s, es),
    decreases es.len(),
{
    if es.len() > 0 {
        lemma_begin_is_kept(s, es.drop_last());
    }
}

/// Under every configuration, a run that the user has not quit is ended by the
/// clock exactly when the configured number of seconds has passed since the run
/// began. Otherwise the clock changes no reason to end, and a run without one waits
/// for the next tick once the screen is drawn.
pub proof fn runs_last_as_configured<E>(
    config: Conf,
    boards: Vec<(usize, u64)>,
    max_runs: Option<usize>,
    start: u64,
    es: Seq<RunEvent<E>>,
    now: u64,
)
    requires
        run_accepts_all(fresh_status(config, boards, max_runs, start), es),
        run_after(fresh_status(config, boards, max_runs, start), es).phase
            == RunPhase::ReadingClock,
    ensures
        ({
            let s = fresh_status(config, boards, max_runs, start);
            let before = run_after(s, es);
            let (after, action) = run_step(before, RunEvent::<E>::Clock(now));
            let (next, then) = run_step(after, RunEvent::<E>::Done);
            let lasted = now - begun_at(s, es);
            let full = config.run_settings.run_duration * 1_000_000_000;
            &&& action is Draw
            &&& !before.user_quit && (lasted >= full || full == 0) ==> after.exit == Some(
                StatusExit::Timeout,
            ) && then is StopDataTaking
            &&& before.user_quit || (lasted < full && full > 0) ==> after.exit == before.exit
            &&& after.exit is None ==> then is AwaitTick && next.phase == RunPhase::AwaitingTick
        }),
{
    let s = fresh_status(config, boards, max_runs, start);
    acquisitions_are_sound(s, es);
    lemma_begin_is_kept(s, es);
}

/// In any state that waits for the clock, a run that the user has not quit is ended
/// exactly when at least `run_duration` seconds have passed since `t_begin`; so the
/// least time at which it is ended tells how long it is to last.
pub proof fn run_duration_decides<E>(s: Status, now: u64)
    requires
        run_inv(s),
        s.phase == RunPhase::ReadingClock,
        !s.user_quit,
    ensures
        run_step(s, RunEvent::<E>::Clock(now)).0.exit == Some(StatusExit::Timeout) <==> (if now
            >= s.t_begin {
            now - s.t_begin >= s.run_duration * 1_000_000_000
        } else {
            s.run_duration == 0
        }),
{
}

/// Of two runs that began together the one that is to last longer goes on when the
/// other one is ended: each is ended in its own time.
pub proof fn longer_runs_are_ended_later<E>(shorter: Status, longer: Status, now: u64)
    requires
        run_inv(shorter),
        run_inv(longer),
        shorter.phase == RunPhase::ReadingClock,
        longer.phase == RunPhase::ReadingClock,
        !shorter.user_quit,
        !longer.user_quit,
        shorter.t_begin == longer.t_begin,
        shorter.run_duration < longer.run_duration,
        now == shorter.t_begin + shorter.run_duration * 1_000_000_000,
    ensures
        run_step(shorter, RunEvent::<E>::Clock(now)).0.exit == Some(StatusExit::Timeout),
        run_step(longer, RunEvent::<E>::Clock(now)).0.exit != Some(StatusExit::Timeout),
{
}

/// A run begins with the clock: it has lasted no time, nothing is counted, and it
/// has no reason to end.
pub proof fn runs_begin_anew<E>(s: Status, now: u64)
    requires
        s.phase == RunPhase::Ready,
    ensures
        ({
            let (after, action) = run_step(s, RunEvent::<E>::Clock(now));
            &&& action is SpawnDataTaking
            &&& after.t_begin == now && after.counter.t_begin == now
            &&& after.counter.n_events == 0 && after.counter.total_size == 0
            &&& after.buffer_len == 0
            &&& after.exit is None && !after.user_quit
            &&& after.run_num == s.run_num && after.curr_run == s.curr_run
        }),
{
}

/// Statistics add one event with the sizes of both its halves, and tell how many
/// events are waiting; whatever else the first receive of a tick gives adds nothing,
/// and a lost channel quits the run.
pub proof fn statistics_are_added<E>(s: Status, reply: StatsReply)
    requires
        run_inv(s),
        s.phase == RunPhase::FirstStats || s.phase == RunPhase::MoreStats,
        run_accepts(s, RunEvent::<E>::Stats(reply)),
    ensures
        ({
            let (after, action) = run_step(s, RunEvent::<E>::Stats(reply));
            &&& after.counter.t_begin == s.counter.t_begin
            &&& after.phase == (if s.phase == RunPhase::FirstStats || reply is Info {
                RunPhase::MoreStats
            } else {
                RunPhase::PollingTerminal
            })
            &&& match reply {
                StatsReply::Info(info) => {
                    &&& after.counter.n_events == s.counter.n_events + 1
                    &&& after.counter.total_size == s.counter.total_size
                        + info.board0_info.event_size + info.board1_info.event_size
                    &&& after.buffer_len == info.event_channel_buf
                    &&& after.exit == s.exit
                    &&& action is ReceiveStats
                },
                _ => {
                    &&& after.counter == s.counter && after.buffer_len == s.buffer_len
                    &&& after.exit == (if s.phase == RunPhase::FirstStats
                        && reply == StatsReply::Disconnected {
                        Some(StatusExit::Quit)
                    } else {
                        s.exit
                    })
                    &&& if s.phase == RunPhase::FirstStats {
                        action is ReceiveStats
                    } else {
                        action is PollTerminal
                    }
                },
            }
        }),
{
}

/// The counts change with statistics and with the beginning of a run alone, and the
/// number of the run with the listing of runs alone.
pub proof fn counts_change_only_by_statistics<E>(s: Status, event: RunEvent<E>)
    requires
        run_accepts(s, event),
    ensures
        s.phase != RunPhase::Ready && event !is Stats ==> {
            &&& run_step(s, event).0.counter == s.counter
            &&& run_step(s, event).0.buffer_len == s.buffer_len
        },
        s.phase != RunPhase::Ready ==> run_step(s, event).0.t_begin == s.t_begin,
        event !is Runs ==> run_step(s, event).0.run_num == s.run_num,
{
}

/// The user quits by pressing the key `q`, and by nothing else at the terminal.
pub proof fn only_a_pressed_q_quits<E>(s: Status, code: KeyCode, kind: KeyEventKind)
    requires
        s.phase == RunPhase::PollingTerminal,
    ensures
        ({
            let key = TerminalEvent::Key(KeyEvent { code, kind });
            let after = run_step(s, RunEvent::<E>::Terminal(Some(key))).0;
            if code == KeyCode::Char('q') && kind == KeyEventKind::Press {
                after.exit == Some(StatusExit::Quit) && after.user_quit
            } else {
                after.exit == s.exit && after.user_quit == s.user_quit
            }
        }),
        ({
            let after = run_step(s, RunEvent::<E>::Terminal(None)).0;
            after.exit == s.exit && after.user_quit == s.user_quit
        }),
        ({
            let after = run_step(s, RunEvent::<E>::Terminal(Some(TerminalEvent::Other))).0;
            after.exit == s.exit && after.user_quit == s.user_quit
        }),
{
}

/// What happens at the terminal is handled alike in every state: a pressed `q` quits,
/// and nothing else changes anything.
pub proof fn terminal_events_change_nothing_else(s: Status, happened: Option<TerminalEvent>)
    ensures
        ({
            let after = terminal_handled(s, happened);
            let quits = match happened {
                Some(TerminalEvent::Key(key)) => key.code == KeyCode::Char('q') && key.kind
                    == KeyEventKind::Press,
                _ => false,
            };
            &&& quits ==> after.exit == Some(StatusExit::Quit) && after.user_quit
            &&& !quits ==> after == s
            &&& after == (Status { exit: after.exit, user_quit: after.user_quit, ..s })
            &&& quit_by_user(s) == (Status { exit: Some(StatusExit::Quit), user_quit: true, ..s })
        }),
{
}

/// A key that is handled quits if it is `q`, and changes nothing else.
pub proof fn the_key_q_quits(s: Status, key: KeyEvent)
    ensures
        ({
            let after = key_handled(s, key);
            &&& key.code == KeyCode::Char('q') ==> after.exit == Some(StatusExit::Quit)
                && after.user_quit
            &&& key.code != KeyCode::Char('q') ==> after == s
            &&& after.phase == s.phase && after.curr_run == s.curr_run && after.run_num
                == s.run_num && after.counter == s.counter && after.t_begin == s.t_begin
                && after.run_duration == s.run_duration && after.max_runs == s.max_runs
        }),
{
}

/// Once the screen is drawn, and once a run has been set up, a run without a reason
/// to end waits for the next tick; one that was quit shuts everything down; and one
/// that timed out stops data taking alone.
pub proof fn runs_go_on_until_they_have_a_reason_to_end<E>(s: Status)
    requires
        s.phase == RunPhase::Drawing || s.phase == RunPhase::SpawningProcessing,
    ensures
        s.exit is None ==> run_step(s, RunEvent::<E>::Done).1 is AwaitTick,
        s.exit == Some(StatusExit::Quit) ==> run_step(s, RunEvent::<E>::Done).1 is SetShutdown,
        s.exit == Some(StatusExit::Timeout) ==> run_step(s, RunEvent::<E>::Done).1
            is StopDataTaking,
        run_step(s, RunEvent::<E>::Done).0.exit == s.exit,
        run_step(s, RunEvent::<E>::Done).0.phase == (match s.exit {
            None => RunPhase::AwaitingTick,
            Some(StatusExit::Quit) => RunPhase::ShuttingDown,
            Some(StatusExit::Timeout) => RunPhase::StoppingDataTaking,
        }),
{
}

/// Each step leads to the next: from the beginning of a run to its first tick, from
/// one tick to the next, and from the end of a run to the end of its threads.
pub proof fn runs_proceed_step_by_step<E>(s: Status)
    ensures
        ({
            let (after, action) = run_step(s, RunEvent::<E>::Done);
            &&& s.phase == RunPhase::SpawningDataTaking ==> action is AwaitEndpoints && after.phase
                == RunPhase::AwaitingEndpoints
            &&& s.phase == RunPhase::AwaitingEndpoints ==> action is SignalStart && after.phase
                == RunPhase::SignallingStart
            &&& s.phase == RunPhase::SignallingStart ==> action == RunAction::<
                Seq<char>,
                E,
            >::SendCommand(s.boards@[0].1, Command::SwStartAcquisition) && after.phase
                == RunPhase::StartingAcquisition
            &&& s.phase == RunPhase::StartingAcquisition ==> action is ListRuns && after.phase
                == RunPhase::ListingRuns
            &&& s.phase == RunPhase::AwaitingTick ==> action is ReceiveStats && after.phase
                == RunPhase::FirstStats
            &&& s.phase == RunPhase::ShuttingDown || s.phase == RunPhase::StoppingDataTaking
                ==> if s.boards@.len() > 0 {
                &&& action == RunAction::<Seq<char>, E>::SendCommand(
                    s.boards@[0].1,
                    Command::DisarmAcquisition,
                )
                &&& after.phase == RunPhase::Disarming(0)
            } else {
                action is JoinDataTaking && after.phase == RunPhase::JoiningDataTaking
            }
            &&& s.phase == RunPhase::JoiningDataTaking ==> action is JoinProcessing && after.phase
                == RunPhase::JoiningProcessing
        }),
        s.phase == RunPhase::PollingTerminal ==> forall|happened: Option<TerminalEvent>|
            {
                let (after, action) = #[trigger] run_step(s, RunEvent::<E>::Terminal(happened));
                action is ReadClock && after.phase == RunPhase::ReadingClock
            },
        s.phase == RunPhase::ReadingClock ==> forall|now: u64|
            {
                let (after, action) = #[trigger] run_step(s, RunEvent::<E>::Clock(now));
                action is Draw && after.phase == RunPhase::Drawing
            },
        s.phase == RunPhase::Ready ==> forall|now: u64|
            (#[trigger] run_step(s, RunEvent::<E>::Clock(now))).0.phase
                == RunPhase::SpawningDataTaking,
        s.phase == RunPhase::ListingRuns ==> forall|entries: Vec<Option<String>>|
            (#[trigger] run_step(s, RunEvent::<E>::Runs(entries))).0.phase
                == RunPhase::SpawningProcessing,
{
}

/// The boards are disarmed, and closed, each by its own handle and one after another;
/// data taking is waited for after the last is disarmed, and the acquisition is over
/// after the last is closed.
pub proof fn boards_take_turns<E>(s: Status, i: usize)
    requires
        run_inv(s),
    ensures
        ({
            let (after, action) = run_step(s, RunEvent::<E>::Done);
            let next = i + 1;
            &&& s.phase == RunPhase::Disarming(i) ==> if next < s.boards@.len() {
                &&& action == RunAction::<Seq<char>, E>::SendCommand(
                    s.boards@[next].1,
                    Command::DisarmAcquisition,
                )
                &&& after.phase == RunPhase::Disarming(next as usize)
            } else {
                action is JoinDataTaking && after.phase == RunPhase::JoiningDataTaking
            }
            &&& s.phase == RunPhase::Closing(i) ==> if next < s.boards@.len() {
                &&& action == RunAction::<Seq<char>, E>::Close(s.boards@[next].1)
                &&& after.phase == RunPhase::Closing(next as usize)
            } else {
                action is Finish && after.phase == RunPhase::Finished
            }
        }),
{
    assert(s.boards.len() == s.boards@.len());
}

/// After a run that was quit the boards are closed. After any other run, which is
/// counted, they are closed exactly if there is a limit, other than zero, that the
/// number of runs has reached; or else the next run begins.
pub proof fn runs_follow_up_to_the_limit<E>(s: Status)
    requires
        run_inv(s),
        s.phase == RunPhase::JoiningProcessing,
        s.curr_run < usize::MAX,
    ensures
        ({
            let (after, action) = run_step(s, RunEvent::<E>::Done);
            let last = match s.max_runs {
                Some(limit) => limit > 0 && s.curr_run + 1 == limit,
                None => false,
            };
            &&& s.exit == Some(StatusExit::Quit) ==> after.curr_run == s.curr_run
            &&& s.exit != Some(StatusExit::Quit) ==> after.curr_run == s.curr_run + 1
            &&& s.exit != Some(StatusExit::Quit) && !last ==> action is ReadClock && after.phase
                == RunPhase::Ready
            &&& s.exit == Some(StatusExit::Quit) || last ==> if s.boards@.len() > 0 {
                &&& action == RunAction::<Seq<char>, E>::Close(s.boards@[0].1)
                &&& after.phase == RunPhase::Closing(0)
            } else {
                action is Finish && after.phase == RunPhase::Finished
            }
        }),
{
}

/// The reason to end a run changes only when a run begins, when statistics are first
/// received in a tick, when the terminal is looked at, and when the clock is read; and
/// that the user has quit changes only at a beginning and at the terminal. What was
/// given at the start never changes.
pub proof fn reasons_to_end_are_kept<E>(s: Status, event: RunEvent<E>)
    requires
        run_accepts(s, event),
    ensures
        ({
            let after = run_step(s, event).0;
            &&& s.phase != RunPhase::Ready && s.phase != RunPhase::FirstStats && s.phase
                != RunPhase::PollingTerminal && s.phase != RunPhase::ReadingClock ==> after.exit
                == s.exit
            &&& s.phase != RunPhase::Ready && s.phase != RunPhase::PollingTerminal
                ==> after.user_quit == s.user_quit
            &&& after.run_duration == s.run_duration
            &&& after.camp_num == s.camp_num
            &&& after.config == s.config
            &&& after.boards == s.boards
            &&& after.max_runs == s.max_runs
        }),
{
}

/// What can come follows from what is waited for: exactly the answer to what was
/// wanted, as long as a machine word holds what is counted and there is a board to
/// start with; and a failure where something can fail.
pub proof fn acquisitions_take_every_answer<E>(s: Status, event: RunEvent<E>)
    ensures
        run_accepts(s, event) <==> match event {
            RunEvent::Clock(_) => s.phase == RunPhase::Ready || s.phase == RunPhase::ReadingClock,
            RunEvent::Terminal(_) => s.phase == RunPhase::PollingTerminal,
            RunEvent::Runs(entries) => {
                &&& s.phase == RunPhase::ListingRuns
                &&& forall|i: int|
                    0 <= i < entries@.len() ==> entry_run(#[trigger] entry_names(entries@)[i])
                        != Some(usize::MAX)
            },
            RunEvent::Stats(reply) => {
                &&& s.phase == RunPhase::FirstStats || s.phase == RunPhase::MoreStats
                &&& reply matches StatsReply::Info(info) ==> {
                    &&& s.counter.n_events + 1 <= usize::MAX
                    &&& s.counter.total_size + info.board0_info.event_size
                        + info.board1_info.event_size <= usize::MAX
                }
            },
            RunEvent::Failed(_) => {
                ||| s.phase == RunPhase::StartingAcquisition
                ||| s.phase == RunPhase::PollingTerminal
                ||| s.phase == RunPhase::Drawing
                ||| s.phase is Disarming
                ||| s.phase == RunPhase::JoiningDataTaking
                ||| s.phase == RunPhase::JoiningProcessing
                ||| s.phase is Closing
            },
            RunEvent::Done => {
                &&& s.phase != RunPhase::Ready && s.phase != RunPhase::ReadingClock
                &&& s.phase != RunPhase::PollingTerminal && s.phase != RunPhase::ListingRuns
                &&& s.phase != RunPhase::FirstStats && s.phase != RunPhase::MoreStats
                &&& s.phase != RunPhase::Finished
                &&& s.phase == RunPhase::SignallingStart ==> s.boards@.len() > 0
                &&& s.phase == RunPhase::JoiningProcessing && s.exit != Some(StatusExit::Quit)
                    ==> s.curr_run + 1 <= usize::MAX
            },
        },
{
    if let RunEvent::Runs(entries) = event {
        let names = entry_names(entries@);
        latest_run_is_greatest(names);
        if next_run(names) <= usize::MAX {
            assert forall|i: int| 0 <= i < entries@.len() implies entry_run(#[trigger] names[i])
                != Some(usize::MAX) by {
                if entry_run(names[i]) is Some {
                    assert(entry_run(names[i]).unwrap() <= latest_run(names).unwrap());
                }
            }
        }
    }
}

/// An action with a file's name stands for the same action with the name's text.
pub proof fn run_actions_show_what_is_wanted<E>(action: RunAction<String, E>)
    ensures
        action is ReadClock <==> action@ is ReadClock,
        action is SpawnDataTaking <==> action@ is SpawnDataTaking,
        action is AwaitEndpoints <==> action@ is AwaitEndpoints,
        action is SignalStart <==> action@ is SignalStart,
        action is SendCommand <==> action@ is SendCommand,
        action matches RunAction::SendCommand(handle, command) ==> action@->SendCommand_0 == handle
            && action@->SendCommand_1 == command,
        action is ListRuns <==> action@ is ListRuns,
        action is SpawnProcessing <==> action@ is SpawnProcessing,
        action matches RunAction::SpawnProcessing(name) ==> action@->SpawnProcessing_0 == name@,
        action is AwaitTick <==> action@ is AwaitTick,
        action is ReceiveStats <==> action@ is ReceiveStats,
        action is PollTerminal <==> action@ is PollTerminal,
        action is Draw <==> action@ is Draw,
        action is SetShutdown <==> action@ is SetShutdown,
        action is StopDataTaking <==> action@ is StopDataTaking,
        action is JoinDataTaking <==> action@ is JoinDataTaking,
        action is JoinProcessing <==> action@ is JoinProcessing,
        action is Close <==> action@ is Close,
        action matches RunAction::Close(handle) ==> action@->Close_0 == handle,
        action is Finish <==> action@ is Finish,
        action is Fail <==> action@ is Fail,
        action matches RunAction::Fail(error) ==> action@->Fail_0 == error,
{
}

/// A new run is stored in a file whose name reads back as a run that comes right
/// after the latest one found, or as run zero when none is found; the number of the
/// run is that of its file, and stays as it is when none is found.
pub proof fn runs_are_numbered_as_their_files<E>(s: Status, entries: Vec<Option<String>>)
    requires
        s.phase == RunPhase::ListingRuns,
        run_accepts(s, RunEvent::<E>::Runs(entries)),
    ensures
        ({
            let (after, action) = run_step(s, RunEvent::<E>::Runs(entries));
            let names = entry_names(entries@);
            &&& action is SpawnProcessing
            &&& run_number(action->SpawnProcessing_0) is Some
            &&& match latest_run(names) {
                Some(latest) => {
                    &&& after.run_num == latest + 1
                    &&& run_number(action->SpawnProcessing_0) == Some(after.run_num)
                },
                None => {
                    &&& after.run_num == s.run_num
                    &&& run_number(action->SpawnProcessing_0) == Some(0usize)
                },
            }
            &&& !names.contains(Some(action->SpawnProcessing_0))
        }),
{
    let names = entry_names(entries@);
    run_file_is_numbered(next_run(names) as usize);
    new_run_file_is_fresh(names);
}

/// In every state a new run is given the least number that comes after all runs found,
/// if there are any; and nothing but the number of the run changes.
pub proof fn numbering_changes_the_number_alone(s: Status, entries: Seq<Option<Seq<char>>>)
    requires
        next_run(entries) <= usize::MAX,
    ensures
        ({
            let after = numbered(s, entries);
            &&& after == (Status { run_num: after.run_num, ..s })
            &&& (forall|i: int| 0 <= i < entries.len() ==> entry_run(#[trigger] entries[i]) is None)
                ==> after.run_num == s.run_num
            &&& forall|i: int|
                0 <= i < entries.len() && entry_run(#[trigger] entries[i]) is Some ==> entry_run(
                    entries[i],
                ).unwrap() < after.run_num
            &&& (exists|i: int| 0 <= i < entries.len() && entry_run(#[trigger] entries[i]) is Some)
                ==> (exists|i: int|
                0 <= i < entries.len() && entry_run(#[trigger] entries[i]) is Some && entry_run(
                    entries[i],
                ).unwrap() + 1 == after.run_num)
        }),
{
    latest_run_is_greatest(entries);
}

/// The campaign's directory is the configured output directory, then `/camp`, then
/// the digits of the campaign's number.
pub proof fn campaigns_lie_below_the_output_directory(config: Conf)
    ensures
        ({
            let dir = camp_dir(config);
            let out = config.run_settings.output_dir@;
            let n = out.len() as int;
            &&& dir.len() > n + 5
            &&& dir.take(n) == out
            &&& dir.subrange(n, n + 5) == seq!['/', 'c', 'a', 'm', 'p']
            &&& all_digits(dir.skip(n + 5))
            &&& digits_value(dir.skip(n + 5)) == config.run_settings.campaign_num
            &&& dir[n + 5] == '0' ==> config.run_settings.campaign_num == 0
        }),
{
    let dir = camp_dir(config);
    let out = config.run_settings.output_dir@;
    let n = out.len() as int;
    let digits = decimal(config.run_settings.campaign_num as nat);
    reveal_strlit("/camp");
    decimal_reads_back(config.run_settings.campaign_num as nat);
    decimal_has_no_leading_zero(config.run_settings.campaign_num as nat);
    assert(dir.take(n) =~= out);
    assert(dir.subrange(n, n + 5) =~= seq!['/', 'c', 'a', 'm', 'p']);
    assert(dir.skip(n + 5) =~= digits);
}

/// Campaigns of the same number share a directory only if they share the output
/// directory; and campaigns below one output directory share one only if they have
/// the same number.
pub proof fn campaigns_have_directories_of_their_own(a: Conf, b: Conf)
    requires
        camp_dir(a) == camp_dir(b),
    ensures
        a.run_settings.campaign_num == b.run_settings.campaign_num ==> a.run_settings.output_dir@
            == b.run_settings.output_dir@,
        a.run_settings.output_dir@ == b.run_settings.output_dir@ ==> a.run_settings.campaign_num
            == b.run_settings.campaign_num,
{
    campaigns_lie_below_the_output_directory(a);
    campaigns_lie_below_the_output_directory(b);
}

/// An event that is counted adds one to the number of events and its size to their
/// sizes; a counter that begins has counted nothing.
pub proof fn counters_add_up(counter: Counter, size: usize, now: u64)
    requires
        can_count(counter, size as int),
    ensures
        counter.n_events + 1 <= usize::MAX,
        counter.total_size + size <= usize::MAX,
        counted(counter, size as int).n_events == counter.n_events + 1,
        counted(counter, size as int).total_size == counter.total_size + size,
        counted(counter, size as int).t_begin == counter.t_begin,
        new_counter(now).n_events == 0,
        new_counter(now).total_size == 0,
        new_counter(now).t_begin == now,
{
}

/// One more event can be counted exactly if a machine word holds the number of events
/// and their sizes with it.
pub proof fn counters_count_while_they_can(counter: Counter, size: int)
    ensures
        can_count(counter, size) <==> counter.n_events + 1 <= usize::MAX && counter.total_size
            + size <= usize::MAX,
{
}

/// The time that has passed leads from `begin` to `now`, and never back.
pub proof fn time_passes(begin: u64, now: u64)
    ensures
        begin <= now ==> begin + elapsed(begin, now) == now,
        now <= begin ==> elapsed(begin, now) == 0,
{
}

/// The statistics are gathered once a second.
pub proof fn ticks_come_every_second()
    ensures
        TICK_SECS == 1,
        NANOS_PER_SEC == 1000 * 1000 * 1000,
{
}

impl Status {
    /// Prepares an acquisition. The first thing to be done is to read the clock.
    pub fn new(
        config: Conf,
        boards: Vec<(usize, u64)>,
        max_runs: Option<usize>,
        now: u64,
    ) -> (status: Status)
        ensures
            status == (Status {
                counter: new_counter(now),
                t_begin: now,
                run_duration: config.run_settings.run_duration,
                run_num: 0,
                camp_num: config.run_settings.campaign_num,
                curr_run: 0,
                buffer_len: 0,
                config,
                boards,
                max_runs,
                exit: None,
                user_quit: false,
                phase: RunPhase::Ready,
            }),
            status == fresh_status(config, boards, max_runs, now),
            run_inv(status),
    {
        let run_duration = config.run_settings.run_duration;
        let camp_num = config.run_settings.campaign_num;
        Status {
            counter: Counter::new(now),
            t_begin: now,
            run_duration,
            run_num: 0,
            camp_num,
            curr_run: 0,
            buffer_len: 0,
            config,
            boards,
            max_runs,
            exit: None,
            user_quit: false,
            phase: RunPhase::Ready,
        }
    }

    /// Decides what the acquisition does next, now that `event` has come.
    pub fn run<E>(&mut self, event: RunEvent<E>) -> (action: RunAction<String, E>)
        requires
            run_inv(*old(self)),
            run_accepts(*old(self), event),
        ensures
            run_inv(*final(self)),
            (*final(self), action@) == run_step(*old(self), event),
    {
        assert(self.boards.len() <= usize::MAX);
        match (self.phase, event) {
            (_, RunEvent::Failed(error)) => {
                self.phase = RunPhase::Finished;
                RunAction::Fail(error)
            },
            (RunPhase::Ready, RunEvent::Clock(now)) => {
                self.t_begin = now;
                self.exit = None;
                self.user_quit = false;
                self.counter.reset(now);
                self.buffer_len = 0;
                self.phase = RunPhase::SpawningDataTaking;
                RunAction::SpawnDataTaking
            },
            (RunPhase::AwaitingTick, _) => {
                self.phase = RunPhase::FirstStats;
                RunAction::ReceiveStats
            },
            (RunPhase::FirstStats, RunEvent::Stats(reply)) => {
                match reply {
                    StatsReply::Info(info) => self.take_in(info),
                    StatsReply::Empty => {},
                    StatsReply::Disconnected => {
                        self.exit = Some(StatusExit::Quit);
                    },
                }
                self.phase = RunPhase::MoreStats;
                RunAction::ReceiveStats
            },
            (RunPhase::MoreStats, RunEvent::Stats(StatsReply::Info(info))) => {
                self.take_in(info);
                RunAction::ReceiveStats
            },
            (RunPhase::MoreStats, _) => {
                self.phase = RunPhase::PollingTerminal;
                RunAction::PollTerminal
            },
            (RunPhase::PollingTerminal, RunEvent::Terminal(happened)) => {
                self.handle_events(happened);
                self.phase = RunPhase::ReadingClock;
                RunAction::ReadClock
            },
            (RunPhase::ReadingClock, RunEvent::Clock(now)) => {
                let lasted: u128 = time_since(self.t_begin, now) as u128;
                if !self.user_quit && lasted >= self.run_duration as u128
                    * NANOS_PER_SEC as u128 {
                    self.exit = Some(StatusExit::Timeout);
                }
                self.phase = RunPhase::Drawing;
                RunAction::Draw
            },
            (RunPhase::Drawing, _) => self.next_tick(),
            (RunPhase::ShuttingDown, _) => self.disarm(0),
            (RunPhase::StoppingDataTaking, _) => self.disarm(0),
            (RunPhase::Disarming(i), _) => self.disarm(i + 1),
            (RunPhase::JoiningDataTaking, _) => {
                self.phase = RunPhase::JoiningProcessing;
                RunAction::JoinProcessing
            },
            (RunPhase::JoiningProcessing, _) => self.end_run(),
            (RunPhase::Closing(i), _) => self.close(i + 1),
            (_, event) => self.begin_run(event),
        }
    }

    /// Tells whether `event` can follow.
    pub fn accepts<E>(&self, event: &RunEvent<E>) -> (accepts: bool)
        ensures
            accepts == run_accepts(*self, *event),
    {
        match (self.phase, event) {
            (RunPhase::Ready, RunEvent::Clock(_)) => true,
            (RunPhase::SpawningDataTaking, RunEvent::Done) => true,
            (RunPhase::AwaitingEndpoints, RunEvent::Done) => true,
            (RunPhase::SignallingStart, RunEvent::Done) => self.boards.len() > 0,
            (RunPhase::StartingAcquisition, RunEvent::Done) => true,
            (RunPhase::StartingAcquisition, RunEvent::Failed(_)) => true,
            (RunPhase::ListingRuns, RunEvent::Runs(entries)) => match find_latest_run(entries) {
                Some(latest) => latest < usize::MAX,
                None => true,
            },
            (RunPhase::SpawningProcessing, RunEvent::Done) => true,
            (RunPhase::AwaitingTick, RunEvent::Done) => true,
            (RunPhase::FirstStats, RunEvent::Stats(reply)) => self.can_receive(*reply),
            (RunPhase::MoreStats, RunEvent::Stats(reply)) => self.can_receive(*reply),
            (RunPhase::PollingTerminal, RunEvent::Terminal(_)) => true,
            (RunPhase::PollingTerminal, RunEvent::Failed(_)) => true,
            (RunPhase::ReadingClock, RunEvent::Clock(_)) => true,
            (RunPhase::Drawing, RunEvent::Done) => true,
            (RunPhase::Drawing, RunEvent::Failed(_)) => true,
            (RunPhase::ShuttingDown, RunEvent::Done) => true,
            (RunPhase::StoppingDataTaking, RunEvent::Done) => true,
            (RunPhase::Disarming(_), RunEvent::Done) => true,
            (RunPhase::Disarming(_), RunEvent::Failed(_)) => true,
            (RunPhase::JoiningDataTaking, RunEvent::Done) => true,
            (RunPhase::JoiningDataTaking, RunEvent::Failed(_)) => true,
            (RunPhase::JoiningProcessing, RunEvent::Done) => match self.exit {
                Some(StatusExit::Quit) => true,
                _ => self.curr_run < usize::MAX,
            },
            (RunPhase::JoiningProcessing, RunEvent::Failed(_)) => true,
            (RunPhase::Closing(_), RunEvent::Done) => true,
            (RunPhase::Closing(_), RunEvent::Failed(_)) => true,
            _ => false,
        }
    }

    /// Tells whether statistics can be added to what is counted.
    fn can_receive(&self, reply: StatsReply) -> (can: bool)
        ensures
            can == can_take_in(*self, reply),
    {
        match reply {
            StatsReply::Info(info) => {
                let size = info.board0_info.event_size.checked_add(info.board1_info.event_size);
                match size {
                    Some(size) => self.counter.n_events < usize::MAX && size <= usize::MAX
                        - self.counter.total_size,
                    None => false,
                }
            },
            _ => true,
        }
    }

    /// Adds statistics to what is counted.
    fn take_in(&mut self, info: RunInfo)
        requires
            can_count(old(self).counter, total_event_size(info)),
        ensures
            *final(self) == with_stats(*old(self), info),
    {
        self.counter.increment(info.event_size());
        self.buffer_len = info.event_channel_buf;
    }

    /// Handles what has happened at the terminal, if anything has.
    pub fn handle_events(&mut self, happened: Option<TerminalEvent>)
        ensures
            *final(self) == terminal_handled(*old(self), happened),
            run_inv(*old(self)) ==> run_inv(*final(self)),
    {
        match happened {
            Some(TerminalEvent::Key(key_event)) => {
                if key_event.kind == KeyEventKind::Press {
                    self.handle_key_event(key_event);
                }
            },
            _ => {},
        }
    }

    /// Handles a key.
    pub fn handle_key_event(&mut self, key_event: KeyEvent)
        ensures
            *final(self) == (if key_event.code == KeyCode::Char('q') {
                quit_by_user(*old(self))
            } else {
                *old(self)
            }),
            *final(self) == key_handled(*old(self), key_event),
            run_inv(*old(self)) ==> run_inv(*final(self)),
    {
        match key_event.code {
            KeyCode::Char('q') => self.exit(),
            _ => {},
        }
    }

    /// Ends the run because the user quits. Between two runs this has no effect:
    /// a run begins with no reason to end.
    pub fn exit(&mut self)
        ensures
            *final(self) == quit_by_user(*old(self)),
            run_inv(*old(self)) ==> run_inv(*final(self)),
    {
        self.exit = Some(StatusExit::Quit);
        self.user_quit = true;
    }

    /// Goes on with the beginning of a run.
    fn begin_run<E>(&mut self, event: RunEvent<E>) -> (action: RunAction<String, E>)
        requires
            run_accepts(*old(self), event),
            event !is Failed,
            old(self).phase is SpawningDataTaking || old(self).phase is AwaitingEndpoints || old(
                self,
            ).phase is SignallingStart || old(self).phase is StartingAcquisition || old(
                self,
            ).phase is ListingRuns || old(self).phase is SpawningProcessing,
        ensures
            (*final(self), action@) == run_step(*old(self), event),
    {
        match (self.phase, event) {
            (RunPhase::SpawningDataTaking, _) => {
                self.phase = RunPhase::AwaitingEndpoints;
                RunAction::AwaitEndpoints
            },
            (RunPhase::AwaitingEndpoints, _) => {
                self.phase = RunPhase::SignallingStart;
                RunAction::SignalStart
            },
            (RunPhase::SignallingStart, _) => {
                self.phase = RunPhase::StartingAcquisition;
                RunAction::SendCommand(self.boards[0].1, Command::SwStartAcquisition)
            },
            (RunPhase::StartingAcquisition, _) => {
                self.phase = RunPhase::ListingRuns;
                RunAction::ListRuns
            },
            (RunPhase::ListingRuns, RunEvent::Runs(entries)) => {
                let name = self.create_run_file(&entries);
                self.phase = RunPhase::SpawningProcessing;
                RunAction::SpawnProcessing(name)
            },
            _ => self.next_tick(),
        }
    }

    /// Waits for the next tick, unless the run has a reason to end.
    fn next_tick<E>(&mut self) -> (action: RunAction<String, E>)
        ensures
            (*final(self), action@) == on_to(*old(self), go_on_or_stop::<E>(*old(self))),
    {
        match self.exit {
            None => {
                self.phase = RunPhase::AwaitingTick;
                RunAction::AwaitTick
            },
            Some(StatusExit::Quit) => {
                self.phase = RunPhase::ShuttingDown;
                RunAction::SetShutdown
            },
            Some(StatusExit::Timeout) => {
                self.phase = RunPhase::StoppingDataTaking;
                RunAction::StopDataTaking
            },
        }
    }

    /// Names the file of a new run, which follows those among the entries of the
    /// campaign's directory, and gives the run its number.
    pub fn create_run_file(&mut self, entries: &Vec<Option<String>>) -> (name: String)
        requires
            next_run(entry_names(entries@)) <= usize::MAX,
        ensures
            *final(self) == numbered(*old(self), entry_names(entries@)),
            name@ == run_file(next_run(entry_names(entries@))),
    {
        match find_latest_run(entries) {
            Some(latest) => {
                self.run_num = latest + 1;
                run_file_name(latest + 1)
            },
            None => run_file_name(0),
        }
    }

    /// Names the directory of the campaign.
    pub fn create_camp_dir(&self) -> (dir: String)
        ensures
            dir@ == camp_dir(self.config),
    {
        let number = decimal_text(self.config.run_settings.campaign_num as u64);
        joined(self.config.run_settings.output_dir.as_str(), "/camp", number.as_str())
    }

    /// Disarms the boards from index `i` on.
    fn disarm<E>(&mut self, i: usize) -> (action: RunAction<String, E>)
        ensures
            (*final(self), action@) == on_to(
                *old(self),
                disarm_from::<E>(old(self).boards@, i as int),
            ),
    {
        if i < self.boards.len() {
            self.phase = RunPhase::Disarming(i);
            RunAction::SendCommand(self.boards[i].1, Command::DisarmAcquisition)
        } else {
            self.phase = RunPhase::JoiningDataTaking;
            RunAction::JoinDataTaking
        }
    }

    /// Closes the boards from index `i` on.
    fn close<E>(&mut self, i: usize) -> (action: RunAction<String, E>)
        ensures
            (*final(self), action@) == on_to(
                *old(self),
                close_from::<E>(old(self).boards@, i as int),
            ),
    {
        if i < self.boards.len() {
            self.phase = RunPhase::Closing(i);
            RunAction::Close(self.boards[i].1)
        } else {
            self.phase = RunPhase::Finished;
            RunAction::Finish
        }
    }

    /// Goes on after the end of a run.
    fn end_run<E>(&mut self) -> (action: RunAction<String, E>)
        requires
            old(self).exit == Some(StatusExit::Quit) || old(self).curr_run < usize::MAX,
        ensures
            (*final(self), action@) == run_ended::<E>(*old(self)),
    {
        if let Some(StatusExit::Quit) = self.exit {
            return self.close(0);
        }
        let max_runs: usize = match self.max_runs {
            Some(limit) => limit,
            None => 0,
        };
        self.curr_run += 1;
        if self.curr_run == max_runs && max_runs != 0 {
            self.close(0)
        } else {
            self.phase = RunPhase::Ready;
            RunAction::ReadClock
        }
    }
}

} // verus!
