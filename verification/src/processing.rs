//! Event processing: the events of the two boards are suppressed, paired, and
//! handed on to be counted and stored.
//!
//! [`event_processing`] decides. Its caller performs each [`ProcessAction`] and
//! comes back with the [`ProcessEvent`] that it led to.
use crate::config::Conf;
use crate::event::{suppressed_event, suppression_keeps_all_but_samples};
use crate::event::{zero_suppress, BoardEvent, BoardEventContents};
use vstd::prelude::*;

verus! {

/// What is known of one board's half of an event.
#[derive(Debug, Clone, Copy, PartialEq, Eq, Structural)]
pub struct BoardInfo {
    pub event_size: usize,
    pub trigger_id: u32,
    pub board_id: usize,
}

/// What is known of an event, gathered from both boards.
#[derive(Debug, Clone, Copy, PartialEq, Eq, Structural)]
pub struct RunInfo {
    pub board0_info: BoardInfo,
    pub board1_info: BoardInfo,
    /// How many events were waiting, added up over the boards.
    pub event_channel_buf: usize,
}

/// Nothing is known of a board's half yet.
pub open spec fn no_board_info() -> BoardInfo {
    BoardInfo { event_size: 0, trigger_id: 0, board_id: 0 }
}

/// Nothing is known of an event yet.
pub open spec fn no_run_info() -> RunInfo {
    RunInfo {
        board0_info: no_board_info(),
        board1_info: no_board_info(),
        event_channel_buf: 0,
    }
}

impl Default for BoardInfo {
    fn default() -> (info: BoardInfo)
        ensures
            info == no_board_info(),
    {
        BoardInfo { event_size: 0, trigger_id: 0, board_id: 0 }
    }
}

impl Default for RunInfo {
    fn default() -> (info: RunInfo)
        ensures
            info == no_run_info(),
    {
        RunInfo {
            board0_info: BoardInfo::default(),
            board1_info: BoardInfo::default(),
            event_channel_buf: 0,
        }
    }
}

/// The size of an event: that of its two halves together.
pub open spec fn total_event_size(info: RunInfo) -> int {
    info.board0_info.event_size + info.board1_info.event_size
}

impl RunInfo {
    /// The size of the event.
    pub fn event_size(&self) -> (size: usize)
        requires
            total_event_size(*self) <= usize::MAX,
        ensures
            size == total_event_size(*self),
    {
        self.board0_info.event_size + self.board1_info.event_size
    }
}

/// How the file of a run is laid out.
#[derive(Debug, Clone, Copy, PartialEq, Eq, Structural)]
pub struct WriterSettings {
    pub n_channels: usize,
    pub waveform_len: usize,
    pub max_events: usize,
    pub buffer_capacity: usize,
}

/// How the file of a run is laid out under a configuration.
pub open spec fn file_layout(config: Conf) -> WriterSettings {
    WriterSettings {
        n_channels: 64,
        waveform_len: config.board_settings.record_len,
        max_events: 7500,
        buffer_capacity: 50,
    }
}

/// A file has room for all 64 channels and for waveforms of the configured length;
/// its limits are the same under every configuration.
pub proof fn files_are_laid_out_as_configured(config: Conf, other: Conf)
    ensures
        file_layout(config).n_channels == 64,
        file_layout(config).waveform_len == config.board_settings.record_len,
        file_layout(config).max_events == 7500,
        file_layout(config).buffer_capacity == 50,
        file_layout(config) == file_layout(other) <==> config.board_settings.record_len
            == other.board_settings.record_len,
{
}

/// Event processing waits a tenth of a second for an event before it looks up.
pub proof fn waiting_lasts_a_tenth_of_a_second()
    ensures
        RECEIVE_TIMEOUT_MS * 10 == 1000,
{
}

/// Chooses how the file of a run is laid out.
pub fn writer_settings(config: &Conf) -> (settings: WriterSettings)
    ensures
        settings == file_layout(*config),
        settings == (WriterSettings {
            n_channels: 64,
            waveform_len: config.board_settings.record_len,
            max_events: 7500,
            buffer_capacity: 50,
        }),
{
    WriterSettings {
        n_channels: 64,
        waveform_len: config.board_settings.record_len,
        max_events: 7500,
        buffer_capacity: 50,
    }
}

/// How long event processing waits for an event before it looks up, in
/// milliseconds.
pub const RECEIVE_TIMEOUT_MS: u64 = 100;

/// What event processing waits for.
#[derive(Debug, Clone, Copy, PartialEq, Eq, Structural)]
pub enum ProcessPhase {
    Receiving,
    SendingStats,
    /// The event with this index of a pair is being stored.
    Appending(usize),
    CheckingShutdown,
    Flushing,
    Stopped,
}

/// What event processing is told.
#[derive(Debug)]
pub enum ProcessEvent {
    /// An event has come in, and this many more are waiting.
    Received(BoardEvent, usize),
    /// No event has come in for a while.
    TimedOut,
    /// No event will come in any more.
    Disconnected,
    /// Whether the statistics could be sent.
    StatsSent(bool),
    /// The event has been stored.
    Appended,
    /// Whether the program is to shut down.
    Shutdown(bool),
    /// Everything stored has been written out.
    Flushed,
}

/// What event processing wants done.
#[derive(Debug, Clone, Copy, PartialEq, Eq, Structural)]
pub enum ProcessAction {
    Receive,
    SendStats(RunInfo),
    /// Store the event of the pair that has this index.
    Append(usize),
    CheckShutdown,
    FlushAll,
    Stop,
}

/// The state of event processing.
#[derive(Debug)]
pub struct EventProcessor {
    pub run_info: RunInfo,
    /// The events of the pair that is being put together.
    pub events: Vec<BoardEvent>,
    pub phase: ProcessPhase,
}

/// The state of event processing, as values.
#[verifier::ext_equal]
pub struct ProcessState {
    pub run_info: RunInfo,
    pub events: Seq<BoardEventContents>,
    pub phase: ProcessPhase,
}

impl View for EventProcessor {
    type V = ProcessState;

    open spec fn view(&self) -> ProcessState {
        ProcessState {
            run_info: self.run_info,
            events: self.events@.map_values(|event: BoardEvent| event@),
            phase: self.phase,
        }
    }
}

/// The state in which event processing starts.
pub open spec fn process_start() -> ProcessState {
    ProcessState { run_info: no_run_info(), events: seq![], phase: ProcessPhase::Receiving }
}

/// What is known of a board's half of an event once it has come in.
pub open spec fn board_info(event: BoardEventContents) -> BoardInfo {
    BoardInfo {
        event_size: event.event.event_size,
        trigger_id: event.event.trigger_id,
        board_id: event.board_id,
    }
}

/// What is known of an event once one more of its halves has come in, with
/// `waiting` more events behind it.
pub open spec fn with_half(info: RunInfo, event: BoardEventContents, waiting: usize) -> RunInfo {
    let event_channel_buf = (info.event_channel_buf + waiting) as usize;
    if event.board_id == 0 {
        RunInfo { board0_info: board_info(event), event_channel_buf, ..info }
    } else {
        RunInfo { board1_info: board_info(event), event_channel_buf, ..info }
    }
}

/// Whether `event` can follow in the state `s`. Events come from the boards 0
/// and 1 alone, and the waiting events can be counted.
pub open spec fn process_accepts(s: ProcessState, event: ProcessEvent) -> bool {
    match (s.phase, event) {
        (ProcessPhase::Receiving, ProcessEvent::Received(board_event, waiting)) => {
            &&& board_event.board_id < 2
            &&& s.run_info.event_channel_buf + waiting <= usize::MAX
        },
        (ProcessPhase::Receiving, ProcessEvent::TimedOut) => true,
        (ProcessPhase::Receiving, ProcessEvent::Disconnected) => true,
        (ProcessPhase::SendingStats, ProcessEvent::StatsSent(_)) => true,
        (ProcessPhase::Appending(_), ProcessEvent::Appended) => true,
        (ProcessPhase::CheckingShutdown, ProcessEvent::Shutdown(_)) => true,
        (ProcessPhase::Flushing, ProcessEvent::Flushed) => true,
        _ => false,
    }
}

/// What the state `s` becomes by `event`, and what is then to be done.
///
/// A pair is complete once two events have come in. Its statistics are sent
/// first; when nobody takes them, or when the boards disagree on the trigger,
/// processing stops at once. Otherwise both events are stored, and the next
/// pair begins. Everything stored is written out before processing stops
/// because of a shutdown or because no event will come in any more.
pub open spec fn process_step(s: ProcessState, event: ProcessEvent) -> (
    ProcessState,
    ProcessAction,
) {
    match event {
        ProcessEvent::Received(board_event, waiting) => {
            let run_info = with_half(s.run_info, board_event@, waiting);
            let events = s.events.push(suppressed_event(board_event@));
            if events.len() == 2 {
                (
                    ProcessState { run_info, events, phase: ProcessPhase::SendingStats },
                    ProcessAction::SendStats(run_info),
                )
            } else {
                (
                    ProcessState { run_info, events, phase: ProcessPhase::CheckingShutdown },
                    ProcessAction::CheckShutdown,
                )
            }
        },
        ProcessEvent::TimedOut => (
            ProcessState { phase: ProcessPhase::CheckingShutdown, ..s },
            ProcessAction::CheckShutdown,
        ),
        ProcessEvent::Disconnected => (
            ProcessState { phase: ProcessPhase::Flushing, ..s },
            ProcessAction::FlushAll,
        ),
        ProcessEvent::StatsSent(sent) => if sent && s.run_info.board0_info.trigger_id
            == s.run_info.board1_info.trigger_id {
            (ProcessState { phase: ProcessPhase::Appending(0), ..s }, ProcessAction::Append(0))
        } else {
            (ProcessState { phase: ProcessPhase::Stopped, ..s }, ProcessAction::Stop)
        },
        ProcessEvent::Appended => if s.phase == ProcessPhase::Appending(0) {
            (ProcessState { phase: ProcessPhase::Appending(1), ..s }, ProcessAction::Append(1))
        } else {
            (
                ProcessState {
                    run_info: no_run_info(),
                    events: seq![],
                    phase: ProcessPhase::CheckingShutdown,
                },
                ProcessAction::CheckShutdown,
            )
        },
        ProcessEvent::Shutdown(shutdown) => if shutdown {
            (ProcessState { phase: ProcessPhase::Flushing, ..s }, ProcessAction::FlushAll)
        } else {
            (ProcessState { phase: ProcessPhase::Receiving, ..s }, ProcessAction::Receive)
        },
        ProcessEvent::Flushed => (
            ProcessState { phase: ProcessPhase::Stopped, ..s },
            ProcessAction::Stop,
        ),
    }
}

/// The state that the events `es`, one after another, lead to from the start.
pub open spec fn process_after(es: Seq<ProcessEvent>) -> ProcessState
    decreases es.len(),
{
    if es.len() == 0 {
        process_start()
    } else {
        process_step(process_after(es.drop_last()), es.last()).0
    }
}

/// Whether the events `es` can come one after another from the start.
pub open spec fn process_accepts_all(es: Seq<ProcessEvent>) -> bool
    decreases es.len(),
{
    es.len() > 0 ==> {
        &&& process_accepts_all(es.drop_last())
        &&& process_accepts(process_after(es.drop_last()), es.last())
    }
}

/// What `events` tell of the half that the board `board_id` recorded: the last
/// event of that board counts.
pub open spec fn half_info(events: Seq<BoardEventContents>, board_id: usize) -> BoardInfo
    decreases events.len(),
{
    if events.len() == 0 {
        no_board_info()
    } else if events.last().board_id == board_id {
        board_info(events.last())
    } else {
        half_info(events.drop_last(), board_id)
    }
}

/// What holds of event processing at all times: the events in hand are
/// suppressed and at most two, and what is known of the pair is what they tell.
/// Nothing is known of a pair that has not begun.
pub open spec fn process_inv(s: ProcessState) -> bool {
    &&& s.events.len() <= 2
    &&& forall|i: int|
        0 <= i < s.events.len() ==> (#[trigger] s.events[i]).board_id < 2 && s.events[i]
            == suppressed_event(s.events[i])
    &&& s.run_info.board0_info == half_info(s.events, 0)
    &&& s.run_info.board1_info == half_info(s.events, 1)
    &&& s.events.len() == 0 ==> s.run_info.event_channel_buf == 0
    &&& match s.phase {
        ProcessPhase::Receiving => s.events.len() < 2,
        ProcessPhase::CheckingShutdown => s.events.len() < 2,
        ProcessPhase::Flushing => s.events.len() < 2,
        ProcessPhase::SendingStats => s.events.len() == 2,
        ProcessPhase::Appending(i) => {
            &&& i < 2
            &&& s.events.len() == 2
            &&& s.run_info.board0_info.trigger_id == s.run_info.board1_info.trigger_id
        },
        ProcessPhase::Stopped => true,
    }
}

/// No event breaks what holds of event processing.
pub proof fn process_step_keeps_inv(s: ProcessState, event: ProcessEvent)
    requires
        process_inv(s),
        process_accepts(s, event),
    ensures
        process_inv(process_step(s, event).0),
{
    if let ProcessEvent::Received(board_event, waiting) = event {
        let after = process_step(s, event).0;
        let half = suppressed_event(board_event@);
        assert(after.events.drop_last() =~= s.events);
        assert(after.events.last() == half);
        assert forall|i: int| 0 <= i < after.events.len() implies (
        #[trigger] after.events[i]).board_id < 2 && after.events[i] == suppressed_event(
            after.events[i],
        ) by {
            if i < s.events.len() {
                assert(after.events[i] == s.events[i]);
            }
        }
    }
}

/// Whatever events come, event processing holds at most one pair, all of it
/// suppressed, and knows of the pair what its events tell.
pub proof fn processing_is_sound(es: Seq<ProcessEvent>)
    requires
        process_accepts_all(es),
    ensures
        process_inv(process_after(es)),
    decreases es.len(),
{
    if es.len() > 0 {
        processing_is_sound(es.drop_last());
        process_step_keeps_inv(process_after(es.drop_last()), es.last());
    }
}

/// An event is stored only as part of a complete pair with every sample zero;
/// and when the pair has an event of either board, the two have the same
/// trigger.
pub proof fn stored_pairs_agree(es: Seq<ProcessEvent>, i: usize)
    requires
        es.len() > 0,
        process_accepts_all(es),
        process_step(process_after(es.drop_last()), es.last()).1 == ProcessAction::Append(i),
    ensures
        ({
            let pair = process_after(es).events;
            &&& i < 2
            &&& pair.len() == 2
            &&& forall|k: int|
                0 <= k < pair[i as int].event.samples.len() ==> pair[i as int].event.samples[k] == 0
            &&& pair[0].board_id != pair[1].board_id ==> pair[0].event.trigger_id
                == pair[1].event.trigger_id
        }),
{
    processing_is_sound(es);
    let pair = process_after(es).events;
    assert(pair[i as int] == suppressed_event(pair[i as int]));
    assert(pair.drop_last().last() == pair[0]);
    assert(pair.last() == pair[1]);
    assert(pair[0].board_id < 2 && pair[1].board_id < 2);
    reveal_with_fuel(half_info, 3);
}

/// The statistics of a pair with an event of either board add up the sizes of
/// both events, and name the trigger of each.
pub proof fn pair_statistics_describe_the_pair(es: Seq<ProcessEvent>, info: RunInfo)
    requires
        es.len() > 0,
        process_accepts_all(es),
        process_step(process_after(es.drop_last()), es.last()).1 == ProcessAction::SendStats(info),
        process_after(es).events[0].board_id != process_after(es).events[1].board_id,
    ensures
        ({
            let pair = process_after(es).events;
            &&& pair.len() == 2
            &&& total_event_size(info) == pair[0].event.event_size + pair[1].event.event_size
            &&& pair[0].board_id == 0 ==> info.board0_info == board_info(pair[0])
                && info.board1_info == board_info(pair[1])
            &&& pair[0].board_id == 1 ==> info.board0_info == board_info(pair[1])
                && info.board1_info == board_info(pair[0])
        }),
{
    processing_is_sound(es);
    let pair = process_after(es).events;
    assert(pair.drop_last().last() == pair[0]);
    assert(pair.last() == pair[1]);
    assert(pair[0].board_id < 2 && pair[1].board_id < 2);
    reveal_with_fuel(half_info, 3);
}

/// A complete pair whose statistics are taken and whose triggers agree is stored
/// in the order in which its events came in, and then a new pair begins with
/// nothing in hand.
pub proof fn complete_pairs_are_stored_in_order(s: ProcessState)
    requires
        process_inv(s),
        s.phase == ProcessPhase::SendingStats,
        s.run_info.board0_info.trigger_id == s.run_info.board1_info.trigger_id,
    ensures
        ({
            let (s1, a1) = process_step(s, ProcessEvent::StatsSent(true));
            let (s2, a2) = process_step(s1, ProcessEvent::Appended);
            let (s3, a3) = process_step(s2, ProcessEvent::Appended);
            &&& a1 == ProcessAction::Append(0) && s1.events == s.events
            &&& a2 == ProcessAction::Append(1) && s2.events == s.events
            &&& a3 == ProcessAction::CheckShutdown && s3.events.len() == 0
            &&& s3.run_info == no_run_info()
        }),
{
}

/// An event of either board, one after the other, make a pair. Its statistics
/// hold both sizes, both triggers and the sum of the waiting events. If the
/// triggers agree both events are stored, suppressed and in the order in which
/// they came; otherwise processing stops and stores neither.
pub proof fn two_halves_make_a_pair(
    s: ProcessState,
    first: BoardEvent,
    n: usize,
    second: BoardEvent,
    m: usize,
)
    requires
        process_inv(s),
        s.phase == ProcessPhase::Receiving,
        s.events.len() == 0,
        first.board_id < 2,
        second.board_id < 2,
        first.board_id != second.board_id,
        n + m <= usize::MAX,
    ensures
        ({
            let (s1, a1) = process_step(s, ProcessEvent::Received(first, n));
            let (s2, a2) = process_step(s1, ProcessEvent::Shutdown(false));
            let (s3, a3) = process_step(s2, ProcessEvent::Received(second, m));
            let (s4, a4) = process_step(s3, ProcessEvent::StatsSent(true));
            let (s5, a5) = process_step(s4, ProcessEvent::Appended);
            let info = a3->SendStats_0;
            &&& a1 == ProcessAction::CheckShutdown
            &&& a2 == ProcessAction::Receive
            &&& a3 is SendStats
            &&& total_event_size(info) == first.event.c_event.event_size
                + second.event.c_event.event_size
            &&& info.event_channel_buf == n + m
            &&& s3.events == seq![suppressed_event(first@), suppressed_event(second@)]
            &&& if first.event.c_event.trigger_id == second.event.c_event.trigger_id {
                &&& a4 == ProcessAction::Append(0) && s4.events == s3.events
                &&& a5 == ProcessAction::Append(1) && s5.events == s3.events
            } else {
                a4 == ProcessAction::Stop
            }
        }),
{
    let (s1, a1) = process_step(s, ProcessEvent::Received(first, n));
    let (s2, a2) = process_step(s1, ProcessEvent::Shutdown(false));
    let (s3, a3) = process_step(s2, ProcessEvent::Received(second, m));
    assert(s3.events =~= seq![suppressed_event(first@), suppressed_event(second@)]);
}

/// When no more events will come, and when the program shuts down, everything
/// stored is written out, and then processing stops.
pub proof fn processing_ends_written_out(s: ProcessState)
    ensures
        ({
            let (s1, a1) = process_step(s, ProcessEvent::Disconnected);
            let (s2, a2) = process_step(s1, ProcessEvent::Flushed);
            s.phase == ProcessPhase::Receiving ==> a1 == ProcessAction::FlushAll && a2
                == ProcessAction::Stop && s2.phase == ProcessPhase::Stopped
        }),
        ({
            let (s1, a1) = process_step(s, ProcessEvent::Shutdown(true));
            let (s2, a2) = process_step(s1, ProcessEvent::Flushed);
            s.phase == ProcessPhase::CheckingShutdown ==> a1 == ProcessAction::FlushAll && a2
                == ProcessAction::Stop && s2.phase == ProcessPhase::Stopped
        }),
{
}

/// What is done while the events `es` come one after another from the start on.
pub open spec fn process_actions(es: Seq<ProcessEvent>) -> Seq<ProcessAction>
    decreases es.len(),
{
    if es.len() == 0 {
        seq![]
    } else {
        process_actions(es.drop_last()).push(
            process_step(process_after(es.drop_last()), es.last()).1,
        )
    }
}

/// The events of the boards that came in, suppressed, in the order in which they
/// came.
pub open spec fn taken_in(es: Seq<ProcessEvent>) -> Seq<BoardEventContents>
    decreases es.len(),
{
    if es.len() == 0 {
        seq![]
    } else {
        match es.last() {
            ProcessEvent::Received(board_event, _) => taken_in(es.drop_last()).push(
                suppressed_event(board_event@),
            ),
            _ => taken_in(es.drop_last()),
        }
    }
}

/// The events of the boards that were to be stored, in the order in which this
/// was wanted.
pub open spec fn stored(es: Seq<ProcessEvent>) -> Seq<BoardEventContents>
    decreases es.len(),
{
    if es.len() == 0 {
        seq![]
    } else {
        match process_step(process_after(es.drop_last()), es.last()).1 {
            ProcessAction::Append(i) => stored(es.drop_last()).push(
                process_after(es).events[i as int],
            ),
            _ => stored(es.drop_last()),
        }
    }
}

/// How many statistics `actions` send.
pub open spec fn stats_sent(actions: Seq<ProcessAction>) -> nat
    decreases actions.len(),
{
    if actions.len() == 0 {
        0
    } else {
        stats_sent(actions.drop_last()) + if actions.last() is SendStats {
            1nat
        } else {
            0
        }
    }
}

/// Whether a pair agrees on its trigger. Of a board without an event in the pair
/// the trigger counts as zero.
pub open spec fn pair_agrees(pair: Seq<BoardEventContents>) -> bool {
    half_info(pair, 0).trigger_id == half_info(pair, 1).trigger_id
}

/// The events that came in are stored in pairs and in order, none left out and
/// none twice, until processing ends: a pair is stored as soon as it is complete,
/// its statistics are taken and its triggers agree. What is not stored yet is the
/// pair in hand.
pub proof fn received_events_are_stored_in_pairs(es: Seq<ProcessEvent>)
    requires
        process_accepts_all(es),
    ensures
        ({
            let s = process_after(es);
            let received = taken_in(es);
            // How many of the received events belong to earlier pairs.
            let earlier = received.len() - s.events.len();
            &&& earlier >= 0
            &&& earlier % 2 == 0
            &&& s.events == received.skip(earlier)
            &&& stored(es).len() == earlier + (match s.phase {
                ProcessPhase::Appending(i) => i + 1,
                _ => 0,
            })
            &&& stored(es) == received.take(stored(es).len() as int)
            &&& forall|k: int|
                0 <= k < earlier && k % 2 == 0 ==> pair_agrees(
                    #[trigger] received.subrange(k, k + 2),
                )
            &&& s.phase is Appending ==> pair_agrees(s.events)
        }),
    decreases es.len(),
{
    if es.len() > 0 {
        let rest = es.drop_last();
        received_events_are_stored_in_pairs(rest);
        processing_is_sound(rest);
        processing_is_sound(es);
        let before = process_after(rest);
        let s = process_after(es);
        let received = taken_in(es);
        let known = taken_in(rest);
        let earlier = received.len() - s.events.len();
        let earlier_before = known.len() - before.events.len();
        assert(s.events =~= received.skip(earlier)) by {
            if es.last() is Received {
                assert(received.drop_last() =~= known);
            }
        }
        if let ProcessAction::Append(i) = process_step(before, es.last()).1 {
            assert(s.events[i as int] == received[earlier + i]);
        }
        assert(stored(es) =~= received.take(stored(es).len() as int));
        assert forall|k: int| 0 <= k < earlier && k % 2 == 0 implies pair_agrees(
            #[trigger] received.subrange(k, k + 2),
        ) by {
            if k < earlier_before {
                assert(received.subrange(k, k + 2) =~= known.subrange(k, k + 2));
            } else {
                assert(received.subrange(k, k + 2) =~= before.events);
            }
        }
    }
}

/// The events of the boards as they came in.
pub open spec fn came_in(es: Seq<ProcessEvent>) -> Seq<BoardEventContents>
    decreases es.len(),
{
    if es.len() == 0 {
        seq![]
    } else {
        match es.last() {
            ProcessEvent::Received(board_event, _) => came_in(es.drop_last()).push(board_event@),
            _ => came_in(es.drop_last()),
        }
    }
}

/// Each event that came in was suppressed, and nothing else was done to it.
proof fn lemma_taken_in_suppressed(es: Seq<ProcessEvent>)
    ensures
        taken_in(es).len() == came_in(es).len(),
        forall|k: int|
            0 <= k < came_in(es).len() ==> #[trigger] taken_in(es)[k] == suppressed_event(
                came_in(es)[k],
            ),
    decreases es.len(),
{
    if es.len() > 0 {
        lemma_taken_in_suppressed(es.drop_last());
    }
}

/// The event that is stored at some place has the board, the time stamp, the
/// trigger, the sizes and the layout of the event that came in at that place, and
/// as many samples, all of them zero.
pub proof fn stored_events_are_those_that_came_in(es: Seq<ProcessEvent>, k: int)
    requires
        process_accepts_all(es),
        0 <= k < stored(es).len(),
    ensures
        k < came_in(es).len(),
        ({
            let before = came_in(es)[k];
            let after = stored(es)[k];
            &&& after.board_id == before.board_id
            &&& after.event.timestamp == before.event.timestamp
            &&& after.event.trigger_id == before.event.trigger_id
            &&& after.event.event_size == before.event.event_size
            &&& after.event.n_channels == before.event.n_channels
            &&& after.event.shape == before.event.shape
            &&& after.event.waveform_starts == before.event.waveform_starts
            &&& after.event.n_samples == before.event.n_samples
            &&& after.event.n_allocated_samples == before.event.n_allocated_samples
            &&& after.event.samples.len() == before.event.samples.len()
            &&& forall|i: int|
                0 <= i < after.event.samples.len() ==> #[trigger] after.event.samples[i] == 0
        }),
{
    processing_is_sound(es);
    received_events_are_stored_in_pairs(es);
    lemma_taken_in_suppressed(es);
    assert(stored(es)[k] == taken_in(es)[k]);
    suppression_keeps_all_but_samples(came_in(es)[k]);
}

/// An event that comes in tells its size, its trigger and its board of the half that
/// its board records, and leaves the other half as it is known.
pub proof fn halves_are_remembered(s: ProcessState, event: BoardEvent, waiting: usize)
    requires
        process_accepts(s, ProcessEvent::Received(event, waiting)),
    ensures
        ({
            let info = process_step(s, ProcessEvent::Received(event, waiting)).0.run_info;
            let (half, other, other_before) = if event.board_id == 0 {
                (info.board0_info, info.board1_info, s.run_info.board1_info)
            } else {
                (info.board1_info, info.board0_info, s.run_info.board0_info)
            };
            &&& half.event_size == event.event.c_event.event_size
            &&& half.trigger_id == event.event.c_event.trigger_id
            &&& half.board_id == event.board_id
            &&& other == other_before
        }),
{
}

/// The size of an event is that of its two halves together.
pub proof fn sizes_are_added(info: RunInfo)
    ensures
        total_event_size(info) == info.board0_info.event_size + info.board1_info.event_size,
{
}

/// While no event comes in, processing keeps what it has in hand and goes on.
pub proof fn waiting_changes_nothing(s: ProcessState)
    ensures
        s.phase == ProcessPhase::Receiving ==> {
            let (s1, a1) = process_step(s, ProcessEvent::TimedOut);
            let (s2, a2) = process_step(s1, ProcessEvent::Shutdown(false));
            &&& a1 == ProcessAction::CheckShutdown
            &&& a2 == ProcessAction::Receive
            &&& s1.events == s.events && s1.run_info == s.run_info
            &&& s2 == s
        },
{
}

/// Processing starts with nothing in hand and nothing known.
pub proof fn processing_starts_with_nothing()
    ensures
        ({
            let s = process_start();
            &&& s.phase == ProcessPhase::Receiving
            &&& s.events.len() == 0
            &&& s.run_info == no_run_info()
            &&& s.run_info.board0_info.event_size == 0 && s.run_info.board1_info.event_size == 0
            &&& s.run_info.board0_info.trigger_id == 0 && s.run_info.board1_info.trigger_id == 0
            &&& s.run_info.board0_info.board_id == 0 && s.run_info.board1_info.board_id == 0
            &&& s.run_info.event_channel_buf == 0
        }),
{
}

/// An event that comes in goes to the end of those in hand. With the second one the
/// statistics of the pair are sent as they are then known; and the pair is stored
/// exactly if they are taken and its triggers agree, or else processing stops.
pub proof fn pairs_are_judged_by_their_statistics(
    s: ProcessState,
    event: BoardEvent,
    waiting: usize,
    sent: bool,
)
    requires
        process_accepts(s, ProcessEvent::Received(event, waiting)),
    ensures
        ({
            let (s1, a1) = process_step(s, ProcessEvent::Received(event, waiting));
            let (s2, a2) = process_step(s1, ProcessEvent::StatsSent(sent));
            &&& s1.events.len() == s.events.len() + 1
            &&& s1.events.drop_last() == s.events
            &&& s1.run_info.event_channel_buf == s.run_info.event_channel_buf + waiting
            &&& s.events.len() != 1 ==> a1 == ProcessAction::CheckShutdown && s1.phase
                == ProcessPhase::CheckingShutdown
            &&& s.events.len() == 1 ==> {
                &&& a1 == ProcessAction::SendStats(s1.run_info)
                &&& s1.phase == ProcessPhase::SendingStats
                &&& s2.events == s1.events && s2.run_info == s1.run_info
                &&& if sent && s1.run_info.board0_info.trigger_id
                    == s1.run_info.board1_info.trigger_id {
                    a2 == ProcessAction::Append(0) && s2.phase == ProcessPhase::Appending(0)
                } else {
                    a2 == ProcessAction::Stop && s2.phase == ProcessPhase::Stopped
                }
            }
        }),
{
    let s1 = process_step(s, ProcessEvent::Received(event, waiting)).0;
    assert(s1.events.drop_last() =~= s.events);
}

/// What can come follows from what is waited for: events of the boards 0 and 1 as
/// long as those that wait behind them can be counted, and otherwise exactly the
/// answer to what was wanted.
pub proof fn processing_takes_every_answer(s: ProcessState, event: ProcessEvent)
    ensures
        process_accepts(s, event) <==> match event {
            ProcessEvent::Received(board_event, waiting) => {
                &&& s.phase == ProcessPhase::Receiving
                &&& board_event.board_id == 0 || board_event.board_id == 1
                &&& waiting <= usize::MAX - s.run_info.event_channel_buf
            },
            ProcessEvent::TimedOut | ProcessEvent::Disconnected => s.phase
                == ProcessPhase::Receiving,
            ProcessEvent::StatsSent(_) => s.phase == ProcessPhase::SendingStats,
            ProcessEvent::Appended => s.phase is Appending,
            ProcessEvent::Shutdown(_) => s.phase == ProcessPhase::CheckingShutdown,
            ProcessEvent::Flushed => s.phase == ProcessPhase::Flushing,
        },
{
}

/// The state of a processor is what it knows, the contents of the events that it has
/// in hand, and what it waits for.
pub proof fn processors_show_their_state(processor: EventProcessor, i: int)
    ensures
        processor@.run_info == processor.run_info,
        processor@.phase == processor.phase,
        processor@.events.len() == processor.events@.len(),
        0 <= i < processor.events@.len() ==> processor@.events[i] == processor.events@[i]@,
{
}

/// How many events were waiting behind each of the events that came in.
pub open spec fn waited(es: Seq<ProcessEvent>) -> Seq<usize>
    decreases es.len(),
{
    if es.len() == 0 {
        seq![]
    } else {
        match es.last() {
            ProcessEvent::Received(_, waiting) => waited(es.drop_last()).push(waiting),
            _ => waited(es.drop_last()),
        }
    }
}

/// The count of waiting events is the sum over the events in hand, and none but
/// those.
pub proof fn waiting_events_are_added_up(es: Seq<ProcessEvent>)
    requires
        process_accepts_all(es),
    ensures
        ({
            let s = process_after(es);
            let n = waited(es).len() as int;
            &&& n == came_in(es).len()
            &&& s.events.len() <= n
            &&& s.events.len() == 0 ==> s.run_info.event_channel_buf == 0
            &&& s.events.len() == 1 ==> s.run_info.event_channel_buf == waited(es)[n - 1]
            &&& s.events.len() == 2 ==> s.run_info.event_channel_buf == waited(es)[n - 2]
                + waited(es)[n - 1]
        }),
    decreases es.len(),
{
    if es.len() > 0 {
        waiting_events_are_added_up(es.drop_last());
        processing_is_sound(es.drop_last());
    }
}

/// Statistics are sent once for every two events that came in.
pub proof fn statistics_are_sent_for_every_pair(es: Seq<ProcessEvent>)
    requires
        process_accepts_all(es),
    ensures
        stats_sent(process_actions(es)) == taken_in(es).len() / 2,
    decreases es.len(),
{
    if es.len() > 0 {
        let rest = es.drop_last();
        statistics_are_sent_for_every_pair(rest);
        received_events_are_stored_in_pairs(rest);
        processing_is_sound(rest);
        assert(process_actions(es).drop_last() =~= process_actions(rest));
    }
}

/// What is stored is written out at most once, and nothing but the end of
/// processing follows; and nothing follows the end.
pub proof fn processing_ends_once(es: Seq<ProcessEvent>)
    requires
        process_accepts_all(es),
    ensures
        ({
            let actions = process_actions(es);
            let phase = process_after(es).phase;
            let n = actions.len();
            &&& n == es.len()
            &&& forall|k: int|
                0 <= k < n && #[trigger] actions[k] == ProcessAction::FlushAll ==> {
                    ||| k == n - 1 && phase == ProcessPhase::Flushing
                    ||| k == n - 2 && actions[n - 1] == ProcessAction::Stop
                }
            &&& forall|k: int|
                0 <= k < n && #[trigger] actions[k] == ProcessAction::Stop ==> k == n - 1 && phase
                    == ProcessPhase::Stopped
        }),
    decreases es.len(),
{
    if es.len() > 0 {
        let rest = es.drop_last();
        processing_ends_once(rest);
        let actions = process_actions(es);
        let earlier = process_actions(rest);
        let phase = process_after(es).phase;
        let n = actions.len();
        assert(actions.drop_last() =~= earlier);
        assert forall|k: int| 0 <= k < n && #[trigger] actions[k]
            == ProcessAction::FlushAll implies k == n - 1 && phase == ProcessPhase::Flushing || k
            == n - 2 && actions[n - 1] == ProcessAction::Stop by {
            if k < n - 1 {
                assert(actions[k] == earlier[k]);
                if k < n - 2 {
                    assert(earlier[n - 2] == ProcessAction::Stop);
                }
            }
        }
        assert forall|k: int| 0 <= k < n && #[trigger] actions[k]
            == ProcessAction::Stop implies k == n - 1 && phase == ProcessPhase::Stopped by {
            if k < n - 1 {
                assert(actions[k] == earlier[k]);
            }
        }
    }
}

/// Event processing stops only because it has written everything out, because
/// nobody takes its statistics, or because the boards disagree on the trigger.
pub proof fn processing_stops_for_a_reason(es: Seq<ProcessEvent>)
    requires
        es.len() > 0,
        process_accepts_all(es),
        process_step(process_after(es.drop_last()), es.last()).1 == ProcessAction::Stop,
    ensures
        ({
            let before = process_after(es.drop_last());
            ||| before.phase == ProcessPhase::Flushing
            ||| es.last() == ProcessEvent::StatsSent(false)
            ||| before.phase == ProcessPhase::SendingStats
                && before.run_info.board0_info.trigger_id
                != before.run_info.board1_info.trigger_id
        }),
{
}

impl EventProcessor {
    /// Starts event processing. The first thing to be done is to receive.
    pub fn new() -> (processor: EventProcessor)
        ensures
            processor@ == process_start(),
    {
        let processor = EventProcessor {
            run_info: RunInfo::default(),
            events: Vec::with_capacity(4),
            phase: ProcessPhase::Receiving,
        };
        assert(processor@ =~= process_start());
        processor
    }

    /// Tells whether `event` can follow.
    pub fn accepts(&self, event: &ProcessEvent) -> (accepts: bool)
        ensures
            accepts == process_accepts(self@, *event),
    {
        match (self.phase, event) {
            (ProcessPhase::Receiving, ProcessEvent::Received(board_event, waiting)) => {
                board_event.board_id < 2 && *waiting <= usize::MAX
                    - self.run_info.event_channel_buf
            },
            (ProcessPhase::Receiving, ProcessEvent::TimedOut) => true,
            (ProcessPhase::Receiving, ProcessEvent::Disconnected) => true,
            (ProcessPhase::SendingStats, ProcessEvent::StatsSent(_)) => true,
            (ProcessPhase::Appending(_), ProcessEvent::Appended) => true,
            (ProcessPhase::CheckingShutdown, ProcessEvent::Shutdown(_)) => true,
            (ProcessPhase::Flushing, ProcessEvent::Flushed) => true,
            _ => false,
        }
    }

    /// Takes in one event of a pair.
    fn take_in(&mut self, board_event: BoardEvent, waiting: usize)
        requires
            board_event.board_id < 2,
            old(self).run_info.event_channel_buf + waiting <= usize::MAX,
        ensures
            final(self).run_info == with_half(old(self).run_info, board_event@, waiting),
            final(self)@.events == old(self)@.events.push(suppressed_event(board_event@)),
            final(self).phase == old(self).phase,
    {
        let mut board_event = board_event;
        let info = BoardInfo {
            event_size: board_event.event.c_event.event_size,
            trigger_id: board_event.event.c_event.trigger_id,
            board_id: board_event.board_id,
        };
        if board_event.board_id == 0 {
            self.run_info.board0_info = info;
        } else {
            self.run_info.board1_info = info;
        }
        self.run_info.event_channel_buf = self.run_info.event_channel_buf + waiting;
        zero_suppress(&mut board_event);
        self.events.push(board_event);
        assert(self@.events =~= old(self)@.events.push(board_event@));
    }
}

/// Decides what event processing does next, now that `event` has come.
pub fn event_processing(processor: &mut EventProcessor, event: ProcessEvent) -> (action:
    ProcessAction)
    requires
        process_accepts(old(processor)@, event),
    ensures
        (final(processor)@, action) == process_step(old(processor)@, event),
{
    match event {
        ProcessEvent::Received(board_event, waiting) => {
            processor.take_in(board_event, waiting);
            if processor.events.len() == 2 {
                processor.phase = ProcessPhase::SendingStats;
                ProcessAction::SendStats(processor.run_info)
            } else {
                processor.phase = ProcessPhase::CheckingShutdown;
                ProcessAction::CheckShutdown
            }
        },
        ProcessEvent::TimedOut => {
            processor.phase = ProcessPhase::CheckingShutdown;
            ProcessAction::CheckShutdown
        },
        ProcessEvent::Disconnected => {
            processor.phase = ProcessPhase::Flushing;
            ProcessAction::FlushAll
        },
        ProcessEvent::StatsSent(sent) => {
            if !sent {
                processor.phase = ProcessPhase::Stopped;
                return ProcessAction::Stop;
            }
            if processor.run_info.board0_info.trigger_id
                != processor.run_info.board1_info.trigger_id {
                processor.phase = ProcessPhase::Stopped;
                return ProcessAction::Stop;
            }
            processor.phase = ProcessPhase::Appending(0);
            ProcessAction::Append(0)
        },
        ProcessEvent::Appended => {
            if processor.phase == ProcessPhase::Appending(0) {
                processor.phase = ProcessPhase::Appending(1);
                ProcessAction::Append(1)
            } else {
                processor.run_info = RunInfo::default();
                processor.events.clear();
                processor.phase = ProcessPhase::CheckingShutdown;
                assert(processor@.events =~= seq![]);
                ProcessAction::CheckShutdown
            }
        },
        ProcessEvent::Shutdown(shutdown) => {
            if shutdown {
                processor.phase = ProcessPhase::Flushing;
                ProcessAction::FlushAll
            } else {
                processor.phase = ProcessPhase::Receiving;
                ProcessAction::Receive
            }
        },
        ProcessEvent::Flushed => {
            processor.phase = ProcessPhase::Stopped;
            ProcessAction::Stop
        },
    }
}

} // verus!
