//! Data taking: the endpoints of all boards are set up, and from the start of
//! the acquisition on the boards are read out in turn. Events are handed on
//! when two boards have delivered one each in the same round.
//!
//! [`data_taking_thread`] decides. Its caller performs each [`TakeAction`] and
//! comes back with the [`TakeEvent`] that it led to.
use crate::config::Conf;
use crate::device::{Command, FELibReturn};
use crate::event::{empty_event, event_fits, BoardEvent, BoardEventContents};
use crate::event::{EventContents, EventWrapper};
use vstd::prelude::*;

verus! {

/// The number of channels of a board. All of them are read out, whichever are
/// enabled.
pub const NUM_CH: usize = 64;

/// Where the endpoint of a board is looked up.
pub const ENDPOINT_PATH: &'static str = "/endpoint/scope";

/// Where the folder of an endpoint is looked up, below the endpoint itself.
pub const PARENT_PATH: &'static str = "";

/// The parameter of an endpoint's folder that names the active endpoint.
pub const ACTIVE_ENDPOINT_PATH: &'static str = "/par/activeendpoint";

/// The name of the endpoint that is made active.
pub const ENDPOINT_NAME: &'static str = "scope";

/// The steps by which the endpoint of one board is set up.
#[derive(Debug, Clone, Copy, PartialEq, Eq, Structural)]
pub enum SetupStep {
    GetHandle,
    GetParentHandle,
    SelectEndpoint,
    SetDataFormat,
    Arm,
}

/// What data taking waits for.
#[derive(Debug, Clone, Copy, PartialEq, Eq, Structural)]
pub enum TakePhase {
    /// A step in setting up the board with this index.
    Setup(usize, SetupStep),
    SignallingConfigured,
    AwaitingStart,
    CheckingShutdown,
    /// The board with this index is being read out.
    Reading(usize),
    Sending,
    Stopped,
}

/// What data taking is told.
#[derive(Debug, Clone, Copy, PartialEq, Eq, Structural)]
pub enum TakeEvent {
    /// A handle has been looked up.
    Handle(u64),
    /// What was wanted has been done.
    Done,
    /// What was wanted has failed.
    Failed(FELibReturn),
    /// Whether data taking is to stop.
    Shutdown(bool),
    /// A read has returned. On success the board's buffer holds the event.
    Read(FELibReturn),
    /// Whether the event could be sent.
    Sent(bool),
}

/// What data taking wants done. An event to be sent is an `E`.
#[derive(Debug)]
pub enum TakeAction<E> {
    /// Look up [`ENDPOINT_PATH`] below this handle.
    GetHandle(u64),
    /// Look up the parent of [`PARENT_PATH`] below this handle.
    GetParentHandle(u64),
    /// Set [`ACTIVE_ENDPOINT_PATH`] of this folder to [`ENDPOINT_NAME`].
    SelectEndpoint(u64),
    /// Set the format in which this endpoint delivers events.
    SetDataFormat(u64),
    /// Send a command to this board.
    SendCommand(u64, Command),
    SignalConfigured,
    AwaitStart,
    CheckShutdown,
    /// Read from the board with this handle into the buffer of this index.
    Read(u64, usize),
    Send(E),
    /// Data taking is over.
    Stop,
    /// Data taking is over because of this.
    Fail(FELibReturn),
}

impl View for TakeAction<BoardEvent> {
    type V = TakeAction<BoardEventContents>;

    open spec fn view(&self) -> TakeAction<BoardEventContents> {
        match *self {
            TakeAction::GetHandle(handle) => TakeAction::GetHandle(handle),
            TakeAction::GetParentHandle(handle) => TakeAction::GetParentHandle(handle),
            TakeAction::SelectEndpoint(handle) => TakeAction::SelectEndpoint(handle),
            TakeAction::SetDataFormat(handle) => TakeAction::SetDataFormat(handle),
            TakeAction::SendCommand(handle, command) => TakeAction::SendCommand(handle, command),
            TakeAction::SignalConfigured => TakeAction::SignalConfigured,
            TakeAction::AwaitStart => TakeAction::AwaitStart,
            TakeAction::CheckShutdown => TakeAction::CheckShutdown,
            TakeAction::Read(handle, buffer) => TakeAction::Read(handle, buffer),
            TakeAction::Send(event) => TakeAction::Send(event@),
            TakeAction::Stop => TakeAction::Stop,
            TakeAction::Fail(code) => TakeAction::Fail(code),
        }
    }
}

/// The state of data taking.
#[derive(Debug)]
pub struct DataTaker {
    /// The number and the handle of each board.
    pub boards: Vec<(usize, u64)>,
    /// The number of samples of a waveform.
    pub waveform_len: usize,
    /// The endpoint and its folder that are being set up.
    pub ep_handle: u64,
    pub ep_folder_handle: u64,
    /// A buffer for each board, by the number of the board. Reading into a buffer
    /// leaves its shape as it is.
    pub events: Vec<EventWrapper>,
    /// The events that have been read and not yet handed on.
    pub board_events: Vec<BoardEvent>,
    pub phase: TakePhase,
}

/// The state of data taking, as values.
#[verifier::ext_equal]
pub struct TakeState {
    pub boards: Seq<(usize, u64)>,
    pub waveform_len: usize,
    pub ep_handle: u64,
    pub ep_folder_handle: u64,
    pub events: Seq<EventContents>,
    pub board_events: Seq<BoardEventContents>,
    pub phase: TakePhase,
}

impl View for DataTaker {
    type V = TakeState;

    open spec fn view(&self) -> TakeState {
        TakeState {
            boards: self.boards@,
            waveform_len: self.waveform_len,
            ep_handle: self.ep_handle,
            ep_folder_handle: self.ep_folder_handle,
            events: self.events@.map_values(|event: EventWrapper| event@),
            board_events: self.board_events@.map_values(|event: BoardEvent| event@),
            phase: self.phase,
        }
    }
}

/// Whether every board's number is the index of a buffer.
pub open spec fn boards_are_numbered(boards: Seq<(usize, u64)>) -> bool {
    forall|i: int| 0 <= i < boards.len() ==> (#[trigger] boards[i]).0 < boards.len()
}

/// The step that the setup of the boards begins with, or what follows it when
/// there are no more boards.
pub open spec fn setup_from(boards: Seq<(usize, u64)>, i: int) -> (
    TakePhase,
    TakeAction<BoardEventContents>,
) {
    if i < boards.len() {
        (TakePhase::Setup(i as usize, SetupStep::GetHandle), TakeAction::GetHandle(boards[i].1))
    } else {
        (TakePhase::SignallingConfigured, TakeAction::SignalConfigured)
    }
}

/// The state in which data taking starts.
pub open spec fn take_start(boards: Seq<(usize, u64)>, waveform_len: usize) -> TakeState {
    TakeState {
        boards,
        waveform_len,
        ep_handle: 0,
        ep_folder_handle: 0,
        events: seq![],
        board_events: seq![],
        phase: setup_from(boards, 0).0,
    }
}

/// Whether an event holds all channels of a board, each with a waveform of the
/// given length.
pub open spec fn well_shaped(event: EventContents, waveform_len: usize) -> bool {
    &&& event.shape == (NUM_CH as nat, waveform_len as nat)
    &&& event.n_channels == NUM_CH
}

/// Whether `events` can stand in the buffers: there is one for each of the
/// buffers of `s`, and it holds all channels.
pub open spec fn can_fill(s: TakeState, events: Seq<EventContents>) -> bool {
    &&& events.len() == s.events.len()
    &&& forall|i: int| 0 <= i < events.len() ==> well_shaped(#[trigger] events[i], s.waveform_len)
}

/// The state in which data taking starts under a configuration.
pub open spec fn configured_start(boards: Seq<(usize, u64)>, config: Conf) -> TakeState {
    take_start(boards, config.board_settings.record_len)
}

/// What every operation of data taking keeps: the buffers are there once the
/// acquisition has started, one for each board; every event in hand came from
/// one of the boards; and all of them hold all channels.
pub open spec fn take_inv(s: TakeState) -> bool {
    &&& boards_are_numbered(s.boards)
    &&& s.boards.len() <= usize::MAX
    &&& event_fits(NUM_CH as nat, s.waveform_len as nat)
    &&& forall|i: int|
        0 <= i < s.board_events.len() ==> (#[trigger] s.board_events[i]).board_id < s.boards.len()
            && well_shaped(s.board_events[i].event, s.waveform_len)
    &&& can_fill(s, s.events)
    &&& match s.phase {
        TakePhase::Setup(i, _) => i < s.boards.len() && s.board_events.len() == 0,
        TakePhase::SignallingConfigured => s.board_events.len() == 0,
        TakePhase::AwaitingStart => s.board_events.len() == 0,
        TakePhase::CheckingShutdown => s.events.len() == s.boards.len(),
        TakePhase::Reading(i) => {
            &&& i < s.boards.len()
            &&& s.events.len() == s.boards.len()
            &&& s.board_events.len() <= i
        },
        TakePhase::Sending => {
            &&& s.events.len() == s.boards.len()
            &&& s.boards.len() >= 2
            &&& s.board_events.len() <= 1
        },
        TakePhase::Stopped => true,
    }
}

/// Whether `event` can follow in the state `s`.
pub open spec fn take_accepts(s: TakeState, event: TakeEvent) -> bool {
    match (s.phase, event) {
        (TakePhase::Setup(_, SetupStep::GetHandle), TakeEvent::Handle(_)) => true,
        (TakePhase::Setup(_, SetupStep::GetParentHandle), TakeEvent::Handle(_)) => true,
        (TakePhase::Setup(_, SetupStep::SelectEndpoint), TakeEvent::Done) => true,
        (TakePhase::Setup(_, SetupStep::SetDataFormat), TakeEvent::Done) => true,
        (TakePhase::Setup(_, SetupStep::Arm), TakeEvent::Done) => true,
        (TakePhase::Setup(_, _), TakeEvent::Failed(_)) => true,
        (TakePhase::SignallingConfigured, TakeEvent::Done) => true,
        (TakePhase::AwaitingStart, TakeEvent::Done) => true,
        (TakePhase::CheckingShutdown, TakeEvent::Shutdown(_)) => true,
        (TakePhase::Reading(_), TakeEvent::Read(_)) => true,
        (TakePhase::Sending, TakeEvent::Sent(_)) => true,
        _ => false,
    }
}

/// What follows the setup step `step` of the board with index `i`, which has
/// ended with `event`. The first failure ends data taking.
pub open spec fn setup_step(s: TakeState, i: usize, step: SetupStep, event: TakeEvent) -> (
    TakeState,
    TakeAction<BoardEventContents>,
) {
    let dev = s.boards[i as int].1;
    match (step, event) {
        (SetupStep::GetHandle, TakeEvent::Handle(handle)) => (
            TakeState {
                ep_handle: handle,
                phase: TakePhase::Setup(i, SetupStep::GetParentHandle),
                ..s
            },
            TakeAction::GetParentHandle(handle),
        ),
        (SetupStep::GetParentHandle, TakeEvent::Handle(handle)) => (
            TakeState {
                ep_folder_handle: handle,
                phase: TakePhase::Setup(i, SetupStep::SelectEndpoint),
                ..s
            },
            TakeAction::SelectEndpoint(handle),
        ),
        (SetupStep::SelectEndpoint, TakeEvent::Done) => (
            TakeState { phase: TakePhase::Setup(i, SetupStep::SetDataFormat), ..s },
            TakeAction::SetDataFormat(s.ep_handle),
        ),
        (SetupStep::SetDataFormat, TakeEvent::Done) => (
            TakeState { phase: TakePhase::Setup(i, SetupStep::Arm), ..s },
            TakeAction::SendCommand(dev, Command::ArmAcquisition),
        ),
        (_, TakeEvent::Failed(code)) => (
            TakeState { phase: TakePhase::Stopped, ..s },
            TakeAction::Fail(code),
        ),
        _ => {
            let (phase, action) = setup_from(s.boards, i + 1);
            (TakeState { phase, ..s }, action)
        },
    }
}

/// The state after the board with index `i` has been read out with the result
/// `ret`: only a success delivers an event, and leaves an empty buffer behind.
pub open spec fn after_read(s: TakeState, i: usize, ret: FELibReturn) -> TakeState {
    let board_id = s.boards[i as int].0;
    if ret == FELibReturn::Success {
        TakeState {
            events: s.events.update(board_id as int, empty_event(NUM_CH, s.waveform_len)),
            board_events: s.board_events.push(
                BoardEventContents { board_id, event: s.events[board_id as int] },
            ),
            ..s
        }
    } else {
        s
    }
}

/// What follows a round: its events are handed on if there are exactly two.
pub open spec fn end_of_round(s: TakeState) -> (TakeState, TakeAction<BoardEventContents>) {
    if s.board_events.len() == 2 {
        (
            TakeState {
                board_events: s.board_events.skip(1),
                phase: TakePhase::Sending,
                ..s
            },
            TakeAction::Send(s.board_events[0]),
        )
    } else {
        (TakeState { phase: TakePhase::CheckingShutdown, ..s }, TakeAction::CheckShutdown)
    }
}

/// What the state `s` becomes by `event`, and what is then to be done.
pub open spec fn take_step(s: TakeState, event: TakeEvent) -> (
    TakeState,
    TakeAction<BoardEventContents>,
) {
    match (s.phase, event) {
        (TakePhase::Setup(i, step), _) => setup_step(s, i, step, event),
        (TakePhase::SignallingConfigured, _) => (
            TakeState { phase: TakePhase::AwaitingStart, ..s },
            TakeAction::AwaitStart,
        ),
        (TakePhase::AwaitingStart, _) => (
            TakeState {
                events: Seq::new(s.boards.len(), |i: int| empty_event(NUM_CH, s.waveform_len)),
                phase: TakePhase::CheckingShutdown,
                ..s
            },
            TakeAction::CheckShutdown,
        ),
        (TakePhase::CheckingShutdown, TakeEvent::Shutdown(true)) => (
            TakeState { phase: TakePhase::Stopped, ..s },
            TakeAction::Stop,
        ),
        (TakePhase::CheckingShutdown, _) => {
            let fresh = TakeState { board_events: seq![], ..s };
            if s.boards.len() > 0 {
                (
                    TakeState { phase: TakePhase::Reading(0), ..fresh },
                    TakeAction::Read(s.boards[0].1, s.boards[0].0),
                )
            } else {
                end_of_round(fresh)
            }
        },
        (TakePhase::Reading(i), TakeEvent::Read(ret)) => {
            let read = after_read(s, i, ret);
            if ret != FELibReturn::Stop && i + 1 < s.boards.len() {
                (
                    TakeState { phase: TakePhase::Reading((i + 1) as usize), ..read },
                    TakeAction::Read(s.boards[i + 1].1, s.boards[i + 1].0),
                )
            } else {
                end_of_round(read)
            }
        },
        (TakePhase::Sending, TakeEvent::Sent(true)) => if s.board_events.len() > 0 {
            (
                TakeState { board_events: s.board_events.skip(1), ..s },
                TakeAction::Send(s.board_events[0]),
            )
        } else {
            (TakeState { phase: TakePhase::CheckingShutdown, ..s }, TakeAction::CheckShutdown)
        },
        _ => (
            TakeState { board_events: seq![], phase: TakePhase::CheckingShutdown, ..s },
            TakeAction::CheckShutdown,
        ),
    }
}

/// The state `s` after the boards have written `events` into the buffers.
pub open spec fn filled(s: TakeState, events: Seq<EventContents>) -> TakeState {
    TakeState { events, ..s }
}

/// The endpoint of a board is looked up, selected, given its format and armed,
/// in this order; and then the next board's turn comes.
pub proof fn endpoints_are_set_up_in_order(s: TakeState, i: usize, endpoint: u64, folder: u64)
    requires
        take_inv(s),
        s.phase == TakePhase::Setup(i, SetupStep::GetHandle),
    ensures
        ({
            let (s1, a1) = take_step(s, TakeEvent::Handle(endpoint));
            let (s2, a2) = take_step(s1, TakeEvent::Handle(folder));
            let (s3, a3) = take_step(s2, TakeEvent::Done);
            let (s4, a4) = take_step(s3, TakeEvent::Done);
            let (s5, a5) = take_step(s4, TakeEvent::Done);
            &&& a1 == TakeAction::<BoardEventContents>::GetParentHandle(endpoint)
            &&& a2 == TakeAction::<BoardEventContents>::SelectEndpoint(folder)
            &&& a3 == TakeAction::<BoardEventContents>::SetDataFormat(endpoint)
            &&& a4 == TakeAction::<BoardEventContents>::SendCommand(
                s.boards[i as int].1,
                Command::ArmAcquisition,
            )
            &&& (s5.phase, a5) == setup_from(s.boards, i + 1)
        }),
{
}

/// The reads of a round, in the order of the boards: what the buffers held when a
/// read returned, and how it returned.
pub open spec fn reads_fit(s: TakeState, reads: Seq<(Seq<EventContents>, FELibReturn)>) -> bool {
    &&& reads.len() <= s.boards.len()
    &&& forall|i: int| 0 <= i < reads.len() ==> can_fill(s, (#[trigger] reads[i]).0)
}

/// Whether the reads make up a whole round: no board but the last one read has
/// stopped, and the round ends there or with the last board.
pub open spec fn whole_round(s: TakeState, reads: Seq<(Seq<EventContents>, FELibReturn)>) -> bool {
    &&& reads.len() > 0
    &&& forall|i: int| 0 <= i < reads.len() - 1 ==> (#[trigger] reads[i]).1 != FELibReturn::Stop
    &&& reads.len() == s.boards.len() || reads.last().1 == FELibReturn::Stop
}

/// The events that the boards delivered in the reads, in the order of the
/// boards.
pub open spec fn delivered(
    boards: Seq<(usize, u64)>,
    reads: Seq<(Seq<EventContents>, FELibReturn)>,
) -> Seq<BoardEventContents>
    decreases reads.len(),
{
    if reads.len() == 0 {
        seq![]
    } else {
        let before = delivered(boards, reads.drop_last());
        let board_id = boards[reads.len() - 1].0;
        if reads.last().1 == FELibReturn::Success {
            before.push(BoardEventContents { board_id, event: reads.last().0[board_id as int] })
        } else {
            before
        }
    }
}

/// The state that the reads, one after another, lead to from `s`.
pub open spec fn after_reads(
    s: TakeState,
    reads: Seq<(Seq<EventContents>, FELibReturn)>,
) -> TakeState
    decreases reads.len(),
{
    if reads.len() == 0 {
        s
    } else {
        take_step(
            filled(after_reads(s, reads.drop_last()), reads.last().0),
            TakeEvent::Read(reads.last().1),
        ).0
    }
}

/// The step that the last of the reads leads to.
pub open spec fn read_step(
    s: TakeState,
    reads: Seq<(Seq<EventContents>, FELibReturn)>,
) -> (TakeState, TakeAction<BoardEventContents>) {
    take_step(
        filled(after_reads(s, reads.drop_last()), reads.last().0),
        TakeEvent::Read(reads.last().1),
    )
}

/// In the middle of a round the events in hand are those delivered so far.
proof fn lemma_round_so_far(s: TakeState, reads: Seq<(Seq<EventContents>, FELibReturn)>)
    requires
        take_inv(s),
        s.phase == TakePhase::Reading(0),
        reads_fit(s, reads),
        reads.len() < s.boards.len(),
        forall|i: int| 0 <= i < reads.len() ==> (#[trigger] reads[i]).1 != FELibReturn::Stop,
    ensures
        ({
            let after = after_reads(s, reads);
            &&& take_inv(after)
            &&& after.phase == TakePhase::Reading(reads.len() as usize)
            &&& after.board_events == delivered(s.boards, reads)
            &&& after.boards == s.boards
            &&& after.waveform_len == s.waveform_len
            &&& after.events.len() == s.events.len()
        }),
    decreases reads.len(),
{
    if reads.len() > 0 {
        let rest = reads.drop_last();
        assert forall|i: int| 0 <= i < rest.len() implies can_fill(s, (#[trigger] rest[i]).0)
            && rest[i].1 != FELibReturn::Stop by {
            assert(rest[i] == reads[i]);
        }
        lemma_round_so_far(s, rest);
        let before = after_reads(s, rest);
        assert(can_fill(s, reads[reads.len() - 1].0));
        take_step_keeps_inv(before, reads.last().0, TakeEvent::Read(reads.last().1));
    } else {
        assert(s.board_events =~= delivered(s.boards, reads));
    }
}

/// A round hands on the events that its boards delivered if these are exactly
/// two: both of them, in the order of the boards, as long as they can be sent.
/// Otherwise it hands on nothing, and nothing is kept for the next round.
pub proof fn rounds_hand_on_pairs(
    s: TakeState,
    reads: Seq<(Seq<EventContents>, FELibReturn)>,
    events: Seq<EventContents>,
)
    requires
        take_inv(s),
        s.phase == TakePhase::Reading(0),
        reads_fit(s, reads),
        whole_round(s, reads),
    ensures
        ({
            let pair = delivered(s.boards, reads);
            let (s1, a1) = read_step(s, reads);
            let (s2, a2) = take_step(filled(s1, events), TakeEvent::Sent(true));
            let (s3, a3) = take_step(filled(s2, events), TakeEvent::Sent(true));
            let (s4, a4) = take_step(filled(s1, events), TakeEvent::Shutdown(false));
            if pair.len() == 2 {
                &&& s1.phase == TakePhase::Sending
                &&& a1 == TakeAction::Send(pair[0])
                &&& a2 == TakeAction::Send(pair[1])
                &&& a3 == TakeAction::<BoardEventContents>::CheckShutdown
            } else {
                &&& s1.phase == TakePhase::CheckingShutdown
                &&& a1 == TakeAction::<BoardEventContents>::CheckShutdown
                &&& s4.phase == TakePhase::Reading(0)
                &&& s4.board_events.len() == 0
            }
        }),
{
    let rest = reads.drop_last();
    assert forall|i: int| 0 <= i < rest.len() implies can_fill(s, (#[trigger] rest[i]).0)
        && rest[i].1 != FELibReturn::Stop by {
        assert(rest[i] == reads[i]);
    }
    lemma_round_so_far(s, rest);
    let before = after_reads(s, rest);
    assert(after_read(
        filled(before, reads.last().0),
        rest.len() as usize,
        reads.last().1,
    ).board_events == delivered(s.boards, reads));
}

/// Fewer than two boards never have an event handed on.
pub proof fn one_board_sends_nothing(s: TakeState, event: TakeEvent)
    requires
        take_inv(s),
        take_accepts(s, event),
        s.boards.len() < 2,
    ensures
        take_step(s, event).1 !is Send,
{
}

/// With two boards, every event that is handed on comes from board 0 or 1.
pub proof fn events_of_two_boards_are_known(s: TakeState, event: TakeEvent, sent: BoardEventContents)
    requires
        take_inv(s),
        take_accepts(s, event),
        s.boards.len() == 2,
        take_step(s, event).1 == TakeAction::Send(sent),
    ensures
        sent.board_id < 2,
{
    sent_events_are_well_shaped(s, event, sent);
}

/// Every event that is handed on came from one of the boards and holds all of its
/// channels, whichever are enabled, with waveforms of the configured length.
pub proof fn sent_events_are_well_shaped(s: TakeState, event: TakeEvent, sent: BoardEventContents)
    requires
        take_inv(s),
        take_accepts(s, event),
        take_step(s, event).1 == TakeAction::Send(sent),
    ensures
        sent.board_id < s.boards.len(),
        well_shaped(sent.event, s.waveform_len),
{
    if let TakePhase::Reading(i) = s.phase {
        let board_id = s.boards[i as int].0;
        assert(board_id < s.boards.len());
        assert(well_shaped(s.events[board_id as int], s.waveform_len));
        if let TakeEvent::Read(ret) = event {
            let read = after_read(s, i, ret);
            assert(s.board_events.len() > 0 ==> read.board_events[0] == s.board_events[0]);
        }
    }
}

/// Under every configuration, every event that is handed on comes from one of the
/// boards and holds 64 channels, each with a waveform of the configured record
/// length.
pub proof fn sent_events_have_the_configured_length(
    boards: Seq<(usize, u64)>,
    config: Conf,
    es: Seq<(Seq<EventContents>, TakeEvent)>,
    sent: BoardEventContents,
)
    requires
        take_inv(configured_start(boards, config)),
        es.len() > 0,
        take_accepts_all(configured_start(boards, config), es),
        take_actions(configured_start(boards, config), es).last() == TakeAction::Send(sent),
    ensures
        sent.event.shape == (64nat, config.board_settings.record_len as nat),
        sent.event.n_channels == 64,
        sent.board_id < boards.len(),
{
    let start = configured_start(boards, config);
    let rest = es.drop_last();
    data_taking_is_sound(start, rest);
    let before = take_after(start, rest);
    let full = filled(before, es.last().0);
    assert(take_inv(full));
    sent_events_are_well_shaped(full, es.last().1, sent);
}

/// The boards are read in turn: a round begins with the first one, goes on to the
/// next unless the last one read has stopped, and each board is read by its own
/// handle into its own buffer.
pub proof fn boards_are_read_in_turn(s: TakeState, event: TakeEvent)
    requires
        take_inv(s),
        take_accepts(s, event),
    ensures
        ({
            let (after, action) = take_step(s, event);
            &&& after.phase matches TakePhase::Reading(j) ==> action == TakeAction::<
                BoardEventContents,
            >::Read(s.boards[j as int].1, s.boards[j as int].0)
            &&& s.phase == TakePhase::CheckingShutdown && event == TakeEvent::Shutdown(false)
                && s.boards.len() > 0 ==> after.phase == TakePhase::Reading(0)
                && after.board_events.len() == 0
            &&& s.phase matches TakePhase::Reading(i) ==> (after.phase matches TakePhase::Reading(j)
                ==> j == i + 1)
            &&& s.phase matches TakePhase::Reading(i) ==> (event != TakeEvent::Read(
                FELibReturn::Stop,
            ) && i + 1 < s.boards.len() <==> after.phase is Reading)
        }),
{
}

/// Each board is set up by its own handle, beginning with the first; and a step that
/// fails ends data taking with what it failed with.
pub proof fn boards_are_set_up_in_turn(
    s: TakeState,
    boards: Seq<(usize, u64)>,
    len: usize,
    code: FELibReturn,
)
    requires
        take_inv(s),
    ensures
        take_start(boards, len).boards == boards,
        take_start(boards, len).waveform_len == len,
        boards.len() > 0 ==> setup_from(boards, 0).1 == TakeAction::<BoardEventContents>::GetHandle(
            boards[0].1,
        ),
        boards.len() == 0 ==> setup_from(boards, 0).1 is SignalConfigured,
        s.phase matches TakePhase::Setup(i, SetupStep::Arm) ==> {
            let (after, action) = take_step(s, TakeEvent::Done);
            if i + 1 < s.boards.len() {
                &&& action == TakeAction::<BoardEventContents>::GetHandle(s.boards[i + 1].1)
                &&& after.phase == TakePhase::Setup((i + 1) as usize, SetupStep::GetHandle)
            } else {
                action is SignalConfigured
            }
        },
        s.phase is Setup ==> {
            let (after, action) = take_step(s, TakeEvent::Failed(code));
            &&& action == TakeAction::<BoardEventContents>::Fail(code)
            &&& after.phase == TakePhase::Stopped
        },
{
}

/// Once all endpoints are set up this is signalled, the start is waited for, and then
/// every board gets an empty buffer; and events are read only while nobody wants data
/// taking to stop.
pub proof fn taking_begins_with_empty_buffers(s: TakeState, k: int)
    requires
        take_inv(s),
        s.phase == TakePhase::SignallingConfigured,
        0 <= k < s.boards.len(),
    ensures
        ({
            let (s1, a1) = take_step(s, TakeEvent::Done);
            let (s2, a2) = take_step(s1, TakeEvent::Done);
            let (s3, a3) = take_step(s2, TakeEvent::Shutdown(true));
            let (s4, a4) = take_step(s2, TakeEvent::Shutdown(false));
            &&& a1 is AwaitStart && s1.phase == TakePhase::AwaitingStart
            &&& a2 is CheckShutdown && s2.phase == TakePhase::CheckingShutdown
            &&& s2.events.len() == s.boards.len()
            &&& s2.events[k] == empty_event(64, s.waveform_len)
            &&& s2.board_events.len() == 0
            &&& a3 is Stop && s3.phase == TakePhase::Stopped
            &&& a4 == TakeAction::<BoardEventContents>::Read(s.boards[0].1, s.boards[0].0)
            &&& s4.phase == TakePhase::Reading(0)
        }),
{
}

/// An event that cannot be sent is given up with the rest of its pair, and the next
/// round begins as any other.
pub proof fn unsent_events_are_given_up(s: TakeState)
    requires
        s.phase == TakePhase::Sending,
    ensures
        ({
            let (after, action) = take_step(s, TakeEvent::Sent(false));
            &&& action is CheckShutdown
            &&& after.phase == TakePhase::CheckingShutdown
            &&& after.board_events.len() == 0
            &&& after.events == s.events
        }),
{
}

/// The buffers change only when they are made and when an event is taken out of one;
/// an event comes to hand only by a read that succeeds, and then it is what stood in
/// the buffer of the board that was read.
pub proof fn only_successful_reads_deliver(s: TakeState, event: TakeEvent)
    requires
        take_inv(s),
        take_accepts(s, event),
    ensures
        ({
            let after = take_step(s, event).0;
            let delivers = event == TakeEvent::Read(FELibReturn::Success);
            &&& s.phase != TakePhase::AwaitingStart && !delivers ==> after.events == s.events
            &&& !delivers ==> after.board_events.len() <= s.board_events.len()
            &&& s.phase matches TakePhase::Reading(i) ==> {
                let board_id = s.boards[i as int].0;
                let in_hand = if delivers {
                    s.board_events.push(
                        BoardEventContents { board_id, event: s.events[board_id as int] },
                    )
                } else {
                    s.board_events
                };
                &&& after.phase is Reading ==> after.board_events == in_hand
                &&& after.phase == TakePhase::Sending ==> in_hand.len() == 2
                    && after.board_events == seq![in_hand[1]]
                &&& after.phase == TakePhase::CheckingShutdown ==> in_hand.len() != 2
            }
        }),
{
}

/// What can come follows from what is waited for: exactly the answer to what was
/// wanted, or, while a board is set up, that it has failed.
pub proof fn taking_takes_every_answer(s: TakeState, event: TakeEvent)
    ensures
        take_accepts(s, event) <==> match event {
            TakeEvent::Handle(_) => s.phase matches TakePhase::Setup(_, step) && (step
                == SetupStep::GetHandle || step == SetupStep::GetParentHandle),
            TakeEvent::Done => {
                ||| s.phase matches TakePhase::Setup(_, step) && step != SetupStep::GetHandle
                    && step != SetupStep::GetParentHandle
                ||| s.phase == TakePhase::SignallingConfigured
                ||| s.phase == TakePhase::AwaitingStart
            },
            TakeEvent::Failed(_) => s.phase is Setup,
            TakeEvent::Shutdown(_) => s.phase == TakePhase::CheckingShutdown,
            TakeEvent::Read(_) => s.phase is Reading,
            TakeEvent::Sent(_) => s.phase == TakePhase::Sending,
        },
{
}

/// Data taking starts with the setup of the first board, if there is one, and with
/// nothing in hand.
pub proof fn taking_starts_with_nothing(boards: Seq<(usize, u64)>, config: Conf)
    ensures
        ({
            let s = configured_start(boards, config);
            &&& s.boards == boards
            &&& s.waveform_len == config.board_settings.record_len
            &&& s.ep_handle == 0 && s.ep_folder_handle == 0
            &&& s.events.len() == 0 && s.board_events.len() == 0
            &&& boards.len() > 0 ==> s.phase == TakePhase::Setup(0, SetupStep::GetHandle)
            &&& boards.len() == 0 ==> s.phase == TakePhase::SignallingConfigured
        }),
{
}

/// The boards are numbered exactly if none has a number beyond the last index.
pub proof fn numbers_are_indices(boards: Seq<(usize, u64)>)
    ensures
        boards_are_numbered(boards) <==> !exists|i: int|
            0 <= i < boards.len() && (#[trigger] boards[i]).0 >= boards.len(),
{
}

/// The endpoint that is looked up and made active is the one named `scope`, and all
/// 64 channels are read.
pub proof fn the_scope_endpoint_is_read()
    ensures
        ENDPOINT_PATH@ == "/endpoint/scope"@,
        PARENT_PATH@ == ""@,
        ACTIVE_ENDPOINT_PATH@ == "/par/activeendpoint"@,
        ENDPOINT_NAME@ == "scope"@,
        NUM_CH == 64,
{
}

/// The state of a taker shows the boards, what is being set up, the contents of the
/// buffers and of the events in hand, and what is waited for.
pub proof fn takers_show_their_state(taker: DataTaker, i: int)
    ensures
        taker@.boards == taker.boards@,
        taker@.waveform_len == taker.waveform_len,
        taker@.ep_handle == taker.ep_handle,
        taker@.ep_folder_handle == taker.ep_folder_handle,
        taker@.phase == taker.phase,
        taker@.events.len() == taker.events@.len(),
        taker@.board_events.len() == taker.board_events@.len(),
        0 <= i < taker.events@.len() ==> taker@.events[i] == taker.events@[i]@,
        0 <= i < taker.board_events@.len() ==> taker@.board_events[i] == taker.board_events@[i]@,
{
}

/// An action with an event stands for the same action with the contents of the event.
pub proof fn taking_actions_show_what_is_wanted(action: TakeAction<BoardEvent>)
    ensures
        action is GetHandle <==> action@ is GetHandle,
        action matches TakeAction::GetHandle(handle) ==> action@->GetHandle_0 == handle,
        action is GetParentHandle <==> action@ is GetParentHandle,
        action matches TakeAction::GetParentHandle(handle) ==> action@->GetParentHandle_0 == handle,
        action is SelectEndpoint <==> action@ is SelectEndpoint,
        action matches TakeAction::SelectEndpoint(handle) ==> action@->SelectEndpoint_0 == handle,
        action is SetDataFormat <==> action@ is SetDataFormat,
        action matches TakeAction::SetDataFormat(handle) ==> action@->SetDataFormat_0 == handle,
        action is SendCommand <==> action@ is SendCommand,
        action matches TakeAction::SendCommand(handle, command) ==> action@->SendCommand_0 == handle
            && action@->SendCommand_1 == command,
        action is Read <==> action@ is Read,
        action matches TakeAction::Read(handle, buffer) ==> action@->Read_0 == handle
            && action@->Read_1 == buffer,
        action is Send <==> action@ is Send,
        action matches TakeAction::Send(event) ==> action@->Send_0 == event@,
        action is Fail <==> action@ is Fail,
        action matches TakeAction::Fail(code) ==> action@->Fail_0 == code,
        action is SignalConfigured <==> action@ is SignalConfigured,
        action is AwaitStart <==> action@ is AwaitStart,
        action is CheckShutdown <==> action@ is CheckShutdown,
        action is Stop <==> action@ is Stop,
{
}

/// A board that has delivered an event reads its next one into a fresh buffer.
pub proof fn delivery_leaves_a_fresh_buffer(s: TakeState, i: usize)
    requires
        take_inv(s),
        s.phase == TakePhase::Reading(i),
    ensures
        ({
            let board_id = s.boards[i as int].0 as int;
            let after = take_step(s, TakeEvent::Read(FELibReturn::Success)).0;
            &&& after.events[board_id] == empty_event(NUM_CH, s.waveform_len)
            &&& forall|k: int|
                0 <= k < s.events.len() && k != board_id ==> #[trigger] after.events[k]
                    == s.events[k]
        }),
{
    assert(s.boards[i as int].0 < s.boards.len());
}

/// What holds of data taking is not broken by any event, whatever the boards
/// have written into the buffers.
pub proof fn take_step_keeps_inv(s: TakeState, events: Seq<EventContents>, event: TakeEvent)
    requires
        take_inv(s),
        can_fill(s, events),
        take_accepts(s, event),
    ensures
        take_inv(take_step(filled(s, events), event).0),
{
    let full = filled(s, events);
    let after = take_step(full, event).0;
    assert forall|k: int| 0 <= k < after.board_events.len() implies (
    #[trigger] after.board_events[k]).board_id < s.boards.len() && well_shaped(
        after.board_events[k].event,
        s.waveform_len,
    ) by {
        if let TakePhase::Reading(i) = s.phase {
            let board_id = s.boards[i as int].0;
            assert(board_id < s.boards.len());
            assert(well_shaped(events[board_id as int], s.waveform_len));
            if let TakeEvent::Read(ret) = event {
                let read = after_read(full, i, ret);
                let at = if after.phase == TakePhase::Sending {
                    k + 1
                } else {
                    k
                };
                assert(after.board_events[k] == read.board_events[at]);
                if at < s.board_events.len() {
                    assert(read.board_events[at] == s.board_events[at]);
                }
            }
        } else if s.phase == TakePhase::Sending {
        } else {
            assert(after.board_events[k] == s.board_events[k]);
        }
    }
    assert forall|k: int| 0 <= k < after.events.len() implies well_shaped(
        #[trigger] after.events[k],
        s.waveform_len,
    ) by {
        if let TakePhase::Reading(i) = s.phase {
            assert(s.boards[i as int].0 < s.boards.len());
        }
        if k < events.len() {
            assert(well_shaped(events[k], s.waveform_len));
        }
    }
    if let TakePhase::Reading(i) = s.phase {
        assert(s.boards[i as int].0 < s.boards.len());
    }
}

/// The state that the events `es`, each with what the buffers held when it came,
/// lead to from `s`.
pub open spec fn take_after(s: TakeState, es: Seq<(Seq<EventContents>, TakeEvent)>) -> TakeState
    decreases es.len(),
{
    if es.len() == 0 {
        s
    } else {
        take_step(filled(take_after(s, es.drop_last()), es.last().0), es.last().1).0
    }
}

/// What is done while the events `es` come one after another from `s` on.
pub open spec fn take_actions(s: TakeState, es: Seq<(Seq<EventContents>, TakeEvent)>) -> Seq<
    TakeAction<BoardEventContents>,
>
    decreases es.len(),
{
    if es.len() == 0 {
        seq![]
    } else {
        take_actions(s, es.drop_last()).push(
            take_step(filled(take_after(s, es.drop_last()), es.last().0), es.last().1).1,
        )
    }
}

/// Whether the events `es` can come one after another from `s` on.
pub open spec fn take_accepts_all(s: TakeState, es: Seq<(Seq<EventContents>, TakeEvent)>) -> bool
    decreases es.len(),
{
    es.len() > 0 ==> {
        &&& take_accepts_all(s, es.drop_last())
        &&& can_fill(take_after(s, es.drop_last()), es.last().0)
        &&& take_accepts(take_after(s, es.drop_last()), es.last().1)
    }
}

/// Whatever events come, the invariant holds, and the boards and the length of a
/// waveform stay as they are.
pub proof fn data_taking_is_sound(s: TakeState, es: Seq<(Seq<EventContents>, TakeEvent)>)
    requires
        take_inv(s),
        take_accepts_all(s, es),
    ensures
        take_inv(take_after(s, es)),
        take_after(s, es).boards == s.boards,
        take_after(s, es).waveform_len == s.waveform_len,
    decreases es.len(),
{
    if es.len() > 0 {
        data_taking_is_sound(s, es.drop_last());
        take_step_keeps_inv(take_after(s, es.drop_last()), es.last().0, es.last().1);
    }
}

/// Everything that is done from the start of data taking on, while the events `es`
/// come. The action with index `k` is answered by the event with index `k`.
pub open spec fn all_take_actions(
    boards: Seq<(usize, u64)>,
    waveform_len: usize,
    es: Seq<(Seq<EventContents>, TakeEvent)>,
) -> Seq<TakeAction<BoardEventContents>> {
    seq![setup_from(boards, 0).1] + take_actions(take_start(boards, waveform_len), es)
}

/// The handles of the boards that `actions` arm, in order.
pub open spec fn armed(actions: Seq<TakeAction<BoardEventContents>>) -> Seq<u64>
    decreases actions.len(),
{
    if actions.len() == 0 {
        seq![]
    } else {
        match actions.last() {
            TakeAction::SendCommand(handle, Command::ArmAcquisition) => armed(
                actions.drop_last(),
            ).push(handle),
            _ => armed(actions.drop_last()),
        }
    }
}

/// The handles of the boards.
pub open spec fn handles(boards: Seq<(usize, u64)>) -> Seq<u64> {
    boards.map_values(|board: (usize, u64)| board.1)
}

/// Whether the start of the acquisition, for which data taking waits, is there
/// before the event with index `k`.
pub open spec fn start_answered(
    actions: Seq<TakeAction<BoardEventContents>>,
    es: Seq<(Seq<EventContents>, TakeEvent)>,
    k: int,
) -> bool {
    exists|j: int| 0 <= j < k && (#[trigger] actions[j]) is AwaitStart && es[j].1 == TakeEvent::Done
}

/// Which boards are armed in a state of data taking, unless it has stopped.
spec fn armed_in(s: TakeState) -> Seq<u64> {
    match s.phase {
        TakePhase::Setup(i, step) => handles(s.boards).take(
            if step == SetupStep::Arm {
                i + 1
            } else {
                i as int
            },
        ),
        _ => handles(s.boards),
    }
}

/// The phase tells which boards are armed, what was done last while the start is
/// prepared, and whether the acquisition has started.
proof fn lemma_taking_so_far(
    boards: Seq<(usize, u64)>,
    waveform_len: usize,
    es: Seq<(Seq<EventContents>, TakeEvent)>,
)
    requires
        take_inv(take_start(boards, waveform_len)),
        take_accepts_all(take_start(boards, waveform_len), es),
    ensures
        ({
            let after = take_after(take_start(boards, waveform_len), es);
            let actions = all_take_actions(boards, waveform_len, es);
            &&& actions.len() == es.len() + 1
            &&& after.phase != TakePhase::Stopped ==> armed(actions) == armed_in(after)
            &&& after.phase == TakePhase::SignallingConfigured <==> actions.last()
                is SignalConfigured
            &&& after.phase == TakePhase::AwaitingStart <==> actions.last() is AwaitStart
            &&& acquiring(after) ==> start_answered(actions, es, es.len() as int)
        }),
    decreases es.len(),
{
    let start = take_start(boards, waveform_len);
    let actions = all_take_actions(boards, waveform_len, es);
    if es.len() == 0 {
        assert(actions =~= seq![setup_from(boards, 0).1]);
        reveal_with_fuel(armed, 2);
        assert(armed(actions) =~= armed_in(start));
    } else {
        let rest = es.drop_last();
        lemma_taking_so_far(boards, waveform_len, rest);
        data_taking_is_sound(start, rest);
        let earlier = all_take_actions(boards, waveform_len, rest);
        let before = take_after(start, rest);
        let after = take_after(start, es);
        assert(actions.drop_last() =~= earlier);
        if after.phase != TakePhase::Stopped {
            assert(armed(actions) =~= armed_in(after));
        }
        if acquiring(after) {
            if acquiring(before) {
                let j = choose|j: int|
                    0 <= j < rest.len() && (#[trigger] earlier[j]) is AwaitStart && rest[j].1
                        == TakeEvent::Done;
                assert(actions[j] is AwaitStart && es[j].1 == TakeEvent::Done);
            } else {
                assert(actions[es.len() - 1] == earlier.last());
                assert(actions[es.len() - 1] is AwaitStart);
            }
        }
    }
}

/// The endpoints are reported as set up only once every board, in order, has been
/// armed; and the start is waited for right after that.
pub proof fn boards_are_armed_before_the_signal(
    boards: Seq<(usize, u64)>,
    waveform_len: usize,
    es: Seq<(Seq<EventContents>, TakeEvent)>,
)
    requires
        take_inv(take_start(boards, waveform_len)),
        take_accepts_all(take_start(boards, waveform_len), es),
    ensures
        ({
            let actions = all_take_actions(boards, waveform_len, es);
            &&& forall|k: int|
                0 <= k < actions.len() && (#[trigger] actions[k]) is SignalConfigured ==> armed(
                    actions.take(k),
                ) == handles(boards)
            &&& forall|k: int|
                0 <= k < actions.len() && (#[trigger] actions[k]) is AwaitStart ==> k > 0
                    && actions[k - 1] is SignalConfigured && es[k - 1].1 == TakeEvent::Done
        }),
    decreases es.len(),
{
    let start = take_start(boards, waveform_len);
    let actions = all_take_actions(boards, waveform_len, es);
    lemma_taking_so_far(boards, waveform_len, es);
    data_taking_is_sound(start, es);
    assert(actions.take(es.len() as int) =~= actions.drop_last());
    if es.len() > 0 {
        let rest = es.drop_last();
        boards_are_armed_before_the_signal(boards, waveform_len, rest);
        lemma_taking_so_far(boards, waveform_len, rest);
        data_taking_is_sound(start, rest);
        let earlier = all_take_actions(boards, waveform_len, rest);
        assert(actions.drop_last() =~= earlier);
        assert forall|k: int|
            0 <= k < actions.len() && (#[trigger] actions[k]) is SignalConfigured implies armed(
            actions.take(k),
        ) == handles(boards) by {
            if k < earlier.len() {
                assert(actions[k] == earlier[k]);
                assert(actions.take(k) =~= earlier.take(k));
            }
        }
        assert forall|k: int|
            0 <= k < actions.len() && (#[trigger] actions[k]) is AwaitStart implies k > 0
            && actions[k - 1] is SignalConfigured && es[k - 1].1 == TakeEvent::Done by {
            if k < earlier.len() {
                assert(actions[k] == earlier[k]);
                assert(actions[k - 1] == earlier[k - 1]);
                assert(rest[k - 1] == es[k - 1]);
            } else {
                assert(actions[k - 1] == earlier.last());
            }
        }
    }
}

/// No board is read and no event is handed on before the acquisition has started.
pub proof fn nothing_is_read_before_the_start(
    boards: Seq<(usize, u64)>,
    waveform_len: usize,
    es: Seq<(Seq<EventContents>, TakeEvent)>,
)
    requires
        take_inv(take_start(boards, waveform_len)),
        take_accepts_all(take_start(boards, waveform_len), es),
    ensures
        ({
            let actions = all_take_actions(boards, waveform_len, es);
            forall|k: int|
                0 <= k < actions.len() && ((#[trigger] actions[k]) is Read || actions[k] is Send)
                    ==> start_answered(actions, es, k)
        }),
    decreases es.len(),
{
    let start = take_start(boards, waveform_len);
    let actions = all_take_actions(boards, waveform_len, es);
    if es.len() > 0 {
        let rest = es.drop_last();
        nothing_is_read_before_the_start(boards, waveform_len, rest);
        lemma_taking_so_far(boards, waveform_len, es);
        lemma_taking_so_far(boards, waveform_len, rest);
        data_taking_is_sound(start, rest);
        let earlier = all_take_actions(boards, waveform_len, rest);
        assert(actions.drop_last() =~= earlier);
        assert forall|k: int|
            0 <= k < actions.len() && ((#[trigger] actions[k]) is Read || actions[k]
                is Send) implies start_answered(actions, es, k) by {
            if k < earlier.len() {
                assert(actions[k] == earlier[k]);
                let j = choose|j: int|
                    0 <= j < k && (#[trigger] earlier[j]) is AwaitStart && rest[j].1
                        == TakeEvent::Done;
                assert(actions[j] is AwaitStart && es[j].1 == TakeEvent::Done);
            }
        }
    }
}

/// How many of `actions` hand on an event.
pub open spec fn sends(actions: Seq<TakeAction<BoardEventContents>>) -> nat
    decreases actions.len(),
{
    if actions.len() == 0 {
        0
    } else {
        sends(actions.drop_last()) + if actions.last() is Send {
            1nat
        } else {
            0
        }
    }
}

/// As long as every event can be sent, events are handed on in pairs: only
/// between the two of a pair is their number odd.
pub proof fn events_are_sent_in_pairs(s: TakeState, es: Seq<(Seq<EventContents>, TakeEvent)>)
    requires
        take_inv(s),
        s.phase != TakePhase::Sending,
        take_accepts_all(s, es),
        forall|i: int| 0 <= i < es.len() ==> (#[trigger] es[i]).1 != TakeEvent::Sent(false),
    ensures
        ({
            let after = take_after(s, es);
            sends(take_actions(s, es)) % 2 == (if after.phase == TakePhase::Sending {
                after.board_events.len()
            } else {
                0
            })
        }),
    decreases es.len(),
{
    if es.len() > 0 {
        let rest = es.drop_last();
        assert forall|i: int| 0 <= i < rest.len() implies (#[trigger] rest[i]).1
            != TakeEvent::Sent(false) by {
            assert(rest[i] == es[i]);
        }
        events_are_sent_in_pairs(s, rest);
        data_taking_is_sound(s, rest);
        assert(take_actions(s, es).drop_last() =~= take_actions(s, rest));
        assert(es[es.len() - 1].1 != TakeEvent::Sent(false));
    }
}

/// Whether data taking is past its setup: the acquisition has started.
pub open spec fn acquiring(s: TakeState) -> bool {
    s.phase == TakePhase::CheckingShutdown || s.phase is Reading || s.phase == TakePhase::Sending
}

/// How many events at most come before data taking next asks whether it is to
/// stop.
pub open spec fn events_to_check(s: TakeState) -> nat {
    match s.phase {
        TakePhase::Reading(i) => (s.boards.len() - i + 2) as nat,
        TakePhase::Sending => 1 + s.board_events.len(),
        _ => 0,
    }
}

/// Data taking that is told to stop does so: it asks after a bounded number of
/// events, and the answer ends it.
pub proof fn data_taking_stops_when_told(s: TakeState, es: Seq<(Seq<EventContents>, TakeEvent)>)
    requires
        take_inv(s),
        acquiring(s),
        take_accepts_all(s, es),
        forall|i: int| 0 <= i < es.len() ==> (#[trigger] es[i]).1 != TakeEvent::Shutdown(false),
    ensures
        ({
            let after = take_after(s, es);
            if after.phase == TakePhase::Stopped {
                &&& es.last().1 == TakeEvent::Shutdown(true)
                &&& take_actions(s, es).last() == TakeAction::<BoardEventContents>::Stop
                &&& es.len() <= events_to_check(s) + 1
            } else {
                &&& acquiring(after)
                &&& events_to_check(after) + es.len() <= events_to_check(s)
            }
        }),
    decreases es.len(),
{
    if es.len() > 0 {
        let rest = es.drop_last();
        assert forall|i: int| 0 <= i < rest.len() implies (#[trigger] rest[i]).1
            != TakeEvent::Shutdown(false) by {
            assert(rest[i] == es[i]);
        }
        data_taking_stops_when_told(s, rest);
        data_taking_is_sound(s, rest);
        assert(es[es.len() - 1].1 != TakeEvent::Shutdown(false));
    }
}

/// Tells whether data can be taken: every board's number is the index of a
/// buffer, and there can be memory for an event.
pub fn can_take_data(boards: &Vec<(usize, u64)>, config: &Conf) -> (can: bool)
    ensures
        can == (boards_are_numbered(boards@) && event_fits(
            NUM_CH as nat,
            config.board_settings.record_len as nat,
        )),
{
    let mut i: usize = 0;
    while i < boards.len()
        invariant
            i <= boards.len(),
            forall|k: int| 0 <= k < i ==> (#[trigger] boards@[k]).0 < boards@.len(),
        decreases boards.len() - i,
    {
        if boards[i].0 >= boards.len() {
            assert(boards@[i as int].0 >= boards@.len());
            return false;
        }
        i += 1;
    }
    EventWrapper::fits(NUM_CH, config.board_settings.record_len)
}

impl DataTaker {
    /// Starts data taking, and says what is to be done first.
    pub fn new(boards: Vec<(usize, u64)>, config: &Conf) -> (started: (
        DataTaker,
        TakeAction<BoardEvent>,
    ))
        requires
            boards_are_numbered(boards@),
            event_fits(NUM_CH as nat, config.board_settings.record_len as nat),
        ensures
            take_inv(started.0@),
            started.0@ == take_start(boards@, config.board_settings.record_len),
            started.0@ == configured_start(boards@, *config),
            started.1@ == setup_from(boards@, 0).1,
    {
        let (phase, action) = next_setup(&boards, 0);
        assert(boards.len() <= usize::MAX);
        let taker = DataTaker {
            boards,
            waveform_len: config.board_settings.record_len,
            ep_handle: 0,
            ep_folder_handle: 0,
            events: Vec::new(),
            board_events: Vec::new(),
            phase,
        };
        assert(taker@ =~= take_start(boards@, config.board_settings.record_len));
        (taker, action)
    }

    /// Tells whether `event` can follow.
    pub fn accepts(&self, event: &TakeEvent) -> (accepts: bool)
        ensures
            accepts == take_accepts(self@, *event),
    {
        match (self.phase, *event) {
            (TakePhase::Setup(_, SetupStep::GetHandle), TakeEvent::Handle(_)) => true,
            (TakePhase::Setup(_, SetupStep::GetParentHandle), TakeEvent::Handle(_)) => true,
            (TakePhase::Setup(_, SetupStep::SelectEndpoint), TakeEvent::Done) => true,
            (TakePhase::Setup(_, SetupStep::SetDataFormat), TakeEvent::Done) => true,
            (TakePhase::Setup(_, SetupStep::Arm), TakeEvent::Done) => true,
            (TakePhase::Setup(_, _), TakeEvent::Failed(_)) => true,
            (TakePhase::SignallingConfigured, TakeEvent::Done) => true,
            (TakePhase::AwaitingStart, TakeEvent::Done) => true,
            (TakePhase::CheckingShutdown, TakeEvent::Shutdown(_)) => true,
            (TakePhase::Reading(_), TakeEvent::Read(_)) => true,
            (TakePhase::Sending, TakeEvent::Sent(_)) => true,
            _ => false,
        }
    }

    /// Makes an empty buffer for each board.
    fn make_buffers(&mut self)
        requires
            event_fits(NUM_CH as nat, old(self).waveform_len as nat),
        ensures
            final(self)@ == (TakeState {
                events: Seq::new(
                    old(self).boards@.len(),
                    |i: int| empty_event(NUM_CH, old(self).waveform_len),
                ),
                ..old(self)@
            }),
    {
        let n: usize = self.boards.len();
        let waveform_len = self.waveform_len;
        let mut events: Vec<EventWrapper> = Vec::new();
        while events.len() < n
            invariant
                events.len() <= n,
                event_fits(NUM_CH as nat, waveform_len as nat),
                forall|i: int|
                    0 <= i < events.len() ==> (#[trigger] events@[i])@ == empty_event(
                        NUM_CH,
                        waveform_len,
                    ),
            decreases n - events.len(),
        {
            events.push(EventWrapper::new(NUM_CH, waveform_len));
        }
        self.events = events;
        assert(self@.events =~= Seq::new(
            n as nat,
            |i: int| empty_event(NUM_CH, waveform_len),
        ));
    }

    /// Takes the event that the board with index `i` has delivered out of its
    /// buffer.
    fn take_event(&mut self, i: usize)
        requires
            i < old(self).boards.len(),
            old(self).boards@[i as int].0 < old(self).events.len(),
            event_fits(NUM_CH as nat, old(self).waveform_len as nat),
        ensures
            final(self)@ == after_read(old(self)@, i, FELibReturn::Success),
    {
        let board_id: usize = self.boards[i].0;
        let mut event = EventWrapper::new(NUM_CH, self.waveform_len);
        core::mem::swap(&mut self.events[board_id], &mut event);
        self.board_events.push(BoardEvent { board_id, event });
        let ghost wanted = after_read(old(self)@, i, FELibReturn::Success);
        assert(self@.events =~= wanted.events);
        assert(self@.board_events =~= wanted.board_events);
    }

    /// Hands on the first event in hand.
    fn send_first(&mut self) -> (action: TakeAction<BoardEvent>)
        requires
            old(self).board_events.len() > 0,
        ensures
            final(self)@ == (TakeState {
                board_events: old(self)@.board_events.skip(1),
                ..old(self)@
            }),
            action@ == TakeAction::Send(old(self)@.board_events[0]),
    {
        let event = self.board_events.remove(0);
        assert(self@.board_events =~= old(self)@.board_events.skip(1));
        TakeAction::Send(event)
    }

    /// Ends a round.
    fn finish_round(&mut self) -> (action: TakeAction<BoardEvent>)
        ensures
            (final(self)@, action@) == end_of_round(old(self)@),
    {
        if self.board_events.len() == 2 {
            self.phase = TakePhase::Sending;
            self.send_first()
        } else {
            self.phase = TakePhase::CheckingShutdown;
            TakeAction::CheckShutdown
        }
    }

    /// Goes on with the setup of the board with index `i`.
    fn set_up(&mut self, i: usize, step: SetupStep, event: TakeEvent) -> (action: TakeAction<
        BoardEvent,
    >)
        requires
            i < old(self).boards.len(),
        ensures
            (final(self)@, action@) == setup_step(old(self)@, i, step, event),
    {
        match (step, event) {
            (SetupStep::GetHandle, TakeEvent::Handle(handle)) => {
                self.ep_handle = handle;
                self.phase = TakePhase::Setup(i, SetupStep::GetParentHandle);
                TakeAction::GetParentHandle(handle)
            },
            (SetupStep::GetParentHandle, TakeEvent::Handle(handle)) => {
                self.ep_folder_handle = handle;
                self.phase = TakePhase::Setup(i, SetupStep::SelectEndpoint);
                TakeAction::SelectEndpoint(handle)
            },
            (SetupStep::SelectEndpoint, TakeEvent::Done) => {
                self.phase = TakePhase::Setup(i, SetupStep::SetDataFormat);
                TakeAction::SetDataFormat(self.ep_handle)
            },
            (SetupStep::SetDataFormat, TakeEvent::Done) => {
                self.phase = TakePhase::Setup(i, SetupStep::Arm);
                TakeAction::SendCommand(self.boards[i].1, Command::ArmAcquisition)
            },
            (_, TakeEvent::Failed(code)) => {
                self.phase = TakePhase::Stopped;
                TakeAction::Fail(code)
            },
            _ => {
                let (phase, action) = next_setup(&self.boards, i + 1);
                self.phase = phase;
                action
            },
        }
    }
}

/// Begins the setup of the board with index `i`, or goes on when there is none.
fn next_setup(boards: &Vec<(usize, u64)>, i: usize) -> (next: (TakePhase, TakeAction<BoardEvent>))
    ensures
        (next.0, next.1@) == setup_from(boards@, i as int),
{
    if i < boards.len() {
        (TakePhase::Setup(i, SetupStep::GetHandle), TakeAction::GetHandle(boards[i].1))
    } else {
        (TakePhase::SignallingConfigured, TakeAction::SignalConfigured)
    }
}

/// Decides what data taking does next, now that `event` has come.
pub fn data_taking_thread(taker: &mut DataTaker, event: TakeEvent) -> (action: TakeAction<
    BoardEvent,
>)
    requires
        take_inv(old(taker)@),
        take_accepts(old(taker)@, event),
    ensures
        take_inv(final(taker)@),
        (final(taker)@, action@) == take_step(old(taker)@, event),
{
    proof {
        let s = taker@;
        assert(filled(s, s.events) =~= s);
        take_step_keeps_inv(s, s.events, event);
    }
    match (taker.phase, event) {
        (TakePhase::Setup(i, step), _) => taker.set_up(i, step, event),
        (TakePhase::SignallingConfigured, _) => {
            taker.phase = TakePhase::AwaitingStart;
            TakeAction::AwaitStart
        },
        (TakePhase::AwaitingStart, _) => {
            taker.make_buffers();
            taker.phase = TakePhase::CheckingShutdown;
            TakeAction::CheckShutdown
        },
        (TakePhase::CheckingShutdown, TakeEvent::Shutdown(true)) => {
            taker.phase = TakePhase::Stopped;
            TakeAction::Stop
        },
        (TakePhase::CheckingShutdown, _) => {
            taker.board_events = Vec::new();
            assert(taker@.board_events =~= seq![]);
            if taker.boards.len() > 0 {
                taker.phase = TakePhase::Reading(0);
                TakeAction::Read(taker.boards[0].1, taker.boards[0].0)
            } else {
                taker.finish_round()
            }
        },
        (TakePhase::Reading(i), TakeEvent::Read(ret)) => {
            assert(taker@.boards[i as int].0 < taker@.boards.len());
            if ret == FELibReturn::Success {
                taker.take_event(i);
            }
            if ret != FELibReturn::Stop && i + 1 < taker.boards.len() {
                taker.phase = TakePhase::Reading(i + 1);
                TakeAction::Read(taker.boards[i + 1].1, taker.boards[i + 1].0)
            } else {
                taker.finish_round()
            }
        },
        (TakePhase::Sending, TakeEvent::Sent(true)) => {
            if taker.board_events.len() > 0 {
                taker.send_first()
            } else {
                taker.phase = TakePhase::CheckingShutdown;
                TakeAction::CheckShutdown
            }
        },
        _ => {
            taker.board_events = Vec::new();
            taker.phase = TakePhase::CheckingShutdown;
            assert(taker@.board_events =~= seq![]);
            TakeAction::CheckShutdown
        },
    }
}

} // verus!
