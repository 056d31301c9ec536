//! Events as they come from a board.
use crate::waveform::{samples, shape, shape_fits, zeros, Waveforms};
use vstd::layout::size_of;
use vstd::prelude::*;

verus! {

/// What a board says of an event as a whole.
#[derive(Debug)]
pub struct CEvent {
    pub timestamp: u64,
    pub trigger_id: u32,
    pub event_size: usize,
    pub n_channels: usize,
}

/// An event and the memory that a board's data are read into.
#[derive(Debug)]
pub struct EventWrapper {
    pub c_event: CEvent,
    /// The samples of all channels.
    pub waveform_data: Waveforms,
    /// Where in `waveform_data` each channel's samples start.
    pub waveform_starts: Vec<usize>,
    /// How many samples of each channel were read.
    pub n_samples: Vec<usize>,
    /// How many samples of each channel there is room for.
    pub n_allocated_samples: Vec<usize>,
}

/// An event that a certain board recorded.
#[derive(Debug)]
pub struct BoardEvent {
    pub board_id: usize,
    pub event: EventWrapper,
}

/// The contents of an event.
#[verifier::ext_equal]
pub struct EventContents {
    pub timestamp: u64,
    pub trigger_id: u32,
    pub event_size: usize,
    pub n_channels: usize,
    pub samples: Seq<u16>,
    pub shape: (nat, nat),
    pub waveform_starts: Seq<usize>,
    pub n_samples: Seq<usize>,
    pub n_allocated_samples: Seq<usize>,
}

impl View for EventWrapper {
    type V = EventContents;

    open spec fn view(&self) -> EventContents {
        EventContents {
            timestamp: self.c_event.timestamp,
            trigger_id: self.c_event.trigger_id,
            event_size: self.c_event.event_size,
            n_channels: self.c_event.n_channels,
            samples: samples(self.waveform_data),
            shape: shape(self.waveform_data),
            waveform_starts: self.waveform_starts@,
            n_samples: self.n_samples@,
            n_allocated_samples: self.n_allocated_samples@,
        }
    }
}

/// A board's number and the contents of an event that it recorded.
#[verifier::ext_equal]
pub struct BoardEventContents {
    pub board_id: usize,
    pub event: EventContents,
}

impl View for BoardEvent {
    type V = BoardEventContents;

    open spec fn view(&self) -> BoardEventContents {
        BoardEventContents { board_id: self.board_id, event: self.event@ }
    }
}

/// Whether there can be memory for an event of the given size: the samples can
/// be laid out, and so can one machine word for each channel.
pub open spec fn event_fits(n_channels: nat, waveform_len: nat) -> bool {
    &&& shape_fits(n_channels, waveform_len)
    &&& n_channels * size_of::<usize>() <= isize::MAX
}

/// An event before anything was read into it.
pub open spec fn empty_event(n_channels: usize, waveform_len: usize) -> EventContents {
    EventContents {
        timestamp: 0,
        trigger_id: 0,
        event_size: 0,
        n_channels,
        samples: zeros(n_channels as nat * waveform_len as nat),
        shape: (n_channels as nat, waveform_len as nat),
        waveform_starts: Seq::new(
            n_channels as nat,
            |channel: int| (channel * waveform_len) as usize,
        ),
        n_samples: Seq::new(n_channels as nat, |channel: int| 0usize),
        n_allocated_samples: Seq::new(n_channels as nat, |channel: int| waveform_len),
    }
}

/// The event with all of its samples zero, and nothing else changed.
pub open spec fn suppressed_event(event: BoardEventContents) -> BoardEventContents {
    BoardEventContents {
        event: EventContents { samples: zeros(event.event.samples.len()), ..event.event },
        ..event
    }
}

/// The channels of an empty event start one waveform apart, so that they fill
/// its samples without gap or overlap.
pub proof fn channels_tile_the_samples(n_channels: usize, waveform_len: usize, channel: int)
    requires
        event_fits(n_channels as nat, waveform_len as nat),
        0 <= channel < n_channels,
    ensures
        ({
            let event = empty_event(n_channels, waveform_len);
            &&& event.waveform_starts[0] == 0
            &&& event.waveform_starts[channel] + event.n_allocated_samples[channel] == (
            if channel + 1 < n_channels {
                event.waveform_starts[channel + 1] as int
            } else {
                event.samples.len() as int
            })
        }),
{
    lemma_start_fits(n_channels, waveform_len, channel);
    lemma_start_fits(n_channels, waveform_len, 0);
    if channel + 1 < n_channels {
        lemma_start_fits(n_channels, waveform_len, channel + 1);
    }
    assert((channel + 1) * waveform_len == channel * waveform_len + waveform_len)
        by (nonlinear_arith);
}

/// Suppression sets every sample to zero and keeps everything else: the board, the
/// time stamp, the trigger, the sizes and the layout.
pub proof fn suppression_keeps_all_but_samples(event: BoardEventContents)
    ensures
        ({
            let after = suppressed_event(event);
            &&& after.board_id == event.board_id
            &&& after.event.timestamp == event.event.timestamp
            &&& after.event.trigger_id == event.event.trigger_id
            &&& after.event.event_size == event.event.event_size
            &&& after.event.n_channels == event.event.n_channels
            &&& after.event.shape == event.event.shape
            &&& after.event.waveform_starts == event.event.waveform_starts
            &&& after.event.n_samples == event.event.n_samples
            &&& after.event.n_allocated_samples == event.event.n_allocated_samples
            &&& after.event.samples.len() == event.event.samples.len()
            &&& forall|k: int|
                0 <= k < after.event.samples.len() ==> #[trigger] after.event.samples[k] == 0
        }),
{
}

/// A new event has as many channels and samples as asked for, all samples zero, and
/// nothing read into it.
pub proof fn new_events_are_empty(n_channels: usize, waveform_len: usize)
    ensures
        ({
            let event = empty_event(n_channels, waveform_len);
            &&& event.timestamp == 0
            &&& event.trigger_id == 0
            &&& event.event_size == 0
            &&& event.n_channels == n_channels
            &&& event.shape == (n_channels as nat, waveform_len as nat)
            &&& event.samples.len() == n_channels * waveform_len
            &&& forall|k: int|
                0 <= k < event.samples.len() ==> #[trigger] event.samples[k] == 0
            &&& event.waveform_starts.len() == n_channels
            &&& event.n_samples.len() == n_channels
            &&& event.n_allocated_samples.len() == n_channels
            &&& forall|c: int| 0 <= c < n_channels ==> #[trigger] event.n_samples[c] == 0
            &&& forall|c: int|
                0 <= c < n_channels ==> #[trigger] event.n_allocated_samples[c] == waveform_len
        }),
{
}

/// An event of 64 channels with up to a million samples each always fits, and so
/// does every event that is no larger than one that fits.
pub proof fn ordinary_events_fit(n: nat, len: nat, more: nat, longer: nat)
    requires
        n <= more,
        len <= longer,
    ensures
        more <= 64 && longer <= 1_000_000 ==> event_fits(n, len),
        event_fits(more, longer) ==> event_fits(n, len),
{
    broadcast use vstd::layout::group_layout_axioms;

    assert(0 <= n * len <= more * longer) by (nonlinear_arith)
        requires
            n <= more,
            len <= longer,
    ;
    assert(0 <= n * size_of::<usize>() <= more * size_of::<usize>()) by (nonlinear_arith)
        requires
            n <= more,
    ;
    if more <= 64 && longer <= 1_000_000 {
        assert(more * longer <= 64 * 1_000_000) by (nonlinear_arith)
            requires
                more <= 64,
                longer <= 1_000_000,
        ;
        assert(more * size_of::<usize>() <= 64 * 8) by (nonlinear_arith)
            requires
                more <= 64,
                size_of::<usize>() <= 8,
        ;
    }
}

/// An event fits exactly if its channels and its waveforms can be counted, and if its
/// samples of two bytes and one machine word for each channel can be laid out.
pub proof fn events_fit_within_the_address_space(n_channels: nat, waveform_len: nat)
    ensures
        event_fits(n_channels, waveform_len) <==> {
            &&& n_channels <= isize::MAX
            &&& waveform_len <= isize::MAX
            &&& 2 * (n_channels * waveform_len) <= isize::MAX
            &&& n_channels * size_of::<usize>() <= isize::MAX
        },
{
}

/// The contents of an event are what its board says of it and what was read.
pub proof fn contents_are_those_of_the_event(event: BoardEvent)
    ensures
        event@.board_id == event.board_id,
        event@.event == event.event@,
        event@.event.timestamp == event.event.c_event.timestamp,
        event@.event.trigger_id == event.event.c_event.trigger_id,
        event@.event.event_size == event.event.c_event.event_size,
        event@.event.n_channels == event.event.c_event.n_channels,
        event@.event.samples == samples(event.event.waveform_data),
        event@.event.shape == shape(event.event.waveform_data),
        event@.event.waveform_starts == event.event.waveform_starts@,
        event@.event.n_samples == event.event.n_samples@,
        event@.event.n_allocated_samples == event.event.n_allocated_samples@,
{
}

/// Suppressing an event twice does no more than suppressing it once.
pub proof fn suppression_is_idempotent(event: BoardEventContents)
    ensures
        suppressed_event(suppressed_event(event)) == suppressed_event(event),
{
}

/// Where a channel's samples start fits in a machine word.
proof fn lemma_start_fits(n_channels: usize, waveform_len: usize, channel: int)
    requires
        event_fits(n_channels as nat, waveform_len as nat),
        0 <= channel < n_channels,
    ensures
        0 <= channel * waveform_len <= isize::MAX,
{
    assert(0 <= channel * waveform_len <= n_channels * waveform_len) by (nonlinear_arith)
        requires
            0 <= channel < n_channels,
    ;
}

impl EventWrapper {
    /// Makes room for an event.
    ///
    /// # Arguments
    ///
    /// * `n_channels` - Number of waveforms/channels.
    /// * `waveform_len` - Number of samples per waveform.
    pub fn new(n_channels: usize, waveform_len: usize) -> (event: EventWrapper)
        requires
            event_fits(n_channels as nat, waveform_len as nat),
        ensures
            event@ == empty_event(n_channels, waveform_len),
    {
        let waveform_data = Waveforms::new(n_channels, waveform_len);
        let mut waveform_starts: Vec<usize> = Vec::with_capacity(n_channels);
        let mut i: usize = 0;
        while i < n_channels
            invariant
                i <= n_channels,
                event_fits(n_channels as nat, waveform_len as nat),
                waveform_starts@ == empty_event(n_channels, waveform_len).waveform_starts.take(
                    i as int,
                ),
            decreases n_channels - i,
        {
            proof {
                lemma_start_fits(n_channels, waveform_len, i as int);
            }
            waveform_starts.push(i * waveform_len);
            i += 1;
            assert(waveform_starts@ =~= empty_event(n_channels, waveform_len).waveform_starts.take(
                i as int,
            ));
        }
        let n_samples = vec![0usize; n_channels];
        let n_allocated_samples = vec![waveform_len; n_channels];
        let c_event = CEvent { timestamp: 0, trigger_id: 0, event_size: 0, n_channels };
        let event = EventWrapper {
            c_event,
            waveform_data,
            waveform_starts,
            n_samples,
            n_allocated_samples,
        };
        assert(event@ =~= empty_event(n_channels, waveform_len));
        event
    }

    /// Tells whether there can be memory for an event of the given size.
    pub fn fits(n_channels: usize, waveform_len: usize) -> (fits: bool)
        ensures
            fits == event_fits(n_channels as nat, waveform_len as nat),
    {
        let limit: usize = isize::MAX as usize;
        let samples_fit = match n_channels.checked_mul(waveform_len) {
            Some(n) => n <= limit / 2,
            None => false,
        };
        let words_fit = match n_channels.checked_mul(core::mem::size_of::<usize>()) {
            Some(n) => n <= limit,
            None => false,
        };
        n_channels <= limit && waveform_len <= limit && samples_fit && words_fit
    }
}

/// Sets every sample of an event to zero.
pub fn zero_suppress(board_data: &mut BoardEvent)
    ensures
        final(board_data)@ == suppressed_event(old(board_data)@),
{
    board_data.event.waveform_data.suppress();
}

} // verus!
