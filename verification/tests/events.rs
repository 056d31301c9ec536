use rust_daq::event::{zero_suppress, BoardEvent, EventWrapper};
use rust_daq::waveform::Waveforms;

#[test]
fn new_event_is_empty() {
    let event = EventWrapper::new(3, 5);
    assert_eq!(event.c_event.timestamp, 0);
    assert_eq!(event.c_event.trigger_id, 0);
    assert_eq!(event.c_event.event_size, 0);
    assert_eq!(event.c_event.n_channels, 3);
    assert_eq!(event.waveform_data.dim(), (3, 5));
    assert_eq!(event.waveform_data.as_slice(), &[0u16; 15]);
    assert_eq!(event.waveform_starts, vec![0, 5, 10]);
    assert_eq!(event.n_samples, vec![0, 0, 0]);
    assert_eq!(event.n_allocated_samples, vec![5, 5, 5]);
}

#[test]
fn events_without_channels_or_samples() {
    let event = EventWrapper::new(0, 7);
    assert_eq!(event.waveform_data.dim(), (0, 7));
    assert!(event.waveform_data.as_slice().is_empty());
    assert!(event.waveform_starts.is_empty());
    let event = EventWrapper::new(2, 0);
    assert_eq!(event.waveform_data.dim(), (2, 0));
    assert_eq!(event.waveform_starts, vec![0, 0]);
}

#[test]
fn samples_are_written_and_read() {
    let mut waveforms = Waveforms::new(2, 3);
    waveforms.as_slice_mut()[4] = 9;
    assert_eq!(waveforms.as_slice(), &[0, 0, 0, 0, 9, 0]);
    waveforms.as_slice_mut().copy_from_slice(&[1, 2, 3, 4, 5, 6]);
    assert_eq!(waveforms.as_slice(), &[1, 2, 3, 4, 5, 6]);
    assert_eq!(waveforms.dim(), (2, 3));
}

#[test]
fn suppression_clears_samples_alone() {
    let mut event = EventWrapper::new(2, 2);
    event.c_event.timestamp = 11;
    event.c_event.trigger_id = 12;
    event.c_event.event_size = 13;
    event.n_samples = vec![2, 1];
    event.waveform_data.as_slice_mut().copy_from_slice(&[1, 2, 3, u16::MAX]);
    let mut board_event = BoardEvent { board_id: 1, event };
    for _ in 0..2 {
        zero_suppress(&mut board_event);
        assert_eq!(board_event.board_id, 1);
        assert_eq!(board_event.event.waveform_data.as_slice(), &[0, 0, 0, 0]);
        assert_eq!(board_event.event.waveform_data.dim(), (2, 2));
        assert_eq!(board_event.event.c_event.timestamp, 11);
        assert_eq!(board_event.event.c_event.trigger_id, 12);
        assert_eq!(board_event.event.c_event.event_size, 13);
        assert_eq!(board_event.event.n_samples, vec![2, 1]);
    }
}

#[test]
fn sizes_that_fit() {
    assert!(EventWrapper::fits(64, 4084));
    assert!(EventWrapper::fits(0, 0));
    assert!(!EventWrapper::fits(64, usize::MAX));
    assert!(!EventWrapper::fits(usize::MAX, 0));
    assert!(!EventWrapper::fits(isize::MAX as usize, 1));
    assert!(EventWrapper::fits(0, isize::MAX as usize));
    assert!(!EventWrapper::fits(1, isize::MAX as usize));
}
