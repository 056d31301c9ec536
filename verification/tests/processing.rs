use rust_daq::config::{
    BoardSettings, ChannelConfig, Conf, DCOffsetConfig, RunSettings, SyncSettings,
};
use rust_daq::event::{BoardEvent, EventWrapper};
use rust_daq::processing::{
    event_processing, writer_settings, BoardInfo, EventProcessor, ProcessAction, ProcessEvent,
    ProcessPhase, RunInfo,
};

fn board_event(board_id: usize, trigger_id: u32, event_size: usize) -> BoardEvent {
    let mut event = EventWrapper::new(1, 2);
    event.c_event.trigger_id = trigger_id;
    event.c_event.event_size = event_size;
    event.waveform_data.as_slice_mut().copy_from_slice(&[5, 6]);
    BoardEvent { board_id, event }
}

fn step(p: &mut EventProcessor, event: ProcessEvent) -> ProcessAction {
    assert!(p.accepts(&event));
    event_processing(p, event)
}

fn info(event_size: usize, trigger_id: u32, board_id: usize) -> BoardInfo {
    BoardInfo { event_size, trigger_id, board_id }
}

#[test]
fn agreeing_pair_is_counted_and_stored() {
    let mut p = EventProcessor::new();
    let received = ProcessEvent::Received(board_event(1, 7, 100), 3);
    assert_eq!(step(&mut p, received), ProcessAction::CheckShutdown);
    assert_eq!(step(&mut p, ProcessEvent::Shutdown(false)), ProcessAction::Receive);
    assert_eq!(step(&mut p, ProcessEvent::TimedOut), ProcessAction::CheckShutdown);
    assert_eq!(step(&mut p, ProcessEvent::Shutdown(false)), ProcessAction::Receive);
    let stats = RunInfo {
        board0_info: info(50, 7, 0),
        board1_info: info(100, 7, 1),
        event_channel_buf: 5,
    };
    let received = ProcessEvent::Received(board_event(0, 7, 50), 2);
    assert_eq!(step(&mut p, received), ProcessAction::SendStats(stats));
    assert_eq!(stats.event_size(), 150);
    assert_eq!(step(&mut p, ProcessEvent::StatsSent(true)), ProcessAction::Append(0));
    assert_eq!(p.events[0].board_id, 1);
    assert_eq!(p.events[0].event.waveform_data.as_slice(), &[0, 0]);
    assert_eq!(step(&mut p, ProcessEvent::Appended), ProcessAction::Append(1));
    assert_eq!(p.events[1].board_id, 0);
    assert_eq!(p.events[1].event.waveform_data.as_slice(), &[0, 0]);
    assert_eq!(step(&mut p, ProcessEvent::Appended), ProcessAction::CheckShutdown);
    assert!(p.events.is_empty());
    assert_eq!(p.run_info, RunInfo::default());
    assert_eq!(step(&mut p, ProcessEvent::Shutdown(true)), ProcessAction::FlushAll);
    assert_eq!(step(&mut p, ProcessEvent::Flushed), ProcessAction::Stop);
    assert_eq!(p.phase, ProcessPhase::Stopped);
}

#[test]
fn disagreeing_pair_stops_processing() {
    let mut p = EventProcessor::new();
    step(&mut p, ProcessEvent::Received(board_event(0, 7, 1), 0));
    step(&mut p, ProcessEvent::Shutdown(false));
    let received = ProcessEvent::Received(board_event(1, 8, 1), 0);
    assert!(matches!(step(&mut p, received), ProcessAction::SendStats(_)));
    assert_eq!(step(&mut p, ProcessEvent::StatsSent(true)), ProcessAction::Stop);
}

#[test]
fn unwanted_statistics_stop_processing() {
    let mut p = EventProcessor::new();
    step(&mut p, ProcessEvent::Received(board_event(0, 7, 1), 0));
    step(&mut p, ProcessEvent::Shutdown(false));
    step(&mut p, ProcessEvent::Received(board_event(1, 7, 1), 0));
    assert_eq!(step(&mut p, ProcessEvent::StatsSent(false)), ProcessAction::Stop);
}

#[test]
fn pairs_are_stored_in_order() {
    let mut p = EventProcessor::new();
    let (mut stored, mut n_stats) = (Vec::new(), 0);
    for trigger in 0..4 {
        for board_id in [trigger as usize % 2, 1 - trigger as usize % 2] {
            let event = board_event(board_id, trigger, 10);
            let mut action = step(&mut p, ProcessEvent::Received(event, 0));
            while action != ProcessAction::Receive {
                action = match action {
                    ProcessAction::SendStats(_) => {
                        n_stats += 1;
                        step(&mut p, ProcessEvent::StatsSent(true))
                    }
                    ProcessAction::Append(i) => {
                        let event = &p.events[i];
                        stored.push((event.board_id, event.event.c_event.trigger_id));
                        assert_eq!(event.event.waveform_data.as_slice(), &[0, 0]);
                        step(&mut p, ProcessEvent::Appended)
                    }
                    ProcessAction::CheckShutdown => step(&mut p, ProcessEvent::Shutdown(false)),
                    _ => panic!(),
                };
            }
        }
    }
    let expected = vec![(0, 0), (1, 0), (1, 1), (0, 1), (0, 2), (1, 2), (1, 3), (0, 3)];
    assert_eq!(stored, expected);
    assert_eq!(n_stats, 4);
    assert_eq!(step(&mut p, ProcessEvent::Disconnected), ProcessAction::FlushAll);
    assert_eq!(step(&mut p, ProcessEvent::Flushed), ProcessAction::Stop);
    assert!(!p.accepts(&ProcessEvent::Disconnected));
    assert!(!p.accepts(&ProcessEvent::Flushed));
}

#[test]
fn end_of_events_flushes() {
    let mut p = EventProcessor::new();
    assert_eq!(step(&mut p, ProcessEvent::Disconnected), ProcessAction::FlushAll);
    assert_eq!(step(&mut p, ProcessEvent::Flushed), ProcessAction::Stop);
}

#[test]
fn what_cannot_follow_is_not_accepted() {
    let mut p = EventProcessor::new();
    assert!(!p.accepts(&ProcessEvent::Received(board_event(2, 0, 0), 0)));
    assert!(!p.accepts(&ProcessEvent::Appended));
    step(&mut p, ProcessEvent::Received(board_event(0, 0, 0), 1));
    step(&mut p, ProcessEvent::Shutdown(false));
    assert!(!p.accepts(&ProcessEvent::Received(board_event(1, 0, 0), usize::MAX)));
    assert!(p.accepts(&ProcessEvent::Received(board_event(1, 0, 0), usize::MAX - 1)));
}

#[test]
fn pair_of_one_board() {
    let mut p = EventProcessor::new();
    step(&mut p, ProcessEvent::Received(board_event(0, 3, 10), 0));
    step(&mut p, ProcessEvent::Shutdown(false));
    let stats = RunInfo {
        board0_info: info(20, 4, 0),
        board1_info: BoardInfo::default(),
        event_channel_buf: 0,
    };
    let received = ProcessEvent::Received(board_event(0, 4, 20), 0);
    assert_eq!(step(&mut p, received), ProcessAction::SendStats(stats));
    assert_eq!(step(&mut p, ProcessEvent::StatsSent(true)), ProcessAction::Stop);
}

#[test]
fn layout_of_a_file() {
    let t = String::new;
    let conf = Conf {
        run_settings: RunSettings { run_duration: 1, campaign_num: 1, output_dir: t() },
        board_settings: BoardSettings {
            en_chans: ChannelConfig::All(t()),
            dc_offset: DCOffsetConfig::Global(t()),
            record_len: 4084,
            pre_trig_len: 0,
            trig_source: t(),
            io_level: t(),
        },
        sync_settings: SyncSettings {
            primary_clock_src: t(),
            primary_sync_out: t(),
            primary_start_source: t(),
            primary_clock_out_fp: t(),
            secondary_clock_src: t(),
            secondary_sync_out: t(),
            secondary_start_source: t(),
            secondary_clock_out_fp: t(),
            auto_disarm: t(),
            trig_out: t(),
        },
    };
    let settings = writer_settings(&conf);
    assert_eq!(settings.n_channels, 64);
    assert_eq!(settings.waveform_len, 4084);
    assert_eq!(settings.max_events, 7500);
    assert_eq!(settings.buffer_capacity, 50);
}
