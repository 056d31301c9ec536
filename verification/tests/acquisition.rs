use rust_daq::acquisition::{
    can_take_data, data_taking_thread, DataTaker, TakeAction, TakeEvent, TakePhase,
    ACTIVE_ENDPOINT_PATH, ENDPOINT_NAME, ENDPOINT_PATH, NUM_CH, PARENT_PATH,
};
use rust_daq::config::{
    BoardSettings, ChannelConfig, Conf, DCOffsetConfig, RunSettings, SyncSettings,
};
use rust_daq::device::{Command, FELibReturn};
use rust_daq::event::BoardEvent;

fn config(record_len: usize) -> Conf {
    let t = String::new;
    Conf {
        run_settings: RunSettings { run_duration: 1, campaign_num: 1, output_dir: t() },
        board_settings: BoardSettings {
            en_chans: ChannelConfig::All(t()),
            dc_offset: DCOffsetConfig::Global(t()),
            record_len,
            pre_trig_len: 0,
            trig_source: t(),
            io_level: t(),
        },
        sync_settings: SyncSettings {
            primary_clock_src: t(),
            primary_sync_out: t(),
            primary_start_source: t(),
            primary_clock_out_fp: t(),
            secondary_clock_src: t(),
            secondary_sync_out: t(),
            secondary_start_source: t(),
            secondary_clock_out_fp: t(),
            auto_disarm: t(),
            trig_out: t(),
        },
    }
}

fn step(taker: &mut DataTaker, event: TakeEvent) -> TakeAction<BoardEvent> {
    assert!(taker.accepts(&event));
    data_taking_thread(taker, event)
}

/// Data taking right after the acquisition has started.
fn started(boards: Vec<(usize, u64)>) -> DataTaker {
    let n = boards.len();
    let (mut taker, _) = DataTaker::new(boards, &config(3));
    for _ in 0..n {
        step(&mut taker, TakeEvent::Handle(1));
        step(&mut taker, TakeEvent::Handle(2));
        step(&mut taker, TakeEvent::Done);
        step(&mut taker, TakeEvent::Done);
        step(&mut taker, TakeEvent::Done);
    }
    assert!(matches!(step(&mut taker, TakeEvent::Done), TakeAction::AwaitStart));
    assert!(matches!(step(&mut taker, TakeEvent::Done), TakeAction::CheckShutdown));
    taker
}

#[test]
fn endpoints_are_set_up_board_by_board() {
    let (mut taker, action) = DataTaker::new(vec![(0, 70), (1, 71)], &config(3));
    assert!(matches!(action, TakeAction::GetHandle(70)));
    assert!(matches!(step(&mut taker, TakeEvent::Handle(5)), TakeAction::GetParentHandle(5)));
    assert!(matches!(step(&mut taker, TakeEvent::Handle(6)), TakeAction::SelectEndpoint(6)));
    assert!(matches!(step(&mut taker, TakeEvent::Done), TakeAction::SetDataFormat(5)));
    assert!(matches!(
        step(&mut taker, TakeEvent::Done),
        TakeAction::SendCommand(70, Command::ArmAcquisition)
    ));
    assert!(matches!(step(&mut taker, TakeEvent::Done), TakeAction::GetHandle(71)));
    assert!(matches!(step(&mut taker, TakeEvent::Handle(8)), TakeAction::GetParentHandle(8)));
    assert!(matches!(step(&mut taker, TakeEvent::Handle(9)), TakeAction::SelectEndpoint(9)));
    assert!(matches!(step(&mut taker, TakeEvent::Done), TakeAction::SetDataFormat(8)));
    assert!(matches!(
        step(&mut taker, TakeEvent::Done),
        TakeAction::SendCommand(71, Command::ArmAcquisition)
    ));
    assert!(matches!(step(&mut taker, TakeEvent::Done), TakeAction::SignalConfigured));
    assert!(matches!(step(&mut taker, TakeEvent::Done), TakeAction::AwaitStart));
    assert!(taker.events.is_empty());
    assert!(matches!(step(&mut taker, TakeEvent::Done), TakeAction::CheckShutdown));
    assert_eq!(taker.events.len(), 2);
    assert_eq!(taker.events[1].waveform_data.dim(), (NUM_CH, 3));
}

#[test]
fn failed_setup_ends_data_taking() {
    for good_steps in 0..5 {
        let (mut taker, _) = DataTaker::new(vec![(0, 70)], &config(3));
        for i in 0..good_steps {
            step(&mut taker, if i < 2 { TakeEvent::Handle(1) } else { TakeEvent::Done });
        }
        let action = step(&mut taker, TakeEvent::Failed(FELibReturn::Other(-5)));
        assert!(matches!(action, TakeAction::Fail(FELibReturn::Other(-5))));
        assert_eq!(taker.phase, TakePhase::Stopped);
    }
}

#[test]
fn complete_round_is_handed_on() {
    let mut taker = started(vec![(0, 70), (1, 71)]);
    assert!(matches!(step(&mut taker, TakeEvent::Shutdown(false)), TakeAction::Read(70, 0)));
    taker.events[0].c_event.trigger_id = 40;
    taker.events[0].waveform_data.as_slice_mut()[0] = 17;
    let action = step(&mut taker, TakeEvent::Read(FELibReturn::Success));
    assert!(matches!(action, TakeAction::Read(71, 1)));
    assert_eq!(taker.events[0].c_event.trigger_id, 0);
    taker.events[1].c_event.trigger_id = 41;
    match step(&mut taker, TakeEvent::Read(FELibReturn::Success)) {
        TakeAction::Send(event) => {
            assert_eq!(event.board_id, 0);
            assert_eq!(event.event.c_event.trigger_id, 40);
            assert_eq!(event.event.waveform_data.as_slice()[0], 17);
        }
        _ => panic!(),
    }
    match step(&mut taker, TakeEvent::Sent(true)) {
        TakeAction::Send(event) => {
            assert_eq!(event.board_id, 1);
            assert_eq!(event.event.c_event.trigger_id, 41);
        }
        _ => panic!(),
    }
    assert!(matches!(step(&mut taker, TakeEvent::Sent(true)), TakeAction::CheckShutdown));
    assert!(matches!(step(&mut taker, TakeEvent::Shutdown(true)), TakeAction::Stop));
}

#[test]
fn incomplete_rounds_are_dropped() {
    let mut taker = started(vec![(0, 70), (1, 71)]);
    for other in [FELibReturn::Timeout, FELibReturn::Stop, FELibReturn::Other(-1)] {
        step(&mut taker, TakeEvent::Shutdown(false));
        step(&mut taker, TakeEvent::Read(FELibReturn::Success));
        assert!(matches!(step(&mut taker, TakeEvent::Read(other)), TakeAction::CheckShutdown));
    }
    for other in [FELibReturn::Timeout, FELibReturn::Other(-1)] {
        step(&mut taker, TakeEvent::Shutdown(false));
        assert!(matches!(step(&mut taker, TakeEvent::Read(other)), TakeAction::Read(71, 1)));
        let action = step(&mut taker, TakeEvent::Read(FELibReturn::Success));
        assert!(matches!(action, TakeAction::CheckShutdown));
    }
}

#[test]
fn stopped_board_ends_the_round() {
    let mut taker = started(vec![(0, 70), (1, 71)]);
    step(&mut taker, TakeEvent::Shutdown(false));
    let action = step(&mut taker, TakeEvent::Read(FELibReturn::Stop));
    assert!(matches!(action, TakeAction::CheckShutdown));
}

#[test]
fn rounds_of_more_boards() {
    let success = FELibReturn::Success;
    let timeout = FELibReturn::Timeout;
    let mut taker = started(vec![(2, 70), (0, 71), (1, 72)]);
    for (rets, pair) in [
        ([success, timeout, success], Some((2, 1))),
        ([timeout, success, success], Some((0, 1))),
        ([success, success, timeout], Some((2, 0))),
        ([success, success, success], None),
        ([timeout, timeout, success], None),
    ] {
        let mut action = step(&mut taker, TakeEvent::Shutdown(false));
        for (i, ret) in rets.into_iter().enumerate() {
            let board = taker.boards[i];
            assert!(matches!(action, TakeAction::Read(dev, id) if (id, dev) == board));
            action = step(&mut taker, TakeEvent::Read(ret));
        }
        match pair {
            Some((first, second)) => {
                for id in [first, second] {
                    match action {
                        TakeAction::Send(event) => {
                            assert_eq!(event.board_id, id);
                            assert_eq!(event.event.waveform_data.dim(), (NUM_CH, 3));
                            assert_eq!(event.event.c_event.n_channels, NUM_CH);
                        }
                        _ => panic!(),
                    }
                    action = step(&mut taker, TakeEvent::Sent(true));
                }
                assert!(matches!(action, TakeAction::CheckShutdown));
            }
            None => assert!(matches!(action, TakeAction::CheckShutdown)),
        }
    }
}

#[test]
fn single_board_sends_nothing() {
    let mut taker = started(vec![(0, 70)]);
    for _ in 0..3 {
        step(&mut taker, TakeEvent::Shutdown(false));
        let action = step(&mut taker, TakeEvent::Read(FELibReturn::Success));
        assert!(matches!(action, TakeAction::CheckShutdown));
    }
}

#[test]
fn stop_of_a_third_board_keeps_the_pair() {
    let mut taker = started(vec![(0, 70), (1, 71), (2, 72)]);
    step(&mut taker, TakeEvent::Shutdown(false));
    step(&mut taker, TakeEvent::Read(FELibReturn::Success));
    step(&mut taker, TakeEvent::Read(FELibReturn::Success));
    let action = step(&mut taker, TakeEvent::Read(FELibReturn::Stop));
    assert!(matches!(action, TakeAction::Send(_)));
}

#[test]
fn failed_send_drops_the_rest() {
    let mut taker = started(vec![(0, 70), (1, 71)]);
    step(&mut taker, TakeEvent::Shutdown(false));
    step(&mut taker, TakeEvent::Read(FELibReturn::Success));
    step(&mut taker, TakeEvent::Read(FELibReturn::Success));
    assert!(matches!(step(&mut taker, TakeEvent::Sent(false)), TakeAction::CheckShutdown));
    assert!(taker.board_events.is_empty());
    assert!(matches!(step(&mut taker, TakeEvent::Shutdown(false)), TakeAction::Read(70, 0)));
}

#[test]
fn no_boards_at_all() {
    let (mut taker, action) = DataTaker::new(vec![], &config(3));
    assert!(matches!(action, TakeAction::SignalConfigured));
    step(&mut taker, TakeEvent::Done);
    step(&mut taker, TakeEvent::Done);
    assert!(matches!(step(&mut taker, TakeEvent::Shutdown(false)), TakeAction::CheckShutdown));
}

#[test]
fn what_data_taking_needs() {
    assert!(can_take_data(&vec![(0, 1), (1, 2)], &config(4084)));
    assert!(!can_take_data(&vec![(0, 1), (2, 2)], &config(4084)));
    assert!(!can_take_data(&vec![(0, 1)], &config(usize::MAX)));
    let (taker, _) = DataTaker::new(vec![(0, 70)], &config(3));
    assert!(!taker.accepts(&TakeEvent::Done));
    assert!(!taker.accepts(&TakeEvent::Shutdown(false)));
}

#[test]
fn paths_of_an_endpoint() {
    assert_eq!(ENDPOINT_PATH, "/endpoint/scope");
    assert_eq!(PARENT_PATH, "");
    assert_eq!(ACTIVE_ENDPOINT_PATH, "/par/activeendpoint");
    assert_eq!(ENDPOINT_NAME, "scope");
}
