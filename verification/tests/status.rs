use rust_daq::acquisition::{data_taking_thread, DataTaker, TakeAction, TakeEvent};
use rust_daq::config::{
    BoardSettings, ChannelConfig, Conf, DCOffsetConfig, RunSettings, SyncSettings,
};
use rust_daq::device::{Command, FELibReturn};
use rust_daq::processing::{
    event_processing, BoardInfo, EventProcessor, ProcessAction, ProcessEvent, RunInfo,
};
use rust_daq::screen::{Span, Style};
use rust_daq::status::{
    time_since, Counter, KeyCode, KeyEvent, KeyEventKind, RunAction, RunEvent, RunPhase,
    StatsReply, Status, StatusExit, TerminalEvent, NANOS_PER_SEC,
};

const S: u64 = NANOS_PER_SEC;

fn config() -> Conf {
    let t = String::new;
    Conf {
        run_settings: RunSettings {
            run_duration: 10,
            campaign_num: 3,
            output_dir: "/data/lar".to_string(),
        },
        board_settings: BoardSettings {
            en_chans: ChannelConfig::All(t()),
            dc_offset: DCOffsetConfig::Global(t()),
            record_len: 1,
            pre_trig_len: 0,
            trig_source: t(),
            io_level: t(),
        },
        sync_settings: SyncSettings {
            primary_clock_src: t(),
            primary_sync_out: t(),
            primary_start_source: t(),
            primary_clock_out_fp: t(),
            secondary_clock_src: t(),
            secondary_sync_out: t(),
            secondary_start_source: t(),
            secondary_clock_out_fp: t(),
            auto_disarm: t(),
            trig_out: t(),
        },
    }
}

fn status(max_runs: Option<usize>) -> Status {
    Status::new(config(), vec![(0, 70), (1, 71)], max_runs, 5)
}

type Event = RunEvent<&'static str>;
type Action = RunAction<String, &'static str>;

fn step(s: &mut Status, event: Event) -> Action {
    assert!(s.accepts(&event));
    s.run(event)
}

fn runs(names: &[&str]) -> Event {
    RunEvent::Runs(names.iter().map(|n| Some(n.to_string())).collect())
}

fn stats(size0: usize, size1: usize, waiting: usize) -> Event {
    let info = |event_size, board_id| BoardInfo { event_size, trigger_id: 1, board_id };
    RunEvent::Stats(StatsReply::Info(RunInfo {
        board0_info: info(size0, 0),
        board1_info: info(size1, 1),
        event_channel_buf: waiting,
    }))
}

fn press(c: char) -> Event {
    RunEvent::Terminal(Some(TerminalEvent::Key(KeyEvent {
        code: KeyCode::Char(c),
        kind: KeyEventKind::Press,
    })))
}

/// Begins a run at `now`, up to the first tick.
fn begin(s: &mut Status, now: u64, listed: Event) -> String {
    assert!(matches!(step(s, RunEvent::Clock(now)), RunAction::SpawnDataTaking));
    assert!(matches!(step(s, RunEvent::Done), RunAction::AwaitEndpoints));
    assert!(matches!(step(s, RunEvent::Done), RunAction::SignalStart));
    assert!(matches!(
        step(s, RunEvent::Done),
        RunAction::SendCommand(70, Command::SwStartAcquisition)
    ));
    assert!(matches!(step(s, RunEvent::Done), RunAction::ListRuns));
    let name = match step(s, listed) {
        RunAction::SpawnProcessing(name) => name,
        _ => panic!(),
    };
    assert!(matches!(step(s, RunEvent::Done), RunAction::AwaitTick));
    name
}

/// One tick without statistics; returns what follows drawing.
fn tick(s: &mut Status, terminal: Event, now: u64) -> Action {
    assert!(matches!(step(s, RunEvent::Done), RunAction::ReceiveStats));
    let empty = || RunEvent::Stats(StatsReply::Empty);
    assert!(matches!(step(s, empty()), RunAction::ReceiveStats));
    assert!(matches!(step(s, empty()), RunAction::PollTerminal));
    assert!(matches!(step(s, terminal), RunAction::ReadClock));
    assert!(matches!(step(s, RunEvent::Clock(now)), RunAction::Draw));
    step(s, RunEvent::Done)
}

/// Ends a run whose data taking or threads have just been told to stop.
fn end(s: &mut Status) -> Action {
    assert!(matches!(
        step(s, RunEvent::Done),
        RunAction::SendCommand(70, Command::DisarmAcquisition)
    ));
    assert!(matches!(
        step(s, RunEvent::Done),
        RunAction::SendCommand(71, Command::DisarmAcquisition)
    ));
    assert!(matches!(step(s, RunEvent::Done), RunAction::JoinDataTaking));
    assert!(matches!(step(s, RunEvent::Done), RunAction::JoinProcessing));
    step(s, RunEvent::Done)
}

#[test]
fn new_status() {
    let s = status(Some(4));
    assert_eq!(s.counter, Counter { t_begin: 5, n_events: 0, total_size: 0 });
    assert_eq!(s.t_begin, 5);
    assert_eq!(s.run_duration, 10);
    assert_eq!((s.run_num, s.camp_num, s.curr_run, s.buffer_len), (0, 3, 0, 0));
    assert_eq!(s.boards, vec![(0, 70), (1, 71)]);
    assert_eq!(s.max_runs, Some(4));
    assert_eq!(s.exit, None);
    assert_eq!(s.phase, RunPhase::Ready);
}

#[test]
fn quitting_shuts_down_and_closes() {
    let mut s = status(None);
    assert_eq!(begin(&mut s, S, runs(&[])), "run0_0.h5");
    assert!(matches!(tick(&mut s, RunEvent::Terminal(None), 2 * S), RunAction::AwaitTick));
    assert!(matches!(tick(&mut s, press('x'), 3 * S), RunAction::AwaitTick));
    assert!(matches!(tick(&mut s, press('Q'), 3 * S), RunAction::AwaitTick));
    assert!(matches!(tick(&mut s, press('q'), 4 * S), RunAction::SetShutdown));
    assert_eq!(s.exit, Some(StatusExit::Quit));
    assert!(matches!(end(&mut s), RunAction::Close(70)));
    assert!(matches!(step(&mut s, RunEvent::Done), RunAction::Close(71)));
    assert!(matches!(step(&mut s, RunEvent::Done), RunAction::Finish));
    assert_eq!(s.curr_run, 0);
    assert!(!s.accepts(&Event::Done));
    assert!(!s.accepts(&Event::Failed("late")));
}

#[test]
fn wanted_number_of_runs() {
    let mut s = status(Some(3));
    for n in 0..3u64 {
        let listed = if n == 0 { runs(&[]) } else { runs(&["run0_0.h5", "run1_0.h5"]) };
        begin(&mut s, 100 * n * S, listed);
        let action = tick(&mut s, RunEvent::Terminal(None), (100 * n + 10) * S);
        assert!(matches!(action, RunAction::StopDataTaking));
        assert_eq!(s.exit, Some(StatusExit::Timeout));
        let action = end(&mut s);
        assert_eq!(s.curr_run, n as usize + 1);
        if n < 2 {
            assert!(matches!(action, RunAction::ReadClock));
        } else {
            assert!(matches!(action, RunAction::Close(70)));
        }
    }
    assert!(matches!(step(&mut s, RunEvent::Done), RunAction::Close(71)));
    assert!(matches!(step(&mut s, RunEvent::Done), RunAction::Finish));
}

#[test]
fn limit_of_zero_is_no_limit() {
    for max_runs in [None, Some(0)] {
        let mut s = status(max_runs);
        for n in 0..5u64 {
            begin(&mut s, n * 100 * S, runs(&[]));
            tick(&mut s, RunEvent::Terminal(None), (n * 100 + 10) * S);
            assert!(matches!(end(&mut s), RunAction::ReadClock));
        }
        assert_eq!(s.curr_run, 5);
    }
}

#[test]
fn quitting_outweighs_a_full_run() {
    let mut s = status(None);
    begin(&mut s, S, runs(&[]));
    assert!(matches!(tick(&mut s, press('q'), 11 * S), RunAction::SetShutdown));
    assert_eq!(s.exit, Some(StatusExit::Quit));
    assert!(matches!(end(&mut s), RunAction::Close(70)));
    assert!(matches!(step(&mut s, RunEvent::Done), RunAction::Close(71)));
    assert!(matches!(step(&mut s, RunEvent::Done), RunAction::Finish));
    assert_eq!(s.exit, Some(StatusExit::Quit));
    assert_eq!(s.curr_run, 0);
}

/// Takes the wanted runs with data taking and event processing beside them. A
/// thread is waited for until it has stopped.
#[test]
fn threads_end_with_their_runs() {
    let mut s = Status::new(config(), vec![(0, 70), (1, 71)], Some(2), 0);
    let mut taker: Option<DataTaker> = None;
    let mut processor: Option<EventProcessor> = None;
    let (mut stop_taking, mut shutdown) = (false, false);
    let (mut now, mut begun, mut closed) = (0, 0, Vec::new());
    let mut action: Action = RunAction::ReadClock;
    loop {
        let event: Event = match action {
            RunAction::ReadClock => {
                now += 10 * S;
                RunEvent::Clock(now)
            }
            RunAction::SpawnDataTaking => {
                (stop_taking, shutdown) = (false, false);
                begun += 1;
                let (mut t, _) = DataTaker::new(s.boards.clone(), &s.config);
                for _ in 0..2 {
                    data_taking_thread(&mut t, TakeEvent::Handle(1));
                    data_taking_thread(&mut t, TakeEvent::Handle(2));
                    for _ in 0..3 {
                        data_taking_thread(&mut t, TakeEvent::Done);
                    }
                }
                data_taking_thread(&mut t, TakeEvent::Done);
                data_taking_thread(&mut t, TakeEvent::Done);
                data_taking_thread(&mut t, TakeEvent::Shutdown(false));
                taker = Some(t);
                RunEvent::Done
            }
            RunAction::ListRuns => runs(&[]),
            RunAction::SpawnProcessing(_) => {
                processor = Some(EventProcessor::new());
                RunEvent::Done
            }
            RunAction::ReceiveStats => RunEvent::Stats(StatsReply::Empty),
            RunAction::PollTerminal => RunEvent::Terminal(None),
            RunAction::StopDataTaking => {
                stop_taking = true;
                RunEvent::Done
            }
            RunAction::SetShutdown => {
                (stop_taking, shutdown) = (true, true);
                RunEvent::Done
            }
            RunAction::JoinDataTaking => {
                let mut t = taker.take().unwrap();
                let success = TakeEvent::Read(FELibReturn::Success);
                let mut sent = 0;
                let mut next = data_taking_thread(&mut t, success);
                for _ in 0..10 {
                    next = match next {
                        TakeAction::Read(..) => data_taking_thread(&mut t, success),
                        TakeAction::Send(_) => {
                            sent += 1;
                            data_taking_thread(&mut t, TakeEvent::Sent(true))
                        }
                        TakeAction::CheckShutdown => {
                            data_taking_thread(&mut t, TakeEvent::Shutdown(stop_taking))
                        }
                        other => other,
                    };
                }
                assert!(matches!(next, TakeAction::Stop));
                assert_eq!(sent, 2);
                RunEvent::Done
            }
            RunAction::JoinProcessing => {
                assert!(!shutdown);
                let mut p = processor.take().unwrap();
                let next = event_processing(&mut p, ProcessEvent::Disconnected);
                assert_eq!(next, ProcessAction::FlushAll);
                assert_eq!(event_processing(&mut p, ProcessEvent::Flushed), ProcessAction::Stop);
                RunEvent::Done
            }
            RunAction::Close(dev) => {
                closed.push(dev);
                RunEvent::Done
            }
            RunAction::Finish => break,
            RunAction::Fail(_) => panic!(),
            _ => RunEvent::Done,
        };
        action = step(&mut s, event);
    }
    assert_eq!((begun, s.curr_run), (2, 2));
    assert_eq!(s.exit, Some(StatusExit::Timeout));
    assert_eq!(closed, vec![70, 71]);
}

#[test]
fn run_ends_on_the_nanosecond() {
    let mut s = status(None);
    begin(&mut s, 7, runs(&[]));
    assert!(matches!(
        tick(&mut s, RunEvent::Terminal(None), 10 * S + 6),
        RunAction::AwaitTick
    ));
    assert!(matches!(
        tick(&mut s, RunEvent::Terminal(None), 10 * S + 7),
        RunAction::StopDataTaking
    ));
}

#[test]
fn statistics_are_counted() {
    let mut s = status(None);
    begin(&mut s, S, runs(&[]));
    step(&mut s, RunEvent::Done);
    assert!(matches!(step(&mut s, stats(10, 20, 4)), RunAction::ReceiveStats));
    assert!(matches!(step(&mut s, stats(1, 2, 9)), RunAction::ReceiveStats));
    assert!(matches!(step(&mut s, stats(3, 4, 6)), RunAction::ReceiveStats));
    assert_eq!(s.counter, Counter { t_begin: S, n_events: 3, total_size: 40 });
    assert_eq!(s.buffer_len, 6);
    let gone = RunEvent::Stats(StatsReply::Disconnected);
    assert!(matches!(step(&mut s, gone), RunAction::PollTerminal));
    assert_eq!(s.exit, None);
    assert!(!s.accepts(&Event::Done));
    step(&mut s, RunEvent::Terminal(None));
    step(&mut s, RunEvent::Clock(11 * S));
    step(&mut s, RunEvent::Done);
    end(&mut s);
    step(&mut s, RunEvent::Clock(12 * S));
    assert_eq!(s.counter, Counter { t_begin: 12 * S, n_events: 0, total_size: 0 });
    assert_eq!(s.buffer_len, 0);
    assert_eq!(s.exit, None);
}

#[test]
fn statistics_that_do_not_fit() {
    let mut s = status(None);
    begin(&mut s, S, runs(&[]));
    step(&mut s, RunEvent::Done);
    assert!(!s.accepts(&stats(usize::MAX, 1, 0)));
    step(&mut s, stats(usize::MAX, 0, 0));
    assert!(!s.accepts(&stats(1, 0, 0)));
    assert!(s.accepts(&stats(0, 0, 0)));
}

#[test]
fn lost_processing_quits() {
    let mut s = status(None);
    begin(&mut s, S, runs(&[]));
    step(&mut s, RunEvent::Done);
    let gone = || RunEvent::Stats(StatsReply::Disconnected);
    assert!(matches!(step(&mut s, gone()), RunAction::ReceiveStats));
    assert_eq!(s.exit, Some(StatusExit::Quit));
    assert!(matches!(step(&mut s, gone()), RunAction::PollTerminal));
    step(&mut s, RunEvent::Terminal(None));
    step(&mut s, RunEvent::Clock(2 * S));
    assert!(matches!(step(&mut s, RunEvent::Done), RunAction::SetShutdown));
}

#[test]
fn full_run_outweighs_lost_processing() {
    let mut s = status(None);
    begin(&mut s, S, runs(&[]));
    step(&mut s, RunEvent::Done);
    let gone = || RunEvent::Stats(StatsReply::Disconnected);
    step(&mut s, gone());
    step(&mut s, gone());
    step(&mut s, RunEvent::Terminal(None));
    step(&mut s, RunEvent::Clock(11 * S));
    assert_eq!(s.exit, Some(StatusExit::Timeout));
    assert!(matches!(step(&mut s, RunEvent::Done), RunAction::StopDataTaking));
    assert!(matches!(end(&mut s), RunAction::ReadClock));
    assert_eq!(s.curr_run, 1);
}

#[test]
fn quitting_outweighs_a_full_run_with_lost_processing() {
    let mut s = status(None);
    begin(&mut s, S, runs(&[]));
    step(&mut s, RunEvent::Done);
    let gone = || RunEvent::Stats(StatsReply::Disconnected);
    step(&mut s, gone());
    step(&mut s, gone());
    step(&mut s, press('q'));
    step(&mut s, RunEvent::Clock(11 * S));
    assert_eq!(s.exit, Some(StatusExit::Quit));
    assert!(matches!(step(&mut s, RunEvent::Done), RunAction::SetShutdown));
}

#[test]
fn quitting_while_a_run_begins() {
    let mut s = status(None);
    step(&mut s, RunEvent::Clock(0));
    step(&mut s, RunEvent::Done);
    s.exit();
    step(&mut s, RunEvent::Done);
    step(&mut s, RunEvent::Done);
    step(&mut s, RunEvent::Done);
    step(&mut s, runs(&[]));
    assert!(matches!(step(&mut s, RunEvent::Done), RunAction::SetShutdown));
    assert!(matches!(end(&mut s), RunAction::Close(70)));
}

#[test]
fn quitting_between_ticks() {
    let mut s = status(None);
    begin(&mut s, 0, runs(&[]));
    s.exit();
    assert!(matches!(tick(&mut s, RunEvent::Terminal(None), 10 * S), RunAction::SetShutdown));
    assert_eq!(s.exit, Some(StatusExit::Quit));
}

#[test]
fn failures_end_the_acquisition() {
    let mut s = status(None);
    step(&mut s, RunEvent::Clock(0));
    step(&mut s, RunEvent::Done);
    step(&mut s, RunEvent::Done);
    step(&mut s, RunEvent::Done);
    assert!(matches!(step(&mut s, RunEvent::Failed("no board")), RunAction::Fail("no board")));
    assert_eq!(s.phase, RunPhase::Finished);
}

#[test]
fn start_needs_a_board() {
    let mut s = Status::new(config(), vec![], None, 0);
    step(&mut s, RunEvent::Clock(0));
    step(&mut s, RunEvent::Done);
    step(&mut s, RunEvent::Done);
    assert!(!s.accepts(&Event::Done));
}

#[test]
fn new_run_is_numbered() {
    let mut s = status(None);
    assert_eq!(begin(&mut s, 0, runs(&["run4_0.h5", "run11_0.h5"])), "run12_0.h5");
    assert_eq!(s.run_num, 12);
    assert_eq!(s.create_run_file(&vec![None]), "run0_0.h5");
    assert_eq!(s.run_num, 12);
    let mut s = status(None);
    step(&mut s, RunEvent::Clock(0));
    for _ in 0..4 {
        step(&mut s, RunEvent::Done);
    }
    assert!(!s.accepts(&runs(&["run18446744073709551615_0.h5"])));
}

#[test]
fn directory_of_a_campaign() {
    assert_eq!(status(None).create_camp_dir(), "/data/lar/camp3");
}

#[test]
fn only_the_pressed_q_quits() {
    let key = |code, kind| Some(TerminalEvent::Key(KeyEvent { code, kind }));
    for (happened, quits) in [
        (None, false),
        (Some(TerminalEvent::Other), false),
        (key(KeyCode::Char('q'), KeyEventKind::Press), true),
        (key(KeyCode::Char('q'), KeyEventKind::Release), false),
        (key(KeyCode::Char('q'), KeyEventKind::Repeat), false),
        (key(KeyCode::Char('Q'), KeyEventKind::Press), false),
        (key(KeyCode::Other, KeyEventKind::Press), false),
    ] {
        let mut s = status(None);
        s.handle_events(happened);
        assert_eq!(s.exit.is_some(), quits);
    }
    let mut s = status(None);
    s.handle_key_event(KeyEvent { code: KeyCode::Other, kind: KeyEventKind::Press });
    assert_eq!(s.exit, None);
    s.handle_key_event(KeyEvent { code: KeyCode::Char('q'), kind: KeyEventKind::Press });
    assert_eq!(s.exit, Some(StatusExit::Quit));
    let mut s = status(None);
    s.exit();
    assert_eq!(s.exit, Some(StatusExit::Quit));
}

#[test]
fn time_does_not_go_back() {
    assert_eq!(time_since(5, 9), 4);
    assert_eq!(time_since(9, 5), 0);
}

fn texts(line: &Vec<Span>) -> Vec<(&str, Style)> {
    line.iter().map(|s| (s.text.as_str(), s.style)).collect()
}

#[test]
fn what_is_shown() {
    let mut s = status(None);
    begin(&mut s, S, runs(&["run6_0.h5"]));
    step(&mut s, RunEvent::Done);
    step(&mut s, stats(10, 20, 4));
    let screen = s.render(4 * S - 1, "1.25");
    assert_eq!(texts(&screen.title), vec![(" Campaign 3 Run 7 Status ", Style::Bold)]);
    assert_eq!(
        texts(&screen.instructions),
        vec![(" Quit ", Style::Plain), ("<Q> ", Style::BlueBold)]
    );
    assert_eq!(
        texts(&screen.status),
        vec![
            ("Elapsed time: ", Style::Plain),
            ("2", Style::Yellow),
            (" s", Style::Plain),
            (" Events: ", Style::Plain),
            ("1", Style::Yellow),
            (" Data rate: ", Style::Plain),
            ("1.25", Style::Yellow),
            (" MB/s ", Style::Plain),
            (" Buffer length: ", Style::Plain),
            ("4", Style::Yellow),
        ]
    );
}
