use rust_daq::config::{
    BoardSettings, ChannelConfig, Conf, DCOffsetConfig, RunSettings, SyncSettings,
};
use rust_daq::device::Command;
use rust_daq::settings::{
    configure_board, configure_sync, dig_details, get_clock_out_delay, get_run_delay, Setting,
};

fn config(en_chans: ChannelConfig, dc_offset: DCOffsetConfig) -> Conf {
    let t = |s: &str| s.to_string();
    Conf {
        run_settings: RunSettings { run_duration: 60, campaign_num: 5, output_dir: t("/data") },
        board_settings: BoardSettings {
            en_chans,
            dc_offset,
            record_len: 4084,
            pre_trig_len: 1000,
            trig_source: t("SwTrg"),
            io_level: t("NIM"),
        },
        sync_settings: SyncSettings {
            primary_clock_src: t("Internal"),
            primary_sync_out: t("Run"),
            primary_start_source: t("SWcmd"),
            primary_clock_out_fp: t("True"),
            secondary_clock_src: t("FPClkIn"),
            secondary_sync_out: t("SyncIn"),
            secondary_start_source: t("EncodedClkIn"),
            secondary_clock_out_fp: t("False"),
            auto_disarm: t("Yes"),
            trig_out: t("Disabled"),
        },
    }
}

fn pairs(settings: &Vec<Setting>) -> Vec<(&str, &str)> {
    settings.iter().map(|s| (s.path.as_str(), s.value.as_str())).collect()
}

const COMMON: [(&str, &str); 8] = [
    ("/par/RecordLengthS", "4084"),
    ("/par/PreTriggerS", "1000"),
    ("/par/AcqTriggerSource", "SwTrg"),
    ("/par/IOlevel", "NIM"),
    ("/par/TestPulsePeriod", "8333333"),
    ("/par/TestPulseWidth", "1000"),
    ("/par/TestPulseLowLevel", "0"),
    ("/par/TestPulseHighLevel", "10000"),
];

#[test]
fn board_with_common_channel_settings() {
    let conf = config(
        ChannelConfig::All("all".to_string()),
        DCOffsetConfig::Global("50".to_string()),
    );
    let settings = configure_board(&conf);
    let mut expected = vec![("/ch/0..63/par/ChEnable", "true"), ("/ch/0..63/par/DCOffset", "50")];
    expected.extend(COMMON);
    assert_eq!(pairs(&settings), expected);
}

#[test]
fn board_with_channels_of_their_own() {
    let conf = config(
        ChannelConfig::List(vec![0, 12, 63]),
        DCOffsetConfig::PerChannel(vec![
            ("12".to_string(), "20.5".to_string()),
            ("0".to_string(), "10".to_string()),
        ]),
    );
    let settings = configure_board(&conf);
    let mut expected = vec![
        ("/ch/0/par/ChEnable", "true"),
        ("/ch/12/par/ChEnable", "true"),
        ("/ch/63/par/ChEnable", "true"),
        ("/ch/12/par/DCOffset", "20.5"),
        ("/ch/0/par/DCOffset", "10"),
    ];
    expected.extend(COMMON);
    assert_eq!(pairs(&settings), expected);
}

#[test]
fn board_without_channels() {
    let conf = config(ChannelConfig::List(vec![]), DCOffsetConfig::PerChannel(vec![]));
    assert_eq!(pairs(&configure_board(&conf)), COMMON.to_vec());
}

#[test]
fn first_of_two_boards_is_primary() {
    let conf = config(ChannelConfig::List(vec![]), DCOffsetConfig::PerChannel(vec![]));
    let settings = configure_sync(0, 2, &conf);
    assert_eq!(
        pairs(&settings),
        vec![
            ("/par/ClockSource", "Internal"),
            ("/par/SyncOutMode", "Run"),
            ("/par/StartSource", "SWcmd"),
            ("/par/EnClockOutFP", "True"),
            ("/par/EnAutoDisarmAcq", "Yes"),
            ("/par/TrgOutMode", "Disabled"),
            ("/par/RunDelay", "48"),
            ("/par/VolatileClockOutDelay", "-2188"),
        ]
    );
}

#[test]
fn second_of_two_boards_is_secondary() {
    let conf = config(ChannelConfig::List(vec![]), DCOffsetConfig::PerChannel(vec![]));
    let settings = configure_sync(1, 2, &conf);
    assert_eq!(
        pairs(&settings),
        vec![
            ("/par/ClockSource", "FPClkIn"),
            ("/par/SyncOutMode", "SyncIn"),
            ("/par/StartSource", "EncodedClkIn"),
            ("/par/EnClockOutFP", "False"),
            ("/par/EnAutoDisarmAcq", "Yes"),
            ("/par/TrgOutMode", "Disabled"),
            ("/par/RunDelay", "0"),
            ("/par/VolatileClockOutDelay", "0"),
        ]
    );
}

#[test]
fn delays_along_a_chain() {
    let run: Vec<isize> = (0..4).map(|i| get_run_delay(i, 4)).collect();
    assert_eq!(run, vec![80, 32, 16, 0]);
    let clock: Vec<isize> = (0..4).map(|i| get_clock_out_delay(i, 4)).collect();
    assert_eq!(clock, vec![-2188, -3111, -3111, 0]);
}

#[test]
fn delays_of_a_single_board() {
    assert_eq!(get_run_delay(0, 1), 32);
    assert_eq!(get_clock_out_delay(0, 1), 0);
}

#[test]
fn secondary_boards_differ_in_delays_only() {
    let conf = config(ChannelConfig::List(vec![]), DCOffsetConfig::PerChannel(vec![]));
    let (a, b) = (configure_sync(1, 4, &conf), configure_sync(2, 4, &conf));
    assert_eq!(pairs(&a)[..6], pairs(&b)[..6]);
    assert_ne!(pairs(&a)[6], pairs(&b)[6]);
}

#[test]
fn details_of_a_board() {
    let details = dig_details();
    let lines: Vec<String> = details.iter().map(|d| d.line(d.path)).collect();
    assert_eq!(
        lines,
        vec![
            "Model name:\t/par/ModelName",
            "Serial number:\t/par/SerialNum",
            "ADC bits:\t/par/ADC_Nbit",
            "Channels:\t/par/NumCh",
            "ADC rate:\t/par/ADC_SamplRate",
            "CUP version:\t/par/cupver",
        ]
    );
}

#[test]
fn commands_have_paths() {
    assert_eq!(Command::Reset.path(), "/cmd/reset");
    assert_eq!(Command::ArmAcquisition.path(), "/cmd/armacquisition");
    assert_eq!(Command::SwStartAcquisition.path(), "/cmd/swstartacquisition");
    assert_eq!(Command::DisarmAcquisition.path(), "/cmd/disarmacquisition");
}
