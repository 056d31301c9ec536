//! The values that a board's parameters are set to, in the order in which they
//! are set, and the parameters that describe a board.
use crate::config::{BoardSettings, ChannelConfig, Conf, DCOffsetConfig, SyncSettings};
use crate::text::{decimal, decimal_is_injective, signed_decimal};
use crate::text::{decimal_text, joined, signed_decimal_text};
use vstd::prelude::*;
use vstd::string::*;

verus! {

/// A parameter's path and the value that it is set to.
#[derive(Debug)]
pub struct Setting {
    pub path: String,
    pub value: String,
}

/// A parameter's path and value as sequences of characters.
#[verifier::ext_equal]
pub struct SettingText {
    pub path: Seq<char>,
    pub value: Seq<char>,
}

impl View for Setting {
    type V = SettingText;

    open spec fn view(&self) -> SettingText {
        SettingText { path: self.path@, value: self.value@ }
    }
}

/// The paths and values of a list of settings.
pub open spec fn setting_texts(settings: Seq<Setting>) -> Seq<SettingText> {
    settings.map_values(|setting: Setting| setting@)
}

/// The setting of the parameter at `path` to `value`.
pub open spec fn setting(path: Seq<char>, value: Seq<char>) -> SettingText {
    SettingText { path, value }
}

/// The path that switches the channel of the given number on.
pub open spec fn enable_path(channel: Seq<char>) -> Seq<char> {
    "/ch/"@ + channel + "/par/ChEnable"@
}

/// The path of a channel's DC offset.
pub open spec fn offset_path(channel: Seq<char>) -> Seq<char> {
    "/ch/"@ + channel + "/par/DCOffset"@
}

/// The settings that switch the channels on.
pub open spec fn channel_settings(channels: ChannelConfig) -> Seq<SettingText> {
    match channels {
        ChannelConfig::All(_) => seq![setting("/ch/0..63/par/ChEnable"@, "true"@)],
        ChannelConfig::List(list) => list@.map_values(
            |channel: usize| setting(enable_path(decimal(channel as nat)), "true"@),
        ),
    }
}

/// The settings that give the channels their DC offsets.
pub open spec fn offset_settings(offsets: DCOffsetConfig) -> Seq<SettingText> {
    match offsets {
        DCOffsetConfig::Global(offset) => seq![setting("/ch/0..63/par/DCOffset"@, offset@)],
        DCOffsetConfig::PerChannel(list) => list@.map_values(
            |entry: (String, String)| setting(offset_path(entry.0@), entry.1@),
        ),
    }
}

/// The settings that all channels of a board share.
pub open spec fn common_settings(board: BoardSettings) -> Seq<SettingText> {
    seq![
        setting("/par/RecordLengthS"@, decimal(board.record_len as nat)),
        setting("/par/PreTriggerS"@, decimal(board.pre_trig_len as nat)),
        setting("/par/AcqTriggerSource"@, board.trig_source@),
        setting("/par/IOlevel"@, board.io_level@),
        setting("/par/TestPulsePeriod"@, "8333333"@),
        setting("/par/TestPulseWidth"@, "1000"@),
        setting("/par/TestPulseLowLevel"@, "0"@),
        setting("/par/TestPulseHighLevel"@, "10000"@),
    ]
}

/// All settings of a board, in order.
pub open spec fn board_settings(board: BoardSettings) -> Seq<SettingText> {
    channel_settings(board.en_chans) + offset_settings(board.dc_offset) + common_settings(board)
}

/// The delay between the start signal and the start of a board's run: two
/// clock ticks for each board behind it, four more for the first board, and
/// eight units to a tick.
pub open spec fn run_delay(board_id: int, num_boards: int) -> int {
    (2 * (num_boards - board_id - 1) + if board_id == 0 {
        4int
    } else {
        0
    }) * 8
}

/// The delay of the clock that a board hands on to the next one. The board at
/// the end of the chain has none, even if it is also the first.
pub open spec fn clock_out_delay(board_id: int, num_boards: int) -> int {
    if board_id == num_boards - 1 {
        0
    } else if board_id == 0 {
        -2188
    } else {
        -3111
    }
}

/// The settings that fit a board into the chain of boards, in order.
pub open spec fn sync_settings(board_id: int, num_boards: int, sync: SyncSettings) -> Seq<
    SettingText,
> {
    let first = board_id == 0;
    seq![
        setting(
            "/par/ClockSource"@,
            if first {
                sync.primary_clock_src@
            } else {
                sync.secondary_clock_src@
            },
        ),
        setting(
            "/par/SyncOutMode"@,
            if first {
                sync.primary_sync_out@
            } else {
                sync.secondary_sync_out@
            },
        ),
        setting(
            "/par/StartSource"@,
            if first {
                sync.primary_start_source@
            } else {
                sync.secondary_start_source@
            },
        ),
        setting(
            "/par/EnClockOutFP"@,
            if first {
                sync.primary_clock_out_fp@
            } else {
                sync.secondary_clock_out_fp@
            },
        ),
        setting("/par/EnAutoDisarmAcq"@, sync.auto_disarm@),
        setting("/par/TrgOutMode"@, sync.trig_out@),
        setting("/par/RunDelay"@, signed_decimal(run_delay(board_id, num_boards))),
        setting("/par/VolatileClockOutDelay"@, signed_decimal(clock_out_delay(board_id, num_boards))),
    ]
}

/// A parameter that describes a board, and the text that its value is shown
/// after.
#[derive(Debug)]
pub struct Detail {
    pub label: &'static str,
    pub path: &'static str,
}

impl View for Detail {
    type V = (Seq<char>, Seq<char>);

    open spec fn view(&self) -> (Seq<char>, Seq<char>) {
        (self.label@, self.path@)
    }
}

/// The labels and paths of a list of parameters.
pub open spec fn detail_texts(details: Seq<Detail>) -> Seq<(Seq<char>, Seq<char>)> {
    details.map_values(|detail: Detail| detail@)
}

/// The parameters that describe a board, in the order in which they are shown.
pub open spec fn board_details() -> Seq<(Seq<char>, Seq<char>)> {
    seq![
        ("Model name:\t"@, "/par/ModelName"@),
        ("Serial number:\t"@, "/par/SerialNum"@),
        ("ADC bits:\t"@, "/par/ADC_Nbit"@),
        ("Channels:\t"@, "/par/NumCh"@),
        ("ADC rate:\t"@, "/par/ADC_SamplRate"@),
        ("CUP version:\t"@, "/par/cupver"@),
    ]
}

/// Makes a setting out of its two texts.
fn make_setting(path: &str, value: &str) -> (made: Setting)
    ensures
        made@ == setting(path@, value@),
{
    Setting { path: String::from_str(path), value: String::from_str(value) }
}

/// Appends a setting to a list.
fn add_setting(settings: &mut Vec<Setting>, path: &str, value: &str)
    ensures
        setting_texts(final(settings)@) == setting_texts(old(settings)@).push(
            setting(path@, value@),
        ),
{
    let ghost before = setting_texts(settings@);
    settings.push(make_setting(path, value));
    assert(setting_texts(settings@) =~= before.push(setting(path@, value@)));
}

/// Appends the settings that switch the channels on.
fn add_channel_settings(settings: &mut Vec<Setting>, channels: &ChannelConfig)
    ensures
        setting_texts(final(settings)@) == setting_texts(old(settings)@) + channel_settings(
            *channels,
        ),
{
    let ghost before = setting_texts(settings@);
    match channels {
        ChannelConfig::All(_) => {
            add_setting(settings, "/ch/0..63/par/ChEnable", "true");
            assert(setting_texts(settings@) =~= before + channel_settings(*channels));
        },
        ChannelConfig::List(list) => {
            let ghost wanted = channel_settings(*channels);
            let mut i: usize = 0;
            assert(setting_texts(settings@) =~= before + wanted.take(0));
            while i < list.len()
                invariant
                    i <= list.len(),
                    *channels == ChannelConfig::List(*list),
                    wanted == channel_settings(*channels),
                    setting_texts(settings@) == before + wanted.take(i as int),
                decreases list.len() - i,
            {
                let number = decimal_text(list[i] as u64);
                let path = joined("/ch/", number.as_str(), "/par/ChEnable");
                add_setting(settings, path.as_str(), "true");
                assert(wanted[i as int] == setting(path@, "true"@));
                assert(setting_texts(settings@) =~= before + wanted.take(i + 1));
                i += 1;
            }
            assert(wanted.take(wanted.len() as int) =~= wanted);
        },
    }
}

/// Appends the settings that give the channels their DC offsets.
fn add_offset_settings(settings: &mut Vec<Setting>, offsets: &DCOffsetConfig)
    ensures
        setting_texts(final(settings)@) == setting_texts(old(settings)@) + offset_settings(
            *offsets,
        ),
{
    let ghost before = setting_texts(settings@);
    match offsets {
        DCOffsetConfig::Global(offset) => {
            add_setting(settings, "/ch/0..63/par/DCOffset", offset.as_str());
            assert(setting_texts(settings@) =~= before + offset_settings(*offsets));
        },
        DCOffsetConfig::PerChannel(list) => {
            let ghost wanted = offset_settings(*offsets);
            let mut i: usize = 0;
            assert(setting_texts(settings@) =~= before + wanted.take(0));
            while i < list.len()
                invariant
                    i <= list.len(),
                    *offsets == DCOffsetConfig::PerChannel(*list),
                    wanted == offset_settings(*offsets),
                    setting_texts(settings@) == before + wanted.take(i as int),
                decreases list.len() - i,
            {
                let path = joined("/ch/", list[i].0.as_str(), "/par/DCOffset");
                add_setting(settings, path.as_str(), list[i].1.as_str());
                assert(wanted[i as int] == setting(path@, list[i as int].1@));
                assert(setting_texts(settings@) =~= before + wanted.take(i + 1));
                i += 1;
            }
            assert(wanted.take(wanted.len() as int) =~= wanted);
        },
    }
}

/// Lists what a board's parameters are set to before it takes data.
pub fn configure_board(config: &Conf) -> (settings: Vec<Setting>)
    ensures
        setting_texts(settings@) == board_settings(config.board_settings),
{
    let board = &config.board_settings;
    let mut settings: Vec<Setting> = Vec::new();
    assert(setting_texts(settings@) =~= Seq::<SettingText>::empty());
    add_channel_settings(&mut settings, &board.en_chans);
    add_offset_settings(&mut settings, &board.dc_offset);
    let ghost before = setting_texts(settings@);
    assert(before =~= channel_settings(board.en_chans) + offset_settings(board.dc_offset));
    let record_len = decimal_text(board.record_len as u64);
    let pre_trig_len = decimal_text(board.pre_trig_len as u64);
    add_setting(&mut settings, "/par/RecordLengthS", record_len.as_str());
    add_setting(&mut settings, "/par/PreTriggerS", pre_trig_len.as_str());
    add_setting(&mut settings, "/par/AcqTriggerSource", board.trig_source.as_str());
    add_setting(&mut settings, "/par/IOlevel", board.io_level.as_str());
    add_setting(&mut settings, "/par/TestPulsePeriod", "8333333");
    add_setting(&mut settings, "/par/TestPulseWidth", "1000");
    add_setting(&mut settings, "/par/TestPulseLowLevel", "0");
    add_setting(&mut settings, "/par/TestPulseHighLevel", "10000");
    assert(setting_texts(settings@) =~= before + common_settings(*board));
    settings
}

/// The delay of a board's clock output.
pub fn get_clock_out_delay(board_id: isize, num_boards: isize) -> (delay: isize)
    requires
        num_boards > isize::MIN,
    ensures
        delay == clock_out_delay(board_id as int, num_boards as int),
{
    let first_board = board_id == 0;
    let last_board = board_id == num_boards - 1;
    if last_board {
        0
    } else if first_board {
        -2188
    } else {
        -3111
    }
}

/// The delay of a board's run.
pub fn get_run_delay(board_id: isize, num_boards: isize) -> (delay: isize)
    requires
        isize::MIN <= run_delay(board_id as int, num_boards as int) <= isize::MAX,
    ensures
        delay == run_delay(board_id as int, num_boards as int),
{
    let first_board = board_id == 0;
    let board_id_from_last: isize = num_boards - board_id - 1;
    let mut run_delay_clk: isize = 2 * board_id_from_last;
    if first_board {
        run_delay_clk += 4;
    }
    run_delay_clk * 8
}

/// Lists what a board's parameters are set to so that it runs in step with the
/// other boards of the chain.
pub fn configure_sync(board_id: isize, num_boards: isize, config: &Conf) -> (settings: Vec<Setting>)
    requires
        num_boards > isize::MIN,
        isize::MIN <= run_delay(board_id as int, num_boards as int) <= isize::MAX,
    ensures
        setting_texts(settings@) == sync_settings(
            board_id as int,
            num_boards as int,
            config.sync_settings,
        ),
{
    let first_board = board_id == 0;
    let sync = &config.sync_settings;
    let mut settings: Vec<Setting> = Vec::new();
    assert(setting_texts(settings@) =~= Seq::<SettingText>::empty());
    add_setting(
        &mut settings,
        "/par/ClockSource",
        if first_board {
            sync.primary_clock_src.as_str()
        } else {
            sync.secondary_clock_src.as_str()
        },
    );
    add_setting(
        &mut settings,
        "/par/SyncOutMode",
        if first_board {
            sync.primary_sync_out.as_str()
        } else {
            sync.secondary_sync_out.as_str()
        },
    );
    add_setting(
        &mut settings,
        "/par/StartSource",
        if first_board {
            sync.primary_start_source.as_str()
        } else {
            sync.secondary_start_source.as_str()
        },
    );
    add_setting(
        &mut settings,
        "/par/EnClockOutFP",
        if first_board {
            sync.primary_clock_out_fp.as_str()
        } else {
            sync.secondary_clock_out_fp.as_str()
        },
    );
    add_setting(&mut settings, "/par/EnAutoDisarmAcq", sync.auto_disarm.as_str());
    add_setting(&mut settings, "/par/TrgOutMode", sync.trig_out.as_str());
    let run_delay_text = signed_decimal_text(get_run_delay(board_id, num_boards) as i64);
    let clock_out_text = signed_decimal_text(get_clock_out_delay(board_id, num_boards) as i64);
    add_setting(&mut settings, "/par/RunDelay", run_delay_text.as_str());
    add_setting(&mut settings, "/par/VolatileClockOutDelay", clock_out_text.as_str());
    assert(setting_texts(settings@) =~= sync_settings(
        board_id as int,
        num_boards as int,
        config.sync_settings,
    ));
    settings
}

/// Lists the parameters that describe a board, in the order in which they are
/// shown.
pub fn dig_details() -> (details: Vec<Detail>)
    ensures
        detail_texts(details@) == board_details(),
{
    let mut details: Vec<Detail> = Vec::new();
    details.push(Detail { label: "Model name:\t", path: "/par/ModelName" });
    details.push(Detail { label: "Serial number:\t", path: "/par/SerialNum" });
    details.push(Detail { label: "ADC bits:\t", path: "/par/ADC_Nbit" });
    details.push(Detail { label: "Channels:\t", path: "/par/NumCh" });
    details.push(Detail { label: "ADC rate:\t", path: "/par/ADC_SamplRate" });
    details.push(Detail { label: "CUP version:\t", path: "/par/cupver" });
    assert(detail_texts(details@) =~= board_details());
    details
}

/// The line that shows `value` after `label`.
pub open spec fn detail_line(label: Seq<char>, value: Seq<char>) -> Seq<char> {
    label + value
}

impl Detail {
    /// The line that shows the value of the parameter.
    pub fn line(&self, value: &str) -> (line: String)
        ensures
            line@ == self@.0 + value@,
            line@ == detail_line(self.label@, value@),
    {
        let mut line = String::from_str(self.label);
        line.append(value);
        line
    }
}

/// Along the chain every board starts its run with a shorter delay than the one
/// before it, and the last board of two or more starts without delay.
pub proof fn run_delays_fall_along_the_chain(board: int, next: int, num_boards: int)
    requires
        0 <= board < next < num_boards,
    ensures
        run_delay(board, num_boards) > run_delay(next, num_boards),
        run_delay(next, num_boards) == 16 * (num_boards - 1 - next),
        run_delay(num_boards - 1, num_boards) == 0,
{
}

/// A board hands its clock on without delay exactly when no board follows it.
pub proof fn only_the_last_clock_is_undelayed(board: int, num_boards: int)
    requires
        0 <= board < num_boards,
    ensures
        clock_out_delay(board, num_boards) == 0 <==> board == num_boards - 1,
        clock_out_delay(board, num_boards) <= 0,
{
}

/// Two secondary boards differ in nothing but their delays.
pub proof fn secondary_boards_share_their_sources(
    board: int,
    other: int,
    num_boards: int,
    sync: SyncSettings,
)
    requires
        board != 0,
        other != 0,
    ensures
        sync_settings(board, num_boards, sync).take(6) == sync_settings(
            other,
            num_boards,
            sync,
        ).take(6),
{
    assert(sync_settings(board, num_boards, sync).take(6) =~= sync_settings(
        other,
        num_boards,
        sync,
    ).take(6));
}

/// Two channels whose paths agree are the same channel.
proof fn lemma_channel_of_path(first: Seq<char>, a: Seq<char>, b: Seq<char>, last: Seq<char>)
    requires
        first + a + last == first + b + last,
    ensures
        a == b,
{
    let whole = first + a + last;
    assert(whole.len() == first.len() + a.len() + last.len());
    assert(whole.len() == first.len() + b.len() + last.len());
    assert(a =~= whole.subrange(first.len() as int, (first.len() + a.len()) as int));
    assert(b =~= (first + b + last).subrange(first.len() as int, (first.len() + b.len()) as int));
}

/// A list that names no channel twice switches no channel on twice.
pub proof fn listed_channels_are_enabled_once(list: Vec<usize>)
    requires
        list@.no_duplicates(),
    ensures
        ({
            let settings = channel_settings(ChannelConfig::List(list));
            forall|i: int, j: int|
                0 <= i < j < settings.len() ==> (#[trigger] settings[i]).path != (
                #[trigger] settings[j]).path
        }),
{
    let settings = channel_settings(ChannelConfig::List(list));
    assert forall|i: int, j: int| 0 <= i < j < settings.len() implies (
    #[trigger] settings[i]).path != (#[trigger] settings[j]).path by {
        let a = decimal(list@[i] as nat);
        let b = decimal(list@[j] as nat);
        if settings[i].path == settings[j].path {
            lemma_channel_of_path("/ch/"@, a, b, "/par/ChEnable"@);
            decimal_is_injective(list@[i] as nat, list@[j] as nat);
        }
    }
}

/// Offsets that name no channel twice set no channel's offset twice.
pub proof fn channel_offsets_are_set_once(list: Vec<(String, String)>)
    requires
        forall|i: int, j: int| 0 <= i < j < list@.len() ==> (#[trigger] list@[i]).0@ != (
        #[trigger] list@[j]).0@,
    ensures
        ({
            let settings = offset_settings(DCOffsetConfig::PerChannel(list));
            forall|i: int, j: int|
                0 <= i < j < settings.len() ==> (#[trigger] settings[i]).path != (
                #[trigger] settings[j]).path
        }),
{
    let settings = offset_settings(DCOffsetConfig::PerChannel(list));
    assert forall|i: int, j: int| 0 <= i < j < settings.len() implies (
    #[trigger] settings[i]).path != (#[trigger] settings[j]).path by {
        if settings[i].path == settings[j].path {
            lemma_channel_of_path("/ch/"@, list@[i].0@, list@[j].0@, "/par/DCOffset"@);
        }
    }
}

/// Whether exactly one of `settings` is for the parameter at `path`, and sets it to
/// `value`.
pub open spec fn sets_once(settings: Seq<SettingText>, path: Seq<char>, value: Seq<char>) -> bool {
    exists|k: int|
        {
            &&& 0 <= k < settings.len()
            &&& (#[trigger] settings[k]).path == path
            &&& settings[k].value == value
            &&& forall|i: int| 0 <= i < settings.len() && (#[trigger] settings[i]).path == path
                ==> i == k
        }
}

/// A setting that no other setting shares its path with is the only one there.
proof fn lemma_sets_once(settings: Seq<SettingText>, k: int)
    requires
        0 <= k < settings.len(),
        forall|i: int|
            0 <= i < settings.len() && i != k ==> (#[trigger] settings[i]).path
                != settings[k].path,
    ensures
        sets_once(settings, settings[k].path, settings[k].value),
{
}

/// A parameter that is set once has one value.
proof fn lemma_set_to_one_value(
    settings: Seq<SettingText>,
    path: Seq<char>,
    a: Seq<char>,
    b: Seq<char>,
)
    requires
        sets_once(settings, path, a),
        sets_once(settings, path, b),
    ensures
        a == b,
{
}

/// The settings of the channels come first, and those that all channels share
/// follow. No path of the one kind is of the other.
proof fn lemma_channels_first(board: BoardSettings)
    ensures
        ({
            let settings = board_settings(board);
            let n = channel_settings(board.en_chans).len() + offset_settings(board.dc_offset).len();
            &&& settings.len() == n + 8
            &&& forall|i: int|
                0 <= i < n ==> (#[trigger] settings[i]).path.len() > 1 && settings[i].path[1] == 'c'
            &&& forall|j: int|
                0 <= j < 8 ==> #[trigger] settings[n + j] == common_settings(board)[j]
        }),
{
    let settings = board_settings(board);
    let channels = channel_settings(board.en_chans);
    let offsets = offset_settings(board.dc_offset);
    reveal_strlit("/ch/");
    reveal_strlit("/ch/0..63/par/ChEnable");
    reveal_strlit("/ch/0..63/par/DCOffset");
    assert forall|i: int| 0 <= i < channels.len() + offsets.len() implies (
    #[trigger] settings[i]).path.len() > 1 && settings[i].path[1] == 'c' by {
        if i < channels.len() {
            assert(settings[i] == channels[i]);
        } else {
            assert(settings[i] == offsets[i - channels.len()]);
        }
    }
}

/// Each parameter that all channels share is set exactly once, to what the
/// configuration says of it.
pub proof fn board_is_set_as_configured(board: BoardSettings)
    ensures
        sets_once(board_settings(board), "/par/RecordLengthS"@, decimal(board.record_len as nat)),
        sets_once(board_settings(board), "/par/PreTriggerS"@, decimal(board.pre_trig_len as nat)),
        sets_once(board_settings(board), "/par/AcqTriggerSource"@, board.trig_source@),
        sets_once(board_settings(board), "/par/IOlevel"@, board.io_level@),
        sets_once(board_settings(board), "/par/TestPulsePeriod"@, "8333333"@),
        sets_once(board_settings(board), "/par/TestPulseWidth"@, "1000"@),
        sets_once(board_settings(board), "/par/TestPulseLowLevel"@, "0"@),
        sets_once(board_settings(board), "/par/TestPulseHighLevel"@, "10000"@),
{
    let settings = board_settings(board);
    let n = (channel_settings(board.en_chans).len() + offset_settings(board.dc_offset).len()) as int;
    reveal_strlit("/par/RecordLengthS");
    reveal_strlit("/par/PreTriggerS");
    reveal_strlit("/par/AcqTriggerSource");
    reveal_strlit("/par/IOlevel");
    reveal_strlit("/par/TestPulsePeriod");
    reveal_strlit("/par/TestPulseWidth");
    reveal_strlit("/par/TestPulseLowLevel");
    reveal_strlit("/par/TestPulseHighLevel");
    lemma_channels_first(board);
    assert(settings[n + 0].path == "/par/RecordLengthS"@);
    assert(settings[n + 1].path == "/par/PreTriggerS"@);
    assert(settings[n + 2].path == "/par/AcqTriggerSource"@);
    assert(settings[n + 3].path == "/par/IOlevel"@);
    assert(settings[n + 4].path == "/par/TestPulsePeriod"@);
    assert(settings[n + 5].path == "/par/TestPulseWidth"@);
    assert(settings[n + 6].path == "/par/TestPulseLowLevel"@);
    assert(settings[n + 7].path == "/par/TestPulseHighLevel"@);
    assert forall|j: int| 0 <= j < 8 implies sets_once(
        settings,
        settings[n + j].path,
        #[trigger] settings[n + j].value,
    ) by {
        assert(settings[n + j].path[1] == 'p');
        assert forall|i: int| 0 <= i < settings.len() && i != n + j implies (
        #[trigger] settings[i]).path != settings[n + j].path by {
            if i >= n {
                let k = i - n;
                assert(settings[n + k].path.len() != settings[n + j].path.len());
            }
        }
        lemma_sets_once(settings, n + j);
    }
    assert(settings[n + 0].value == decimal(board.record_len as nat));
    assert(settings[n + 1].value == decimal(board.pre_trig_len as nat));
    assert(settings[n + 2].value == board.trig_source@);
    assert(settings[n + 3].value == board.io_level@);
    assert(settings[n + 4].value == "8333333"@);
    assert(settings[n + 5].value == "1000"@);
    assert(settings[n + 6].value == "0"@);
    assert(settings[n + 7].value == "10000"@);
}

/// Boards that are set alike are configured alike in what all channels share.
pub proof fn board_settings_tell_configurations_apart(a: BoardSettings, b: BoardSettings)
    requires
        board_settings(a) == board_settings(b),
    ensures
        a.record_len == b.record_len,
        a.pre_trig_len == b.pre_trig_len,
        a.trig_source@ == b.trig_source@,
        a.io_level@ == b.io_level@,
{
    let settings = board_settings(a);
    board_is_set_as_configured(a);
    board_is_set_as_configured(b);
    lemma_set_to_one_value(
        settings,
        "/par/RecordLengthS"@,
        decimal(a.record_len as nat),
        decimal(b.record_len as nat),
    );
    lemma_set_to_one_value(
        settings,
        "/par/PreTriggerS"@,
        decimal(a.pre_trig_len as nat),
        decimal(b.pre_trig_len as nat),
    );
    lemma_set_to_one_value(settings, "/par/AcqTriggerSource"@, a.trig_source@, b.trig_source@);
    lemma_set_to_one_value(settings, "/par/IOlevel"@, a.io_level@, b.io_level@);
    decimal_is_injective(a.record_len as nat, b.record_len as nat);
    decimal_is_injective(a.pre_trig_len as nat, b.pre_trig_len as nat);
}

/// The settings of a board begin with one that switches each listed channel on, in
/// the order of the list, or with one that switches on all of them.
pub proof fn channels_are_enabled_as_configured(board: BoardSettings)
    ensures
        board.en_chans matches ChannelConfig::List(list) ==> {
            &&& board_settings(board).len() >= list@.len()
            &&& forall|i: int|
                0 <= i < list@.len() ==> {
                    &&& (#[trigger] board_settings(board)[i]).path == "/ch/"@ + decimal(
                        list@[i] as nat,
                    ) + "/par/ChEnable"@
                    &&& board_settings(board)[i].value == "true"@
                }
        },
        board.en_chans is All ==> {
            &&& board_settings(board).len() >= 1
            &&& board_settings(board)[0].path == "/ch/0..63/par/ChEnable"@
            &&& board_settings(board)[0].value == "true"@
        },
{
}

/// After the channels are switched on, each channel with an offset of its own is
/// given that offset, in the order of the configuration, or all channels are given
/// the one that they share; and eight more settings follow.
pub proof fn offsets_are_set_as_configured(board: BoardSettings)
    ensures
        ({
            let settings = board_settings(board);
            let n: int = match board.en_chans {
                ChannelConfig::All(_) => 1,
                ChannelConfig::List(list) => list@.len() as int,
            };
            match board.dc_offset {
                DCOffsetConfig::Global(offset) => {
                    &&& settings.len() == n + 1 + 8
                    &&& settings[n].path == "/ch/0..63/par/DCOffset"@
                    &&& settings[n].value == offset@
                },
                DCOffsetConfig::PerChannel(list) => {
                    &&& settings.len() == n + list@.len() + 8
                    &&& forall|i: int|
                        0 <= i < list@.len() ==> {
                            &&& (#[trigger] settings[n + i]).path == "/ch/"@ + list@[i].0@
                                + "/par/DCOffset"@
                            &&& settings[n + i].value == list@[i].1@
                        }
                },
            }
        }),
{
    lemma_channels_first(board);
}

/// Each parameter that fits a board into the chain is set exactly once: to the
/// primary source or mode on the first board and to the secondary one on the others,
/// to what all boards share, and to the board's delays.
pub proof fn chain_is_set_as_configured(board_id: int, num_boards: int, sync: SyncSettings)
    ensures
        sets_once(
            sync_settings(board_id, num_boards, sync),
            "/par/ClockSource"@,
            if board_id == 0 {
                sync.primary_clock_src@
            } else {
                sync.secondary_clock_src@
            },
        ),
        sets_once(
            sync_settings(board_id, num_boards, sync),
            "/par/SyncOutMode"@,
            if board_id == 0 {
                sync.primary_sync_out@
            } else {
                sync.secondary_sync_out@
            },
        ),
        sets_once(
            sync_settings(board_id, num_boards, sync),
            "/par/StartSource"@,
            if board_id == 0 {
                sync.primary_start_source@
            } else {
                sync.secondary_start_source@
            },
        ),
        sets_once(
            sync_settings(board_id, num_boards, sync),
            "/par/EnClockOutFP"@,
            if board_id == 0 {
                sync.primary_clock_out_fp@
            } else {
                sync.secondary_clock_out_fp@
            },
        ),
        sets_once(
            sync_settings(board_id, num_boards, sync),
            "/par/EnAutoDisarmAcq"@,
            sync.auto_disarm@,
        ),
        sets_once(
            sync_settings(board_id, num_boards, sync),
            "/par/TrgOutMode"@,
            sync.trig_out@,
        ),
        sets_once(
            sync_settings(board_id, num_boards, sync),
            "/par/RunDelay"@,
            signed_decimal(run_delay(board_id, num_boards)),
        ),
        sets_once(
            sync_settings(board_id, num_boards, sync),
            "/par/VolatileClockOutDelay"@,
            signed_decimal(clock_out_delay(board_id, num_boards)),
        ),
{
    let settings = sync_settings(board_id, num_boards, sync);
    reveal_strlit("/par/ClockSource");
    reveal_strlit("/par/SyncOutMode");
    reveal_strlit("/par/StartSource");
    reveal_strlit("/par/EnClockOutFP");
    reveal_strlit("/par/EnAutoDisarmAcq");
    reveal_strlit("/par/TrgOutMode");
    reveal_strlit("/par/RunDelay");
    reveal_strlit("/par/VolatileClockOutDelay");
    assert(settings[0].path == "/par/ClockSource"@);
    assert(settings[1].path == "/par/SyncOutMode"@);
    assert(settings[2].path == "/par/StartSource"@);
    assert(settings[3].path == "/par/EnClockOutFP"@);
    assert(settings[4].path == "/par/EnAutoDisarmAcq"@);
    assert(settings[5].path == "/par/TrgOutMode"@);
    assert(settings[6].path == "/par/RunDelay"@);
    assert(settings[7].path == "/par/VolatileClockOutDelay"@);
    assert("/par/ClockSource"@[5] != "/par/SyncOutMode"@[5]);
    assert("/par/ClockSource"@[5] != "/par/StartSource"@[5]);
    assert("/par/SyncOutMode"@[6] != "/par/StartSource"@[6]);
    assert forall|k: int| 0 <= k < 8 implies sets_once(
        settings,
        settings[k].path,
        #[trigger] settings[k].value,
    ) by {
        lemma_sets_once(settings, k);
    }
    assert(settings[0].value == if board_id == 0 {
        sync.primary_clock_src@
    } else {
        sync.secondary_clock_src@
    });
    assert(settings[1].value == if board_id == 0 {
        sync.primary_sync_out@
    } else {
        sync.secondary_sync_out@
    });
    assert(settings[2].value == if board_id == 0 {
        sync.primary_start_source@
    } else {
        sync.secondary_start_source@
    });
    assert(settings[3].value == if board_id == 0 {
        sync.primary_clock_out_fp@
    } else {
        sync.secondary_clock_out_fp@
    });
    assert(settings[4].value == sync.auto_disarm@);
    assert(settings[5].value == sync.trig_out@);
    assert(settings[6].value == signed_decimal(run_delay(board_id, num_boards)));
    assert(settings[7].value == signed_decimal(clock_out_delay(board_id, num_boards)));
}

/// The first of several boards hands its clock on with a delay of -2188, those in
/// the middle with -3111, and the last one without; a run starts 16 later for each
/// board that follows, and 32 later still on the first board.
pub proof fn delays_follow_the_place_in_the_chain(board: int, num_boards: int)
    ensures
        board == num_boards - 1 ==> clock_out_delay(board, num_boards) == 0,
        board == 0 && num_boards != 1 ==> clock_out_delay(board, num_boards) == -2188,
        board != 0 && board != num_boards - 1 ==> clock_out_delay(board, num_boards) == -3111,
        board != 0 ==> run_delay(board, num_boards) == 16 * (num_boards - 1 - board),
        board == 0 ==> run_delay(board, num_boards) == 16 * (num_boards - 1) + 32,
{
}

/// What all channels of a board share is set last, in a fixed order.
pub proof fn shared_settings_come_last(board: BoardSettings)
    ensures
        ({
            let settings = board_settings(board);
            let n = settings.len() - 8;
            &&& n >= 0
            &&& settings[n].path == "/par/RecordLengthS"@
            &&& settings[n + 1].path == "/par/PreTriggerS"@
            &&& settings[n + 2].path == "/par/AcqTriggerSource"@
            &&& settings[n + 3].path == "/par/IOlevel"@
            &&& settings[n + 4].path == "/par/TestPulsePeriod"@
            &&& settings[n + 5].path == "/par/TestPulseWidth"@
            &&& settings[n + 6].path == "/par/TestPulseLowLevel"@
            &&& settings[n + 7].path == "/par/TestPulseHighLevel"@
        }),
{
}

/// A board is fitted into the chain by eight settings, in a fixed order: its sources
/// and modes come before its delays.
pub proof fn chain_is_set_in_order(board_id: int, num_boards: int, sync: SyncSettings)
    ensures
        ({
            let settings = sync_settings(board_id, num_boards, sync);
            &&& settings.len() == 8
            &&& settings[0].path == "/par/ClockSource"@
            &&& settings[1].path == "/par/SyncOutMode"@
            &&& settings[2].path == "/par/StartSource"@
            &&& settings[3].path == "/par/EnClockOutFP"@
            &&& settings[4].path == "/par/EnAutoDisarmAcq"@
            &&& settings[5].path == "/par/TrgOutMode"@
            &&& settings[6].path == "/par/RunDelay"@
            &&& settings[7].path == "/par/VolatileClockOutDelay"@
        }),
{
}

/// The texts of settings and of parameters are those of the list, one for one.
pub proof fn lists_keep_their_texts(settings: Seq<Setting>, details: Seq<Detail>, i: int)
    ensures
        setting_texts(settings).len() == settings.len(),
        0 <= i < settings.len() ==> setting_texts(settings)[i].path == settings[i].path@
            && setting_texts(settings)[i].value == settings[i].value@,
        detail_texts(details).len() == details.len(),
        0 <= i < details.len() ==> detail_texts(details)[i] == (
            details[i].label@,
            details[i].path@,
        ),
{
}

/// A board is described by its model, its serial number, its resolution, its
/// channels, its rate and its firmware, in this order.
pub proof fn boards_are_described_by_six_parameters()
    ensures
        board_details().len() == 6,
        board_details()[0] == ("Model name:\t"@, "/par/ModelName"@),
        board_details()[1] == ("Serial number:\t"@, "/par/SerialNum"@),
        board_details()[2] == ("ADC bits:\t"@, "/par/ADC_Nbit"@),
        board_details()[3] == ("Channels:\t"@, "/par/NumCh"@),
        board_details()[4] == ("ADC rate:\t"@, "/par/ADC_SamplRate"@),
        board_details()[5] == ("CUP version:\t"@, "/par/cupver"@),
{
}

/// A line that shows a parameter starts with the label and goes on with the value.
pub proof fn lines_show_label_and_value(label: Seq<char>, value: Seq<char>)
    ensures
        detail_line(label, value).len() == label.len() + value.len(),
        detail_line(label, value).take(label.len() as int) == label,
        detail_line(label, value).skip(label.len() as int) == value,
{
    assert(detail_line(label, value).take(label.len() as int) =~= label);
    assert(detail_line(label, value).skip(label.len() as int) =~= value);
}

} // verus!
