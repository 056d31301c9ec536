//! What the configuration file of a data acquisition holds.
use vstd::prelude::*;

verus! {

/// Which channels of a board are read out.
#[derive(Debug, Clone)]
pub enum ChannelConfig {
    /// Every channel. The text is whatever the configuration file said.
    All(String),
    /// The channels with these numbers.
    List(Vec<usize>),
}

/// The DC offset of the channels of a board. An offset is kept as the text that
/// the board is sent.
#[derive(Debug, Clone)]
pub enum DCOffsetConfig {
    /// One offset for all channels.
    Global(String),
    /// A channel and its offset, for each channel that has one of its own.
    PerChannel(Vec<(String, String)>),
}

/// Where and for how long data are taken.
#[derive(Debug, Clone)]
pub struct RunSettings {
    /// The length of a run in seconds.
    pub run_duration: u64,
    pub campaign_num: usize,
    pub output_dir: String,
}

/// How each board is set up.
#[derive(Debug, Clone)]
pub struct BoardSettings {
    pub en_chans: ChannelConfig,
    pub dc_offset: DCOffsetConfig,
    /// The number of samples of a waveform.
    pub record_len: usize,
    /// The number of samples of a waveform before its trigger.
    pub pre_trig_len: usize,
    pub trig_source: String,
    pub io_level: String,
}

/// How the boards are synchronized. The first board is the primary one, all
/// others are secondary.
#[derive(Debug, Clone)]
pub struct SyncSettings {
    pub primary_clock_src: String,
    pub primary_sync_out: String,
    pub primary_start_source: String,
    pub primary_clock_out_fp: String,
    pub secondary_clock_src: String,
    pub secondary_sync_out: String,
    pub secondary_start_source: String,
    pub secondary_clock_out_fp: String,
    pub auto_disarm: String,
    pub trig_out: String,
}

/// A configuration.
#[derive(Debug, Clone)]
pub struct Conf {
    pub run_settings: RunSettings,
    pub board_settings: BoardSettings,
    pub sync_settings: SyncSettings,
}

} // verus!
