//! What playback asks of a source and what the source decides: quality
//! presets, the playback request, and the playback decision.
//!
//! The playback start offset is held in milliseconds.

use vstd::prelude::*;

verus! {

/// A rung of the quality ladder.
#[derive(Debug, Clone, Copy, PartialEq, Eq, Structural)]
pub enum QualityPreset {
    Original,
    P1080Mbps20,
    P1080Mbps12,
    P1080Mbps8,
    P720Mbps4,
    P720Mbps3,
    P480Mbps2,
    P480Kbps720,
}

/// The video bitrate cap of a preset, in kbit/s (none for `Original`).
pub open spec fn preset_bitrate(p: QualityPreset) -> Option<u32> {
    match p {
        QualityPreset::Original => None,
        QualityPreset::P1080Mbps20 => Some(20_000),
        QualityPreset::P1080Mbps12 => Some(12_000),
        QualityPreset::P1080Mbps8 => Some(8_000),
        QualityPreset::P720Mbps4 => Some(4_000),
        QualityPreset::P720Mbps3 => Some(3_000),
        QualityPreset::P480Mbps2 => Some(2_000),
        QualityPreset::P480Kbps720 => Some(720),
    }
}

/// The `(width, height)` cap of a preset (none for `Original`).
pub open spec fn preset_size(p: QualityPreset) -> Option<(u32, u32)> {
    match p {
        QualityPreset::Original => None,
        QualityPreset::P1080Mbps20 | QualityPreset::P1080Mbps12 | QualityPreset::P1080Mbps8 => Some(
            (1920, 1080),
        ),
        QualityPreset::P720Mbps4 | QualityPreset::P720Mbps3 => Some((1280, 720)),
        QualityPreset::P480Mbps2 | QualityPreset::P480Kbps720 => Some((720, 480)),
    }
}

/// The `videoResolution` parameter of a preset, `{width}x{height}`.
pub open spec fn preset_resolution(p: QualityPreset) -> Option<Seq<char>> {
    match p {
        QualityPreset::Original => None,
        QualityPreset::P1080Mbps20 | QualityPreset::P1080Mbps12 | QualityPreset::P1080Mbps8 => Some(
            "1920x1080"@,
        ),
        QualityPreset::P720Mbps4 | QualityPreset::P720Mbps3 => Some("1280x720"@),
        QualityPreset::P480Mbps2 | QualityPreset::P480Kbps720 => Some("720x480"@),
    }
}

impl QualityPreset {
    /// The cap applied on a remote connection when the user chose Auto:
    /// 1080p at 8 Mbit/s.
    pub const REMOTE_DEFAULT: QualityPreset = QualityPreset::P1080Mbps8;

    /// The video bitrate cap in kbit/s, or `None` for `Original`.
    pub fn max_video_bitrate_kbps(&self) -> (r: Option<u32>)
        ensures
            r == preset_bitrate(*self),
    {
        match self {
            QualityPreset::Original => None,
            QualityPreset::P1080Mbps20 => Some(20_000),
            QualityPreset::P1080Mbps12 => Some(12_000),
            QualityPreset::P1080Mbps8 => Some(8_000),
            QualityPreset::P720Mbps4 => Some(4_000),
            QualityPreset::P720Mbps3 => Some(3_000),
            QualityPreset::P480Mbps2 => Some(2_000),
            QualityPreset::P480Kbps720 => Some(720),
        }
    }

    /// The `videoQuality` percentage sent to the transcoder.
    pub fn video_quality(&self) -> (r: u32)
        ensures
            r == 100,
    {
        100
    }

    /// The `videoResolution` parameter, or `None` for `Original`.
    pub fn video_resolution(&self) -> (r: Option<&'static str>)
        ensures
            match r {
                Some(s) => preset_resolution(*self) == Some(s@),
                None => preset_resolution(*self) is None,
            },
    {
        match self {
            QualityPreset::Original => None,
            QualityPreset::P1080Mbps20 | QualityPreset::P1080Mbps12 | QualityPreset::P1080Mbps8 => {
                Some("1920x1080")
            },
            QualityPreset::P720Mbps4 | QualityPreset::P720Mbps3 => Some("1280x720"),
            QualityPreset::P480Mbps2 | QualityPreset::P480Kbps720 => Some("720x480"),
        }
    }
}

/// The user's quality choice: let the connection decide, or a fixed rung.
#[derive(Debug, Clone, Copy, PartialEq, Eq, Structural)]
pub enum QualitySelection {
    Auto,
    Manual(QualityPreset),
}

/// The effective cap: the manual rung, the remote default for Auto on a
/// remote connection, nothing for Auto on a local one.
pub open spec fn effective_preset_spec(quality: QualitySelection, is_remote: bool) -> Option<QualityPreset> {
    match quality {
        QualitySelection::Manual(p) => Some(p),
        QualitySelection::Auto => if is_remote {
            Some(QualityPreset::P1080Mbps8)
        } else {
            None
        },
    }
}

/// What the quality choice caps, over all choices: a manual rung is used as
/// chosen on any connection; Auto caps nothing on a local connection and caps
/// a remote one at 1080p and 8 Mbit/s. Down the ladder the bitrate caps
/// strictly fall, and only `Original` is uncapped.
pub proof fn lemma_quality_caps(quality: QualitySelection, is_remote: bool, p: QualityPreset)
    ensures
        quality == QualitySelection::Manual(p) ==> effective_preset_spec(quality, is_remote) == Some(p),
        quality == QualitySelection::Auto && !is_remote ==> effective_preset_spec(quality, is_remote) is None,
        quality == QualitySelection::Auto && is_remote ==> (effective_preset_spec(quality, is_remote) matches Some(
            q,
        ) && preset_bitrate(q) == Some(8_000u32) && preset_size(q) == Some((1920u32, 1080u32))),
        preset_bitrate(p) is None <==> p == QualityPreset::Original,
        preset_size(p) is None <==> p == QualityPreset::Original,
        preset_bitrate(QualityPreset::P1080Mbps20)->0 > preset_bitrate(QualityPreset::P1080Mbps12)->0
            > preset_bitrate(QualityPreset::P1080Mbps8)->0 > preset_bitrate(QualityPreset::P720Mbps4)->0
            > preset_bitrate(QualityPreset::P720Mbps3)->0 > preset_bitrate(QualityPreset::P480Mbps2)->0
            > preset_bitrate(QualityPreset::P480Kbps720)->0,
{
}

/// The effective quality cap for a request: a manual rung, the remote default
/// when Auto on a remote connection, or `None` (uncapped) when Auto on local.
pub fn effective_preset(quality: QualitySelection, is_remote: bool) -> (r: Option<QualityPreset>)
    ensures
        r == effective_preset_spec(quality, is_remote),
{
    match quality {
        QualitySelection::Manual(p) => Some(p),
        QualitySelection::Auto => {
            if is_remote {
                Some(QualityPreset::REMOTE_DEFAULT)
            } else {
                None
            }
        },
    }
}

/// The player a request is for.
#[derive(Debug, Clone, Copy, PartialEq, Eq, Structural)]
pub enum PlaybackBackendKind {
    GStreamer,
    Mpv,
}

/// What playback asks a source to resolve.
#[derive(Debug, Clone, PartialEq)]
pub struct PlaybackRequest {
    pub rating_key: String,
    pub part_key: String,
    pub media_index: u32,
    pub part_index: u32,
    pub quality: QualitySelection,
    pub force_transcode: bool,
    pub can_direct_play_10bit: bool,
    pub can_direct_play_hdr: bool,
    pub backend_kind: PlaybackBackendKind,
    pub audio_stream_id: Option<i64>,
    pub subtitle_stream_id: Option<i64>,
    /// Start offset in milliseconds.
    pub offset_ms: i64,
}

/// How the server will deliver the media.
#[derive(Debug, Clone, Copy, PartialEq, Eq, Structural)]
pub enum PlaybackDecisionKind {
    DirectPlay,
    DirectStream,
    Transcode,
}

impl PlaybackDecisionKind {
    /// Served through the transcoder's session (direct stream or transcode).
    pub fn is_transcode_like(&self) -> (r: bool)
        ensures
            r == (*self != PlaybackDecisionKind::DirectPlay),
    {
        match self {
            PlaybackDecisionKind::DirectPlay => false,
            _ => true,
        }
    }
}

/// An audio or subtitle track offered by a decision.
#[derive(Debug, Clone, PartialEq)]
pub struct DecisionStream {
    pub id: i64,
    pub label: String,
    pub selected: bool,
}

/// The resolved way to play an item.
#[derive(Debug, Clone, PartialEq)]
pub struct PlaybackDecision {
    pub kind: PlaybackDecisionKind,
    pub url: String,
    pub session: Option<String>,
    pub video_resolution: Option<String>,
    pub video_bitrate_kbps: Option<i64>,
    pub throttled: bool,
    pub audio_streams: Vec<DecisionStream>,
    pub subtitle_streams: Vec<DecisionStream>,
}

} // verus!
