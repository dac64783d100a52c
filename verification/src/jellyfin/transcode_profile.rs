//! The `DeviceProfile` sent in a Jellyfin `PlaybackInfo` request: what the
//! player can direct-play, how to transcode the rest, and the bitrate and
//! resolution cap of the selected quality rung.
//!
//! The capability ceiling matches the Plex client profile: H.264 up to level
//! 5.2, HEVC only at 8-bit, so 10-bit, HDR and Dolby Vision content is
//! transcoded to SDR. The profile is rendered as JSON text.

use vstd::prelude::*;
use crate::playback::{effective_preset, effective_preset_spec, preset_bitrate, preset_size, QualityPreset, QualitySelection};
use crate::text::{nat_digits, push_nat};

verus! {

/// The profile text before the bitrate.
pub open spec fn profile_head() -> Seq<char> {
    "{\"MaxStreamingBitrate\":"@
}

/// The direct-play and transcoding tables, and the two codec ceilings.
pub open spec fn profile_tables() -> Seq<char> {
    ",\"DirectPlayProfiles\":[{\"Type\":\"Video\",\"Container\":\"mkv,mp4,m4v,mov,webm,ts\",\"VideoCodec\":\"h264,hevc,vp8,vp9,av1\",\"AudioCodec\":\"aac,mp3,ac3,eac3,flac,opus,dts,pcm,alac\"},{\"Type\":\"Audio\",\"Container\":\"mp3,aac,flac,alac,ogg,opus,wav\"}],\"TranscodingProfiles\":[{\"Type\":\"Video\",\"Container\":\"mp4\",\"VideoCodec\":\"h264\",\"AudioCodec\":\"aac\",\"Protocol\":\"hls\",\"Context\":\"Streaming\",\"MinSegments\":2,\"MaxAudioChannels\":\"6\"},{\"Type\":\"Video\",\"Container\":\"ts\",\"VideoCodec\":\"h264\",\"AudioCodec\":\"aac,mp3\",\"Protocol\":\"hls\",\"Context\":\"Streaming\",\"MinSegments\":2,\"MaxAudioChannels\":\"2\"}],\"CodecProfiles\":[{\"Type\":\"Video\",\"Codec\":\"h264\",\"Conditions\":[{\"Condition\":\"LessThanEqual\",\"Property\":\"VideoLevel\",\"Value\":\"52\",\"IsRequired\":false}]},{\"Type\":\"Video\",\"Codec\":\"hevc\",\"Conditions\":[{\"Condition\":\"LessThanEqual\",\"Property\":\"VideoBitDepth\",\"Value\":\"8\",\"IsRequired\":false}]}"@
}

/// The subtitle table and the end of the profile.
pub open spec fn profile_tail() -> Seq<char> {
    "],\"SubtitleProfiles\":[{\"Format\":\"srt\",\"Method\":\"External\"},{\"Format\":\"ass\",\"Method\":\"External\"},{\"Format\":\"ssa\",\"Method\":\"External\"},{\"Format\":\"srt\",\"Method\":\"Embed\"},{\"Format\":\"ass\",\"Method\":\"Embed\"},{\"Format\":\"ssa\",\"Method\":\"Embed\"},{\"Format\":\"pgssub\",\"Method\":\"Embed\"},{\"Format\":\"dvdsub\",\"Method\":\"Embed\"}]}"@
}

/// The codec profile that caps width and height (required conditions).
pub open spec fn resolution_cap_text(w: u32, h: u32) -> Seq<char> {
    ",{\"Type\":\"Video\",\"Conditions\":[{\"Condition\":\"LessThanEqual\",\"Property\":\"Width\",\"Value\":\""@
        + nat_digits(w as nat)
        + "\",\"IsRequired\":true},{\"Condition\":\"LessThanEqual\",\"Property\":\"Height\",\"Value\":\""@
        + nat_digits(h as nat) + "\",\"IsRequired\":true}]}"@
}

/// The stream bitrate cap of an effective preset, in bits per second.
pub open spec fn max_bitrate_bps(preset: Option<QualityPreset>) -> Option<u64> {
    match preset {
        Some(p) => match preset_bitrate(p) {
            Some(kbps) => Some((kbps * 1000) as u64),
            None => None,
        },
        None => None,
    }
}

/// The profile text for an effective preset.
pub open spec fn device_profile_text(preset: Option<QualityPreset>) -> Seq<char> {
    profile_head() + match max_bitrate_bps(preset) {
        Some(b) => nat_digits(b as nat),
        None => "null"@,
    } + profile_tables() + match preset {
        Some(p) => match preset_size(p) {
            Some((w, h)) => resolution_cap_text(w, h),
            None => Seq::empty(),
        },
        None => Seq::empty(),
    } + profile_tail()
}

/// Build the `DeviceProfile` JSON for a `PlaybackInfo` request body, and the
/// stream bitrate cap in bits per second (`None` when uncapped), which the
/// caller also sets on the request body.
pub fn device_profile(quality: QualitySelection, is_remote: bool) -> (r: (String, Option<u64>))
    ensures
        r.0@ == device_profile_text(effective_preset_spec(quality, is_remote)),
        r.1 == max_bitrate_bps(effective_preset_spec(quality, is_remote)),
{
    let preset = effective_preset(quality, is_remote);
    let max_bps: Option<u64> = match preset {
        Some(p) => match p.max_video_bitrate_kbps() {
            Some(kbps) => Some(kbps as u64 * 1000),
            None => None,
        },
        None => None,
    };
    let mut s = String::new();
    s.append("{\"MaxStreamingBitrate\":");
    match max_bps {
        Some(b) => push_nat(&mut s, b),
        None => s.append("null"),
    }
    s.append(
        ",\"DirectPlayProfiles\":[{\"Type\":\"Video\",\"Container\":\"mkv,mp4,m4v,mov,webm,ts\",\"VideoCodec\":\"h264,hevc,vp8,vp9,av1\",\"AudioCodec\":\"aac,mp3,ac3,eac3,flac,opus,dts,pcm,alac\"},{\"Type\":\"Audio\",\"Container\":\"mp3,aac,flac,alac,ogg,opus,wav\"}],\"TranscodingProfiles\":[{\"Type\":\"Video\",\"Container\":\"mp4\",\"VideoCodec\":\"h264\",\"AudioCodec\":\"aac\",\"Protocol\":\"hls\",\"Context\":\"Streaming\",\"MinSegments\":2,\"MaxAudioChannels\":\"6\"},{\"Type\":\"Video\",\"Container\":\"ts\",\"VideoCodec\":\"h264\",\"AudioCodec\":\"aac,mp3\",\"Protocol\":\"hls\",\"Context\":\"Streaming\",\"MinSegments\":2,\"MaxAudioChannels\":\"2\"}],\"CodecProfiles\":[{\"Type\":\"Video\",\"Codec\":\"h264\",\"Conditions\":[{\"Condition\":\"LessThanEqual\",\"Property\":\"VideoLevel\",\"Value\":\"52\",\"IsRequired\":false}]},{\"Type\":\"Video\",\"Codec\":\"hevc\",\"Conditions\":[{\"Condition\":\"LessThanEqual\",\"Property\":\"VideoBitDepth\",\"Value\":\"8\",\"IsRequired\":false}]}",
    );
    let ghost before_cap = s@;
    let cap: Option<(u32, u32)> = match preset {
        Some(p) => resolution_of(p),
        None => None,
    };
    match cap {
        Some((w, h)) => {
            s.append(
                ",{\"Type\":\"Video\",\"Conditions\":[{\"Condition\":\"LessThanEqual\",\"Property\":\"Width\",\"Value\":\"",
            );
            push_nat(&mut s, w as u64);
            s.append("\",\"IsRequired\":true},{\"Condition\":\"LessThanEqual\",\"Property\":\"Height\",\"Value\":\"");
            push_nat(&mut s, h as u64);
            s.append("\",\"IsRequired\":true}]}");
            assert(s@ =~= before_cap + resolution_cap_text(w, h));
        },
        None => {},
    }
    s.append(
        "],\"SubtitleProfiles\":[{\"Format\":\"srt\",\"Method\":\"External\"},{\"Format\":\"ass\",\"Method\":\"External\"},{\"Format\":\"ssa\",\"Method\":\"External\"},{\"Format\":\"srt\",\"Method\":\"Embed\"},{\"Format\":\"ass\",\"Method\":\"Embed\"},{\"Format\":\"ssa\",\"Method\":\"Embed\"},{\"Format\":\"pgssub\",\"Method\":\"Embed\"},{\"Format\":\"dvdsub\",\"Method\":\"Embed\"}]}",
    );
    assert(s@ =~= device_profile_text(effective_preset_spec(quality, is_remote)));
    (s, max_bps)
}

/// The `(width, height)` cap of a preset (none for `Original`).
fn resolution_of(p: QualityPreset) -> (r: Option<(u32, u32)>)
    ensures
        r == preset_size(p),
{
    match p {
        QualityPreset::Original => None,
        QualityPreset::P1080Mbps20 | QualityPreset::P1080Mbps12 | QualityPreset::P1080Mbps8 => Some(
            (1920, 1080),
        ),
        QualityPreset::P720Mbps4 | QualityPreset::P720Mbps3 => Some((1280, 720)),
        QualityPreset::P480Mbps2 | QualityPreset::P480Kbps720 => Some((720, 480)),
    }
}

} // verus!
