//! Client capability profile for Plex's universal transcoder.
//!
//! Builds the `X-Plex-Client-Profile-Extra` directive string that tells the
//! server what this client can direct-play, so the decision endpoint routes
//! incompatible media to a transcode: one `add-direct-play-profile` per
//! supported container, one HLS `add-transcode-target`, and `add-limitation`
//! ceilings, joined by `+`.
//!
//! The HEVC bit-depth gate is capability-conditional: a client that can render
//! 10-bit gets a 10-bit ceiling (plus an HDR transfer exclusion unless it can
//! also render HDR); otherwise HEVC is capped at 8-bit.

use vstd::prelude::*;
use crate::text::{join_strings, joined, strs_view};

verus! {

/// Audio codecs accepted in every direct-play container.
pub open spec fn direct_play_audio() -> Seq<char> {
    "aac,mp3,ac3,eac3,flac,opus,dts,pcm"@
}

/// A direct-play entry for a container and its comma-joined video codecs.
pub open spec fn direct_play_directive(container: Seq<char>, video: Seq<char>) -> Seq<char> {
    "add-direct-play-profile(type=videoProfile&container="@ + container + "&videoCodec="@ + video
        + "&audioCodec="@ + direct_play_audio() + ")"@
}

/// The single HLS transcode target: h264 in MPEG-TS with common audio codecs.
pub open spec fn transcode_target_directive() -> Seq<char> {
    "add-transcode-target(type=videoProfile&context=streaming&protocol="@ + "hls"@ + "&container="@
        + "mpegts"@ + "&videoCodec="@ + "h264"@ + "&audioCodec="@ + "aac,mp3,ac3,eac3"@ + ")"@
}

/// An `upperBound` limitation: the server transcodes anything above `value`.
pub open spec fn upper_bound_directive(scope: Seq<char>, name: Seq<char>, value: Seq<char>) -> Seq<char> {
    "add-limitation(scope=videoCodec&scopeName="@ + scope + "&type=upperBound&name="@ + name
        + "&value="@ + value + ")"@
}

/// A `notMatch` limitation: the server transcodes anything whose property is
/// one of the comma-separated `list`.
pub open spec fn not_match_directive(scope: Seq<char>, name: Seq<char>, list: Seq<char>) -> Seq<char> {
    "add-limitation(scope=videoCodec&scopeName="@ + scope + "&type=notMatch&name="@ + name + "&list="@
        + list + ")"@
}

/// HDR transfer characteristics (PQ and HLG).
pub open spec fn hdr_color_trc() -> Seq<char> {
    "smpte2084,arib-std-b67"@
}

/// The directives, in order: the four direct-play containers, the transcode
/// target, the H.264 level ceiling, then the HEVC bit-depth gate.
pub open spec fn profile_directives(ten_bit: bool, hdr: bool) -> Seq<Seq<char>> {
    seq![
        direct_play_directive("mp4"@, "h264,hevc"@),
        direct_play_directive("matroska"@, "h264,hevc"@),
        direct_play_directive("mpegts"@, "h264,hevc"@),
        direct_play_directive("avi"@, "h264"@),
        transcode_target_directive(),
        upper_bound_directive("h264"@, "video.level"@, "52"@),
    ] + if ten_bit {
        if hdr {
            seq![upper_bound_directive("hevc"@, "video.bitDepth"@, "10"@)]
        } else {
            seq![
                upper_bound_directive("hevc"@, "video.bitDepth"@, "10"@),
                not_match_directive("hevc"@, "video.colorTrc"@, hdr_color_trc()),
            ]
        }
    } else {
        seq![upper_bound_directive("hevc"@, "video.bitDepth"@, "8"@)]
    }
}

/// Format an `upperBound` limitation directive.
fn upper_bound(scope: &str, name: &str, value: &str) -> (r: String)
    ensures
        r@ == upper_bound_directive(scope@, name@, value@),
{
    let mut s = String::new();
    s.append("add-limitation(scope=videoCodec&scopeName=");
    s.append(scope);
    s.append("&type=upperBound&name=");
    s.append(name);
    s.append("&value=");
    s.append(value);
    s.append(")");
    assert(s@ =~= upper_bound_directive(scope@, name@, value@));
    s
}

/// Format a `notMatch` limitation directive against a comma-separated list.
fn not_match_list(scope: &str, name: &str, list: &str) -> (r: String)
    ensures
        r@ == not_match_directive(scope@, name@, list@),
{
    let mut s = String::new();
    s.append("add-limitation(scope=videoCodec&scopeName=");
    s.append(scope);
    s.append("&type=notMatch&name=");
    s.append(name);
    s.append("&list=");
    s.append(list);
    s.append(")");
    assert(s@ =~= not_match_directive(scope@, name@, list@));
    s
}

/// Format a direct-play entry.
fn direct_play(container: &str, video: &str) -> (r: String)
    ensures
        r@ == direct_play_directive(container@, video@),
{
    let mut s = String::new();
    s.append("add-direct-play-profile(type=videoProfile&container=");
    s.append(container);
    s.append("&videoCodec=");
    s.append(video);
    s.append("&audioCodec=");
    s.append("aac,mp3,ac3,eac3,flac,opus,dts,pcm");
    s.append(")");
    assert(s@ =~= direct_play_directive(container@, video@));
    s
}

/// Format the HLS transcode target.
fn transcode_target() -> (r: String)
    ensures
        r@ == transcode_target_directive(),
{
    let mut s = String::new();
    s.append("add-transcode-target(type=videoProfile&context=streaming&protocol=");
    s.append("hls");
    s.append("&container=");
    s.append("mpegts");
    s.append("&videoCodec=");
    s.append("h264");
    s.append("&audioCodec=");
    s.append("aac,mp3,ac3,eac3");
    s.append(")");
    assert(s@ =~= transcode_target_directive());
    s
}

/// Build the `X-Plex-Client-Profile-Extra` value: the directives of
/// `profile_directives` joined by `+`. The result is a query-parameter value;
/// the caller percent-encodes it.
pub fn client_profile_extra(can_direct_play_10bit: bool, can_direct_play_hdr: bool) -> (r: String)
    ensures
        r@ == joined(profile_directives(can_direct_play_10bit, can_direct_play_hdr), "+"@),
{
    let mut directives: Vec<String> = Vec::new();
    directives.push(direct_play("mp4", "h264,hevc"));
    directives.push(direct_play("matroska", "h264,hevc"));
    directives.push(direct_play("mpegts", "h264,hevc"));
    directives.push(direct_play("avi", "h264"));
    directives.push(transcode_target());
    directives.push(upper_bound("h264", "video.level", "52"));
    if can_direct_play_10bit {
        directives.push(upper_bound("hevc", "video.bitDepth", "10"));
        if !can_direct_play_hdr {
            directives.push(not_match_list("hevc", "video.colorTrc", "smpte2084,arib-std-b67"));
        }
    } else {
        directives.push(upper_bound("hevc", "video.bitDepth", "8"));
    }
    assert(strs_view(directives@) =~= profile_directives(can_direct_play_10bit, can_direct_play_hdr));
    join_strings(&directives, "+")
}

} // verus!
