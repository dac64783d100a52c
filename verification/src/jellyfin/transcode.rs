//! The Jellyfin playback decision: the `PlaybackInfo` request (URL and JSON
//! body) and the mapping of its answer to a playback decision.
//!
//! The server's answer is parsed by the application shell into
//! [`PlaybackInfoResponse`]; the request is sent there too.

use vstd::prelude::*;
use crate::identity::{hex_fixed, push_hex};
use crate::jellyfin::api::{playback_ids, split_playback_key, stream_url, stream_url_spec};
use crate::jellyfin::error::JellyfinTranscodeError;
use crate::jellyfin::models::{trunc_div, MediaStream, PlaybackInfoResponse, PlaybackMediaSource};
use crate::playback::{DecisionStream, PlaybackDecision, PlaybackDecisionKind, PlaybackRequest};
use crate::plex::transcode::tracks_view;
use crate::text::{
    char_code, chars_of, code_of, infix_of, int_digits, is_infix, nat_digits, opt_view, owned, push_char, push_int,
    push_nat, str_eq,
};

verus! {

// --- Request ----------------------------------------------------------------------

/// Whether a playback key names its media source (`{item}|{source}`).
pub open spec fn has_pipe(key: Seq<char>) -> bool {
    exists|i: int| 0 <= i < key.len() && key[i] == '|'
}

/// The media source a playback key asks for: the part after the first `|`,
/// or none for a bare item id (the server then picks its default).
pub open spec fn requested_source_spec(key: Seq<char>) -> Option<Seq<char>> {
    if has_pipe(key) {
        Some(split_playback_key(key).1)
    } else {
        None
    }
}

/// The media source a playback key asks for.
pub fn requested_source_id(part_key: &str) -> (r: Option<String>)
    ensures
        opt_view(r) == requested_source_spec(part_key@),
{
    let cs = chars_of(part_key);
    let mut i: usize = 0;
    while i < cs.len()
        invariant
            i <= cs@.len(),
            cs@ == part_key@,
            forall|j: int| 0 <= j < i ==> cs@[j] != '|',
        decreases cs.len() - i,
    {
        if cs[i] == '|' {
            let (_, src) = playback_ids(part_key);
            return Some(src);
        }
        i = i + 1;
    }
    None
}

/// The `PlaybackInfo` URL of an item.
pub fn playback_info_url(base: &str, item_id: &str, user_id: &str) -> (r: String)
    ensures
        r@ == base@ + "/Items/"@ + item_id@ + "/PlaybackInfo?userId="@ + user_id@,
{
    let mut s = owned(base);
    s.append("/Items/");
    s.append(item_id);
    s.append("/PlaybackInfo?userId=");
    s.append(user_id);
    s
}

/// One character inside a JSON string literal: quote and backslash are
/// escaped, control characters written as `\u00XX`.
pub open spec fn json_escape_char(c: char) -> Seq<char> {
    if c == '"' {
        seq!['\\', '"']
    } else if c == '\\' {
        seq!['\\', '\\']
    } else if char_code(c) < 0x20 {
        seq!['\\', 'u', '0', '0'] + hex_fixed(char_code(c) as nat, 2)
    } else {
        seq![c]
    }
}

/// The escaped characters of a JSON string literal.
pub open spec fn json_escaped(s: Seq<char>) -> Seq<char>
    decreases s.len(),
{
    if s.len() == 0 {
        Seq::empty()
    } else {
        json_escaped(s.drop_last()) + json_escape_char(s.last())
    }
}

/// A JSON string literal holding `s`.
pub open spec fn json_string_spec(s: Seq<char>) -> Seq<char> {
    seq!['"'] + json_escaped(s) + seq!['"']
}

/// Append `s` as a JSON string literal.
pub fn push_json_string(out: &mut String, s: &str)
    ensures
        final(out)@ == old(out)@ + json_string_spec(s@),
{
    let cs = chars_of(s);
    push_char(out, '"');
    let ghost start = out@;
    let mut i: usize = 0;
    while i < cs.len()
        invariant
            i <= cs@.len(),
            cs@ == s@,
            out@ == start + json_escaped(cs@.take(i as int)),
        decreases cs.len() - i,
    {
        let c = cs[i];
        proof {
            assert(cs@.take(i as int + 1).drop_last() =~= cs@.take(i as int));
        }
        let ghost before = out@;
        if c == '"' {
            push_char(out, '\\');
            push_char(out, '"');
            assert(out@ =~= before + json_escape_char(c));
        } else if c == '\\' {
            push_char(out, '\\');
            push_char(out, '\\');
            assert(out@ =~= before + json_escape_char(c));
        } else if code_of(c) < 0x20 {
            push_char(out, '\\');
            push_char(out, 'u');
            push_char(out, '0');
            push_char(out, '0');
            push_hex(out, code_of(c) as u64, 2);
            assert(out@ =~= before + json_escape_char(c));
        } else {
            push_char(out, c);
            assert(out@ =~= before + json_escape_char(c));
        }
        i = i + 1;
    }
    assert(cs@.take(cs.len() as int) =~= cs@);
    push_char(out, '"');
    assert(out@ =~= old(out)@ + json_string_spec(s@));
}

/// `true` or `false`.
pub open spec fn bool_text(b: bool) -> Seq<char> {
    if b {
        "true"@
    } else {
        "false"@
    }
}

/// `x` clamped into the range of `i64`.
pub open spec fn sat_i64(x: int) -> int {
    if x > i64::MAX {
        i64::MAX as int
    } else if x < i64::MIN {
        i64::MIN as int
    } else {
        x
    }
}

/// The fixed part of the `PlaybackInfo` request body: the user, the start
/// position in ticks, which delivery modes are allowed (direct play and direct
/// stream unless a transcode is forced), and the device profile.
pub open spec fn body_head_spec(user_id: Seq<char>, req: PlaybackRequest, profile: Seq<char>) -> Seq<char> {
    "{\"UserId\":"@ + json_string_spec(user_id) + ",\"StartTimeTicks\":"@ + int_digits(
        sat_i64(req.offset_ms * 10_000),
    ) + ",\"EnableDirectPlay\":"@ + bool_text(!req.force_transcode) + ",\"EnableDirectStream\":"@
        + bool_text(!req.force_transcode) + ",\"EnableTranscoding\":true,\"DeviceProfile\":"@
        + profile
}

/// The optional fields of the body: the bitrate cap, the media source and
/// the track choices, each only when set.
pub open spec fn body_options_spec(
    max_bps: Option<u64>,
    source_id: Option<Seq<char>>,
    audio: Option<i64>,
    subtitle: Option<i64>,
) -> Seq<char> {
    (match max_bps {
        Some(b) => ",\"MaxStreamingBitrate\":"@ + nat_digits(b as nat),
        None => Seq::empty(),
    }) + match source_id {
        Some(w) => ",\"MediaSourceId\":"@ + json_string_spec(w),
        None => Seq::empty(),
    } + match audio {
        Some(i) => ",\"AudioStreamIndex\":"@ + int_digits(i as int),
        None => Seq::empty(),
    } + match subtitle {
        Some(i) => ",\"SubtitleStreamIndex\":"@ + int_digits(i as int),
        None => Seq::empty(),
    }
}

/// The `PlaybackInfo` request body as JSON text.
pub open spec fn playback_info_body_spec(
    user_id: Seq<char>,
    req: PlaybackRequest,
    source_id: Option<Seq<char>>,
    profile: Seq<char>,
    max_bps: Option<u64>,
) -> Seq<char> {
    body_head_spec(user_id, req, profile) + body_options_spec(
        max_bps,
        source_id,
        req.audio_stream_id,
        req.subtitle_stream_id,
    ) + "}"@
}

/// The start position in ticks, saturating at the range of `i64`.
fn start_ticks(offset_ms: i64) -> (r: i64)
    ensures
        r == sat_i64(offset_ms * 10_000),
{
    let t: i128 = offset_ms as i128 * 10_000;
    if t > i64::MAX as i128 {
        i64::MAX
    } else if t < i64::MIN as i128 {
        i64::MIN
    } else {
        t as i64
    }
}

fn body_head(user_id: &str, req: &PlaybackRequest, profile: &str) -> (r: String)
    ensures
        r@ == body_head_spec(user_id@, *req, profile@),
{
    let mut s = owned("{\"UserId\":");
    push_json_string(&mut s, user_id);
    s.append(",\"StartTimeTicks\":");
    push_int(&mut s, start_ticks(req.offset_ms));
    s.append(",\"EnableDirectPlay\":");
    s.append(if req.force_transcode { "false" } else { "true" });
    s.append(",\"EnableDirectStream\":");
    s.append(if req.force_transcode { "false" } else { "true" });
    s.append(",\"EnableTranscoding\":true,\"DeviceProfile\":");
    s.append(profile);
    assert(s@ =~= body_head_spec(user_id@, *req, profile@));
    s
}

fn bitrate_part(max_bps: Option<u64>) -> (r: String)
    ensures
        r@ == match max_bps {
            Some(b) => ",\"MaxStreamingBitrate\":"@ + nat_digits(b as nat),
            None => Seq::empty(),
        },
{
    let mut s = String::new();
    match max_bps {
        Some(b) => {
            s.append(",\"MaxStreamingBitrate\":");
            push_nat(&mut s, b);
        },
        None => {},
    }
    s
}

fn source_part(source_id: Option<&str>) -> (r: String)
    ensures
        r@ == match source_id {
            Some(w) => ",\"MediaSourceId\":"@ + json_string_spec(w@),
            None => Seq::empty(),
        },
{
    let mut s = String::new();
    match source_id {
        Some(w) => {
            s.append(",\"MediaSourceId\":");
            push_json_string(&mut s, w);
        },
        None => {},
    }
    s
}

fn index_part(name: &str, v: Option<i64>) -> (r: String)
    ensures
        r@ == match v {
            Some(i) => name@ + int_digits(i as int),
            None => Seq::empty(),
        },
{
    let mut s = String::new();
    match v {
        Some(i) => {
            s.append(name);
            push_int(&mut s, i);
        },
        None => {},
    }
    s
}

fn push_body_options(
    s: &mut String,
    max_bps: Option<u64>,
    source_id: Option<&str>,
    audio: Option<i64>,
    subtitle: Option<i64>,
)
    ensures
        final(s)@ == old(s)@ + body_options_spec(
            max_bps,
            match source_id {
                Some(w) => Some(w@),
                None => None,
            },
            audio,
            subtitle,
        ),
{
    let a = bitrate_part(max_bps);
    let b = source_part(source_id);
    let c = index_part(",\"AudioStreamIndex\":", audio);
    let d = index_part(",\"SubtitleStreamIndex\":", subtitle);
    s.append(a.as_str());
    s.append(b.as_str());
    s.append(c.as_str());
    s.append(d.as_str());
    assert(s@ =~= old(s)@ + (a@ + b@ + c@ + d@));
}

/// Build the `PlaybackInfo` request body around a device profile (JSON text).
pub fn playback_info_body(
    user_id: &str,
    req: &PlaybackRequest,
    source_id: Option<&str>,
    profile: &str,
    max_bps: Option<u64>,
) -> (r: String)
    ensures
        r@ == playback_info_body_spec(
            user_id@,
            *req,
            match source_id {
                Some(w) => Some(w@),
                None => None,
            },
            profile@,
            max_bps,
        ),
{
    let mut s = body_head(user_id, req, profile);
    push_body_options(&mut s, max_bps, source_id, req.audio_stream_id, req.subtitle_stream_id);
    s.append("}");
    s
}

proof fn lemma_infix_middle(a: Seq<char>, n: Seq<char>, c: Seq<char>)
    ensures
        is_infix(n, a + n + c),
{
    let h = a + n + c;
    assert(h.subrange(a.len() as int, a.len() + n.len() as int) =~= n);
}

/// A `PlaybackInfo` body allows direct play and direct stream exactly as the
/// request asks: both `true` unless a transcode is forced, both `false` when
/// one is, and it always allows transcoding.
pub proof fn lemma_body_delivery_modes(
    user_id: Seq<char>,
    req: PlaybackRequest,
    source_id: Option<Seq<char>>,
    profile: Seq<char>,
    max_bps: Option<u64>,
)
    ensures
        !req.force_transcode ==> is_infix(
            "\"EnableDirectPlay\":true"@,
            playback_info_body_spec(user_id, req, source_id, profile, max_bps),
        ) && is_infix(
            "\"EnableDirectStream\":true"@,
            playback_info_body_spec(user_id, req, source_id, profile, max_bps),
        ),
        req.force_transcode ==> is_infix(
            "\"EnableDirectPlay\":false"@,
            playback_info_body_spec(user_id, req, source_id, profile, max_bps),
        ) && is_infix(
            "\"EnableDirectStream\":false"@,
            playback_info_body_spec(user_id, req, source_id, profile, max_bps),
        ),
        is_infix(
            "\"EnableTranscoding\":true"@,
            playback_info_body_spec(user_id, req, source_id, profile, max_bps),
        ),
{
    reveal_strlit("{\"UserId\":");
    reveal_strlit(",\"StartTimeTicks\":");
    reveal_strlit(",\"EnableDirectPlay\":");
    reveal_strlit(",\"EnableDirectStream\":");
    reveal_strlit(",\"EnableTranscoding\":true,\"DeviceProfile\":");
    reveal_strlit("\"EnableDirectPlay\":true");
    reveal_strlit("\"EnableDirectPlay\":false");
    reveal_strlit("\"EnableDirectStream\":true");
    reveal_strlit("\"EnableDirectStream\":false");
    reveal_strlit("\"EnableTranscoding\":true");
    reveal_strlit("true");
    reveal_strlit("false");
    reveal_strlit(",");
    reveal_strlit(",\"DeviceProfile\":");
    let v = !req.force_transcode;
    let b = playback_info_body_spec(user_id, req, source_id, profile, max_bps);
    let p0 = "{\"UserId\":"@ + json_string_spec(user_id) + ",\"StartTimeTicks\":"@ + int_digits(
        sat_i64(req.offset_ms * 10_000),
    );
    let tail = body_options_spec(max_bps, source_id, req.audio_stream_id, req.subtitle_stream_id)
        + "}"@;
    let dp = ",\"EnableDirectPlay\":"@ + bool_text(v);
    let ds = ",\"EnableDirectStream\":"@ + bool_text(v);
    let tr = ",\"EnableTranscoding\":true,\"DeviceProfile\":"@;
    assert(b =~= p0 + dp + ds + tr + profile + tail);
    let ndp = if v {
        "\"EnableDirectPlay\":true"@
    } else {
        "\"EnableDirectPlay\":false"@
    };
    let nds = if v {
        "\"EnableDirectStream\":true"@
    } else {
        "\"EnableDirectStream\":false"@
    };
    let ntr = "\"EnableTranscoding\":true"@;
    assert(dp =~= ","@ + ndp);
    assert(ds =~= ","@ + nds);
    assert(tr =~= ","@ + ntr + ",\"DeviceProfile\":"@);
    assert(b =~= (p0 + ","@) + ndp + (ds + tr + profile + tail));
    lemma_infix_middle(p0 + ","@, ndp, ds + tr + profile + tail);
    assert(b =~= (p0 + dp + ","@) + nds + (tr + profile + tail));
    lemma_infix_middle(p0 + dp + ","@, nds, tr + profile + tail);
    assert(b =~= (p0 + dp + ds + ","@) + ntr + (",\"DeviceProfile\":"@ + profile + tail));
    lemma_infix_middle(p0 + dp + ds + ","@, ntr, ",\"DeviceProfile\":"@ + profile + tail);
}

/// A `PlaybackInfo` body opens with the user's id as a JSON string and
/// carries the start position in ticks: ten thousand per millisecond of the
/// request's offset.
pub proof fn lemma_body_user_and_start(
    user_id: Seq<char>,
    req: PlaybackRequest,
    source_id: Option<Seq<char>>,
    profile: Seq<char>,
    max_bps: Option<u64>,
)
    ensures
        i64::MIN <= req.offset_ms * 10_000 <= i64::MAX ==> is_infix(
            "\"StartTimeTicks\":"@ + int_digits(req.offset_ms * 10_000),
            playback_info_body_spec(user_id, req, source_id, profile, max_bps),
        ),
        "{\"UserId\":"@ + json_string_spec(user_id) == playback_info_body_spec(
            user_id,
            req,
            source_id,
            profile,
            max_bps,
        ).take(("{\"UserId\":"@ + json_string_spec(user_id)).len() as int),
{
    reveal_strlit(",");
    reveal_strlit("{\"UserId\":");
    reveal_strlit(",\"StartTimeTicks\":");
    let b = playback_info_body_spec(user_id, req, source_id, profile, max_bps);
    let tail = body_options_spec(max_bps, source_id, req.audio_stream_id, req.subtitle_stream_id)
        + "}"@;
    let v = !req.force_transcode;
    let dp = ",\"EnableDirectPlay\":"@ + bool_text(v);
    let ds = ",\"EnableDirectStream\":"@ + bool_text(v);
    let tr = ",\"EnableTranscoding\":true,\"DeviceProfile\":"@;
    reveal_strlit("\"StartTimeTicks\":");
    let u = "{\"UserId\":"@ + json_string_spec(user_id);
    let ticks = "\"StartTimeTicks\":"@ + int_digits(sat_i64(req.offset_ms * 10_000));
    assert(",\"StartTimeTicks\":"@ =~= ","@ + "\"StartTimeTicks\":"@);
    assert(b =~= (u + ","@) + ticks + (dp + ds + tr + profile + tail));
    lemma_infix_middle(u + ","@, ticks, dp + ds + tr + profile + tail);
    assert(b.take(u.len() as int) =~= u);
}

/// The answer status of a `PlaybackInfo` request: a success passes, anything
/// else is a server error with the status.
pub fn decision_status(status: u16) -> (r: Result<(), JellyfinTranscodeError>)
    ensures
        (200 <= status < 300) <==> r is Ok,
        r is Err ==> r == Err::<(), JellyfinTranscodeError>(JellyfinTranscodeError::Server { status }),
{
    if 200 <= status && status < 300 {
        Ok(())
    } else {
        Err(JellyfinTranscodeError::Server { status })
    }
}

// --- Answer -----------------------------------------------------------------------

/// The source a decision uses: the one with the requested id, else the
/// first.
pub open spec fn chosen_source(sources: Seq<PlaybackMediaSource>, want: Option<Seq<char>>) -> Option<PlaybackMediaSource> {
    let matching = match want {
        Some(w) => exists|i: int| 0 <= i < sources.len() && opt_view(sources[i].id) == Some(w),
        None => false,
    };
    if matching {
        let i = choose|i: int|
            0 <= i < sources.len() && opt_view(sources[i].id) == Some(want->0) && forall|j: int|
                0 <= j < i ==> opt_view(sources[j].id) != Some(want->0);
        Some(sources[i])
    } else if sources.len() > 0 {
        Some(sources[0])
    } else {
        None
    }
}

/// How a source is delivered: direct play if it can, else direct stream,
/// else a transcode when the server offers a transcoding URL.
pub open spec fn decided_kind(s: PlaybackMediaSource) -> Option<PlaybackDecisionKind> {
    if s.supports_direct_play {
        Some(PlaybackDecisionKind::DirectPlay)
    } else if s.supports_direct_stream {
        Some(PlaybackDecisionKind::DirectStream)
    } else if s.supports_transcoding && s.transcoding_url is Some {
        Some(PlaybackDecisionKind::Transcode)
    } else {
        None
    }
}

/// Which media source a decision is about, over all answers: the first
/// source whose id is the one asked for, when some source has it; otherwise
/// the first source; none when the answer lists no source. A source is
/// delivered by direct play when it allows it, else by direct stream, else
/// by a transcode when one is offered with a URL, else not at all.
pub proof fn lemma_source_choice(
    sources: Seq<PlaybackMediaSource>,
    want: Option<Seq<char>>,
    j: int,
    src: PlaybackMediaSource,
)
    ensures
        want is Some && 0 <= j < sources.len() && opt_view(sources[j].id) == want && (forall|k: int|
            0 <= k < j ==> opt_view(#[trigger] sources[k].id) != want) ==> chosen_source(sources, want)
            == Some(sources[j]),
        (want is None || forall|k: int| 0 <= k < sources.len() ==> opt_view(#[trigger] sources[k].id) != want)
            && sources.len() > 0 ==> chosen_source(sources, want) == Some(sources[0]),
        sources.len() == 0 ==> chosen_source(sources, want) is None,
        src.supports_direct_play ==> decided_kind(src) == Some(PlaybackDecisionKind::DirectPlay),
        !src.supports_direct_play && src.supports_direct_stream ==> decided_kind(src) == Some(
            PlaybackDecisionKind::DirectStream,
        ),
        !src.supports_direct_play && !src.supports_direct_stream && src.supports_transcoding
            && src.transcoding_url is Some ==> decided_kind(src) == Some(PlaybackDecisionKind::Transcode),
        !src.supports_direct_play && !src.supports_direct_stream && !(src.supports_transcoding
            && src.transcoding_url is Some) ==> decided_kind(src) is None,
{
    if want is Some && 0 <= j < sources.len() && opt_view(sources[j].id) == want && (forall|k: int|
        0 <= k < j ==> opt_view(#[trigger] sources[k].id) != want) {
        let w = want->0;
        assert(exists|i: int| 0 <= i < sources.len() && opt_view(sources[i].id) == Some(w));
        let i = choose|i: int|
            0 <= i < sources.len() && opt_view(sources[i].id) == Some(w) && forall|m: int|
                0 <= m < i ==> opt_view(sources[m].id) != Some(w);
        assert(0 <= j < sources.len() && opt_view(sources[j].id) == Some(w) && forall|m: int|
            0 <= m < j ==> opt_view(sources[m].id) != Some(w));
        if i < j {
            assert(opt_view(sources[i].id) != want);
        } else if j < i {
            assert(opt_view(sources[j].id) != Some(w));
        }
    }
}

/// The height of the first video stream, when it has one.
pub open spec fn first_video_height(streams: Seq<MediaStream>) -> Option<i32>
    decreases streams.len(),
{
    if streams.len() == 0 {
        None
    } else if opt_view(streams[0].type_) == Some("Video"@) {
        streams[0].height
    } else {
        first_video_height(streams.skip(1))
    }
}

/// A non-empty optional text.
pub open spec fn non_empty(o: Option<String>) -> bool {
    o matches Some(t) && t@.len() > 0
}

/// The label of a stream: its display title, else its language, else its
/// codec (each only when non-empty), else `Track {index}`.
pub open spec fn stream_label_spec(s: MediaStream) -> Seq<char> {
    if non_empty(s.display_title) {
        s.display_title->0@
    } else if non_empty(s.language) {
        s.language->0@
    } else if non_empty(s.codec) {
        s.codec->0@
    } else {
        "Track "@ + int_digits(s.index as int)
    }
}

/// Whether a stream is the chosen one: the requested index when one was
/// asked for, else the source's default.
pub open spec fn is_selected(index: i64, requested: Option<i64>, default: Option<i32>) -> bool {
    match requested {
        Some(want) => want == index,
        None => match default {
            Some(d) => d as i64 == index,
            None => false,
        },
    }
}

/// The tracks of one type as `(index, label, selected)`, in order.
pub open spec fn tracks_of_type(
    streams: Seq<MediaStream>,
    ty: Seq<char>,
    requested: Option<i64>,
    default: Option<i32>,
) -> Seq<(i64, Seq<char>, bool)>
    decreases streams.len(),
{
    if streams.len() == 0 {
        Seq::empty()
    } else {
        let rest = tracks_of_type(streams.drop_last(), ty, requested, default);
        let s = streams.last();
        if opt_view(s.type_) == Some(ty) {
            rest.push((s.index as i64, stream_label_spec(s), is_selected(s.index as i64, requested, default)))
        } else {
            rest
        }
    }
}

/// The player URL of a server-relative transcoding URL: made absolute on the
/// server (only the leading-slash relative form is used, so the server
/// cannot redirect playback elsewhere), with `api_key` appended when the URL
/// carries no key, since segment fetches cannot send headers.
pub open spec fn absolute_url_spec(base: Seq<char>, token: Seq<char>, relative: Seq<char>) -> Seq<char> {
    let rel = if relative.len() > 0 && relative[0] == '/' {
        relative
    } else {
        "/"@ + relative
    };
    let url = base + rel;
    if !is_infix("api_key="@, url) && !is_infix("ApiKey="@, url) {
        url + (if is_infix("?"@, url) {
            "&"@
        } else {
            "?"@
        }) + "api_key="@ + token
    } else {
        url
    }
}

/// Resolve a transcoding URL against the server.
pub fn absolute_transcode_url(base: &str, token: &str, relative: &str) -> (r: String)
    ensures
        r@ == absolute_url_spec(base@, token@, relative@),
{
    let rel_chars = chars_of(relative);
    let mut url = owned(base);
    if rel_chars.len() > 0 && rel_chars[0] == '/' {
        url.append(relative);
    } else {
        url.append("/");
        url.append(relative);
    }
    let ghost rel_spec = if relative@.len() > 0 && relative@[0] == '/' {
        relative@
    } else {
        "/"@ + relative@
    };
    assert(url@ =~= base@ + rel_spec);
    let u = chars_of(url.as_str());
    let has_key = infix_of(&chars_of("api_key="), &u) || infix_of(&chars_of("ApiKey="), &u);
    if !has_key {
        if infix_of(&chars_of("?"), &u) {
            url.append("&");
        } else {
            url.append("?");
        }
        url.append("api_key=");
        url.append(token);
    }
    url
}

/// The label of a stream.
fn stream_label(s: &MediaStream) -> (r: String)
    ensures
        r@ == stream_label_spec(*s),
{
    match &s.display_title {
        Some(t) => {
            if t.as_str().unicode_len() > 0 {
                return t.clone();
            }
        },
        None => {},
    }
    match &s.language {
        Some(t) => {
            if t.as_str().unicode_len() > 0 {
                return t.clone();
            }
        },
        None => {},
    }
    match &s.codec {
        Some(t) => {
            if t.as_str().unicode_len() > 0 {
                return t.clone();
            }
        },
        None => {},
    }
    let mut r = owned("Track ");
    push_int(&mut r, s.index as i64);
    r
}

/// Whether an optional text equals `lit`.
fn type_is(t: &Option<String>, lit: &str) -> (r: bool)
    ensures
        r == (opt_view(*t) == Some(lit@)),
{
    match t {
        Some(s) => str_eq(s.as_str(), lit),
        None => false,
    }
}

/// The tracks of one type (`Audio`, `Subtitle`) offered by a source.
pub fn decision_streams(
    streams: &[MediaStream],
    ty: &str,
    requested: Option<i64>,
    default: Option<i32>,
) -> (r: Vec<DecisionStream>)
    ensures
        tracks_view(r@) == tracks_of_type(streams@, ty@, requested, default),
{
    let mut out: Vec<DecisionStream> = Vec::new();
    let mut i: usize = 0;
    while i < streams.len()
        invariant
            i <= streams.len(),
            tracks_view(out@) == tracks_of_type(streams@.take(i as int), ty@, requested, default),
        decreases streams.len() - i,
    {
        proof {
            assert(streams@.take(i as int + 1).drop_last() =~= streams@.take(i as int));
        }
        let s = &streams[i];
        if type_is(&s.type_, ty) {
            let id = s.index as i64;
            let selected = match requested {
                Some(want) => want == id,
                None => match default {
                    Some(d) => d as i64 == id,
                    None => false,
                },
            };
            let ghost before = out@;
            out.push(DecisionStream { id, label: stream_label(s), selected });
            assert(tracks_view(out@) =~= tracks_view(before).push(
                (id, stream_label_spec(*s), selected),
            ));
        }
        i = i + 1;
    }
    assert(streams@.take(streams.len() as int) =~= streams@);
    out
}

/// The height of the first video stream, when it has one.
fn video_height(streams: &[MediaStream]) -> (r: Option<i32>)
    ensures
        r == first_video_height(streams@),
{
    let mut i: usize = 0;
    assert(streams@.skip(0) =~= streams@);
    while i < streams.len()
        invariant
            i <= streams.len(),
            first_video_height(streams@) == first_video_height(streams@.skip(i as int)),
        decreases streams.len() - i,
    {
        assert(streams@.skip(i as int).skip(1) =~= streams@.skip(i as int + 1));
        if type_is(&streams[i].type_, "Video") {
            return streams[i].height;
        }
        i = i + 1;
    }
    None
}

/// The index of the source a decision uses.
fn choose_source(sources: &[PlaybackMediaSource], want: Option<&str>) -> (r: Option<usize>)
    ensures
        match r {
            Some(i) => i < sources@.len() && chosen_source(
                sources@,
                match want {
                    Some(w) => Some(w@),
                    None => None,
                },
            ) == Some(sources@[i as int]),
            None => chosen_source(
                sources@,
                match want {
                    Some(w) => Some(w@),
                    None => None,
                },
            ) is None,
        },
{
    match want {
        Some(w) => {
            let mut i: usize = 0;
            while i < sources.len()
                invariant
                    i <= sources.len(),
                    want == Some(w),
                    forall|j: int| 0 <= j < i ==> opt_view(sources@[j].id) != Some(w@),
                decreases sources.len() - i,
            {
                if type_is(&sources[i].id, w) {
                    proof {
                        assert(opt_view(sources@[i as int].id) == Some(w@) && forall|j: int|
                            0 <= j < i ==> opt_view(sources@[j].id) != Some(w@));
                        let k = choose|k: int|
                            0 <= k < sources@.len() && opt_view(sources@[k].id) == Some(w@)
                                && forall|j: int| 0 <= j < k ==> opt_view(sources@[j].id) != Some(w@);
                        assert(k == i);
                        assert(chosen_source(sources@, Some(w@)) == Some(sources@[i as int]));
                    }
                    return Some(i);
                }
                i = i + 1;
            }
        },
        None => {},
    }
    if sources.len() > 0 {
        Some(0)
    } else {
        None
    }
}

/// What a `PlaybackInfo` answer decides, for the source it picks.
pub open spec fn decision_spec(
    base: Seq<char>,
    token: Seq<char>,
    req: PlaybackRequest,
    src: PlaybackMediaSource,
    session: Option<Seq<char>>,
    kind: PlaybackDecisionKind,
    d: PlaybackDecision,
) -> bool {
    &&& d.kind == kind
    &&& d.url@ == (if kind == PlaybackDecisionKind::DirectPlay {
        stream_url_spec(
            base,
            req.rating_key@,
            match src.id {
                Some(i) => i@,
                None => Seq::empty(),
            },
            token,
        )
    } else {
        absolute_url_spec(base, token, src.transcoding_url->0@)
    })
    &&& opt_view(d.session) == (if kind == PlaybackDecisionKind::DirectPlay {
        None
    } else {
        session
    })
    &&& opt_view(d.video_resolution) == match first_video_height(src.media_streams@) {
        Some(h) => Some(int_digits(h as int)),
        None => None,
    }
    &&& d.video_bitrate_kbps == match src.bitrate {
        Some(b) => Some(trunc_div(b as int, 1000) as i64),
        None => None,
    }
    &&& !d.throttled
    &&& tracks_view(d.audio_streams@) == tracks_of_type(
        src.media_streams@,
        "Audio"@,
        req.audio_stream_id,
        src.default_audio_stream_index,
    )
    &&& tracks_view(d.subtitle_streams@) == tracks_of_type(
        src.media_streams@,
        "Subtitle"@,
        req.subtitle_stream_id,
        src.default_subtitle_stream_index,
    )
}

/// Map a `PlaybackInfo` answer to a playback decision: pick the requested
/// source (else the first), decide how it is delivered, and build the URL;
/// an answer with no source, or none the client can use, is `NoDecision`.
pub fn decision_from_response(
    base: &str,
    token: &str,
    req: &PlaybackRequest,
    source_id: Option<&str>,
    info: &PlaybackInfoResponse,
) -> (r: Result<PlaybackDecision, JellyfinTranscodeError>)
    ensures
        match chosen_source(
            info.media_sources@,
            match source_id {
                Some(w) => Some(w@),
                None => None,
            },
        ) {
            None => r == Err::<PlaybackDecision, JellyfinTranscodeError>(
                JellyfinTranscodeError::NoDecision,
            ),
            Some(src) => match decided_kind(src) {
                None => r == Err::<PlaybackDecision, JellyfinTranscodeError>(
                    JellyfinTranscodeError::NoDecision,
                ),
                Some(kind) => if kind != PlaybackDecisionKind::DirectPlay
                    && src.transcoding_url is None {
                    r == Err::<PlaybackDecision, JellyfinTranscodeError>(
                        JellyfinTranscodeError::NoDecision,
                    )
                } else {
                    r matches Ok(d) && decision_spec(
                        base@,
                        token@,
                        *req,
                        src,
                        opt_view(info.play_session_id),
                        kind,
                        d,
                    )
                },
            },
        },
{
    let idx = match choose_source(info.media_sources.as_slice(), source_id) {
        Some(i) => i,
        None => return Err(JellyfinTranscodeError::NoDecision),
    };
    let src = &info.media_sources[idx];
    let kind = if src.supports_direct_play {
        PlaybackDecisionKind::DirectPlay
    } else if src.supports_direct_stream {
        PlaybackDecisionKind::DirectStream
    } else if src.supports_transcoding && src.transcoding_url.is_some() {
        PlaybackDecisionKind::Transcode
    } else {
        return Err(JellyfinTranscodeError::NoDecision);
    };
    let (url, session) = match kind {
        PlaybackDecisionKind::DirectPlay => {
            let source_id_text = match &src.id {
                Some(i) => i.clone(),
                None => String::new(),
            };
            (stream_url(base, req.rating_key.as_str(), source_id_text.as_str(), token), None)
        },
        _ => {
            let rel = match &src.transcoding_url {
                Some(t) => t,
                None => return Err(JellyfinTranscodeError::NoDecision),
            };
            let session = match &info.play_session_id {
                Some(p) => Some(p.clone()),
                None => None,
            };
            (absolute_transcode_url(base, token, rel.as_str()), session)
        },
    };
    let video_resolution = match video_height(src.media_streams.as_slice()) {
        Some(h) => {
            let mut t = String::new();
            push_int(&mut t, h as i64);
            Some(t)
        },
        None => None,
    };
    let video_bitrate_kbps = match src.bitrate {
        Some(b) => Some(b / 1000),
        None => None,
    };
    let audio_streams = decision_streams(
        src.media_streams.as_slice(),
        "Audio",
        req.audio_stream_id,
        src.default_audio_stream_index,
    );
    let subtitle_streams = decision_streams(
        src.media_streams.as_slice(),
        "Subtitle",
        req.subtitle_stream_id,
        src.default_subtitle_stream_index,
    );
    Ok(
        PlaybackDecision {
            kind,
            url,
            session,
            video_resolution,
            video_bitrate_kbps,
            throttled: false,
            audio_streams,
            subtitle_streams,
        },
    )
}

} // verus!
