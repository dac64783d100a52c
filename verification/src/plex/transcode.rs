//! The Plex universal-transcoder flow: the `start.m3u8` / `decision` query,
//! mapping a decision answer to a playback decision, and the track lists a
//! decision offers.
//!
//! Query rules encoded here: the client identifier and `hasMDE` never go in
//! the query, the token always does (segment fetches cannot send headers), and
//! `X-Plex-Platform` is `Generic`.

use vstd::prelude::*;
use crate::playback::{
    effective_preset, effective_preset_spec, preset_bitrate, preset_resolution, DecisionStream,
    PlaybackDecision, PlaybackDecisionKind, PlaybackRequest, QualityPreset,
};
use crate::plex::models::{PlexDecisionContainer, PlexDecisionResponse, PlexMedia, PlexPart, PlexStream};
use crate::plex::transcode_profile::{client_profile_extra, profile_directives};
use crate::text::{clone_opt, int_digits, joined, nat_digits, opt_view, owned, push_int, push_nat, str_eq};

verus! {

/// Transcode decision and lifecycle errors.
#[derive(Debug, Clone, PartialEq)]
pub enum TranscodeError {
    Timeout,
    Request(String),
    Server { status: u16 },
    Parse(String),
    NoDecision,
    Url,
}

// --- Tracks ---------------------------------------------------------------------

/// The label of a track: its extended display title, else its display title,
/// language or codec, else `Track {id}`.
pub open spec fn stream_label_spec(s: PlexStream, id: i64) -> Seq<char> {
    match s.extended_display_title {
        Some(t) => t@,
        None => match s.display_title {
            Some(t) => t@,
            None => match s.language {
                Some(t) => t@,
                None => match s.codec {
                    Some(t) => t@,
                    None => "Track "@ + int_digits(id as int),
                },
            },
        },
    }
}

/// Tracks as `(id, label, selected)`.
pub open spec fn tracks_view(v: Seq<DecisionStream>) -> Seq<(i64, Seq<char>, bool)> {
    v.map_values(|d: DecisionStream| (d.id, d.label@, d.selected))
}

/// The offered tracks of one type (2 audio, 3 subtitle), in order: streams of
/// that type that carry an id (others cannot be requested again).
pub open spec fn tracks_of(streams: Seq<PlexStream>, stream_type: i32) -> Seq<(i64, Seq<char>, bool)>
    decreases streams.len(),
{
    if streams.len() == 0 {
        Seq::empty()
    } else {
        let rest = tracks_of(streams.drop_last(), stream_type);
        let s = streams.last();
        if s.stream_type == Some(stream_type) && s.id is Some {
            rest.push(
                (
                    s.id.unwrap(),
                    stream_label_spec(s, s.id.unwrap()),
                    match s.selected {
                        Some(b) => b,
                        None => false,
                    },
                ),
            )
        } else {
            rest
        }
    }
}

/// The label of a track.
fn stream_label(s: &PlexStream, id: i64) -> (r: String)
    ensures
        r@ == stream_label_spec(*s, id),
{
    match &s.extended_display_title {
        Some(t) => t.clone(),
        None => match &s.display_title {
            Some(t) => t.clone(),
            None => match &s.language {
                Some(t) => t.clone(),
                None => match &s.codec {
                    Some(t) => t.clone(),
                    None => {
                        let mut r = String::new();
                        r.append("Track ");
                        push_int(&mut r, id);
                        r
                    },
                },
            },
        },
    }
}

/// Build the track list of one type (2 audio, 3 subtitle) from a decision's
/// annotated source streams; streams without an id are skipped.
pub fn decision_streams(streams: &[PlexStream], stream_type: i32) -> (r: Vec<DecisionStream>)
    ensures
        tracks_view(r@) == tracks_of(streams@, stream_type),
{
    let mut out: Vec<DecisionStream> = Vec::new();
    let mut i: usize = 0;
    while i < streams.len()
        invariant
            i <= streams@.len(),
            tracks_view(out@) == tracks_of(streams@.subrange(0, i as int), stream_type),
        decreases streams.len() - i,
    {
        let ghost pre = streams@.subrange(0, i as int);
        let ghost nxt = streams@.subrange(0, i + 1);
        assert(nxt.drop_last() =~= pre);
        let s = &streams[i];
        if s.stream_type == Some(stream_type) {
            match s.id {
                Some(id) => {
                    let label = stream_label(s, id);
                    let selected = match s.selected {
                        Some(b) => b,
                        None => false,
                    };
                    out.push(DecisionStream { id, label, selected });
                    assert(tracks_view(out@) =~= tracks_of(pre, stream_type).push(
                        (id, stream_label_spec(*s, id), selected),
                    ));
                },
                None => {},
            }
        }
        i = i + 1;
    }
    assert(streams@.subrange(0, i as int) =~= streams@);
    out
}

// --- The start / decision query ---------------------------------------------------------

/// The start offset sent to the transcoder, in whole seconds: offsets of at
/// most 12 seconds start from zero, larger ones are rounded to the nearest
/// second.
pub open spec fn clamped_offset(offset_ms: int) -> int {
    if offset_ms <= 12_000 {
        0
    } else {
        (offset_ms + 500) / 1000
    }
}

/// The offset parameter for a start offset in milliseconds.
pub fn clamp_offset(offset_ms: i64) -> (r: i64)
    ensures
        r == clamped_offset(offset_ms as int),
{
    if offset_ms <= 12_000 {
        0
    } else {
        let q: i128 = (offset_ms as i128 + 500) / 1000;
        q as i64
    }
}

/// Query pairs as character sequences.
pub open spec fn pairs_view(v: Seq<(String, String)>) -> Seq<(Seq<char>, Seq<char>)> {
    v.map_values(|p: (String, String)| (p.0@, p.1@))
}

/// The quality-cap parameters for a preset.
pub open spec fn quality_params(p: Option<QualityPreset>) -> Seq<(Seq<char>, Seq<char>)> {
    match p {
        None => Seq::empty(),
        Some(q) => seq![("videoQuality"@, nat_digits(100))] + (match preset_bitrate(q) {
            Some(b) => seq![("maxVideoBitrate"@, nat_digits(b as nat))],
            None => Seq::empty(),
        }) + (match preset_resolution(q) {
            Some(r) => seq![("videoResolution"@, r)],
            None => Seq::empty(),
        }),
    }
}

/// The ordered `start.m3u8` (and `decision`) query of a request.
pub open spec fn transcode_query(req: PlaybackRequest, session: Seq<char>, is_remote: bool, token: Seq<char>) -> Seq<(Seq<char>, Seq<char>)> {
    seq![
        ("path"@, "/library/metadata/"@ + req.rating_key@),
        ("mediaIndex"@, nat_digits(req.media_index as nat)),
        ("partIndex"@, nat_digits(req.part_index as nat)),
        ("protocol"@, "hls"@),
        ("fastSeek"@, "1"@),
        ("copyts"@, "1"@),
        ("offset"@, int_digits(clamped_offset(req.offset_ms as int))),
        ("session"@, session),
    ] + (if req.force_transcode {
        seq![("directPlay"@, "0"@), ("directStream"@, "0"@)]
    } else {
        seq![("directPlay"@, "1"@), ("directStream"@, "1"@)]
    }) + quality_params(effective_preset_spec(req.quality, is_remote)) + (match req.audio_stream_id {
        Some(a) => seq![("audioStreamID"@, int_digits(a as int))],
        None => Seq::empty(),
    }) + (match req.subtitle_stream_id {
        Some(s) => seq![("subtitleStreamID"@, int_digits(s as int)), ("subtitles"@, "auto"@)],
        None => Seq::empty(),
    }) + (if !is_remote {
        seq![("location"@, "lan"@)]
    } else {
        Seq::empty()
    }) + seq![
        ("X-Plex-Platform"@, "Generic"@),
        (
            "X-Plex-Client-Profile-Extra"@,
            joined(profile_directives(req.can_direct_play_10bit, req.can_direct_play_hdr), "+"@),
        ),
        ("X-Plex-Token"@, token),
    ]
}

proof fn lemma_contains_concat(a: Seq<(Seq<char>, Seq<char>)>, b: Seq<(Seq<char>, Seq<char>)>, x: (Seq<char>, Seq<char>))
    ensures
        a.contains(x) ==> (a + b).contains(x),
        b.contains(x) ==> (a + b).contains(x),
{
    if a.contains(x) {
        let i = choose|i: int| 0 <= i < a.len() && a[i] == x;
        assert((a + b)[i] == x);
    }
    if b.contains(x) {
        let i = choose|i: int| 0 <= i < b.len() && b[i] == x;
        assert((a + b)[a.len() + i] == x);
    }
}

/// What a transcode request asks of the server, over all requests: it names
/// the item's metadata path and the session; it allows direct play and
/// direct stream (`1`) unless a transcode is forced (`0`); it starts at
/// offset zero up to twelve seconds and at the offset rounded to whole
/// seconds beyond; it says `location=lan` on a local connection; it passes
/// the chosen audio track; and it carries the token.
pub proof fn lemma_transcode_query_asks(req: PlaybackRequest, session: Seq<char>, is_remote: bool, token: Seq<char>)
    ensures
        transcode_query(req, session, is_remote, token).contains(("path"@, "/library/metadata/"@ + req.rating_key@)),
        transcode_query(req, session, is_remote, token).contains(("session"@, session)),
        transcode_query(req, session, is_remote, token).contains(
            ("directPlay"@, if req.force_transcode { "0"@ } else { "1"@ }),
        ),
        transcode_query(req, session, is_remote, token).contains(
            ("directStream"@, if req.force_transcode { "0"@ } else { "1"@ }),
        ),
        req.offset_ms <= 12_000 ==> transcode_query(req, session, is_remote, token).contains(
            ("offset"@, int_digits(0)),
        ),
        req.offset_ms > 12_000 ==> transcode_query(req, session, is_remote, token).contains(
            ("offset"@, int_digits((req.offset_ms + 500) / 1000)),
        ),
        !is_remote ==> transcode_query(req, session, is_remote, token).contains(("location"@, "lan"@)),
        req.audio_stream_id is Some ==> transcode_query(req, session, is_remote, token).contains(
            ("audioStreamID"@, int_digits(req.audio_stream_id->0 as int)),
        ),
        transcode_query(req, session, is_remote, token).contains(("X-Plex-Token"@, token)),
{
    let h = seq![
        ("path"@, "/library/metadata/"@ + req.rating_key@),
        ("mediaIndex"@, nat_digits(req.media_index as nat)),
        ("partIndex"@, nat_digits(req.part_index as nat)),
        ("protocol"@, "hls"@),
        ("fastSeek"@, "1"@),
        ("copyts"@, "1"@),
        ("offset"@, int_digits(clamped_offset(req.offset_ms as int))),
        ("session"@, session),
    ];
    let d = if req.force_transcode {
        seq![("directPlay"@, "0"@), ("directStream"@, "0"@)]
    } else {
        seq![("directPlay"@, "1"@), ("directStream"@, "1"@)]
    };
    let qp = quality_params(effective_preset_spec(req.quality, is_remote));
    let au = match req.audio_stream_id {
        Some(a) => seq![("audioStreamID"@, int_digits(a as int))],
        None => Seq::empty(),
    };
    let su = match req.subtitle_stream_id {
        Some(s) => seq![("subtitleStreamID"@, int_digits(s as int)), ("subtitles"@, "auto"@)],
        None => Seq::empty(),
    };
    let lo = if !is_remote {
        seq![("location"@, "lan"@)]
    } else {
        Seq::empty()
    };
    let t = seq![
        ("X-Plex-Platform"@, "Generic"@),
        (
            "X-Plex-Client-Profile-Extra"@,
            joined(profile_directives(req.can_direct_play_10bit, req.can_direct_play_hdr), "+"@),
        ),
        ("X-Plex-Token"@, token),
    ];
    let q = transcode_query(req, session, is_remote, token);
    assert(q == h + d + qp + au + su + lo + t);
    assert(h[0] == ("path"@, "/library/metadata/"@ + req.rating_key@));
    assert(h[7] == ("session"@, session));
    assert(h[6] == ("offset"@, int_digits(clamped_offset(req.offset_ms as int))));
    assert(d[0] == ("directPlay"@, if req.force_transcode { "0"@ } else { "1"@ }));
    assert(d[1] == ("directStream"@, if req.force_transcode { "0"@ } else { "1"@ }));
    assert(t[2] == ("X-Plex-Token"@, token));
    let all = seq![h, d, qp, au, su, lo, t];
    let x1 = ("path"@, "/library/metadata/"@ + req.rating_key@);
    let x2 = ("session"@, session);
    let x3 = ("directPlay"@, if req.force_transcode { "0"@ } else { "1"@ });
    let x4 = ("directStream"@, if req.force_transcode { "0"@ } else { "1"@ });
    let x5 = ("offset"@, int_digits(clamped_offset(req.offset_ms as int)));
    let x6 = ("location"@, "lan"@);
    let x8 = ("X-Plex-Token"@, token);
    assert(h.contains(x1) && h.contains(x2) && h.contains(x5));
    assert(d.contains(x3) && d.contains(x4));
    assert(t.contains(x8));
    if !is_remote {
        assert(lo[0] == x6);
        assert(lo.contains(x6));
    }
    if let Some(a) = req.audio_stream_id {
        assert(au[0] == ("audioStreamID"@, int_digits(a as int)));
        assert(au.contains(("audioStreamID"@, int_digits(a as int))));
    }
    let xa = ("audioStreamID"@, int_digits(req.audio_stream_id->0 as int));
    let ps = seq![x1, x2, x3, x4, x5, x6, x8, xa];
    assert forall|k: int| 0 <= k < ps.len() implies ((h.contains(#[trigger] ps[k]) || d.contains(ps[k])
        || au.contains(ps[k]) || lo.contains(ps[k]) || t.contains(ps[k])) ==> q.contains(ps[k])) by {
        let x = ps[k];
        lemma_contains_concat(h, d, x);
        lemma_contains_concat(h + d, qp, x);
        lemma_contains_concat(h + d + qp, au, x);
        lemma_contains_concat(h + d + qp + au, su, x);
        lemma_contains_concat(h + d + qp + au + su, lo, x);
        lemma_contains_concat(h + d + qp + au + su + lo, t, x);
    }
    assert(ps[0] == x1 && ps[1] == x2 && ps[2] == x3 && ps[3] == x4 && ps[4] == x5 && ps[5] == x6
        && ps[6] == x8 && ps[7] == xa);
}

/// Append a query pair.
fn push_pair(v: &mut Vec<(String, String)>, k: &str, val: String)
    ensures
        pairs_view(final(v)@) == pairs_view(old(v)@).push((k@, val@)),
{
    let ghost before = v@;
    let ghost kv = val@;
    v.push((owned(k), val));
    assert(pairs_view(v@) =~= pairs_view(before).push((k@, kv)));
}

/// A natural number as decimal text.
fn nat_text(n: u64) -> (r: String)
    ensures
        r@ == nat_digits(n as nat),
{
    let mut s = String::new();
    push_nat(&mut s, n);
    assert(s@ =~= nat_digits(n as nat));
    s
}

/// An integer as decimal text.
fn int_text(n: i64) -> (r: String)
    ensures
        r@ == int_digits(n as int),
{
    let mut s = String::new();
    push_int(&mut s, n);
    assert(s@ =~= int_digits(n as int));
    s
}

/// The first query pairs: item path, indices, HLS settings, offset, session.
pub open spec fn head_query(req: PlaybackRequest, session: Seq<char>) -> Seq<(Seq<char>, Seq<char>)> {
    seq![
        ("path"@, "/library/metadata/"@ + req.rating_key@),
        ("mediaIndex"@, nat_digits(req.media_index as nat)),
        ("partIndex"@, nat_digits(req.part_index as nat)),
        ("protocol"@, "hls"@),
        ("fastSeek"@, "1"@),
        ("copyts"@, "1"@),
        ("offset"@, int_digits(clamped_offset(req.offset_ms as int))),
        ("session"@, session),
    ]
}

/// Direct play and direct stream allowed, unless a transcode is forced.
pub open spec fn direct_query(force: bool) -> Seq<(Seq<char>, Seq<char>)> {
    if force {
        seq![("directPlay"@, "0"@), ("directStream"@, "0"@)]
    } else {
        seq![("directPlay"@, "1"@), ("directStream"@, "1"@)]
    }
}

/// The chosen audio and subtitle tracks (subtitles rendered `auto`).
pub open spec fn track_query(audio: Option<i64>, subtitle: Option<i64>) -> Seq<(Seq<char>, Seq<char>)> {
    (match audio {
        Some(a) => seq![("audioStreamID"@, int_digits(a as int))],
        None => Seq::empty(),
    }) + (match subtitle {
        Some(s) => seq![("subtitleStreamID"@, int_digits(s as int)), ("subtitles"@, "auto"@)],
        None => Seq::empty(),
    })
}

/// `location=lan` on a local connection, then platform, profile and token.
pub open spec fn tail_query(req: PlaybackRequest, is_remote: bool, token: Seq<char>) -> Seq<(Seq<char>, Seq<char>)> {
    (if !is_remote {
        seq![("location"@, "lan"@)]
    } else {
        Seq::empty()
    }) + seq![
        ("X-Plex-Platform"@, "Generic"@),
        (
            "X-Plex-Client-Profile-Extra"@,
            joined(profile_directives(req.can_direct_play_10bit, req.can_direct_play_hdr), "+"@),
        ),
        ("X-Plex-Token"@, token),
    ]
}

/// The views of concatenated pair lists.
proof fn lemma_pairs_view_add(a: Seq<(String, String)>, b: Seq<(String, String)>)
    ensures
        pairs_view(a + b) == pairs_view(a) + pairs_view(b),
{
    assert(pairs_view(a + b) =~= pairs_view(a) + pairs_view(b));
}

fn head_params(req: &PlaybackRequest, session: &str) -> (r: Vec<(String, String)>)
    ensures
        pairs_view(r@) == head_query(*req, session@),
{
    let mut p: Vec<(String, String)> = Vec::new();
    let mut path = String::new();
    path.append("/library/metadata/");
    path.append(req.rating_key.as_str());
    push_pair(&mut p, "path", path);
    push_pair(&mut p, "mediaIndex", nat_text(req.media_index as u64));
    push_pair(&mut p, "partIndex", nat_text(req.part_index as u64));
    push_pair(&mut p, "protocol", owned("hls"));
    push_pair(&mut p, "fastSeek", owned("1"));
    push_pair(&mut p, "copyts", owned("1"));
    push_pair(&mut p, "offset", int_text(clamp_offset(req.offset_ms)));
    push_pair(&mut p, "session", owned(session));
    assert(pairs_view(p@) =~= head_query(*req, session@));
    p
}

fn direct_params(force: bool) -> (r: Vec<(String, String)>)
    ensures
        pairs_view(r@) == direct_query(force),
{
    let mut p: Vec<(String, String)> = Vec::new();
    if force {
        push_pair(&mut p, "directPlay", owned("0"));
        push_pair(&mut p, "directStream", owned("0"));
    } else {
        push_pair(&mut p, "directPlay", owned("1"));
        push_pair(&mut p, "directStream", owned("1"));
    }
    assert(pairs_view(p@) =~= direct_query(force));
    p
}

fn quality_param_list(preset: Option<QualityPreset>) -> (r: Vec<(String, String)>)
    ensures
        pairs_view(r@) == quality_params(preset),
{
    let mut p: Vec<(String, String)> = Vec::new();
    match preset {
        Some(q) => {
            push_pair(&mut p, "videoQuality", nat_text(q.video_quality() as u64));
            let ghost first = pairs_view(p@);
            match q.max_video_bitrate_kbps() {
                Some(br) => push_pair(&mut p, "maxVideoBitrate", nat_text(br as u64)),
                None => {},
            }
            let ghost second = pairs_view(p@);
            match q.video_resolution() {
                Some(res) => push_pair(&mut p, "videoResolution", owned(res)),
                None => {},
            }
            assert(pairs_view(p@) =~= quality_params(preset));
        },
        None => {
            assert(pairs_view(p@) =~= quality_params(preset));
        },
    }
    p
}

fn track_params(audio: Option<i64>, subtitle: Option<i64>) -> (r: Vec<(String, String)>)
    ensures
        pairs_view(r@) == track_query(audio, subtitle),
{
    let mut p: Vec<(String, String)> = Vec::new();
    match audio {
        Some(a) => push_pair(&mut p, "audioStreamID", int_text(a)),
        None => {},
    }
    match subtitle {
        Some(s) => {
            push_pair(&mut p, "subtitleStreamID", int_text(s));
            push_pair(&mut p, "subtitles", owned("auto"));
        },
        None => {},
    }
    assert(pairs_view(p@) =~= track_query(audio, subtitle));
    p
}

fn tail_params(req: &PlaybackRequest, is_remote: bool, token: &str) -> (r: Vec<(String, String)>)
    ensures
        pairs_view(r@) == tail_query(*req, is_remote, token@),
{
    let mut p: Vec<(String, String)> = Vec::new();
    if !is_remote {
        push_pair(&mut p, "location", owned("lan"));
    }
    push_pair(&mut p, "X-Plex-Platform", owned("Generic"));
    push_pair(
        &mut p,
        "X-Plex-Client-Profile-Extra",
        client_profile_extra(req.can_direct_play_10bit, req.can_direct_play_hdr),
    );
    push_pair(&mut p, "X-Plex-Token", owned(token));
    assert(pairs_view(p@) =~= tail_query(*req, is_remote, token@));
    p
}

/// Build the ordered query of a request: the item path and indices, HLS with
/// fast seek and copied timestamps, the clamped offset and session, direct
/// play and stream allowed unless a transcode is forced, the quality cap,
/// the chosen tracks, `location=lan` on a local connection, the platform, the
/// capability profile and the token.
pub fn transcode_params(req: &PlaybackRequest, session: &str, is_remote: bool, token: &str) -> (r: Vec<
    (String, String),
>)
    ensures
        pairs_view(r@) == transcode_query(*req, session@, is_remote, token@),
{
    let mut p = head_params(req, session);
    let mut d = direct_params(req.force_transcode);
    let mut q = quality_param_list(effective_preset(req.quality, is_remote));
    let mut t = track_params(req.audio_stream_id, req.subtitle_stream_id);
    let mut e = tail_params(req, is_remote, token);
    let ghost (p0, d0, q0, t0, e0) = (p@, d@, q@, t@, e@);
    p.append(&mut d);
    p.append(&mut q);
    p.append(&mut t);
    p.append(&mut e);
    proof {
        assert(p@ =~= p0 + d0 + q0 + t0 + e0);
        lemma_pairs_view_add(p0, d0);
        lemma_pairs_view_add(p0 + d0, q0);
        lemma_pairs_view_add(p0 + d0 + q0, t0);
        lemma_pairs_view_add(p0 + d0 + q0 + t0, e0);
        let tq = transcode_query(*req, session@, is_remote, token@);
        assert(tq =~= head_query(*req, session@) + direct_query(req.force_transcode)
            + quality_params(effective_preset_spec(req.quality, is_remote)) + track_query(
            req.audio_stream_id,
            req.subtitle_stream_id,
        ) + tail_query(*req, is_remote, token@));
    }
    p
}

/// What `url::Url::parse_with_params` renders for a base URL and query pairs
/// (`None` when the base does not parse as an absolute URL).
pub uninterp spec fn url_with_query(base: Seq<char>, params: Seq<(Seq<char>, Seq<char>)>) -> Option<Seq<char>>;

/// Calls `url::Url::parse_with_params` (re-exported as `reqwest::Url`) and
/// renders the URL as text; the result is named `url_with_query`. Parsing and
/// percent-encoding are not restated.
#[verifier::external_body]
fn parse_with_params(base: &str, params: &Vec<(String, String)>) -> (r: Option<String>)
    ensures
        opt_view(r) == url_with_query(base@, pairs_view(params@)),
{
    reqwest::Url::parse_with_params(base, params.iter()).ok().map(String::from)
}

/// The base of a universal-transcoder endpoint.
pub open spec fn universal_base(base: Seq<char>, endpoint: Seq<char>) -> Seq<char> {
    base + "/video/:/transcode/universal/"@ + endpoint
}

/// The URL of a universal-transcoder endpoint with a query.
pub open spec fn universal_url_spec(base: Seq<char>, endpoint: Seq<char>, params: Seq<(Seq<char>, Seq<char>)>) -> Result<Seq<char>, TranscodeError> {
    match url_with_query(universal_base(base, endpoint), params) {
        Some(u) => Ok(u),
        None => Err(TranscodeError::Url),
    }
}

/// Build a universal-transcoder URL for `endpoint` (`start.m3u8`, `decision`,
/// `stop`, `ping`) with the given query.
pub fn universal_url(base: &str, endpoint: &str, params: &Vec<(String, String)>) -> (r: Result<
    String,
    TranscodeError,
>)
    ensures
        match r {
            Ok(u) => universal_url_spec(base@, endpoint@, pairs_view(params@)) == Ok::<
                Seq<char>,
                TranscodeError,
            >(u@),
            Err(e) => universal_url_spec(base@, endpoint@, pairs_view(params@)) == Err::<
                Seq<char>,
                TranscodeError,
            >(e),
        },
{
    let mut b = String::new();
    b.append(base);
    b.append("/video/:/transcode/universal/");
    b.append(endpoint);
    assert(b@ =~= universal_base(base@, endpoint@));
    match parse_with_params(b.as_str(), params) {
        Some(u) => Ok(u),
        None => Err(TranscodeError::Url),
    }
}

/// Build the `start.m3u8` URL handed to the player for a transcode or direct
/// stream.
pub fn transcode_start_url(base: &str, token: &str, is_remote: bool, req: &PlaybackRequest, session: &str) -> (r: Result<
    String,
    TranscodeError,
>)
    ensures
        match r {
            Ok(u) => universal_url_spec(base@, "start.m3u8"@, transcode_query(*req, session@, is_remote, token@))
                == Ok::<Seq<char>, TranscodeError>(u@),
            Err(e) => universal_url_spec(base@, "start.m3u8"@, transcode_query(*req, session@, is_remote, token@))
                == Err::<Seq<char>, TranscodeError>(e),
        },
{
    let params = transcode_params(req, session, is_remote, token);
    universal_url(base, "start.m3u8", &params)
}

/// The raw file URL of a part.
pub open spec fn playback_url_spec(base: Seq<char>, part_key: Seq<char>, token: Seq<char>) -> Seq<char> {
    base + part_key + "?download=1&X-Plex-Token="@ + token
}

/// Direct-play URL of a part: the raw file, downloadable and byte-rangeable.
pub fn playback_url(base: &str, part_key: &str, token: &str) -> (r: String)
    ensures
        r@ == playback_url_spec(base@, part_key@, token@),
{
    let mut s = String::new();
    s.append(base);
    s.append(part_key);
    s.append("?download=1&X-Plex-Token=");
    s.append(token);
    assert(s@ =~= playback_url_spec(base@, part_key@, token@));
    s
}

/// The server-side image transcode URL.
pub open spec fn transcode_image_url_spec(base: Seq<char>, path: Seq<char>, w: u32, h: u32, token: Seq<char>) -> Seq<char> {
    base + "/photo/:/transcode?width="@ + nat_digits(w as nat) + "&height="@ + nat_digits(h as nat)
        + "&minSize=1&url="@ + path + "&X-Plex-Token="@ + token
}

/// Build a transcoded image URL.
pub fn transcode_image_url(base: &str, path: &str, width: u32, height: u32, token: &str) -> (r: String)
    ensures
        r@ == transcode_image_url_spec(base@, path@, width, height, token@),
{
    let mut s = String::new();
    s.append(base);
    s.append("/photo/:/transcode?width=");
    push_nat(&mut s, width as u64);
    s.append("&height=");
    push_nat(&mut s, height as u64);
    s.append("&minSize=1&url=");
    s.append(path);
    s.append("&X-Plex-Token=");
    s.append(token);
    assert(s@ =~= transcode_image_url_spec(base@, path@, width, height, token@));
    s
}

// --- Decision mapping ---------------------------------------------------------------

/// The first media version the decision selected.
pub open spec fn first_selected(ms: Seq<PlexMedia>) -> Option<PlexMedia>
    decreases ms.len(),
{
    if ms.len() == 0 {
        None
    } else if ms[0].selected == Some(true) {
        Some(ms[0])
    } else {
        first_selected(ms.drop_first())
    }
}

/// The media version a decision is about: the selected one of the first
/// item, else its first.
pub open spec fn chosen_media(mc: PlexDecisionContainer) -> Option<PlexMedia> {
    if mc.metadata@.len() > 0 {
        match first_selected(mc.metadata@[0].media@) {
            Some(m) => Some(m),
            None => if mc.metadata@[0].media@.len() > 0 {
                Some(mc.metadata@[0].media@[0])
            } else {
                None
            },
        }
    } else {
        None
    }
}

/// The first part of the chosen media version.
pub open spec fn chosen_part(mc: PlexDecisionContainer) -> Option<PlexPart> {
    match chosen_media(mc) {
        Some(m) => if m.parts@.len() > 0 {
            Some(m.parts@[0])
        } else {
            None
        },
        None => None,
    }
}

/// The decided kind: the part's `decision` (`directplay`, `copy`,
/// `transcode`) when present, else direct play when the container's general
/// code is 1000; anything else is no decision.
pub open spec fn decision_kind(mc: PlexDecisionContainer) -> Option<PlaybackDecisionKind> {
    let d = match chosen_part(mc) {
        Some(p) => opt_view(p.decision),
        None => None,
    };
    match d {
        Some(t) => if t == "directplay"@ {
            Some(PlaybackDecisionKind::DirectPlay)
        } else if t == "copy"@ {
            Some(PlaybackDecisionKind::DirectStream)
        } else if t == "transcode"@ {
            Some(PlaybackDecisionKind::Transcode)
        } else {
            None
        },
        None => if mc.general_decision_code == Some(1000i64) {
            Some(PlaybackDecisionKind::DirectPlay)
        } else {
            None
        },
    }
}

/// The streams of the chosen part.
pub open spec fn chosen_streams(mc: PlexDecisionContainer) -> Seq<PlexStream> {
    match chosen_part(mc) {
        Some(p) => p.streams@,
        None => Seq::empty(),
    }
}

/// The fields of a decision that come from the answer whatever the kind:
/// output resolution and bitrate of the chosen media, the session's throttle
/// flag, and the audio and subtitle tracks.
pub open spec fn decision_details(mc: PlexDecisionContainer, d: PlaybackDecision) -> bool {
    &&& opt_view(d.video_resolution) == (match chosen_media(mc) {
        Some(m) => opt_view(m.video_resolution),
        None => None,
    })
    &&& d.video_bitrate_kbps == (match chosen_media(mc) {
        Some(m) => m.bitrate,
        None => None,
    })
    &&& d.throttled == (match mc.transcode_session {
        Some(s) => s.throttled == Some(true),
        None => false,
    })
    &&& tracks_view(d.audio_streams@) == tracks_of(chosen_streams(mc), 2)
    &&& tracks_view(d.subtitle_streams@) == tracks_of(chosen_streams(mc), 3)
}

proof fn lemma_first_selected_at(ms: Seq<PlexMedia>, j: int)
    requires
        0 <= j < ms.len(),
        ms[j].selected == Some(true),
        forall|k: int| 0 <= k < j ==> #[trigger] ms[k].selected != Some(true),
    ensures
        first_selected(ms) == Some(ms[j]),
    decreases j,
{
    if j > 0 {
        let t = ms.drop_first();
        assert forall|k: int| 0 <= k < j - 1 implies #[trigger] t[k].selected != Some(true) by {
            assert(t[k] == ms[k + 1]);
        }
        assert(t[j - 1] == ms[j]);
        lemma_first_selected_at(t, j - 1);
    }
}

proof fn lemma_none_selected(ms: Seq<PlexMedia>)
    requires
        forall|k: int| 0 <= k < ms.len() ==> #[trigger] ms[k].selected != Some(true),
    ensures
        first_selected(ms) is None,
    decreases ms.len(),
{
    if ms.len() > 0 {
        let t = ms.drop_first();
        assert forall|k: int| 0 <= k < t.len() implies #[trigger] t[k].selected != Some(true) by {
            assert(t[k] == ms[k + 1]);
        }
        assert(ms[0].selected != Some(true));
        lemma_none_selected(t);
    }
}

/// A decision is about the first media version of the first item that is
/// marked selected, or about its first version when none is: the decided
/// kind comes from that version's first part (`directplay`, `copy`,
/// `transcode`), and any decision with the answer's details reports that
/// version's resolution, bitrate and tracks.
pub proof fn lemma_selected_version_decides(mc: PlexDecisionContainer, j: int, d: PlaybackDecision)
    requires
        mc.metadata@.len() > 0,
        0 <= j < mc.metadata@[0].media@.len(),
        (mc.metadata@[0].media@[j].selected == Some(true) && forall|k: int|
            0 <= k < j ==> #[trigger] mc.metadata@[0].media@[k].selected != Some(true)) || (j == 0
            && forall|k: int|
            0 <= k < mc.metadata@[0].media@.len() ==> #[trigger] mc.metadata@[0].media@[k].selected
                != Some(true)),
        decision_details(mc, d),
    ensures
        opt_view(d.video_resolution) == opt_view(mc.metadata@[0].media@[j].video_resolution),
        d.video_bitrate_kbps == mc.metadata@[0].media@[j].bitrate,
        mc.metadata@[0].media@[j].parts@.len() > 0 ==> tracks_view(d.audio_streams@) == tracks_of(
            mc.metadata@[0].media@[j].parts@[0].streams@,
            2,
        ) && tracks_view(d.subtitle_streams@) == tracks_of(
            mc.metadata@[0].media@[j].parts@[0].streams@,
            3,
        ),
        mc.metadata@[0].media@[j].parts@.len() > 0 && opt_view(
            mc.metadata@[0].media@[j].parts@[0].decision,
        ) == Some("directplay"@) ==> decision_kind(mc) == Some(PlaybackDecisionKind::DirectPlay),
        mc.metadata@[0].media@[j].parts@.len() > 0 && opt_view(
            mc.metadata@[0].media@[j].parts@[0].decision,
        ) == Some("copy"@) ==> decision_kind(mc) == Some(PlaybackDecisionKind::DirectStream),
        mc.metadata@[0].media@[j].parts@.len() > 0 && opt_view(
            mc.metadata@[0].media@[j].parts@[0].decision,
        ) == Some("transcode"@) ==> decision_kind(mc) == Some(PlaybackDecisionKind::Transcode),
{
    let ms = mc.metadata@[0].media@;
    if ms[j].selected == Some(true) && forall|k: int| 0 <= k < j ==> #[trigger] ms[k].selected != Some(true) {
        lemma_first_selected_at(ms, j);
    } else {
        lemma_none_selected(ms);
    }
    assert(chosen_media(mc) == Some(ms[j]));
    reveal_strlit("directplay");
    reveal_strlit("copy");
    reveal_strlit("transcode");
    assert("copy"@.len() != "directplay"@.len());
    assert("transcode"@.len() != "directplay"@.len());
    assert("transcode"@.len() != "copy"@.len());
}

/// The index of the media version a decision is about.
fn chosen_media_index(mc: &PlexDecisionContainer) -> (r: Option<usize>)
    ensures
        match r {
            Some(i) => mc.metadata@.len() > 0 && i < mc.metadata@[0].media@.len() && chosen_media(*mc)
                == Some(mc.metadata@[0].media@[i as int]),
            None => chosen_media(*mc) is None,
        },
{
    if mc.metadata.len() == 0 {
        return None;
    }
    let ms = &mc.metadata[0].media;
    let mut i: usize = 0;
    assert(ms@.skip(0) =~= ms@);
    while i < ms.len()
        invariant
            mc.metadata@.len() > 0,
            *ms == mc.metadata@[0].media,
            i <= ms@.len(),
            first_selected(ms@) == first_selected(ms@.skip(i as int)),
        decreases ms.len() - i,
    {
        assert(ms@.skip(i as int).drop_first() =~= ms@.skip(i + 1));
        assert(ms@.skip(i as int)[0] == ms@[i as int]);
        if ms[i].selected == Some(true) {
            return Some(i);
        }
        i = i + 1;
    }
    if ms.len() > 0 {
        Some(0)
    } else {
        None
    }
}

/// Map a parsed decision answer to a playback decision: direct play gets the
/// raw file URL and no session; direct stream and transcode get the
/// `start.m3u8` URL and the session. An answer without a recognisable
/// decision is an error rather than a guess.
pub fn decision_to_playback(
    base: &str,
    token: &str,
    is_remote: bool,
    req: &PlaybackRequest,
    session: &str,
    decision: &PlexDecisionResponse,
) -> (r: Result<PlaybackDecision, TranscodeError>)
    ensures
        match decision_kind(decision.media_container) {
            None => r == Err::<PlaybackDecision, TranscodeError>(TranscodeError::NoDecision),
            Some(k) => if k == PlaybackDecisionKind::DirectPlay {
                r matches Ok(d) && d.kind == k && d.url@ == playback_url_spec(
                    base@,
                    req.part_key@,
                    token@,
                ) && d.session is None && decision_details(decision.media_container, d)
            } else {
                match universal_url_spec(
                    base@,
                    "start.m3u8"@,
                    transcode_query(*req, session@, is_remote, token@),
                ) {
                    Ok(u) => r matches Ok(d) && d.kind == k && d.url@ == u && opt_view(d.session)
                        == Some(session@) && decision_details(decision.media_container, d),
                    Err(e) => r == Err::<PlaybackDecision, TranscodeError>(e),
                }
            },
        },
{
    let mc = &decision.media_container;
    let mi = chosen_media_index(mc);
    let ghost cm = chosen_media(*mc);
    let (video_resolution, video_bitrate_kbps, has_part): (Option<String>, Option<i64>, bool) = match mi {
        Some(i) => {
            let m = &mc.metadata[0].media[i];
            (clone_opt(&m.video_resolution), m.bitrate, m.parts.len() > 0)
        },
        None => (None, None, false),
    };
    let kind: PlaybackDecisionKind = {
        let dec: Option<String> = match mi {
            Some(i) => {
                if has_part {
                    clone_opt(&mc.metadata[0].media[i].parts[0].decision)
                } else {
                    None
                }
            },
            None => None,
        };
        match dec {
            Some(t) => {
                if str_eq(t.as_str(), "directplay") {
                    PlaybackDecisionKind::DirectPlay
                } else if str_eq(t.as_str(), "copy") {
                    PlaybackDecisionKind::DirectStream
                } else if str_eq(t.as_str(), "transcode") {
                    PlaybackDecisionKind::Transcode
                } else {
                    return Err(TranscodeError::NoDecision);
                }
            },
            None => {
                if mc.general_decision_code == Some(1000i64) {
                    PlaybackDecisionKind::DirectPlay
                } else {
                    return Err(TranscodeError::NoDecision);
                }
            },
        }
    };
    let throttled = match &mc.transcode_session {
        Some(s) => s.throttled == Some(true),
        None => false,
    };
    let (url, session_out): (String, Option<String>) = match kind {
        PlaybackDecisionKind::DirectPlay => (playback_url(base, req.part_key.as_str(), token), None),
        _ => {
            let u = match transcode_start_url(base, token, is_remote, req, session) {
                Ok(u) => u,
                Err(e) => {
                    return Err(e);
                },
            };
            (u, Some(owned(session)))
        },
    };
    let empty: Vec<PlexStream> = Vec::new();
    let streams: &[PlexStream] = match mi {
        Some(i) => {
            if has_part {
                mc.metadata[0].media[i].parts[0].streams.as_slice()
            } else {
                empty.as_slice()
            }
        },
        None => empty.as_slice(),
    };
    assert(streams@ == chosen_streams(*mc));
    let audio_streams = decision_streams(streams, 2);
    let subtitle_streams = decision_streams(streams, 3);
    Ok(
        PlaybackDecision {
            kind,
            url,
            session: session_out,
            video_resolution,
            video_bitrate_kbps,
            throttled,
            audio_streams,
            subtitle_streams,
        },
    )
}

/// Build the `decision` URL asked before playback, with the same query as the
/// `start.m3u8` URL.
pub fn decision_url(base: &str, token: &str, is_remote: bool, req: &PlaybackRequest, session: &str) -> (r: Result<
    String,
    TranscodeError,
>)
    ensures
        match r {
            Ok(u) => universal_url_spec(base@, "decision"@, transcode_query(*req, session@, is_remote, token@))
                == Ok::<Seq<char>, TranscodeError>(u@),
            Err(e) => universal_url_spec(base@, "decision"@, transcode_query(*req, session@, is_remote, token@))
                == Err::<Seq<char>, TranscodeError>(e),
        },
{
    let params = transcode_params(req, session, is_remote, token);
    universal_url(base, "decision", &params)
}

/// The query of a session lifecycle request: the session and the token.
pub open spec fn lifecycle_query(session: Seq<char>, token: Seq<char>) -> Seq<(Seq<char>, Seq<char>)> {
    seq![("session"@, session), ("X-Plex-Token"@, token)]
}

/// Build the URL that stops (`stop`) or keeps alive (`ping`) a transcode
/// session.
pub fn lifecycle_url(base: &str, token: &str, action: &str, session: &str) -> (r: Result<
    String,
    TranscodeError,
>)
    ensures
        match r {
            Ok(u) => universal_url_spec(base@, action@, lifecycle_query(session@, token@)) == Ok::<
                Seq<char>,
                TranscodeError,
            >(u@),
            Err(e) => universal_url_spec(base@, action@, lifecycle_query(session@, token@)) == Err::<
                Seq<char>,
                TranscodeError,
            >(e),
        },
{
    let mut params: Vec<(String, String)> = Vec::new();
    params.push((owned("session"), owned(session)));
    params.push((owned("X-Plex-Token"), owned(token)));
    assert(pairs_view(params@) =~= lifecycle_query(session@, token@));
    universal_url(base, action, &params)
}

/// How many times a session stop is sent.
pub const STOP_ATTEMPTS: u32 = 3;

/// The answer to one session-stop request: a success or a 404 (the session
/// was already reaped) means done; any other status is the error kept for
/// the case that every attempt fails.
pub fn stop_outcome(status: u16) -> (r: Option<TranscodeError>)
    ensures
        (200 <= status < 300 || status == 404) <==> r is None,
        r is Some ==> r == Some(TranscodeError::Server { status }),
{
    if (200 <= status && status < 300) || status == 404 {
        None
    } else {
        Some(TranscodeError::Server { status })
    }
}

/// The answer to a keepalive ping: a success, or a server error with the
/// status.
pub fn ping_outcome(status: u16) -> (r: Result<(), TranscodeError>)
    ensures
        (200 <= status < 300) <==> r is Ok,
        r is Err ==> r == Err::<(), TranscodeError>(TranscodeError::Server { status }),
{
    if 200 <= status && status < 300 {
        Ok(())
    } else {
        Err(TranscodeError::Server { status })
    }
}

/// A transcode session id: the client prefix, `-`, and the random bytes in
/// lowercase hexadecimal.
pub fn session_id_from(prefix: &str, random: &[u8]) -> (r: String)
    ensures
        r@ == prefix@ + "-"@ + crate::image_cache::hex_bytes(random@),
{
    let mut s = owned(prefix);
    s.append("-");
    let h = crate::image_cache::hex_string(random);
    s.append(h.as_str());
    s
}

} // verus!
