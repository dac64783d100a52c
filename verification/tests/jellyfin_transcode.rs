use reel::jellyfin::error::{jellyfin_transcode_source_error, JellyfinTranscodeError};
use reel::jellyfin::models::{MediaStream, PlaybackInfoResponse, PlaybackMediaSource};
use reel::jellyfin::transcode::{
    absolute_transcode_url, decision_from_response, decision_status, playback_info_body,
    playback_info_url, requested_source_id,
};
use reel::jellyfin::transcode_profile::device_profile;
use reel::media_source::SourceError;
use reel::playback::{PlaybackBackendKind, PlaybackDecisionKind, PlaybackRequest, QualitySelection};
use serde_json::Value;

const BASE: &str = "http://127.0.0.1:8096";
const TOKEN: &str = "secret-token";

fn req(part_key: &str) -> PlaybackRequest {
    PlaybackRequest {
        rating_key: "item9".into(),
        part_key: part_key.into(),
        media_index: 0,
        part_index: 0,
        quality: QualitySelection::Auto,
        force_transcode: false,
        can_direct_play_10bit: false,
        can_direct_play_hdr: false,
        backend_kind: PlaybackBackendKind::GStreamer,
        audio_stream_id: None,
        subtitle_stream_id: None,
        offset_ms: 0,
    }
}

fn stream(index: i32, ty: &str, codec: Option<&str>, title: Option<&str>, height: Option<i32>) -> MediaStream {
    MediaStream {
        index,
        type_: Some(ty.into()),
        codec: codec.map(String::from),
        language: None,
        display_title: title.map(String::from),
        height,
    }
}

fn direct_play_body() -> PlaybackInfoResponse {
    PlaybackInfoResponse {
        play_session_id: Some("ps-direct".into()),
        media_sources: vec![PlaybackMediaSource {
            id: Some("src1".into()),
            supports_direct_play: true,
            supports_direct_stream: true,
            supports_transcoding: true,
            transcoding_url: None,
            bitrate: Some(8_000_000),
            default_audio_stream_index: None,
            default_subtitle_stream_index: None,
            media_streams: vec![
                stream(0, "Video", None, None, Some(1080)),
                stream(1, "Audio", Some("aac"), Some("English (AAC)"), None),
            ],
        }],
    }
}

fn transcode_body() -> PlaybackInfoResponse {
    PlaybackInfoResponse {
        play_session_id: Some("ps-trans".into()),
        media_sources: vec![PlaybackMediaSource {
            id: Some("src1".into()),
            supports_direct_play: false,
            supports_direct_stream: false,
            supports_transcoding: true,
            transcoding_url: Some("/videos/item9/master.m3u8?api_key=secret-token&mediaSourceId=src1".into()),
            bitrate: Some(18_000_000),
            default_audio_stream_index: Some(1),
            default_subtitle_stream_index: None,
            media_streams: vec![
                stream(0, "Video", Some("hevc"), None, Some(2160)),
                stream(1, "Audio", Some("truehd"), Some("English (TrueHD 7.1)"), None),
                stream(2, "Audio", Some("aac"), Some("Commentary"), None),
                stream(3, "Subtitle", Some("ass"), Some("English"), None),
            ],
        }],
    }
}

fn resolve(r: &PlaybackRequest, info: &PlaybackInfoResponse) -> Result<reel::playback::PlaybackDecision, JellyfinTranscodeError> {
    let want = requested_source_id(&r.part_key);
    decision_from_response(BASE, TOKEN, r, want.as_deref(), info)
}

#[test]
fn direct_play_maps_to_static_stream_url() {
    let d = resolve(&req("item9|src1"), &direct_play_body()).unwrap();
    assert_eq!(d.kind, PlaybackDecisionKind::DirectPlay);
    assert!(d.url.contains("/Videos/item9/stream?static=true"));
    assert!(d.url.contains("api_key=secret-token"));
    assert!(d.session.is_none());
    assert_eq!(d.video_resolution.as_deref(), Some("1080"));
    assert_eq!(d.video_bitrate_kbps, Some(8000));
}

#[test]
fn transcode_maps_absolute_url_and_session() {
    let d = resolve(&req("item9|src1"), &transcode_body()).unwrap();
    assert_eq!(d.kind, PlaybackDecisionKind::Transcode);
    assert_eq!(d.url, format!("{BASE}/videos/item9/master.m3u8?api_key=secret-token&mediaSourceId=src1"));
    assert_eq!(d.session.as_deref(), Some("ps-trans"));
    assert_eq!(d.video_resolution.as_deref(), Some("2160"));
}

#[test]
fn transcode_populates_audio_and_subtitle_streams() {
    let d = resolve(&req("item9|src1"), &transcode_body()).unwrap();
    assert_eq!(d.audio_streams.len(), 2);
    assert_eq!(d.audio_streams[0].id, 1);
    assert_eq!(d.audio_streams[0].label, "English (TrueHD 7.1)");
    assert!(d.audio_streams[0].selected);
    assert!(!d.audio_streams[1].selected);
    assert_eq!(d.subtitle_streams.len(), 1);
    assert_eq!(d.subtitle_streams[0].id, 3);
}

#[test]
fn requested_audio_index_marks_selected() {
    let mut r = req("item9|src1");
    r.audio_stream_id = Some(2);
    let d = resolve(&r, &transcode_body()).unwrap();
    assert!(!d.audio_streams[0].selected);
    assert!(d.audio_streams.iter().find(|s| s.id == 2).unwrap().selected);
}

#[test]
fn no_supported_mode_is_no_decision() {
    let info = PlaybackInfoResponse {
        play_session_id: Some("x".into()),
        media_sources: vec![PlaybackMediaSource {
            id: Some("src1".into()),
            supports_direct_play: false,
            supports_direct_stream: false,
            supports_transcoding: false,
            transcoding_url: None,
            bitrate: None,
            default_audio_stream_index: None,
            default_subtitle_stream_index: None,
            media_streams: vec![],
        }],
    };
    let err = resolve(&req("item9|src1"), &info).unwrap_err();
    assert!(matches!(err, JellyfinTranscodeError::NoDecision));
}

#[test]
fn server_500_is_server_error() {
    let err = decision_status(500).unwrap_err();
    assert!(matches!(err, JellyfinTranscodeError::Server { status: 500 }));
    assert!(matches!(jellyfin_transcode_source_error(err), SourceError::Other(_)));
}

#[test]
fn no_sources_is_no_decision() {
    let info = PlaybackInfoResponse { play_session_id: None, media_sources: vec![] };
    assert_eq!(resolve(&req("item9"), &info), Err(JellyfinTranscodeError::NoDecision));
}

#[test]
fn requested_source_is_preferred_over_first() {
    let mut info = direct_play_body();
    let mut other = info.media_sources[0].clone();
    other.id = Some("src2".into());
    other.supports_direct_play = false;
    other.supports_direct_stream = true;
    other.transcoding_url = Some("videos/item9/stream.mkv?static=false".into());
    info.media_sources.push(other);
    let d = resolve(&req("item9|src2"), &info).unwrap();
    assert_eq!(d.kind, PlaybackDecisionKind::DirectStream);
    assert_eq!(d.url, format!("{BASE}/videos/item9/stream.mkv?static=false&api_key=secret-token"));
    let d = resolve(&req("item9|missing"), &info).unwrap();
    assert_eq!(d.kind, PlaybackDecisionKind::DirectPlay);
}

#[test]
fn absolute_url_adds_key_only_when_missing() {
    assert_eq!(absolute_transcode_url(BASE, TOKEN, "/a.m3u8"), format!("{BASE}/a.m3u8?api_key=secret-token"));
    assert_eq!(absolute_transcode_url(BASE, TOKEN, "a.m3u8?x=1"), format!("{BASE}/a.m3u8?x=1&api_key=secret-token"));
    assert_eq!(absolute_transcode_url(BASE, TOKEN, "/a.m3u8?ApiKey=k"), format!("{BASE}/a.m3u8?ApiKey=k"));
}

#[test]
fn requested_source_comes_from_the_playback_key() {
    assert_eq!(requested_source_id("item9|src1").as_deref(), Some("src1"));
    assert_eq!(requested_source_id("item9"), None);
    assert_eq!(playback_info_url(BASE, "item9", "user1"), format!("{BASE}/Items/item9/PlaybackInfo?userId=user1"));
}

#[test]
fn body_carries_profile_and_choices() {
    let mut r = req("item9|src1");
    r.offset_ms = 1500;
    r.audio_stream_id = Some(2);
    r.force_transcode = true;
    let (profile, max) = device_profile(QualitySelection::Auto, true);
    let body = playback_info_body("user \"1\"", &r, Some("src1"), &profile, max);
    let v: Value = serde_json::from_str(&body).expect("valid JSON");
    assert_eq!(v["UserId"], "user \"1\"");
    assert_eq!(v["StartTimeTicks"], Value::from(15_000_000i64));
    assert_eq!(v["EnableDirectPlay"], Value::from(false));
    assert_eq!(v["EnableDirectStream"], Value::from(false));
    assert_eq!(v["EnableTranscoding"], Value::from(true));
    assert_eq!(v["MaxStreamingBitrate"], Value::from(8_000_000u64));
    assert_eq!(v["MediaSourceId"], "src1");
    assert_eq!(v["AudioStreamIndex"], Value::from(2));
    assert!(v.get("SubtitleStreamIndex").is_none());
    assert!(v["DeviceProfile"]["CodecProfiles"].is_array());
}

#[test]
fn body_escapes_control_characters() {
    let body = playback_info_body("a\\b\nc", &req("item9"), None, "{}", None);
    let v: Value = serde_json::from_str(&body).expect("valid JSON");
    assert_eq!(v["UserId"], "a\\b\nc");
    assert!(v.get("MaxStreamingBitrate").is_none());
    assert!(v.get("MediaSourceId").is_none());
}
