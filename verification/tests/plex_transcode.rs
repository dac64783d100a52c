use reel::playback::{
    effective_preset, PlaybackBackendKind, PlaybackDecisionKind, PlaybackRequest, QualityPreset,
    QualitySelection,
};
use reel::plex::models::{
    PlexDecisionContainer, PlexDecisionResponse, PlexMedia, PlexMetadata, PlexPart, PlexStream,
    PlexTranscodeSession,
};
use reel::plex::transcode::{
    clamp_offset, decision_streams, decision_to_playback, playback_url, transcode_image_url,
    transcode_params, transcode_start_url, universal_url, TranscodeError,
};
use std::collections::HashMap;

fn req() -> PlaybackRequest {
    PlaybackRequest {
        rating_key: "136798".into(),
        part_key: "/library/parts/950874/1772297784/file.mkv".into(),
        media_index: 0,
        part_index: 0,
        quality: QualitySelection::Auto,
        force_transcode: false,
        can_direct_play_10bit: false,
        can_direct_play_hdr: false,
        backend_kind: PlaybackBackendKind::GStreamer,
        audio_stream_id: None,
        subtitle_stream_id: None,
        offset_ms: 0,
    }
}

fn parse_query(url: &str) -> HashMap<String, String> {
    reqwest::Url::parse(url)
        .unwrap()
        .query_pairs()
        .map(|(k, v)| (k.into_owned(), v.into_owned()))
        .collect()
}

fn start(is_remote: bool, r: &PlaybackRequest) -> String {
    transcode_start_url("http://h:32400", "tok", is_remote, r, "s1").unwrap()
}

#[test]
fn clamp_offset_below_threshold_is_zero() {
    assert_eq!(clamp_offset(5_000), 0);
    assert_eq!(clamp_offset(12_000), 0);
    assert_eq!(clamp_offset(90_400), 90);
    assert_eq!(clamp_offset(90_500), 91);
}

#[test]
fn effective_preset_auto_remote_uses_default_cap() {
    assert_eq!(effective_preset(QualitySelection::Auto, true), Some(QualityPreset::REMOTE_DEFAULT));
    assert_eq!(effective_preset(QualitySelection::Auto, false), None);
    assert_eq!(
        effective_preset(QualitySelection::Manual(QualityPreset::P720Mbps4), false),
        Some(QualityPreset::P720Mbps4)
    );
}

#[test]
fn remote_source_url_carries_default_cap() {
    let q = parse_query(&start(true, &req()));
    assert_eq!(q.get("maxVideoBitrate").map(String::as_str), Some("8000"));
    assert_eq!(q.get("location"), None);
    let q = parse_query(&start(false, &req()));
    assert_eq!(q.get("maxVideoBitrate"), None);
    assert_eq!(q.get("location").map(String::as_str), Some("lan"));
}

#[test]
fn forced_transcode_emits_directplay_zero() {
    let mut r = req();
    r.force_transcode = true;
    let q = parse_query(&start(false, &r));
    assert_eq!(q.get("directPlay").map(String::as_str), Some("0"));
    assert_eq!(q.get("directStream").map(String::as_str), Some("0"));
    let q = parse_query(&start(false, &req()));
    assert_eq!(q.get("directPlay").map(String::as_str), Some("1"));
    assert_eq!(q.get("directStream").map(String::as_str), Some("1"));
}

#[test]
fn manual_preset_overrides_cap() {
    let mut r = req();
    r.quality = QualitySelection::Manual(QualityPreset::P720Mbps4);
    let q = parse_query(&start(true, &r));
    assert_eq!(q.get("maxVideoBitrate").map(String::as_str), Some("4000"));
    assert_eq!(q.get("videoResolution").map(String::as_str), Some("1280x720"));
}

#[test]
fn original_preset_has_no_bitrate_cap() {
    let mut r = req();
    r.quality = QualitySelection::Manual(QualityPreset::Original);
    let q = parse_query(&start(false, &r));
    assert_eq!(q.get("maxVideoBitrate"), None);
    assert_eq!(q.get("videoQuality").map(String::as_str), Some("100"));
}

#[test]
fn url_never_contains_client_identifier_or_hasmde_in_query() {
    let q = parse_query(&start(false, &req()));
    assert!(!q.contains_key("X-Plex-Client-Identifier"));
    assert!(!q.contains_key("hasMDE"));
    assert_eq!(q.get("copyts").map(String::as_str), Some("1"));
    assert_eq!(q.get("X-Plex-Token").map(String::as_str), Some("tok"));
}

#[test]
fn url_carries_required_validated_platform() {
    let q = parse_query(&start(false, &req()));
    assert_eq!(q.get("X-Plex-Platform").map(String::as_str), Some("Generic"));
}

#[test]
fn offset_clamped_in_url() {
    let mut r = req();
    r.offset_ms = 5_000;
    assert_eq!(parse_query(&start(false, &r)).get("offset").map(String::as_str), Some("0"));
    r.offset_ms = 90_000;
    assert_eq!(parse_query(&start(false, &r)).get("offset").map(String::as_str), Some("90"));
}

#[test]
fn selected_streams_in_url() {
    let mut r = req();
    r.audio_stream_id = Some(3799553);
    r.subtitle_stream_id = Some(3799555);
    let q = parse_query(&start(false, &r));
    assert_eq!(q.get("audioStreamID").map(String::as_str), Some("3799553"));
    assert_eq!(q.get("subtitleStreamID").map(String::as_str), Some("3799555"));
    assert_eq!(q.get("subtitles").map(String::as_str), Some("auto"));
}

#[test]
fn multi_part_index_in_url() {
    let mut r = req();
    r.media_index = 1;
    r.part_index = 2;
    let q = parse_query(&start(false, &r));
    assert_eq!(q.get("mediaIndex").map(String::as_str), Some("1"));
    assert_eq!(q.get("partIndex").map(String::as_str), Some("2"));
}

#[test]
fn params_start_with_path_and_end_with_token() {
    let p = transcode_params(&req(), "s1", false, "tok");
    assert_eq!(p[0], ("path".to_string(), "/library/metadata/136798".to_string()));
    assert_eq!(p.last().unwrap(), &("X-Plex-Token".to_string(), "tok".to_string()));
    assert!(transcode_start_url("http://h:32400", "tok", false, &req(), "s1")
        .unwrap()
        .starts_with("http://h:32400/video/:/transcode/universal/start.m3u8?path="));
}

#[test]
fn unparseable_base_is_a_url_error() {
    assert_eq!(universal_url("not a url", "decision", &Vec::new()), Err(TranscodeError::Url));
}

#[test]
fn playback_and_image_urls() {
    assert_eq!(playback_url("http://h:32400", "/library/parts/1/file.mkv", "tok"), "http://h:32400/library/parts/1/file.mkv?download=1&X-Plex-Token=tok");
    assert_eq!(
        transcode_image_url("http://h:32400", "/library/metadata/1/thumb/2", 300, 450, "tok"),
        "http://h:32400/photo/:/transcode?width=300&height=450&minSize=1&url=/library/metadata/1/thumb/2&X-Plex-Token=tok"
    );
}

fn stream(id: Option<i64>, ty: i32, title: Option<&str>, selected: Option<bool>) -> PlexStream {
    PlexStream {
        id,
        stream_type: Some(ty),
        codec: None,
        decision: None,
        location: None,
        selected,
        display_title: None,
        extended_display_title: title.map(String::from),
        language: None,
    }
}

#[test]
fn decision_streams_skips_idless_and_filters_by_type() {
    let streams = vec![
        stream(Some(10), 2, Some("English (AAC)"), Some(true)),
        stream(None, 2, Some("French"), None),
        stream(Some(20), 3, None, None),
    ];
    let audio = decision_streams(&streams, 2);
    assert_eq!(audio.len(), 1);
    assert_eq!(audio[0].id, 10);
    assert!(audio[0].selected);
}

#[test]
fn decision_stream_labels_fall_back_in_order() {
    let mut s = stream(Some(7), 3, None, None);
    assert_eq!(decision_streams(&[s.clone()], 3)[0].label, "Track 7");
    s.codec = Some("srt".into());
    assert_eq!(decision_streams(&[s.clone()], 3)[0].label, "srt");
    s.language = Some("English".into());
    assert_eq!(decision_streams(&[s.clone()], 3)[0].label, "English");
    s.display_title = Some("English (SRT)".into());
    assert_eq!(decision_streams(&[s], 3)[0].label, "English (SRT)");
}

fn decision(part_decision: Option<&str>, general: Option<i64>) -> PlexDecisionResponse {
    let part = PlexPart {
        id: Some(1),
        key: Some("/p/1".into()),
        file: None,
        size: None,
        container: None,
        decision: part_decision.map(String::from),
        streams: vec![stream(Some(3799553), 2, Some("English (EAC3 5.1)"), Some(true)), stream(Some(3799552), 1, None, None)],
    };
    let media = PlexMedia {
        id: Some(9),
        video_resolution: Some("720p".into()),
        video_codec: None,
        audio_codec: None,
        audio_channels: None,
        bitrate: Some(1877),
        container: None,
        width: None,
        height: None,
        video_dynamic_range: None,
        protocol: Some("hls".into()),
        selected: Some(true),
        parts: vec![part],
    };
    let metadata = PlexMetadata {
        rating_key: "1".into(),
        title: "x".into(),
        metadata_type: "movie".into(),
        year: None,
        summary: None,
        content_rating: None,
        rating: None,
        duration: None,
        thumb: None,
        art: None,
        added_at: None,
        updated_at: None,
        parent_rating_key: None,
        grandparent_rating_key: None,
        parent_index: None,
        index: None,
        originally_available_at: None,
        parent_thumb: None,
        grandparent_thumb: None,
        library_section_id: None,
        view_offset: None,
        view_count: None,
        last_viewed_at: None,
        genres: vec![],
        roles: vec![],
        directors: vec![],
        writers: vec![],
        collections: vec![],
        media: vec![media],
    };
    PlexDecisionResponse {
        media_container: PlexDecisionContainer {
            general_decision_code: general,
            general_decision_text: None,
            direct_play_decision_code: None,
            direct_play_decision_text: None,
            transcode_decision_code: None,
            transcode_decision_text: None,
            metadata: vec![metadata],
            transcode_session: Some(PlexTranscodeSession {
                key: Some("sess1".into()),
                video_decision: None,
                audio_decision: None,
                container: None,
                protocol: None,
                throttled: Some(true),
                complete: None,
                duration: None,
                transcode_hw_encoding: None,
            }),
        },
    }
}

#[test]
fn decision_maps_transcode_to_start_url_and_session() {
    let pd = decision_to_playback("http://h:32400", "tok", false, &req(), "sess1", &decision(Some("transcode"), None)).unwrap();
    assert_eq!(pd.kind, PlaybackDecisionKind::Transcode);
    assert_eq!(pd.session.as_deref(), Some("sess1"));
    assert!(pd.url.contains("/transcode/universal/start.m3u8"));
    assert_eq!(pd.video_resolution.as_deref(), Some("720p"));
    assert_eq!(pd.video_bitrate_kbps, Some(1877));
    assert!(pd.throttled);
    assert_eq!(pd.audio_streams.len(), 1);
    assert_eq!(pd.audio_streams[0].id, 3799553);
    assert_eq!(pd.audio_streams[0].label, "English (EAC3 5.1)");
    assert!(pd.subtitle_streams.is_empty());
}

#[test]
fn decision_maps_directplay_to_raw_url() {
    let pd = decision_to_playback("http://h:32400", "tok", false, &req(), "sess1", &decision(Some("directplay"), None)).unwrap();
    assert_eq!(pd.kind, PlaybackDecisionKind::DirectPlay);
    assert_eq!(pd.session, None);
    assert!(pd.url.contains("download=1"));
    assert!(pd.url.contains(&req().part_key));
}

#[test]
fn decision_maps_copy_to_direct_stream() {
    let pd = decision_to_playback("http://h:32400", "tok", false, &req(), "sess1", &decision(Some("copy"), None)).unwrap();
    assert_eq!(pd.kind, PlaybackDecisionKind::DirectStream);
    assert!(pd.url.contains("start.m3u8"));
}

#[test]
fn decision_without_decision_field_is_loud_error() {
    let err = decision_to_playback("http://h:32400", "tok", false, &req(), "s", &decision(None, None)).unwrap_err();
    assert_eq!(err, TranscodeError::NoDecision);
    let err = decision_to_playback("http://h:32400", "tok", false, &req(), "s", &decision(Some("maybe"), Some(1000))).unwrap_err();
    assert_eq!(err, TranscodeError::NoDecision);
}

#[test]
fn missing_part_decision_falls_back_to_general_decision_code() {
    let pd = decision_to_playback("http://h:32400", "tok", false, &req(), "s", &decision(None, Some(1000))).unwrap();
    assert_eq!(pd.kind, PlaybackDecisionKind::DirectPlay);
    assert!(pd.session.is_none());
}

#[test]
fn missing_part_decision_with_conversion_code_is_loud_error() {
    let err = decision_to_playback("http://h:32400", "tok", false, &req(), "s", &decision(None, Some(1001))).unwrap_err();
    assert_eq!(err, TranscodeError::NoDecision);
}
