use reel::jellyfin::transcode_profile::device_profile;
use reel::playback::{QualityPreset, QualitySelection};
use serde_json::Value;

fn parse(text: &str) -> Value {
    serde_json::from_str(text).expect("the profile is valid JSON")
}

fn conditions_for_property<'a>(profile: &'a Value, property: &str) -> Vec<&'a Value> {
    profile["CodecProfiles"]
        .as_array()
        .unwrap()
        .iter()
        .flat_map(|cp| cp["Conditions"].as_array().unwrap().iter())
        .filter(|c| c["Property"] == property)
        .collect()
}

#[test]
fn original_has_no_resolution_cap_and_no_bitrate() {
    let (text, max) = device_profile(QualitySelection::Manual(QualityPreset::Original), true);
    let profile = parse(&text);
    assert_eq!(max, None);
    assert!(profile["MaxStreamingBitrate"].is_null());
    assert!(conditions_for_property(&profile, "Width").is_empty());
    assert!(conditions_for_property(&profile, "Height").is_empty());
}

#[test]
fn manual_720p_caps_resolution_and_bitrate() {
    let (text, max) = device_profile(QualitySelection::Manual(QualityPreset::P720Mbps4), true);
    let profile = parse(&text);
    assert_eq!(max, Some(4_000_000));
    assert_eq!(profile["MaxStreamingBitrate"], Value::from(4_000_000u64));
    let widths = conditions_for_property(&profile, "Width");
    assert_eq!(widths.len(), 1);
    assert_eq!(widths[0]["Value"], "1280");
    let heights = conditions_for_property(&profile, "Height");
    assert_eq!(heights[0]["Value"], "720");
}

#[test]
fn auto_remote_applies_remote_default() {
    let (_, max) = device_profile(QualitySelection::Auto, true);
    assert_eq!(max, Some(8_000_000));
}

#[test]
fn auto_local_is_uncapped() {
    let (text, max) = device_profile(QualitySelection::Auto, false);
    let profile = parse(&text);
    assert_eq!(max, None);
    assert!(conditions_for_property(&profile, "Width").is_empty());
}

#[test]
fn profile_has_all_required_sections() {
    let (text, _) = device_profile(QualitySelection::Auto, false);
    let profile = parse(&text);
    assert!(profile["DirectPlayProfiles"].is_array());
    assert!(profile["TranscodingProfiles"].is_array());
    assert!(profile["CodecProfiles"].is_array());
    assert!(profile["SubtitleProfiles"].is_array());
    let bitdepth = conditions_for_property(&profile, "VideoBitDepth");
    assert_eq!(bitdepth.len(), 1);
    assert_eq!(bitdepth[0]["Value"], "8");
}

#[test]
fn low_rung_caps_to_480p() {
    let (text, max) = device_profile(QualitySelection::Manual(QualityPreset::P480Kbps720), false);
    let profile = parse(&text);
    assert_eq!(max, Some(720_000));
    assert_eq!(conditions_for_property(&profile, "Width")[0]["Value"], "720");
    assert_eq!(conditions_for_property(&profile, "Height")[0]["Value"], "480");
    assert_eq!(profile["SubtitleProfiles"].as_array().unwrap().len(), 8);
}
