use reel::plex::transcode_profile::client_profile_extra;

#[test]
fn includes_direct_play_entry_for_known_supported_combo() {
    let extra = client_profile_extra(false, false);
    assert!(extra.contains(
        "add-direct-play-profile(type=videoProfile&container=matroska&videoCodec=h264,hevc&audioCodec=aac,mp3,ac3,eac3,flac,opus,dts,pcm)"
    ));
}

#[test]
fn declares_hls_h264_transcode_target() {
    let extra = client_profile_extra(false, false);
    assert!(extra.contains(
        "add-transcode-target(type=videoProfile&context=streaming&protocol=hls&container=mpegts&videoCodec=h264&audioCodec=aac,mp3,ac3,eac3)"
    ));
}

#[test]
fn encodes_h264_level_limitation() {
    let extra = client_profile_extra(false, false);
    assert!(extra.contains(
        "add-limitation(scope=videoCodec&scopeName=h264&type=upperBound&name=video.level&value=52)"
    ));
}

#[test]
fn incapable_keeps_bitdepth_8_ceiling() {
    let extra = client_profile_extra(false, false);
    assert!(extra.contains(
        "add-limitation(scope=videoCodec&scopeName=hevc&type=upperBound&name=video.bitDepth&value=8)"
    ));
    assert!(!extra.contains("dvhe"));
    assert!(!extra.contains("dvh1"));
    assert!(!extra.contains("dolbyvision"));
}

#[test]
fn capable_raises_bitdepth_ceiling_to_10() {
    let extra = client_profile_extra(true, false);
    assert!(extra.contains(
        "add-limitation(scope=videoCodec&scopeName=hevc&type=upperBound&name=video.bitDepth&value=10)"
    ));
    assert!(
        !extra.contains("name=video.bitDepth&value=8)"),
        "the 8-bit ceiling must be lifted when capable"
    );
}

#[test]
fn capable_still_excludes_hdr_via_colortrc() {
    let extra = client_profile_extra(true, false);
    assert!(extra.contains(
        "add-limitation(scope=videoCodec&scopeName=hevc&type=notMatch&name=video.colorTrc&list=smpte2084,arib-std-b67)"
    ));
    assert!(!extra.contains("dvhe"));
    assert!(!extra.contains("dolbyvision"));
}

#[test]
fn directives_are_plus_joined_without_trailing_separator() {
    let extra = client_profile_extra(false, false);
    assert!(!extra.is_empty());
    assert!(!extra.starts_with('+'));
    assert!(!extra.ends_with('+'));
    assert!(!extra.contains("++"));
    let count = extra.matches("add-direct-play-profile").count()
        + extra.matches("add-transcode-target").count()
        + extra.matches("add-limitation").count();
    assert_eq!(count, extra.split('+').count());
}

#[test]
fn every_directive_has_balanced_parentheses() {
    for extra in [client_profile_extra(false, false), client_profile_extra(true, false)] {
        let opens = extra.matches('(').count();
        let closes = extra.matches(')').count();
        assert_eq!(opens, closes);
        for directive in extra.split('+') {
            assert!(directive.ends_with(')'), "directive not closed: {directive}");
            assert!(
                directive.starts_with("add-direct-play-profile(")
                    || directive.starts_with("add-transcode-target(")
                    || directive.starts_with("add-limitation("),
                "unexpected directive: {directive}"
            );
        }
    }
}

#[test]
fn hdr_capable_omits_colortrc_limitation() {
    let extra = client_profile_extra(true, true);
    assert!(extra.contains(
        "add-limitation(scope=videoCodec&scopeName=hevc&type=upperBound&name=video.bitDepth&value=10)"
    ));
    assert!(!extra.contains("name=video.colorTrc"), "colorTrc restriction must be omitted when HDR capable");
}

#[test]
fn directive_counts_per_capability() {
    assert_eq!(client_profile_extra(false, false).split('+').count(), 7);
    assert_eq!(client_profile_extra(true, false).split('+').count(), 8);
    assert_eq!(client_profile_extra(true, true).split('+').count(), 7);
    assert_eq!(client_profile_extra(false, true), client_profile_extra(false, false));
}
