use reel::jellyfin::convert::{
    base_item_to_media_detail, base_item_to_media_item, media_segments_to_skip_markers,
    resolution_label, user_view_to_section,
};
use reel::jellyfin::models::{
    BaseItemDto, MediaSegmentDto, MediaSourceInfo, PersonDto, Ticks, UserItemData,
};
use reel::media::{LibraryType, MediaType, SourceType};

const SOURCE: &str = "http://jelly.local:8096";

fn test_movie_dto() -> BaseItemDto {
    BaseItemDto {
        id: "abc123".to_string(),
        name: Some("Dune".to_string()),
        type_: Some("Movie".to_string()),
        overview: Some("A noble family.".to_string()),
        production_year: Some(2021),
        premiere_date: Some("2021-10-22T00:00:00.0000000Z".to_string()),
        run_time_ticks: Some(155 * 60 * 10_000_000),
        official_rating: Some("PG-13".to_string()),
        community_rating: Some(800),
        genres: vec!["Science Fiction".to_string(), "Adventure".to_string()],
        people: vec![],
        index_number: None,
        parent_index_number: None,
        series_id: None,
        season_id: None,
        series_name: None,
        parent_id: Some("lib-movies".to_string()),
        image_tags: Some(vec![("Primary".to_string(), "primtag".to_string())]),
        backdrop_image_tags: vec!["backtag".to_string()],
        parent_backdrop_item_id: None,
        parent_backdrop_image_tags: vec![],
        series_primary_image_tag: None,
        user_data: None,
        media_sources: vec![MediaSourceInfo {
            id: Some("src1".to_string()),
            path: Some("/movies/dune.mkv".to_string()),
            container: Some("mkv".to_string()),
            name: None,
        }],
        collection_type: None,
        width: Some(1920),
        height: Some(1080),
    }
}

fn test_episode_dto() -> BaseItemDto {
    BaseItemDto {
        id: "ep1".to_string(),
        name: Some("Pilot".to_string()),
        type_: Some("Episode".to_string()),
        overview: Some("The first episode.".to_string()),
        production_year: None,
        premiere_date: Some("2024-03-01T00:00:00.0000000Z".to_string()),
        run_time_ticks: Some(42 * 60 * 10_000_000),
        official_rating: None,
        community_rating: Some(900),
        genres: vec![],
        people: vec![],
        index_number: Some(1),
        parent_index_number: Some(2),
        series_id: Some("series9".to_string()),
        season_id: Some("season3".to_string()),
        series_name: Some("Some Show".to_string()),
        parent_id: Some("season3".to_string()),
        image_tags: None,
        backdrop_image_tags: vec![],
        parent_backdrop_item_id: Some("series9".to_string()),
        parent_backdrop_image_tags: vec!["parentback".to_string()],
        series_primary_image_tag: Some("seriesprim".to_string()),
        user_data: None,
        media_sources: vec![],
        collection_type: None,
        width: None,
        height: None,
    }
}

fn test_movie_view() -> BaseItemDto {
    let mut dto = BaseItemDto::default();
    dto.id = "lib-movies".to_string();
    dto.name = Some("Movies".to_string());
    dto.collection_type = Some("movies".to_string());
    dto
}

#[test]
fn convert_convert_movie_maps_all_fields() {
    let dto = test_movie_dto();
    let item = base_item_to_media_item(&dto, SOURCE).unwrap();
    assert_eq!(item.media_type, MediaType::Movie);
    assert_eq!(item.title, "Dune");
    assert_eq!(item.year, Some(2021));
    assert_eq!(item.overview, Some("A noble family.".to_string()));
    assert_eq!(item.content_rating, Some("PG-13".to_string()));
    assert_eq!(item.rating, Some(800));
    assert_eq!(item.runtime_minutes, Some(155));
    assert_eq!(item.genres, vec!["Science Fiction", "Adventure"]);
    assert_eq!(item.poster_path, Some("abc123/Primary/primtag".to_string()));
    assert_eq!(item.backdrop_path, Some("abc123/Backdrop/backtag".to_string()));
    assert_eq!(item.video_resolution, Some("1080".to_string()));
    assert_eq!(item.file_path, Some("abc123|src1".to_string()));
    assert_eq!(item.external_id, "abc123");
    assert_eq!(item.source_type, SourceType::Jellyfin);
    assert_eq!(item.source_id, SOURCE);
    assert_eq!(item.library_section_id, Some("lib-movies".to_string()));
    assert_eq!(item.hdr, None);
    assert_eq!(item.series_poster_path, None);
}

#[test]
fn convert_convert_movie_composite_id() {
    let dto = test_movie_dto();
    let item = base_item_to_media_item(&dto, SOURCE).unwrap();
    assert_eq!(item.id, format!("jellyfin:{SOURCE}:abc123"));
}

#[test]
fn convert_movie_no_poster_when_no_primary_tag() {
    let mut dto = test_movie_dto();
    dto.image_tags = None;
    let item = base_item_to_media_item(&dto, SOURCE).unwrap();
    assert_eq!(item.poster_path, None);
}

#[test]
fn convert_movie_poster_found_among_other_tags() {
    let mut dto = test_movie_dto();
    dto.image_tags = Some(vec![
        ("Logo".to_string(), "logotag".to_string()),
        ("Primary".to_string(), "p2".to_string()),
    ]);
    let item = base_item_to_media_item(&dto, SOURCE).unwrap();
    assert_eq!(item.poster_path, Some("abc123/Primary/p2".to_string()));
}

#[test]
fn convert_episode_sets_season_episode_series() {
    let dto = test_episode_dto();
    let item = base_item_to_media_item(&dto, SOURCE).unwrap();
    assert_eq!(item.media_type, MediaType::Episode);
    assert_eq!(item.season_number, Some(2));
    assert_eq!(item.episode_number, Some(1));
    assert_eq!(item.parent_id, Some(format!("jellyfin:{SOURCE}:season3")));
    assert_eq!(item.series_poster_path, Some("series9/Primary/seriesprim".to_string()));
}

#[test]
fn convert_episode_backdrop_falls_back_to_parent() {
    let dto = test_episode_dto();
    let item = base_item_to_media_item(&dto, SOURCE).unwrap();
    assert_eq!(item.backdrop_path, Some("series9/Backdrop/parentback".to_string()));
}

#[test]
fn convert_season_parent_id_from_series() {
    let mut dto = test_episode_dto();
    dto.type_ = Some("Season".to_string());
    dto.index_number = Some(2);
    let item = base_item_to_media_item(&dto, SOURCE).unwrap();
    assert_eq!(item.media_type, MediaType::Season);
    assert_eq!(item.season_number, Some(2));
    assert_eq!(item.episode_number, None);
    assert_eq!(item.parent_id, Some(format!("jellyfin:{SOURCE}:series9")));
}

#[test]
fn convert_populates_watched_from_userdata() {
    let mut dto = test_movie_dto();
    dto.user_data = Some(UserItemData {
        played: true,
        playback_position_ticks: None,
        play_count: Some(2),
        is_favorite: false,
    });
    let item = base_item_to_media_item(&dto, SOURCE).unwrap();
    assert!(item.watched);
}

#[test]
fn convert_populates_resume_position_from_ticks() {
    let mut dto = test_movie_dto();
    dto.user_data = Some(UserItemData {
        played: false,
        playback_position_ticks: Some(1122 * 10_000_000),
        play_count: None,
        is_favorite: false,
    });
    let item = base_item_to_media_item(&dto, SOURCE).unwrap();
    assert_eq!(item.playback_position_ms, Some(1_122_000));
}

#[test]
fn convert_unwatched_has_no_resume() {
    let dto = test_movie_dto();
    let item = base_item_to_media_item(&dto, SOURCE).unwrap();
    assert!(!item.watched);
    assert_eq!(item.playback_position_ms, None);
}

#[test]
fn convert_no_media_sources_falls_back_to_bare_id_for_playable() {
    let mut dto = test_movie_dto();
    dto.media_sources.clear();
    let item = base_item_to_media_item(&dto, SOURCE).unwrap();
    assert_eq!(item.file_path, Some("abc123".to_string()));
}

#[test]
fn convert_no_media_sources_gives_none_file_path_for_non_playable() {
    let mut dto = test_movie_dto();
    dto.type_ = Some("Series".to_string());
    dto.media_sources.clear();
    let item = base_item_to_media_item(&dto, SOURCE).unwrap();
    assert_eq!(item.file_path, None);
}

#[test]
fn convert_no_runtime_gives_none() {
    let mut dto = test_movie_dto();
    dto.run_time_ticks = None;
    let item = base_item_to_media_item(&dto, SOURCE).unwrap();
    assert_eq!(item.runtime_minutes, None);
}

#[test]
fn convert_resolution_label_from_height() {
    let mut dto = test_movie_dto();
    dto.height = Some(2160);
    assert_eq!(base_item_to_media_item(&dto, SOURCE).unwrap().video_resolution, Some("4k".to_string()));
    dto.height = Some(720);
    assert_eq!(base_item_to_media_item(&dto, SOURCE).unwrap().video_resolution, Some("720".to_string()));
    dto.height = Some(480);
    assert_eq!(base_item_to_media_item(&dto, SOURCE).unwrap().video_resolution, Some("sd".to_string()));
    dto.height = None;
    assert_eq!(base_item_to_media_item(&dto, SOURCE).unwrap().video_resolution, None);
}

#[test]
fn resolution_label_boundaries() {
    assert_eq!(resolution_label(Some(2000)), Some("4k".to_string()));
    assert_eq!(resolution_label(Some(1999)), Some("1080".to_string()));
    assert_eq!(resolution_label(Some(1080)), Some("1080".to_string()));
    assert_eq!(resolution_label(Some(1079)), Some("720".to_string()));
    assert_eq!(resolution_label(Some(1)), Some("sd".to_string()));
    assert_eq!(resolution_label(Some(0)), None);
    assert_eq!(resolution_label(Some(-5)), None);
}

#[test]
fn convert_unsupported_type_returns_none() {
    let mut dto = test_movie_dto();
    dto.type_ = Some("Audio".to_string());
    assert!(base_item_to_media_item(&dto, SOURCE).is_none());
}

#[test]
fn convert_box_set_maps_to_collection() {
    let mut dto = test_movie_dto();
    dto.type_ = Some("BoxSet".to_string());
    let item = base_item_to_media_item(&dto, SOURCE).unwrap();
    assert_eq!(item.media_type, MediaType::Collection);
}

#[test]
fn user_view_movies_maps_to_movie_section() {
    let dto = test_movie_view();
    let section = user_view_to_section(&dto).unwrap();
    assert_eq!(section.key, "lib-movies");
    assert_eq!(section.title, "Movies");
    assert_eq!(section.library_type, LibraryType::Movie);
    assert_eq!(section.count, None);
}

#[test]
fn user_view_tvshows_maps_to_show_section() {
    let mut dto = test_movie_view();
    dto.collection_type = Some("tvshows".to_string());
    let section = user_view_to_section(&dto).unwrap();
    assert_eq!(section.library_type, LibraryType::Show);
}

#[test]
fn user_view_music_returns_none() {
    let mut dto = test_movie_view();
    dto.collection_type = Some("music".to_string());
    assert!(user_view_to_section(&dto).is_none());
}

#[test]
fn user_view_no_collection_type_returns_none() {
    let mut dto = test_movie_view();
    dto.collection_type = None;
    assert!(user_view_to_section(&dto).is_none());
}

// Skip markers are in milliseconds.

#[test]
fn media_segments_to_skip_markers_maps_intro_outro() {
    let segments = vec![
        MediaSegmentDto {
            id: Some("s1".to_string()),
            type_: Some("Intro".to_string()),
            start_ticks: Some(10 * 10_000_000),
            end_ticks: Some(95 * 10_000_000),
        },
        MediaSegmentDto {
            id: Some("s2".to_string()),
            type_: Some("Outro".to_string()),
            start_ticks: Some(3000 * 10_000_000),
            end_ticks: Some(3100 * 10_000_000),
        },
    ];
    let markers = media_segments_to_skip_markers(&segments).unwrap();
    assert_eq!(markers.intro_start_ms, 10_000);
    assert_eq!(markers.intro_end_ms, 95_000);
    assert_eq!(markers.credits_start_ms, 3_000_000);
}

#[test]
fn media_segments_empty_returns_none() {
    assert!(media_segments_to_skip_markers(&[]).is_none());
}

#[test]
fn media_segments_intro_only_zeroes_credits() {
    let segments = vec![MediaSegmentDto {
        id: None,
        type_: Some("Intro".to_string()),
        start_ticks: Some(0),
        end_ticks: Some(90 * 10_000_000),
    }];
    let markers = media_segments_to_skip_markers(&segments).unwrap();
    assert_eq!(markers.intro_start_ms, 0);
    assert_eq!(markers.intro_end_ms, 90_000);
    assert_eq!(markers.credits_start_ms, 0);
}

#[test]
fn media_segments_unrelated_types_return_none() {
    let segments = vec![MediaSegmentDto {
        id: None,
        type_: Some("Commercial".to_string()),
        start_ticks: Some(0),
        end_ticks: Some(10 * 10_000_000),
    }];
    assert!(media_segments_to_skip_markers(&segments).is_none());
}

#[test]
fn media_segments_outro_only_zeroes_intro() {
    let segments = vec![MediaSegmentDto {
        id: None,
        type_: Some("Outro".to_string()),
        start_ticks: Some(2_000 * 10_000_000),
        end_ticks: None,
    }];
    let markers = media_segments_to_skip_markers(&segments).unwrap();
    assert_eq!((markers.intro_start_ms, markers.intro_end_ms), (0, 0));
    assert_eq!(markers.credits_start_ms, 2_000_000);
}

#[test]
fn convert_detail_extracts_cast_directors_writers() {
    let mut dto = test_movie_dto();
    dto.people = vec![
        PersonDto { name: "Actor A".to_string(), role: Some("Paul".to_string()), type_: Some("Actor".to_string()) },
        PersonDto { name: "Denis Villeneuve".to_string(), role: None, type_: Some("Director".to_string()) },
        PersonDto { name: "Jon Spaihts".to_string(), role: None, type_: Some("Writer".to_string()) },
    ];
    let detail = base_item_to_media_detail(&dto, SOURCE).unwrap();
    assert_eq!(detail.cast.len(), 1);
    assert_eq!(detail.cast[0].name, "Actor A");
    assert_eq!(detail.cast[0].character, Some("Paul".to_string()));
    assert_eq!(detail.cast[0].photo_path, None);
    assert_eq!(detail.directors, vec!["Denis Villeneuve"]);
    assert_eq!(detail.writers, vec!["Jon Spaihts"]);
}

#[test]
fn convert_detail_untyped_person_counts_as_cast() {
    let mut dto = test_movie_dto();
    dto.people = vec![
        PersonDto { name: "Someone".to_string(), role: None, type_: None },
        PersonDto { name: "Composer".to_string(), role: None, type_: Some("Composer".to_string()) },
    ];
    let detail = base_item_to_media_detail(&dto, SOURCE).unwrap();
    assert_eq!(detail.cast.len(), 1);
    assert_eq!(detail.cast[0].name, "Someone");
    assert!(detail.directors.is_empty() && detail.writers.is_empty());
}

#[test]
fn convert_detail_extracts_technical_from_media_source() {
    let dto = test_movie_dto();
    let detail = base_item_to_media_detail(&dto, SOURCE).unwrap();
    let tech = detail.technical.unwrap();
    assert_eq!(tech.container, Some("mkv".to_string()));
    assert_eq!(tech.video_resolution, Some("1080".to_string()));
    assert_eq!(tech.video_codec, None);
    assert_eq!(tech.audio_channels, None);
}

#[test]
fn convert_detail_no_media_source_gives_none_technical() {
    let mut dto = test_movie_dto();
    dto.media_sources.clear();
    let detail = base_item_to_media_detail(&dto, SOURCE).unwrap();
    assert!(detail.technical.is_none());
}

#[test]
fn convert_detail_empty_collections() {
    let dto = test_movie_dto();
    let detail = base_item_to_media_detail(&dto, SOURCE).unwrap();
    assert!(detail.collections.is_empty());
}

#[test]
fn convert_detail_unsupported_type_returns_none() {
    let mut dto = test_movie_dto();
    dto.type_ = Some("MusicAlbum".to_string());
    assert!(base_item_to_media_detail(&dto, SOURCE).is_none());
}

#[test]
fn convert_convert_detail_preserves_base_item() {
    let dto = test_movie_dto();
    let detail = base_item_to_media_detail(&dto, SOURCE).unwrap();
    assert_eq!(detail.item.title, "Dune");
    assert_eq!(detail.item.media_type, MediaType::Movie);
}

#[test]
fn ticks_to_ms_and_back() {
    assert_eq!(Ticks(10_000_000).to_ms(), 1000);
    assert_eq!(Ticks(-15_000).to_ms(), -1);
    assert_eq!(Ticks(9_999).to_ms(), 0);
    assert_eq!(Ticks::from_ms(1234).0, 12_340_000);
    assert_eq!(Ticks::from_ms(1234).to_ms(), 1234);
}
