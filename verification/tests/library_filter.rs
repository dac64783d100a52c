use reel::library_filter::{
    apply_filters_and_sort, derived_watch_status, extract_content_ratings, extract_genres,
    extract_resolution_buckets, filter_matches, pill_labels, reconcile, search_matches,
    sort_compare, ContentRatingFilter, FilterState, FilterTag, GenreFilter, GridDensity,
    HdrSelection, RatingFilter, ResolutionBucket, ResolutionFilter, RuntimeRangeFilter,
    SortOrder, ViewMode, WatchEntry, WatchStatus, WatchStatusFilter, YearRangeFilter,
};
use reel::media::{HdrFormat, MediaItem, MediaType, SourceType};
use std::cmp::Ordering;

fn movie(title: &str) -> MediaItem {
    MediaItem {
        id: format!("plex:test:{title}"),
        source_type: SourceType::Plex,
        source_id: "http://localhost:32400".to_string(),
        external_id: title.to_string(),
        media_type: MediaType::Movie,
        title: title.to_string(),
        year: Some(2021),
        overview: None,
        content_rating: None,
        rating: Some(750),
        runtime_minutes: Some(120),
        poster_path: None,
        series_poster_path: None,
        backdrop_path: None,
        genres: vec!["Action".to_string(), "Sci-Fi".to_string()],
        parent_id: None,
        season_number: None,
        episode_number: None,
        air_date: None,
        file_path: None,
        video_resolution: None,
        hdr: None,
        added_at: "1700000000".to_string(),
        updated_at: "1700000000".to_string(),
        playback_position_ms: None,
        watched: false,
        library_section_id: None,
    }
}

/// `rating` in hundredths of a point.
fn movie_with(title: &str, year: Option<i32>, rating: Option<i64>, genres: Vec<&str>) -> MediaItem {
    let mut m = movie(title);
    m.year = year;
    m.rating = rating;
    m.genres = genres.into_iter().map(String::from).collect();
    m
}

const ANY: WatchStatus = WatchStatus::Unwatched;

fn no_watch() -> Vec<WatchEntry> {
    Vec::new()
}

fn empty_filter() -> FilterState {
    FilterState::default()
}

// === Search ===

#[test]
fn search_empty_query_matches_all() {
    let item = movie("Dune");
    assert!(search_matches(&item, ""));
    assert!(search_matches(&item, "  "));
}

#[test]
fn search_partial_title_matches() {
    let item = movie("Interstellar");
    assert!(search_matches(&item, "stell"));
}

#[test]
fn search_case_insensitive() {
    let item = movie("Dune");
    assert!(search_matches(&item, "dune"));
    assert!(search_matches(&item, "DUNE"));
}

#[test]
fn search_no_match_returns_false() {
    let item = movie("Dune");
    assert!(!search_matches(&item, "Avatar"));
}

#[test]
fn search_trims_surrounding_whitespace() {
    let item = movie("Interstellar");
    assert!(search_matches(&item, "  stell  "));
}

// === Genre filter ===

fn genre_filter(genres: &[&str]) -> FilterState {
    let mut f = empty_filter();
    f.genres = Some(GenreFilter {
        selected_genres: genres.iter().map(|s| s.to_string()).collect(),
    });
    f
}

#[test]
fn genre_filter_single_genre_matches() {
    let item = movie_with("Dune", Some(2021), None, vec!["Action", "Sci-Fi"]);
    assert!(filter_matches(&item, &genre_filter(&["Action"]), ANY));
}

#[test]
fn genre_filter_single_genre_no_match() {
    let item = movie_with("Dune", Some(2021), None, vec!["Action", "Sci-Fi"]);
    assert!(!filter_matches(&item, &genre_filter(&["Comedy"]), ANY));
}

#[test]
fn genre_filter_multi_genre_or_semantics() {
    let item = movie_with("Dune", Some(2021), None, vec!["Action"]);
    assert!(filter_matches(&item, &genre_filter(&["Comedy", "Action"]), ANY));
}

#[test]
fn genre_filter_empty_selection_matches_all() {
    let item = movie_with("Dune", Some(2021), None, vec!["Action"]);
    assert!(filter_matches(&item, &genre_filter(&[]), ANY));
}

#[test]
fn genre_filter_item_with_no_genres_never_matches() {
    let item = movie_with("Unknown", Some(2021), None, vec![]);
    assert!(!filter_matches(&item, &genre_filter(&["Action"]), ANY));
}

// === Year range ===

fn year_filter(from: Option<i32>, to: Option<i32>) -> FilterState {
    let mut f = empty_filter();
    f.year_range = Some(YearRangeFilter { from, to });
    f
}

#[test]
fn year_range_both_bounds_matches_inside() {
    let item = movie_with("M", Some(2005), None, vec![]);
    assert!(filter_matches(&item, &year_filter(Some(2000), Some(2009)), ANY));
}

#[test]
fn year_range_lower_only_matches_at_or_above() {
    let item = movie_with("M", Some(1995), None, vec![]);
    assert!(filter_matches(&item, &year_filter(Some(1990), None), ANY));
    let older = movie_with("Old", Some(1985), None, vec![]);
    assert!(!filter_matches(&older, &year_filter(Some(1990), None), ANY));
}

#[test]
fn year_range_upper_only_matches_at_or_below() {
    let item = movie_with("M", Some(1999), None, vec![]);
    assert!(filter_matches(&item, &year_filter(None, Some(2000)), ANY));
    let newer = movie_with("New", Some(2010), None, vec![]);
    assert!(!filter_matches(&newer, &year_filter(None, Some(2000)), ANY));
}

#[test]
fn year_range_item_with_no_year_excluded_when_any_bound_set() {
    let item = movie_with("NoYear", None, None, vec![]);
    assert!(!filter_matches(&item, &year_filter(Some(1990), None), ANY));
}

#[test]
fn year_range_no_bounds_matches_all() {
    let item = movie_with("NoYear", None, None, vec![]);
    assert!(filter_matches(&item, &year_filter(None, None), ANY));
}

#[test]
fn year_range_boundary_inclusive_both_ends() {
    let start = movie_with("Start", Some(2000), None, vec![]);
    let end = movie_with("End", Some(2009), None, vec![]);
    let f = year_filter(Some(2000), Some(2009));
    assert!(filter_matches(&start, &f, ANY));
    assert!(filter_matches(&end, &f, ANY));
}

// === Watch status ===

fn watch_filter(status: WatchStatus) -> FilterState {
    let mut f = empty_filter();
    f.watch_status = Some(WatchStatusFilter { status });
    f
}

#[test]
fn derived_watch_status_rules() {
    assert_eq!(derived_watch_status(0, false), WatchStatus::Unwatched);
    assert_eq!(derived_watch_status(500_000, false), WatchStatus::InProgress);
    assert_eq!(derived_watch_status(0, true), WatchStatus::Watched);
    assert_eq!(derived_watch_status(500_000, true), WatchStatus::Watched);
}

#[test]
fn watch_status_unwatched_matches_unwatched_item() {
    let item = movie("Dune");
    assert!(filter_matches(&item, &watch_filter(WatchStatus::Unwatched), WatchStatus::Unwatched));
}

#[test]
fn watch_status_in_progress_excludes_watched() {
    let item = movie("Dune");
    assert!(!filter_matches(&item, &watch_filter(WatchStatus::InProgress), WatchStatus::Watched));
}

#[test]
fn watch_status_unwatched_excludes_in_progress() {
    let item = movie("Dune");
    assert!(!filter_matches(&item, &watch_filter(WatchStatus::Unwatched), WatchStatus::InProgress));
}

// === Rating (hundredths of a point) ===

fn rating_filter(min: i64) -> FilterState {
    let mut f = empty_filter();
    f.rating_min = Some(RatingFilter { min });
    f
}

#[test]
fn rating_min_matches_at_or_above_threshold() {
    let item = movie_with("M", Some(2020), Some(700), vec![]);
    assert!(filter_matches(&item, &rating_filter(700), ANY));
}

#[test]
fn rating_min_excludes_below_threshold() {
    let item = movie_with("M", Some(2020), Some(690), vec![]);
    assert!(!filter_matches(&item, &rating_filter(700), ANY));
}

#[test]
fn rating_min_excludes_item_with_no_rating() {
    let item = movie_with("M", Some(2020), None, vec![]);
    assert!(!filter_matches(&item, &rating_filter(700), ANY));
}

// === Runtime range ===

fn runtime_filter(from: Option<i32>, to: Option<i32>) -> FilterState {
    let mut f = empty_filter();
    f.runtime_range = Some(RuntimeRangeFilter { from, to });
    f
}

#[test]
fn runtime_range_inside_matches() {
    let item = movie("M");
    assert!(filter_matches(&item, &runtime_filter(Some(90), Some(130)), ANY));
}

#[test]
fn runtime_range_only_max_matches_at_or_below() {
    let mut item = movie("M");
    item.runtime_minutes = Some(95);
    assert!(filter_matches(&item, &runtime_filter(None, Some(100)), ANY));
    item.runtime_minutes = Some(140);
    assert!(!filter_matches(&item, &runtime_filter(None, Some(100)), ANY));
}

#[test]
fn runtime_range_only_min_matches_at_or_above() {
    let mut item = movie("M");
    item.runtime_minutes = Some(200);
    assert!(filter_matches(&item, &runtime_filter(Some(180), None), ANY));
}

#[test]
fn runtime_range_no_runtime_excluded_when_any_bound_set() {
    let mut item = movie("M");
    item.runtime_minutes = None;
    assert!(!filter_matches(&item, &runtime_filter(None, Some(100)), ANY));
}

// === Content rating ===

fn cr_filter(ratings: &[&str]) -> FilterState {
    let mut f = empty_filter();
    f.content_ratings = Some(ContentRatingFilter {
        selected: ratings.iter().map(|s| s.to_string()).collect(),
    });
    f
}

#[test]
fn content_rating_single_selected_matches() {
    let mut item = movie("M");
    item.content_rating = Some("PG-13".to_string());
    assert!(filter_matches(&item, &cr_filter(&["PG-13"]), ANY));
}

#[test]
fn content_rating_multi_selected_or_semantics() {
    let mut item = movie("M");
    item.content_rating = Some("R".to_string());
    assert!(filter_matches(&item, &cr_filter(&["PG-13", "R"]), ANY));
}

#[test]
fn content_rating_empty_selection_matches_all() {
    let item = movie("M");
    assert!(filter_matches(&item, &cr_filter(&[]), ANY));
}

#[test]
fn content_rating_item_with_no_rating_excluded_when_set() {
    let item = movie("M");
    assert!(!filter_matches(&item, &cr_filter(&["PG-13"]), ANY));
}

// === Resolution and HDR ===

fn res_filter(buckets: Vec<ResolutionBucket>, hdr: Option<HdrSelection>) -> FilterState {
    let mut f = empty_filter();
    f.resolutions = Some(ResolutionFilter { buckets, hdr });
    f
}

#[test]
fn resolution_bucket_from_resolution_mapping() {
    assert_eq!(ResolutionBucket::from_resolution("4k"), Some(ResolutionBucket::R4k));
    assert_eq!(ResolutionBucket::from_resolution("1080"), Some(ResolutionBucket::R1080p));
    assert_eq!(ResolutionBucket::from_resolution("720"), Some(ResolutionBucket::R720p));
    assert_eq!(ResolutionBucket::from_resolution("480"), Some(ResolutionBucket::Sd));
}

#[test]
fn resolution_bucket_unknown_value_has_no_bucket() {
    assert_eq!(ResolutionBucket::from_resolution("2160p-ish"), None);
    assert_eq!(ResolutionBucket::from_resolution(""), None);
}

#[test]
fn resolution_4k_matches_only_4k_items() {
    let mut item = movie("M");
    item.video_resolution = Some("4k".to_string());
    assert!(filter_matches(&item, &res_filter(vec![ResolutionBucket::R4k], None), ANY));
    item.video_resolution = Some("1080".to_string());
    assert!(!filter_matches(&item, &res_filter(vec![ResolutionBucket::R4k], None), ANY));
}

#[test]
fn resolution_multi_bucket_or_semantics() {
    let mut item = movie("M");
    item.video_resolution = Some("1080".to_string());
    let f = res_filter(vec![ResolutionBucket::R4k, ResolutionBucket::R1080p], None);
    assert!(filter_matches(&item, &f, ANY));
}

#[test]
fn resolution_item_with_no_resolution_excluded_when_bucket_set() {
    let item = movie("M");
    assert!(!filter_matches(&item, &res_filter(vec![ResolutionBucket::R4k], None), ANY));
}

#[test]
fn hdr_any_matches_hdr_and_dolby_vision() {
    let mut item = movie("M");
    item.hdr = Some(HdrFormat::Hdr);
    assert!(filter_matches(&item, &res_filter(vec![], Some(HdrSelection::AnyHdr)), ANY));
    item.hdr = Some(HdrFormat::DolbyVision);
    assert!(filter_matches(&item, &res_filter(vec![], Some(HdrSelection::AnyHdr)), ANY));
    item.hdr = None;
    assert!(!filter_matches(&item, &res_filter(vec![], Some(HdrSelection::AnyHdr)), ANY));
}

#[test]
fn hdr_sdr_only_matches_items_with_no_hdr() {
    let mut item = movie("M");
    item.hdr = None;
    assert!(filter_matches(&item, &res_filter(vec![], Some(HdrSelection::SdrOnly)), ANY));
    item.hdr = Some(HdrFormat::Hdr);
    assert!(!filter_matches(&item, &res_filter(vec![], Some(HdrSelection::SdrOnly)), ANY));
}

#[test]
fn resolution_and_hdr_combine_with_and() {
    let mut item = movie("M");
    item.video_resolution = Some("4k".to_string());
    item.hdr = Some(HdrFormat::Hdr);
    let f = res_filter(vec![ResolutionBucket::R4k], Some(HdrSelection::AnyHdr));
    assert!(filter_matches(&item, &f, ANY));
    item.hdr = None;
    assert!(!filter_matches(&item, &f, ANY));
}

// === Combined ===

#[test]
fn all_filters_active_and_combined() {
    let mut item = movie_with("Dune", Some(2021), Some(800), vec!["Sci-Fi"]);
    item.content_rating = Some("PG-13".to_string());
    item.video_resolution = Some("4k".to_string());
    item.hdr = Some(HdrFormat::Hdr);
    item.runtime_minutes = Some(155);
    let filter = FilterState {
        genres: Some(GenreFilter { selected_genres: vec!["Sci-Fi".to_string()] }),
        year_range: Some(YearRangeFilter { from: Some(2020), to: None }),
        watch_status: Some(WatchStatusFilter { status: WatchStatus::Unwatched }),
        rating_min: Some(RatingFilter { min: 700 }),
        runtime_range: Some(RuntimeRangeFilter { from: Some(120), to: Some(180) }),
        content_ratings: Some(ContentRatingFilter { selected: vec!["PG-13".to_string()] }),
        resolutions: Some(ResolutionFilter {
            buckets: vec![ResolutionBucket::R4k],
            hdr: Some(HdrSelection::AnyHdr),
        }),
    };
    assert!(filter_matches(&item, &filter, WatchStatus::Unwatched));
    let mut older = item.clone();
    older.year = Some(2010);
    assert!(!filter_matches(&older, &filter, WatchStatus::Unwatched));
}

#[test]
fn no_filters_active_matches_all() {
    let item = movie("Dune");
    assert!(filter_matches(&item, &FilterState::default(), ANY));
}

// === Sort ===

#[test]
fn sort_title_asc_alphabetical() {
    let a = movie("Arrival");
    let b = movie("Dune");
    assert_eq!(sort_compare(&a, &b, SortOrder::TitleAsc), Ordering::Less);
}

#[test]
fn sort_year_newest_first() {
    let a = movie_with("Old", Some(2010), None, vec![]);
    let b = movie_with("New", Some(2024), None, vec![]);
    assert_eq!(sort_compare(&a, &b, SortOrder::YearNewest), Ordering::Greater);
}

#[test]
fn sort_rating_none_sorts_last() {
    let with_rating = movie_with("Rated", Some(2020), Some(700), vec![]);
    let no_rating = movie_with("Unrated", Some(2020), None, vec![]);
    assert_eq!(sort_compare(&with_rating, &no_rating, SortOrder::RatingHighest), Ordering::Less);
}

#[test]
fn sort_stable_tiebreak_by_title() {
    let a = movie_with("Arrival", Some(2020), Some(800), vec![]);
    let b = movie_with("Dune", Some(2020), Some(800), vec![]);
    assert_eq!(sort_compare(&a, &b, SortOrder::YearNewest), Ordering::Less);
    assert_eq!(sort_compare(&a, &b, SortOrder::RatingHighest), Ordering::Less);
}

#[test]
fn sort_compare_is_antisymmetric_on_examples() {
    let a = movie_with("Arrival", Some(2016), Some(790), vec![]);
    let b = movie_with("Dune", Some(2021), Some(800), vec![]);
    for order in SortOrder::all() {
        let ab = sort_compare(&a, &b, order);
        let ba = sort_compare(&b, &a, order);
        assert_eq!(ab, ba.reverse());
    }
}

// === apply_filters_and_sort ===

fn sample_library() -> Vec<MediaItem> {
    vec![
        movie_with("Dune", Some(2021), Some(800), vec!["Sci-Fi", "Adventure"]),
        movie_with("Arrival", Some(2016), Some(790), vec!["Sci-Fi", "Drama"]),
        movie_with("The Hangover", Some(2009), Some(770), vec!["Comedy"]),
        movie_with("Zoolander", Some(2001), Some(650), vec!["Comedy"]),
        movie_with("Interstellar", Some(2014), Some(870), vec!["Sci-Fi", "Drama"]),
    ]
}

fn titles(items: &[MediaItem], indices: &[usize]) -> Vec<String> {
    indices.iter().map(|&i| items[i].title.clone()).collect()
}

#[test]
fn apply_search_and_genre_filter_combined() {
    let items = sample_library();
    let filter = genre_filter(&["Sci-Fi"]);
    let indices = apply_filters_and_sort(&items, "ar", &filter, SortOrder::TitleAsc, &no_watch());
    assert_eq!(titles(&items, &indices), vec!["Arrival", "Interstellar"]);
}

#[test]
fn apply_search_genre_year_combined() {
    let items = sample_library();
    let mut filter = genre_filter(&["Sci-Fi"]);
    filter.year_range = Some(YearRangeFilter { from: Some(2010), to: Some(2019) });
    let indices = apply_filters_and_sort(&items, "i", &filter, SortOrder::TitleAsc, &no_watch());
    assert_eq!(titles(&items, &indices), vec!["Arrival", "Interstellar"]);
}

#[test]
fn apply_watch_status_uses_watch_data() {
    let items = sample_library();
    let watch = vec![
        WatchEntry { id: items[0].id.clone(), progress_millionths: 0, watched: true },
        WatchEntry { id: items[1].id.clone(), progress_millionths: 400_000, watched: false },
    ];
    let filter = watch_filter(WatchStatus::Unwatched);
    let indices = apply_filters_and_sort(&items, "", &filter, SortOrder::TitleAsc, &watch);
    assert_eq!(titles(&items, &indices), vec!["Interstellar", "The Hangover", "Zoolander"]);
}

#[test]
fn apply_empty_items_returns_empty() {
    let items: Vec<MediaItem> = vec![];
    let indices = apply_filters_and_sort(&items, "", &FilterState::default(), SortOrder::TitleAsc, &no_watch());
    assert!(indices.is_empty());
}

#[test]
fn apply_sort_order_respected() {
    let items = sample_library();
    let indices = apply_filters_and_sort(&items, "", &FilterState::default(), SortOrder::YearNewest, &no_watch());
    assert_eq!(
        titles(&items, &indices),
        vec!["Dune", "Arrival", "Interstellar", "The Hangover", "Zoolander"]
    );
}

#[test]
fn apply_rating_highest_keeps_unrated_last() {
    let mut items = sample_library();
    items[3].rating = None;
    let indices = apply_filters_and_sort(&items, "", &FilterState::default(), SortOrder::RatingHighest, &no_watch());
    assert_eq!(
        titles(&items, &indices),
        vec!["Interstellar", "Dune", "Arrival", "The Hangover", "Zoolander"]
    );
}

// === extract helpers ===

#[test]
fn extract_genres_unique_sorted() {
    let items = sample_library();
    assert_eq!(extract_genres(&items), vec!["Adventure", "Comedy", "Drama", "Sci-Fi"]);
}

#[test]
fn extract_content_ratings_unique_sorted() {
    let mut items = sample_library();
    items[0].content_rating = Some("PG-13".to_string());
    items[1].content_rating = Some("R".to_string());
    items[2].content_rating = Some("PG-13".to_string());
    assert_eq!(extract_content_ratings(&items), vec!["PG-13", "R"]);
}

#[test]
fn extract_content_ratings_empty_when_none_present() {
    let items = sample_library();
    assert!(extract_content_ratings(&items).is_empty());
}

#[test]
fn extract_resolution_buckets_in_canonical_order() {
    let mut items = sample_library();
    items[0].video_resolution = Some("4k".to_string());
    items[1].video_resolution = Some("480".to_string());
    items[2].video_resolution = Some("1080".to_string());
    assert_eq!(
        extract_resolution_buckets(&items),
        vec![ResolutionBucket::Sd, ResolutionBucket::R1080p, ResolutionBucket::R4k]
    );
}

// === pill_labels ===

#[test]
fn pill_for_unset_range_bound_not_emitted() {
    let filter = FilterState::default();
    assert!(pill_labels(&filter).is_empty());
}

#[test]
fn pill_for_year_lower_bound_only_renders_geq() {
    let filter = year_filter(Some(1990), None);
    let pills = pill_labels(&filter);
    assert_eq!(pills.len(), 1);
    assert_eq!(pills[0].0, FilterTag::YearRange);
    assert_eq!(pills[0].1, "Year \u{2265}1990");
}

#[test]
fn pill_for_year_upper_bound_only_renders_leq() {
    let pills = pill_labels(&year_filter(None, Some(2009)));
    assert_eq!(pills[0].1, "Year \u{2264}2009");
}

#[test]
fn pill_for_year_both_bounds_renders_range() {
    let pills = pill_labels(&year_filter(Some(1990), Some(2009)));
    assert_eq!(pills[0].1, "Year 1990\u{2013}2009");
}

#[test]
fn pill_for_each_genre_individually() {
    let filter = genre_filter(&["Sci-Fi", "Drama"]);
    let pills = pill_labels(&filter);
    assert_eq!(pills.len(), 2);
    assert_eq!(pills[0], (FilterTag::Genre("Sci-Fi".to_string()), "Genre: Sci-Fi".to_string()));
    assert_eq!(pills[1], (FilterTag::Genre("Drama".to_string()), "Genre: Drama".to_string()));
}

#[test]
fn pill_for_rating_and_runtime() {
    let mut filter = empty_filter();
    filter.rating_min = Some(RatingFilter { min: 700 });
    filter.runtime_range = Some(RuntimeRangeFilter { from: None, to: Some(99) });
    let pills = pill_labels(&filter);
    assert!(pills.contains(&(FilterTag::Rating, "Rating \u{2265}7.0".to_string())));
    assert!(pills.contains(&(FilterTag::Runtime, "Runtime <100 min".to_string())));
}

#[test]
fn pill_for_resolution_and_hdr() {
    let filter = res_filter(vec![ResolutionBucket::R4k], Some(HdrSelection::AnyHdr));
    let pills = pill_labels(&filter);
    assert!(pills.contains(&(FilterTag::Resolution(ResolutionBucket::R4k), "4K".to_string())));
    assert!(pills.contains(&(FilterTag::Hdr, "HDR".to_string())));
}

#[test]
fn pill_for_watch_status() {
    let pills = pill_labels(&watch_filter(WatchStatus::Watched));
    assert_eq!(pills[0], (FilterTag::WatchStatus, "Watched".to_string()));
}

// === FilterState::remove ===

#[test]
fn remove_single_genre_keeps_others() {
    let mut filter = genre_filter(&["Sci-Fi", "Drama"]);
    filter.remove(&FilterTag::Genre("Sci-Fi".to_string()));
    assert_eq!(filter.genres.as_ref().unwrap().selected_genres, vec!["Drama".to_string()]);
}

#[test]
fn remove_last_genre_clears_filter() {
    let mut filter = genre_filter(&["Sci-Fi"]);
    filter.remove(&FilterTag::Genre("Sci-Fi".to_string()));
    assert!(filter.genres.is_none());
}

#[test]
fn remove_hdr_keeps_resolution_buckets() {
    let mut filter = res_filter(vec![ResolutionBucket::R4k], Some(HdrSelection::AnyHdr));
    filter.remove(&FilterTag::Hdr);
    let res = filter.resolutions.as_ref().unwrap();
    assert_eq!(res.buckets, vec![ResolutionBucket::R4k]);
    assert!(res.hdr.is_none());
}

#[test]
fn remove_last_resolution_bucket_with_no_hdr_clears_filter() {
    let mut filter = res_filter(vec![ResolutionBucket::R4k], None);
    filter.remove(&FilterTag::Resolution(ResolutionBucket::R4k));
    assert!(filter.resolutions.is_none());
}

// === reconcile ===

#[test]
fn reconcile_drops_genre_not_in_items() {
    let items = sample_library();
    let filter = genre_filter(&["Sci-Fi", "Western"]);
    let out = reconcile(&filter, &items);
    assert_eq!(out.genres.as_ref().unwrap().selected_genres, vec!["Sci-Fi".to_string()]);
}

#[test]
fn reconcile_drops_genre_filter_entirely_when_none_present() {
    let items = sample_library();
    let filter = genre_filter(&["Western"]);
    let out = reconcile(&filter, &items);
    assert!(out.genres.is_none());
}

#[test]
fn reconcile_drops_content_rating_not_present() {
    let mut items = sample_library();
    items[0].content_rating = Some("PG-13".to_string());
    let filter = cr_filter(&["PG-13", "NC-17"]);
    let out = reconcile(&filter, &items);
    assert_eq!(out.content_ratings.as_ref().unwrap().selected, vec!["PG-13".to_string()]);
}

#[test]
fn reconcile_drops_resolution_bucket_not_present() {
    let mut items = sample_library();
    items[0].video_resolution = Some("1080".to_string());
    let filter = res_filter(vec![ResolutionBucket::R4k, ResolutionBucket::R1080p], None);
    let out = reconcile(&filter, &items);
    assert_eq!(out.resolutions.as_ref().unwrap().buckets, vec![ResolutionBucket::R1080p]);
}

#[test]
fn reconcile_keeps_numeric_ranges_and_watch_status() {
    let items = sample_library();
    let mut filter = empty_filter();
    filter.year_range = Some(YearRangeFilter { from: Some(2000), to: None });
    filter.watch_status = Some(WatchStatusFilter { status: WatchStatus::Unwatched });
    filter.rating_min = Some(RatingFilter { min: 700 });
    let out = reconcile(&filter, &items);
    assert!(out.year_range.is_some());
    assert!(out.watch_status.is_some());
    assert!(out.rating_min.is_some());
}

// === FilterState misc ===

#[test]
fn filter_state_default_not_active() {
    assert!(!FilterState::default().is_active());
}

#[test]
fn filter_state_each_filter_marks_active() {
    assert!(genre_filter(&["A"]).is_active());
    assert!(year_filter(Some(2000), None).is_active());
    assert!(watch_filter(WatchStatus::Watched).is_active());
    assert!(rating_filter(700).is_active());
    assert!(runtime_filter(Some(90), None).is_active());
    assert!(cr_filter(&["R"]).is_active());
    assert!(res_filter(vec![ResolutionBucket::R4k], None).is_active());
}

#[test]
fn filter_state_clear_resets() {
    let mut filter = genre_filter(&["Action"]);
    filter.year_range = Some(YearRangeFilter { from: Some(2000), to: None });
    filter.clear();
    assert!(!filter.is_active());
}

// === SortOrder and view settings ===

#[test]
fn sort_order_all_returns_seven() {
    assert_eq!(SortOrder::all().len(), 7);
}

#[test]
fn sort_order_default_is_title_asc() {
    assert_eq!(SortOrder::default(), SortOrder::TitleAsc);
}

#[test]
fn view_mode_and_density_round_trip_through_their_names() {
    for mode in [ViewMode::Grid, ViewMode::List] {
        assert_eq!(ViewMode::from_str(mode.as_str()), mode);
    }
    for d in GridDensity::all() {
        assert_eq!(GridDensity::from_str(d.as_str()), d);
    }
}

#[test]
fn removing_a_tag_drops_exactly_its_pills() {
    let mut filter = genre_filter(&["Sci-Fi", "Drama"]);
    filter.year_range = Some(YearRangeFilter { from: Some(1990), to: None });
    filter.watch_status = Some(WatchStatusFilter { status: WatchStatus::Watched });
    let before = pill_labels(&filter);
    for tag in [FilterTag::Genre("Sci-Fi".to_string()), FilterTag::YearRange, FilterTag::WatchStatus] {
        let mut f = filter.clone();
        f.remove(&tag);
        let expected: Vec<&(FilterTag, String)> = before.iter().filter(|(t, _)| t != &tag).collect();
        let after = pill_labels(&f);
        assert_eq!(after.iter().collect::<Vec<_>>(), expected);
    }
}

#[test]
fn reconciling_twice_changes_nothing_more() {
    let items = sample_library();
    let mut filter = genre_filter(&["Sci-Fi", "Western"]);
    filter.year_range = Some(YearRangeFilter { from: Some(2000), to: Some(2020) });
    let once = reconcile(&filter, &items);
    let twice = reconcile(&once, &items);
    assert_eq!(once, twice);
    assert_eq!(once.year_range, filter.year_range);
}

fn rating_pill(hundredths: i64) -> String {
    let mut filter = empty_filter();
    filter.rating_min = Some(RatingFilter { min: hundredths });
    let pills = pill_labels(&filter);
    assert_eq!(pills.len(), 1);
    assert_eq!(pills[0].0, FilterTag::Rating);
    pills[0].1.clone()
}

#[test]
fn rating_pill_rounds_like_binary64_formatting() {
    assert_eq!(rating_pill(725), "Rating \u{2265}7.2");
    assert_eq!(rating_pill(775), "Rating \u{2265}7.8");
    assert_eq!(rating_pill(735), "Rating \u{2265}7.3");
    assert_eq!(rating_pill(745), "Rating \u{2265}7.5");
    assert_eq!(rating_pill(5), "Rating \u{2265}0.1");
    assert_eq!(rating_pill(15), "Rating \u{2265}0.1");
    assert_eq!(rating_pill(0), "Rating \u{2265}0.0");
    assert_eq!(rating_pill(-1), "Rating \u{2265}-0.0");
}

#[test]
fn rating_pill_agrees_with_float_formatting() {
    let mut samples: Vec<i64> = (-2000..=2000).collect();
    // Values exactly representable as binary64, so `h as f64 / 100.0` is the
    // binary64 nearest to h / 100.
    samples.extend([123_456_789, 987_654_321_012, 9_007_199_254_740_992, -9_007_199_254_740_991]);
    samples.extend((0..200).map(|k| 1_000_000_000_005 + 10 * k));
    for h in samples {
        let expected = format!("Rating \u{2265}{:.1}", h as f64 / 100.0);
        assert_eq!(rating_pill(h), expected, "hundredths {h}");
    }
}
