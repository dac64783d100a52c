use reel::image_cache::{cache_file_name, hex_string, thumbnail_file_name};
use reel::mpris::{file_title, file_url, local_track_id_string, track_id_for};
use reel::poster_queue::{
    poster_candidates, processor_action, ArtworkRefs, ImageSize, PosterDownloadRequest, PosterQueue,
    ProcessorAction, BATCH_SIZE, MAX_QUEUE_SIZE,
};
use reel::screensaver::ScreensaverInhibitor;

#[test]
fn cache_file_name_is_md5_hex_of_url() {
    assert_eq!(cache_file_name("abc"), "900150983cd24fb0d6963f7d28e17f72.jpg");
    assert_eq!(cache_file_name(""), "d41d8cd98f00b204e9800998ecf8427e.jpg");
    assert_eq!(cache_file_name("http://x/poster.jpg").len(), 36);
}

#[test]
fn hex_string_pads_each_byte() {
    assert_eq!(hex_string(&[0x00, 0x0f, 0xa0, 0xff]), "000fa0ff");
}

#[test]
fn thumbnail_name_carries_stem_and_size() {
    assert_eq!(thumbnail_file_name("poster", 300, 450), "poster_300_x450.jpg");
}

#[test]
fn track_id_replaces_path_unsafe_characters() {
    let id = track_id_for("plex:123:456");
    assert_eq!(id, "/org/reel/track/plex_123_456");
    assert!(!id.contains(':'));
    assert_eq!(track_id_for("a-b c_d"), "/org/reel/track/a_b_c_d");
    assert_eq!(local_track_id_string(), "/org/reel/track/local");
}

#[test]
fn local_file_title_falls_back_to_stem() {
    assert_eq!(file_title("/home/user/movies/My Movie.mkv", None), "My Movie");
    assert_eq!(file_title("/path/to/file.mkv", Some("Custom Title")), "Custom Title");
    assert_eq!(file_title("/path/to/videofile", None), "videofile");
    assert_eq!(file_title("/", None), "Unknown");
}

#[test]
fn file_urls() {
    assert_eq!(file_url("/home/user/movies/My Movie.mkv"), "file:///home/user/movies/My Movie.mkv");
    assert_eq!(file_url("/tmp/art.jpg"), "file:///tmp/art.jpg");
}

#[test]
fn screensaver_cookie_bookkeeping() {
    let mut s = ScreensaverInhibitor::new();
    assert!(!s.is_inhibited());
    assert!(s.needs_inhibit());
    s.record_inhibit(0);
    assert!(!s.is_inhibited());
    s.record_inhibit(7);
    assert!(s.is_inhibited());
    assert!(!s.needs_inhibit());
    s.record_inhibit(9);
    assert_eq!(s.take_cookie(), Some(7));
    assert!(!s.is_inhibited());
    assert_eq!(s.take_cookie(), None);
}

fn movie(poster: Option<&str>, backdrop: Option<&str>) -> ArtworkRefs {
    ArtworkRefs::Movie { poster_url: poster.map(String::from), backdrop_url: backdrop.map(String::from) }
}

#[test]
fn candidates_cover_poster_then_backdrop() {
    let c = poster_candidates(&movie(Some("p"), Some("b")), "m1");
    assert_eq!(
        c,
        vec![
            PosterDownloadRequest { url: "p".into(), size: ImageSize::Small, media_id: "m1".into(), media_type: "movie".into() },
            PosterDownloadRequest {
                url: "b".into(),
                size: ImageSize::Medium,
                media_id: "m1".into(),
                media_type: "movie_backdrop".into(),
            },
        ]
    );
    let ep = ArtworkRefs::Episode { show_poster_url: None, thumbnail_url: Some("t".into()) };
    let c = poster_candidates(&ep, "e1");
    assert_eq!(c.len(), 1);
    assert_eq!(c[0].url, "t");
    assert_eq!(c[0].media_type, "episode");
    assert!(poster_candidates(&ArtworkRefs::Photo { thumbnail_url: None }, "x").is_empty());
}

#[test]
fn queue_skips_cached_and_drains_in_batches() {
    let mut q = PosterQueue::new();
    for i in 0..4 {
        let c = poster_candidates(&movie(Some(&format!("p{i}")), Some(&format!("b{i}"))), "m");
        q.enqueue(c, &[false, i % 2 == 0]);
    }
    assert_eq!(q.len(), 6);
    let batch = q.take_batch();
    assert_eq!(batch.len(), BATCH_SIZE);
    let urls: Vec<&str> = batch.iter().map(|r| r.url.as_str()).collect();
    assert_eq!(urls, vec!["p0", "p1", "b1", "p2", "p3"]);
    let rest = q.take_batch();
    assert_eq!(rest.len(), 1);
    assert_eq!(rest[0].url, "b3");
    assert!(q.take_batch().is_empty());
}

#[test]
fn full_queue_refuses_items() {
    let mut q = PosterQueue::new();
    let mut n = 0;
    while !q.is_full() {
        let c = poster_candidates(&movie(Some(&format!("p{n}")), Some(&format!("b{n}"))), "m");
        q.enqueue(c, &[false, false]);
        n += 1;
    }
    assert!(q.len() <= MAX_QUEUE_SIZE + 1);
    let before = q.len();
    q.enqueue(poster_candidates(&movie(Some("late"), None), "m"), &[false]);
    assert_eq!(q.len(), before);
}

#[test]
fn processor_rhythm() {
    assert_eq!(processor_action(true, 3), ProcessorAction::Stop);
    assert_eq!(processor_action(false, 0), ProcessorAction::Wait { ms: 5_000 });
    assert_eq!(processor_action(false, 5), ProcessorAction::Download { pause_ms: 500 });
}

#[test]
fn thumbnail_name_from_a_path() {
    assert_eq!(reel::image_cache::thumbnail_name_for_path("/media/posters/dune.png", 200, 300), "dune_200_x300.jpg");
    assert_eq!(reel::image_cache::thumbnail_name_for_path("/media/archive.tar.gz", 64, 64), "archive.tar_64_x64.jpg");
    assert_eq!(reel::image_cache::thumbnail_name_for_path("/", 10, 20), "_10_x20.jpg");
}
