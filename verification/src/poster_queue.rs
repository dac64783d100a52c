//! The background poster download queue of a sync: which artwork of an item
//! is fetched, the bounded first-in first-out queue it waits in, and the
//! rhythm of the processor that drains it in small batches.
//!
//! Checking the image cache, downloading, and sleeping are done by the
//! application shell, which hands the answers back.

use vstd::prelude::*;
use crate::text::owned;

verus! {

/// The queue refuses new items once it holds this many.
pub const MAX_QUEUE_SIZE: usize = 100;

/// How many downloads the processor takes at a time.
pub const BATCH_SIZE: usize = 5;

/// How long the processor waits when the queue is empty, in milliseconds.
pub const IDLE_WAIT_MS: u64 = 5_000;

/// The pause between two batches, in milliseconds.
pub const BATCH_PAUSE_MS: u64 = 500;

/// The size an image is cached at.
#[derive(Debug, Clone, Copy, PartialEq, Eq, Structural)]
pub enum ImageSize {
    Small,
    Medium,
}

/// The artwork an item of each kind offers.
#[derive(Debug, Clone, PartialEq)]
pub enum ArtworkRefs {
    Movie { poster_url: Option<String>, backdrop_url: Option<String> },
    Show { poster_url: Option<String>, backdrop_url: Option<String> },
    Episode { show_poster_url: Option<String>, thumbnail_url: Option<String> },
    MusicAlbum { cover_url: Option<String> },
    MusicTrack { cover_url: Option<String> },
    Photo { thumbnail_url: Option<String> },
}

/// One image to fetch.
#[derive(Debug, Clone, PartialEq)]
pub struct PosterDownloadRequest {
    pub url: String,
    pub size: ImageSize,
    pub media_id: String,
    pub media_type: String,
}

/// The view of an optional string.
pub open spec fn ov(o: Option<String>) -> Option<Seq<char>> {
    match o {
        Some(s) => Some(s@),
        None => None,
    }
}

/// The poster of an item: its own poster or cover; for an episode the show's
/// poster, else its thumbnail.
pub open spec fn poster_of(a: ArtworkRefs) -> Option<Seq<char>> {
    match a {
        ArtworkRefs::Movie { poster_url, .. } => ov(poster_url),
        ArtworkRefs::Show { poster_url, .. } => ov(poster_url),
        ArtworkRefs::Episode { show_poster_url, thumbnail_url } => match show_poster_url {
            Some(p) => Some(p@),
            None => ov(thumbnail_url),
        },
        ArtworkRefs::MusicAlbum { cover_url } => ov(cover_url),
        ArtworkRefs::MusicTrack { cover_url } => ov(cover_url),
        ArtworkRefs::Photo { thumbnail_url } => ov(thumbnail_url),
    }
}

/// The kind label of an item's poster request.
pub open spec fn kind_label(a: ArtworkRefs) -> Seq<char> {
    match a {
        ArtworkRefs::Movie { .. } => "movie"@,
        ArtworkRefs::Show { .. } => "show"@,
        ArtworkRefs::Episode { .. } => "episode"@,
        ArtworkRefs::MusicAlbum { .. } => "album"@,
        ArtworkRefs::MusicTrack { .. } => "track"@,
        ArtworkRefs::Photo { .. } => "photo"@,
    }
}

/// The backdrop of a movie or show, with its kind label.
pub open spec fn backdrop_of(a: ArtworkRefs) -> Option<(Seq<char>, Seq<char>)> {
    match a {
        ArtworkRefs::Movie { backdrop_url: Some(b), .. } => Some((b@, "movie_backdrop"@)),
        ArtworkRefs::Show { backdrop_url: Some(b), .. } => Some((b@, "show_backdrop"@)),
        _ => None,
    }
}

/// A request as `(url, size, media id, kind label)`.
pub open spec fn request_view(r: PosterDownloadRequest) -> (Seq<char>, ImageSize, Seq<char>, Seq<char>) {
    (r.url@, r.size, r.media_id@, r.media_type@)
}

/// The requests an item calls for: its poster at the small size, then for a
/// movie or show its backdrop at the medium size.
pub open spec fn candidates_spec(a: ArtworkRefs, media_id: Seq<char>) -> Seq<(Seq<char>, ImageSize, Seq<char>, Seq<char>)> {
    (match poster_of(a) {
        Some(p) => seq![(p, ImageSize::Small, media_id, kind_label(a))],
        None => Seq::empty(),
    }) + (match backdrop_of(a) {
        Some((b, label)) => seq![(b, ImageSize::Medium, media_id, label)],
        None => Seq::empty(),
    })
}

fn request(url: &String, size: ImageSize, media_id: &str, label: &str) -> (r: PosterDownloadRequest)
    ensures
        request_view(r) == (url@, size, media_id@, label@),
{
    PosterDownloadRequest { url: url.clone(), size, media_id: owned(media_id), media_type: owned(label) }
}

/// The images to fetch for an item, before the cache is consulted.
pub fn poster_candidates(item: &ArtworkRefs, media_id: &str) -> (r: Vec<PosterDownloadRequest>)
    ensures
        r@.map_values(|q: PosterDownloadRequest| request_view(q)) == candidates_spec(*item, media_id@),
        r@.len() <= 2,
{
    let mut out: Vec<PosterDownloadRequest> = Vec::new();
    let poster: Option<&String> = match item {
        ArtworkRefs::Movie { poster_url, .. } => poster_url.as_ref(),
        ArtworkRefs::Show { poster_url, .. } => poster_url.as_ref(),
        ArtworkRefs::Episode { show_poster_url, thumbnail_url } => match show_poster_url {
            Some(p) => Some(p),
            None => thumbnail_url.as_ref(),
        },
        ArtworkRefs::MusicAlbum { cover_url } => cover_url.as_ref(),
        ArtworkRefs::MusicTrack { cover_url } => cover_url.as_ref(),
        ArtworkRefs::Photo { thumbnail_url } => thumbnail_url.as_ref(),
    };
    let label = match item {
        ArtworkRefs::Movie { .. } => "movie",
        ArtworkRefs::Show { .. } => "show",
        ArtworkRefs::Episode { .. } => "episode",
        ArtworkRefs::MusicAlbum { .. } => "album",
        ArtworkRefs::MusicTrack { .. } => "track",
        ArtworkRefs::Photo { .. } => "photo",
    };
    match poster {
        Some(p) => out.push(request(p, ImageSize::Small, media_id, label)),
        None => {},
    }
    let ghost first = out@;
    match item {
        ArtworkRefs::Movie { backdrop_url: Some(b), .. } => {
            out.push(request(b, ImageSize::Medium, media_id, "movie_backdrop"));
        },
        ArtworkRefs::Show { backdrop_url: Some(b), .. } => {
            out.push(request(b, ImageSize::Medium, media_id, "show_backdrop"));
        },
        _ => {},
    }
    assert(out@.map_values(|q: PosterDownloadRequest| request_view(q)) =~= candidates_spec(
        *item,
        media_id@,
    ));
    out
}

/// Which images an item asks for, over all items:
/// - an episode asks for its show's poster when it has one, for its own
///   thumbnail only when it has no show poster, and for nothing else;
/// - a movie or show asks for its poster at the small size and then its
///   backdrop at the medium size, each only when present;
/// - an album or track asks for its cover, a photo for its thumbnail.
pub proof fn lemma_artwork_requests(a: ArtworkRefs, media_id: Seq<char>)
    ensures
        a matches ArtworkRefs::Episode { show_poster_url: Some(p), .. } ==> candidates_spec(a, media_id)
            == seq![(p@, ImageSize::Small, media_id, "episode"@)],
        a matches ArtworkRefs::Episode { show_poster_url: None, thumbnail_url: Some(t) }
            ==> candidates_spec(a, media_id) == seq![(t@, ImageSize::Small, media_id, "episode"@)],
        a matches ArtworkRefs::Episode { show_poster_url: None, thumbnail_url: None }
            ==> candidates_spec(a, media_id).len() == 0,
        a matches ArtworkRefs::Movie { poster_url: Some(p), backdrop_url: Some(b) } ==> candidates_spec(
            a,
            media_id,
        ) == seq![
            (p@, ImageSize::Small, media_id, "movie"@),
            (b@, ImageSize::Medium, media_id, "movie_backdrop"@),
        ],
        a matches ArtworkRefs::Movie { poster_url: None, backdrop_url: Some(b) } ==> candidates_spec(
            a,
            media_id,
        ) == seq![(b@, ImageSize::Medium, media_id, "movie_backdrop"@)],
        a matches ArtworkRefs::Show { poster_url: Some(p), backdrop_url: Some(b) } ==> candidates_spec(
            a,
            media_id,
        ) == seq![
            (p@, ImageSize::Small, media_id, "show"@),
            (b@, ImageSize::Medium, media_id, "show_backdrop"@),
        ],
        a matches ArtworkRefs::Show { poster_url: Some(p), backdrop_url: None } ==> candidates_spec(
            a,
            media_id,
        ) == seq![(p@, ImageSize::Small, media_id, "show"@)],
        a matches ArtworkRefs::MusicAlbum { cover_url: Some(c) } ==> candidates_spec(a, media_id)
            == seq![(c@, ImageSize::Small, media_id, "album"@)],
        a matches ArtworkRefs::MusicTrack { cover_url: Some(c) } ==> candidates_spec(a, media_id)
            == seq![(c@, ImageSize::Small, media_id, "track"@)],
        a matches ArtworkRefs::Photo { thumbnail_url: Some(t) } ==> candidates_spec(a, media_id)
            == seq![(t@, ImageSize::Small, media_id, "photo"@)],
{
    let c = candidates_spec(a, media_id);
    match a {
        ArtworkRefs::Episode { show_poster_url, thumbnail_url } => {
            match show_poster_url {
                Some(p) => {
                    assert(c =~= seq![(p@, ImageSize::Small, media_id, "episode"@)]);
                },
                None => match thumbnail_url {
                    Some(t) => {
                        assert(c =~= seq![(t@, ImageSize::Small, media_id, "episode"@)]);
                    },
                    None => {},
                },
            }
        },
        ArtworkRefs::Movie { poster_url, backdrop_url } => {
            match (poster_url, backdrop_url) {
                (Some(p), Some(b)) => {
                    assert(c =~= seq![
                        (p@, ImageSize::Small, media_id, "movie"@),
                        (b@, ImageSize::Medium, media_id, "movie_backdrop"@),
                    ]);
                },
                (None, Some(b)) => {
                    assert(c =~= seq![(b@, ImageSize::Medium, media_id, "movie_backdrop"@)]);
                },
                _ => {},
            }
        },
        ArtworkRefs::Show { poster_url, backdrop_url } => {
            match (poster_url, backdrop_url) {
                (Some(p), Some(b)) => {
                    assert(c =~= seq![
                        (p@, ImageSize::Small, media_id, "show"@),
                        (b@, ImageSize::Medium, media_id, "show_backdrop"@),
                    ]);
                },
                (Some(p), None) => {
                    assert(c =~= seq![(p@, ImageSize::Small, media_id, "show"@)]);
                },
                _ => {},
            }
        },
        ArtworkRefs::MusicAlbum { cover_url: Some(u) } => {
            assert(c =~= seq![(u@, ImageSize::Small, media_id, "album"@)]);
        },
        ArtworkRefs::MusicTrack { cover_url: Some(u) } => {
            assert(c =~= seq![(u@, ImageSize::Small, media_id, "track"@)]);
        },
        ArtworkRefs::Photo { thumbnail_url: Some(u) } => {
            assert(c =~= seq![(u@, ImageSize::Small, media_id, "photo"@)]);
        },
        _ => {},
    }
}

/// The requests not yet cached, in order.
pub open spec fn uncached(cands: Seq<PosterDownloadRequest>, cached: Seq<bool>) -> Seq<PosterDownloadRequest>
    decreases cands.len(),
{
    if cands.len() == 0 {
        cands
    } else {
        let rest = uncached(cands.drop_last(), cached);
        if cached[cands.len() - 1] {
            rest
        } else {
            rest.push(cands.last())
        }
    }
}

/// At most as many as there were candidates.
pub proof fn lemma_uncached_len(cands: Seq<PosterDownloadRequest>, cached: Seq<bool>)
    ensures
        uncached(cands, cached).len() <= cands.len(),
    decreases cands.len(),
{
    if cands.len() > 0 {
        lemma_uncached_len(cands.drop_last(), cached);
    }
}

/// The queue after an item's candidates arrive: a full queue takes nothing;
/// otherwise each candidate not yet cached joins the back.
pub open spec fn after_enqueue(q: Seq<PosterDownloadRequest>, cands: Seq<PosterDownloadRequest>, cached: Seq<bool>) -> Seq<PosterDownloadRequest> {
    if q.len() >= MAX_QUEUE_SIZE {
        q
    } else {
        q + uncached(cands, cached)
    }
}

/// What the processor does next.
#[derive(Debug, Clone, Copy, PartialEq, Eq, Structural)]
pub enum ProcessorAction {
    /// Cancelled: stop.
    Stop,
    /// Nothing queued: wait, then look again.
    Wait { ms: u64 },
    /// Download the batch just taken, then pause before the next.
    Download { pause_ms: u64 },
}

/// The processor's decision after taking a batch of `batch_len` requests.
pub fn processor_action(cancelled: bool, batch_len: usize) -> (r: ProcessorAction)
    ensures
        r == (if cancelled {
            ProcessorAction::Stop
        } else if batch_len == 0 {
            ProcessorAction::Wait { ms: IDLE_WAIT_MS }
        } else {
            ProcessorAction::Download { pause_ms: BATCH_PAUSE_MS }
        }),
{
    if cancelled {
        ProcessorAction::Stop
    } else if batch_len == 0 {
        ProcessorAction::Wait { ms: IDLE_WAIT_MS }
    } else {
        ProcessorAction::Download { pause_ms: BATCH_PAUSE_MS }
    }
}

/// The pending poster downloads, oldest first.
pub struct PosterQueue {
    queue: Vec<PosterDownloadRequest>,
}

impl View for PosterQueue {
    type V = Seq<PosterDownloadRequest>;

    closed spec fn view(&self) -> Seq<PosterDownloadRequest> {
        self.queue@
    }
}

impl PosterQueue {
    /// An empty queue.
    pub fn new() -> (r: Self)
        ensures
            r@.len() == 0,
    {
        PosterQueue { queue: Vec::new() }
    }

    /// How many downloads wait.
    pub fn len(&self) -> (r: usize)
        ensures
            r == self@.len(),
    {
        self.queue.len()
    }

    /// Whether new items are refused.
    pub fn is_full(&self) -> (r: bool)
        ensures
            r == (self@.len() >= MAX_QUEUE_SIZE),
    {
        self.queue.len() >= MAX_QUEUE_SIZE
    }

    /// Offer an item's candidates with, for each, whether the image cache
    /// already holds it: a full queue takes nothing, otherwise the uncached
    /// ones join the back in order.
    pub fn enqueue(&mut self, candidates: Vec<PosterDownloadRequest>, cached: &[bool])
        requires
            cached@.len() == candidates@.len(),
        ensures
            final(self)@ == after_enqueue(old(self)@, candidates@, cached@),
    {
        if self.queue.len() >= MAX_QUEUE_SIZE {
            return;
        }
        let ghost start = self.queue@;
        let ghost cands = candidates@;
        let mut rest = candidates;
        let mut i: usize = 0;
        while rest.len() > 0
            invariant
                0 <= i <= cands.len(),
                rest@ == cands.skip(i as int),
                cached@.len() == cands.len(),
                self.queue@ == start + uncached(cands.take(i as int), cached@),
            decreases rest.len(),
        {
            let c = rest.remove(0);
            proof {
                assert(cands.take(i as int + 1).drop_last() =~= cands.take(i as int));
                assert(cands.take(i as int + 1).last() == c);
            }
            if !cached[i] {
                self.queue.push(c);
            }
            i = i + 1;
            assert(rest@ =~= cands.skip(i as int));
            assert(self.queue@ =~= start + uncached(cands.take(i as int), cached@));
        }
        assert(cands.take(i as int) =~= cands);
    }

    /// Take the next batch: the oldest requests, at most `BATCH_SIZE`, in
    /// order.
    pub fn take_batch(&mut self) -> (r: Vec<PosterDownloadRequest>)
        ensures
            r@.len() == if old(self)@.len() < BATCH_SIZE {
                old(self)@.len()
            } else {
                BATCH_SIZE as nat
            },
            r@ + final(self)@ == old(self)@,
    {
        let mut batch: Vec<PosterDownloadRequest> = Vec::new();
        let ghost start = self.queue@;
        while batch.len() < BATCH_SIZE && self.queue.len() > 0
            invariant
                batch@ + self.queue@ == start,
                batch@.len() <= BATCH_SIZE,
            decreases self.queue@.len(),
        {
            let r = self.queue.remove(0);
            let ghost b0 = batch@;
            batch.push(r);
            assert(batch@ + self.queue@ =~= b0 + seq![r] + self.queue@);
        }
        batch
    }
}

/// The queue never holds more than one beyond its limit, whatever items
/// arrive (each offering at most a poster and a backdrop) and whatever
/// batches are taken.
pub proof fn lemma_queue_stays_bounded(q: Seq<PosterDownloadRequest>, cands: Seq<PosterDownloadRequest>, cached: Seq<bool>)
    requires
        q.len() <= MAX_QUEUE_SIZE + 1,
        cands.len() <= 2,
    ensures
        after_enqueue(q, cands, cached).len() <= MAX_QUEUE_SIZE + 1,
{
    lemma_uncached_len(cands, cached);
}

} // verus!
