//! Library view state and the pure search / filter / sort pipeline.
//!
//! Filters are AND-combined across types and OR-combined within a
//! multi-select type. Ratings are hundredths of a point; watch progress is a
//! fixed-point fraction in millionths (only its sign is read).

use vstd::prelude::*;
use crate::decimal::{push_rating, rating_text};
use crate::media::{resolution_display, MediaItem, HdrFormat};
use crate::text::{
    chars_of, chars_order, char_is_whitespace, infix_of, is_infix, lowercase, opt_view, seq_order,
    flipped, str_eq, strs_view, to_lower, trim_bounds, trimmed, usz, lemma_seq_order_basics,
    lemma_seq_order_transitive, strings_contain, clone_strings, lemma_trimmed_empty, all_white, uidx, is_greater, strictly_sorted, insert_sorted_unique, without, kept_in, strings_without, strings_kept_in, push_int, push_nat, int_digits, nat_digits,
};

verus! {

/// Available sort orders for the library view.
#[derive(Debug, Clone, Copy, PartialEq, Eq, Structural)]
pub enum SortOrder {
    TitleAsc,
    TitleDesc,
    YearNewest,
    YearOldest,
    DateAdded,
    RatingHighest,
    RuntimeLongest,
}

impl Default for SortOrder {
    fn default() -> (r: SortOrder)
        ensures
            r == SortOrder::TitleAsc,
    {
        SortOrder::TitleAsc
    }
}

/// UI label of a sort order.
pub open spec fn sort_order_label(o: SortOrder) -> Seq<char> {
    match o {
        SortOrder::TitleAsc => "Title A-Z"@,
        SortOrder::TitleDesc => "Title Z-A"@,
        SortOrder::YearNewest => "Year (Newest)"@,
        SortOrder::YearOldest => "Year (Oldest)"@,
        SortOrder::DateAdded => "Date Added"@,
        SortOrder::RatingHighest => "Rating"@,
        SortOrder::RuntimeLongest => "Runtime"@,
    }
}

/// Every sort order, in menu order.
pub open spec fn all_sort_orders() -> Seq<SortOrder> {
    seq![
        SortOrder::TitleAsc,
        SortOrder::TitleDesc,
        SortOrder::YearNewest,
        SortOrder::YearOldest,
        SortOrder::DateAdded,
        SortOrder::RatingHighest,
        SortOrder::RuntimeLongest,
    ]
}

impl SortOrder {
    /// Human-readable label for UI display.
    pub fn label(self) -> (r: &'static str)
        ensures
            r@ == sort_order_label(self),
    {
        match self {
            SortOrder::TitleAsc => "Title A-Z",
            SortOrder::TitleDesc => "Title Z-A",
            SortOrder::YearNewest => "Year (Newest)",
            SortOrder::YearOldest => "Year (Oldest)",
            SortOrder::DateAdded => "Date Added",
            SortOrder::RatingHighest => "Rating",
            SortOrder::RuntimeLongest => "Runtime",
        }
    }

    /// All available sort orders.
    pub fn all() -> (r: Vec<SortOrder>)
        ensures
            r@ == all_sort_orders(),
    {
        let r = vec![
            SortOrder::TitleAsc,
            SortOrder::TitleDesc,
            SortOrder::YearNewest,
            SortOrder::YearOldest,
            SortOrder::DateAdded,
            SortOrder::RatingHighest,
            SortOrder::RuntimeLongest,
        ];
        assert(r@ =~= all_sort_orders());
        r
    }
}

/// Grid view mode: poster grid or compact list.
#[derive(Debug, Clone, Copy, PartialEq, Eq, Structural)]
pub enum ViewMode {
    Grid,
    List,
}

impl Default for ViewMode {
    fn default() -> (r: ViewMode)
        ensures
            r == ViewMode::Grid,
    {
        ViewMode::Grid
    }
}

/// Persisted name of a view mode.
pub open spec fn view_mode_name(m: ViewMode) -> Seq<char> {
    match m {
        ViewMode::Grid => "grid"@,
        ViewMode::List => "list"@,
    }
}

/// The view mode a persisted name selects (unknown names select the grid).
pub open spec fn view_mode_parse(s: Seq<char>) -> ViewMode {
    if s == "list"@ {
        ViewMode::List
    } else {
        ViewMode::Grid
    }
}

impl ViewMode {
    pub fn as_str(self) -> (r: &'static str)
        ensures
            r@ == view_mode_name(self),
    {
        match self {
            ViewMode::Grid => "grid",
            ViewMode::List => "list",
        }
    }

    pub fn from_str(s: &str) -> (r: ViewMode)
        ensures
            r == view_mode_parse(s@),
    {
        if str_eq(s, "list") {
            ViewMode::List
        } else {
            ViewMode::Grid
        }
    }
}

/// Reading back the persisted name of a view mode gives the same mode.
pub proof fn lemma_view_mode_round_trip(m: ViewMode)
    ensures
        view_mode_parse(view_mode_name(m)) == m,
{
    reveal_strlit("grid");
    reveal_strlit("list");
    assert("grid"@[0] != "list"@[0]);
}

/// Grid poster density: small, medium, or large.
#[derive(Debug, Clone, Copy, PartialEq, Eq, Structural)]
pub enum GridDensity {
    Small,
    Medium,
    Large,
}

impl Default for GridDensity {
    fn default() -> (r: GridDensity)
        ensures
            r == GridDensity::Medium,
    {
        GridDensity::Medium
    }
}

/// Persisted name of a density.
pub open spec fn density_name(d: GridDensity) -> Seq<char> {
    match d {
        GridDensity::Small => "small"@,
        GridDensity::Medium => "medium"@,
        GridDensity::Large => "large"@,
    }
}

/// The density a persisted name selects (unknown names select medium).
pub open spec fn density_parse(s: Seq<char>) -> GridDensity {
    if s == "small"@ {
        GridDensity::Small
    } else if s == "large"@ {
        GridDensity::Large
    } else {
        GridDensity::Medium
    }
}

/// UI label of a density.
pub open spec fn density_label(d: GridDensity) -> Seq<char> {
    match d {
        GridDensity::Small => "Small"@,
        GridDensity::Medium => "Medium"@,
        GridDensity::Large => "Large"@,
    }
}

/// Every density, smallest first.
pub open spec fn all_densities() -> Seq<GridDensity> {
    seq![GridDensity::Small, GridDensity::Medium, GridDensity::Large]
}

impl GridDensity {
    pub fn as_str(self) -> (r: &'static str)
        ensures
            r@ == density_name(self),
    {
        match self {
            GridDensity::Small => "small",
            GridDensity::Medium => "medium",
            GridDensity::Large => "large",
        }
    }

    pub fn from_str(s: &str) -> (r: GridDensity)
        ensures
            r == density_parse(s@),
    {
        if str_eq(s, "small") {
            GridDensity::Small
        } else if str_eq(s, "large") {
            GridDensity::Large
        } else {
            GridDensity::Medium
        }
    }

    /// Card width in pixels.
    pub fn card_width(self) -> (r: i32)
        ensures
            r == match self {
                GridDensity::Small => 120i32,
                GridDensity::Medium => 180i32,
                GridDensity::Large => 240i32,
            },
    {
        match self {
            GridDensity::Small => 120,
            GridDensity::Medium => 180,
            GridDensity::Large => 240,
        }
    }

    /// Card height in pixels (1.5:1 aspect ratio).
    pub fn card_height(self) -> (r: i32)
        ensures
            r == match self {
                GridDensity::Small => 180i32,
                GridDensity::Medium => 270i32,
                GridDensity::Large => 360i32,
            },
    {
        match self {
            GridDensity::Small => 180,
            GridDensity::Medium => 270,
            GridDensity::Large => 360,
        }
    }

    /// Minimum grid columns at this density.
    pub fn min_columns(self) -> (r: u32)
        ensures
            r == match self {
                GridDensity::Small => 4u32,
                GridDensity::Medium => 3u32,
                GridDensity::Large => 2u32,
            },
    {
        match self {
            GridDensity::Small => 4,
            GridDensity::Medium => 3,
            GridDensity::Large => 2,
        }
    }

    /// All available densities.
    pub fn all() -> (r: Vec<GridDensity>)
        ensures
            r@ == all_densities(),
    {
        let r = vec![GridDensity::Small, GridDensity::Medium, GridDensity::Large];
        assert(r@ =~= all_densities());
        r
    }

    pub fn label(self) -> (r: &'static str)
        ensures
            r@ == density_label(self),
    {
        match self {
            GridDensity::Small => "Small",
            GridDensity::Medium => "Medium",
            GridDensity::Large => "Large",
        }
    }
}

/// Reading back the persisted name of a density gives the same density.
pub proof fn lemma_density_round_trip(d: GridDensity)
    ensures
        density_parse(density_name(d)) == d,
{
    reveal_strlit("small");
    reveal_strlit("medium");
    reveal_strlit("large");
    assert("medium"@[0] != "small"@[0]);
    assert("medium"@[0] != "large"@[0]);
    assert("large"@[0] != "small"@[0]);
}

/// Watch status of a media item, derived from watch-progress data.
#[derive(Debug, Clone, Copy, PartialEq, Eq, Structural)]
pub enum WatchStatus {
    Unwatched,
    InProgress,
    Watched,
}

/// UI label of a watch status.
pub open spec fn watch_status_label(s: WatchStatus) -> Seq<char> {
    match s {
        WatchStatus::Unwatched => "Unwatched"@,
        WatchStatus::InProgress => "In Progress"@,
        WatchStatus::Watched => "Watched"@,
    }
}

impl WatchStatus {
    pub fn label(self) -> (r: &'static str)
        ensures
            r@ == watch_status_label(self),
    {
        match self {
            WatchStatus::Unwatched => "Unwatched",
            WatchStatus::InProgress => "In Progress",
            WatchStatus::Watched => "Watched",
        }
    }
}

/// The watch status a `(progress, watched)` pair resolves to: `watched` wins
/// over progress; any positive progress is in progress.
pub open spec fn watch_status_of(progress_millionths: i64, watched: bool) -> WatchStatus {
    if watched {
        WatchStatus::Watched
    } else if progress_millionths > 0 {
        WatchStatus::InProgress
    } else {
        WatchStatus::Unwatched
    }
}

/// Derive a `WatchStatus` from a progress fraction (in millionths) and the
/// watched flag.
pub fn derived_watch_status(progress_millionths: i64, watched: bool) -> (r: WatchStatus)
    ensures
        r == watch_status_of(progress_millionths, watched),
{
    if watched {
        WatchStatus::Watched
    } else if progress_millionths > 0 {
        WatchStatus::InProgress
    } else {
        WatchStatus::Unwatched
    }
}

/// Resolution bucket derived from a raw `video_resolution` string.
#[derive(Debug, Clone, Copy, PartialEq, Eq, Structural)]
pub enum ResolutionBucket {
    Sd,
    R720p,
    R1080p,
    R4k,
}

/// UI label of a bucket.
pub open spec fn bucket_label(b: ResolutionBucket) -> Seq<char> {
    match b {
        ResolutionBucket::Sd => "SD"@,
        ResolutionBucket::R720p => "720p"@,
        ResolutionBucket::R1080p => "1080p"@,
        ResolutionBucket::R4k => "4K"@,
    }
}

/// The buckets in canonical order, SD first.
pub open spec fn all_buckets() -> Seq<ResolutionBucket> {
    seq![ResolutionBucket::Sd, ResolutionBucket::R720p, ResolutionBucket::R1080p, ResolutionBucket::R4k]
}

/// The bucket of a raw resolution value, if it has one.
pub open spec fn bucket_of(raw: Seq<char>) -> Option<ResolutionBucket> {
    let d = resolution_display(raw);
    if d == "4K"@ {
        Some(ResolutionBucket::R4k)
    } else if d == "1080p"@ {
        Some(ResolutionBucket::R1080p)
    } else if d == "720p"@ {
        Some(ResolutionBucket::R720p)
    } else if d == "SD"@ {
        Some(ResolutionBucket::Sd)
    } else {
        None
    }
}

impl ResolutionBucket {
    pub fn label(self) -> (r: &'static str)
        ensures
            r@ == bucket_label(self),
    {
        match self {
            ResolutionBucket::Sd => "SD",
            ResolutionBucket::R720p => "720p",
            ResolutionBucket::R1080p => "1080p",
            ResolutionBucket::R4k => "4K",
        }
    }

    pub fn all() -> (r: Vec<ResolutionBucket>)
        ensures
            r@ == all_buckets(),
    {
        let r = vec![
            ResolutionBucket::Sd,
            ResolutionBucket::R720p,
            ResolutionBucket::R1080p,
            ResolutionBucket::R4k,
        ];
        assert(r@ =~= all_buckets());
        r
    }

    /// Map a raw `video_resolution` string into a bucket. Returns `None` for
    /// unrecognised values (which `format_resolution` maps to generic "HD").
    pub fn from_resolution(raw: &str) -> (r: Option<ResolutionBucket>)
        ensures
            r == bucket_of(raw@),
    {
        let d = MediaItem::format_resolution(raw);
        if str_eq(d, "4K") {
            Some(ResolutionBucket::R4k)
        } else if str_eq(d, "1080p") {
            Some(ResolutionBucket::R1080p)
        } else if str_eq(d, "720p") {
            Some(ResolutionBucket::R720p)
        } else if str_eq(d, "SD") {
            Some(ResolutionBucket::Sd)
        } else {
            None
        }
    }
}

/// HDR side of the resolution filter.
#[derive(Debug, Clone, Copy, PartialEq, Eq, Structural)]
pub enum HdrSelection {
    AnyHdr,
    SdrOnly,
}

/// A genre filter with OR semantics: item matches if it has ANY selected genre.
#[derive(Debug, Clone, PartialEq)]
pub struct GenreFilter {
    pub selected_genres: Vec<String>,
}

/// Inclusive year range. Either bound may be unset, meaning "no limit".
#[derive(Debug, Clone, Copy, PartialEq, Eq, Structural)]
pub struct YearRangeFilter {
    pub from: Option<i32>,
    pub to: Option<i32>,
}

/// Watch-status filter (single selected status).
#[derive(Debug, Clone, Copy, PartialEq, Eq, Structural)]
pub struct WatchStatusFilter {
    pub status: WatchStatus,
}

/// Minimum-rating threshold, in hundredths of a point.
#[derive(Debug, Clone, Copy, PartialEq, Eq, Structural)]
pub struct RatingFilter {
    pub min: i64,
}

/// Inclusive runtime range in minutes. Either bound may be unset.
#[derive(Debug, Clone, Copy, PartialEq, Eq, Structural)]
pub struct RuntimeRangeFilter {
    pub from: Option<i32>,
    pub to: Option<i32>,
}

/// Content-rating filter with OR semantics over selected ratings.
#[derive(Debug, Clone, PartialEq)]
pub struct ContentRatingFilter {
    pub selected: Vec<String>,
}

/// Resolution + HDR filter. Buckets OR together; an HDR selection ANDs with
/// the bucket set.
#[derive(Debug, Clone, PartialEq)]
pub struct ResolutionFilter {
    pub buckets: Vec<ResolutionBucket>,
    pub hdr: Option<HdrSelection>,
}

/// Combined filter state. All active filter types must pass.
#[derive(Debug, Clone, PartialEq)]
pub struct FilterState {
    pub genres: Option<GenreFilter>,
    pub year_range: Option<YearRangeFilter>,
    pub watch_status: Option<WatchStatusFilter>,
    pub rating_min: Option<RatingFilter>,
    pub runtime_range: Option<RuntimeRangeFilter>,
    pub content_ratings: Option<ContentRatingFilter>,
    pub resolutions: Option<ResolutionFilter>,
}

/// No filter is set.
pub open spec fn filter_state_empty(f: FilterState) -> bool {
    &&& f.genres is None
    &&& f.year_range is None
    &&& f.watch_status is None
    &&& f.rating_min is None
    &&& f.runtime_range is None
    &&& f.content_ratings is None
    &&& f.resolutions is None
}

impl Default for FilterState {
    fn default() -> (r: FilterState)
        ensures
            filter_state_empty(r),
    {
        FilterState {
            genres: None,
            year_range: None,
            watch_status: None,
            rating_min: None,
            runtime_range: None,
            content_ratings: None,
            resolutions: None,
        }
    }
}

// --- Search -------------------------------------------------------------------

/// The search predicate: the trimmed query is empty, or its lowercase form
/// occurs in the lowercase title.
pub open spec fn search_ok(title: Seq<char>, query: Seq<char>) -> bool {
    let q = trimmed(query);
    q.len() == 0 || is_infix(lowercase(q), lowercase(title))
}

/// Does a media item match the search query? Case-insensitive title
/// substring match. An empty (or all-whitespace) query matches everything.
pub fn search_matches(item: &MediaItem, query: &str) -> (r: bool)
    ensures
        r == search_ok(item.title@, query@),
        all_white(query@) ==> r,
{
    proof {
        lemma_trimmed_empty(query@);
    }
    let qc = chars_of(query);
    let (i, j) = trim_bounds(&qc);
    if i == j {
        return true;
    }
    let q = query.substring_char(i, j);
    let ql = to_lower(q);
    let tl = to_lower(item.title.as_str());
    let qv = chars_of(ql.as_str());
    let tv = chars_of(tl.as_str());
    infix_of(&qv, &tv)
}

// --- Filters ------------------------------------------------------------------

/// Some selected genre is among the item's genres.
pub open spec fn genre_hit(item_genres: Seq<Seq<char>>, selected: Seq<Seq<char>>) -> bool {
    exists|k: int| 0 <= k < selected.len() && item_genres.contains(#[trigger] selected[k])
}

/// A value passes an optional inclusive range.
pub open spec fn in_range(v: Option<i32>, from: Option<i32>, to: Option<i32>) -> bool {
    if from is None && to is None {
        true
    } else {
        match v {
            Some(x) => (from matches Some(f) ==> x >= f) && (to matches Some(t) ==> x <= t),
            None => false,
        }
    }
}

/// The item's resolution bucket is one of the selected ones (no buckets
/// selected means any item passes).
pub open spec fn bucket_hit(raw: Option<Seq<char>>, buckets: Seq<ResolutionBucket>) -> bool {
    buckets.len() == 0 || (raw matches Some(r) && bucket_of(r) matches Some(b) && buckets.contains(
        b,
    ))
}

/// The item's HDR signal agrees with the HDR selection.
pub open spec fn hdr_ok(hdr: Option<HdrFormat>, sel: Option<HdrSelection>) -> bool {
    match sel {
        Some(HdrSelection::AnyHdr) => hdr is Some,
        Some(HdrSelection::SdrOnly) => hdr is None,
        None => true,
    }
}

/// Does an item pass every active filter?
pub open spec fn filter_ok(item: MediaItem, f: FilterState, ws: WatchStatus) -> bool {
    &&& (f.genres matches Some(g) ==> strs_view(g.selected_genres@).len() == 0 || genre_hit(
        strs_view(item.genres@),
        strs_view(g.selected_genres@),
    ))
    &&& (f.year_range matches Some(y) ==> in_range(item.year, y.from, y.to))
    &&& (f.watch_status matches Some(w) ==> w.status == ws)
    &&& (f.rating_min matches Some(rf) ==> (item.rating matches Some(r) && r >= rf.min))
    &&& (f.runtime_range matches Some(rt) ==> in_range(item.runtime_minutes, rt.from, rt.to))
    &&& (f.content_ratings matches Some(c) ==> strs_view(c.selected@).len() == 0 || (
    opt_view(item.content_rating) matches Some(cr) && strs_view(c.selected@).contains(cr)))
    &&& (f.resolutions matches Some(res) ==> bucket_hit(opt_view(item.video_resolution), res.buckets@)
        && hdr_ok(item.hdr, res.hdr))
}

fn any_genre_hit(item_genres: &Vec<String>, selected: &Vec<String>) -> (r: bool)
    ensures
        r == genre_hit(strs_view(item_genres@), strs_view(selected@)),
{
    let mut k: usize = 0;
    while k < selected.len()
        invariant
            k <= selected@.len(),
            forall|m: int|
                0 <= m < k ==> !strs_view(item_genres@).contains(#[trigger] strs_view(selected@)[m]),
        decreases selected.len() - k,
    {
        if strings_contain(item_genres, &selected[k]) {
            assert(strs_view(selected@)[k as int] == selected@[k as int]@);
            return true;
        }
        k = k + 1;
    }
    false
}

fn range_ok(v: Option<i32>, from: Option<i32>, to: Option<i32>) -> (r: bool)
    ensures
        r == in_range(v, from, to),
{
    if from.is_none() && to.is_none() {
        return true;
    }
    match v {
        Some(x) => {
            if let Some(f) = from {
                if x < f {
                    return false;
                }
            }
            if let Some(t) = to {
                if x > t {
                    return false;
                }
            }
            true
        },
        None => false,
    }
}

fn buckets_contain(v: &Vec<ResolutionBucket>, b: ResolutionBucket) -> (r: bool)
    ensures
        r == v@.contains(b),
{
    let mut k: usize = 0;
    while k < v.len()
        invariant
            k <= v@.len(),
            forall|m: int| 0 <= m < k ==> v@[m] != b,
        decreases v.len() - k,
    {
        if v[k] == b {
            return true;
        }
        k = k + 1;
    }
    false
}

/// Does a media item pass all active filters? `watch_status` is the item's
/// resolved status.
pub fn filter_matches(item: &MediaItem, filter: &FilterState, watch_status: WatchStatus) -> (r:
    bool)
    ensures
        r == filter_ok(*item, *filter, watch_status),
        filter_state_empty(*filter) ==> r,
{
    if let Some(g) = &filter.genres {
        if g.selected_genres.len() > 0 && !any_genre_hit(&item.genres, &g.selected_genres) {
            return false;
        }
    }
    if let Some(y) = &filter.year_range {
        if !range_ok(item.year, y.from, y.to) {
            return false;
        }
    }
    if let Some(w) = &filter.watch_status {
        if w.status != watch_status {
            return false;
        }
    }
    if let Some(rf) = &filter.rating_min {
        match item.rating {
            Some(r) => {
                if r < rf.min {
                    return false;
                }
            },
            None => {
                return false;
            },
        }
    }
    if let Some(rt) = &filter.runtime_range {
        if !range_ok(item.runtime_minutes, rt.from, rt.to) {
            return false;
        }
    }
    if let Some(c) = &filter.content_ratings {
        if c.selected.len() > 0 {
            match &item.content_rating {
                Some(cr) => {
                    if !strings_contain(&c.selected, cr) {
                        return false;
                    }
                },
                None => {
                    return false;
                },
            }
        }
    }
    if let Some(res) = &filter.resolutions {
        if res.buckets.len() > 0 {
            let hit = match &item.video_resolution {
                Some(raw) => match ResolutionBucket::from_resolution(raw.as_str()) {
                    Some(b) => buckets_contain(&res.buckets, b),
                    None => false,
                },
                None => false,
            };
            if !hit {
                return false;
            }
        }
        match res.hdr {
            Some(HdrSelection::AnyHdr) => {
                if item.hdr.is_none() {
                    return false;
                }
            },
            Some(HdrSelection::SdrOnly) => {
                if item.hdr.is_some() {
                    return false;
                }
            },
            None => {},
        }
    }
    true
}

// --- Sorting ------------------------------------------------------------------

/// Numeric order on `i32`.
pub open spec fn num_order_i32(x: i32, y: i32) -> core::cmp::Ordering {
    if x < y {
        core::cmp::Ordering::Less
    } else if x > y {
        core::cmp::Ordering::Greater
    } else {
        core::cmp::Ordering::Equal
    }
}

/// Numeric order on `i64`.
pub open spec fn num_order_i64(x: i64, y: i64) -> core::cmp::Ordering {
    if x < y {
        core::cmp::Ordering::Less
    } else if x > y {
        core::cmp::Ordering::Greater
    } else {
        core::cmp::Ordering::Equal
    }
}

/// Ascending order on optional values, `None` last.
pub open spec fn opt_asc_i32(a: Option<i32>, b: Option<i32>) -> core::cmp::Ordering {
    match (a, b) {
        (Some(x), Some(y)) => num_order_i32(x, y),
        (Some(_), None) => core::cmp::Ordering::Less,
        (None, Some(_)) => core::cmp::Ordering::Greater,
        (None, None) => core::cmp::Ordering::Equal,
    }
}

/// Descending order on optional values, `None` last.
pub open spec fn opt_desc_i32(a: Option<i32>, b: Option<i32>) -> core::cmp::Ordering {
    match (a, b) {
        (Some(x), Some(y)) => num_order_i32(y, x),
        (Some(_), None) => core::cmp::Ordering::Less,
        (None, Some(_)) => core::cmp::Ordering::Greater,
        (None, None) => core::cmp::Ordering::Equal,
    }
}

/// Descending order on optional ratings, `None` last.
pub open spec fn opt_desc_i64(a: Option<i64>, b: Option<i64>) -> core::cmp::Ordering {
    match (a, b) {
        (Some(x), Some(y)) => num_order_i64(y, x),
        (Some(_), None) => core::cmp::Ordering::Less,
        (None, Some(_)) => core::cmp::Ordering::Greater,
        (None, None) => core::cmp::Ordering::Equal,
    }
}

/// The case-folded title used for title ordering.
pub open spec fn title_key(i: MediaItem) -> Seq<char> {
    lowercase(i.title@)
}

/// The order a sort order asks for, before the title tie-break.
pub open spec fn primary_order(a: MediaItem, b: MediaItem, o: SortOrder) -> core::cmp::Ordering {
    match o {
        SortOrder::TitleAsc => seq_order(title_key(a), title_key(b)),
        SortOrder::TitleDesc => seq_order(title_key(b), title_key(a)),
        SortOrder::YearNewest => opt_desc_i32(a.year, b.year),
        SortOrder::YearOldest => opt_asc_i32(a.year, b.year),
        SortOrder::DateAdded => seq_order(b.added_at@, a.added_at@),
        SortOrder::RatingHighest => opt_desc_i64(a.rating, b.rating),
        SortOrder::RuntimeLongest => opt_desc_i32(a.runtime_minutes, b.runtime_minutes),
    }
}

/// The full item order: the primary order, with ties broken by title
/// ascending for the non-title orders.
pub open spec fn item_order(a: MediaItem, b: MediaItem, o: SortOrder) -> core::cmp::Ordering {
    let p = primary_order(a, b, o);
    if p == core::cmp::Ordering::Equal && !(o == SortOrder::TitleAsc || o == SortOrder::TitleDesc) {
        seq_order(title_key(a), title_key(b))
    } else {
        p
    }
}

/// `a` may stand before `b`.
pub open spec fn sorts_before(a: MediaItem, b: MediaItem, o: SortOrder) -> bool {
    item_order(a, b, o) != core::cmp::Ordering::Greater
}

proof fn lemma_primary_props(a: MediaItem, b: MediaItem, c: MediaItem, o: SortOrder)
    ensures
        primary_order(a, b, o) == flipped(primary_order(b, a, o)),
        primary_order(a, b, o) != core::cmp::Ordering::Greater && primary_order(b, c, o)
            != core::cmp::Ordering::Greater ==> primary_order(a, c, o)
            != core::cmp::Ordering::Greater,
        primary_order(a, b, o) == core::cmp::Ordering::Less && primary_order(b, c, o)
            != core::cmp::Ordering::Greater ==> primary_order(a, c, o)
            == core::cmp::Ordering::Less,
        primary_order(a, b, o) != core::cmp::Ordering::Greater && primary_order(b, c, o)
            == core::cmp::Ordering::Less ==> primary_order(a, c, o)
            == core::cmp::Ordering::Less,
{
    lemma_seq_order_basics(title_key(a), title_key(b));
    lemma_seq_order_basics(b.added_at@, a.added_at@);
    match o {
        SortOrder::TitleAsc => {
            lemma_seq_order_transitive(title_key(a), title_key(b), title_key(c));
        },
        SortOrder::TitleDesc => {
            lemma_seq_order_transitive(title_key(c), title_key(b), title_key(a));
        },
        SortOrder::DateAdded => {
            lemma_seq_order_transitive(c.added_at@, b.added_at@, a.added_at@);
        },
        _ => {},
    }
}

/// Swapping the items flips the answer.
pub proof fn lemma_item_order_flips(a: MediaItem, b: MediaItem, o: SortOrder)
    ensures
        item_order(a, b, o) == flipped(item_order(b, a, o)),
{
    lemma_primary_props(a, b, a, o);
    lemma_seq_order_basics(title_key(a), title_key(b));
}

/// The item order is transitive.
pub proof fn lemma_item_order_transitive(a: MediaItem, b: MediaItem, c: MediaItem, o: SortOrder)
    ensures
        sorts_before(a, b, o) && sorts_before(b, c, o) ==> sorts_before(a, c, o),
{
    lemma_primary_props(a, b, c, o);
    lemma_seq_order_transitive(title_key(a), title_key(b), title_key(c));
}

/// Compare two optional values ascending, `None` last.
fn cmp_option_asc(a: &Option<i32>, b: &Option<i32>) -> (r: core::cmp::Ordering)
    ensures
        r == opt_asc_i32(*a, *b),
{
    match (a, b) {
        (Some(x), Some(y)) => {
            if *x < *y {
                core::cmp::Ordering::Less
            } else if *x > *y {
                core::cmp::Ordering::Greater
            } else {
                core::cmp::Ordering::Equal
            }
        },
        (Some(_), None) => core::cmp::Ordering::Less,
        (None, Some(_)) => core::cmp::Ordering::Greater,
        (None, None) => core::cmp::Ordering::Equal,
    }
}

/// Compare two optional values descending, `None` last.
fn cmp_option_desc(a: &Option<i32>, b: &Option<i32>) -> (r: core::cmp::Ordering)
    ensures
        r == opt_desc_i32(*a, *b),
{
    match (a, b) {
        (Some(x), Some(y)) => {
            if *y < *x {
                core::cmp::Ordering::Less
            } else if *y > *x {
                core::cmp::Ordering::Greater
            } else {
                core::cmp::Ordering::Equal
            }
        },
        (Some(_), None) => core::cmp::Ordering::Less,
        (None, Some(_)) => core::cmp::Ordering::Greater,
        (None, None) => core::cmp::Ordering::Equal,
    }
}

/// Compare two optional ratings descending, `None` last.
fn cmp_option_rating_desc(a: &Option<i64>, b: &Option<i64>) -> (r: core::cmp::Ordering)
    ensures
        r == opt_desc_i64(*a, *b),
{
    match (a, b) {
        (Some(x), Some(y)) => {
            if *y < *x {
                core::cmp::Ordering::Less
            } else if *y > *x {
                core::cmp::Ordering::Greater
            } else {
                core::cmp::Ordering::Equal
            }
        },
        (Some(_), None) => core::cmp::Ordering::Less,
        (None, Some(_)) => core::cmp::Ordering::Greater,
        (None, None) => core::cmp::Ordering::Equal,
    }
}

fn title_chars(item: &MediaItem) -> (v: Vec<char>)
    ensures
        v@ == title_key(*item),
{
    let l = to_lower(item.title.as_str());
    chars_of(l.as_str())
}

/// Compare two media items for a given sort order. Items with no value sort
/// after items with one; ties are broken by title ascending.
pub fn sort_compare(a: &MediaItem, b: &MediaItem, order: SortOrder) -> (r: core::cmp::Ordering)
    ensures
        r == item_order(*a, *b, order),
        r == flipped(item_order(*b, *a, order)),
{
    proof {
        lemma_item_order_flips(*a, *b, order);
    }
    let primary = match order {
        SortOrder::TitleAsc => {
            let x = title_chars(a);
            let y = title_chars(b);
            chars_order(&x, &y)
        },
        SortOrder::TitleDesc => {
            let x = title_chars(a);
            let y = title_chars(b);
            chars_order(&y, &x)
        },
        SortOrder::YearNewest => cmp_option_desc(&a.year, &b.year),
        SortOrder::YearOldest => cmp_option_asc(&a.year, &b.year),
        SortOrder::DateAdded => {
            let x = chars_of(a.added_at.as_str());
            let y = chars_of(b.added_at.as_str());
            chars_order(&y, &x)
        },
        SortOrder::RatingHighest => cmp_option_rating_desc(&a.rating, &b.rating),
        SortOrder::RuntimeLongest => cmp_option_desc(&a.runtime_minutes, &b.runtime_minutes),
    };
    let is_title = match order {
        SortOrder::TitleAsc | SortOrder::TitleDesc => true,
        _ => false,
    };
    match primary {
        core::cmp::Ordering::Equal => {
            if is_title {
                primary
            } else {
                let x = title_chars(a);
                let y = title_chars(b);
                chars_order(&x, &y)
            }
        },
        _ => primary,
    }
}

/// Watch data for one item id: progress fraction in millionths and the
/// watched flag.
#[derive(Debug, Clone, PartialEq)]
pub struct WatchEntry {
    pub id: String,
    pub progress_millionths: i64,
    pub watched: bool,
}

/// The watch data recorded for `id` (the first entry with that id), or
/// `(0, false)` when there is none.
pub open spec fn watch_lookup(data: Seq<WatchEntry>, id: Seq<char>) -> (i64, bool)
    decreases data.len(),
{
    if data.len() == 0 {
        (0, false)
    } else if data[0].id@ == id {
        (data[0].progress_millionths, data[0].watched)
    } else {
        watch_lookup(data.drop_first(), id)
    }
}

fn find_watch(data: &Vec<WatchEntry>, id: &String) -> (r: (i64, bool))
    ensures
        r == watch_lookup(data@, id@),
{
    let mut k: usize = 0;
    assert(data@.skip(0) =~= data@);
    while k < data.len()
        invariant
            k <= data@.len(),
            watch_lookup(data@, id@) == watch_lookup(data@.skip(usz(k)), id@),
        decreases data.len() - k,
    {
        if data[k].id.eq(id) {
            return (data[k].progress_millionths, data[k].watched);
        }
        assert(data@.skip(usz(k)).drop_first() =~= data@.skip(k + 1));
        k = k + 1;
    }
    (0, false)
}

/// Does item `i` pass the search and every active filter, with its watch
/// status resolved from `watch`?
pub open spec fn passes(
    items: Seq<MediaItem>,
    i: int,
    query: Seq<char>,
    filter: FilterState,
    watch: Seq<WatchEntry>,
) -> bool {
    let w = watch_lookup(watch, items[i].id@);
    search_ok(items[i].title@, query) && filter_ok(items[i], filter, watch_status_of(w.0, w.1))
}

/// Consecutive-pair facts of an index sequence sorted stably by `sort`:
/// every earlier index sorts before every later one, and equal items keep
/// their original relative order.
pub open spec fn sorted_stable(items: Seq<MediaItem>, s: Seq<usize>, sort: SortOrder) -> bool {
    &&& forall|i: int, j: int|
        0 <= i < j < s.len() ==> sorts_before(
            #[trigger] items[usz(s[i])],
            #[trigger] items[usz(s[j])],
            sort,
        )
    &&& forall|i: int, j: int|
        0 <= i < j < s.len() && item_order(
            #[trigger] items[usz(s[i])],
            #[trigger] items[usz(s[j])],
            sort,
        ) == core::cmp::Ordering::Equal ==> s[i] < s[j]
}

#[verifier::spinoff_prover]
#[verifier::rlimit(50)]
proof fn lemma_insert_sorted(
    items: Seq<MediaItem>,
    old: Seq<usize>,
    p: int,
    k: usize,
    sort: SortOrder,
)
    requires
        0 <= p <= old.len(),
        k < items.len(),
        forall|i: int| 0 <= i < old.len() ==> #[trigger] old[i] < k,
        forall|i: int| 0 <= i < old.len() ==> #[trigger] old[i] < items.len(),
        sorted_stable(items, old, sort),
        p > 0 ==> sorts_before(items[usz(old[p - 1])], items[usz(k)], sort),
        forall|j: int|
            p <= j < old.len() ==> item_order(
                items[usz(#[trigger] old[j])],
                items[usz(k)],
                sort,
            ) == core::cmp::Ordering::Greater,
    ensures
        sorted_stable(items, old.insert(p, k), sort),
{
    let n = old.insert(p, k);
    assert forall|j: int| p <= j < old.len() implies #[trigger] item_order(
        items[usz(k)],
        items[usz(old[j])],
        sort,
    ) == core::cmp::Ordering::Less by {
        lemma_item_order_flips(items[usz(old[j])], items[usz(k)], sort);
    }
    assert forall|i: int| 0 <= i < p implies #[trigger] sorts_before(
        items[usz(old[i])],
        items[usz(k)],
        sort,
    ) by {
        if i < p - 1 {
            lemma_item_order_transitive(
                items[usz(old[i])],
                items[usz(old[p - 1])],
                items[usz(k)],
                sort,
            );
        }
    }
    assert forall|a: int, b: int| 0 <= a < b < n.len() implies #[trigger] sorts_before(
        items[usz(n[a])],
        items[usz(n[b])],
        sort,
    ) && (item_order(items[usz(n[a])], items[usz(n[b])], sort) == core::cmp::Ordering::Equal
        ==> n[a] < n[b]) by {
        if b < p {
            assert(n[a] == old[a] && n[b] == old[b]);
        } else if b == p {
            assert(n[a] == old[a]);
        } else if a == p {
            assert(n[b] == old[b - 1]);
        } else if a < p {
            assert(n[a] == old[a] && n[b] == old[b - 1]);
        } else {
            assert(n[a] == old[a - 1] && n[b] == old[b - 1]);
        }
    }
}

proof fn lemma_insert_members(old: Seq<usize>, p: int, k: usize, pred: spec_fn(int) -> bool)
    requires
        0 <= p <= old.len(),
        k < usize::MAX,
        old.no_duplicates(),
        pred(usz(k)),
        forall|i: int| 0 <= i < old.len() ==> #[trigger] old[i] < k && pred(usz(old[i])),
        forall|j: int| 0 <= j < k && pred(j) ==> #[trigger] old.contains(uidx(j)),
    ensures
        old.insert(p, k).no_duplicates(),
        forall|i: int|
            0 <= i < old.insert(p, k).len() ==> #[trigger] old.insert(p, k)[i] < k + 1 && pred(
                usz(old.insert(p, k)[i]),
            ),
        forall|j: int| 0 <= j < k + 1 && pred(j) ==> #[trigger] old.insert(p, k).contains(uidx(j)),
{
    let n = old.insert(p, k);
    assert forall|i: int| 0 <= i < n.len() implies #[trigger] n[i] < k + 1 && pred(usz(n[i])) by {
        if i < p {
            assert(n[i] == old[i]);
        } else if i > p {
            assert(n[i] == old[i - 1]);
        }
    }
    assert forall|a: int, b: int| 0 <= a < b < n.len() implies n[a] != n[b] by {
        if a < p && b > p {
            assert(n[b] == old[b - 1]);
        } else if a > p {
            assert(n[a] == old[a - 1]);
            assert(n[b] == old[b - 1]);
        } else if b < p {
        } else if a == p {
            assert(n[b] == old[b - 1]);
        } else {
            assert(n[a] == old[a]);
        }
    }
    assert forall|j: int| 0 <= j < k + 1 && pred(j) implies #[trigger] n.contains(uidx(j)) by {
        if j < k {
            assert(old.contains(uidx(j)));
            let t = choose|t: int| 0 <= t < old.len() && old[t] == uidx(j);
            if t < p {
                assert(n[t] == old[t]);
            } else {
                assert(n[t + 1] == old[t]);
            }
        } else {
            assert(n[p] == k);
        }
    }
}

/// Apply search, filters, and sort to a list of items. Returns indices into
/// `items`, in sorted order; the sort is stable.
pub fn apply_filters_and_sort(
    items: &Vec<MediaItem>,
    query: &str,
    filter: &FilterState,
    sort: SortOrder,
    watch_data: &Vec<WatchEntry>,
) -> (r: Vec<usize>)
    ensures
        r@.no_duplicates(),
        forall|i: int|
            0 <= i < r@.len() ==> #[trigger] r@[i] < items@.len() && passes(
                items@,
                usz(r@[i]),
                query@,
                *filter,
                watch_data@,
            ),
        forall|j: int|
            0 <= j < items@.len() && passes(items@, j, query@, *filter, watch_data@)
                ==> #[trigger] r@.contains(uidx(j)),
        sorted_stable(items@, r@, sort),
{
    let mut out: Vec<usize> = Vec::new();
    let mut k: usize = 0;
    while k < items.len()
        invariant
            k <= items@.len(),
            out@.no_duplicates(),
            forall|i: int|
                0 <= i < out@.len() ==> #[trigger] out@[i] < k && passes(
                    items@,
                    usz(out@[i]),
                    query@,
                    *filter,
                    watch_data@,
                ),
            forall|j: int|
                0 <= j < k && passes(items@, j, query@, *filter, watch_data@)
                    ==> #[trigger] out@.contains(uidx(j)),
            sorted_stable(items@, out@, sort),
        decreases items.len() - k,
    {
        let item = &items[k];
        let (progress, watched) = find_watch(watch_data, &item.id);
        let ws = derived_watch_status(progress, watched);
        if search_matches(item, query) && filter_matches(item, filter, ws) {
            let mut p: usize = out.len();
            while p > 0
                invariant
                    p <= out@.len(),
                    k < items@.len(),
                    forall|i: int| 0 <= i < out@.len() ==> #[trigger] out@[i] < k,
                    forall|j: int|
                        p <= j < out@.len() ==> item_order(
                            items@[usz(#[trigger] out@[j])],
                            items@[usz(k)],
                            sort,
                        ) == core::cmp::Ordering::Greater,
                ensures
                    p <= out@.len(),
                    forall|j: int|
                        p <= j < out@.len() ==> item_order(
                            items@[usz(#[trigger] out@[j])],
                            items@[usz(k)],
                            sort,
                        ) == core::cmp::Ordering::Greater,
                    p > 0 ==> sorts_before(items@[usz(out@[p - 1])], items@[usz(k)], sort),
                decreases p,
            {
                let c = sort_compare(&items[out[p - 1]], &items[k], sort);
                if !is_greater(c) {
                    break;
                }
                p = p - 1;
            }
            let ghost old_out = out@;
            proof {
                lemma_insert_sorted(items@, old_out, usz(p), k, sort);
            }
            out.insert(p, k);
            proof {
                lemma_insert_members(
                    old_out,
                    usz(p),
                    k,
                    |j: int| passes(items@, j, query@, *filter, watch_data@),
                );
                assert(out@ =~= old_out.insert(usz(p), k));
            }
        }
        k = k + 1;
    }
    out
}

// --- Value extraction -----------------------------------------------------------

/// Every genre carried by some item.
pub open spec fn genre_set(items: Seq<MediaItem>) -> Set<Seq<char>> {
    Set::new(
        |g: Seq<char>|
            exists|i: int| 0 <= i < items.len() && #[trigger] strs_view(items[i].genres@).contains(g),
    )
}

/// Every content rating carried by some item.
pub open spec fn content_rating_set(items: Seq<MediaItem>) -> Set<Seq<char>> {
    Set::new(
        |c: Seq<char>|
            exists|i: int| 0 <= i < items.len() && #[trigger] opt_view(items[i].content_rating) == Some(c),
    )
}

/// Extract unique genres from a list of items, sorted alphabetically.
pub fn extract_genres(items: &Vec<MediaItem>) -> (r: Vec<String>)
    ensures
        strictly_sorted(strs_view(r@)),
        strs_view(r@).to_set() == genre_set(items@),
{
    let mut out: Vec<String> = Vec::new();
    let mut k: usize = 0;
    assert(strs_view(out@).to_set() =~= genre_set(items@.subrange(0, 0)));
    while k < items.len()
        invariant
            k <= items@.len(),
            strictly_sorted(strs_view(out@)),
            strs_view(out@).to_set() == genre_set(items@.subrange(0, usz(k))),
        decreases items.len() - k,
    {
        let gs = &items[k].genres;
        let ghost base = genre_set(items@.subrange(0, usz(k)));
        let mut j: usize = 0;
        assert(strs_view(gs@).subrange(0, 0).to_set() =~= Set::empty());
        assert(base.union(Set::empty()) =~= base);
        while j < gs.len()
            invariant
                j <= gs@.len(),
                gs@ == items@[usz(k)].genres@,
                strictly_sorted(strs_view(out@)),
                strs_view(out@).to_set() == base.union(strs_view(gs@).subrange(0, usz(j)).to_set()),
            decreases gs.len() - j,
        {
            let ghost before = strs_view(out@).to_set();
            insert_sorted_unique(&mut out, gs[j].clone());
            proof {
                let a = strs_view(gs@).subrange(0, usz(j));
                let b = strs_view(gs@).subrange(0, j + 1);
                assert(b =~= a.push(gs@[usz(j)]@));
                assert forall|e: Seq<char>| b.to_set().contains(e) <==> a.to_set().insert(gs@[usz(j)]@).contains(e) by {
                    if b.to_set().contains(e) {
                        let t = choose|t: int| 0 <= t < b.len() && b[t] == e;
                        if t < j {
                            assert(a[t] == e);
                        }
                    }
                    if a.to_set().contains(e) {
                        let t = choose|t: int| 0 <= t < a.len() && a[t] == e;
                        assert(b[t] == e);
                    }
                    if e == gs@[usz(j)]@ {
                        assert(b[usz(j)] == e);
                    }
                }
                assert(b.to_set() =~= a.to_set().insert(gs@[usz(j)]@));
                assert(strs_view(out@).to_set() =~= base.union(b.to_set()));
            }
            j = j + 1;
        }
        proof {
            assert(strs_view(gs@).subrange(0, usz(j)) =~= strs_view(gs@));
            let next = genre_set(items@.subrange(0, k + 1));
            assert forall|g: Seq<char>| next.contains(g) <==> base.union(strs_view(gs@).to_set()).contains(g) by {
                if next.contains(g) {
                    let i = choose|i: int| 0 <= i < k + 1 && #[trigger] strs_view(items@.subrange(0, k + 1)[i].genres@).contains(g);
                    if i < k {
                        assert(items@.subrange(0, usz(k))[i] == items@.subrange(0, k + 1)[i]);
                        assert(base.contains(g));
                    } else {
                        assert(strs_view(gs@).to_set().contains(g));
                    }
                }
                if base.contains(g) {
                    let i = choose|i: int| 0 <= i < k && #[trigger] strs_view(items@.subrange(0, usz(k))[i].genres@).contains(g);
                    assert(items@.subrange(0, usz(k))[i] == items@.subrange(0, k + 1)[i]);
                }
                if strs_view(gs@).to_set().contains(g) {
                    assert(items@.subrange(0, k + 1)[usz(k)] == items@[usz(k)]);
                    assert(strs_view(items@.subrange(0, k + 1)[usz(k)].genres@).contains(g));
                }
            }
            assert(next =~= base.union(strs_view(gs@).to_set()));
        }
        k = k + 1;
    }
    assert(items@.subrange(0, usz(k)) =~= items@);
    out
}

/// Extract unique content ratings present in items, sorted alphabetically.
pub fn extract_content_ratings(items: &Vec<MediaItem>) -> (r: Vec<String>)
    ensures
        strictly_sorted(strs_view(r@)),
        strs_view(r@).to_set() == content_rating_set(items@),
{
    let mut out: Vec<String> = Vec::new();
    let mut k: usize = 0;
    assert(strs_view(out@).to_set() =~= content_rating_set(items@.subrange(0, 0)));
    while k < items.len()
        invariant
            k <= items@.len(),
            strictly_sorted(strs_view(out@)),
            strs_view(out@).to_set() == content_rating_set(items@.subrange(0, usz(k))),
        decreases items.len() - k,
    {
        let ghost base = content_rating_set(items@.subrange(0, usz(k)));
        let ghost next = content_rating_set(items@.subrange(0, k + 1));
        match &items[k].content_rating {
            Some(c) => {
                insert_sorted_unique(&mut out, c.clone());
                proof {
                    assert forall|g: Seq<char>| next.contains(g) <==> base.insert(c@).contains(g) by {
                        if next.contains(g) {
                            let i = choose|i: int| 0 <= i < k + 1 && #[trigger] opt_view(items@.subrange(0, k + 1)[i].content_rating) == Some(g);
                            if i < k {
                                assert(items@.subrange(0, usz(k))[i] == items@.subrange(0, k + 1)[i]);
                            }
                        }
                        if base.contains(g) {
                            let i = choose|i: int| 0 <= i < k && #[trigger] opt_view(items@.subrange(0, usz(k))[i].content_rating) == Some(g);
                            assert(items@.subrange(0, usz(k))[i] == items@.subrange(0, k + 1)[i]);
                        }
                        if g == c@ {
                            assert(items@.subrange(0, k + 1)[usz(k)] == items@[usz(k)]);
                            assert(opt_view(items@.subrange(0, k + 1)[usz(k)].content_rating) == Some(g));
                        }
                    }
                    assert(next =~= base.insert(c@));
                }
            },
            None => {
                proof {
                    assert forall|g: Seq<char>| next.contains(g) <==> base.contains(g) by {
                        if next.contains(g) {
                            let i = choose|i: int| 0 <= i < k + 1 && #[trigger] opt_view(items@.subrange(0, k + 1)[i].content_rating) == Some(g);
                            if i < k {
                                assert(items@.subrange(0, usz(k))[i] == items@.subrange(0, k + 1)[i]);
                            } else {
                                assert(items@.subrange(0, k + 1)[i] == items@[usz(k)]);
                            }
                        }
                        if base.contains(g) {
                            let i = choose|i: int| 0 <= i < k && #[trigger] opt_view(items@.subrange(0, usz(k))[i].content_rating) == Some(g);
                            assert(items@.subrange(0, usz(k))[i] == items@.subrange(0, k + 1)[i]);
                        }
                    }
                    assert(next =~= base);
                }
            },
        }
        k = k + 1;
    }
    assert(items@.subrange(0, usz(k)) =~= items@);
    out
}

/// Some item's resolution falls in bucket `b`.
pub open spec fn bucket_present(items: Seq<MediaItem>, b: ResolutionBucket) -> bool {
    exists|i: int|
        0 <= i < items.len() && (#[trigger] opt_view(items[i].video_resolution) matches Some(r)
            && bucket_of(r) == Some(b))
}

/// The buckets present among items, in canonical order.
pub open spec fn present_buckets(items: Seq<MediaItem>) -> Seq<ResolutionBucket> {
    (if bucket_present(items, ResolutionBucket::Sd) {
        seq![ResolutionBucket::Sd]
    } else {
        seq![]
    }) + (if bucket_present(items, ResolutionBucket::R720p) {
        seq![ResolutionBucket::R720p]
    } else {
        seq![]
    }) + (if bucket_present(items, ResolutionBucket::R1080p) {
        seq![ResolutionBucket::R1080p]
    } else {
        seq![]
    }) + (if bucket_present(items, ResolutionBucket::R4k) {
        seq![ResolutionBucket::R4k]
    } else {
        seq![]
    })
}

/// Extract the resolution buckets present in items, in canonical order
/// (SD → 4K).
pub fn extract_resolution_buckets(items: &Vec<MediaItem>) -> (r: Vec<ResolutionBucket>)
    ensures
        r@ == present_buckets(items@),
{
    let mut sd = false;
    let mut p720 = false;
    let mut p1080 = false;
    let mut p4k = false;
    let mut k: usize = 0;
    while k < items.len()
        invariant
            k <= items@.len(),
            sd == bucket_present(items@.subrange(0, usz(k)), ResolutionBucket::Sd),
            p720 == bucket_present(items@.subrange(0, usz(k)), ResolutionBucket::R720p),
            p1080 == bucket_present(items@.subrange(0, usz(k)), ResolutionBucket::R1080p),
            p4k == bucket_present(items@.subrange(0, usz(k)), ResolutionBucket::R4k),
        decreases items.len() - k,
    {
        let ghost pre = items@.subrange(0, usz(k));
        let ghost nxt = items@.subrange(0, k + 1);
        let b = match &items[k].video_resolution {
            Some(raw) => ResolutionBucket::from_resolution(raw.as_str()),
            None => None,
        };
        match b {
            Some(ResolutionBucket::Sd) => {
                sd = true;
            },
            Some(ResolutionBucket::R720p) => {
                p720 = true;
            },
            Some(ResolutionBucket::R1080p) => {
                p1080 = true;
            },
            Some(ResolutionBucket::R4k) => {
                p4k = true;
            },
            None => {},
        }
        proof {
            assert forall|bb: ResolutionBucket| bucket_present(nxt, bb) <==> (bucket_present(
                pre,
                bb,
            ) || b == Some(bb)) by {
                if bucket_present(nxt, bb) {
                    let i = choose|i: int|
                        0 <= i < nxt.len() && (#[trigger] opt_view(nxt[i].video_resolution) matches Some(
                            r,
                        ) && bucket_of(r) == Some(bb));
                    if i < k {
                        assert(pre[i] == nxt[i]);
                    } else {
                        assert(nxt[i] == items@[usz(k)]);
                    }
                }
                if bucket_present(pre, bb) {
                    let i = choose|i: int|
                        0 <= i < pre.len() && (#[trigger] opt_view(pre[i].video_resolution) matches Some(
                            r,
                        ) && bucket_of(r) == Some(bb));
                    assert(pre[i] == nxt[i]);
                }
                if b == Some(bb) {
                    assert(nxt[usz(k)] == items@[usz(k)]);
                    assert(opt_view(nxt[usz(k)].video_resolution) matches Some(r) && bucket_of(r)
                        == Some(bb));
                }
            }
        }
        k = k + 1;
    }
    assert(items@.subrange(0, usz(k)) =~= items@);
    let mut out: Vec<ResolutionBucket> = Vec::new();
    if sd {
        out.push(ResolutionBucket::Sd);
    }
    if p720 {
        out.push(ResolutionBucket::R720p);
    }
    if p1080 {
        out.push(ResolutionBucket::R1080p);
    }
    if p4k {
        out.push(ResolutionBucket::R4k);
    }
    assert(out@ =~= present_buckets(items@));
    out
}

// --- Filter tags, removal, reconciliation and pills ------------------------------

/// Identifies a single active filter value, so a pill can remove exactly the
/// value it represents.
#[derive(Debug, PartialEq, Eq)]
pub enum FilterTag {
    WatchStatus,
    YearRange,
    Genre(String),
    Rating,
    Runtime,
    ContentRating(String),
    Resolution(ResolutionBucket),
    Hdr,
}

/// The mathematical value of a filter tag.
pub enum TagView {
    WatchStatus,
    YearRange,
    Genre(Seq<char>),
    Rating,
    Runtime,
    ContentRating(Seq<char>),
    Resolution(ResolutionBucket),
    Hdr,
}

/// The value of a tag.
pub open spec fn tag_view(t: FilterTag) -> TagView {
    match t {
        FilterTag::WatchStatus => TagView::WatchStatus,
        FilterTag::YearRange => TagView::YearRange,
        FilterTag::Genre(g) => TagView::Genre(g@),
        FilterTag::Rating => TagView::Rating,
        FilterTag::Runtime => TagView::Runtime,
        FilterTag::ContentRating(c) => TagView::ContentRating(c@),
        FilterTag::Resolution(b) => TagView::Resolution(b),
        FilterTag::Hdr => TagView::Hdr,
    }
}

/// The mathematical value of a filter state.
pub struct FilterView {
    pub genres: Option<Seq<Seq<char>>>,
    pub year_range: Option<YearRangeFilter>,
    pub watch_status: Option<WatchStatusFilter>,
    pub rating_min: Option<RatingFilter>,
    pub runtime_range: Option<RuntimeRangeFilter>,
    pub content_ratings: Option<Seq<Seq<char>>>,
    pub resolutions: Option<(Seq<ResolutionBucket>, Option<HdrSelection>)>,
}

impl View for FilterState {
    type V = FilterView;

    open spec fn view(&self) -> FilterView {
        FilterView {
            genres: match self.genres {
                Some(g) => Some(strs_view(g.selected_genres@)),
                None => None,
            },
            year_range: self.year_range,
            watch_status: self.watch_status,
            rating_min: self.rating_min,
            runtime_range: self.runtime_range,
            content_ratings: match self.content_ratings {
                Some(c) => Some(strs_view(c.selected@)),
                None => None,
            },
            resolutions: match self.resolutions {
                Some(r) => Some((r.buckets@, r.hdr)),
                None => None,
            },
        }
    }
}

/// `s` without the bucket `b`.
pub open spec fn buckets_without(s: Seq<ResolutionBucket>, b: ResolutionBucket) -> Seq<
    ResolutionBucket,
>
    decreases s.len(),
{
    if s.len() == 0 {
        s
    } else if s.last() == b {
        buckets_without(s.drop_last(), b)
    } else {
        buckets_without(s.drop_last(), b).push(s.last())
    }
}

/// `s` keeping only buckets `allowed` contains.
pub open spec fn buckets_kept(s: Seq<ResolutionBucket>, allowed: Seq<ResolutionBucket>) -> Seq<
    ResolutionBucket,
>
    decreases s.len(),
{
    if s.len() == 0 {
        s
    } else if allowed.contains(s.last()) {
        buckets_kept(s.drop_last(), allowed).push(s.last())
    } else {
        buckets_kept(s.drop_last(), allowed)
    }
}

/// A multi-select list that became empty clears its whole filter type.
pub open spec fn nonempty_or_none(s: Seq<Seq<char>>) -> Option<Seq<Seq<char>>> {
    if s.len() == 0 {
        None
    } else {
        Some(s)
    }
}

/// The filter state after removing the value a tag names. Removing the last
/// value of a multi-select type clears the whole type.
pub open spec fn removed(v: FilterView, t: TagView) -> FilterView {
    match t {
        TagView::WatchStatus => FilterView { watch_status: None, ..v },
        TagView::YearRange => FilterView { year_range: None, ..v },
        TagView::Rating => FilterView { rating_min: None, ..v },
        TagView::Runtime => FilterView { runtime_range: None, ..v },
        TagView::Hdr => match v.resolutions {
            Some((b, h)) => if b.len() == 0 {
                FilterView { resolutions: None, ..v }
            } else {
                FilterView { resolutions: Some((b, None)), ..v }
            },
            None => v,
        },
        TagView::Genre(g) => match v.genres {
            Some(s) => FilterView { genres: nonempty_or_none(without(s, g)), ..v },
            None => v,
        },
        TagView::ContentRating(c) => match v.content_ratings {
            Some(s) => FilterView { content_ratings: nonempty_or_none(without(s, c)), ..v },
            None => v,
        },
        TagView::Resolution(b) => match v.resolutions {
            Some((bs, h)) => {
                let w = buckets_without(bs, b);
                if w.len() == 0 && h is None {
                    FilterView { resolutions: None, ..v }
                } else {
                    FilterView { resolutions: Some((w, h)), ..v }
                }
            },
            None => v,
        },
    }
}

proof fn lemma_buckets_kept_all(s: Seq<ResolutionBucket>)
    ensures
        buckets_kept(s, s) == s,
{
    assert forall|n: int| 0 <= n <= s.len() implies buckets_kept(#[trigger] s.subrange(0, n), s)
        == s.subrange(0, n) by {
        lemma_buckets_kept_prefix(s, n);
    }
    assert(s.subrange(0, s.len() as int) =~= s);
}

proof fn lemma_buckets_kept_prefix(s: Seq<ResolutionBucket>, n: int)
    requires
        0 <= n <= s.len(),
    ensures
        buckets_kept(s.subrange(0, n), s) == s.subrange(0, n),
    decreases n,
{
    if n > 0 {
        lemma_buckets_kept_prefix(s, n - 1);
        assert(s.subrange(0, n).drop_last() =~= s.subrange(0, n - 1));
        assert(s.contains(s[n - 1]));
        assert(s.subrange(0, n - 1).push(s[n - 1]) =~= s.subrange(0, n));
    }
}

fn bucket_vec_without(v: &Vec<ResolutionBucket>, b: ResolutionBucket) -> (r: Vec<ResolutionBucket>)
    ensures
        r@ == buckets_without(v@, b),
{
    let mut out: Vec<ResolutionBucket> = Vec::new();
    let mut i: usize = 0;
    while i < v.len()
        invariant
            i <= v@.len(),
            out@ == buckets_without(v@.subrange(0, usz(i)), b),
        decreases v.len() - i,
    {
        assert(v@.subrange(0, i + 1).drop_last() =~= v@.subrange(0, usz(i)));
        if v[i] != b {
            out.push(v[i]);
        }
        i = i + 1;
    }
    assert(v@.subrange(0, usz(i)) =~= v@);
    out
}

fn bucket_vec_kept(v: &Vec<ResolutionBucket>, allowed: &Vec<ResolutionBucket>) -> (r: Vec<
    ResolutionBucket,
>)
    ensures
        r@ == buckets_kept(v@, allowed@),
{
    let mut out: Vec<ResolutionBucket> = Vec::new();
    let mut i: usize = 0;
    while i < v.len()
        invariant
            i <= v@.len(),
            out@ == buckets_kept(v@.subrange(0, usz(i)), allowed@),
        decreases v.len() - i,
    {
        assert(v@.subrange(0, i + 1).drop_last() =~= v@.subrange(0, usz(i)));
        if buckets_contain(allowed, v[i]) {
            out.push(v[i]);
        }
        i = i + 1;
    }
    assert(v@.subrange(0, usz(i)) =~= v@);
    out
}

impl FilterState {
    /// Returns true if any filter is active.
    pub fn is_active(&self) -> (r: bool)
        ensures
            r == !filter_state_empty(*self),
    {
        self.genres.is_some() || self.year_range.is_some() || self.watch_status.is_some()
            || self.rating_min.is_some() || self.runtime_range.is_some()
            || self.content_ratings.is_some() || self.resolutions.is_some()
    }

    /// Reset all filters to inactive.
    pub fn clear(&mut self)
        ensures
            filter_state_empty(*final(self)),
    {
        *self = FilterState::default();
    }

    /// Remove a single filter value identified by a `FilterTag`. Removing the
    /// last value of a multi-select type clears the whole type.
    pub fn remove(&mut self, tag: &FilterTag)
        ensures
            final(self)@ == removed(old(self)@, tag_view(*tag)),
    {
        match tag {
            FilterTag::WatchStatus => {
                self.watch_status = None;
            },
            FilterTag::YearRange => {
                self.year_range = None;
            },
            FilterTag::Rating => {
                self.rating_min = None;
            },
            FilterTag::Runtime => {
                self.runtime_range = None;
            },
            FilterTag::Hdr => {
                let next = match &self.resolutions {
                    Some(res) => {
                        if res.buckets.len() == 0 {
                            None
                        } else {
                            let b = bucket_vec_kept(&res.buckets, &res.buckets);
                            proof {
                                lemma_buckets_kept_all(res.buckets@);
                            }
                            Some(Some(ResolutionFilter { buckets: b, hdr: None }))
                        }
                    },
                    None => Some(None),
                };
                match next {
                    Some(Some(r)) => {
                        self.resolutions = Some(r);
                    },
                    Some(None) => {},
                    None => {
                        self.resolutions = None;
                    },
                }
            },
            FilterTag::Genre(g) => {
                let next = match &self.genres {
                    Some(gf) => Some(strings_without(&gf.selected_genres, g)),
                    None => None,
                };
                if let Some(w) = next {
                    assert(strs_view(w@).len() == w@.len());
                    if w.len() == 0 {
                        self.genres = None;
                    } else {
                        self.genres = Some(GenreFilter { selected_genres: w });
                    }
                }
            },
            FilterTag::ContentRating(c) => {
                let next = match &self.content_ratings {
                    Some(cf) => Some(strings_without(&cf.selected, c)),
                    None => None,
                };
                if let Some(w) = next {
                    assert(strs_view(w@).len() == w@.len());
                    if w.len() == 0 {
                        self.content_ratings = None;
                    } else {
                        self.content_ratings = Some(ContentRatingFilter { selected: w });
                    }
                }
            },
            FilterTag::Resolution(b) => {
                let next = match &self.resolutions {
                    Some(res) => Some((bucket_vec_without(&res.buckets, *b), res.hdr)),
                    None => None,
                };
                if let Some((w, h)) = next {
                    if w.len() == 0 && h.is_none() {
                        self.resolutions = None;
                    } else {
                        self.resolutions = Some(ResolutionFilter { buckets: w, hdr: h });
                    }
                }
            },
        }
    }
}

/// The filter state with genre, content-rating and resolution values that
/// match nothing in the item set dropped; ranges and watch status kept.
pub open spec fn reconciled(v: FilterView, items: Seq<MediaItem>) -> FilterView {
    FilterView {
        genres: match v.genres {
            Some(s) => nonempty_or_none(kept_in(s, genre_set(items))),
            None => None,
        },
        content_ratings: match v.content_ratings {
            Some(s) => nonempty_or_none(kept_in(s, content_rating_set(items))),
            None => None,
        },
        resolutions: match v.resolutions {
            Some((bs, h)) => {
                let w = buckets_kept(bs, present_buckets(items));
                if w.len() == 0 && h is None {
                    None
                } else {
                    Some((w, h))
                }
            },
            None => None,
        },
        ..v
    }
}

/// Drop any filter values that no longer correspond to something in the
/// current item set, so a restored filter never shows a pill that matches
/// nothing. Numeric ranges and watch status are left intact.
pub fn reconcile(filter: &FilterState, items: &Vec<MediaItem>) -> (r: FilterState)
    ensures
        r@ == reconciled(filter@, items@),
{
    let genres = match &filter.genres {
        Some(gf) => {
            let available = extract_genres(items);
            let w = strings_kept_in(&gf.selected_genres, &available);
            if w.len() == 0 {
                None
            } else {
                Some(GenreFilter { selected_genres: w })
            }
        },
        None => None,
    };
    let content_ratings = match &filter.content_ratings {
        Some(cf) => {
            let available = extract_content_ratings(items);
            let w = strings_kept_in(&cf.selected, &available);
            if w.len() == 0 {
                None
            } else {
                Some(ContentRatingFilter { selected: w })
            }
        },
        None => None,
    };
    let resolutions = match &filter.resolutions {
        Some(res) => {
            let available = extract_resolution_buckets(items);
            let w = bucket_vec_kept(&res.buckets, &available);
            if w.len() == 0 && res.hdr.is_none() {
                None
            } else {
                Some(ResolutionFilter { buckets: w, hdr: res.hdr })
            }
        },
        None => None,
    };
    FilterState {
        genres,
        year_range: filter.year_range,
        watch_status: filter.watch_status,
        rating_min: filter.rating_min,
        runtime_range: filter.runtime_range,
        content_ratings,
        resolutions,
    }
}

/// The label for an optional inclusive range; `None` when both ends are open.
pub open spec fn range_label(
    prefix: Seq<char>,
    from: Option<i32>,
    to: Option<i32>,
    suffix: Seq<char>,
) -> Option<Seq<char>> {
    match (from, to) {
        (Some(f), Some(t)) => Some(
            prefix + " "@ + int_digits(f as int) + "\u{2013}"@ + int_digits(t as int) + suffix,
        ),
        (Some(f), None) => Some(prefix + " \u{2265}"@ + int_digits(f as int) + suffix),
        (None, Some(t)) => Some(prefix + " \u{2264}"@ + int_digits(t as int) + suffix),
        (None, None) => None,
    }
}

/// The runtime pill label: an open lower bound reads `Runtime <{to + 1} min`.
pub open spec fn runtime_label(from: Option<i32>, to: Option<i32>) -> Option<Seq<char>> {
    match (from, to) {
        (None, Some(t)) => Some("Runtime <"@ + int_digits(t + 1) + " min"@),
        _ => range_label("Runtime"@, from, to, " min"@),
    }
}

/// An optional single pill as a sequence.
pub open spec fn opt_pill(tag: TagView, label: Option<Seq<char>>) -> Seq<(TagView, Seq<char>)> {
    match label {
        Some(l) => seq![(tag, l)],
        None => seq![],
    }
}

/// Watch-status pill.
pub open spec fn ws_pills(v: FilterView) -> Seq<(TagView, Seq<char>)> {
    match v.watch_status {
        Some(w) => seq![(TagView::WatchStatus, watch_status_label(w.status))],
        None => seq![],
    }
}

/// Year pill.
pub open spec fn year_pills(v: FilterView) -> Seq<(TagView, Seq<char>)> {
    match v.year_range {
        Some(y) => opt_pill(TagView::YearRange, range_label("Year"@, y.from, y.to, ""@)),
        None => seq![],
    }
}

/// One pill per selected genre.
pub open spec fn genre_pills(v: FilterView) -> Seq<(TagView, Seq<char>)> {
    match v.genres {
        Some(gs) => gs.map_values(|g: Seq<char>| (TagView::Genre(g), "Genre: "@ + g)),
        None => seq![],
    }
}

/// Rating pill.
pub open spec fn rating_pills(v: FilterView) -> Seq<(TagView, Seq<char>)> {
    match v.rating_min {
        Some(rf) => seq![(TagView::Rating, "Rating \u{2265}"@ + rating_text(rf.min as int))],
        None => seq![],
    }
}

/// Runtime pill.
pub open spec fn runtime_pills(v: FilterView) -> Seq<(TagView, Seq<char>)> {
    match v.runtime_range {
        Some(rt) => opt_pill(TagView::Runtime, runtime_label(rt.from, rt.to)),
        None => seq![],
    }
}

/// One pill per selected content rating.
pub open spec fn content_rating_pills(v: FilterView) -> Seq<(TagView, Seq<char>)> {
    match v.content_ratings {
        Some(cs) => cs.map_values(|c: Seq<char>| (TagView::ContentRating(c), c)),
        None => seq![],
    }
}

/// One pill per resolution bucket, then the HDR pill.
pub open spec fn resolution_pills(v: FilterView) -> Seq<(TagView, Seq<char>)> {
    match v.resolutions {
        Some((bs, h)) => bs.map_values(
            |b: ResolutionBucket| (TagView::Resolution(b), bucket_label(b)),
        ) + (match h {
            Some(HdrSelection::AnyHdr) => seq![(TagView::Hdr, "HDR"@)],
            Some(HdrSelection::SdrOnly) => seq![(TagView::Hdr, "SDR only"@)],
            None => seq![],
        }),
        None => seq![],
    }
}

/// The pills, in display order, for a filter state: watch status, year,
/// each genre, rating, runtime, each content rating, each resolution, HDR.
pub open spec fn pills_of(v: FilterView) -> Seq<(TagView, Seq<char>)> {
    ws_pills(v) + year_pills(v) + genre_pills(v) + rating_pills(v) + runtime_pills(v)
        + content_rating_pills(v) + resolution_pills(v)
}

/// The values of a pill list.
pub open spec fn pills_view(p: Seq<(FilterTag, String)>) -> Seq<(TagView, Seq<char>)> {
    p.map_values(|x: (FilterTag, String)| (tag_view(x.0), x.1@))
}

fn push_pill(pills: &mut Vec<(FilterTag, String)>, tag: FilterTag, label: String)
    ensures
        pills_view(final(pills)@) == pills_view(old(pills)@).push((tag_view(tag), label@)),
{
    pills.push((tag, label));
    assert(pills_view(pills@) =~= pills_view(old(pills)@).push((tag_view(tag), label@)));
}

fn range_text(prefix: &str, from: Option<i32>, to: Option<i32>, suffix: &str) -> (r: Option<
    String,
>)
    ensures
        opt_view(r) == range_label(prefix@, from, to, suffix@),
{
    match (from, to) {
        (Some(f), Some(t)) => {
            let mut s = String::new();
            s.append(prefix);
            s.append(" ");
            push_int(&mut s, f as i64);
            s.append("\u{2013}");
            push_int(&mut s, t as i64);
            s.append(suffix);
            assert(s@ =~= prefix@ + " "@ + int_digits(f as int) + "\u{2013}"@ + int_digits(t as int)
                + suffix@);
            Some(s)
        },
        (Some(f), None) => {
            let mut s = String::new();
            s.append(prefix);
            s.append(" \u{2265}");
            push_int(&mut s, f as i64);
            s.append(suffix);
            assert(s@ =~= prefix@ + " \u{2265}"@ + int_digits(f as int) + suffix@);
            Some(s)
        },
        (None, Some(t)) => {
            let mut s = String::new();
            s.append(prefix);
            s.append(" \u{2264}");
            push_int(&mut s, t as i64);
            s.append(suffix);
            assert(s@ =~= prefix@ + " \u{2264}"@ + int_digits(t as int) + suffix@);
            Some(s)
        },
        (None, None) => None,
    }
}

fn add_watch_pill(filter: &FilterState, pills: &mut Vec<(FilterTag, String)>)
    ensures
        pills_view(final(pills)@) == pills_view(old(pills)@) + ws_pills(filter@),
{
    if let Some(ws) = &filter.watch_status {
        push_pill(pills, FilterTag::WatchStatus, crate::text::owned(ws.status.label()));
    }
    assert(pills_view(pills@) =~= pills_view(old(pills)@) + ws_pills(filter@));
}

fn add_year_pill(filter: &FilterState, pills: &mut Vec<(FilterTag, String)>)
    ensures
        pills_view(final(pills)@) == pills_view(old(pills)@) + year_pills(filter@),
{
    if let Some(yr) = &filter.year_range {
        if let Some(label) = range_text("Year", yr.from, yr.to, "") {
            push_pill(pills, FilterTag::YearRange, label);
        }
    }
    assert(pills_view(pills@) =~= pills_view(old(pills)@) + year_pills(filter@));
}

fn add_genre_pills(filter: &FilterState, pills: &mut Vec<(FilterTag, String)>)
    ensures
        pills_view(final(pills)@) == pills_view(old(pills)@) + genre_pills(filter@),
{
    let ghost p0 = pills_view(pills@);
    if let Some(gf) = &filter.genres {
        let mut i: usize = 0;
        while i < gf.selected_genres.len()
            invariant
                i <= gf.selected_genres@.len(),
                pills_view(pills@) == p0 + strs_view(gf.selected_genres@).subrange(0, i as int).map_values(
                    |g: Seq<char>| (TagView::Genre(g), "Genre: "@ + g),
                ),
            decreases gf.selected_genres.len() - i,
        {
            let g = &gf.selected_genres[i];
            let label = crate::text::concat2("Genre: ", g.as_str());
            push_pill(pills, FilterTag::Genre(g.clone()), label);
            assert(strs_view(gf.selected_genres@).subrange(0, i + 1) =~= strs_view(
                gf.selected_genres@,
            ).subrange(0, i as int).push(g@));
            i = i + 1;
            assert(pills_view(pills@) =~= p0 + strs_view(gf.selected_genres@).subrange(
                0,
                i as int,
            ).map_values(|g: Seq<char>| (TagView::Genre(g), "Genre: "@ + g)));
        }
        assert(strs_view(gf.selected_genres@).subrange(0, i as int) =~= strs_view(
            gf.selected_genres@,
        ));
    }
    assert(pills_view(pills@) =~= p0 + genre_pills(filter@));
}

fn add_rating_pill(filter: &FilterState, pills: &mut Vec<(FilterTag, String)>)
    ensures
        pills_view(final(pills)@) == pills_view(old(pills)@) + rating_pills(filter@),
{
    if let Some(rf) = &filter.rating_min {
        let mut s = String::new();
        s.append("Rating \u{2265}");
        push_rating(&mut s, rf.min);
        push_pill(pills, FilterTag::Rating, s);
    }
    assert(pills_view(pills@) =~= pills_view(old(pills)@) + rating_pills(filter@));
}

fn add_runtime_pill(filter: &FilterState, pills: &mut Vec<(FilterTag, String)>)
    ensures
        pills_view(final(pills)@) == pills_view(old(pills)@) + runtime_pills(filter@),
{
    if let Some(rt) = &filter.runtime_range {
        let label = match (rt.from, rt.to) {
            (None, Some(t)) => {
                let mut s = String::new();
                s.append("Runtime <");
                push_int(&mut s, t as i64 + 1);
                s.append(" min");
                assert(s@ =~= "Runtime <"@ + int_digits(t + 1) + " min"@);
                Some(s)
            },
            _ => range_text("Runtime", rt.from, rt.to, " min"),
        };
        if let Some(l) = label {
            push_pill(pills, FilterTag::Runtime, l);
        }
    }
    assert(pills_view(pills@) =~= pills_view(old(pills)@) + runtime_pills(filter@));
}

fn add_content_rating_pills(filter: &FilterState, pills: &mut Vec<(FilterTag, String)>)
    ensures
        pills_view(final(pills)@) == pills_view(old(pills)@) + content_rating_pills(filter@),
{
    let ghost p0 = pills_view(pills@);
    if let Some(cf) = &filter.content_ratings {
        let mut i: usize = 0;
        while i < cf.selected.len()
            invariant
                i <= cf.selected@.len(),
                pills_view(pills@) == p0 + strs_view(cf.selected@).subrange(0, i as int).map_values(
                    |c: Seq<char>| (TagView::ContentRating(c), c),
                ),
            decreases cf.selected.len() - i,
        {
            let c = &cf.selected[i];
            push_pill(pills, FilterTag::ContentRating(c.clone()), c.clone());
            assert(strs_view(cf.selected@).subrange(0, i + 1) =~= strs_view(cf.selected@).subrange(
                0,
                i as int,
            ).push(c@));
            i = i + 1;
            assert(pills_view(pills@) =~= p0 + strs_view(cf.selected@).subrange(0, i as int).map_values(
                |c: Seq<char>| (TagView::ContentRating(c), c),
            ));
        }
        assert(strs_view(cf.selected@).subrange(0, i as int) =~= strs_view(cf.selected@));
    }
    assert(pills_view(pills@) =~= p0 + content_rating_pills(filter@));
}

fn add_resolution_pills(filter: &FilterState, pills: &mut Vec<(FilterTag, String)>)
    ensures
        pills_view(final(pills)@) == pills_view(old(pills)@) + resolution_pills(filter@),
{
    let ghost p0 = pills_view(pills@);
    if let Some(res) = &filter.resolutions {
        let mut i: usize = 0;
        while i < res.buckets.len()
            invariant
                i <= res.buckets@.len(),
                pills_view(pills@) == p0 + res.buckets@.subrange(0, i as int).map_values(
                    |b: ResolutionBucket| (TagView::Resolution(b), bucket_label(b)),
                ),
            decreases res.buckets.len() - i,
        {
            let b = res.buckets[i];
            push_pill(pills, FilterTag::Resolution(b), crate::text::owned(b.label()));
            assert(res.buckets@.subrange(0, i + 1) =~= res.buckets@.subrange(0, i as int).push(b));
            i = i + 1;
            assert(pills_view(pills@) =~= p0 + res.buckets@.subrange(0, i as int).map_values(
                |b: ResolutionBucket| (TagView::Resolution(b), bucket_label(b)),
            ));
        }
        assert(res.buckets@.subrange(0, i as int) =~= res.buckets@);
        let ghost p1 = pills_view(pills@);
        match res.hdr {
            Some(HdrSelection::AnyHdr) => {
                push_pill(pills, FilterTag::Hdr, crate::text::owned("HDR"));
            },
            Some(HdrSelection::SdrOnly) => {
                push_pill(pills, FilterTag::Hdr, crate::text::owned("SDR only"));
            },
            None => {},
        }
    }
    assert(pills_view(pills@) =~= p0 + resolution_pills(filter@));
}

/// Build the human-readable pill list for the active filters. One entry per
/// active value; each carries the `FilterTag` its removal targets.
pub fn pill_labels(filter: &FilterState) -> (r: Vec<(FilterTag, String)>)
    ensures
        pills_view(r@) == pills_of(filter@),
{
    let mut pills: Vec<(FilterTag, String)> = Vec::new();
    add_watch_pill(filter, &mut pills);
    add_year_pill(filter, &mut pills);
    add_genre_pills(filter, &mut pills);
    add_rating_pill(filter, &mut pills);
    add_runtime_pill(filter, &mut pills);
    add_content_rating_pills(filter, &mut pills);
    add_resolution_pills(filter, &mut pills);
    assert(pills_view(pills@) =~= pills_of(filter@));
    pills
}

// --- Removing a tag drops exactly its pills --------------------------------------

/// Whether a pill carries a tag other than `t`.
pub open spec fn not_tagged(t: TagView) -> spec_fn((TagView, Seq<char>)) -> bool {
    |x: (TagView, Seq<char>)| x.0 != t
}

proof fn lemma_filter_keeps_all(s: Seq<(TagView, Seq<char>)>, t: TagView)
    requires
        forall|i: int| 0 <= i < s.len() ==> #[trigger] s[i].0 != t,
    ensures
        s.filter(not_tagged(t)) == s,
    decreases s.len(),
{
    reveal(Seq::filter);
    if s.len() > 0 {
        lemma_filter_keeps_all(s.drop_last(), t);
        assert(s.drop_last().push(s.last()) =~= s);
    }
}

proof fn lemma_filter_drops_all(s: Seq<(TagView, Seq<char>)>, t: TagView)
    requires
        forall|i: int| 0 <= i < s.len() ==> #[trigger] s[i].0 == t,
    ensures
        s.filter(not_tagged(t)) == Seq::<(TagView, Seq<char>)>::empty(),
    decreases s.len(),
{
    reveal(Seq::filter);
    if s.len() > 0 {
        lemma_filter_drops_all(s.drop_last(), t);
    }
}

proof fn lemma_genre_pills_without(gs: Seq<Seq<char>>, target: Seq<char>)
    ensures
        gs.map_values(|g: Seq<char>| (TagView::Genre(g), "Genre: "@ + g)).filter(
            not_tagged(TagView::Genre(target)),
        ) == without(gs, target).map_values(|g: Seq<char>| (TagView::Genre(g), "Genre: "@ + g)),
    decreases gs.len(),
{
    reveal(Seq::filter);
    if gs.len() > 0 {
        let f = |g: Seq<char>| (TagView::Genre(g), "Genre: "@ + g);
        lemma_genre_pills_without(gs.drop_last(), target);
        assert(gs.map_values(f).drop_last() =~= gs.drop_last().map_values(f));
        if gs.last() != target {
            assert(without(gs, target).map_values(f) =~= without(gs.drop_last(), target).map_values(
                f,
            ).push(f(gs.last())));
        }
    }
}

proof fn lemma_rating_pills_without(cs: Seq<Seq<char>>, target: Seq<char>)
    ensures
        cs.map_values(|c: Seq<char>| (TagView::ContentRating(c), c)).filter(
            not_tagged(TagView::ContentRating(target)),
        ) == without(cs, target).map_values(|c: Seq<char>| (TagView::ContentRating(c), c)),
    decreases cs.len(),
{
    reveal(Seq::filter);
    if cs.len() > 0 {
        let f = |c: Seq<char>| (TagView::ContentRating(c), c);
        lemma_rating_pills_without(cs.drop_last(), target);
        assert(cs.map_values(f).drop_last() =~= cs.drop_last().map_values(f));
        if cs.last() != target {
            assert(without(cs, target).map_values(f) =~= without(cs.drop_last(), target).map_values(
                f,
            ).push(f(cs.last())));
        }
    }
}

proof fn lemma_bucket_pills_without(bs: Seq<ResolutionBucket>, target: ResolutionBucket)
    ensures
        bs.map_values(|b: ResolutionBucket| (TagView::Resolution(b), bucket_label(b))).filter(
            not_tagged(TagView::Resolution(target)),
        ) == buckets_without(bs, target).map_values(
            |b: ResolutionBucket| (TagView::Resolution(b), bucket_label(b)),
        ),
    decreases bs.len(),
{
    reveal(Seq::filter);
    if bs.len() > 0 {
        let f = |b: ResolutionBucket| (TagView::Resolution(b), bucket_label(b));
        lemma_bucket_pills_without(bs.drop_last(), target);
        assert(bs.map_values(f).drop_last() =~= bs.drop_last().map_values(f));
        if bs.last() != target {
            assert(buckets_without(bs, target).map_values(f) =~= buckets_without(
                bs.drop_last(),
                target,
            ).map_values(f).push(f(bs.last())));
        }
    }
}

proof fn lemma_single_groups(v: FilterView, t: TagView)
    ensures
        ws_pills(removed(v, t)) == ws_pills(v).filter(not_tagged(t)),
        year_pills(removed(v, t)) == year_pills(v).filter(not_tagged(t)),
        rating_pills(removed(v, t)) == rating_pills(v).filter(not_tagged(t)),
        runtime_pills(removed(v, t)) == runtime_pills(v).filter(not_tagged(t)),
{
    if t is WatchStatus {
        lemma_filter_drops_all(ws_pills(v), t);
    } else {
        lemma_filter_keeps_all(ws_pills(v), t);
    }
    if t is YearRange {
        lemma_filter_drops_all(year_pills(v), t);
    } else {
        lemma_filter_keeps_all(year_pills(v), t);
    }
    if t is Rating {
        lemma_filter_drops_all(rating_pills(v), t);
    } else {
        lemma_filter_keeps_all(rating_pills(v), t);
    }
    if t is Runtime {
        lemma_filter_drops_all(runtime_pills(v), t);
    } else {
        lemma_filter_keeps_all(runtime_pills(v), t);
    }
}

proof fn lemma_genre_group(v: FilterView, t: TagView)
    ensures
        genre_pills(removed(v, t)) == genre_pills(v).filter(not_tagged(t)),
        content_rating_pills(removed(v, t)) == content_rating_pills(v).filter(not_tagged(t)),
{
    match t {
        TagView::Genre(g) => {
            lemma_filter_keeps_all(content_rating_pills(v), t);
            match v.genres {
                Some(gs) => {
                    lemma_genre_pills_without(gs, g);
                    if without(gs, g).len() == 0 {
                        assert(genre_pills(removed(v, t)) =~= without(gs, g).map_values(
                            |g: Seq<char>| (TagView::Genre(g), "Genre: "@ + g),
                        ));
                    }
                },
                None => {
                    lemma_filter_keeps_all(genre_pills(v), t);
                },
            }
        },
        TagView::ContentRating(c) => {
            lemma_filter_keeps_all(genre_pills(v), t);
            match v.content_ratings {
                Some(cs) => {
                    lemma_rating_pills_without(cs, c);
                    if without(cs, c).len() == 0 {
                        assert(content_rating_pills(removed(v, t)) =~= without(cs, c).map_values(
                            |c: Seq<char>| (TagView::ContentRating(c), c),
                        ));
                    }
                },
                None => {
                    lemma_filter_keeps_all(content_rating_pills(v), t);
                },
            }
        },
        _ => {
            lemma_filter_keeps_all(genre_pills(v), t);
            lemma_filter_keeps_all(content_rating_pills(v), t);
        },
    }
}

proof fn lemma_resolution_group(v: FilterView, t: TagView)
    ensures
        resolution_pills(removed(v, t)) == resolution_pills(v).filter(not_tagged(t)),
{
    let f = |b: ResolutionBucket| (TagView::Resolution(b), bucket_label(b));
    match v.resolutions {
        None => {
            lemma_filter_keeps_all(resolution_pills(v), t);
        },
        Some((bs, h)) => {
            let hp: Seq<(TagView, Seq<char>)> = match h {
                Some(HdrSelection::AnyHdr) => seq![(TagView::Hdr, "HDR"@)],
                Some(HdrSelection::SdrOnly) => seq![(TagView::Hdr, "SDR only"@)],
                None => seq![],
            };
            assert(resolution_pills(v) == bs.map_values(f) + hp);
            Seq::filter_distributes_over_add(bs.map_values(f), hp, not_tagged(t));
            match t {
                TagView::Resolution(b) => {
                    lemma_bucket_pills_without(bs, b);
                    lemma_filter_keeps_all(hp, t);
                    let w = buckets_without(bs, b);
                    if w.len() == 0 && h is None {
                        assert(w.map_values(f) + hp =~= Seq::<(TagView, Seq<char>)>::empty());
                    }
                },
                TagView::Hdr => {
                    lemma_filter_keeps_all(bs.map_values(f), t);
                    lemma_filter_drops_all(hp, t);
                    assert(bs.map_values(f) + Seq::<(TagView, Seq<char>)>::empty() =~= bs.map_values(f));
                    if bs.len() == 0 {
                        assert(bs.map_values(f) =~= Seq::<(TagView, Seq<char>)>::empty());
                    } else {
                        assert(resolution_pills(removed(v, t)) =~= bs.map_values(f) + Seq::<
                            (TagView, Seq<char>),
                        >::empty());
                    }
                },
                _ => {
                    lemma_filter_keeps_all(bs.map_values(f), t);
                    lemma_filter_keeps_all(hp, t);
                },
            }
        },
    }
}

/// Removing a tag drops exactly the pills that carry it: every other pill
/// stays, in the same order.
pub proof fn lemma_remove_drops_its_pills(v: FilterView, t: TagView)
    ensures
        pills_of(removed(v, t)) == pills_of(v).filter(not_tagged(t)),
{
    let p = not_tagged(t);
    lemma_single_groups(v, t);
    lemma_genre_group(v, t);
    lemma_resolution_group(v, t);
    let a1 = ws_pills(v);
    let a2 = year_pills(v);
    let a3 = genre_pills(v);
    let a4 = rating_pills(v);
    let a5 = runtime_pills(v);
    let a6 = content_rating_pills(v);
    let a7 = resolution_pills(v);
    Seq::filter_distributes_over_add(a1, a2, p);
    Seq::filter_distributes_over_add(a1 + a2, a3, p);
    Seq::filter_distributes_over_add(a1 + a2 + a3, a4, p);
    Seq::filter_distributes_over_add(a1 + a2 + a3 + a4, a5, p);
    Seq::filter_distributes_over_add(a1 + a2 + a3 + a4 + a5, a6, p);
    Seq::filter_distributes_over_add(a1 + a2 + a3 + a4 + a5 + a6, a7, p);
}

// --- Reconciliation is idempotent and keeps only offered values -------------------

proof fn lemma_kept_in_idempotent(s: Seq<Seq<char>>, allowed: Set<Seq<char>>)
    ensures
        kept_in(kept_in(s, allowed), allowed) == kept_in(s, allowed),
        forall|i: int|
            0 <= i < kept_in(s, allowed).len() ==> allowed.contains(#[trigger] kept_in(s, allowed)[i]),
    decreases s.len(),
{
    if s.len() > 0 {
        lemma_kept_in_idempotent(s.drop_last(), allowed);
        let k0 = kept_in(s.drop_last(), allowed);
        if allowed.contains(s.last()) {
            assert(k0.push(s.last()).drop_last() =~= k0);
        }
    }
}

proof fn lemma_buckets_kept_idempotent(s: Seq<ResolutionBucket>, allowed: Seq<ResolutionBucket>)
    ensures
        buckets_kept(buckets_kept(s, allowed), allowed) == buckets_kept(s, allowed),
        forall|i: int|
            0 <= i < buckets_kept(s, allowed).len() ==> allowed.contains(
                #[trigger] buckets_kept(s, allowed)[i],
            ),
    decreases s.len(),
{
    if s.len() > 0 {
        lemma_buckets_kept_idempotent(s.drop_last(), allowed);
        let k0 = buckets_kept(s.drop_last(), allowed);
        if allowed.contains(s.last()) {
            assert(k0.push(s.last()).drop_last() =~= k0);
        }
    }
}

/// Reconciling twice against the same items changes nothing more, and what
/// reconciliation keeps is on offer: every kept genre and content rating is
/// carried by some item, and every kept resolution bucket is present among
/// the items. Ranges, watch status and rating are left as they were.
pub proof fn lemma_reconcile_settles(v: FilterView, items: Seq<MediaItem>)
    ensures
        reconciled(reconciled(v, items), items) == reconciled(v, items),
        reconciled(v, items).year_range == v.year_range,
        reconciled(v, items).watch_status == v.watch_status,
        reconciled(v, items).rating_min == v.rating_min,
        reconciled(v, items).runtime_range == v.runtime_range,
        reconciled(v, items).genres matches Some(gs) ==> forall|i: int|
            0 <= i < gs.len() ==> genre_set(items).contains(#[trigger] gs[i]),
        reconciled(v, items).content_ratings matches Some(cs) ==> forall|i: int|
            0 <= i < cs.len() ==> content_rating_set(items).contains(#[trigger] cs[i]),
        reconciled(v, items).resolutions matches Some((bs, h)) ==> forall|i: int|
            0 <= i < bs.len() ==> present_buckets(items).contains(#[trigger] bs[i]),
{
    if let Some(gs) = v.genres {
        lemma_kept_in_idempotent(gs, genre_set(items));
    }
    if let Some(cs) = v.content_ratings {
        lemma_kept_in_idempotent(cs, content_rating_set(items));
    }
    if let Some((bs, h)) = v.resolutions {
        lemma_buckets_kept_idempotent(bs, present_buckets(items));
    }
}

// --- What each sort order means -----------------------------------------------------

/// What each sort order puts first, over all pairs of items:
/// - `YearOldest` puts the earlier year first and `YearNewest` the later one,
///   so on two different years each is the other's reverse;
/// - `RatingHighest` puts the higher rating first and `RuntimeLongest` the
///   longer runtime;
/// - `DateAdded` puts the later `added_at` first;
/// - an item with a year (rating, runtime) goes before one without;
/// - `TitleAsc` puts the alphabetically earlier title first, `TitleDesc` the
///   later;
/// - on equal years, the non-title orders fall back to title ascending.
pub proof fn lemma_sort_orders_mean_what_they_say(a: MediaItem, b: MediaItem)
    ensures
        a.year is Some && b.year is Some && a.year->0 < b.year->0 ==> item_order(
            a,
            b,
            SortOrder::YearOldest,
        ) == core::cmp::Ordering::Less && item_order(a, b, SortOrder::YearNewest)
            == core::cmp::Ordering::Greater,
        a.year is Some && b.year is Some && a.year->0 != b.year->0 ==> item_order(
            a,
            b,
            SortOrder::YearOldest,
        ) == item_order(b, a, SortOrder::YearNewest),
        a.year is Some && b.year is None ==> item_order(a, b, SortOrder::YearOldest)
            == core::cmp::Ordering::Less && item_order(a, b, SortOrder::YearNewest)
            == core::cmp::Ordering::Less,
        a.rating is Some && b.rating is Some && a.rating->0 > b.rating->0 ==> item_order(
            a,
            b,
            SortOrder::RatingHighest,
        ) == core::cmp::Ordering::Less,
        a.rating is Some && b.rating is None ==> item_order(a, b, SortOrder::RatingHighest)
            == core::cmp::Ordering::Less,
        a.runtime_minutes is Some && b.runtime_minutes is Some && a.runtime_minutes->0
            > b.runtime_minutes->0 ==> item_order(a, b, SortOrder::RuntimeLongest)
            == core::cmp::Ordering::Less,
        a.runtime_minutes is Some && b.runtime_minutes is None ==> item_order(
            a,
            b,
            SortOrder::RuntimeLongest,
        ) == core::cmp::Ordering::Less,
        seq_order(a.added_at@, b.added_at@) == core::cmp::Ordering::Greater ==> item_order(
            a,
            b,
            SortOrder::DateAdded,
        ) == core::cmp::Ordering::Less,
        seq_order(lowercase(a.title@), lowercase(b.title@)) == core::cmp::Ordering::Less
            ==> item_order(a, b, SortOrder::TitleAsc) == core::cmp::Ordering::Less && item_order(
            a,
            b,
            SortOrder::TitleDesc,
        ) == core::cmp::Ordering::Greater,
        a.year == b.year ==> item_order(a, b, SortOrder::YearOldest) == seq_order(
            lowercase(a.title@),
            lowercase(b.title@),
        ) && item_order(a, b, SortOrder::YearNewest) == seq_order(
            lowercase(a.title@),
            lowercase(b.title@),
        ),
{
    lemma_seq_order_basics(a.added_at@, b.added_at@);
    lemma_seq_order_basics(lowercase(a.title@), lowercase(b.title@));
}

/// What each filter keeps, over all items, when it is the only one set:
/// no filter keeps everything; a year or runtime range keeps exactly the
/// items whose value lies within its bounds, ends included (an item without
/// the value fails a range with a bound); a genre selection keeps the items
/// carrying at least one selected genre; a minimum rating keeps the rated
/// items at or above it; a watch-status filter keeps the items in that
/// status.
pub proof fn lemma_filters_mean_what_they_say(item: MediaItem, f: FilterState, ws: WatchStatus)
    ensures
        filter_state_empty(f) ==> filter_ok(item, f, ws),
        (f.genres is None && f.watch_status is None && f.rating_min is None && f.runtime_range is None
            && f.content_ratings is None && f.resolutions is None && f.year_range is Some
            && f.year_range->0.from is Some && f.year_range->0.to is Some) ==> (filter_ok(item, f, ws)
            <==> (item.year is Some && f.year_range->0.from->0 <= item.year->0 && item.year->0
            <= f.year_range->0.to->0)),
        (f.genres is None && f.watch_status is None && f.rating_min is None && f.year_range is None
            && f.content_ratings is None && f.resolutions is None && f.runtime_range is Some
            && f.runtime_range->0.from is Some && f.runtime_range->0.to is Some) ==> (filter_ok(
            item,
            f,
            ws,
        ) <==> (item.runtime_minutes is Some && f.runtime_range->0.from->0 <= item.runtime_minutes->0
            && item.runtime_minutes->0 <= f.runtime_range->0.to->0)),
        (f.year_range is None && f.watch_status is None && f.rating_min is None && f.runtime_range is None
            && f.content_ratings is None && f.resolutions is None && f.genres is Some
            && f.genres->0.selected_genres@.len() > 0) ==> (filter_ok(item, f, ws) <==> exists|
            k: int,
            m: int,
        |
            0 <= k < f.genres->0.selected_genres@.len() && 0 <= m < item.genres@.len()
                && #[trigger] item.genres@[m]@ == #[trigger] f.genres->0.selected_genres@[k]@),
        (f.year_range is None && f.watch_status is None && f.genres is None && f.runtime_range is None
            && f.content_ratings is None && f.resolutions is None && f.rating_min is Some) ==> (filter_ok(
            item,
            f,
            ws,
        ) <==> (item.rating is Some && item.rating->0 >= f.rating_min->0.min)),
        (f.year_range is None && f.rating_min is None && f.genres is None && f.runtime_range is None
            && f.content_ratings is None && f.resolutions is None && f.watch_status is Some) ==> (filter_ok(
            item,
            f,
            ws,
        ) <==> f.watch_status->0.status == ws),
{
    if let Some(g) = f.genres {
        let ig = strs_view(item.genres@);
        let sg = strs_view(g.selected_genres@);
        if genre_hit(ig, sg) {
            let k = choose|k: int| 0 <= k < sg.len() && ig.contains(#[trigger] sg[k]);
            let m = choose|m: int| 0 <= m < ig.len() && ig[m] == sg[k];
            assert(item.genres@[m]@ == g.selected_genres@[k]@);
        }
        if exists|k: int, m: int|
            0 <= k < g.selected_genres@.len() && 0 <= m < item.genres@.len()
                && #[trigger] item.genres@[m]@ == #[trigger] g.selected_genres@[k]@ {
            let (k, m) = choose|k: int, m: int|
                0 <= k < g.selected_genres@.len() && 0 <= m < item.genres@.len()
                    && #[trigger] item.genres@[m]@ == #[trigger] g.selected_genres@[k]@;
            assert(ig[m] == sg[k]);
            assert(ig.contains(sg[k]));
        }
    }
}

} // verus!
