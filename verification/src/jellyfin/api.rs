//! Request building for the Jellyfin server API: the base URL, the
//! Authorization header, and the streaming and image URLs, plus the parts of
//! composite keys the source hands them.
//!
//! Sending the requests is done by the client in the application shell.

use vstd::prelude::*;
use crate::media::MediaItem;
use crate::media_source::{DownloadDescriptor, SourceError};
pub use crate::text::{base_url_of, trim_slashes};
use crate::text::{chars_of, nat_digits, push_nat};

verus! {

/// The Authorization header of an authenticated client.
pub open spec fn client_authorization_spec(token: Seq<char>, device_id: Seq<char>) -> Seq<char> {
    "MediaBrowser Token=\""@ + token + "\", Client=\"Reel\", Device=\"Reel\", DeviceId=\""@ + device_id
        + "\", Version=\"0.1.0\""@
}

/// Build the `MediaBrowser` Authorization header carrying the token and the
/// client identity.
pub fn client_authorization(token: &str, device_id: &str) -> (r: String)
    ensures
        r@ == client_authorization_spec(token@, device_id@),
{
    let mut s = String::new();
    s.append("MediaBrowser Token=\"");
    s.append(token);
    s.append("\", Client=\"Reel\", Device=\"Reel\", DeviceId=\"");
    s.append(device_id);
    s.append("\", Version=\"0.1.0\"");
    assert(s@ =~= client_authorization_spec(token@, device_id@));
    s
}

/// The direct-play stream URL of an item's media source.
pub open spec fn stream_url_spec(base: Seq<char>, item_id: Seq<char>, media_source_id: Seq<char>, token: Seq<char>) -> Seq<char> {
    base + "/Videos/"@ + item_id + "/stream?static=true&mediaSourceId="@ + media_source_id
        + "&api_key="@ + token
}

/// Direct-play (static) stream URL for an item's media source.
pub fn stream_url(base: &str, item_id: &str, media_source_id: &str, token: &str) -> (r: String)
    ensures
        r@ == stream_url_spec(base@, item_id@, media_source_id@, token@),
{
    let mut s = String::new();
    s.append(base);
    s.append("/Videos/");
    s.append(item_id);
    s.append("/stream?static=true&mediaSourceId=");
    s.append(media_source_id);
    s.append("&api_key=");
    s.append(token);
    assert(s@ =~= stream_url_spec(base@, item_id@, media_source_id@, token@));
    s
}

/// The query of an image URL: the tag, the fill width and height when given,
/// and the token, joined by `&`.
pub open spec fn image_query(tag: Option<Seq<char>>, w: Option<u32>, h: Option<u32>, token: Seq<char>) -> Seq<char> {
    (match tag {
        Some(t) => "tag="@ + t + "&"@,
        None => Seq::empty(),
    }) + (match w {
        Some(x) => "fillWidth="@ + nat_digits(x as nat) + "&"@,
        None => Seq::empty(),
    }) + (match h {
        Some(x) => "fillHeight="@ + nat_digits(x as nat) + "&"@,
        None => Seq::empty(),
    }) + "api_key="@ + token
}

/// The image URL of an item.
pub open spec fn image_url_spec(base: Seq<char>, item_id: Seq<char>, image_type: Seq<char>, tag: Option<Seq<char>>, w: Option<u32>, h: Option<u32>, token: Seq<char>) -> Seq<char> {
    base + "/Items/"@ + item_id + "/Images/"@ + image_type + "?"@ + image_query(tag, w, h, token)
}

/// The view of an optional string slice.
pub open spec fn opt_str_view(o: Option<&str>) -> Option<Seq<char>> {
    match o {
        Some(s) => Some(s@),
        None => None,
    }
}

/// Image URL for an item; `image_type` is `Primary`, `Backdrop`, `Logo` and so
/// on. The tag, fill size and token are appended as query parameters.
pub fn image_url(
    base: &str,
    item_id: &str,
    image_type: &str,
    tag: Option<&str>,
    max_width: Option<u32>,
    max_height: Option<u32>,
    token: &str,
) -> (r: String)
    ensures
        r@ == image_url_spec(
            base@,
            item_id@,
            image_type@,
            opt_str_view(tag),
            max_width,
            max_height,
            token@,
        ),
{
    let mut s = String::new();
    s.append(base);
    s.append("/Items/");
    s.append(item_id);
    s.append("/Images/");
    s.append(image_type);
    s.append("?");
    let ghost head = s@;
    match tag {
        Some(t) => {
            s.append("tag=");
            s.append(t);
            s.append("&");
        },
        None => {},
    }
    let ghost after_tag = s@;
    match max_width {
        Some(w) => {
            s.append("fillWidth=");
            push_nat(&mut s, w as u64);
            s.append("&");
        },
        None => {},
    }
    let ghost after_w = s@;
    match max_height {
        Some(h) => {
            s.append("fillHeight=");
            push_nat(&mut s, h as u64);
            s.append("&");
        },
        None => {},
    }
    s.append("api_key=");
    s.append(token);
    assert(s@ =~= image_url_spec(
        base@,
        item_id@,
        image_type@,
        opt_str_view(tag),
        max_width,
        max_height,
        token@,
    ));
    s
}

/// The item id and media-source id of a playback key: `{item}|{source}` splits
/// at the first `|`; a key without one is used as both.
pub open spec fn split_playback_key(key: Seq<char>) -> (Seq<char>, Seq<char>) {
    if exists|i: int| 0 <= i < key.len() && key[i] == '|' {
        let i = choose|i: int|
            0 <= i < key.len() && key[i] == '|' && forall|j: int| 0 <= j < i ==> key[j] != '|';
        (key.subrange(0, i), key.subrange(i + 1, key.len() as int))
    } else {
        (key, key)
    }
}

/// The position of the first `c` in `cs`.
fn first_index_of(cs: &Vec<char>, c: char) -> (r: Option<usize>)
    ensures
        match r {
            Some(i) => i < cs@.len() && cs@[i as int] == c && forall|j: int|
                0 <= j < i ==> cs@[j] != c,
            None => forall|j: int| 0 <= j < cs@.len() ==> cs@[j] != c,
        },
{
    let mut i: usize = 0;
    while i < cs.len()
        invariant
            i <= cs@.len(),
            forall|j: int| 0 <= j < i ==> cs@[j] != c,
        decreases cs.len() - i,
    {
        if cs[i] == c {
            return Some(i);
        }
        i = i + 1;
    }
    None
}

/// The characters `cs[a..b]` as a string.
fn slice_string(cs: &Vec<char>, a: usize, b: usize) -> (r: String)
    requires
        a <= b <= cs@.len(),
    ensures
        r@ == cs@.subrange(a as int, b as int),
{
    let mut s = String::new();
    let mut i = a;
    while i < b
        invariant
            a <= i <= b <= cs@.len(),
            s@ == cs@.subrange(a as int, i as int),
        decreases b - i,
    {
        crate::text::push_char(&mut s, cs[i]);
        i = i + 1;
        assert(s@ =~= cs@.subrange(a as int, i as int));
    }
    s
}

/// Split a playback key `{item}|{media source}` into its two ids; a key
/// without `|` is used as both.
pub fn playback_ids(key: &str) -> (r: (String, String))
    ensures
        (r.0@, r.1@) == split_playback_key(key@),
{
    let cs = chars_of(key);
    let n = cs.len();
    match first_index_of(&cs, '|') {
        Some(i) => {
            proof {
                let k = choose|k: int|
                    0 <= k < key@.len() && key@[k] == '|' && forall|j: int|
                        0 <= j < k ==> key@[j] != '|';
                if k < i {
                    assert(cs@[k] != '|');
                }
                if k > i {
                    assert(key@[i as int] == '|');
                }
            }
            let a = slice_string(&cs, 0, i);
            let b = slice_string(&cs, i + 1, n);
            (a, b)
        },
        None => {
            assert(cs@.subrange(0, cs@.len() as int) =~= cs@);
            (slice_string(&cs, 0, cs.len()), slice_string(&cs, 0, cs.len()))
        },
    }
}

/// The parts of an artwork descriptor `{item}/{image type}/{tag}`: split at
/// the first two `/`, with `Primary` standing in for a missing image type and
/// no tag when there is no second `/`.
pub open spec fn artwork_parts(d: Seq<char>) -> (Seq<char>, Seq<char>, Option<Seq<char>>) {
    if exists|i: int| 0 <= i < d.len() && d[i] == '/' {
        let i = choose|i: int|
            0 <= i < d.len() && d[i] == '/' && forall|j: int| 0 <= j < i ==> d[j] != '/';
        let rest = d.subrange(i + 1, d.len() as int);
        if exists|k: int| 0 <= k < rest.len() && rest[k] == '/' {
            let k = choose|k: int|
                0 <= k < rest.len() && rest[k] == '/' && forall|j: int| 0 <= j < k ==> rest[j] != '/';
            (d.subrange(0, i), rest.subrange(0, k), Some(rest.subrange(k + 1, rest.len() as int)))
        } else {
            (d.subrange(0, i), rest, None)
        }
    } else {
        (d, "Primary"@, None)
    }
}

/// Split an artwork descriptor `{item}/{image type}/{tag}` at its first two
/// `/`; `Primary` stands in for a missing image type.
pub fn artwork_ids(descriptor: &str) -> (r: (String, String, Option<String>))
    ensures
        (r.0@, r.1@, match r.2 {
            Some(t) => Some(t@),
            None => None,
        }) == artwork_parts(descriptor@),
{
    let cs = chars_of(descriptor);
    let n = cs.len();
    match first_index_of(&cs, '/') {
        None => {
            assert(cs@.subrange(0, n as int) =~= cs@);
            proof {
                reveal_strlit("Primary");
            }
            (slice_string(&cs, 0, n), crate::text::owned("Primary"), None)
        },
        Some(i) => {
            let ghost d = descriptor@;
            proof {
                let k = choose|k: int|
                    0 <= k < d.len() && d[k] == '/' && forall|j: int| 0 <= j < k ==> d[j] != '/';
                if k < i {
                    assert(cs@[k] != '/');
                }
                if k > i {
                    assert(d[i as int] == '/');
                }
            }
            let item = slice_string(&cs, 0, i);
            let rest_chars = slice_string(&cs, i + 1, n);
            let rc = chars_of(rest_chars.as_str());
            let m = rc.len();
            let ghost rest = d.subrange(i + 1, d.len() as int);
            assert(rc@ == rest);
            match first_index_of(&rc, '/') {
                None => (item, rest_chars, None),
                Some(k) => {
                    proof {
                        let k2 = choose|k2: int|
                            0 <= k2 < rest.len() && rest[k2] == '/' && forall|j: int|
                                0 <= j < k2 ==> rest[j] != '/';
                        if k2 < k {
                            assert(rc@[k2] != '/');
                        }
                        if k2 > k {
                            assert(rest[k as int] == '/');
                        }
                    }
                    let ty = slice_string(&rc, 0, k);
                    let tag = slice_string(&rc, k + 1, m);
                    (item, ty, Some(tag))
                },
            }
        },
    }
}

/// The stream URL for a playback key `{item}|{media source}`.
pub fn playback_url(base: &str, token: &str, key: &str) -> (r: String)
    ensures
        r@ == stream_url_spec(base@, split_playback_key(key@).0, split_playback_key(key@).1, token@),
{
    let (item, source) = playback_ids(key);
    stream_url(base, item.as_str(), source.as_str(), token)
}

/// The image URL for an artwork descriptor, filled to `width` x `height`.
pub fn artwork_url(base: &str, token: &str, descriptor: &str, width: u32, height: u32) -> (r: String)
    ensures
        r@ == image_url_spec(
            base@,
            artwork_parts(descriptor@).0,
            artwork_parts(descriptor@).1,
            artwork_parts(descriptor@).2,
            Some(width),
            Some(height),
            token@,
        ),
{
    let (item, ty, tag) = artwork_ids(descriptor);
    match &tag {
        Some(t) => image_url(
            base,
            item.as_str(),
            ty.as_str(),
            Some(t.as_str()),
            Some(width),
            Some(height),
            token,
        ),
        None => image_url(base, item.as_str(), ty.as_str(), None, Some(width), Some(height), token),
    }
}

/// How to download an item: its non-empty playback key rebuilt into a stream
/// URL; an item without one has nothing to download.
pub fn download_descriptor(base: &str, token: &str, item: &MediaItem) -> (r: Result<
    DownloadDescriptor,
    SourceError,
>)
    ensures
        match r {
            Ok(d) => item.file_path matches Some(p) && p@.len() > 0 && d.part_key@ == p@ && d.url@
                == stream_url_spec(
                base@,
                split_playback_key(p@).0,
                split_playback_key(p@).1,
                token@,
            ) && d.expected_size is None,
            Err(e) => (item.file_path is None || item.file_path.unwrap()@.len() == 0) && e
                == SourceError::NotFound(e->NotFound_0) && e->NotFound_0@ == "No downloadable file for item "@
                + item.id@,
        },
{
    match &item.file_path {
        Some(p) => {
            if p.as_str().unicode_len() > 0 {
                return Ok(
                    DownloadDescriptor {
                        url: playback_url(base, token, p.as_str()),
                        part_key: p.clone(),
                        expected_size: None,
                    },
                );
            }
        },
        None => {},
    }
    let mut msg = String::new();
    msg.append("No downloadable file for item ");
    msg.append(item.id.as_str());
    Err(SourceError::NotFound(msg))
}

} // verus!
