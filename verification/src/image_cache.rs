//! File names of the image cache: a downloaded image is stored under the
//! MD5 digest of its URL, a thumbnail under its source's stem and size.

use vstd::prelude::*;
use crate::identity::{hex_fixed, push_hex};
use crate::mpris::{file_stem_of, path_file_stem};
use crate::text::{nat_digits, owned, push_nat};

verus! {

/// The MD5 digest of a text's UTF-8 bytes, as `md5::compute` returns it.
pub uninterp spec fn md5_text_digest(text: Seq<char>) -> Seq<u8>;

/// Calls `md5::compute` on the text's bytes and returns the digest's sixteen
/// bytes; the result is named `md5_text_digest` (the digest algorithm is not
/// restated).
#[verifier::external_body]
fn md5_digest(text: &str) -> (r: Vec<u8>)
    ensures
        r@ == md5_text_digest(text@),
        r@.len() == 16,
{
    md5::compute(text.as_bytes()).0.to_vec()
}

/// Bytes as lowercase hexadecimal, two digits per byte.
pub open spec fn hex_bytes(b: Seq<u8>) -> Seq<char>
    decreases b.len(),
{
    if b.len() == 0 {
        Seq::empty()
    } else {
        hex_bytes(b.drop_last()) + hex_fixed(b.last() as nat, 2)
    }
}

/// Render bytes as lowercase hexadecimal, two digits per byte.
pub fn hex_string(b: &[u8]) -> (r: String)
    ensures
        r@ == hex_bytes(b@),
{
    let mut s = String::new();
    let mut i: usize = 0;
    while i < b.len()
        invariant
            i <= b.len(),
            s@ == hex_bytes(b@.take(i as int)),
        decreases b.len() - i,
    {
        proof {
            assert(b@.take(i as int + 1).drop_last() =~= b@.take(i as int));
        }
        push_hex(&mut s, b[i] as u64, 2);
        i = i + 1;
    }
    assert(b@.take(b.len() as int) =~= b@);
    s
}

/// The cache file name of an image URL: `{md5 of the URL, hex}.jpg`.
pub fn cache_file_name(url: &str) -> (r: String)
    ensures
        r@ == hex_bytes(md5_text_digest(url@)) + ".jpg"@,
        r@.len() == 36,
{
    let digest = md5_digest(url);
    let mut s = hex_string(digest.as_slice());
    proof {
        lemma_hex_bytes_len(digest@);
        reveal_strlit(".jpg");
    }
    s.append(".jpg");
    s
}

/// Two characters per byte.
pub proof fn lemma_hex_bytes_len(b: Seq<u8>)
    ensures
        hex_bytes(b).len() == 2 * b.len(),
    decreases b.len(),
{
    if b.len() > 0 {
        lemma_hex_bytes_len(b.drop_last());
        assert(hex_fixed(b.last() as nat, 2).len() == 2) by {
            reveal_with_fuel(hex_fixed, 3);
        }
    }
}

/// The thumbnail file name: `{stem}_{width}_x{height}.jpg`.
pub open spec fn thumbnail_name_spec(stem: Seq<char>, width: u32, height: u32) -> Seq<char> {
    stem + "_"@ + nat_digits(width as nat) + "_x"@ + nat_digits(height as nat) + ".jpg"@
}

/// The file name of a thumbnail of the image whose file stem is `stem`.
pub fn thumbnail_file_name(stem: &str, width: u32, height: u32) -> (r: String)
    ensures
        r@ == thumbnail_name_spec(stem@, width, height),
{
    let mut s = owned(stem);
    s.append("_");
    push_nat(&mut s, width as u64);
    s.append("_x");
    push_nat(&mut s, height as u64);
    s.append(".jpg");
    assert(s@ =~= thumbnail_name_spec(stem@, width, height));
    s
}

/// The file stem of a path, or nothing when it has none.
pub open spec fn stem_or_empty(path: Seq<char>) -> Seq<char> {
    match path_file_stem(path) {
        Some(s) => s,
        None => Seq::empty(),
    }
}

/// The file name of a thumbnail of the image at `path`: its file stem (empty
/// when the path has none), then the size.
pub fn thumbnail_name_for_path(path: &str, width: u32, height: u32) -> (r: String)
    ensures
        r@ == thumbnail_name_spec(stem_or_empty(path@), width, height),
{
    match file_stem_of(path) {
        Some(stem) => thumbnail_file_name(stem.as_str(), width, height),
        None => {
            proof {
                reveal_strlit("");
            }
            thumbnail_file_name("", width, height)
        },
    }
}

} // verus!
