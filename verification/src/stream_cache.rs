//! Streaming-cache decisions: whether a URL goes through the on-disk
//! read-ahead cache, and the temp-file template the cache writes under.
//!
//! Creating and sweeping the cache directory is file-system work and lives
//! with the application shell.

use vstd::prelude::*;
use crate::text::starts_with;

verus! {

/// A network stream: the URL begins with `http://` or `https://`.
pub open spec fn is_network_url(url: Seq<char>) -> bool {
    "http://"@.is_prefix_of(url) || "https://"@.is_prefix_of(url)
}

/// True when `url` is a network stream that should be routed through the disk
/// cache. Only the scheme decides: `http(s)` is a network stream; `file://`,
/// empty strings, bare paths and other schemes play directly.
pub fn should_cache_stream(url: &str) -> (r: bool)
    ensures
        r == is_network_url(url@),
{
    starts_with(url, "http://") || starts_with(url, "https://")
}

/// Which URLs go through the disk cache, over all URLs: any `http://` or
/// `https://` URL does; a `file://` URL, an empty string or a bare path
/// (starting with `/`) never does.
pub proof fn lemma_cached_schemes(url: Seq<char>, rest: Seq<char>)
    ensures
        is_network_url("http://"@ + rest),
        is_network_url("https://"@ + rest),
        !is_network_url("file://"@ + rest),
        !is_network_url(Seq::<char>::empty()),
        !is_network_url(seq!['/'] + rest),
{
    reveal_strlit("http://");
    reveal_strlit("https://");
    reveal_strlit("file://");
    assert("http://"@.is_prefix_of("http://"@ + rest));
    assert("https://"@.is_prefix_of("https://"@ + rest));
    let f = "file://"@ + rest;
    assert(f[0] == 'f');
    assert(!"http://"@.is_prefix_of(f)) by {
        if "http://"@.is_prefix_of(f) {
            assert(f[0] == "http://"@[0]);
        }
    }
    assert(!"https://"@.is_prefix_of(f)) by {
        if "https://"@.is_prefix_of(f) {
            assert(f[0] == "https://"@[0]);
        }
    }
    let b = seq!['/'] + rest;
    assert(b[0] == '/');
    assert(!"http://"@.is_prefix_of(b)) by {
        if "http://"@.is_prefix_of(b) {
            assert(b[0] == "http://"@[0]);
        }
    }
    assert(!"https://"@.is_prefix_of(b)) by {
        if "https://"@.is_prefix_of(b) {
            assert(b[0] == "https://"@[0]);
        }
    }
}

/// The mkstemp-style file name the cache opens inside its directory.
pub open spec fn template_name() -> Seq<char> {
    "reel-XXXXXX"@
}

/// `dir` joined with the template name: a `/` is put between them unless
/// `dir` is empty or already ends with one.
pub open spec fn template_in(dir: Seq<char>) -> Seq<char> {
    if dir.len() == 0 {
        template_name()
    } else if dir.last() == '/' {
        dir + template_name()
    } else {
        dir + "/"@ + template_name()
    }
}

/// Build the temp-file template for a cache directory, `<dir>/reel-XXXXXX`;
/// the trailing `XXXXXX` is replaced with random characters when the file is
/// opened.
pub fn temp_template(dir: &str) -> (r: String)
    ensures
        r@ == template_in(dir@),
{
    proof {
        reveal_strlit("reel-XXXXXX");
        reveal_strlit("/");
    }
    let n = dir.unicode_len();
    let mut s = String::new();
    if n == 0 {
        s.append("reel-XXXXXX");
        assert(s@ =~= template_in(dir@));
        return s;
    }
    s.append(dir);
    if dir.get_char(n - 1) != '/' {
        s.append("/");
    }
    s.append("reel-XXXXXX");
    assert(s@ =~= template_in(dir@));
    s
}

} // verus!
