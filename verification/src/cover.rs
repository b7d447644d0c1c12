//! Where cover art and the default icon are cached: one file per image
//! URL, named by the URL's hash and keeping its extension when it has a
//! plausible one.

use vstd::prelude::*;

use crate::digest::{sha256_hex, spec_sha256_hex};
use crate::paths::{join, join_spec};
use crate::text::{append, owned, string_of_range, to_chars};
use vstd::utf8::encode_utf8;

verus! {

/// The text after the last `.` of `s` (all of it when there is none).
pub open spec fn after_last_dot(s: Seq<char>) -> Seq<char>
    decreases s.len(),
{
    if s.len() == 0 {
        s
    } else if s.last() == '.' {
        Seq::empty()
    } else {
        after_last_dot(s.drop_last()).push(s.last())
    }
}

/// An ASCII letter or digit.
pub open spec fn ascii_alnum(c: char) -> bool {
    ('a' <= c && c <= 'z') || ('A' <= c && c <= 'Z') || ('0' <= c && c <= '9')
}

/// The extension a cached image keeps: the URL's text after its last
/// `.`, when that is one to five ASCII letters or digits; else `img`.
pub open spec fn image_extension(url: Seq<char>) -> Seq<char> {
    let e = after_last_dot(url);
    if 0 < e.len() <= 5 && forall|i: int| 0 <= i < e.len() ==> ascii_alnum(#[trigger] e[i]) {
        e
    } else {
        "img"@
    }
}

/// The cache file of an image URL: `cover-<sha256 of the URL>.<ext>` in
/// the cache directory.
pub open spec fn cover_path(cache_dir: Seq<char>, url: Seq<char>) -> Seq<char> {
    join_spec(cache_dir, "cover-"@ + spec_sha256_hex(encode_utf8(url)) + "."@ + image_extension(url))
}

/// The extension an image URL keeps in the cache.
fn extension_for_image(url: &str) -> (r: String)
    ensures
        r@ == image_extension(url@),
{
    let cs = to_chars(url);
    let mut k: usize = cs.len();
    proof {
        assert(cs@.subrange(0, k as int) == cs@);
        assert(cs@.subrange(k as int, k as int).len() == 0);
        assert(after_last_dot(cs@) =~= after_last_dot(cs@.subrange(0, k as int)) + cs@.subrange(
            k as int,
            cs@.len() as int,
        ));
    }
    while k > 0 && cs[k - 1] != '.'
        invariant
            k <= cs@.len(),
            after_last_dot(cs@) == after_last_dot(cs@.subrange(0, k as int)) + cs@.subrange(k as int, cs@.len() as int),
        decreases k,
    {
        proof {
            let pre = cs@.subrange(0, k as int);
            assert(pre.drop_last() == cs@.subrange(0, k - 1));
            assert(cs@.subrange(k - 1, cs@.len() as int) =~= seq![cs@[k - 1]] + cs@.subrange(k as int, cs@.len() as int));
            assert(after_last_dot(pre) == after_last_dot(pre.drop_last()).push(pre.last()));
        }
        k = k - 1;
    }
    proof {
        let pre = cs@.subrange(0, k as int);
        if k > 0 {
            assert(pre.last() == '.');
        }
        assert(after_last_dot(pre).len() == 0);
        assert(after_last_dot(cs@) =~= cs@.subrange(k as int, cs@.len() as int));
    }
    let n = cs.len() - k;
    let mut ok = 0 < n && n <= 5;
    let mut j = k;
    while j < cs.len()
        invariant
            k <= j <= cs@.len(),
            ok ==> 0 < n <= 5,
            ok ==> forall|i: int| k <= i < j ==> ascii_alnum(#[trigger] cs@[i]),
            !ok ==> !(0 < n <= 5 && forall|i: int| k <= i < cs@.len() ==> ascii_alnum(#[trigger] cs@[i])),
            n == cs@.len() - k,
        decreases cs@.len() - j,
    {
        let c = cs[j];
        if !(('a' <= c && c <= 'z') || ('A' <= c && c <= 'Z') || ('0' <= c && c <= '9')) {
            ok = false;
        }
        j = j + 1;
    }
    proof {
        let e = cs@.subrange(k as int, cs@.len() as int);
        assert forall|i: int| 0 <= i < e.len() implies e[i] == cs@[k + i] by {}
        if ok {
            assert forall|i: int| 0 <= i < e.len() implies ascii_alnum(#[trigger] e[i]) by {
                assert(e[i] == cs@[k + i]);
            }
        } else if 0 < n <= 5 {
            assert(!forall|i: int| 0 <= i < e.len() ==> ascii_alnum(#[trigger] e[i])) by {
                if forall|i: int| 0 <= i < e.len() ==> ascii_alnum(#[trigger] e[i]) {
                    assert forall|i: int| k <= i < cs@.len() implies ascii_alnum(#[trigger] cs@[i]) by {
                        assert(cs@[i] == e[i - k]);
                    }
                }
            }
        }
    }
    proof {
        let e = cs@.subrange(k as int, cs@.len() as int);
        assert(after_last_dot(url@) == e);
        if ok {
            assert(image_extension(url@) == e);
        } else {
            assert(image_extension(url@) == "img"@);
        }
    }
    if ok {
        string_of_range(&cs, k, cs.len())
    } else {
        owned("img")
    }
}

/// The cache file of an image URL: `cover-<sha256 of the URL>.<ext>`
/// in `cache_dir`, keeping a short alphanumeric extension of the URL, else
/// `img`. The same URL always maps to the same file.
pub fn cache_path_for(cache_dir: &str, url: &str) -> (r: String)
    ensures
        r@ == cover_path(cache_dir@, url@),
{
    let mut name = owned("cover-");
    let h = sha256_hex(url);
    append(&mut name, h.as_str());
    append(&mut name, ".");
    let ext = extension_for_image(url);
    append(&mut name, ext.as_str());
    join(cache_dir, name.as_str())
}

/// Where the bundled default icon is written: `default-icon.svg` in the
/// cache directory.
pub fn default_icon_path(cache_dir: &str) -> (r: String)
    ensures
        r@ == join_spec(cache_dir@, "default-icon.svg"@),
{
    join(cache_dir, "default-icon.svg")
}

} // verus!
