//! Normalized domain types: releases fetched from sources, and the download
//! methods they can be delivered by.

use vstd::prelude::*;

use crate::digest::{push_utf8, sha256_hex_bytes, spec_sha256_hex};
use crate::text::{ascii_lower, ascii_lower_seq, is_ws, owned, str_eq, to_chars, trim, trim_bounds, trim_end, trim_start};
use vstd::utf8::{
    char_is_scalar, encode_scalar, encode_utf8, encode_utf8_decode_utf8, last_continuation_byte, leading_byte_width_1,
    leading_byte_width_2, leading_byte_width_3, leading_byte_width_4, second_last_continuation_byte,
    third_last_continuation_byte,
};

verus! {

/// How a release's payload is delivered.
#[derive(Debug, Clone, Copy, PartialEq, Eq, Hash, Structural)]
pub enum DownloadMethod {
    /// A plain HTTP(S) URL pointing directly at the file.
    Direct,
    /// A URL to a `.torrent` file.
    Torrent,
    /// A `magnet:` URI.
    Magnet,
}

/// The method a source's raw method string names: matched after trimming
/// and ASCII lower-casing, with a few common synonyms.
pub open spec fn method_named(raw: Seq<char>) -> Option<DownloadMethod> {
    let t = ascii_lower_seq(trim(raw));
    if t == "direct"@ || t == "http"@ || t == "https"@ || t == "url"@ {
        Some(DownloadMethod::Direct)
    } else if t == "torrent"@ || t == "torrent_file"@ {
        Some(DownloadMethod::Torrent)
    } else if t == "magnet"@ {
        Some(DownloadMethod::Magnet)
    } else {
        None
    }
}

impl DownloadMethod {
    /// The lowercase name used in config keys and download-path segments.
    pub open spec fn name(self) -> Seq<char> {
        match self {
            DownloadMethod::Direct => "direct"@,
            DownloadMethod::Torrent => "torrent"@,
            DownloadMethod::Magnet => "magnet"@,
        }
    }

    /// Parses a method from a source's raw string, matching case-insensitively
    /// and accepting a few common synonyms.
    pub fn parse(raw: &str) -> (r: Option<DownloadMethod>)
        ensures
            r == method_named(raw@),
    {
        let cs = to_chars(raw);
        let (a, b) = trim_bounds(&cs);
        let mut lowered = String::new();
        let mut k = a;
        while k < b
            invariant
                a <= k <= b <= cs@.len(),
                lowered@ == ascii_lower_seq(cs@.subrange(a as int, k as int)),
            decreases b - k,
        {
            let c = cs[k];
            let l = if 'A' <= c && c <= 'Z' {
                ((c as u8) + 32) as char
            } else {
                c
            };
            assert(l == ascii_lower(c));
            lowered.push(l);
            k = k + 1;
            proof {
                assert(cs@.subrange(a as int, k as int) == cs@.subrange(a as int, k - 1).push(c));
                assert(ascii_lower_seq(cs@.subrange(a as int, k as int)) == ascii_lower_seq(
                    cs@.subrange(a as int, k - 1),
                ).push(l));
            }
        }
        let t = lowered.as_str();
        if str_eq(t, "direct") || str_eq(t, "http") || str_eq(t, "https") || str_eq(t, "url") {
            Some(DownloadMethod::Direct)
        } else if str_eq(t, "torrent") || str_eq(t, "torrent_file") {
            Some(DownloadMethod::Torrent)
        } else if str_eq(t, "magnet") {
            Some(DownloadMethod::Magnet)
        } else {
            None
        }
    }

    /// The lowercase name used in config keys and download-path segments.
    pub fn as_str(&self) -> (r: &'static str)
        ensures
            r@ == self.name(),
    {
        match self {
            DownloadMethod::Direct => "direct",
            DownloadMethod::Torrent => "torrent",
            DownloadMethod::Magnet => "magnet",
        }
    }
}

/// The version of an original release, one that is no re-release; also
/// the version of a stored release that records none.
pub const FIRST_VERSION: u32 = 1;

/// One resolution/method/link combination for a given episode, as extracted
/// from a source's raw JSON response and normalized against its plugin.
#[derive(Debug, Clone, PartialEq, Eq)]
pub struct Release {
    /// Id of the source plugin this release came from.
    pub source_id: String,
    /// The series' title as reported by the source.
    pub series_title: String,
    /// Episode identifier, kept as a string ("12", "12.5", "S2E03"); for a
    /// versioned release, the base episode without its version suffix.
    pub episode: String,
    /// Season, when the source distinguishes it.
    pub season: Option<String>,
    /// Resolution label, e.g. "1080".
    pub resolution: String,
    /// How this variant is downloaded.
    pub method: DownloadMethod,
    /// The URL or magnet URI for this variant.
    pub link: String,
    /// Series cover image URL, if the source provides one.
    pub cover_url: Option<String>,
    /// The source's own icon URL (its plugin's `icon`), if configured.
    pub source_icon_url: Option<String>,
    /// The show's page on the source's website, if the source provides
    /// enough information to build one.
    pub show_url: Option<String>,
    /// A source-provided stable id for the release, if any.
    pub raw_id: Option<String>,
    /// Release version: `1` for an original release, `n` for a re-release
    /// such as `"08v2"`.
    pub version: u32,
}

/// The view of an optional string.
pub open spec fn opt_view(o: Option<String>) -> Option<Seq<char>> {
    match o {
        Some(s) => Some(s@),
        None => None,
    }
}

/// A copy of an optional string.
pub fn clone_opt(o: &Option<String>) -> (r: Option<String>)
    ensures
        r == *o,
{
    match o {
        Some(s) => Some(s.clone()),
        None => None,
    }
}

/// The bytes hashed for [`Release::dedup_key`]: the source id, the raw id
/// (or the title when there is none), episode, resolution, method and link,
/// each UTF-8 encoded and separated by a zero byte.
pub open spec fn dedup_preimage(r: Release) -> Seq<u8> {
    encode_utf8(r.source_id@) + seq![0u8] + match r.raw_id {
        Some(id) => encode_utf8(id@),
        None => encode_utf8(r.series_title@),
    } + seq![0u8] + encode_utf8(r.episode@) + seq![0u8] + encode_utf8(r.resolution@) + seq![0u8]
        + encode_utf8(r.method.name()) + seq![0u8] + encode_utf8(r.link@)
}

/// The bytes hashed for [`Release::episode_key`]: source id, title and
/// episode, zero-separated, then the season when there is one.
pub open spec fn episode_preimage(
    source_id: Seq<char>,
    title: Seq<char>,
    episode: Seq<char>,
    season: Option<Seq<char>>,
) -> Seq<u8> {
    encode_utf8(source_id) + seq![0u8] + encode_utf8(title) + seq![0u8] + encode_utf8(episode)
        + match season {
        Some(s) => seq![0u8] + encode_utf8(s),
        None => Seq::<u8>::empty(),
    }
}

/// The key identifying "this exact episode variant".
pub open spec fn spec_dedup_key(r: Release) -> Seq<char> {
    spec_sha256_hex(dedup_preimage(r))
}

/// The key identifying "this episode of this series".
pub open spec fn spec_episode_key(r: Release) -> Seq<char> {
    spec_sha256_hex(
        episode_preimage(r.source_id@, r.series_title@, r.episode@, opt_view(r.season)),
    )
}

impl Release {
    /// A copy of this release.
    pub fn duplicate(&self) -> (r: Release)
        ensures
            r == *self,
    {
        Release {
            source_id: self.source_id.clone(),
            series_title: self.series_title.clone(),
            episode: self.episode.clone(),
            season: clone_opt(&self.season),
            resolution: self.resolution.clone(),
            method: self.method,
            link: self.link.clone(),
            cover_url: clone_opt(&self.cover_url),
            source_icon_url: clone_opt(&self.source_icon_url),
            show_url: clone_opt(&self.show_url),
            raw_id: clone_opt(&self.raw_id),
            version: self.version,
        }
    }

    /// A stable key identifying "this exact episode variant" across polls:
    /// the SHA-256 of the source id, the source-provided raw id (or, when
    /// there is none, the title), episode, resolution, method and link.
    pub fn dedup_key(&self) -> (r: String)
        ensures
            r@ == spec_dedup_key(*self),
    {
        let mut buf: Vec<u8> = Vec::new();
        push_utf8(&mut buf, self.source_id.as_str());
        buf.push(0u8);
        match &self.raw_id {
            Some(id) => push_utf8(&mut buf, id.as_str()),
            None => push_utf8(&mut buf, self.series_title.as_str()),
        }
        buf.push(0u8);
        push_utf8(&mut buf, self.episode.as_str());
        buf.push(0u8);
        push_utf8(&mut buf, self.resolution.as_str());
        buf.push(0u8);
        push_utf8(&mut buf, self.method.as_str());
        buf.push(0u8);
        push_utf8(&mut buf, self.link.as_str());
        assert(buf@ =~= dedup_preimage(*self));
        sha256_hex_bytes(buf.as_slice())
    }

    /// A key identifying "this episode of this series", independent of
    /// resolution/method — used to group variants for the resolution-wait
    /// workflow.
    pub fn episode_key(&self) -> (r: String)
        ensures
            r@ == spec_episode_key(*self),
    {
        let mut buf: Vec<u8> = Vec::new();
        push_utf8(&mut buf, self.source_id.as_str());
        buf.push(0u8);
        push_utf8(&mut buf, self.series_title.as_str());
        buf.push(0u8);
        push_utf8(&mut buf, self.episode.as_str());
        match &self.season {
            Some(season) => {
                buf.push(0u8);
                push_utf8(&mut buf, season.as_str());
            },
            None => {},
        }
        assert(buf@ =~= episode_preimage(
            self.source_id@,
            self.series_title@,
            self.episode@,
            opt_view(self.season),
        ));
        sha256_hex_bytes(buf.as_slice())
    }
}

/// Two releases that agree on source, raw id (or title), episode,
/// resolution, method and link get the same dedup key.
pub proof fn law_dedup_key_stable(a: Release, b: Release)
    requires
        a.source_id@ == b.source_id@,
        opt_view(a.raw_id) == opt_view(b.raw_id),
        a.raw_id is None ==> a.series_title@ == b.series_title@,
        a.episode@ == b.episode@,
        a.resolution@ == b.resolution@,
        a.method == b.method,
        a.link@ == b.link@,
    ensures
        spec_dedup_key(a) == spec_dedup_key(b),
{
    assert(dedup_preimage(a) == dedup_preimage(b));
}

/// The episode key ignores resolution, method, link and every other
/// per-variant field: variants of one episode share it.
pub proof fn law_episode_key_ignores_variant(a: Release, b: Release)
    requires
        a.source_id@ == b.source_id@,
        a.series_title@ == b.series_title@,
        a.episode@ == b.episode@,
        opt_view(a.season) == opt_view(b.season),
    ensures
        spec_episode_key(a) == spec_episode_key(b),
{
}


/// A method's name reads back as that method: `parse(m.as_str())` is
/// `Some(m)`, so a method stored by name is recovered.
pub proof fn law_method_name_round_trip(m: DownloadMethod)
    ensures
        method_named(m.name()) == Some(m),
{
    reveal_strlit("direct");
    reveal_strlit("torrent");
    reveal_strlit("magnet");
    reveal_strlit("http");
    reveal_strlit("https");
    reveal_strlit("url");
    reveal_strlit("torrent_file");
    let n = m.name();
    assert(n.len() > 0 && !is_ws(n[0]) && !is_ws(n.last()));
    assert(trim_start(n) == n);
    assert(trim_end(n) == n);
    assert(ascii_lower_seq(n) =~= n);
    match m {
        DownloadMethod::Direct => {},
        DownloadMethod::Torrent => {
            assert(n != "direct"@ && n != "http"@ && n != "https"@ && n != "url"@) by {
                assert(n[0] != "direct"@[0] && n[0] != "http"@[0] && n[0] != "https"@[0] && n[0] != "url"@[0]);
            }
        },
        DownloadMethod::Magnet => {
            assert(n != "direct"@ && n != "http"@ && n != "https"@ && n != "url"@ && n != "torrent"@ && n
                != "torrent_file"@) by {
                assert(n[0] != "direct"@[0] && n[0] != "http"@[0] && n[0] != "https"@[0] && n[0] != "url"@[0]
                    && n[0] != "torrent"@[0] && n[0] != "torrent_file"@[0]);
            }
        },
    }
}

/// Whether a text holds no NUL character.
pub open spec fn nul_free(s: Seq<char>) -> bool {
    forall|i: int| 0 <= i < s.len() ==> #[trigger] s[i] != '\0'
}

/// The UTF-8 bytes of a character other than NUL are all non-zero.
proof fn lemma_scalar_bytes_nonzero(c: char)
    requires
        c != '\0',
    ensures
        forall|k: int| 0 <= k < encode_scalar(c as u32).len() ==> #[trigger] encode_scalar(c as u32)[k] != 0,
{
    let v = c as u32;
    char_is_scalar(c);
    assert(v != 0);
    if 0 <= v <= 0x7F {
        assert(leading_byte_width_1(v) != 0) by (bit_vector)
            requires
                1 <= v <= 0x7F,
        ;
    } else {
        assert(leading_byte_width_2(v) != 0 && leading_byte_width_3(v) != 0 && leading_byte_width_4(v) != 0)
            by (bit_vector);
        assert(last_continuation_byte(v) != 0 && second_last_continuation_byte(v) != 0
            && third_last_continuation_byte(v) != 0) by (bit_vector);
    }
}

/// The UTF-8 encoding of a NUL-free text holds no zero byte.
proof fn lemma_encoding_has_no_zero(s: Seq<char>)
    requires
        nul_free(s),
    ensures
        forall|k: int| 0 <= k < encode_utf8(s).len() ==> #[trigger] encode_utf8(s)[k] != 0,
    decreases s.len(),
{
    if s.len() > 0 {
        let head = encode_scalar(s[0] as u32);
        let rest = s.drop_first();
        assert(s[0] != '\0');
        lemma_scalar_bytes_nonzero(s[0]);
        assert(nul_free(rest)) by {
            assert forall|i: int| 0 <= i < rest.len() implies #[trigger] rest[i] != '\0' by {
                assert(rest[i] == s[i + 1]);
            }
        }
        lemma_encoding_has_no_zero(rest);
        let e = encode_utf8(s);
        assert(e == head + encode_utf8(rest));
        assert forall|k: int| 0 <= k < e.len() implies #[trigger] e[k] != 0 by {
            if k < head.len() {
                assert(e[k] == head[k]);
            } else {
                assert(e[k] == encode_utf8(rest)[k - head.len()]);
            }
        }
    }
}

/// Where a zero-free run is followed by nothing or by a zero byte, the
/// zero marks where the run ends, so two such joins agree part by part.
proof fn lemma_split_at_zero(x1: Seq<u8>, r1: Seq<u8>, x2: Seq<u8>, r2: Seq<u8>)
    requires
        forall|k: int| 0 <= k < x1.len() ==> #[trigger] x1[k] != 0,
        forall|k: int| 0 <= k < x2.len() ==> #[trigger] x2[k] != 0,
        r1.len() == 0 || r1[0] == 0,
        r2.len() == 0 || r2[0] == 0,
        x1 + r1 == x2 + r2,
    ensures
        x1 == x2,
        r1 == r2,
{
    let w = x1 + r1;
    if x1.len() < x2.len() {
        assert(w[x1.len() as int] == r1[0]);
        assert((x2 + r2)[x1.len() as int] == x2[x1.len() as int]);
        assert(false);
    } else if x2.len() < x1.len() {
        assert((x2 + r2)[x2.len() as int] == r2[0]);
        assert(w[x2.len() as int] == x1[x2.len() as int]);
        assert(false);
    }
    assert(x1 =~= w.subrange(0, x1.len() as int));
    assert(x2 =~= (x2 + r2).subrange(0, x2.len() as int));
    assert(r1 =~= w.subrange(x1.len() as int, w.len() as int));
    assert(r2 =~= (x2 + r2).subrange(x2.len() as int, w.len() as int));
}

/// Texts with the same UTF-8 encoding are the same text.
proof fn lemma_encoding_injective(a: Seq<char>, b: Seq<char>)
    requires
        encode_utf8(a) == encode_utf8(b),
    ensures
        a == b,
{
    encode_utf8_decode_utf8(a);
    encode_utf8_decode_utf8(b);
}

/// Peels one NUL-terminated text off the front of two byte strings.
proof fn lemma_peel(x1: Seq<char>, r1: Seq<u8>, x2: Seq<char>, r2: Seq<u8>)
    requires
        nul_free(x1),
        nul_free(x2),
        encode_utf8(x1) + (seq![0u8] + r1) == encode_utf8(x2) + (seq![0u8] + r2),
    ensures
        x1 == x2,
        r1 == r2,
{
    lemma_encoding_has_no_zero(x1);
    lemma_encoding_has_no_zero(x2);
    lemma_split_at_zero(encode_utf8(x1), seq![0u8] + r1, encode_utf8(x2), seq![0u8] + r2);
    lemma_encoding_injective(x1, x2);
    assert((seq![0u8] + r1).drop_first() =~= r1);
    assert((seq![0u8] + r2).drop_first() =~= r2);
}

/// The bytes that follow the episode in an episode key's input.
pub open spec fn season_bytes(season: Option<Seq<char>>) -> Seq<u8> {
    match season {
        Some(s) => seq![0u8] + encode_utf8(s),
        None => Seq::<u8>::empty(),
    }
}

/// The last part of an episode key's input: the episode, then the season.
proof fn lemma_episode_and_season(e1: Seq<char>, o1: Option<Seq<char>>, e2: Seq<char>, o2: Option<Seq<char>>)
    requires
        nul_free(e1),
        nul_free(e2),
        o1 matches Some(s) ==> nul_free(s),
        o2 matches Some(s) ==> nul_free(s),
        encode_utf8(e1) + season_bytes(o1) == encode_utf8(e2) + season_bytes(o2),
    ensures
        e1 == e2,
        o1 == o2,
{
    lemma_encoding_has_no_zero(e1);
    lemma_encoding_has_no_zero(e2);
    lemma_split_at_zero(encode_utf8(e1), season_bytes(o1), encode_utf8(e2), season_bytes(o2));
    lemma_encoding_injective(e1, e2);
    match (o1, o2) {
        (Some(s1), Some(s2)) => {
            assert(season_bytes(o1).drop_first() =~= encode_utf8(s1));
            assert(season_bytes(o2).drop_first() =~= encode_utf8(s2));
            lemma_encoding_injective(s1, s2);
        },
        (None, None) => {},
        (Some(s1), None) => {
            assert(season_bytes(o1).len() > 0);
        },
        (None, Some(s2)) => {
            assert(season_bytes(o2).len() > 0);
        },
    }
}

/// An episode key's input, read as one text after another, each ended by
/// a zero byte.
proof fn lemma_preimage_shape(src: Seq<char>, t: Seq<char>, e: Seq<char>, o: Option<Seq<char>>)
    ensures
        episode_preimage(src, t, e, o) == encode_utf8(src) + (seq![0u8] + (encode_utf8(t) + (seq![0u8] + (
        encode_utf8(e) + season_bytes(o))))),
{
    let x = encode_utf8(src);
    let z = seq![0u8];
    let tt = encode_utf8(t);
    let ee = encode_utf8(e);
    let ss = season_bytes(o);
    assert(episode_preimage(src, t, e, o) == x + z + tt + z + ee + ss);
    let a1 = ee + ss;
    vstd::seq_lib::lemma_concat_associative(x + z + tt + z, ee, ss);
    vstd::seq_lib::lemma_concat_associative(x + z + tt, z, a1);
    vstd::seq_lib::lemma_concat_associative(x + z, tt, z + a1);
    vstd::seq_lib::lemma_concat_associative(x, z, tt + (z + a1));
}

/// The episode key tells shows and episodes apart: two releases (whose
/// source id, title, episode and season hold no NUL character) hash the
/// same bytes for their episode key only when they share the source, the
/// series title, the episode and the season. So releases of two different
/// shows are never grouped as one episode.
pub proof fn law_episode_preimage_identifies_episode(a: Release, b: Release)
    requires
        nul_free(a.source_id@) && nul_free(a.series_title@) && nul_free(a.episode@),
        nul_free(b.source_id@) && nul_free(b.series_title@) && nul_free(b.episode@),
        a.season matches Some(s) ==> nul_free(s@),
        b.season matches Some(s) ==> nul_free(s@),
    ensures
        episode_preimage(a.source_id@, a.series_title@, a.episode@, opt_view(a.season)) == episode_preimage(
            b.source_id@,
            b.series_title@,
            b.episode@,
            opt_view(b.season),
        ) ==> {
            &&& a.source_id@ == b.source_id@
            &&& a.series_title@ == b.series_title@
            &&& a.episode@ == b.episode@
            &&& opt_view(a.season) == opt_view(b.season)
        },
{
    let pa = episode_preimage(a.source_id@, a.series_title@, a.episode@, opt_view(a.season));
    let pb = episode_preimage(b.source_id@, b.series_title@, b.episode@, opt_view(b.season));
    if pa == pb {
        let ea = encode_utf8(a.episode@) + season_bytes(opt_view(a.season));
        let eb = encode_utf8(b.episode@) + season_bytes(opt_view(b.season));
        let ta = encode_utf8(a.series_title@) + (seq![0u8] + ea);
        let tb = encode_utf8(b.series_title@) + (seq![0u8] + eb);
        lemma_preimage_shape(a.source_id@, a.series_title@, a.episode@, opt_view(a.season));
        lemma_preimage_shape(b.source_id@, b.series_title@, b.episode@, opt_view(b.season));
        lemma_peel(a.source_id@, ta, b.source_id@, tb);
        lemma_peel(a.series_title@, ea, b.series_title@, eb);
        let oa = opt_view(a.season);
        let ob = opt_view(b.season);
        assert(oa matches Some(s) ==> nul_free(s));
        assert(ob matches Some(s) ==> nul_free(s));
        lemma_episode_and_season(a.episode@, oa, b.episode@, ob);
    }
}

/// The text a dedup key names a release by: its raw id, else its title.
pub open spec fn dedup_identity(r: Release) -> Seq<char> {
    match r.raw_id {
        Some(id) => id@,
        None => r.series_title@,
    }
}

/// A dedup key's input, read as one text after another, each ended by a
/// zero byte.
proof fn lemma_dedup_shape(r: Release)
    ensures
        dedup_preimage(r) == encode_utf8(r.source_id@) + (seq![0u8] + (encode_utf8(dedup_identity(r)) + (seq![0u8]
            + (encode_utf8(r.episode@) + (seq![0u8] + (encode_utf8(r.resolution@) + (seq![0u8] + (encode_utf8(
            r.method.name(),
        ) + (seq![0u8] + encode_utf8(r.link@)))))))))),
{
    let z = seq![0u8];
    let x = encode_utf8(r.source_id@);
    let i = encode_utf8(dedup_identity(r));
    let e = encode_utf8(r.episode@);
    let q = encode_utf8(r.resolution@);
    let m = encode_utf8(r.method.name());
    let l = encode_utf8(r.link@);
    assert(dedup_preimage(r) == x + z + i + z + e + z + q + z + m + z + l);
    let t9 = z + l;
    let t8 = m + t9;
    let t7 = z + t8;
    let t6 = q + t7;
    let t5 = z + t6;
    let t4 = e + t5;
    let t3 = z + t4;
    let t2 = i + t3;
    let t1 = z + t2;
    vstd::seq_lib::lemma_concat_associative(x + z + i + z + e + z + q + z + m, z, l);
    vstd::seq_lib::lemma_concat_associative(x + z + i + z + e + z + q + z, m, t9);
    vstd::seq_lib::lemma_concat_associative(x + z + i + z + e + z + q, z, t8);
    vstd::seq_lib::lemma_concat_associative(x + z + i + z + e + z, q, t7);
    vstd::seq_lib::lemma_concat_associative(x + z + i + z + e, z, t6);
    vstd::seq_lib::lemma_concat_associative(x + z + i + z, e, t5);
    vstd::seq_lib::lemma_concat_associative(x + z + i, z, t4);
    vstd::seq_lib::lemma_concat_associative(x + z, i, t3);
    vstd::seq_lib::lemma_concat_associative(x, z, t2);
}

/// A method's name holds no NUL character.
proof fn lemma_method_name_nul_free(m: DownloadMethod)
    ensures
        nul_free(m.name()),
{
    reveal_strlit("direct");
    reveal_strlit("torrent");
    reveal_strlit("magnet");
}

/// The dedup key tells variants apart: two releases (whose texts hold no
/// NUL character) hash the same bytes for their dedup key only when they
/// share the source, the raw id (or, without one, the title), the
/// episode, the resolution, the method and the link. So a new variant is
/// never taken for one already seen.
pub proof fn law_dedup_preimage_identifies_variant(a: Release, b: Release)
    requires
        nul_free(a.source_id@) && nul_free(dedup_identity(a)) && nul_free(a.episode@) && nul_free(a.resolution@),
        nul_free(b.source_id@) && nul_free(dedup_identity(b)) && nul_free(b.episode@) && nul_free(b.resolution@),
    ensures
        dedup_preimage(a) == dedup_preimage(b) ==> {
            &&& a.source_id@ == b.source_id@
            &&& dedup_identity(a) == dedup_identity(b)
            &&& a.episode@ == b.episode@
            &&& a.resolution@ == b.resolution@
            &&& a.method == b.method
            &&& a.link@ == b.link@
        },
{
    if dedup_preimage(a) == dedup_preimage(b) {
        lemma_dedup_shape(a);
        lemma_dedup_shape(b);
        lemma_method_name_nul_free(a.method);
        lemma_method_name_nul_free(b.method);
        let z = seq![0u8];
        let ma = encode_utf8(a.method.name()) + (z + encode_utf8(a.link@));
        let mb = encode_utf8(b.method.name()) + (z + encode_utf8(b.link@));
        let qa = encode_utf8(a.resolution@) + (z + ma);
        let qb = encode_utf8(b.resolution@) + (z + mb);
        let ea = encode_utf8(a.episode@) + (z + qa);
        let eb = encode_utf8(b.episode@) + (z + qb);
        let ia = encode_utf8(dedup_identity(a)) + (z + ea);
        let ib = encode_utf8(dedup_identity(b)) + (z + eb);
        lemma_peel(a.source_id@, ia, b.source_id@, ib);
        lemma_peel(dedup_identity(a), ea, dedup_identity(b), eb);
        lemma_peel(a.episode@, qa, b.episode@, qb);
        lemma_peel(a.resolution@, ma, b.resolution@, mb);
        lemma_peel(a.method.name(), encode_utf8(a.link@), b.method.name(), encode_utf8(b.link@));
        lemma_encoding_injective(a.link@, b.link@);
        law_method_name_round_trip(a.method);
        law_method_name_round_trip(b.method);
    }
}

} // verus!
