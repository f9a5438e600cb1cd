//! Font embedding support for SVG assets: finding the remote font URL
//! referenced by an embedded stylesheet, a per-build cache of fetched
//! fonts, and the `@font-face` block that replaces the reference. The
//! network fetch itself is outside work; the library only decides and
//! assembles.

use base64::Engine;
use vstd::prelude::*;

verus! {

/// The pattern of a remote font URL inside an SVG stylesheet.
pub const FONT_URL_PATTERN: &'static str = "https://(www\\.)?[a-zA-Z]+.[a-z]+/([a-zA-Z]+).[a-z\\d]+";

/// The first match of a regular expression in a text: a pure function of
/// the pattern and the text.
pub uninterp spec fn regex_find_of(pattern: Seq<char>, text: Seq<char>) -> Option<Seq<char>>;

/// Relies on `regex::Regex::find`: the first match of the pattern in the
/// text, a deterministic function of the two. A pattern that does not
/// compile matches nothing.
#[verifier::external_body]
fn regex_find(pattern: &str, text: &str) -> (r: Option<String>)
    ensures
        (match r {
            Some(s) => regex_find_of(pattern@, text@) == Some(s@),
            None => regex_find_of(pattern@, text@) is None,
        }),
{
    match regex::Regex::new(pattern) {
        Ok(re) => re.find(text).map(|m| m.as_str().to_string()),
        Err(_) => None,
    }
}

/// Finds the remote font URL referenced in an SVG stylesheet's text, if
/// any: the first substring matching the font URL pattern.
pub fn find_font_url(style_text: &str) -> (r: Option<String>)
    ensures
        (match r {
            Some(s) => regex_find_of(FONT_URL_PATTERN@, style_text@) == Some(s@),
            None => regex_find_of(FONT_URL_PATTERN@, style_text@) is None,
        }),
{
    regex_find(FONT_URL_PATTERN, style_text)
}

/// A per-build cache of fetched fonts, keyed by URL: fetching the same
/// URL twice within one build reuses the first result.
pub struct FontCache {
    entries: Vec<(String, String)>,
}

/// The map a cache holds: each URL to the encoded font stored for it,
/// a later entry overriding an earlier one.
pub open spec fn cache_map(s: Seq<(Seq<char>, Seq<char>)>) -> Map<Seq<char>, Seq<char>>
    decreases s.len(),
{
    if s.len() == 0 {
        Map::empty()
    } else {
        cache_map(s.drop_last()).insert(s.last().0, s.last().1)
    }
}

impl FontCache {
    /// The cache's contents, as a map from URL to encoded font.
    pub closed spec fn view_map(&self) -> Map<Seq<char>, Seq<char>> {
        cache_map(self.entries.deep_view())
    }

    /// An empty cache.
    pub fn new() -> (c: FontCache)
        ensures
            c.view_map() == Map::<Seq<char>, Seq<char>>::empty(),
    {
        let c = FontCache { entries: Vec::new() };
        proof {
            assert(c.entries.deep_view() =~= Seq::<(Seq<char>, Seq<char>)>::empty());
        }
        c
    }

    /// The cached font for a URL, if one is stored.
    pub fn get(&self, url: &String) -> (r: Option<String>)
        ensures
            (match r {
                Some(s) => self.view_map().contains_key(url@) && self.view_map()[url@] == s@,
                None => !self.view_map().contains_key(url@),
            }),
    {
        let ghost dv = self.entries.deep_view();
        let mut k: usize = self.entries.len();
        proof {
            assert(dv.take(dv.len() as int) =~= dv);
        }
        while k > 0
            invariant
                k <= self.entries@.len(),
                dv == self.entries.deep_view(),
                dv.len() == self.entries@.len(),
                cache_map(dv).contains_key(url@) == cache_map(dv.take(k as int)).contains_key(
                    url@,
                ),
                cache_map(dv).contains_key(url@) ==> cache_map(dv)[url@] == cache_map(
                    dv.take(k as int),
                )[url@],
            decreases k,
        {
            proof {
                assert(dv.take(k as int).last() == dv[k - 1]);
                assert(dv.take(k as int).drop_last() =~= dv.take(k - 1));
            }
            if self.entries[k - 1].0.eq(url) {
                let s = self.entries[k - 1].1.clone();
                proof {
                    assert(cache_map(dv.take(k as int)).contains_key(url@));
                    assert(cache_map(dv.take(k as int))[url@] == dv[k - 1].1);
                }
                return Some(s);
            }
            k = k - 1;
        }
        proof {
            assert(dv.take(0) =~= Seq::<(Seq<char>, Seq<char>)>::empty());
        }
        None
    }

    /// Stores the font fetched for a URL.
    pub fn insert(&mut self, url: String, font: String)
        ensures
            final(self).view_map() == old(self).view_map().insert(url@, font@),
    {
        let ghost pre = self.entries.deep_view();
        self.entries.push((url, font));
        proof {
            assert(self.entries.deep_view().drop_last() =~= pre);
        }
    }
}

/// The `@font-face` block that inlines an encoded font.
pub open spec fn spec_font_face_block(font_b64: Seq<char>) -> Seq<char> {
    "@font-face{font-family:\"Virgil\";src:url(data:font/font;base64,"@ + font_b64 + ");}"@
}

/// Builds the `@font-face` block that inlines a fetched font, encoded in
/// base64, under the family name the stylesheets reference.
pub fn font_face_block(font_b64: &str) -> (r: String)
    ensures
        r@ == spec_font_face_block(font_b64@),
{
    let mut r = String::from_str("@font-face{font-family:\"Virgil\";src:url(data:font/font;base64,");
    r.append(font_b64);
    r.append(");}");
    proof {
        assert(r@ =~= spec_font_face_block(font_b64@));
    }
    r
}

/// What the base64 encoder produces for a byte sequence: a pure function
/// of the bytes.
pub uninterp spec fn base64_of(bytes: Seq<u8>) -> Seq<char>;

/// Relies on `base64::Engine::encode` with the standard alphabet: the
/// base64 text of the bytes, a deterministic function of the bytes.
#[verifier::external_body]
fn base64_encode(bytes: &[u8]) -> (r: String)
    ensures
        r@ == base64_of(bytes@),
{
    base64::engine::general_purpose::STANDARD.encode(bytes)
}

/// The `@font-face` block that inlines a fetched font: the font's bytes,
/// encoded in base64, spliced into the block.
pub fn font_face_for(bytes: &[u8]) -> (r: String)
    ensures
        r@ == spec_font_face_block(base64_of(bytes@)),
{
    let encoded = base64_encode(bytes);
    font_face_block(encoded.as_str())
}

} // verus!
