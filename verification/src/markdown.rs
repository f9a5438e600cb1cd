//! Markdown documents: frontmatter extraction and decoding, the table of
//! contents, dates, and rendering to HTML through the external document
//! renderer, consumed as a black box from text to structured content.

use chrono::{Datelike, Timelike};
use vstd::prelude::*;

use crate::datetime::{parse_timestamp, spec_parse_ts, ts_valid, Timestamp};
use crate::shortcode::is_space;
use crate::strutil::{eq_str, push_char, str_to_chars, sub_string};
use crate::summary::get_summary;

verus! {

/// The frontmatter of a document.
#[derive(Debug, PartialEq, Eq)]
pub struct Frontmatter {
    pub title: String,
    pub tags: Vec<String>,
    pub template: Option<String>,
    pub date: Option<String>,
    pub updated: Option<String>,
    pub series: Option<SeriesInfo>,
    pub slug: Option<String>,
    pub draft: bool,
}

/// A page's position in a series.
#[derive(Debug, PartialEq, Eq)]
pub struct SeriesInfo {
    pub part: Option<i32>,
}

/// A parsed markdown document.
#[derive(Debug, PartialEq, Eq)]
pub struct Document {
    pub date: Timestamp,
    pub updated: Timestamp,
    pub content: String,
    pub frontmatter: Frontmatter,
    pub toc: Vec<String>,
    pub summary: String,
}

// ---------------------------------------------------------------------------
// Frontmatter block extraction
// ---------------------------------------------------------------------------

/// Distance from `i` to the first newline at or after `i`, if any.
pub open spec fn nl_dist(s: Seq<char>, i: int) -> Option<nat>
    decreases s.len() - i when 0 <= i <= s.len()
{
    if i < s.len() && s[i] == '\n' {
        Some(0nat)
    } else if i >= s.len() {
        None
    } else {
        match nl_dist(s, i + 1) {
            Some(d) => Some((d + 1) as nat),
            None => None,
        }
    }
}

/// A line as read from the text: without its newline, and without one
/// trailing carriage return.
pub open spec fn line_body(l: Seq<char>) -> Seq<char> {
    if l.len() > 0 && l.last() == '\r' {
        l.drop_last()
    } else {
        l
    }
}

/// Whether a line holds `---` alone, whitespace around it allowed.
pub open spec fn is_delim_line(l: Seq<char>) -> bool {
    let t = trimmed(l);
    t == seq!['-', '-', '-']
}

/// `l` with leading and trailing whitespace removed.
pub open spec fn trimmed(l: Seq<char>) -> Seq<char> {
    let a = ws_prefix_len(l);
    if a == l.len() {
        Seq::empty()
    } else {
        let b = ws_suffix_len(l);
        l.subrange(a as int, l.len() - b)
    }
}

/// Length of the whitespace run at the start of `l`.
pub open spec fn ws_prefix_len(l: Seq<char>) -> nat
    decreases l.len(),
{
    if l.len() > 0 && is_space(l.first()) {
        1 + ws_prefix_len(l.drop_first())
    } else {
        0
    }
}

/// Length of the whitespace run at the end of `l`.
pub open spec fn ws_suffix_len(l: Seq<char>) -> nat
    decreases l.len(),
{
    if l.len() > 0 && is_space(l.last()) {
        1 + ws_suffix_len(l.drop_last())
    } else {
        0
    }
}

/// The frontmatter block read from position `i` on: every line up to the
/// closing delimiter line, each with a newline appended, the delimiter
/// lines themselves skipped. `seen_open` records whether the opening
/// delimiter has passed.
pub open spec fn fm_from(s: Seq<char>, i: int, seen_open: bool) -> Seq<char>
    decreases s.len() - i when 0 <= i <= s.len()
{
    if i >= s.len() {
        Seq::empty()
    } else {
        let e = match nl_dist(s, i) {
            Some(d) => if i + d <= s.len() {
                i + d
            } else {
                s.len() as int
            },
            None => s.len() as int,
        };
        let line = line_body(s.subrange(i, e));
        let next = if e < s.len() {
            e + 1
        } else {
            s.len() as int
        };
        if is_delim_line(line) {
            if seen_open {
                Seq::empty()
            } else {
                fm_from(s, next, true)
            }
        } else {
            line + seq!['\n'] + fm_from(s, next, seen_open)
        }
    }
}

/// The frontmatter block of a document: the lines between the first two
/// `---` delimiter lines, newline-terminated.
pub open spec fn spec_frontmatter_block(s: Seq<char>) -> Seq<char> {
    fm_from(s, 0, false)
}

/// Whether the line `v[i..e]`, after dropping one trailing carriage
/// return, trims to `---`.
fn delim_line(v: &Vec<char>, i: usize, e: usize) -> (r: bool)
    requires
        i <= e <= v@.len(),
    ensures
        r == is_delim_line(line_body(v@.subrange(i as int, e as int))),
{
    let ghost l0 = v@.subrange(i as int, e as int);
    let mut hi = e;
    if hi > i && v[hi - 1] == '\r' {
        hi = hi - 1;
        proof {
            assert(line_body(l0) =~= v@.subrange(i as int, hi as int));
        }
    } else {
        proof {
            assert(line_body(l0) =~= v@.subrange(i as int, hi as int));
        }
    }
    let ghost l = line_body(l0);
    proof {
        lemma_ws_prefix_bound(v@.subrange(i as int, hi as int));
    }
    let mut a = i;
    while a < hi && (v[a] == ' ' || v[a] == '\t' || v[a] == '\r' || v[a] == '\n')
        invariant
            i <= a <= hi <= v@.len(),
            l == line_body(l0),
            l == v@.subrange(i as int, hi as int),
            a - i == ws_prefix_len(l) - ws_prefix_len(v@.subrange(a as int, hi as int)),
            ws_prefix_len(v@.subrange(a as int, hi as int)) <= hi - a,
        decreases hi - a,
    {
        proof {
            let cur = v@.subrange(a as int, hi as int);
            assert(cur.first() == v@[a as int]);
            assert(cur.drop_first() =~= v@.subrange(a + 1, hi as int));
            lemma_ws_prefix_bound(v@.subrange(a + 1, hi as int));
        }
        a = a + 1;
    }
    proof {
        let cur = v@.subrange(a as int, hi as int);
        if a < hi {
            assert(!is_space(cur.first()));
            assert(ws_prefix_len(cur) == 0);
        } else {
            assert(cur.len() == 0);
            assert(ws_prefix_len(cur) == 0);
        }
        assert(ws_prefix_len(l) == a - i);
    }
    if a == hi {
        assert(trimmed(l) =~= Seq::<char>::empty());
        assert(!is_delim_line(l));
        return false;
    }
    proof {
        lemma_ws_suffix_stop(v@.subrange(i as int, hi as int), (a - i) as int);
    }
    let mut b = hi;
    while b > a && (v[b - 1] == ' ' || v[b - 1] == '\t' || v[b - 1] == '\r' || v[b - 1] == '\n')
        invariant
            i <= a <= b <= hi <= v@.len(),
            l == v@.subrange(i as int, hi as int),
            ws_prefix_len(l) == a - i,
            a < hi ==> !is_space(v@[a as int]),
            hi - b == ws_suffix_len(l) - ws_suffix_len(v@.subrange(i as int, b as int)),
            ws_suffix_len(v@.subrange(i as int, b as int)) <= b - a,
        decreases b,
    {
        proof {
            let cur = v@.subrange(i as int, b as int);
            assert(cur.last() == v@[b - 1]);
            assert(cur.drop_last() =~= v@.subrange(i as int, b - 1));
            assert(v@.subrange(i as int, b - 1)[a - i] == v@[a as int]);
            lemma_ws_suffix_stop(v@.subrange(i as int, b - 1), (a - i) as int);
        }
        b = b - 1;
    }
    proof {
        let cur = v@.subrange(i as int, b as int);
        if b > a {
            assert(cur.last() == v@[b - 1]);
            assert(!is_space(cur.last()));
            assert(ws_suffix_len(cur) == 0);
        } else {
            assert(ws_suffix_len(cur) <= 0);
        }
        assert(ws_suffix_len(l) == hi - b);
        assert(trimmed(l) =~= v@.subrange(a as int, b as int));
    }
    let r = b - a == 3 && v[a] == '-' && v[a + 1] == '-' && v[a + 2] == '-';
    proof {
        if r {
            assert(trimmed(l) =~= seq!['-', '-', '-']);
        } else if b - a == 3 {
            assert(trimmed(l)[0] == v@[a as int]);
            assert(trimmed(l)[1] == v@[a + 1]);
            assert(trimmed(l)[2] == v@[a + 2]);
        }
    }
    r
}

/// Whitespace prefixes are no longer than the line.
proof fn lemma_ws_prefix_bound(l: Seq<char>)
    ensures
        ws_prefix_len(l) <= l.len(),
    decreases l.len(),
{
    if l.len() > 0 && is_space(l.first()) {
        lemma_ws_prefix_bound(l.drop_first());
    }
}

/// A whitespace suffix stops before any non-space position.
proof fn lemma_ws_suffix_stop(l: Seq<char>, j: int)
    requires
        0 <= j < l.len(),
        !is_space(l[j]),
    ensures
        ws_suffix_len(l) <= l.len() - 1 - j,
    decreases l.len(),
{
    if l.len() > 0 && is_space(l.last()) {
        lemma_ws_suffix_stop(l.drop_last(), j);
    }
}

/// Absolute position of the first newline at or after `i`, if any.
fn find_nl(v: &Vec<char>, i: usize) -> (r: Option<usize>)
    requires
        i <= v@.len(),
    ensures
        match (r, nl_dist(v@, i as int)) {
            (Some(m), Some(d)) => m == i + d && i <= m && m < v@.len(),
            (None, None) => true,
            _ => false,
        },
{
    let mut k = i;
    loop
        invariant
            i <= k <= v@.len(),
            (nl_dist(v@, k as int) matches Some(d) ==> nl_dist(v@, i as int) == Some(
                ((k - i) + d) as nat,
            )),
            nl_dist(v@, k as int) is None ==> nl_dist(v@, i as int) is None,
        decreases v@.len() - k,
    {
        if k >= v.len() {
            return None;
        }
        if v[k] == '\n' {
            assert(nl_dist(v@, k as int) == Some(0nat));
            return Some(k);
        }
        k = k + 1;
    }
}

/// Extracts the frontmatter block: every line up to the closing `---`
/// delimiter line, newline-terminated, the delimiter lines skipped.
pub fn extract_frontmatter(content: &str) -> (r: String)
    ensures
        r@ == spec_frontmatter_block(content@),
{
    let v = str_to_chars(content);
    let mut out = String::new();
    let mut cur: usize = 0;
    let mut seen_open = false;
    loop
        invariant
            cur <= v@.len(),
            v@ == content@,
            spec_frontmatter_block(content@) == out@ + fm_from(v@, cur as int, seen_open),
        decreases v@.len() - cur,
    {
        if cur >= v.len() {
            proof {
                assert(fm_from(v@, cur as int, seen_open) =~= Seq::<char>::empty());
                assert(out@ + Seq::<char>::empty() =~= out@);
            }
            return out;
        }
        let e = match find_nl(&v, cur) {
            Some(m) => m,
            None => v.len(),
        };
        let ghost line = line_body(v@.subrange(cur as int, e as int));
        let next = if e < v.len() {
            e + 1
        } else {
            v.len()
        };
        let is_delim = delim_line(&v, cur, e);
        if is_delim {
            if seen_open {
                proof {
                    assert(fm_from(v@, cur as int, seen_open) =~= Seq::<char>::empty());
                    assert(out@ + Seq::<char>::empty() =~= out@);
                }
                return out;
            }
            seen_open = true;
        } else {
            let ghost pre = out@;
            let mut hi = e;
            if hi > cur && v[hi - 1] == '\r' {
                hi = hi - 1;
            }
            proof {
                assert(line =~= v@.subrange(cur as int, hi as int));
            }
            let seg = sub_string(&v, cur, hi);
            out.append(seg.as_str());
            push_char(&mut out, '\n');
            proof {
                assert(out@ =~= pre + (line + seq!['\n']));
                assert(pre + (line + seq!['\n']) + fm_from(v@, next as int, seen_open) =~= pre + (
                line + seq!['\n'] + fm_from(v@, next as int, seen_open)));
            }
        }
        cur = next;
    }
}

// ---------------------------------------------------------------------------
// Table of contents
// ---------------------------------------------------------------------------

/// The second-level headings from position `i` on: for every line that
/// starts with `## `, the rest of the line. The scan reads raw lines, so
/// such a line counts wherever it stands, a fenced code block included.
pub open spec fn toc_from(s: Seq<char>, i: int) -> Seq<Seq<char>>
    decreases s.len() - i when 0 <= i <= s.len()
{
    if i >= s.len() {
        Seq::empty()
    } else {
        let e = match nl_dist(s, i) {
            Some(d) => if i + d <= s.len() {
                i + d
            } else {
                s.len() as int
            },
            None => s.len() as int,
        };
        let line = line_body(s.subrange(i, e));
        let next = if e < s.len() {
            e + 1
        } else {
            s.len() as int
        };
        let rest = toc_from(s, next);
        if line.len() >= 3 && line[0] == '#' && line[1] == '#' && line[2] == ' ' {
            seq![line.skip(3)] + rest
        } else {
            rest
        }
    }
}

/// The table of contents of a markdown text: the text of each
/// second-level heading line, in order.
pub open spec fn spec_toc(s: Seq<char>) -> Seq<Seq<char>> {
    toc_from(s, 0)
}

/// Collects the second-level headings of a markdown text, in order: the
/// rest of every line that starts with `## `.
pub fn parse_toc(content: &str) -> (r: Vec<String>)
    ensures
        r.deep_view() == spec_toc(content@),
{
    let v = str_to_chars(content);
    let mut out: Vec<String> = Vec::new();
    let mut cur: usize = 0;
    proof {
        assert(out.deep_view() =~= Seq::<Seq<char>>::empty());
        assert(Seq::<Seq<char>>::empty() + toc_from(v@, 0) =~= toc_from(v@, 0));
    }
    loop
        invariant
            cur <= v@.len(),
            v@ == content@,
            spec_toc(content@) == out.deep_view() + toc_from(v@, cur as int),
        decreases v@.len() - cur,
    {
        if cur >= v.len() {
            proof {
                assert(toc_from(v@, cur as int) =~= Seq::<Seq<char>>::empty());
                assert(out.deep_view() + Seq::<Seq<char>>::empty() =~= out.deep_view());
            }
            return out;
        }
        let e = match find_nl(&v, cur) {
            Some(m) => m,
            None => v.len(),
        };
        let mut hi = e;
        if hi > cur && v[hi - 1] == '\r' {
            hi = hi - 1;
        }
        let ghost line = line_body(v@.subrange(cur as int, e as int));
        proof {
            assert(line =~= v@.subrange(cur as int, hi as int));
        }
        let next = if e < v.len() {
            e + 1
        } else {
            v.len()
        };
        if hi - cur >= 3 && v[cur] == '#' && v[cur + 1] == '#' && v[cur + 2] == ' ' {
            let ghost pre = out.deep_view();
            let h = sub_string(&v, cur + 3, hi);
            out.push(h);
            proof {
                assert(line[0] == '#' && line[1] == '#' && line[2] == ' ');
                assert(line.skip(3) =~= v@.subrange(cur + 3, hi as int));
                assert(out.deep_view() =~= pre.push(line.skip(3)));
                assert(pre.push(line.skip(3)) + toc_from(v@, next as int) =~= pre + (seq![
                    line.skip(3),
                ] + toc_from(v@, next as int)));
            }
        } else {
            proof {
                if line.len() >= 3 {
                    assert(line[0] == v@[cur as int]);
                    assert(line[1] == v@[cur + 1]);
                    assert(line[2] == v@[cur + 2]);
                }
            }
        }
        cur = next;
    }
}

// ---------------------------------------------------------------------------
// The outside collaborators: the document renderer, the frontmatter
// decoder, and the clock.
// ---------------------------------------------------------------------------

/// The syntax-highlighting themes built into the highlighter: the keys
/// of its default theme set. A configured theme outside this set falls
/// back to class-based highlighting.
pub open spec fn is_builtin_theme(t: Seq<char>) -> bool {
    ||| t == "InspiredGitHub"@
    ||| t == "Solarized (dark)"@
    ||| t == "Solarized (light)"@
    ||| t == "base16-eighties.dark"@
    ||| t == "base16-mocha.dark"@
    ||| t == "base16-ocean.dark"@
    ||| t == "base16-ocean.light"@
}

/// Whether the theme name is one of the highlighter's built-in themes.
pub fn builtin_theme(theme: &str) -> (r: bool)
    ensures
        r == is_builtin_theme(theme@),
{
    eq_str(theme, "InspiredGitHub") || eq_str(theme, "Solarized (dark)") || eq_str(
        theme,
        "Solarized (light)",
    ) || eq_str(theme, "base16-eighties.dark") || eq_str(theme, "base16-mocha.dark") || eq_str(
        theme,
        "base16-ocean.dark",
    ) || eq_str(theme, "base16-ocean.light")
}

/// What the external document renderer produces for a markdown text and
/// a highlighting theme: a pure function of the two, with the renderer's
/// options fixed and the highlighter's theme set being its built-in one.
pub uninterp spec fn html_of(md: Seq<char>, theme: Option<Seq<char>>) -> Seq<char>;

/// Relies on `comrak::markdown_to_html_with_plugins` with fixed options
/// and the syntect code-fence highlighter over its embedded default
/// themes: deterministic in the text and the theme. The frontmatter
/// delimiter and the theme are pinned by the preconditions — the
/// delimiter so the result is a function of the text alone, the theme to
/// the built-in set so the highlighter's theme lookup cannot panic.
#[verifier::external_body]
fn markdown_to_html(md: &str, fm_delim: &str, theme: Option<&String>) -> (r: String)
    requires
        fm_delim@ == "---"@,
        theme matches Some(t) ==> is_builtin_theme(t@),
    ensures
        r@ == html_of(
            md@,
            match theme {
                Some(t) => Some(t@),
                None => None,
            },
        ),
{
    let adapter = comrak::plugins::syntect::SyntectAdapter::new(theme.map(String::as_str));
    let mut plugins = comrak::options::Plugins::default();
    plugins.render.codefence_syntax_highlighter = Some(&adapter);
    let mut options = comrak::Options::default();
    options.extension.front_matter_delimiter = Some(fm_delim.to_string());
    options.extension.strikethrough = true;
    options.extension.tasklist = true;
    options.extension.header_id_prefix = Some(String::new());
    options.render.github_pre_lang = true;
    comrak::markdown_to_html_with_plugins(md, &options, &plugins)
}

/// The raw frontmatter fields as the decoders hand them over: for each
/// recognized key, the outer option says whether the key is present and
/// the inner whether it holds the expected type; `series` nests one
/// more level for its `part` key.
pub struct FmRaw {
    pub title: Option<Option<String>>,
    pub tags: Option<Option<Vec<String>>>,
    pub template: Option<Option<String>>,
    pub date: Option<Option<String>>,
    pub updated: Option<Option<String>>,
    pub slug: Option<Option<String>>,
    pub draft: Option<Option<bool>>,
    pub series: Option<Option<Option<Option<i64>>>>,
}

/// The mathematical model of the raw frontmatter fields.
pub struct FmRawV {
    pub title: Option<Option<Seq<char>>>,
    pub tags: Option<Option<Seq<Seq<char>>>>,
    pub template: Option<Option<Seq<char>>>,
    pub date: Option<Option<Seq<char>>>,
    pub updated: Option<Option<Seq<char>>>,
    pub slug: Option<Option<Seq<char>>>,
    pub draft: Option<Option<bool>>,
    pub series: Option<Option<Option<Option<i64>>>>,
}

impl DeepView for FmRaw {
    type V = FmRawV;

    open spec fn deep_view(&self) -> FmRawV {
        FmRawV {
            title: self.title.deep_view(),
            tags: self.tags.deep_view(),
            template: self.template.deep_view(),
            date: self.date.deep_view(),
            updated: self.updated.deep_view(),
            slug: self.slug.deep_view(),
            draft: self.draft,
            series: self.series,
        }
    }
}

/// What the frontmatter decoder reads out of a block of TOML text for
/// the five plain string keys, in order `title`, `template`, `date`,
/// `updated`, `slug`: a pure function of the text, or nothing when the
/// text is not well-formed TOML.
pub uninterp spec fn fm_strings_of(block: Seq<char>) -> Option<
    (
        Option<Option<Seq<char>>>,
        Option<Option<Seq<char>>>,
        Option<Option<Seq<char>>>,
        Option<Option<Seq<char>>>,
        Option<Option<Seq<char>>>,
    ),
>;

/// What the frontmatter decoder reads out of the `tags` key: a pure
/// function of the text; the inner value is there exactly when the key
/// holds an array of strings.
pub uninterp spec fn fm_tags_of(block: Seq<char>) -> Option<Option<Option<Seq<Seq<char>>>>>;

/// What the frontmatter decoder reads out of the `draft` and `series`
/// keys: a pure function of the text; `series` nests presence of the
/// table, presence of `part`, and `part` being an integer.
pub uninterp spec fn fm_extras_of(block: Seq<char>) -> Option<
    (Option<Option<bool>>, Option<Option<Option<Option<i64>>>>),
>;

/// Relies on `toml::Table`'s `FromStr` and `toml::Value::{get, as_str}`:
/// reads the five plain string keys, deterministic in the text; TOML
/// that does not parse is `None`.
#[verifier::external_body]
#[allow(clippy::type_complexity)]
fn decode_fm_strings(block: &str) -> (r: Option<
    (
        Option<Option<String>>,
        Option<Option<String>>,
        Option<Option<String>>,
        Option<Option<String>>,
        Option<Option<String>>,
    ),
>)
    ensures
        (match r {
            Some(f) => fm_strings_of(block@) == Some(f.deep_view()),
            None => fm_strings_of(block@) is None,
        }),
{
    let t: toml::Table = block.parse().ok()?;
    Some((
        t.get("title").map(|v| v.as_str().map(str::to_string)),
        t.get("template").map(|v| v.as_str().map(str::to_string)),
        t.get("date").map(|v| v.as_str().map(str::to_string)),
        t.get("updated").map(|v| v.as_str().map(str::to_string)),
        t.get("slug").map(|v| v.as_str().map(str::to_string)),
    ))
}

/// Relies on `toml::Table`'s `FromStr` and `toml::Value::{get, as_array,
/// as_str}`: reads the `tags` key, deterministic in the text; TOML that
/// does not parse is `None`.
#[verifier::external_body]
fn decode_fm_tags(block: &str) -> (r: Option<Option<Option<Vec<String>>>>)
    ensures
        (match r {
            Some(f) => fm_tags_of(block@) == Some(f.deep_view()),
            None => fm_tags_of(block@) is None,
        }),
{
    let t: toml::Table = block.parse().ok()?;
    Some(t.get("tags").map(
        |v| v.as_array().and_then(|a| a.iter().map(|x| x.as_str().map(str::to_string)).collect()),
    ))
}

/// Relies on `toml::Table`'s `FromStr` and `toml::Value::{get, as_bool,
/// as_table, as_integer}`: reads the `draft` and `series` keys,
/// deterministic in the text; TOML that does not parse is `None`.
#[verifier::external_body]
#[allow(clippy::type_complexity)]
fn decode_fm_extras(block: &str) -> (r: Option<
    (Option<Option<bool>>, Option<Option<Option<Option<i64>>>>),
>)
    ensures
        (match r {
            Some(f) => fm_extras_of(block@) == Some(f),
            None => fm_extras_of(block@) is None,
        }),
{
    let t: toml::Table = block.parse().ok()?;
    Some((
        t.get("draft").map(|v| v.as_bool()),
        t.get("series").map(|v| v.as_table().map(|s| s.get("part").map(|p| p.as_integer()))),
    ))
}

/// What the frontmatter decoders read out of a block of TOML text, as
/// one record: the three decoders agree on whether the text parses, so
/// this is the assembly of their fields, or nothing when any of them
/// rejects the text.
pub open spec fn fm_fields_of(block: Seq<char>) -> Option<FmRawV> {
    match (fm_strings_of(block), fm_tags_of(block), fm_extras_of(block)) {
        (Some(s), Some(tg), Some(e)) => Some(
            FmRawV {
                title: s.0,
                tags: tg,
                template: s.1,
                date: s.2,
                updated: s.3,
                slug: s.4,
                draft: e.0,
                series: e.1,
            },
        ),
        _ => None,
    }
}

/// Decodes a frontmatter block into its raw fields, or nothing when the
/// block is not well-formed TOML.
fn decode_frontmatter(block: &str) -> (r: Option<FmRaw>)
    ensures
        (match r {
            Some(f) => fm_fields_of(block@) == Some(f.deep_view()),
            None => fm_fields_of(block@) is None,
        }),
{
    let strings = decode_fm_strings(block);
    let tags = decode_fm_tags(block);
    let extras = decode_fm_extras(block);
    match (strings, tags, extras) {
        (Some(s), Some(tg), Some(e)) => {
            let f = FmRaw {
                title: s.0,
                tags: tg,
                template: s.1,
                date: s.2,
                updated: s.3,
                slug: s.4,
                draft: e.0,
                series: e.1,
            };
            proof {
                assert(f.deep_view() == fm_fields_of(block@)->Some_0);
            }
            Some(f)
        },
        _ => None,
    }
}

/// Relies on `chrono::Utc::now`: the current time, as raw calendar
/// fields (year, month, day, hour, minute, second). Nothing is promised
/// of a clock reading.
#[verifier::external_body]
fn now_fields() -> (r: (i64, u32, u32, u32, u32, u32)) {
    let now = chrono::Utc::now().naive_utc();
    (
        now.date().year() as i64,
        now.date().month(),
        now.date().day(),
        now.time().hour(),
        now.time().minute(),
        now.time().second(),
    )
}

/// The current time as a well-formed timestamp: the clock's raw fields,
/// validated; a reading outside the representable calendar falls back to
/// the epoch.
fn now_timestamp() -> (r: Timestamp)
    ensures
        ts_valid(r),
{
    let (y, mo, d, h, mi, s) = now_fields();
    if 0 <= y && y <= 9999 && 1 <= mo && mo <= 12 && 1 <= d && d <= 31 && h < 24 && mi < 60 && s
        < 60 {
        let t = Timestamp {
            year: y as u16,
            month: mo as u8,
            day: d as u8,
            hour: h as u8,
            minute: mi as u8,
            second: s as u8,
        };
        if crate::datetime::ts_is_valid(&t) {
            return t;
        }
    }
    Timestamp { year: 1970, month: 1, day: 1, hour: 0, minute: 0, second: 0 }
}

// ---------------------------------------------------------------------------
// Frontmatter decoding and document rendering
// ---------------------------------------------------------------------------

/// Whether decoded frontmatter fields pass the frontmatter rules:
/// `title` and `tags` are present with the right types, every present
/// optional key has the right type, and a series part fits in 32 signed
/// bits.
pub open spec fn fm_rules_ok(f: FmRawV) -> bool {
    &&& f.title matches Some(Some(_))
    &&& f.tags matches Some(Some(_))
    &&& !(f.template matches Some(None))
    &&& !(f.date matches Some(None))
    &&& !(f.updated matches Some(None))
    &&& !(f.slug matches Some(None))
    &&& !(f.draft matches Some(None))
    &&& !(f.series matches Some(None))
    &&& !(f.series matches Some(Some(Some(None))))
    &&& (f.series matches Some(Some(Some(Some(n)))) ==> -2147483648 <= n <= 2147483647)
}

/// How a frontmatter corresponds to decoded fields: required fields
/// carried over, optional fields carried when present, `draft`
/// defaulting to false.
pub open spec fn fm_matches(fm: Frontmatter, f: FmRawV) -> bool {
    &&& f.title matches Some(Some(tt)) && fm.title@ == tt
    &&& f.tags matches Some(Some(ts)) && fm.tags.deep_view() == ts
    &&& fm.template.deep_view() == opt_field(f.template)
    &&& fm.date.deep_view() == opt_field(f.date)
    &&& fm.updated.deep_view() == opt_field(f.updated)
    &&& fm.slug.deep_view() == opt_field(f.slug)
    &&& fm.draft == (f.draft matches Some(Some(b)) && b)
    &&& (match f.series {
        None => fm.series is None,
        Some(Some(part)) => fm.series matches Some(si) && (match part {
            Some(Some(n)) => si.part matches Some(p) && p as int == n as int,
            _ => si.part is None,
        }),
        Some(None) => false,
    })
}

/// The value of an optional string field that passed the rules.
pub open spec fn opt_field(f: Option<Option<Seq<char>>>) -> Option<Seq<char>> {
    match f {
        Some(Some(s)) => Some(s),
        _ => None,
    }
}

/// Builds a frontmatter from decoded fields: fails exactly when the
/// fields break the frontmatter rules, and otherwise carries every field
/// over, `draft` defaulting to false.
pub fn frontmatter_from_fields(f: FmRaw) -> (r: Result<Frontmatter, String>)
    ensures
        r is Err <==> !fm_rules_ok(f.deep_view()),
        r matches Ok(fm) ==> fm_matches(fm, f.deep_view()),
{
    let title = match f.title {
        Some(Some(t)) => t,
        _ => {
            return Err(String::from_str("frontmatter needs a string title"));
        },
    };
    let tags = match f.tags {
        Some(Some(ts)) => ts,
        _ => {
            return Err(String::from_str("frontmatter needs an array of string tags"));
        },
    };
    let template = match f.template {
        Some(Some(s)) => Some(s),
        Some(None) => {
            return Err(String::from_str("frontmatter template is not a string"));
        },
        None => None,
    };
    let date = match f.date {
        Some(Some(s)) => Some(s),
        Some(None) => {
            return Err(String::from_str("frontmatter date is not a string"));
        },
        None => None,
    };
    let updated = match f.updated {
        Some(Some(s)) => Some(s),
        Some(None) => {
            return Err(String::from_str("frontmatter updated is not a string"));
        },
        None => None,
    };
    let slug = match f.slug {
        Some(Some(s)) => Some(s),
        Some(None) => {
            return Err(String::from_str("frontmatter slug is not a string"));
        },
        None => None,
    };
    let draft = match f.draft {
        Some(Some(b)) => b,
        Some(None) => {
            return Err(String::from_str("frontmatter draft is not a boolean"));
        },
        None => false,
    };
    let series = match f.series {
        Some(Some(s)) => {
            let part = match s {
                Some(Some(n)) => {
                    if n >= -2147483648 && n <= 2147483647 {
                        Some(n as i32)
                    } else {
                        return Err(String::from_str("series part is out of range"));
                    }
                },
                Some(None) => {
                    return Err(String::from_str("series part is not an integer"));
                },
                None => None,
            };
            Some(SeriesInfo { part })
        },
        Some(None) => {
            return Err(String::from_str("frontmatter series is not a table"));
        },
        None => None,
    };
    Ok(Frontmatter { title, tags, template, date, updated, series, slug, draft })
}

/// Parses the frontmatter of a markdown document: the block between the
/// first two `---` lines, decoded as TOML and held to the frontmatter
/// rules. Fails exactly when the block is not well-formed TOML or its
/// fields break the rules.
pub fn parse_frontmatter(content: &str) -> (r: Result<Frontmatter, String>)
    ensures
        ({
            let flds = fm_fields_of(spec_frontmatter_block(content@));
            &&& (r is Err <==> (flds is None || !fm_rules_ok(flds->Some_0)))
            &&& (r matches Ok(fm) ==> fm_matches(fm, flds->Some_0))
        }),
{
    let block = extract_frontmatter(content);
    match decode_frontmatter(block.as_str()) {
        Some(f) => frontmatter_from_fields(f),
        None => Err(String::from_str("frontmatter is not well-formed TOML")),
    }
}

/// Whether the decoded fields carry a date that does not read back as a
/// timestamp.
pub open spec fn fm_date_bad(f: FmRawV) -> bool {
    f.date matches Some(Some(d)) && spec_parse_ts(d) is None
}

/// Whether the decoded fields carry an updated date that does not read
/// back as a timestamp.
pub open spec fn fm_updated_bad(f: FmRawV) -> bool {
    f.updated matches Some(Some(d)) && spec_parse_ts(d) is None
}

/// Renders a markdown document with the given highlighting theme:
/// frontmatter, HTML content through the external renderer, table of
/// contents, summary, and dates. Fails exactly when the frontmatter
/// block is not well-formed TOML, breaks the frontmatter rules, or
/// carries a date that does not parse. The date defaults to the current
/// time when the frontmatter gives none, and the updated date defaults
/// to the date.
pub fn render_markdown(content: &str, theme: &str) -> (r: Result<Document, String>)
    ensures
        ({
            let flds = fm_fields_of(spec_frontmatter_block(content@));
            let sel: Option<Seq<char>> = if is_builtin_theme(theme@) {
                Some(theme@)
            } else {
                None
            };
            &&& (r is Err <==> (flds is None || !fm_rules_ok(flds->Some_0) || fm_date_bad(
                flds->Some_0,
            ) || fm_updated_bad(flds->Some_0)))
            &&& (r matches Ok(doc) ==> {
                &&& fm_matches(doc.frontmatter, flds->Some_0)
                &&& doc.content@ == html_of(content@, sel)
                &&& doc.toc.deep_view() == spec_toc(content@)
                &&& doc.summary@ == crate::summary::spec_summary(html_of(content@, sel))
                &&& ts_valid(doc.date)
                &&& ts_valid(doc.updated)
                &&& (doc.frontmatter.date matches Some(d) ==> spec_parse_ts(d@) == Some(doc.date))
                &&& (doc.frontmatter.updated matches Some(u) ==> spec_parse_ts(u@) == Some(
                    doc.updated,
                ))
                &&& (doc.frontmatter.updated is None ==> doc.updated == doc.date)
            })
        }),
{
    let frontmatter = match parse_frontmatter(content) {
        Ok(f) => f,
        Err(e) => {
            return Err(e);
        },
    };
    let theme_owned = String::from_str(theme);
    let html = if builtin_theme(theme) {
        markdown_to_html(content, "---", Some(&theme_owned))
    } else {
        markdown_to_html(content, "---", None)
    };
    let toc = parse_toc(content);
    let summary = get_summary(html.as_str());
    let date: Timestamp = match &frontmatter.date {
        Some(d) => match parse_timestamp(d.as_str()) {
            Some(t) => t,
            None => {
                return Err(String::from_str("frontmatter date does not parse"));
            },
        },
        None => now_timestamp(),
    };
    let updated: Timestamp = match &frontmatter.updated {
        Some(d) => match parse_timestamp(d.as_str()) {
            Some(t) => t,
            None => {
                return Err(String::from_str("frontmatter updated date does not parse"));
            },
        },
        None => date,
    };
    Ok(Document { date, updated, content: html, frontmatter, toc, summary })
}

} // verus!
