//! Pages: markdown entries rendered to HTML files. A page knows its
//! source path, its computed output path and permalink, its parsed
//! document, and its identity for the fingerprint store; rendering
//! builds an exact template context and hands it to the template engine,
//! and the minified result is what lands on disk.

use vstd::prelude::*;

use crate::config::Config;
use crate::datetime::{spec_ts_display, ts_to_display, ts_valid};
use crate::entry::{is_special_page, spec_is_special_page};
use crate::json::{
    json_object, json_str_array, json_string, spec_json_str_array, spec_json_string, spec_obj,
};
use crate::markdown::{
    fm_matches, fm_fields_of, html_of, is_builtin_theme, render_markdown, spec_frontmatter_block,
    spec_toc, Document, Frontmatter, SeriesInfo,
};
use crate::paths::{comps, out_path, spec_page_out_path, spec_permalink, permalink, split_path};
use crate::render::{
    context_from_json, evaluate_shortcodes, int_json, parts_match, spec_concat, spec_int_str,
    tera_render,
};
use crate::shortcode::spec_parse;
use crate::summary::spec_summary;
use crate::strutil::push_char;

verus! {

/// A single markdown page.
#[derive(Debug, PartialEq, Eq)]
pub struct Page {
    pub path: String,
    pub out_path: String,
    pub permalink: String,
    pub raw_content: String,
    pub hash: String,
    pub fresh: bool,
    pub is_special: bool,
    pub document: Document,
}

/// The name of the output directory: the last component of the
/// configured output path.
pub open spec fn spec_outdir_name(output_path: Seq<char>) -> Seq<char> {
    if comps(output_path).len() > 0 {
        comps(output_path).last()
    } else {
        Seq::empty()
    }
}

impl Page {
    /// Processes one content entry into a page: evaluates its
    /// shortcodes, renders the result through the document renderer,
    /// and computes the output path, permalink and special-page flag.
    /// Fails when the shortcode grammar rejects the content, when the
    /// frontmatter does not decode, when a date does not parse, or when
    /// the template engine fails on a shortcode. The document's rendered
    /// pieces are the renderer's output for the shortcode-evaluated
    /// text, and its frontmatter corresponds to that text's decoded
    /// frontmatter fields.
    pub fn new(
        t: &tera::Tera,
        config: &Config,
        path: String,
        raw_content: String,
        hash: String,
        fresh: bool,
    ) -> (r: Result<Page, String>)
        ensures
            spec_parse(raw_content@) is None ==> r is Err,
            r is Ok ==> spec_parse(raw_content@) is Some,
            r matches Ok(p) ==> exists|parts: Seq<Seq<char>>|
                {
                    let e = spec_concat(parts);
                    let sel: Option<Seq<char>> = if is_builtin_theme(config.theme@) {
                        Some(config.theme@)
                    } else {
                        None
                    };
                    &&& #[trigger] parts_match(spec_parse(raw_content@)->Some_0, parts)
                    &&& p.document.content@ == html_of(e, sel)
                    &&& p.document.toc.deep_view() == spec_toc(e)
                    &&& p.document.summary@ == spec_summary(html_of(e, sel))
                    &&& fm_matches(p.document.frontmatter, fm_fields_of(spec_frontmatter_block(e))->Some_0)
                },
            r matches Ok(p) ==> {
                &&& p.path == path
                &&& p.raw_content == raw_content
                &&& p.hash == hash
                &&& p.fresh == fresh
                &&& p.is_special == spec_is_special_page(path@, config.special_pages.deep_view())
                &&& p.out_path@ == spec_page_out_path(
                    path@,
                    config.output_path@,
                    p.document.frontmatter.title@,
                    match p.document.frontmatter.slug {
                        Some(s) => Some(s@),
                        None => None,
                    },
                )
                &&& p.permalink@ == spec_permalink(
                    p.out_path@,
                    spec_outdir_name(config.output_path@),
                    config.url@,
                )
                &&& ts_valid(p.document.date)
                &&& ts_valid(p.document.updated)
            },
    {
        let evaluated = match evaluate_shortcodes(t, raw_content.as_str()) {
            Ok(s) => s,
            Err(e) => {
                return Err(e);
            },
        };
        let document = match render_markdown(evaluated.as_str(), config.theme.as_str()) {
            Ok(d) => d,
            Err(e) => {
                return Err(e);
            },
        };
        let op = out_path(
            path.as_str(),
            config.output_path.as_str(),
            document.frontmatter.title.as_str(),
            document.frontmatter.slug.as_ref(),
        );
        let outdir_comps = split_path(config.output_path.as_str());
        let outdir = if outdir_comps.len() > 0 {
            let ghost oc = outdir_comps.deep_view();
            let s: String = outdir_comps[outdir_comps.len() - 1].clone();
            proof {
                assert(s@ == oc.last());
            }
            s
        } else {
            String::new()
        };
        let link = permalink(op.as_str(), outdir.as_str(), config.url.as_str());
        let special = is_special_page(path.as_str(), &config.special_pages);
        proof {
            let parts = choose|parts: Seq<Seq<char>>|
                #[trigger] parts_match(spec_parse(raw_content@)->Some_0, parts) && evaluated@
                    == spec_concat(parts);
            assert(parts_match(spec_parse(raw_content@)->Some_0, parts) && document.content@
                == html_of(
                spec_concat(parts),
                if is_builtin_theme(config.theme@) {
                    Some(config.theme@)
                } else {
                    None
                },
            ));
        }
        Ok(
            Page {
                path,
                out_path: op,
                permalink: link,
                raw_content,
                hash,
                fresh,
                is_special: special,
                document,
            },
        )
    }
}

/// `null`, or a JSON string literal for the value.
pub open spec fn spec_opt_str(o: Option<String>) -> Seq<char> {
    match o {
        Some(s) => spec_json_string(s@),
        None => "null"@,
    }
}

/// `null`, or the JSON string literal for the value.
pub fn opt_str_json(o: &Option<String>) -> (r: String)
    ensures
        r@ == spec_opt_str(*o),
{
    match o {
        Some(s) => json_string(s.as_str()),
        None => String::from_str("null"),
    }
}

/// `true` or `false`.
pub open spec fn spec_bool_json(b: bool) -> Seq<char> {
    if b {
        "true"@
    } else {
        "false"@
    }
}

/// The JSON rendering of a boolean.
pub fn bool_json(b: bool) -> (r: String)
    ensures
        r@ == spec_bool_json(b),
{
    if b {
        String::from_str("true")
    } else {
        String::from_str("false")
    }
}

/// `null`, or an object holding the series part number.
pub open spec fn spec_series_json(o: Option<SeriesInfo>) -> Seq<char> {
    match o {
        Some(si) => spec_obj(
            seq![
                (
                    "part"@,
                    match si.part {
                        Some(n) => spec_int_str(n as int),
                        None => "null"@,
                    },
                ),
            ],
        ),
        None => "null"@,
    }
}

/// The JSON rendering of an optional series descriptor.
pub fn series_json(o: &Option<SeriesInfo>) -> (r: String)
    ensures
        r@ == spec_series_json(match o {
            Some(si) => Some(SeriesInfo { part: si.part }),
            None => None,
        }),
{
    match o {
        Some(si) => {
            let part: String = match si.part {
                Some(n) => int_json(n),
                None => String::from_str("null"),
            };
            let mut members: Vec<(String, String)> = Vec::new();
            members.push((String::from_str("part"), part));
            let r = json_object(&members);
            proof {
                assert(members.deep_view() =~= seq![
                    (
                        "part"@,
                        match si.part {
                            Some(n) => spec_int_str(n as int),
                            None => "null"@,
                        },
                    ),
                ]);
            }
            r
        },
        None => String::from_str("null"),
    }
}

/// Tags joined with `, `.
pub open spec fn spec_join_tags(ts: Seq<Seq<char>>) -> Seq<char>
    decreases ts.len(),
{
    if ts.len() == 0 {
        Seq::empty()
    } else if ts.len() == 1 {
        ts[0]
    } else {
        spec_join_tags(ts.drop_last()) + seq![',', ' '] + ts.last()
    }
}

/// Joins tags with `, ` for display.
pub fn join_tags(ts: &Vec<String>) -> (r: String)
    ensures
        r@ == spec_join_tags(ts.deep_view()),
{
    let mut out = String::new();
    let mut k: usize = 0;
    proof {
        assert(ts.deep_view().take(0) =~= Seq::<Seq<char>>::empty());
    }
    while k < ts.len()
        invariant
            k <= ts@.len(),
            out@ == spec_join_tags(ts.deep_view().take(k as int)),
        decreases ts@.len() - k,
    {
        let ghost pre = ts.deep_view().take(k as int);
        if k > 0 {
            push_char(&mut out, ',');
            push_char(&mut out, ' ');
        }
        out.append(ts[k].as_str());
        proof {
            assert(ts.deep_view().take(k + 1) =~= pre.push(ts.deep_view()[k as int]));
            lemma_join_tags_push(pre, ts.deep_view()[k as int]);
            assert(out@ =~= spec_join_tags(ts.deep_view().take(k + 1)));
        }
        k = k + 1;
    }
    proof {
        assert(ts.deep_view().take(ts@.len() as int) =~= ts.deep_view());
    }
    out
}

/// Appending one more tag.
proof fn lemma_join_tags_push(ts: Seq<Seq<char>>, x: Seq<char>)
    ensures
        ts.len() == 0 ==> spec_join_tags(ts.push(x)) == x,
        ts.len() > 0 ==> spec_join_tags(ts.push(x)) == spec_join_tags(ts) + seq![',', ' '] + x,
{
    if ts.len() == 0 {
        assert(ts.push(x)[0] == x);
    } else {
        assert(ts.push(x).drop_last() =~= ts);
        assert(ts.push(x).last() == x);
    }
}

/// The members of a frontmatter's JSON object.
pub open spec fn spec_frontmatter_members(fm: Frontmatter) -> Seq<(Seq<char>, Seq<char>)> {
    seq![
        ("title"@, spec_json_string(fm.title@)),
        ("tags"@, spec_json_str_array(fm.tags.deep_view())),
        ("template"@, spec_opt_str(fm.template)),
        ("date"@, spec_opt_str(fm.date)),
        ("updated"@, spec_opt_str(fm.updated)),
        ("series"@, spec_series_json(fm.series)),
        ("slug"@, spec_opt_str(fm.slug)),
        ("draft"@, spec_bool_json(fm.draft)),
    ]
}

/// The JSON object for a frontmatter.
pub fn frontmatter_json(fm: &Frontmatter) -> (r: String)
    ensures
        r@ == spec_obj(spec_frontmatter_members(*fm)),
{
    let mut members: Vec<(String, String)> = Vec::new();
    members.push((String::from_str("title"), json_string(fm.title.as_str())));
    members.push((String::from_str("tags"), json_str_array(&fm.tags)));
    members.push((String::from_str("template"), opt_str_json(&fm.template)));
    members.push((String::from_str("date"), opt_str_json(&fm.date)));
    members.push((String::from_str("updated"), opt_str_json(&fm.updated)));
    members.push((String::from_str("series"), series_json(&fm.series)));
    members.push((String::from_str("slug"), opt_str_json(&fm.slug)));
    members.push((String::from_str("draft"), bool_json(fm.draft)));
    let r = json_object(&members);
    proof {
        assert((match fm.series {
            Some(si) => Some(SeriesInfo { part: si.part }),
            None => None::<SeriesInfo>,
        }) == fm.series);
        assert(members.deep_view() =~= spec_frontmatter_members(*fm));
    }
    r
}

/// The members of a page's template context: its frontmatter fields,
/// its rendered pieces, and the current post index and special-page
/// list, which arrive already encoded.
pub open spec fn spec_page_members(
    p: Page,
    posts_json: Seq<char>,
    specials_json: Seq<char>,
) -> Seq<(Seq<char>, Seq<char>)> {
    seq![
        ("title"@, spec_json_string(p.document.frontmatter.title@)),
        ("tags"@, spec_json_string(spec_join_tags(p.document.frontmatter.tags.deep_view()))),
        ("slug"@, spec_opt_str(p.document.frontmatter.slug)),
        ("series"@, spec_series_json(p.document.frontmatter.series)),
        ("date"@, spec_json_string(spec_ts_display(p.document.date))),
        ("toc"@, spec_json_str_array(p.document.toc.deep_view())),
        ("markup"@, spec_json_string(p.document.content@)),
        ("summary"@, spec_json_string(p.document.summary@)),
        ("frontmatter"@, spec_obj(spec_frontmatter_members(p.document.frontmatter))),
        ("posts"@, posts_json),
        ("index_pages"@, specials_json),
    ]
}

/// Builds the exact JSON context a page's template receives. The post
/// index and the special-page list arrive already encoded and are
/// spliced in unchanged; both carry post-shaped objects, the shape the
/// series template queries read.
pub fn page_context_json(p: &Page, posts_json: &String, specials_json: &String) -> (r: String)
    requires
        ts_valid(p.document.date),
    ensures
        r@ == spec_obj(spec_page_members(*p, posts_json@, specials_json@)),
{
    let fm = &p.document.frontmatter;
    let joined = join_tags(&fm.tags);
    let mut members: Vec<(String, String)> = Vec::new();
    members.push((String::from_str("title"), json_string(fm.title.as_str())));
    members.push((String::from_str("tags"), json_string(joined.as_str())));
    members.push((String::from_str("slug"), opt_str_json(&fm.slug)));
    members.push((String::from_str("series"), series_json(&fm.series)));
    members.push((String::from_str("date"), json_string(ts_to_display(&p.document.date).as_str())));
    members.push((String::from_str("toc"), json_str_array(&p.document.toc)));
    members.push((String::from_str("markup"), json_string(p.document.content.as_str())));
    members.push((String::from_str("summary"), json_string(p.document.summary.as_str())));
    members.push((String::from_str("frontmatter"), frontmatter_json(fm)));
    members.push((String::from_str("posts"), posts_json.clone()));
    members.push((String::from_str("index_pages"), specials_json.clone()));
    let r = json_object(&members);
    proof {
        assert((match fm.series {
            Some(si) => Some(SeriesInfo { part: si.part }),
            None => None::<SeriesInfo>,
        }) == fm.series);
        assert(members.deep_view() =~= spec_page_members(*p, posts_json@, specials_json@));
    }
    r
}

/// The template a page renders through: its frontmatter override, or
/// the default post template.
pub fn template_name(fm: &Frontmatter) -> (r: String)
    ensures
        (match fm.template {
            Some(t) => r@ == t@,
            None => r@ == "post.html.tera"@,
        }),
{
    match &fm.template {
        Some(t) => t.clone(),
        None => String::from_str("post.html.tera"),
    }
}

/// What the HTML minifier produces for a byte sequence: a pure function
/// of the bytes, with the minifier's default configuration.
pub uninterp spec fn minified_of(html: Seq<u8>) -> Seq<u8>;

/// Relies on `minify_html::minify` with the default configuration: the
/// minified HTML, a deterministic function of the input bytes.
#[verifier::external_body]
fn minify_html_bytes(html: &[u8]) -> (r: Vec<u8>)
    ensures
        r@ == minified_of(html@),
{
    let cfg = minify_html::Cfg::new();
    minify_html::minify(html, &cfg)
}

/// Renders a page to the bytes its output file receives: the exact JSON
/// context goes through the template the frontmatter selects, and the
/// engine's HTML is minified. The write itself happens outside.
pub fn render_page(
    p: &Page,
    t: &tera::Tera,
    posts_json: &String,
    specials_json: &String,
) -> (r: Result<Vec<u8>, String>)
    requires
        ts_valid(p.document.date),
    ensures
        r matches Ok(bytes) ==> exists|html: Seq<char>|
            bytes@ == #[trigger] minified_of(vstd::utf8::encode_utf8(html)),
{
    let json = page_context_json(p, posts_json, specials_json);
    let context = match context_from_json(json.as_str()) {
        Ok(c) => c,
        Err(e) => {
            return Err(e);
        },
    };
    let name = template_name(&p.document.frontmatter);
    let rendered = match tera_render(t, name.as_str(), &context) {
        Ok(s) => s,
        Err(e) => {
            return Err(e);
        },
    };
    let bytes = minify_html_bytes(rendered.as_str().as_bytes());
    proof {
        assert(bytes@ == minified_of(vstd::utf8::encode_utf8(rendered@)));
    }
    Ok(bytes)
}

} // verus!
