//! The build orchestration that can be decided from values alone:
//! dispatching discovered entries by their subtree, filtering drafts,
//! ordering special pages, recording fingerprints and index rows, and
//! the contexts for the feed and sitemap templates. The surrounding
//! process supplies file contents and writes results out.

use vstd::prelude::*;

use crate::asset::Asset;
use crate::config::Config;
use crate::datetime::{ts_before_eq, ts_le, ts_valid};
use crate::entry::Entry;
use crate::index::PageMeta;
use crate::json::{json_object, json_string, spec_json_string, spec_obj};
use crate::page::Page;
use crate::paths::comps;
use crate::postindex::PostInIndex;
use crate::sql::Db;
use crate::static_file::StaticFile;
use crate::strutil::eq_str;

verus! {

/// Which subtree a discovered entry belongs to, read from the second
/// component of its parent directory: `content` entries become pages,
/// `assets` entries run the asset pipeline, `static` entries are copied,
/// and anything else is left alone.
pub enum EntryKind {
    Content,
    Assets,
    Static,
    Other,
}

/// The subtree of a path, as the dispatch reads it.
pub open spec fn spec_entry_kind(path: Seq<char>) -> EntryKind {
    let parent = comps(path).drop_last();
    if comps(path).len() == 0 || parent.len() < 2 {
        EntryKind::Other
    } else if parent[1] == "content"@ {
        EntryKind::Content
    } else if parent[1] == "assets"@ {
        EntryKind::Assets
    } else if parent[1] == "static"@ {
        EntryKind::Static
    } else {
        EntryKind::Other
    }
}

/// Reads which subtree an entry's path belongs to.
pub fn entry_kind(path: &str) -> (r: EntryKind)
    ensures
        r == spec_entry_kind(path@),
{
    let mut pc = crate::paths::split_path(path);
    let ghost gpc = pc.deep_view();
    if pc.len() == 0 {
        return EntryKind::Other;
    }
    let _ = pc.pop();
    proof {
        assert(pc.deep_view() =~= gpc.drop_last());
    }
    if pc.len() < 2 {
        return EntryKind::Other;
    }
    proof {
        assert(pc.deep_view()[1] == gpc.drop_last()[1]);
    }
    if eq_str(pc[1].as_str(), "content") {
        EntryKind::Content
    } else if eq_str(pc[1].as_str(), "assets") {
        EntryKind::Assets
    } else if eq_str(pc[1].as_str(), "static") {
        EntryKind::Static
    } else {
        EntryKind::Other
    }
}

/// The outputs of one build: the typed artifacts produced from the
/// entries carried into it.
pub struct Outputs {
    pub pages: Vec<Page>,
    pub assets: Vec<Asset>,
    pub static_files: Vec<StaticFile>,
}

/// Whether a page was produced from the entry: identity carried over,
/// and the entry's path lies in the content subtree.
pub open spec fn page_from_entry(p: Page, e: Entry) -> bool {
    &&& p.path == e.path
    &&& p.hash == e.hash
    &&& p.fresh == e.fresh
    &&& spec_entry_kind(e.path@) is Content
}

/// Whether an asset was produced from the entry: identity and raw bytes
/// carried over, and the entry's path lies in the assets subtree.
pub open spec fn asset_from_entry(a: Asset, e: Entry) -> bool {
    &&& a.path == e.path
    &&& a.raw_content@ == e.raw_content@
    &&& a.hash == e.hash
    &&& a.fresh == e.fresh
    &&& spec_entry_kind(e.path@) is Assets
}

/// Whether a static file was produced from the entry: identity carried
/// over, and the entry's path lies in the static subtree.
pub open spec fn static_from_entry(s: StaticFile, e: Entry) -> bool {
    &&& s.path == e.path
    &&& s.hash == e.hash
    &&& s.fresh == e.fresh
    &&& spec_entry_kind(e.path@) is Static
}

/// Whether every output in a list was produced from some entry of the
/// list, under the given correspondence.
pub open spec fn outputs_from_entries<T>(
    outs: Seq<T>,
    es: Seq<Entry>,
    rel: spec_fn(T, Entry) -> bool,
) -> bool {
    forall|j: int|
        0 <= j < outs.len() ==> exists|i: int| 0 <= i < es.len() && rel(#[trigger] outs[j], #[trigger] es[i])
}

/// Processes the planned entries into typed outputs, dispatching each by
/// its subtree: content becomes pages, assets run the pipeline, static
/// files get mirrored paths, and anything else is skipped. The first
/// failing entry aborts the build, carrying the failing path in the
/// error; a plan with only static and skipped entries always succeeds.
/// Every output was produced from one of the entries, with its path,
/// fingerprint and freshness carried over unchanged; every page carries
/// well-formed dates and the special-page flag its path earns.
pub fn process_entries(t: &tera::Tera, config: &Config, entries: Vec<Entry>) -> (r: Result<
    Outputs,
    String,
>)
    ensures
        (forall|i: int|
            0 <= i < entries@.len() ==> ((#[trigger] spec_entry_kind(entries@[i].path@))
                is Static || spec_entry_kind(entries@[i].path@) is Other)) ==> r is Ok,
        r matches Ok(outs) ==> {
            &&& outputs_from_entries(outs.pages@, entries@, |p: Page, e: Entry| page_from_entry(p, e))
            &&& outputs_from_entries(
                outs.assets@,
                entries@,
                |a: Asset, e: Entry| asset_from_entry(a, e),
            )
            &&& outputs_from_entries(
                outs.static_files@,
                entries@,
                |s: StaticFile, e: Entry| static_from_entry(s, e),
            )
            &&& forall|j: int|
                0 <= j < outs.pages@.len() ==> {
                    &&& ts_valid((#[trigger] outs.pages@[j]).document.date)
                    &&& ts_valid(outs.pages@[j].document.updated)
                    &&& outs.pages@[j].is_special == crate::entry::spec_is_special_page(
                        outs.pages@[j].path@,
                        config.special_pages.deep_view(),
                    )
                }
        },
{
    let ghost orig = entries@;
    let mut pages: Vec<Page> = Vec::new();
    let mut assets: Vec<Asset> = Vec::new();
    let mut static_files: Vec<StaticFile> = Vec::new();
    let mut entries = entries;
    let ghost mut k: int = 0;
    #[verifier::loop_isolation(false)]
    while entries.len() > 0
        invariant
            0 <= k <= orig.len(),
            entries@ =~= orig.skip(k),
            outputs_from_entries(pages@, orig, |p: Page, e: Entry| page_from_entry(p, e)),
            outputs_from_entries(assets@, orig, |a: Asset, e: Entry| asset_from_entry(a, e)),
            outputs_from_entries(
                static_files@,
                orig,
                |s: StaticFile, e: Entry| static_from_entry(s, e),
            ),
            forall|j: int|
                0 <= j < pages@.len() ==> {
                    &&& ts_valid((#[trigger] pages@[j]).document.date)
                    &&& ts_valid(pages@[j].document.updated)
                    &&& pages@[j].is_special == crate::entry::spec_is_special_page(
                        pages@[j].path@,
                        config.special_pages.deep_view(),
                    )
                },
        decreases entries@.len(),
    {
        let entry = entries.remove(0);
        let ghost ge = entry;
        proof {
            assert(ge == orig[k]);
            assert(orig.skip(k).remove(0) =~= orig.skip(k + 1));
        }
        match entry_kind(entry.path.as_str()) {
            EntryKind::Content => {
                let content = match bytes_to_string(entry.raw_content) {
                    Some(s) => s,
                    None => {
                        proof {
                            assert(spec_entry_kind(orig[k].path@) is Content);
                        }
                        return Err(String::from_str("content entry is not valid UTF-8"));
                    },
                };
                match Page::new(t, config, entry.path, content, entry.hash, entry.fresh) {
                    Ok(p) => {
                        let ghost pre = pages@;
                        pages.push(p);
                        proof {
                            assert(page_from_entry(pages@[pre.len() as int], orig[k]));
                            assert forall|j: int| 0 <= j < pages@.len() implies exists|i: int|
                                0 <= i < orig.len() && page_from_entry(
                                    #[trigger] pages@[j],
                                    #[trigger] orig[i],
                                ) by {
                                if j < pre.len() {
                                    assert(pages@[j] == pre[j]);
                                }
                            }
                        }
                    },
                    Err(e) => {
                        proof {
                            assert(spec_entry_kind(orig[k].path@) is Content);
                        }
                        return Err(e);
                    },
                }
            },
            EntryKind::Assets => {
                match Asset::new(
                    entry.path,
                    entry.raw_content,
                    entry.hash,
                    entry.fresh,
                    config.output_path.as_str(),
                ) {
                    Ok(a) => {
                        let ghost pre = assets@;
                        assets.push(a);
                        proof {
                            assert(asset_from_entry(assets@[pre.len() as int], orig[k]));
                            assert forall|j: int| 0 <= j < assets@.len() implies exists|i: int|
                                0 <= i < orig.len() && asset_from_entry(
                                    #[trigger] assets@[j],
                                    #[trigger] orig[i],
                                ) by {
                                if j < pre.len() {
                                    assert(assets@[j] == pre[j]);
                                }
                            }
                        }
                    },
                    Err(e) => {
                        proof {
                            assert(spec_entry_kind(orig[k].path@) is Assets);
                        }
                        return Err(e);
                    },
                }
            },
            EntryKind::Static => {
                let s = StaticFile::new(
                    entry.path,
                    entry.hash,
                    entry.fresh,
                    config.output_path.as_str(),
                );
                let ghost pre = static_files@;
                static_files.push(s);
                proof {
                    assert(static_from_entry(static_files@[pre.len() as int], orig[k]));
                    assert forall|j: int| 0 <= j < static_files@.len() implies exists|i: int|
                        0 <= i < orig.len() && static_from_entry(
                            #[trigger] static_files@[j],
                            #[trigger] orig[i],
                        ) by {
                        if j < pre.len() {
                            assert(static_files@[j] == pre[j]);
                        }
                    }
                }
            },
            EntryKind::Other => {},
        }
        proof {
            k = k + 1;
        }
    }
    Ok(Outputs { pages, assets, static_files })
}

/// Relies on `String::from_utf8`: the string holding exactly the given
/// bytes when they are valid UTF-8, and nothing otherwise.
#[verifier::external_body]
fn bytes_to_string(bytes: Vec<u8>) -> (r: Option<String>)
    ensures
        r matches Some(s) ==> vstd::utf8::encode_utf8(s@) == bytes@,
{
    String::from_utf8(bytes).ok()
}

/// The pages visible in this build: drafts are kept only in development
/// mode.
pub open spec fn spec_visible(pages: Seq<Page>, development: bool) -> Seq<Page>
    decreases pages.len(),
{
    if pages.len() == 0 {
        Seq::empty()
    } else {
        let rest = spec_visible(pages.drop_last(), development);
        if !pages.last().document.frontmatter.draft || development {
            rest.push(pages.last())
        } else {
            rest
        }
    }
}

/// Keeps the pages this build renders: every page whose draft flag is
/// clear, and in development mode drafts too, in order.
pub fn filter_visible(pages: Vec<Page>, development: bool) -> (r: Vec<Page>)
    ensures
        r@ == spec_visible(pages@, development),
{
    let ghost orig = pages@;
    let n = pages.len();
    let mut out: Vec<Page> = Vec::new();
    let mut k: usize = 0;
    let mut pages = pages;
    proof {
        assert(out@ =~= spec_visible(orig.take(0), development));
    }
    while pages.len() > 0
        invariant
            orig.skip(k as int) =~= pages@,
            k <= n,
            n == orig.len(),
            out@ == spec_visible(orig.take(k as int), development),
        decreases pages@.len(),
    {
        let ghost pre = out@;
        let p = pages.remove(0);
        proof {
            assert(p == orig[k as int]);
            assert(orig.skip(k as int).remove(0) =~= orig.skip(k + 1));
            assert(orig.take(k + 1).drop_last() =~= orig.take(k as int));
            assert(orig.take(k + 1).last() == orig[k as int]);
        }
        if !p.document.frontmatter.draft || development {
            out.push(p);
            proof {
                assert(out@ =~= pre.push(orig[k as int]));
            }
        }
        k = k + 1;
    }
    proof {
        assert(orig.take(orig.len() as int) =~= orig);
        assert(k == orig.len());
    }
    out
}

/// Whether the pages stand in descending date order.
pub open spec fn pages_sorted_desc(s: Seq<Page>) -> bool {
    forall|i: int, j: int|
        0 <= i < j < s.len() ==> ts_le(
            (#[trigger] s[j]).document.date,
            (#[trigger] s[i]).document.date,
        )
}

/// Index of a page with the latest date among `v[from..]`.
fn max_page_date_index(v: &Vec<Page>, from: usize) -> (r: usize)
    requires
        from < v@.len(),
    ensures
        from <= r < v@.len(),
        forall|j: int|
            from <= j < v@.len() ==> ts_le(
                (#[trigger] v@[j]).document.date,
                v@[r as int].document.date,
            ),
{
    assert(from < v.len());
    let mut m = from;
    let mut k = from + 1;
    while k < v.len()
        invariant
            from <= m < k <= v@.len(),
            forall|j: int|
                from <= j < k ==> ts_le(
                    (#[trigger] v@[j]).document.date,
                    v@[m as int].document.date,
                ),
        decreases v@.len() - k,
    {
        if !ts_before_eq(&v[k].document.date, &v[m].document.date) {
            proof {
                crate::datetime::lemma_ts_le_total(
                    v@[k as int].document.date,
                    v@[m as int].document.date,
                );
                assert forall|j: int|
                    from <= j < k + 1 implies ts_le(
                    (#[trigger] v@[j]).document.date,
                    v@[k as int].document.date,
                ) by {
                    if j < k {
                        crate::datetime::lemma_ts_le_total(
                            v@[j].document.date,
                            v@[m as int].document.date,
                        );
                    }
                }
            }
            m = k;
        }
        k = k + 1;
    }
    m
}

/// Orders pages by descending date: the same pages, latest first.
pub fn sort_pages_desc(pages: Vec<Page>) -> (r: Vec<Page>)
    ensures
        r@.to_multiset() == pages@.to_multiset(),
        pages_sorted_desc(r@),
{
    broadcast use vstd::seq_lib::group_to_multiset_ensures;

    let ghost orig = pages@;
    let mut rest = pages;
    let mut out: Vec<Page> = Vec::new();
    while rest.len() > 0
        invariant
            out@.to_multiset().add(rest@.to_multiset()) == orig.to_multiset(),
            pages_sorted_desc(out@),
            forall|i: int, j: int|
                0 <= i < out@.len() && 0 <= j < rest@.len() ==> ts_le(
                    (#[trigger] rest@[j]).document.date,
                    (#[trigger] out@[i]).document.date,
                ),
        decreases rest@.len(),
    {
        let ghost pre_out = out@;
        let ghost pre_rest = rest@;
        let m = max_page_date_index(&rest, 0);
        let x = rest.remove(m);
        out.push(x);
        proof {
            pre_rest.to_multiset_ensures();
            pre_out.to_multiset_ensures();
            assert(rest@ =~= pre_rest.remove(m as int));
            assert(pre_rest.remove(m as int).to_multiset() =~= pre_rest.to_multiset().remove(
                pre_rest[m as int],
            ));
            assert(out@ =~= pre_out.push(pre_rest[m as int]));
            assert(pre_out.push(pre_rest[m as int]).to_multiset() =~= pre_out.to_multiset().insert(
                pre_rest[m as int],
            ));
            assert(out@.to_multiset().add(rest@.to_multiset()) =~= orig.to_multiset());
            assert forall|i: int, j: int|
                0 <= i < j < out@.len() implies ts_le(
                (#[trigger] out@[j]).document.date,
                (#[trigger] out@[i]).document.date,
            ) by {
                if j == out@.len() - 1 {
                    assert(out@[j] == pre_rest[m as int]);
                }
            }
            assert forall|i: int, j: int|
                0 <= i < out@.len() && 0 <= j < rest@.len() implies ts_le(
                (#[trigger] rest@[j]).document.date,
                (#[trigger] out@[i]).document.date,
            ) by {
                let j0 = if j < m { j } else { j + 1 };
                assert(rest@[j] == pre_rest[j0]);
                if i < out@.len() - 1 {
                    assert(ts_le(pre_rest[j0].document.date, pre_out[i].document.date));
                } else {
                    assert(ts_le(pre_rest[j0].document.date, pre_rest[m as int].document.date));
                }
            }
        }
    }
    proof {
        assert(rest@.to_multiset() =~= vstd::multiset::Multiset::<Page>::empty());
        assert(out@.to_multiset().add(vstd::multiset::Multiset::<Page>::empty())
            =~= out@.to_multiset());
    }
    out
}

/// The post-index record of a rendered page.
pub fn post_of(p: &Page) -> (r: PostInIndex)
    requires
        ts_valid(p.document.date),
        ts_valid(p.document.updated),
    ensures
        r.path == p.path,
        r.permalink == p.permalink,
        r.title == p.document.frontmatter.title,
        r.tags_json@ == crate::json::spec_json_str_array(p.document.frontmatter.tags.deep_view()),
        r.date == p.document.date,
        r.updated == p.document.updated,
        r.summary == p.document.summary,
{
    PostInIndex {
        path: p.path.clone(),
        permalink: p.permalink.clone(),
        title: p.document.frontmatter.title.clone(),
        tags_json: crate::json::json_str_array(&p.document.frontmatter.tags),
        date: p.document.date,
        updated: p.document.updated,
        summary: p.document.summary.clone(),
    }
}

/// The search-index record of a rendered page.
pub fn meta_of(p: &Page) -> (r: PageMeta)
    ensures
        r.path == p.path,
        r.permalink == p.permalink,
        r.title == p.document.frontmatter.title,
        r.tags_json@ == crate::json::spec_json_str_array(p.document.frontmatter.tags.deep_view()),
        r.date == p.document.date,
        r.updated == p.document.updated,
        r.summary == p.document.summary,
        r.hash == p.hash,
        r.fresh == p.fresh,
{
    PageMeta {
        path: p.path.clone(),
        permalink: p.permalink.clone(),
        title: p.document.frontmatter.title.clone(),
        tags_json: crate::json::json_str_array(&p.document.frontmatter.tags),
        date: p.document.date,
        updated: p.document.updated,
        summary: p.document.summary.clone(),
        hash: p.hash.clone(),
        fresh: p.fresh,
    }
}

/// Records every output's fingerprint, and the post-index row of every
/// non-special page: fresh outputs insert, the rest update, right after
/// classification so the store matches the on-disk content whether or
/// not later rendering succeeds. With nothing to record it succeeds;
/// otherwise only the store itself can fail.
pub fn update_db(db: &Db, outputs: &Outputs) -> (r: Result<(), String>)
    requires
        forall|j: int|
            0 <= j < outputs.pages@.len() && !(#[trigger] outputs.pages@[j]).is_special ==> {
                &&& ts_valid(outputs.pages@[j].document.date)
                &&& ts_valid(outputs.pages@[j].document.updated)
            },
    ensures
        outputs.pages@.len() == 0 && outputs.assets@.len() == 0 && outputs.static_files@.len()
            == 0 ==> r is Ok,
{
    let mut k: usize = 0;
    while k < outputs.pages.len()
        decreases outputs.pages@.len() - k,
    {
        let p = &outputs.pages[k];
        if let Err(e) = db.record_entry(p.path.as_str(), p.hash.as_str(), p.fresh) {
            return Err(e);
        }
        k = k + 1;
    }
    let mut k: usize = 0;
    while k < outputs.assets.len()
        decreases outputs.assets@.len() - k,
    {
        let a = &outputs.assets[k];
        if let Err(e) = db.record_entry(a.path.as_str(), a.hash.as_str(), a.fresh) {
            return Err(e);
        }
        k = k + 1;
    }
    let mut k: usize = 0;
    while k < outputs.static_files.len()
        decreases outputs.static_files@.len() - k,
    {
        let s = &outputs.static_files[k];
        if let Err(e) = db.record_entry(s.path.as_str(), s.hash.as_str(), s.fresh) {
            return Err(e);
        }
        k = k + 1;
    }
    let mut k: usize = 0;
    while k < outputs.pages.len()
        invariant
            forall|j: int|
                0 <= j < outputs.pages@.len() && !(#[trigger] outputs.pages@[j]).is_special ==> {
                    &&& ts_valid(outputs.pages@[j].document.date)
                    &&& ts_valid(outputs.pages@[j].document.updated)
                },
        decreases outputs.pages@.len() - k,
    {
        let p = &outputs.pages[k];
        if !p.is_special {
            let post = post_of(p);
            let row = post.to_row();
            if let Err(e) = db.record_post(&row, p.fresh) {
                return Err(e);
            }
        }
        k = k + 1;
    }
    Ok(())
}

/// The development loop's rebuild decision: a filesystem event triggers
/// a rebuild exactly when it reports a modification or a creation.
pub fn should_rebuild(modified: bool, created: bool) -> (r: bool)
    ensures
        r == (modified || created),
{
    modified || created
}

/// The members of the feed template's context.
pub open spec fn spec_atom_members(
    url: Seq<char>,
    last_updated_iso: Seq<char>,
    pages_json: Seq<char>,
) -> Seq<(Seq<char>, Seq<char>)> {
    seq![
        ("feed_url"@, spec_json_string(url + "atom.xml"@)),
        ("base_url"@, spec_json_string(url)),
        ("last_updated"@, spec_json_string(last_updated_iso)),
        ("pages"@, pages_json),
    ]
}

/// Builds the feed template's context: the feed and base URLs, the
/// generation time, and every indexed page. The generation time is
/// stamped at each build, so the feed's `last_updated` moves even when
/// nothing changed.
pub fn atom_context_json(url: &str, last_updated_iso: &str, pages_json: &String) -> (r: String)
    ensures
        r@ == spec_obj(spec_atom_members(url@, last_updated_iso@, pages_json@)),
{
    let mut feed_url = String::from_str(url);
    feed_url.append("atom.xml");
    let mut members: Vec<(String, String)> = Vec::new();
    members.push((String::from_str("feed_url"), json_string(feed_url.as_str())));
    members.push((String::from_str("base_url"), json_string(url)));
    members.push((String::from_str("last_updated"), json_string(last_updated_iso)));
    members.push((String::from_str("pages"), pages_json.clone()));
    let r = json_object(&members);
    proof {
        assert(members.deep_view() =~= spec_atom_members(url@, last_updated_iso@, pages_json@));
    }
    r
}

/// The members of the sitemap template's context.
pub open spec fn spec_sitemap_members(pages_json: Seq<char>) -> Seq<(Seq<char>, Seq<char>)> {
    seq![("pages"@, pages_json)]
}

/// Builds the sitemap template's context: every indexed page and every
/// special page.
pub fn sitemap_context_json(pages_json: &String) -> (r: String)
    ensures
        r@ == spec_obj(spec_sitemap_members(pages_json@)),
{
    let mut members: Vec<(String, String)> = Vec::new();
    members.push((String::from_str("pages"), pages_json.clone()));
    let r = json_object(&members);
    proof {
        assert(members.deep_view() =~= spec_sitemap_members(pages_json@));
    }
    r
}

} // verus!
