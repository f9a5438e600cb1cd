//! The post index as builds consume it: rows decoded into plain values,
//! ordered by descending date, and encoded again for template contexts
//! and the on-disk search index.

use vstd::multiset::Multiset;
use vstd::prelude::*;

use crate::datetime::{
    spec_parse_ts, spec_ts_iso, parse_timestamp, ts_before_eq, ts_le, ts_to_iso, ts_valid,
    Timestamp,
};
use crate::json::{json_object, json_string, spec_json_string, spec_obj};
use crate::paths::{comps, is_comp_prefix, spec_content_dirs, split_path};
use crate::sql::PostRow;
use crate::strutil::eq_str;

verus! {

/// One published page as the post index presents it to templates.
#[derive(Debug, PartialEq, Eq)]
pub struct PostInIndex {
    pub path: String,
    pub permalink: String,
    pub title: String,
    pub tags_json: String,
    pub date: Timestamp,
    pub updated: Timestamp,
    pub summary: String,
}

/// Whether a text is a well-formed JSON array of strings: a pure
/// function of the text.
pub uninterp spec fn tags_json_ok(s: Seq<char>) -> bool;

/// Relies on `serde_json::from_str::<Vec<String>>`: whether the text
/// decodes as a JSON array of strings, a deterministic function of the
/// text.
#[verifier::external_body]
fn tags_json_valid(s: &str) -> (r: bool)
    ensures
        r == tags_json_ok(s@),
{
    serde_json::from_str::<Vec<String>>(s).is_ok()
}

impl PostInIndex {
    /// Decodes one stored row: the dates must parse as ISO-8601 text
    /// and the tags column must be a JSON array of strings; everything
    /// else is carried as stored.
    pub fn from_row(row: PostRow) -> (r: Result<PostInIndex, String>)
        ensures
            r matches Ok(p) ==> {
                &&& p.path == row.path
                &&& p.permalink == row.permalink
                &&& p.title == row.title
                &&& p.tags_json == row.tags_json
                &&& p.summary == row.summary
                &&& spec_parse_ts(row.date@) == Some(p.date)
                &&& spec_parse_ts(row.updated@) == Some(p.updated)
                &&& ts_valid(p.date)
                &&& ts_valid(p.updated)
                &&& tags_json_ok(row.tags_json@)
            },
            r is Err <==> !({
                &&& spec_parse_ts(row.date@) is Some
                &&& spec_parse_ts(row.updated@) is Some
                &&& tags_json_ok(row.tags_json@)
            }),
    {
        let date = match parse_timestamp(row.date.as_str()) {
            Some(t) => t,
            None => {
                return Err(String::from_str("stored date does not parse"));
            },
        };
        let updated = match parse_timestamp(row.updated.as_str()) {
            Some(t) => t,
            None => {
                return Err(String::from_str("stored updated date does not parse"));
            },
        };
        if !tags_json_valid(row.tags_json.as_str()) {
            return Err(String::from_str("stored tags are not a JSON array of strings"));
        }
        Ok(
            PostInIndex {
                path: row.path,
                permalink: row.permalink,
                title: row.title,
                tags_json: row.tags_json,
                date,
                updated,
                summary: row.summary,
            },
        )
    }

    /// Encodes a post back into its stored row, dates as ISO-8601 text.
    pub fn to_row(&self) -> (r: PostRow)
        requires
            ts_valid(self.date),
            ts_valid(self.updated),
        ensures
            r.path == self.path,
            r.permalink == self.permalink,
            r.title == self.title,
            r.tags_json == self.tags_json,
            r.date@ == spec_ts_iso(self.date),
            r.updated@ == spec_ts_iso(self.updated),
            r.summary == self.summary,
    {
        PostRow {
            path: self.path.clone(),
            permalink: self.permalink.clone(),
            title: self.title.clone(),
            tags_json: self.tags_json.clone(),
            date: ts_to_iso(&self.date),
            updated: ts_to_iso(&self.updated),
            summary: self.summary.clone(),
        }
    }
}

/// Whether the posts stand in descending date order.
pub open spec fn sorted_desc(s: Seq<PostInIndex>) -> bool {
    forall|i: int, j: int| 0 <= i < j < s.len() ==> ts_le(#[trigger] s[j].date, #[trigger] s[i].date)
}

/// Index of a post with the latest date among `v[from..]`.
fn max_date_index(v: &Vec<PostInIndex>, from: usize) -> (r: usize)
    requires
        from < v@.len(),
    ensures
        from <= r < v@.len(),
        forall|j: int| from <= j < v@.len() ==> ts_le((#[trigger] v@[j]).date, v@[r as int].date),
{
    assert(from < v.len());
    let mut m = from;
    let mut k = from + 1;
    while k < v.len()
        invariant
            from <= m < k <= v@.len(),
            forall|j: int| from <= j < k ==> ts_le((#[trigger] v@[j]).date, v@[m as int].date),
        decreases v@.len() - k,
    {
        if !ts_before_eq(&v[k].date, &v[m].date) {
            proof {
                crate::datetime::lemma_ts_le_total(v@[k as int].date, v@[m as int].date);
                assert forall|j: int|
                    from <= j < k + 1 implies ts_le((#[trigger] v@[j]).date, v@[k as int].date) by {
                    if j < k {
                        crate::datetime::lemma_ts_le_total(v@[j].date, v@[m as int].date);
                    }
                }
            }
            m = k;
        }
        k = k + 1;
    }
    m
}

/// Orders posts by descending date: the same posts, latest first.
pub fn sort_posts_desc(posts: Vec<PostInIndex>) -> (r: Vec<PostInIndex>)
    ensures
        r@.to_multiset() == posts@.to_multiset(),
        sorted_desc(r@),
{
    broadcast use vstd::seq_lib::group_to_multiset_ensures;

    let ghost orig = posts@;
    let mut rest = posts;
    let mut out: Vec<PostInIndex> = Vec::new();
    while rest.len() > 0
        invariant
            out@.to_multiset().add(rest@.to_multiset()) == orig.to_multiset(),
            sorted_desc(out@),
            forall|i: int, j: int|
                0 <= i < out@.len() && 0 <= j < rest@.len() ==> ts_le(
                    (#[trigger] rest@[j]).date,
                    (#[trigger] out@[i]).date,
                ),
        decreases rest@.len(),
    {
        let ghost pre_out = out@;
        let ghost pre_rest = rest@;
        let m = max_date_index(&rest, 0);
        let x = rest.remove(m);
        out.push(x);
        proof {
            pre_rest.to_multiset_ensures();
            pre_out.to_multiset_ensures();
            assert(rest@ =~= pre_rest.remove(m as int));
            assert(pre_rest.remove(m as int).to_multiset() =~= pre_rest.to_multiset().remove(
                pre_rest[m as int],
            ));
            assert(rest@.to_multiset() =~= pre_rest.to_multiset().remove(pre_rest[m as int]));
            assert(out@ =~= pre_out.push(pre_rest[m as int]));
            assert(pre_out.push(pre_rest[m as int]).to_multiset() =~= pre_out.to_multiset().insert(
                pre_rest[m as int],
            ));
            assert(out@.to_multiset() =~= pre_out.to_multiset().insert(pre_rest[m as int]));
            assert(pre_rest.to_multiset().contains(pre_rest[m as int]));
            assert(out@.to_multiset().add(rest@.to_multiset()) =~= orig.to_multiset());
            assert forall|i: int, j: int|
                0 <= i < j < out@.len() implies ts_le(
                (#[trigger] out@[j]).date,
                (#[trigger] out@[i]).date,
            ) by {
                if j == out@.len() - 1 {
                    assert(out@[j] == pre_rest[m as int]);
                }
            }
            assert forall|i: int, j: int|
                0 <= i < out@.len() && 0 <= j < rest@.len() implies ts_le(
                (#[trigger] rest@[j]).date,
                (#[trigger] out@[i]).date,
            ) by {
                let j0 = if j < m { j } else { j + 1 };
                assert(rest@[j] == pre_rest[j0]);
                if i < out@.len() - 1 {
                    assert(ts_le(pre_rest[j0].date, pre_out[i].date));
                } else {
                    assert(ts_le(pre_rest[j0].date, pre_rest[m as int].date));
                }
            }
        }
    }
    proof {
        assert(rest@.to_multiset() =~= Multiset::<PostInIndex>::empty());
        assert(out@.to_multiset().add(Multiset::empty()) =~= out@.to_multiset());
    }
    out
}

/// Copies a post field by field.
fn clone_post(p: &PostInIndex) -> (r: PostInIndex)
    ensures
        r == *p,
{
    PostInIndex {
        path: p.path.clone(),
        permalink: p.permalink.clone(),
        title: p.title.clone(),
        tags_json: p.tags_json.clone(),
        date: p.date,
        updated: p.updated,
        summary: p.summary.clone(),
    }
}

/// Whether a source path lies in the given series: its directories below
/// the content root begin with `series` and the series name. By the
/// output-path computation, exactly these pages land below the output's
/// `series/<name>/` directory.
pub open spec fn spec_in_series(path: Seq<char>, series: Seq<char>) -> bool {
    is_comp_prefix(spec_content_dirs(path), seq!["series"@, series])
}

/// Whether a source path is a series index page: its directories below
/// the content root begin with `series` and name one series, which
/// excludes the root series index itself.
pub open spec fn spec_is_series_index(path: Seq<char>) -> bool {
    is_comp_prefix(spec_content_dirs(path), seq!["series"@]) && spec_content_dirs(path).len() >= 2
}

/// Reads whether a source path lies in the given series.
fn in_series(path: &str, series: &str) -> (r: bool)
    ensures
        r == spec_in_series(path@, series@),
{
    let pc = split_path(path);
    let r = pc.len() >= 5 && eq_str(pc[2].as_str(), "series") && eq_str(
        pc[3].as_str(),
        series,
    );
    proof {
        let dirs = spec_content_dirs(path@);
        if comps(path@).len() >= 5 {
            assert(dirs.len() == comps(path@).len() - 3);
            assert(dirs[0] == comps(path@)[2]);
            assert(dirs[1] == comps(path@)[3]);
            if r {
                assert(dirs.take(2) =~= seq!["series"@, series@]);
            } else if dirs.len() >= 2 {
                assert(dirs.take(2)[0] == dirs[0] && dirs.take(2)[1] == dirs[1]);
            }
        } else {
            assert(dirs.len() < 2);
        }
    }
    r
}

/// Reads whether a source path is a series index page.
fn is_series_index(path: &str) -> (r: bool)
    ensures
        r == spec_is_series_index(path@),
{
    let pc = split_path(path);
    let r = pc.len() >= 5 && eq_str(pc[2].as_str(), "series");
    proof {
        let dirs = spec_content_dirs(path@);
        if comps(path@).len() >= 5 {
            assert(dirs.len() == comps(path@).len() - 3);
            assert(dirs[0] == comps(path@)[2]);
            if r {
                assert(dirs.take(1) =~= seq!["series"@]);
            } else {
                assert(dirs.take(1)[0] == dirs[0]);
            }
        } else {
            if comps(path@).len() == 0 {
                assert(dirs.len() == 0);
            } else if comps(path@).drop_last().len() >= 2 {
                assert(dirs.len() == comps(path@).len() - 3);
            } else {
                assert(dirs.len() == 0);
            }
        }
    }
    r
}

/// The posts of one series, in order: exactly those whose source path
/// lies below `series/<name>` in the content tree.
pub open spec fn spec_posts_in_series(ps: Seq<PostInIndex>, series: Seq<char>) -> Seq<
    PostInIndex,
>
    decreases ps.len(),
{
    if ps.len() == 0 {
        Seq::empty()
    } else {
        let rest = spec_posts_in_series(ps.drop_last(), series);
        if spec_in_series(ps.last().path@, series) {
            rest.push(ps.last())
        } else {
            rest
        }
    }
}

/// The series index pages among the given pages, in order: those below
/// `series/` in the content tree, the root series index excluded.
pub open spec fn spec_series_indexes(ps: Seq<PostInIndex>) -> Seq<PostInIndex>
    decreases ps.len(),
{
    if ps.len() == 0 {
        Seq::empty()
    } else {
        let rest = spec_series_indexes(ps.drop_last());
        if spec_is_series_index(ps.last().path@) {
            rest.push(ps.last())
        } else {
            rest
        }
    }
}

/// Selects the posts of one series, in order: the template query behind
/// a series page's post list.
pub fn posts_in_series(posts: &Vec<PostInIndex>, series: &str) -> (r: Vec<PostInIndex>)
    ensures
        r@ == spec_posts_in_series(posts@, series@),
{
    let mut out: Vec<PostInIndex> = Vec::new();
    let mut k: usize = 0;
    proof {
        assert(out@ =~= spec_posts_in_series(posts@.take(0), series@));
    }
    while k < posts.len()
        invariant
            k <= posts@.len(),
            out@ == spec_posts_in_series(posts@.take(k as int), series@),
        decreases posts@.len() - k,
    {
        let ghost pre = out@;
        proof {
            assert(posts@.take(k + 1).drop_last() =~= posts@.take(k as int));
            assert(posts@.take(k + 1).last() == posts@[k as int]);
        }
        if in_series(posts[k].path.as_str(), series) {
            out.push(clone_post(&posts[k]));
            proof {
                assert(out@ =~= pre.push(posts@[k as int]));
            }
        }
        k = k + 1;
    }
    proof {
        assert(posts@.take(posts@.len() as int) =~= posts@);
    }
    out
}

/// Selects the series index pages among the given pages, in order: the
/// template query behind the series overview.
pub fn series_indexes(pages: &Vec<PostInIndex>) -> (r: Vec<PostInIndex>)
    ensures
        r@ == spec_series_indexes(pages@),
{
    let mut out: Vec<PostInIndex> = Vec::new();
    let mut k: usize = 0;
    proof {
        assert(out@ =~= spec_series_indexes(pages@.take(0)));
    }
    while k < pages.len()
        invariant
            k <= pages@.len(),
            out@ == spec_series_indexes(pages@.take(k as int)),
        decreases pages@.len() - k,
    {
        let ghost pre = out@;
        proof {
            assert(pages@.take(k + 1).drop_last() =~= pages@.take(k as int));
            assert(pages@.take(k + 1).last() == pages@[k as int]);
        }
        if is_series_index(pages[k].path.as_str()) {
            out.push(clone_post(&pages[k]));
            proof {
                assert(out@ =~= pre.push(pages@[k as int]));
            }
        }
        k = k + 1;
    }
    proof {
        assert(pages@.take(pages@.len() as int) =~= pages@);
    }
    out
}

/// The members of one post's JSON object in template contexts.
pub open spec fn spec_post_members(p: PostInIndex) -> Seq<(Seq<char>, Seq<char>)> {
    seq![
        ("path"@, spec_json_string(p.path@)),
        ("permalink"@, spec_json_string(p.permalink@)),
        ("title"@, spec_json_string(p.title@)),
        ("tags"@, p.tags_json@),
        ("date"@, spec_json_string(spec_ts_iso(p.date))),
        ("updated"@, spec_json_string(spec_ts_iso(p.updated))),
        ("summary"@, spec_json_string(p.summary@)),
    ]
}

/// The JSON object for one post.
pub fn post_json(p: &PostInIndex) -> (r: String)
    requires
        ts_valid(p.date),
        ts_valid(p.updated),
    ensures
        r@ == spec_obj(spec_post_members(*p)),
{
    let mut members: Vec<(String, String)> = Vec::new();
    members.push((String::from_str("path"), json_string(p.path.as_str())));
    members.push((String::from_str("permalink"), json_string(p.permalink.as_str())));
    members.push((String::from_str("title"), json_string(p.title.as_str())));
    members.push((String::from_str("tags"), p.tags_json.clone()));
    members.push((String::from_str("date"), json_string(ts_to_iso(&p.date).as_str())));
    members.push((String::from_str("updated"), json_string(ts_to_iso(&p.updated).as_str())));
    members.push((String::from_str("summary"), json_string(p.summary.as_str())));
    let r = json_object(&members);
    proof {
        assert(members.deep_view() =~= spec_post_members(*p));
    }
    r
}

/// The JSON array for a post list, in the order given.
pub open spec fn spec_posts_array(ps: Seq<PostInIndex>) -> Seq<char> {
    seq!['['] + spec_posts_inner(ps) + seq![']']
}

/// The comma-separated post objects.
pub open spec fn spec_posts_inner(ps: Seq<PostInIndex>) -> Seq<char>
    decreases ps.len(),
{
    if ps.len() == 0 {
        Seq::empty()
    } else if ps.len() == 1 {
        spec_obj(spec_post_members(ps[0]))
    } else {
        spec_posts_inner(ps.drop_last()) + seq![','] + spec_obj(spec_post_members(ps.last()))
    }
}

/// Appending one more post object.
proof fn lemma_posts_inner_push(ps: Seq<PostInIndex>, x: PostInIndex)
    ensures
        ps.len() == 0 ==> spec_posts_inner(ps.push(x)) == spec_obj(spec_post_members(x)),
        ps.len() > 0 ==> spec_posts_inner(ps.push(x)) == spec_posts_inner(ps) + seq![',']
            + spec_obj(spec_post_members(x)),
{
    if ps.len() == 0 {
        assert(ps.push(x)[0] == x);
    } else {
        assert(ps.push(x).drop_last() =~= ps);
        assert(ps.push(x).last() == x);
    }
}

/// Whether every post in a list carries valid dates.
pub open spec fn posts_valid(ps: Seq<PostInIndex>) -> bool {
    forall|i: int|
        0 <= i < ps.len() ==> ts_valid((#[trigger] ps[i]).date) && ts_valid(ps[i].updated)
}

/// The JSON array for a post list, as template contexts receive it.
pub fn posts_json(ps: &Vec<PostInIndex>) -> (r: String)
    requires
        posts_valid(ps@),
    ensures
        r@ == spec_posts_array(ps@),
{
    let mut out = String::new();
    crate::strutil::push_char(&mut out, '[');
    let mut k: usize = 0;
    proof {
        assert(ps@.take(0) =~= Seq::<PostInIndex>::empty());
    }
    while k < ps.len()
        invariant
            k <= ps@.len(),
            posts_valid(ps@),
            out@ == seq!['['] + spec_posts_inner(ps@.take(k as int)),
        decreases ps@.len() - k,
    {
        let ghost pre = ps@.take(k as int);
        if k > 0 {
            crate::strutil::push_char(&mut out, ',');
        }
        let obj = post_json(&ps[k]);
        out.append(obj.as_str());
        proof {
            lemma_posts_inner_push(pre, ps@[k as int]);
            assert(ps@.take(k + 1) =~= pre.push(ps@[k as int]));
            assert(out@ =~= seq!['['] + spec_posts_inner(ps@.take(k + 1)));
        }
        k = k + 1;
    }
    proof {
        assert(ps@.take(ps@.len() as int) =~= ps@);
    }
    crate::strutil::push_char(&mut out, ']');
    proof {
        assert(out@ =~= spec_posts_array(ps@));
    }
    out
}

/// Reads every stored post row, decodes it, and orders the posts by
/// descending date: the index as templates and future builds consume it.
/// Whatever rows the store returned, a successful result is in
/// descending date order and every post carries well-formed dates.
pub fn load_posts(db: &crate::sql::Db) -> (r: Result<Vec<PostInIndex>, String>)
    ensures
        r matches Ok(ps) ==> sorted_desc(ps@) && posts_valid(ps@),
{
    let rows = match db.get_post_rows() {
        Ok(rows) => rows,
        Err(e) => {
            return Err(e);
        },
    };
    let mut posts: Vec<PostInIndex> = Vec::new();
    let mut rows = rows;
    while rows.len() > 0
        invariant
            posts_valid(posts@),
        decreases rows@.len(),
    {
        let row = rows.remove(0);
        match PostInIndex::from_row(row) {
            Ok(p) => posts.push(p),
            Err(e) => {
                return Err(e);
            },
        }
    }
    let sorted = sort_posts_desc(posts);
    proof {
        broadcast use vstd::seq_lib::group_to_multiset_ensures;

        assert forall|i: int| 0 <= i < sorted@.len() implies ts_valid(
            (#[trigger] sorted@[i]).date,
        ) && ts_valid(sorted@[i].updated) by {
            assert(sorted@.to_multiset().contains(sorted@[i]));
        }
    }
    Ok(sorted)
}

} // verus!
