//! The incremental search index: the page metadata persisted in
//! `index.json` at the output root. Merging a freshly built page set into
//! the index on disk keeps every previously published page that this run
//! did not touch, which is what makes skipping unchanged files safe.

use vstd::prelude::*;

use crate::datetime::{spec_ts_iso, ts_to_iso, ts_valid, Timestamp};
use crate::json::{json_object, json_string, spec_json_string, spec_obj};
use crate::page::{bool_json, spec_bool_json};
use crate::strutil::push_char;

verus! {

/// The metadata the index holds for one page.
#[derive(Debug, PartialEq, Eq)]
pub struct PageMeta {
    pub path: String,
    pub permalink: String,
    pub title: String,
    pub tags_json: String,
    pub date: Timestamp,
    pub updated: Timestamp,
    pub summary: String,
    pub hash: String,
    pub fresh: bool,
}

/// The mathematical model of a `PageMeta`.
pub struct PageMetaV {
    pub path: Seq<char>,
    pub permalink: Seq<char>,
    pub title: Seq<char>,
    pub tags_json: Seq<char>,
    pub date: Timestamp,
    pub updated: Timestamp,
    pub summary: Seq<char>,
    pub hash: Seq<char>,
    pub fresh: bool,
}

impl DeepView for PageMeta {
    type V = PageMetaV;

    open spec fn deep_view(&self) -> PageMetaV {
        PageMetaV {
            path: self.path@,
            permalink: self.permalink@,
            title: self.title@,
            tags_json: self.tags_json@,
            date: self.date,
            updated: self.updated,
            summary: self.summary@,
            hash: self.hash@,
            fresh: self.fresh,
        }
    }
}

/// The map a metadata list denotes: each path to its record, a later
/// record overriding an earlier one with the same path.
pub open spec fn meta_map(s: Seq<PageMetaV>) -> Map<Seq<char>, PageMetaV>
    decreases s.len(),
{
    if s.len() == 0 {
        Map::empty()
    } else {
        meta_map(s.drop_last()).insert(s.last().path, s.last())
    }
}

/// The records of `s` whose paths are outside `excl`.
pub open spec fn metas_outside(s: Seq<PageMetaV>, excl: Set<Seq<char>>) -> Seq<PageMetaV>
    decreases s.len(),
{
    if s.len() == 0 {
        Seq::empty()
    } else {
        let rest = metas_outside(s.drop_last(), excl);
        if excl.contains(s.last().path) {
            rest
        } else {
            rest.push(s.last())
        }
    }
}

/// What a metadata list with the paths in `excl` taken out denotes: the
/// original map restricted to the remaining paths.
proof fn lemma_metas_outside_map(s: Seq<PageMetaV>, excl: Set<Seq<char>>)
    ensures
        forall|p: Seq<char>|
            !excl.contains(p) ==> #[trigger] meta_map(metas_outside(s, excl)).contains_key(p)
                == meta_map(s).contains_key(p),
        forall|p: Seq<char>|
            !excl.contains(p) && meta_map(s).contains_key(p) ==> #[trigger] meta_map(
                metas_outside(s, excl),
            )[p] == meta_map(s)[p],
        forall|p: Seq<char>|
            excl.contains(p) ==> !(#[trigger] meta_map(metas_outside(s, excl)).contains_key(p)),
    decreases s.len(),
{
    if s.len() > 0 {
        lemma_metas_outside_map(s.drop_last(), excl);
        let rest = metas_outside(s.drop_last(), excl);
        let x = s.last();
        if excl.contains(x.path) {
            assert(metas_outside(s, excl) == rest);
        } else {
            assert(metas_outside(s, excl) == rest.push(x));
            assert(rest.push(x).drop_last() =~= rest);
            assert(rest.push(x).last() == x);
            assert(meta_map(rest.push(x)) == meta_map(rest).insert(x.path, x));
        }
    }
}

/// Concatenation denotes the overriding union of the two maps.
proof fn lemma_meta_map_concat(a: Seq<PageMetaV>, b: Seq<PageMetaV>)
    ensures
        meta_map(a + b) == meta_map(a).union_prefer_right(meta_map(b)),
    decreases b.len(),
{
    if b.len() == 0 {
        assert(a + b =~= a);
        assert(meta_map(a).union_prefer_right(Map::empty()) =~= meta_map(a));
    } else {
        lemma_meta_map_concat(a, b.drop_last());
        assert((a + b).drop_last() =~= a + b.drop_last());
        assert((a + b).last() == b.last());
        assert(meta_map(a + b) == meta_map(a + b.drop_last()).insert(b.last().path, b.last()));
        assert(meta_map(a).union_prefer_right(meta_map(b.drop_last())).insert(
            b.last().path,
            b.last(),
        ) =~= meta_map(a).union_prefer_right(
            meta_map(b.drop_last()).insert(b.last().path, b.last()),
        ));
    }
}

/// Copies a record field by field.
fn clone_meta(m: &PageMeta) -> (r: PageMeta)
    ensures
        r.deep_view() == m.deep_view(),
{
    PageMeta {
        path: m.path.clone(),
        permalink: m.permalink.clone(),
        title: m.title.clone(),
        tags_json: m.tags_json.clone(),
        date: m.date,
        updated: m.updated,
        summary: m.summary.clone(),
        hash: m.hash.clone(),
        fresh: m.fresh,
    }
}

/// Whether some record in `v` has the given path.
fn has_path(v: &Vec<PageMeta>, path: &String) -> (r: bool)
    ensures
        r == meta_map(v.deep_view()).contains_key(path@),
{
    let mut k: usize = 0;
    proof {
        lemma_meta_map_keys(v.deep_view());
    }
    while k < v.len()
        invariant
            k <= v@.len(),
            forall|j: int| 0 <= j < k ==> (#[trigger] v.deep_view()[j]).path != path@,
            forall|p: Seq<char>|
                meta_map(v.deep_view()).contains_key(p) <==> exists|j: int|
                    0 <= j < v.deep_view().len() && (#[trigger] v.deep_view()[j]).path == p,
        decreases v@.len() - k,
    {
        if v[k].path.eq(path) {
            assert(v.deep_view()[k as int].path == path@);
            return true;
        }
        k = k + 1;
    }
    false
}

/// A path is in the denoted map exactly when some record carries it.
proof fn lemma_meta_map_keys(s: Seq<PageMetaV>)
    ensures
        forall|p: Seq<char>|
            meta_map(s).contains_key(p) <==> exists|j: int|
                0 <= j < s.len() && (#[trigger] s[j]).path == p,
    decreases s.len(),
{
    if s.len() > 0 {
        lemma_meta_map_keys(s.drop_last());
        assert forall|p: Seq<char>| meta_map(s).contains_key(p) implies exists|j: int|
            0 <= j < s.len() && (#[trigger] s[j]).path == p by {
            if p == s.last().path {
                assert(s[s.len() - 1].path == p);
            } else {
                assert(meta_map(s.drop_last()).contains_key(p));
                assert(s.drop_last().len() == s.len() - 1);
                let j = choose|j: int|
                    0 <= j < s.drop_last().len() && (#[trigger] s.drop_last()[j]).path == p;
                assert(s.drop_last()[j] == s[j]);
                assert(s[j].path == p);
            }
        }
        assert forall|p: Seq<char>|
            (exists|j: int| 0 <= j < s.len() && (#[trigger] s[j]).path == p) implies meta_map(
            s,
        ).contains_key(p) by {
            let j = choose|j: int| 0 <= j < s.len() && (#[trigger] s[j]).path == p;
            if j == s.len() - 1 {
                assert(p == s.last().path);
            } else {
                assert(s.drop_last()[j] == s[j]);
                assert(s.drop_last()[j].path == p);
                assert(meta_map(s.drop_last()).contains_key(p));
            }
        }
    }
}

/// Merges a freshly built page set into the index read from disk. The
/// result denotes, keyed by path, exactly the old index overridden by the
/// new set: a path absent from the new set keeps its old record, a path
/// present in both carries the new record, and new paths are added. As a
/// list, the result is the old records whose paths the new set does not
/// carry, in their old order, followed by the new records in their
/// order; with no old index it is exactly the new set.
pub fn merge_index(existing: Vec<PageMeta>, new: Vec<PageMeta>) -> (r: Vec<PageMeta>)
    ensures
        meta_map(r.deep_view()) == meta_map(existing.deep_view()).union_prefer_right(
            meta_map(new.deep_view()),
        ),
        r.deep_view() == metas_outside(
            existing.deep_view(),
            meta_map(new.deep_view()).dom(),
        ) + new.deep_view(),
        existing.deep_view().len() == 0 ==> r.deep_view() == new.deep_view(),
{
    let ghost newmap = meta_map(new.deep_view());
    let mut out: Vec<PageMeta> = Vec::new();
    let mut k: usize = 0;
    proof {
        assert(out.deep_view() =~= metas_outside(
            existing.deep_view().take(0),
            newmap.dom(),
        ));
    }
    while k < existing.len()
        invariant
            k <= existing@.len(),
            newmap == meta_map(new.deep_view()),
            out.deep_view() == metas_outside(existing.deep_view().take(k as int), newmap.dom()),
        decreases existing@.len() - k,
    {
        let ghost pre = out.deep_view();
        let keep = !has_path(&new, &existing[k].path);
        proof {
            assert(existing.deep_view().take(k + 1).drop_last() =~= existing.deep_view().take(
                k as int,
            ));
            assert(existing.deep_view().take(k + 1).last() == existing.deep_view()[k as int]);
        }
        if keep {
            let m = clone_meta(&existing[k]);
            out.push(m);
            proof {
                assert(out.deep_view() =~= pre.push(existing.deep_view()[k as int]));
            }
        }
        k = k + 1;
    }
    proof {
        assert(existing.deep_view().take(existing@.len() as int) =~= existing.deep_view());
    }
    let ghost filtered = out.deep_view();
    let mut j: usize = 0;
    proof {
        assert(new.deep_view().take(0) =~= Seq::<PageMetaV>::empty());
        assert(out.deep_view() =~= filtered + new.deep_view().take(0));
    }
    while j < new.len()
        invariant
            j <= new@.len(),
            out.deep_view() == filtered + new.deep_view().take(j as int),
        decreases new@.len() - j,
    {
        let ghost pre = out.deep_view();
        let m = clone_meta(&new[j]);
        out.push(m);
        proof {
            assert(out.deep_view() =~= pre.push(new.deep_view()[j as int]));
            assert(new.deep_view().take(j + 1) =~= new.deep_view().take(j as int).push(
                new.deep_view()[j as int],
            ));
            assert(pre.push(new.deep_view()[j as int]) =~= filtered + new.deep_view().take(j + 1));
        }
        j = j + 1;
    }
    proof {
        assert(new.deep_view().take(new@.len() as int) =~= new.deep_view());
        assert(out.deep_view() == filtered + new.deep_view());
        lemma_meta_map_concat(filtered, new.deep_view());
        lemma_metas_outside_map(existing.deep_view(), newmap.dom());
        let lhs = meta_map(out.deep_view());
        let rhs = meta_map(existing.deep_view()).union_prefer_right(newmap);
        assert(lhs == meta_map(filtered).union_prefer_right(newmap));
        assert forall|p: Seq<char>| #[trigger] rhs.contains_key(p) implies lhs.contains_key(p)
            && lhs[p] == rhs[p] by {
            if !newmap.contains_key(p) {
                assert(meta_map(existing.deep_view()).contains_key(p));
                assert(meta_map(filtered).contains_key(p));
                assert(meta_map(filtered)[p] == meta_map(existing.deep_view())[p]);
            }
        }
        assert forall|p: Seq<char>| #[trigger] lhs.contains_key(p) implies rhs.contains_key(
            p,
        ) by {
            if !newmap.contains_key(p) {
                assert(meta_map(filtered).contains_key(p));
                assert(meta_map(existing.deep_view()).contains_key(p));
            }
        }
        assert(lhs =~= rhs);
        if existing.deep_view().len() == 0 {
            assert(metas_outside(existing.deep_view(), newmap.dom()) =~= Seq::<PageMetaV>::empty());
            assert(out.deep_view() =~= new.deep_view());
        }
    }
    out
}

/// The members of one page's object in the search index.
pub open spec fn spec_meta_members(m: PageMetaV) -> Seq<(Seq<char>, Seq<char>)> {
    seq![
        ("path"@, spec_json_string(m.path)),
        ("permalink"@, spec_json_string(m.permalink)),
        ("title"@, spec_json_string(m.title)),
        ("tags"@, m.tags_json),
        ("date"@, spec_json_string(spec_ts_iso(m.date))),
        ("updated"@, spec_json_string(spec_ts_iso(m.updated))),
        ("summary"@, spec_json_string(m.summary)),
        ("hash"@, spec_json_string(m.hash)),
        ("fresh"@, spec_bool_json(m.fresh)),
    ]
}

/// The JSON object for one index record.
pub fn meta_json(m: &PageMeta) -> (r: String)
    requires
        ts_valid(m.date),
        ts_valid(m.updated),
    ensures
        r@ == spec_obj(spec_meta_members(m.deep_view())),
{
    let mut members: Vec<(String, String)> = Vec::new();
    members.push((String::from_str("path"), json_string(m.path.as_str())));
    members.push((String::from_str("permalink"), json_string(m.permalink.as_str())));
    members.push((String::from_str("title"), json_string(m.title.as_str())));
    members.push((String::from_str("tags"), m.tags_json.clone()));
    members.push((String::from_str("date"), json_string(ts_to_iso(&m.date).as_str())));
    members.push((String::from_str("updated"), json_string(ts_to_iso(&m.updated).as_str())));
    members.push((String::from_str("summary"), json_string(m.summary.as_str())));
    members.push((String::from_str("hash"), json_string(m.hash.as_str())));
    members.push((String::from_str("fresh"), bool_json(m.fresh)));
    let r = json_object(&members);
    proof {
        assert(members.deep_view() =~= spec_meta_members(m.deep_view()));
    }
    r
}

/// The comma-separated record objects.
pub open spec fn spec_metas_inner(ms: Seq<PageMetaV>) -> Seq<char>
    decreases ms.len(),
{
    if ms.len() == 0 {
        Seq::empty()
    } else if ms.len() == 1 {
        spec_obj(spec_meta_members(ms[0]))
    } else {
        spec_metas_inner(ms.drop_last()) + seq![','] + spec_obj(spec_meta_members(ms.last()))
    }
}

/// The JSON array for the whole search index, in the order given.
pub open spec fn spec_metas_array(ms: Seq<PageMetaV>) -> Seq<char> {
    seq!['['] + spec_metas_inner(ms) + seq![']']
}

/// Appending one more record object.
proof fn lemma_metas_inner_push(ms: Seq<PageMetaV>, x: PageMetaV)
    ensures
        ms.len() == 0 ==> spec_metas_inner(ms.push(x)) == spec_obj(spec_meta_members(x)),
        ms.len() > 0 ==> spec_metas_inner(ms.push(x)) == spec_metas_inner(ms) + seq![',']
            + spec_obj(spec_meta_members(x)),
{
    if ms.len() == 0 {
        assert(ms.push(x)[0] == x);
    } else {
        assert(ms.push(x).drop_last() =~= ms);
        assert(ms.push(x).last() == x);
    }
}

/// Whether every record carries valid dates.
pub open spec fn metas_valid(ms: Seq<PageMetaV>) -> bool {
    forall|i: int|
        0 <= i < ms.len() ==> ts_valid((#[trigger] ms[i]).date) && ts_valid(ms[i].updated)
}

/// Encodes the whole search index as JSON text, the form `index.json`
/// holds on disk.
pub fn metas_json(ms: &Vec<PageMeta>) -> (r: String)
    requires
        metas_valid(ms.deep_view()),
    ensures
        r@ == spec_metas_array(ms.deep_view()),
{
    let mut out = String::new();
    push_char(&mut out, '[');
    let mut k: usize = 0;
    proof {
        assert(ms.deep_view().take(0) =~= Seq::<PageMetaV>::empty());
    }
    while k < ms.len()
        invariant
            k <= ms@.len(),
            metas_valid(ms.deep_view()),
            ms.deep_view().len() == ms@.len(),
            out@ == seq!['['] + spec_metas_inner(ms.deep_view().take(k as int)),
        decreases ms@.len() - k,
    {
        let ghost pre = ms.deep_view().take(k as int);
        if k > 0 {
            push_char(&mut out, ',');
        }
        proof {
            assert(ms.deep_view()[k as int] == ms@[k as int].deep_view());
        }
        let obj = meta_json(&ms[k]);
        out.append(obj.as_str());
        proof {
            lemma_metas_inner_push(pre, ms.deep_view()[k as int]);
            assert(ms.deep_view().take(k + 1) =~= pre.push(ms.deep_view()[k as int]));
            assert(out@ =~= seq!['['] + spec_metas_inner(ms.deep_view().take(k + 1)));
        }
        k = k + 1;
    }
    proof {
        assert(ms.deep_view().take(ms@.len() as int) =~= ms.deep_view());
    }
    push_char(&mut out, ']');
    proof {
        assert(out@ =~= spec_metas_array(ms.deep_view()));
    }
    out
}

} // verus!
