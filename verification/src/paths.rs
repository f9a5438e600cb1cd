//! Output-path and permalink computation, over `/`-separated path strings
//! modeled as sequences of components.

use vstd::prelude::*;

use crate::strutil::{eq_str, push_char, str_to_chars, sub_string};

verus! {

/// Distance from `i` to the first `/` at or after `i`, if any.
pub open spec fn slash_dist(s: Seq<char>, i: int) -> Option<nat>
    decreases s.len() - i when 0 <= i <= s.len()
{
    if i < s.len() && s[i] == '/' {
        Some(0nat)
    } else if i >= s.len() {
        None
    } else {
        match slash_dist(s, i + 1) {
            Some(d) => Some((d + 1) as nat),
            None => None,
        }
    }
}

/// The path components from position `i` on: maximal runs of characters
/// between `/` separators, empty runs skipped.
pub open spec fn comps_from(p: Seq<char>, i: int) -> Seq<Seq<char>>
    decreases p.len() - i when 0 <= i <= p.len()
{
    if i >= p.len() {
        Seq::empty()
    } else if p[i] == '/' {
        comps_from(p, i + 1)
    } else {
        match slash_dist(p, i) {
            None => seq![p.subrange(i, p.len() as int)],
            Some(d) => {
                let e = if i + d + 1 <= p.len() {
                    i + d + 1
                } else {
                    p.len() as int
                };
                seq![p.subrange(i, i + d)] + comps_from(p, e)
            },
        }
    }
}

/// The components of a path string.
pub open spec fn comps(p: Seq<char>) -> Seq<Seq<char>> {
    comps_from(p, 0)
}

/// Components joined with single `/` separators.
pub open spec fn joinc(cs: Seq<Seq<char>>) -> Seq<char>
    decreases cs.len(),
{
    if cs.len() == 0 {
        Seq::empty()
    } else if cs.len() == 1 {
        cs[0]
    } else {
        cs.first() + seq!['/'] + joinc(cs.drop_first())
    }
}

/// The components after the first one equal to `name`; empty when no
/// component equals `name`.
pub open spec fn after_first(cs: Seq<Seq<char>>, name: Seq<char>) -> Seq<Seq<char>>
    decreases cs.len(),
{
    if cs.len() == 0 {
        Seq::empty()
    } else if cs.first() == name {
        cs.drop_first()
    } else {
        after_first(cs.drop_first(), name)
    }
}

/// `title` with every space replaced by a dash.
pub open spec fn spec_dashed(title: Seq<char>) -> Seq<char> {
    Seq::new(title.len(), |i: int| if title[i] == ' ' { '-' } else { title[i] })
}

/// Position of the last `.` in `name`, if any.
pub open spec fn last_dot(name: Seq<char>) -> Option<int> {
    if exists|i: int| 0 <= i < name.len() && name[i] == '.' {
        Some(choose|i: int| {
            &&& 0 <= i < name.len()
            &&& name[i] == '.'
            &&& forall|j: int| i < j < name.len() ==> name[j] != '.'
        })
    } else {
        None
    }
}

/// The file name without its extension: everything before the last `.`,
/// except that a lone leading `.` is kept as part of the name.
pub open spec fn spec_stem(name: Seq<char>) -> Seq<char> {
    match last_dot(name) {
        Some(d) => if d == 0 {
            name
        } else {
            name.take(d)
        },
        None => name,
    }
}

// ---------------------------------------------------------------------------
// Executable path functions
// ---------------------------------------------------------------------------

/// Absolute position of the first `/` at or after `i`, if any.
fn find_slash(v: &Vec<char>, i: usize) -> (r: Option<usize>)
    requires
        i <= v@.len(),
    ensures
        match (r, slash_dist(v@, i as int)) {
            (Some(m), Some(d)) => m == i + d && i <= m && m < v@.len(),
            (None, None) => true,
            _ => false,
        },
{
    let mut k = i;
    loop
        invariant
            i <= k <= v@.len(),
            (slash_dist(v@, k as int) matches Some(d) ==> slash_dist(v@, i as int) == Some(
                ((k - i) + d) as nat,
            )),
            slash_dist(v@, k as int) is None ==> slash_dist(v@, i as int) is None,
        decreases v@.len() - k,
    {
        if k >= v.len() {
            return None;
        }
        if v[k] == '/' {
            assert(slash_dist(v@, k as int) == Some(0nat));
            return Some(k);
        }
        k = k + 1;
    }
}

/// Splits a path into its components, empty runs skipped.
pub fn split_path(p: &str) -> (r: Vec<String>)
    ensures
        r.deep_view() == comps(p@),
{
    let v = str_to_chars(p);
    let mut parts: Vec<String> = Vec::new();
    let mut cur: usize = 0;
    proof {
        assert(parts.deep_view() =~= Seq::<Seq<char>>::empty());
        assert(parts.deep_view() + comps_from(v@, 0) =~= comps(p@));
    }
    while cur < v.len()
        invariant
            cur <= v@.len(),
            v@ == p@,
            parts.deep_view() + comps_from(v@, cur as int) == comps(p@),
        decreases v@.len() - cur,
    {
        let ghost pre = parts.deep_view();
        if v[cur] == '/' {
            proof {
                assert(comps_from(v@, cur as int) == comps_from(v@, cur + 1));
            }
            cur = cur + 1;
        } else {
            match find_slash(&v, cur) {
                None => {
                    let seg = sub_string(&v, cur, v.len());
                    parts.push(seg);
                    proof {
                        assert(comps_from(v@, cur as int) == seq![
                            v@.subrange(cur as int, v@.len() as int),
                        ]);
                        assert(parts.deep_view() =~= pre.push(
                            v@.subrange(cur as int, v@.len() as int),
                        ));
                        assert(pre.push(v@.subrange(cur as int, v@.len() as int))
                            + Seq::<Seq<char>>::empty() =~= pre + seq![
                            v@.subrange(cur as int, v@.len() as int),
                        ]);
                        assert(comps_from(v@, v@.len() as int) =~= Seq::<Seq<char>>::empty());
                    }
                    cur = v.len();
                },
                Some(m) => {
                    let seg = sub_string(&v, cur, m);
                    parts.push(seg);
                    proof {
                        let d = (m - cur) as int;
                        assert(comps_from(v@, cur as int) == seq![v@.subrange(cur as int, m as int)]
                            + comps_from(v@, m + 1));
                        assert(parts.deep_view() =~= pre.push(v@.subrange(cur as int, m as int)));
                        assert(pre.push(v@.subrange(cur as int, m as int)) + comps_from(v@, m + 1)
                            =~= pre + (seq![v@.subrange(cur as int, m as int)] + comps_from(
                            v@,
                            m + 1,
                        )));
                    }
                    cur = m + 1;
                },
            }
        }
    }
    proof {
        assert(comps_from(v@, cur as int) =~= Seq::<Seq<char>>::empty());
        assert(parts.deep_view() + Seq::<Seq<char>>::empty() =~= parts.deep_view());
    }
    parts
}

/// Appending a component to a non-empty list appends `/` and the
/// component to the joined string.
proof fn lemma_joinc_push(cs: Seq<Seq<char>>, x: Seq<char>)
    ensures
        cs.len() == 0 ==> joinc(cs.push(x)) == x,
        cs.len() > 0 ==> joinc(cs.push(x)) == joinc(cs) + seq!['/'] + x,
    decreases cs.len(),
{
    if cs.len() == 0 {
        assert(cs.push(x).len() == 1);
        assert(joinc(cs.push(x)) == cs.push(x)[0]);
    } else if cs.len() == 1 {
        assert(cs.push(x).drop_first() =~= seq![x]);
        assert(joinc(seq![x]) == x);
        assert(joinc(cs.push(x)) == cs[0] + seq!['/'] + x);
    } else {
        lemma_joinc_push(cs.drop_first(), x);
        assert(cs.push(x).drop_first() =~= cs.drop_first().push(x));
        assert(joinc(cs.push(x)) == cs.first() + seq!['/'] + joinc(cs.drop_first().push(x)));
        assert(cs.first() + seq!['/'] + (joinc(cs.drop_first()) + seq!['/'] + x) =~= (cs.first()
            + seq!['/'] + joinc(cs.drop_first())) + seq!['/'] + x);
    }
}

/// Joins components with single `/` separators.
pub fn join_path(parts: &Vec<String>) -> (r: String)
    ensures
        r@ == joinc(parts.deep_view()),
{
    let mut r = String::new();
    let mut k: usize = 0;
    proof {
        assert(parts.deep_view().take(0) =~= Seq::<Seq<char>>::empty());
    }
    while k < parts.len()
        invariant
            k <= parts@.len(),
            r@ == joinc(parts.deep_view().take(k as int)),
        decreases parts@.len() - k,
    {
        let ghost pre = parts.deep_view().take(k as int);
        if k > 0 {
            push_char(&mut r, '/');
        }
        r.append(parts[k].as_str());
        proof {
            lemma_joinc_push(pre, parts.deep_view()[k as int]);
            assert(parts.deep_view().take(k + 1) =~= pre.push(parts.deep_view()[k as int]));
        }
        k = k + 1;
    }
    proof {
        assert(parts.deep_view().take(parts@.len() as int) =~= parts.deep_view());
    }
    r
}

/// The components after the first one equal to `name`, as fresh strings.
pub fn components_after(parts: &Vec<String>, name: &str) -> (r: Vec<String>)
    ensures
        r.deep_view() == after_first(parts.deep_view(), name@),
{
    let mut k: usize = 0;
    proof {
        assert(parts.deep_view().skip(0) =~= parts.deep_view());
    }
    while k < parts.len()
        invariant
            k <= parts@.len(),
            after_first(parts.deep_view(), name@) == after_first(
                parts.deep_view().skip(k as int),
                name@,
            ),
            forall|j: int| 0 <= j < k ==> parts.deep_view()[j] != name@,
        decreases parts@.len() - k,
    {
        proof {
            assert(parts.deep_view().skip(k as int).first() == parts.deep_view()[k as int]);
        }
        if eq_str(parts[k].as_str(), name) {
            let mut out: Vec<String> = Vec::new();
            let mut j = k + 1;
            proof {
                assert(out.deep_view() =~= parts.deep_view().subrange(k + 1, k + 1));
            }
            while j < parts.len()
                invariant
                    k + 1 <= j <= parts@.len(),
                    out.deep_view() == parts.deep_view().subrange(k + 1, j as int),
                decreases parts@.len() - j,
            {
                let ghost pre = out.deep_view();
                let s: String = parts[j].clone();
                assert(s@ == parts.deep_view()[j as int]);
                out.push(s);
                proof {
                    assert(out.deep_view() =~= pre.push(parts.deep_view()[j as int]));
                    assert(pre.push(parts.deep_view()[j as int]) =~= parts.deep_view().subrange(
                        k + 1,
                        j + 1,
                    ));
                }
                j = j + 1;
            }
            proof {
                assert(parts.deep_view().skip(k as int).drop_first() =~= parts.deep_view()
                    .subrange(k + 1, parts.deep_view().len() as int));
                assert(out.deep_view() =~= parts.deep_view().subrange(
                    k + 1,
                    parts.deep_view().len() as int,
                ));
            }
            return out;
        }
        proof {
            assert(parts.deep_view().skip(k as int).drop_first() =~= parts.deep_view().skip(
                k + 1,
            ));
        }
        k = k + 1;
    }
    let out: Vec<String> = Vec::new();
    proof {
        assert(parts.deep_view().skip(k as int).len() == 0);
        assert(after_first(parts.deep_view().skip(k as int), name@) =~= Seq::<Seq<char>>::empty());
        assert(out.deep_view() =~= Seq::<Seq<char>>::empty());
    }
    out
}

/// `title` with every space replaced by a dash.
pub fn dashed(title: &str) -> (r: String)
    ensures
        r@ == spec_dashed(title@),
{
    let v = str_to_chars(title);
    let mut r = String::new();
    let mut k: usize = 0;
    while k < v.len()
        invariant
            k <= v@.len(),
            v@ == title@,
            r@ =~= spec_dashed(title@).take(k as int),
        decreases v@.len() - k,
    {
        if v[k] == ' ' {
            push_char(&mut r, '-');
        } else {
            push_char(&mut r, v[k]);
        }
        assert(r@ =~= spec_dashed(title@).take(k + 1));
        k = k + 1;
    }
    proof {
        assert(spec_dashed(title@).take(v@.len() as int) =~= spec_dashed(title@));
    }
    r
}

/// The file name without its extension.
pub fn stem_of(name: &str) -> (r: String)
    ensures
        r@ == spec_stem(name@),
{
    let v = str_to_chars(name);
    let mut k: usize = v.len();
    while k > 0
        invariant
            k <= v@.len(),
            v@ == name@,
            forall|j: int| k <= j < v@.len() ==> v@[j] != '.',
        decreases k,
    {
        if v[k - 1] == '.' {
            proof {
                assert(name@[k - 1] == '.');
                assert(last_dot(name@) == Some(k - 1)) by {
                    let w = choose|i: int| {
                        &&& 0 <= i < name@.len()
                        &&& name@[i] == '.'
                        &&& forall|j: int| i < j < name@.len() ==> name@[j] != '.'
                    };
                    assert(name@[k - 1] == '.' && (forall|j: int|
                        k - 1 < j < name@.len() ==> name@[j] != '.'));
                }
            }
            if k - 1 == 0 {
                return sub_string(&v, 0, v.len());
            }
            return sub_string(&v, 0, k - 1);
        }
        k = k - 1;
    }
    proof {
        assert(last_dot(name@) is None);
    }
    sub_string(&v, 0, v.len())
}

// ---------------------------------------------------------------------------
// Output paths and permalinks
// ---------------------------------------------------------------------------

/// The directories of a source path below its root: the path's
/// components with the file name dropped and the first two components
/// (the site root and the subtree name) skipped.
pub open spec fn spec_content_dirs(path: Seq<char>) -> Seq<Seq<char>> {
    let pc = comps(path);
    if pc.len() == 0 {
        pc
    } else if pc.drop_last().len() >= 2 {
        pc.drop_last().skip(2)
    } else {
        Seq::empty()
    }
}

/// Whether `b` is a prefix of `a`, component by component.
pub open spec fn is_comp_prefix(a: Seq<Seq<char>>, b: Seq<Seq<char>>) -> bool {
    b.len() <= a.len() && a.take(b.len() as int) == b
}

/// The component list of a page's output path: the output directory, the
/// source path's directories below the content root (its first two
/// components dropped), then `index.html` directly for an `index.md`
/// source, else a slug directory and `index.html`. The slug is the
/// frontmatter slug when present, else the title with spaces dashed.
pub open spec fn spec_page_out_comps(
    path: Seq<char>,
    output_path: Seq<char>,
    title: Seq<char>,
    slug: Option<Seq<char>>,
) -> Seq<Seq<char>> {
    let pc = comps(path);
    let mid = spec_content_dirs(path);
    let ending: Seq<Seq<char>> = if pc.len() > 0 && pc.last() == seq![
        'i', 'n', 'd', 'e', 'x', '.', 'm', 'd',
    ] {
        seq![seq!['i', 'n', 'd', 'e', 'x', '.', 'h', 't', 'm', 'l']]
    } else {
        let slugseg = match slug {
            Some(s) => s,
            None => spec_dashed(title),
        };
        seq![slugseg, seq!['i', 'n', 'd', 'e', 'x', '.', 'h', 't', 'm', 'l']]
    };
    comps(output_path) + mid + ending
}

/// A page's output path, as a string.
pub open spec fn spec_page_out_path(
    path: Seq<char>,
    output_path: Seq<char>,
    title: Seq<char>,
    slug: Option<Seq<char>>,
) -> Seq<char> {
    joinc(spec_page_out_comps(path, output_path, title, slug))
}

/// Computes a page's output path from its source path, the output
/// directory, and its frontmatter title and optional slug.
pub fn out_path(path: &str, output_path: &str, title: &str, slug: Option<&String>) -> (r: String)
    ensures
        r@ == spec_page_out_path(
            path@,
            output_path@,
            title@,
            match slug {
                Some(s) => Some(s@),
                None => None,
            },
        ),
{
    let ghost gslug: Option<Seq<char>> = match slug {
        Some(s) => Some(s@),
        None => None,
    };
    let pc = split_path(path);
    let mut parts = split_path(output_path);
    let ghost out_comps = parts.deep_view();
    let is_index = pc.len() > 0 && eq_str(pc[pc.len() - 1].as_str(), "index.md");
    proof {
        reveal_strlit("index.md");
        reveal_strlit("index.html");
        assert("index.md"@ =~= seq!['i', 'n', 'd', 'e', 'x', '.', 'm', 'd']);
        assert("index.html"@ =~= seq!['i', 'n', 'd', 'e', 'x', '.', 'h', 't', 'm', 'l']);
    }
    let n = pc.len();
    if n > 0 && n - 1 >= 2 {
        let mut k: usize = 2;
        while k < n - 1
            invariant
                2 <= k <= n - 1,
                n == pc@.len(),
                n >= 1,
                parts.deep_view() == out_comps + pc.deep_view().drop_last().skip(2).take(
                    k - 2,
                ),
            decreases n - 1 - k,
        {
            let ghost pre = parts.deep_view();
            let s: String = pc[k].clone();
            assert(s@ == pc.deep_view()[k as int]);
            parts.push(s);
            proof {
                assert(pc.deep_view().drop_last().skip(2)[k - 2] == pc.deep_view()[k as int]);
                assert(parts.deep_view() =~= pre.push(pc.deep_view()[k as int]));
                assert(pre.push(pc.deep_view()[k as int]) =~= out_comps + pc.deep_view()
                    .drop_last().skip(2).take(k - 1));
            }
            k = k + 1;
        }
        proof {
            assert(pc.deep_view().drop_last().skip(2).take(n - 3) =~= pc.deep_view().drop_last()
                .skip(2));
        }
    } else {
        proof {
            if pc.deep_view().len() > 0 {
                assert(pc.deep_view().drop_last().len() < 2);
            }
            assert(parts.deep_view() =~= out_comps + Seq::<Seq<char>>::empty());
        }
    }
    let ghost with_mid = parts.deep_view();
    if is_index {
        parts.push(String::from_str("index.html"));
        proof {
            assert(parts.deep_view() =~= with_mid + seq![
                seq!['i', 'n', 'd', 'e', 'x', '.', 'h', 't', 'm', 'l'],
            ]);
        }
    } else {
        let slugseg: String = match slug {
            Some(s) => s.clone(),
            None => dashed(title),
        };
        parts.push(slugseg);
        parts.push(String::from_str("index.html"));
        proof {
            assert(parts.deep_view() =~= with_mid + seq![
                (match gslug {
                    Some(s) => s,
                    None => spec_dashed(title@),
                }),
                seq!['i', 'n', 'd', 'e', 'x', '.', 'h', 't', 'm', 'l'],
            ]);
        }
    }
    proof {
        assert(parts.deep_view() =~= spec_page_out_comps(path@, output_path@, title@, gslug));
    }
    join_path(&parts)
}

/// The component list of an asset's or static file's output path: the
/// output directory, the fixed subtree name, the source path's directories
/// below its `assets` or `static` root, and the file name, which for
/// assets is the stem, the compiled extension being set by preprocessing.
pub open spec fn spec_mirror_out_comps(
    path: Seq<char>,
    output_path: Seq<char>,
    subtree: Seq<char>,
    use_stem: bool,
) -> Seq<Seq<char>> {
    let pc = comps(path);
    let dir = if pc.len() == 0 {
        pc
    } else {
        after_first(pc.drop_last(), subtree)
    };
    let name: Seq<Seq<char>> = if pc.len() == 0 {
        Seq::empty()
    } else if use_stem {
        seq![spec_stem(pc.last())]
    } else {
        seq![pc.last()]
    };
    comps(output_path) + seq![subtree] + dir + name
}

/// Computes an asset's output path: mirrored below `assets/` under the
/// output directory, with the extension dropped; preprocessing sets the
/// compiled form's extension.
pub fn asset_out_path(path: &str, output_path: &str) -> (r: String)
    ensures
        r@ == joinc(
            spec_mirror_out_comps(path@, output_path@, seq!['a', 's', 's', 'e', 't', 's'], true),
        ),
{
    proof {
        reveal_strlit("assets");
        assert("assets"@ =~= seq!['a', 's', 's', 'e', 't', 's']);
    }
    mirror_out_path(path, output_path, "assets", true)
}

/// Computes a static file's output path: mirrored below `static/` under
/// the output directory, file name kept.
pub fn static_out_path(path: &str, output_path: &str) -> (r: String)
    ensures
        r@ == joinc(
            spec_mirror_out_comps(path@, output_path@, seq!['s', 't', 'a', 't', 'i', 'c'], false),
        ),
{
    proof {
        reveal_strlit("static");
        assert("static"@ =~= seq!['s', 't', 'a', 't', 'i', 'c']);
    }
    mirror_out_path(path, output_path, "static", false)
}

/// Shared output-path computation for assets and static files.
fn mirror_out_path(path: &str, output_path: &str, subtree: &str, use_stem: bool) -> (r: String)
    ensures
        r@ == joinc(spec_mirror_out_comps(path@, output_path@, subtree@, use_stem)),
{
    let pc = split_path(path);
    let mut parts = split_path(output_path);
    let ghost out_comps = parts.deep_view();
    parts.push(String::from_str(subtree));
    proof {
        assert(parts.deep_view() =~= out_comps.push(subtree@));
    }
    let ghost with_subtree = parts.deep_view();
    if pc.len() == 0 {
        proof {
            assert(with_subtree =~= out_comps + seq![subtree@] + comps(path@)
                + Seq::<Seq<char>>::empty());
        }
        return join_path(&parts);
    }
    let mut parent = pc;
    let name = match parent.pop() {
        Some(n) => n,
        None => String::new(),
    };
    proof {
        assert(parent.deep_view() =~= comps(path@).drop_last());
        assert(name@ == comps(path@).last());
    }
    let dir = components_after(&parent, subtree);
    let mut k: usize = 0;
    while k < dir.len()
        invariant
            k <= dir@.len(),
            dir.deep_view() == after_first(comps(path@).drop_last(), subtree@),
            parts.deep_view() == with_subtree + dir.deep_view().take(k as int),
        decreases dir@.len() - k,
    {
        let ghost pre = parts.deep_view();
        let s: String = dir[k].clone();
        assert(s@ == dir.deep_view()[k as int]);
        parts.push(s);
        proof {
            assert(parts.deep_view() =~= pre.push(dir.deep_view()[k as int]));
            assert(pre.push(dir.deep_view()[k as int]) =~= with_subtree + dir.deep_view().take(
                k + 1,
            ));
        }
        k = k + 1;
    }
    proof {
        assert(dir.deep_view().take(dir@.len() as int) =~= dir.deep_view());
    }
    let ghost with_dir = parts.deep_view();
    if use_stem {
        parts.push(stem_of(name.as_str()));
        proof {
            assert(parts.deep_view() =~= with_dir.push(spec_stem(comps(path@).last())));
            assert(with_dir.push(spec_stem(comps(path@).last())) =~= out_comps + seq![subtree@]
                + after_first(comps(path@).drop_last(), subtree@) + seq![
                spec_stem(comps(path@).last()),
            ]);
        }
    } else {
        parts.push(name);
        proof {
            assert(parts.deep_view() =~= with_dir.push(comps(path@).last()));
            assert(with_dir.push(comps(path@).last()) =~= out_comps + seq![subtree@]
                + after_first(comps(path@).drop_last(), subtree@) + seq![comps(path@).last()]);
        }
    }
    join_path(&parts)
}

/// The permalink of an output path: everything before and including the
/// output directory's name is trimmed, the trailing file name is dropped,
/// and the site base URL is prefixed; the remaining directories end with
/// a single `/`.
pub open spec fn spec_permalink(out: Seq<char>, outdir: Seq<char>, url: Seq<char>) -> Seq<char> {
    let rest = after_first(comps(out), outdir);
    let dirs = if rest.len() > 0 {
        rest.drop_last()
    } else {
        rest
    };
    if dirs.len() > 0 {
        url + joinc(dirs) + seq!['/']
    } else {
        url
    }
}

/// Computes the public URL for an output path.
pub fn permalink(out: &str, outdir: &str, url: &str) -> (r: String)
    ensures
        r@ == spec_permalink(out@, outdir@, url@),
{
    let oc = split_path(out);
    let mut rest = components_after(&oc, outdir);
    if rest.len() > 0 {
        let ghost pre = rest.deep_view();
        let _ = rest.pop();
        proof {
            assert(rest.deep_view() =~= pre.drop_last());
        }
    }
    if rest.len() == 0 {
        return String::from_str(url);
    }
    let mut r = String::from_str(url);
    let joined = join_path(&rest);
    r.append(joined.as_str());
    let mut r = r;
    push_char(&mut r, '/');
    r
}

/// For an output path laid out as `<outdir>/<slug>/index.html`, the
/// permalink is the base URL, the slug, and a trailing `/`.
pub proof fn lemma_permalink_slug(
    out: Seq<char>,
    outdir: Seq<char>,
    slug: Seq<char>,
    url: Seq<char>,
)
    requires
        comps(out) == seq![outdir, slug, seq!['i', 'n', 'd', 'e', 'x', '.', 'h', 't', 'm', 'l']],
    ensures
        spec_permalink(out, outdir, url) == url + slug + seq!['/'],
{
    let cs = comps(out);
    assert(cs.first() == outdir);
    let rest = cs.drop_first();
    assert(rest =~= seq![slug, seq!['i', 'n', 'd', 'e', 'x', '.', 'h', 't', 'm', 'l']]);
    assert(after_first(cs, outdir) == rest);
    let dirs = rest.drop_last();
    assert(dirs =~= seq![slug]);
    assert(joinc(seq![slug]) == slug);
}

} // verus!
