//! The summary shown for a post: a truncation of its rendered HTML that
//! keeps whole elements until roughly the first 150 characters of text
//! have been seen, and then stops before the next element starts.
//! Characters are counted, not bytes, and nothing after the cutoff
//! survives.

use vstd::prelude::*;

use crate::strutil::{push_char, str_to_chars, sub_string};

verus! {

/// An ASCII letter, as tag names start with one.
pub open spec fn is_alpha(c: char) -> bool {
    ('a' <= c && c <= 'z') || ('A' <= c && c <= 'Z')
}

/// Distance from `i` to the first `>` at or after `i`, if any.
pub open spec fn gt_dist(s: Seq<char>, i: int) -> Option<nat>
    decreases s.len() - i when 0 <= i <= s.len()
{
    if i < s.len() && s[i] == '>' {
        Some(0nat)
    } else if i >= s.len() {
        None
    } else {
        match gt_dist(s, i + 1) {
            Some(d) => Some((d + 1) as nat),
            None => None,
        }
    }
}

/// The summary text from position `i` on, with `count` text characters
/// already seen. An opening tag after the threshold ends the summary;
/// any other tag is copied without counting; text characters are copied
/// and counted.
pub open spec fn sum_from(s: Seq<char>, i: int, count: int) -> Seq<char>
    decreases s.len() - i when 0 <= i <= s.len()
{
    if i >= s.len() {
        Seq::empty()
    } else if s[i] == '<' && i + 1 < s.len() && is_alpha(s[i + 1]) && count > 150 {
        Seq::empty()
    } else if s[i] == '<' {
        match gt_dist(s, i) {
            None => s.subrange(i, s.len() as int),
            Some(d) => {
                let e = if i + d + 1 <= s.len() {
                    i + d + 1
                } else {
                    s.len() as int
                };
                s.subrange(i, e) + sum_from(s, e, count)
            },
        }
    } else {
        seq![s[i]] + sum_from(s, i + 1, count + 1)
    }
}

/// The summary of a rendered HTML text.
pub open spec fn spec_summary(s: Seq<char>) -> Seq<char> {
    sum_from(s, 0, 0)
}

/// Absolute position of the first `>` at or after `i`, if any.
fn find_gt(v: &Vec<char>, i: usize) -> (r: Option<usize>)
    requires
        i <= v@.len(),
    ensures
        match (r, gt_dist(v@, i as int)) {
            (Some(m), Some(d)) => m == i + d && i <= m && m < v@.len(),
            (None, None) => true,
            _ => false,
        },
{
    let mut k = i;
    loop
        invariant
            i <= k <= v@.len(),
            (gt_dist(v@, k as int) matches Some(d) ==> gt_dist(v@, i as int) == Some(
                ((k - i) + d) as nat,
            )),
            gt_dist(v@, k as int) is None ==> gt_dist(v@, i as int) is None,
        decreases v@.len() - k,
    {
        if k >= v.len() {
            return None;
        }
        if v[k] == '>' {
            assert(gt_dist(v@, k as int) == Some(0nat));
            return Some(k);
        }
        k = k + 1;
    }
}

/// Truncates rendered HTML for a post's summary: whole elements are kept
/// until roughly the first 150 characters of text have been seen, and
/// the next element after that is dropped along with everything that
/// follows it.
pub fn get_summary(html: &str) -> (r: String)
    ensures
        r@ == spec_summary(html@),
{
    let v = str_to_chars(html);
    let mut out = String::new();
    let mut cur: usize = 0;
    let mut count: usize = 0;
    loop
        invariant
            cur <= v@.len(),
            count <= cur,
            v@ == html@,
            spec_summary(html@) == out@ + sum_from(v@, cur as int, count as int),
        decreases v@.len() - cur,
    {
        if cur >= v.len() {
            proof {
                assert(sum_from(v@, cur as int, count as int) =~= Seq::<char>::empty());
                assert(out@ + Seq::<char>::empty() =~= out@);
            }
            return out;
        }
        let c = v[cur];
        if c == '<' && cur + 1 < v.len() && (('a' <= v[cur + 1] && v[cur + 1] <= 'z') || ('A' <= v[
            cur + 1
        ] && v[cur + 1] <= 'Z')) && count > 150 {
            proof {
                assert(sum_from(v@, cur as int, count as int) =~= Seq::<char>::empty());
                assert(out@ + Seq::<char>::empty() =~= out@);
            }
            return out;
        }
        if c == '<' {
            match find_gt(&v, cur) {
                None => {
                    let ghost pre = out@;
                    let seg = sub_string(&v, cur, v.len());
                    out.append(seg.as_str());
                    proof {
                        assert(out@ =~= pre + v@.subrange(cur as int, v@.len() as int));
                        assert(sum_from(v@, cur as int, count as int) == v@.subrange(
                            cur as int,
                            v@.len() as int,
                        ));
                    }
                    return out;
                },
                Some(m) => {
                    let ghost pre = out@;
                    let e = m + 1;
                    let seg = sub_string(&v, cur, e);
                    out.append(seg.as_str());
                    proof {
                        assert(out@ =~= pre + v@.subrange(cur as int, e as int));
                        assert(sum_from(v@, cur as int, count as int) == v@.subrange(
                            cur as int,
                            e as int,
                        ) + sum_from(v@, e as int, count as int));
                        assert(pre + v@.subrange(cur as int, e as int) + sum_from(
                            v@,
                            e as int,
                            count as int,
                        ) =~= pre + (v@.subrange(cur as int, e as int) + sum_from(
                            v@,
                            e as int,
                            count as int,
                        )));
                    }
                    cur = e;
                },
            }
        } else {
            let ghost pre = out@;
            push_char(&mut out, c);
            proof {
                assert(out@ =~= pre + seq![v@[cur as int]]);
                assert(pre + seq![v@[cur as int]] + sum_from(v@, cur + 1, count + 1) =~= pre + (
                seq![v@[cur as int]] + sum_from(v@, cur + 1, count + 1)));
            }
            cur = cur + 1;
            count = count + 1;
        }
    }
}

} // verus!
