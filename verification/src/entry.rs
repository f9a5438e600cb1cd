//! Discovered entries and the incremental-build policy: which files are
//! carried into a build, and how each is classified against the
//! fingerprint store.

use vstd::prelude::*;

use crate::fingerprint::{fingerprint, spec_fingerprint};
use crate::strutil::str_to_chars;

verus! {

/// One discovered source file: its path, raw bytes, content fingerprint,
/// and whether it had no prior fingerprint record (first time seen).
#[derive(Debug, PartialEq, Eq)]
pub struct Entry {
    pub path: String,
    pub raw_content: Vec<u8>,
    pub hash: String,
    pub fresh: bool,
}

/// The mathematical model of an `Entry`.
pub struct EntryV {
    pub path: Seq<char>,
    pub raw_content: Seq<u8>,
    pub hash: Seq<char>,
    pub fresh: bool,
}

impl DeepView for Entry {
    type V = EntryV;

    open spec fn deep_view(&self) -> EntryV {
        EntryV {
            path: self.path@,
            raw_content: self.raw_content@,
            hash: self.hash@,
            fresh: self.fresh,
        }
    }
}

impl Entry {
    /// Bundles a discovered file into an entry.
    pub fn new(path: String, raw_content: Vec<u8>, hash: String, fresh: bool) -> (r: Entry)
        ensures
            r.path == path,
            r.raw_content == raw_content,
            r.hash == hash,
            r.fresh == fresh,
    {
        Entry { path, raw_content, hash, fresh }
    }
}

/// How a discovered file relates to the fingerprint store.
#[derive(Debug, PartialEq, Eq, Structural)]
pub enum BuildStatus {
    /// No fingerprint is stored for the path: the file is new.
    New,
    /// The stored fingerprint differs from the current one.
    Changed,
    /// The stored fingerprint matches, but the path is a special page,
    /// which is always rebuilt because it aggregates other pages' state.
    Special,
    /// The stored fingerprint matches and the path is not special: the
    /// file is skipped entirely.
    Excluded,
}

/// The classification rule, per path, against the stored fingerprint.
pub open spec fn spec_classify(
    stored: Option<Seq<char>>,
    current: Seq<char>,
    special: bool,
) -> BuildStatus {
    match stored {
        Option::None => BuildStatus::New,
        Option::Some(h) => if h != current {
            BuildStatus::Changed
        } else if special {
            BuildStatus::Special
        } else {
            BuildStatus::Excluded
        },
    }
}

/// Classifies one path: with no stored fingerprint it is `New`; with a
/// stored fingerprint that differs from the current one it is `Changed`;
/// with a matching fingerprint it is `Special` when the path matches the
/// special-page list and `Excluded` otherwise.
pub fn classify(stored: Option<&String>, current: &String, special: bool) -> (r: BuildStatus)
    ensures
        r == spec_classify(
            match stored {
                Option::Some(h) => Option::Some(h@),
                Option::None => Option::None,
            },
            current@,
            special,
        ),
{
    match stored {
        Option::None => BuildStatus::New,
        Option::Some(h) => {
            if !(*h).eq(current) {
                BuildStatus::Changed
            } else if special {
                BuildStatus::Special
            } else {
                BuildStatus::Excluded
            }
        },
    }
}

/// Whether `s` is a component-wise suffix of `p`: the characters match at
/// the end, and the match starts at the beginning of `p` or just after a
/// path separator. An empty suffix matches every path.
pub open spec fn is_path_suffix(p: Seq<char>, s: Seq<char>) -> bool {
    ||| s.len() == 0
    ||| {
        &&& p.len() >= s.len()
        &&& p.subrange(p.len() - s.len(), p.len() as int) == s
        &&& (p.len() == s.len() || p[p.len() - s.len() - 1] == '/')
    }
}

/// Whether the path matches one of the configured special-page suffixes.
pub open spec fn spec_is_special_page(p: Seq<char>, specials: Seq<Seq<char>>) -> bool {
    exists|k: int| 0 <= k < specials.len() && is_path_suffix(p, specials[k])
}

/// Whether `s` is a component-wise suffix of `p`, over characters.
fn path_suffix_chars(p: &Vec<char>, s: &Vec<char>) -> (r: bool)
    ensures
        r == is_path_suffix(p@, s@),
{
    if s.len() == 0 {
        return true;
    }
    if s.len() > p.len() {
        assert(!is_path_suffix(p@, s@));
        return false;
    }
    let start = p.len() - s.len();
    if start > 0 && p[start - 1] != '/' {
        assert(!is_path_suffix(p@, s@));
        return false;
    }
    let mut k: usize = 0;
    while k < s.len()
        invariant
            0 <= k <= s@.len() <= p@.len(),
            start == p@.len() - s@.len(),
            forall|j: int| 0 <= j < k ==> p@[start + j] == s@[j],
        decreases s@.len() - k,
    {
        assert(start + k < p.len());
        if p[start + k] != s[k] {
            assert(p@.subrange(p@.len() - s@.len(), p@.len() as int)[k as int] != s@[k as int]);
            return false;
        }
        k = k + 1;
    }
    assert(p@.subrange(p@.len() - s@.len(), p@.len() as int) =~= s@);
    true
}

/// Whether the path matches one of the configured special-page suffixes:
/// a special page is always rebuilt, because it aggregates state that can
/// change even when its own source did not.
pub fn is_special_page(path: &str, specials: &Vec<String>) -> (r: bool)
    ensures
        r == spec_is_special_page(path@, specials.deep_view()),
{
    let p = str_to_chars(path);
    let mut k: usize = 0;
    while k < specials.len()
        invariant
            0 <= k <= specials@.len(),
            p@ == path@,
            forall|j: int| 0 <= j < k ==> !is_path_suffix(path@, #[trigger] specials.deep_view()[j]),
        decreases specials@.len() - k,
    {
        let s = str_to_chars(specials[k].as_str());
        if path_suffix_chars(&p, &s) {
            assert(is_path_suffix(path@, specials.deep_view()[k as int]));
            return true;
        }
        k = k + 1;
    }
    false
}

/// What one build step contributes to the plan: the entry carried into
/// the build, if the classification includes the file.
pub open spec fn spec_plan_one(
    path: Seq<char>,
    content: Seq<u8>,
    stored: Option<Seq<char>>,
    specials: Seq<Seq<char>>,
) -> Option<EntryV> {
    let hash = spec_fingerprint(content);
    match spec_classify(stored, hash, spec_is_special_page(path, specials)) {
        BuildStatus::New => Some(EntryV { path, raw_content: content, hash, fresh: true }),
        BuildStatus::Changed => Some(EntryV { path, raw_content: content, hash, fresh: false }),
        BuildStatus::Special => Some(EntryV { path, raw_content: content, hash, fresh: false }),
        BuildStatus::Excluded => None,
    }
}

/// The build plan for a list of discovered files with their stored
/// fingerprints: exactly the files classified `New`, `Changed` or
/// `Special`, in discovery order, each with its computed fingerprint;
/// `fresh` marks the `New` ones.
pub open spec fn spec_plan(
    files: Seq<(Seq<char>, Seq<u8>)>,
    stored: Seq<Option<Seq<char>>>,
    specials: Seq<Seq<char>>,
) -> Seq<EntryV>
    decreases files.len(),
{
    if files.len() == 0 || stored.len() != files.len() {
        Seq::empty()
    } else {
        let rest = spec_plan(files.drop_first(), stored.drop_first(), specials);
        match spec_plan_one(files.first().0, files.first().1, stored.first(), specials) {
            Some(e) => seq![e] + rest,
            None => rest,
        }
    }
}

/// Running a build twice with no source changes between the runs makes
/// the second run's New/Changed set empty: when the store already holds
/// the fingerprint of every file's current content, the plan carries only
/// special pages, none of them fresh.
pub proof fn lemma_plan_idempotent(
    files: Seq<(Seq<char>, Seq<u8>)>,
    stored: Seq<Option<Seq<char>>>,
    specials: Seq<Seq<char>>,
)
    requires
        stored.len() == files.len(),
        forall|i: int| 0 <= i < files.len() ==> stored[i] == Some(
            spec_fingerprint(#[trigger] files[i].1),
        ),
    ensures
        forall|j: int|
            0 <= j < spec_plan(files, stored, specials).len() ==> {
                &&& !(#[trigger] spec_plan(files, stored, specials)[j]).fresh
                &&& spec_is_special_page(spec_plan(files, stored, specials)[j].path, specials)
            },
    decreases files.len(),
{
    if files.len() > 0 {
        let ftail = files.drop_first();
        let stail = stored.drop_first();
        assert forall|i: int| 0 <= i < ftail.len() implies stail[i] == Some(
            spec_fingerprint(#[trigger] ftail[i].1),
        ) by {
            assert(ftail[i] == files[i + 1]);
            assert(stail[i] == stored[i + 1]);
        }
        lemma_plan_idempotent(ftail, stail, specials);
        assert(stored.first() == Some(spec_fingerprint(files.first().1)));
        let rest = spec_plan(ftail, stail, specials);
        match spec_plan_one(files.first().0, files.first().1, stored.first(), specials) {
            Some(e) => {
                assert(spec_plan(files, stored, specials) == seq![e] + rest);
                assert(!e.fresh && spec_is_special_page(e.path, specials));
                assert forall|j: int|
                    0 <= j < spec_plan(files, stored, specials).len() implies {
                    &&& !(#[trigger] spec_plan(files, stored, specials)[j]).fresh
                    &&& spec_is_special_page(spec_plan(files, stored, specials)[j].path, specials)
                } by {
                    if j > 0 {
                        assert(spec_plan(files, stored, specials)[j] == rest[j - 1]);
                    }
                }
            },
            None => {
                assert(spec_plan(files, stored, specials) == rest);
            },
        }
    }
}

/// Plans a build straight from the store: reads the stored fingerprint
/// of every discovered file and applies the classification policy. The
/// resulting plan follows the policy exactly, whatever the store
/// returned for each path.
pub fn plan_from_db(
    db: &crate::sql::Db,
    files: Vec<(String, Vec<u8>)>,
    specials: &Vec<String>,
) -> (r: Result<Vec<Entry>, String>)
    ensures
        r matches Ok(es) ==> exists|stored: Seq<Option<Seq<char>>>|
            stored.len() == files.deep_view().len() && es.deep_view() == #[trigger] spec_plan(
                files.deep_view(),
                stored,
                specials.deep_view(),
            ),
{
    let mut stored: Vec<Option<String>> = Vec::new();
    let mut k: usize = 0;
    while k < files.len()
        invariant
            k <= files@.len(),
            stored@.len() == k,
        decreases files@.len() - k,
    {
        match db.get_hash(files[k].0.as_str()) {
            Ok(h) => stored.push(h),
            Err(e) => {
                return Err(e);
            },
        }
        k = k + 1;
    }
    let ghost gstored = stored.deep_view();
    let ghost gfiles = files.deep_view();
    let plan = plan_entries(files, stored, specials);
    proof {
        assert(gstored.len() == gfiles.len());
        assert(plan.deep_view() == spec_plan(gfiles, gstored, specials.deep_view()));
    }
    Ok(plan)
}

/// Builds the plan for a list of discovered files. `stored[i]` is the
/// fingerprint the store holds for `files[i]`, if any; the caller reads
/// these from the fingerprint store. The result holds exactly the files
/// whose classification includes them, in order.
pub fn plan_entries(
    files: Vec<(String, Vec<u8>)>,
    stored: Vec<Option<String>>,
    specials: &Vec<String>,
) -> (r: Vec<Entry>)
    requires
        stored@.len() == files@.len(),
    ensures
        r.deep_view() == spec_plan(files.deep_view(), stored.deep_view(), specials.deep_view()),
{
    let ghost gfiles = files.deep_view();
    let ghost gstored = stored.deep_view();
    let mut files = files;
    let mut stored = stored;
    let mut out: Vec<Entry> = Vec::new();
    proof {
        assert(out.deep_view() =~= Seq::<EntryV>::empty());
        assert(out.deep_view() + spec_plan(files.deep_view(), stored.deep_view(), specials.deep_view())
            =~= spec_plan(gfiles, gstored, specials.deep_view()));
    }
    while files.len() > 0
        invariant
            stored@.len() == files@.len(),
            out.deep_view() + spec_plan(
                files.deep_view(),
                stored.deep_view(),
                specials.deep_view(),
            ) == spec_plan(gfiles, gstored, specials.deep_view()),
        decreases files@.len(),
    {
        let ghost pre_files = files.deep_view();
        let ghost pre_stored = stored.deep_view();
        let ghost pre_out = out.deep_view();
        let (path, content) = files.remove(0);
        let stored_hash = stored.remove(0);
        proof {
            assert(files.deep_view() =~= pre_files.drop_first());
            assert(stored.deep_view() =~= pre_stored.drop_first());
            assert((path@, content@) == pre_files.first());
            assert((match stored_hash {
                Option::Some(h) => Option::Some(h@),
                Option::None => Option::<Seq<char>>::None,
            }) == pre_stored.first());
        }
        let hash = fingerprint(content.as_slice());
        let special = is_special_page(path.as_str(), specials);
        let status = classify(stored_hash.as_ref(), &hash, special);
        let ghost ge = EntryV {
            path: path@,
            raw_content: content@,
            hash: hash@,
            fresh: stored_hash is None,
        };
        match status {
            BuildStatus::New => {
                out.push(Entry::new(path, content, hash, true));
                proof {
                    assert(out.deep_view() =~= pre_out.push(ge));
                }
            },
            BuildStatus::Changed => {
                out.push(Entry::new(path, content, hash, false));
                proof {
                    assert(out.deep_view() =~= pre_out.push(ge));
                }
            },
            BuildStatus::Special => {
                out.push(Entry::new(path, content, hash, false));
                proof {
                    assert(out.deep_view() =~= pre_out.push(ge));
                }
            },
            BuildStatus::Excluded => {},
        }
        proof {
            let rest = spec_plan(files.deep_view(), stored.deep_view(), specials.deep_view());
            match spec_plan_one(path@, content@, pre_stored.first(), specials.deep_view()) {
                Some(e) => {
                    assert(spec_plan(pre_files, pre_stored, specials.deep_view()) == seq![e]
                        + rest);
                    assert(pre_out.push(e) + rest =~= pre_out + (seq![e] + rest));
                },
                None => {
                    assert(spec_plan(pre_files, pre_stored, specials.deep_view()) == rest);
                },
            }
        }
    }
    proof {
        assert(spec_plan(files.deep_view(), stored.deep_view(), specials.deep_view())
            == Seq::<EntryV>::empty());
        assert(out.deep_view() + Seq::<EntryV>::empty() =~= out.deep_view());
    }
    out
}

} // verus!
