//! Static files: byte-identical copies from the source tree to a path
//! mirrored under the output's `static/` subtree. Only the path
//! computation lives here; the copy itself is plain file work outside.

use vstd::prelude::*;

use crate::paths::{comps, joinc, spec_mirror_out_comps, static_out_path, split_path};

verus! {

/// A file copied to the output as it stands.
#[derive(Debug, PartialEq, Eq)]
pub struct StaticFile {
    pub path: String,
    pub out_path: String,
    pub hash: String,
    pub fresh: bool,
}

impl StaticFile {
    /// Processes one static-file entry: computes the mirrored output
    /// path below `static/` under the output directory, file name kept.
    pub fn new(path: String, hash: String, fresh: bool, output_path: &str) -> (r: StaticFile)
        ensures
            r.path == path,
            r.hash == hash,
            r.fresh == fresh,
            r.out_path@ == joinc(
                spec_mirror_out_comps(
                    path@,
                    output_path@,
                    seq!['s', 't', 'a', 't', 'i', 'c'],
                    false,
                ),
            ),
    {
        let op = static_out_path(path.as_str(), output_path);
        StaticFile { path, out_path: op, hash, fresh }
    }
}

/// A static asset named by its path alone; its directory below the
/// mirrored subtree is the name of its parent directory.
#[derive(Debug, PartialEq, Eq)]
pub struct StaticAsset {
    pub path: String,
}

impl StaticAsset {
    /// Wraps a static asset's path.
    pub fn new(path: String) -> (r: StaticAsset)
        ensures
            r.path == path,
    {
        StaticAsset { path }
    }

    /// The directory the asset mirrors to: the name of its parent
    /// directory, or `.` when the parent is the subtree root itself.
    pub fn directory(&self) -> (r: String)
        ensures
            ({
                let parent = comps(self.path@).drop_last();
                if comps(self.path@).len() == 0 || parent.len() == 0 || parent
                    =~= seq!["static"@] {
                    r@ == "."@
                } else {
                    r@ == parent.last()
                }
            }),
    {
        let mut pc = split_path(self.path.as_str());
        let ghost gpc = pc.deep_view();
        if pc.len() == 0 {
            return String::from_str(".");
        }
        let _ = pc.pop();
        proof {
            assert(pc.deep_view() =~= gpc.drop_last());
        }
        if pc.len() == 0 {
            return String::from_str(".");
        }
        if pc.len() == 1 && crate::strutil::eq_str(pc[0].as_str(), "static") {
            proof {
                assert(gpc.drop_last() =~= seq!["static"@]);
            }
            return String::from_str(".");
        }
        let ghost parent = gpc.drop_last();
        let n: String = pc[pc.len() - 1].clone();
        proof {
            assert(n@ == parent.last());
            if parent =~= seq!["static"@] {
                assert(parent.len() == 1 && parent[0] == "static"@);
            }
        }
        n
    }
}

} // verus!
