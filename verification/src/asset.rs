//! Assets: resources passed through a preprocessing pipeline keyed by
//! source extension. Stylesheets compile through the external style
//! compiler, scripts go to the external bundler where one is available,
//! and everything else passes through unchanged; the output extension is
//! rewritten to match the compiled form.

use vstd::prelude::*;

use crate::paths::{
    asset_out_path, comps, joinc, last_dot, spec_mirror_out_comps, spec_stem, split_path, stem_of,
};
use crate::strutil::{eq_str, push_char, str_to_chars, sub_string};

verus! {

/// A resource that runs through the asset pipeline.
#[derive(Debug, PartialEq, Eq)]
pub struct Asset {
    pub path: String,
    pub out_path: String,
    pub raw_content: Vec<u8>,
    pub content: Vec<u8>,
    pub hash: String,
    pub fresh: bool,
}

/// The extension of a file name: what follows the last `.`, except that
/// a lone leading `.` marks no extension.
pub open spec fn spec_ext(name: Seq<char>) -> Option<Seq<char>> {
    match last_dot(name) {
        Some(d) => if d == 0 {
            None
        } else {
            Some(name.skip(d + 1))
        },
        None => None,
    }
}

/// The extension of a file name, if any.
pub fn extension_of(name: &str) -> (r: Option<String>)
    ensures
        (match (r, spec_ext(name@)) {
            (Some(s), Some(e)) => s@ == e,
            (None, None) => true,
            _ => false,
        }),
{
    let v = str_to_chars(name);
    let mut k: usize = v.len();
    while k > 0
        invariant
            k <= v@.len(),
            v@ == name@,
            forall|j: int| k <= j < v@.len() ==> v@[j] != '.',
        decreases k,
    {
        if v[k - 1] == '.' {
            proof {
                assert(name@[k - 1] == '.');
                assert(last_dot(name@) == Some(k - 1)) by {
                    assert(name@[k - 1] == '.' && (forall|j: int|
                        k - 1 < j < name@.len() ==> name@[j] != '.'));
                }
            }
            if k - 1 == 0 {
                return None;
            }
            let e = sub_string(&v, k, v.len());
            proof {
                assert(e@ =~= name@.skip((k - 1) + 1));
            }
            return Some(e);
        }
        k = k - 1;
    }
    proof {
        assert(last_dot(name@) is None);
    }
    None
}

/// Relies on `rsass::compile_scss` with compressed output. The result is
/// no function of the source bytes alone: `@import` and `@use` rules
/// read further files relative to the working directory, and the sass
/// `random` function draws numbers. So the compiled bytes get no name;
/// only which way the call went is visible to callers.
#[verifier::external_body]
fn compile_scss(src: &[u8]) -> (r: Result<Vec<u8>, String>) {
    let format = rsass::output::Format {
        style: rsass::output::Style::Compressed,
        ..Default::default()
    };
    match rsass::compile_scss(src, format) {
        Ok(css) => Ok(css),
        Err(e) => Err(e.to_string()),
    }
}

/// The final output path of an asset: the mirrored stem below `assets/`,
/// with `.css` for compiled stylesheets, the source extension for
/// everything else that has one, and no extension otherwise.
pub open spec fn spec_asset_final_path(path: Seq<char>, output_path: Seq<char>) -> Seq<char> {
    let base = joinc(spec_mirror_out_comps(path, output_path, seq!['a', 's', 's', 'e', 't', 's'], true));
    let name = if comps(path).len() > 0 {
        comps(path).last()
    } else {
        Seq::empty()
    };
    match spec_ext(name) {
        Some(e) => if e == "scss"@ {
            base + seq!['.'] + "css"@
        } else {
            base + seq!['.'] + e
        },
        None => base,
    }
}

impl Asset {
    /// Processes one asset entry: computes the mirrored output path with
    /// the compiled form's extension and preprocesses the bytes by
    /// extension. An `scss` source compiles through the external style
    /// compiler, whose result may draw on imported files and on chance,
    /// and fails only when that compiler fails; a `js` source passes
    /// through unchanged, script bundling being no part of this library;
    /// anything else passes through unchanged too.
    pub fn new(
        path: String,
        raw_content: Vec<u8>,
        hash: String,
        fresh: bool,
        output_path: &str,
    ) -> (r: Result<Asset, String>)
        ensures
            r matches Ok(a) ==> {
                &&& a.path == path
                &&& a.raw_content@ == raw_content@
                &&& a.hash == hash
                &&& a.fresh == fresh
                &&& a.out_path@ == spec_asset_final_path(path@, output_path@)
                &&& (match spec_ext(
                    if comps(path@).len() > 0 {
                        comps(path@).last()
                    } else {
                        Seq::<char>::empty()
                    },
                ) {
                    Some(e) => e == "scss"@ || a.content@ == raw_content@,
                    None => a.content@ == raw_content@,
                })
            },
            r is Err ==> {
                &&& comps(path@).len() > 0
                &&& spec_ext(comps(path@).last()) == Some("scss"@)
            },
    {
        let base = asset_out_path(path.as_str(), output_path);
        let pc = split_path(path.as_str());
        let name: String = if pc.len() > 0 {
            let ghost gpc = pc.deep_view();
            let n: String = pc[pc.len() - 1].clone();
            proof {
                assert(n@ == gpc.last());
            }
            n
        } else {
            String::new()
        };
        let ext = extension_of(name.as_str());
        match ext {
            Some(e) => {
                if eq_str(e.as_str(), "scss") {
                    let css = match compile_scss(raw_content.as_slice()) {
                        Ok(c) => c,
                        Err(err) => {
                            return Err(err);
                        },
                    };
                    let mut op = base;
                    push_char(&mut op, '.');
                    op.append("css");
                    proof {
                        assert(op@ =~= spec_asset_final_path(path@, output_path@));
                    }
                    Ok(
                        Asset {
                            path,
                            out_path: op,
                            raw_content,
                            content: css,
                            hash,
                            fresh,
                        },
                    )
                } else {
                    let mut op = base;
                    push_char(&mut op, '.');
                    op.append(e.as_str());
                    proof {
                        assert(op@ =~= spec_asset_final_path(path@, output_path@));
                    }
                    let content = clone_bytes(&raw_content);
                    Ok(Asset { path, out_path: op, raw_content, content, hash, fresh })
                }
            },
            None => {
                proof {
                    assert(base@ =~= spec_asset_final_path(path@, output_path@));
                }
                let content = clone_bytes(&raw_content);
                Ok(Asset { path, out_path: base, raw_content, content, hash, fresh })
            },
        }
    }
}

/// Copies a byte vector.
fn clone_bytes(v: &Vec<u8>) -> (r: Vec<u8>)
    ensures
        r@ == v@,
{
    let mut r: Vec<u8> = Vec::new();
    let mut k: usize = 0;
    proof {
        assert(r@ =~= v@.take(0));
    }
    while k < v.len()
        invariant
            k <= v@.len(),
            r@ == v@.take(k as int),
        decreases v@.len() - k,
    {
        r.push(v[k]);
        proof {
            assert(r@ =~= v@.take(k + 1));
        }
        k = k + 1;
    }
    proof {
        assert(v@.take(v@.len() as int) =~= v@);
    }
    r
}

/// A stylesheet source on its own, outside the mirrored asset subtree:
/// it compiles to `styles/<stem>.css` under the output directory.
#[derive(Debug, PartialEq, Eq)]
pub struct Stylesheet {
    pub path: String,
    pub raw_content: String,
}

impl Stylesheet {
    /// Bundles a stylesheet source with its content.
    pub fn new(path: String, content: String) -> (r: Stylesheet)
        ensures
            r.path == path,
            r.raw_content == content,
    {
        Stylesheet { path, raw_content: content }
    }

    /// The path the compiled stylesheet is written to: `styles/` under
    /// the output directory, with the source's stem and a `css`
    /// extension.
    pub fn css_out_path(&self, output_path: &str) -> (r: String)
        ensures
            r@ == joinc(
                comps(output_path@) + seq![
                    "styles"@,
                    spec_stem(
                        if comps(self.path@).len() > 0 {
                            comps(self.path@).last()
                        } else {
                            Seq::<char>::empty()
                        },
                    ) + seq!['.'] + "css"@,
                ],
            ),
    {
        let mut parts = split_path(output_path);
        let ghost oc = parts.deep_view();
        parts.push(String::from_str("styles"));
        let pc = split_path(self.path.as_str());
        let name: String = if pc.len() > 0 {
            let ghost gpc = pc.deep_view();
            let n: String = pc[pc.len() - 1].clone();
            proof {
                assert(n@ == gpc.last());
            }
            n
        } else {
            String::new()
        };
        proof {
            assert(name@ == (if comps(self.path@).len() > 0 {
                comps(self.path@).last()
            } else {
                Seq::<char>::empty()
            }));
        }
        let mut file = stem_of(name.as_str());
        push_char(&mut file, '.');
        file.append("css");
        proof {
            assert(file@ =~= spec_stem(name@) + seq!['.'] + "css"@);
        }
        parts.push(file);
        proof {
            assert(parts.deep_view() =~~= oc + seq![
                "styles"@,
                spec_stem(
                    if comps(self.path@).len() > 0 {
                        comps(self.path@).last()
                    } else {
                        Seq::<char>::empty()
                    },
                ) + seq!['.'] + "css"@,
            ]);
        }
        crate::paths::join_path(&parts)
    }
}

} // verus!
