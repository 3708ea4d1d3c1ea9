//! Locating a package's entry file from its project descriptor.
//!
//! A package directory may hold a descriptor file naming a source-tree
//! subpath; within that subpath one of two entry filenames is recognised.
//! Both files are optional: their absence yields no candidates, never an
//! error.  Reading the files from disk is the caller's concern; this module
//! derives the paths.

use vstd::prelude::*;

use vstd::string::StringExecFns;

verus! {

/// The source-tree subpath a project descriptor names, when the descriptor
/// text is valid JSON whose `tree` object holds a `$path` string; nothing
/// otherwise.  A function of the descriptor text alone.
pub uninterp spec fn descriptor_tree_path(s: Seq<char>) -> Option<Seq<char>>;

/// Relies on `serde_json::from_str` and `serde_json::Value::get` /
/// `Value::as_str`: parses the descriptor and looks up the `tree.$path`
/// string.  The result depends on the descriptor text alone.
#[verifier::external_body]
fn read_tree_path(contents: &str) -> (r: Option<String>)
    ensures
        r is Some <==> descriptor_tree_path(contents@) is Some,
        r matches Some(p) ==> descriptor_tree_path(contents@) == Some(p@),
{
    let v: serde_json::Value = match serde_json::from_str(contents) {
        Ok(v) => v,
        Err(_) => return None,
    };
    match v.get("tree") {
        Some(t) => match t.get("$path") {
            Some(p) => match p.as_str() {
                Some(s) => Some(s.to_string()),
                None => None,
            },
            None => None,
        },
        None => None,
    }
}

/// The descriptor file's path within a package directory.
pub fn descriptor_path(package_path: &str) -> (r: String)
    ensures
        r@ == package_path@ + "/default.project.json"@,
{
    let mut out = String::new();
    out.append(package_path);
    out.append("/default.project.json");
    proof {
        assert(out@ =~= package_path@ + "/default.project.json"@);
    }
    out
}

/// The two entry-file candidates for the package at `package_path` whose
/// descriptor reads `descriptor_contents`: `init.lua` and `init.luau` under
/// the descriptor's source tree.  No source tree, no candidates.
pub fn entry_file_candidates(package_path: &str, descriptor_contents: &str) -> (r: Option<
    (String, String),
>)
    ensures
        r is Some <==> descriptor_tree_path(descriptor_contents@) is Some,
        r matches Some(c) ==> {
            &&& c.0@ == package_path@ + "/"@ + descriptor_tree_path(
                descriptor_contents@,
            ).unwrap() + "/init.lua"@
            &&& c.1@ == package_path@ + "/"@ + descriptor_tree_path(
                descriptor_contents@,
            ).unwrap() + "/init.luau"@
        },
{
    match read_tree_path(descriptor_contents) {
        Some(tree) => {
            let mut base = String::new();
            base.append(package_path);
            base.append("/");
            base.append(tree.as_str());
            let mut lua = base.clone();
            lua.append("/init.lua");
            let mut luau = base.clone();
            luau.append("/init.luau");
            proof {
                assert(lua@ =~= package_path@ + "/"@ + descriptor_tree_path(
                    descriptor_contents@,
                ).unwrap() + "/init.lua"@);
                assert(luau@ =~= package_path@ + "/"@ + descriptor_tree_path(
                    descriptor_contents@,
                ).unwrap() + "/init.luau"@);
            }
            Some((lua, luau))
        }
        None => None,
    }
}

} // verus!
