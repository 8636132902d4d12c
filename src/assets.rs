//! Which embedded file answers a request for a path of the web client.

use vstd::prelude::*;
use vstd::string::{StrSliceExecFns, StringExecFns};

verus! {

/// The page of the web client.
pub const INDEX_FILE: &'static str = "index.html";

/// `path` without its leading slashes.
pub open spec fn strip_slashes(path: Seq<char>) -> Seq<char>
    decreases path.len(),
{
    if path.len() > 0 && path[0] == '/' {
        strip_slashes(path.drop_first())
    } else {
        path
    }
}

/// What a request path asks for.
pub enum StaticTarget {
    /// The page of the web client.
    Index,
    /// The embedded file at this relative path.
    Asset(String),
}

/// The target of a request for `uri_path`: the index page for the root or
/// the index file itself, else the asset at the path without its leading
/// slashes.
pub fn static_target(uri_path: &str) -> (r: StaticTarget)
    ensures
        ({
            let p = strip_slashes(uri_path@);
            if p.len() == 0 || p == INDEX_FILE@ {
                r is Index
            } else {
                r matches StaticTarget::Asset(s) && s@ == p
            }
        }),
{
    let n = uri_path.unicode_len();
    let mut i: usize = 0;
    assert(uri_path@.subrange(0, n as int) =~= uri_path@);
    while i < n && uri_path.get_char(i) == '/'
        invariant
            n == uri_path@.len(),
            i <= n,
            strip_slashes(uri_path@.subrange(i as int, n as int)) == strip_slashes(uri_path@),
        decreases n - i,
    {
        assert(uri_path@.subrange(i as int, n as int).drop_first() =~= uri_path@.subrange(
            i + 1,
            n as int,
        ));
        i = i + 1;
    }
    let rest = String::from_str(uri_path.substring_char(i, n));
    assert(strip_slashes(rest@) == rest@);
    if rest.unicode_len() == 0 || rest == String::from_str(INDEX_FILE) {
        StaticTarget::Index
    } else {
        StaticTarget::Asset(rest)
    }
}

/// What answers a request for an asset that is not embedded.
pub enum MissingAsset {
    /// A path with an extension names a file: answer "not found".
    NotFound,
    /// Any other path is a route of the web client: answer with its page.
    Index,
}

/// The answer for an asset path that is not embedded.
pub fn missing_asset(path: &str) -> (r: MissingAsset)
    ensures
        r is NotFound <==> path@.contains('.'),
{
    let n = path.unicode_len();
    let mut i: usize = 0;
    while i < n
        invariant
            n == path@.len(),
            i <= n,
            forall|j: int| 0 <= j < i ==> path@[j] != '.',
        decreases n - i,
    {
        if path.get_char(i) == '.' {
            return MissingAsset::NotFound;
        }
        i = i + 1;
    }
    MissingAsset::Index
}

} // verus!
