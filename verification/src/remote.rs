//! Remote object addressing: for each tracked path under a version, the
//! compressed object lives at a deterministic location derived from the
//! version and the relative path, with a compression-marked extension.

use vstd::prelude::*;

verus! {

/// The fixed HTTP endpoint the compressed objects are served from.
pub open spec fn endpoint_base() -> Seq<char> {
    "http://abstreet.s3-website.us-east-2.amazonaws.com/"@
}

/// `base/path.gz`: where the compressed object for `path` sits under a
/// local or remote root `base`.
pub fn remote_object_path(base: &String, path: &String) -> (r: String)
    ensures
        r@ == base@ + "/"@ + path@ + ".gz"@,
{
    let mut r = base.clone();
    r.append("/");
    r.append(path.as_str());
    r.append(".gz");
    r
}

/// The URL a path's compressed object is fetched from for a version.
pub fn remote_object_url(version: &String, path: &String) -> (r: String)
    ensures
        r@ == endpoint_base() + version@ + "/"@ + path@ + ".gz"@,
{
    let mut r = String::from_str("http://abstreet.s3-website.us-east-2.amazonaws.com/");
    r.append(version.as_str());
    r.append("/");
    r.append(path.as_str());
    r.append(".gz");
    r
}

} // verus!
