//! The links under which a purl is shared: the page's address with the purl as its
//! `purl` query parameter.

use vstd::prelude::*;
use vstd::string::StringExecFns;

verus! {

/// The shareable link of a purl: the page's origin and path, then the purl, already
/// URI-encoded, as the `purl` query parameter.
pub fn share_url(origin: &str, pathname: &str, encoded: &str) -> (r: String)
    ensures
        r@ == origin@ + pathname@ + "?purl="@ + encoded@,
{
    let mut r = origin.to_owned();
    r.append(pathname);
    r.append("?purl=");
    r.append(encoded);
    r
}

/// The page location that shows a purl: the bare path while the purl is empty, else the
/// path with the URI-encoded purl as the `purl` query parameter.
pub fn location_url(pathname: &str, purl: &str, encoded: &str) -> (r: String)
    ensures
        r@ == if purl@.len() == 0 {
            pathname@
        } else {
            pathname@ + "?purl="@ + encoded@
        },
{
    let mut r = pathname.to_owned();
    if !purl.is_empty() {
        r.append("?purl=");
        r.append(encoded);
    }
    r
}

} // verus!
