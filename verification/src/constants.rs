//! The fixed locations the blog is served from: the listing endpoint, the
//! static-file root, and the articles folder under it.

use vstd::prelude::*;

verus! {

/// The URI of the listing endpoint.
pub fn article_list_uri() -> (r: &'static str)
    ensures
        r@ == "/article_list"@,
{
    "/article_list"
}

/// The directory static files are served from.
pub fn static_url() -> (r: &'static str)
    ensures
        r@ == "static"@,
{
    "static"
}

/// The directory under the static root that holds the article files.
pub fn articles_path() -> (r: &'static str)
    ensures
        r@ == "articles"@,
{
    "articles"
}

} // verus!
