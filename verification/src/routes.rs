//! The client's fragment routes, and the decision which view each route
//! mounts.

use vstd::prelude::*;
use vstd::string::StringExecFns;

verus! {

/// The routes the client recognizes in the URL fragment.
#[derive(Clone, Debug)]
pub enum AppRoute {
    AboutMe,
    ViewPost(String),
    Page(usize),
    HomePage,
}

/// What the root view mounts for a route: the static page about the
/// author, one article fetched from its URL, or the paginated preview
/// list fetched from the listing endpoint.
pub enum RouteTarget {
    About,
    Article { url: String },
    PreviewList { url: String, page: usize },
}

/// The URL an article's full body is fetched from.
pub fn article_url(name: &str) -> (r: String)
    ensures
        r@ == "/articles/"@ + name@,
{
    let mut s = String::new();
    s.append("/articles/");
    s.append(name);
    proof {
        assert(s@ =~= "/articles/"@ + name@);
    }
    s
}

/// Decides which view a route mounts: an article view for a post route,
/// the preview list at the routed page — the home page is page 1 — and
/// the author page for its route.
pub fn routing(switch: AppRoute) -> (r: RouteTarget)
    ensures
        match switch {
            AppRoute::AboutMe => r is About,
            AppRoute::ViewPost(article) => (r matches RouteTarget::Article { url } && url@
                == "/articles/"@ + article@),
            AppRoute::Page(n) => (r matches RouteTarget::PreviewList { url, page } && url@
                == "/article_list"@ && page == n),
            AppRoute::HomePage => (r matches RouteTarget::PreviewList { url, page } && url@
                == "/article_list"@ && page == 1),
        },
{
    match switch {
        AppRoute::AboutMe => RouteTarget::About,
        AppRoute::ViewPost(article) => RouteTarget::Article {
            url: article_url(article.as_str()),
        },
        AppRoute::Page(n) => RouteTarget::PreviewList {
            url: String::from_str(crate::constants::article_list_uri()),
            page: n,
        },
        AppRoute::HomePage => RouteTarget::PreviewList {
            url: String::from_str(crate::constants::article_list_uri()),
            page: 1,
        },
    }
}

} // verus!
