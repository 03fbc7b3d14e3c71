//! The single-article display strategy: a fetched markdown body is
//! converted to an HTML fragment by an outside converter; an empty slot
//! renders the loading indicator, an error value a generic error text.

use vstd::prelude::*;
use crate::request_loader::Displayer;
use crate::request_loader::FetchError;
use crate::request_loader::Rendered;
use crate::request_loader::RenderedView;

verus! {

/// What the markdown converter produces for the given text; a
/// deterministic function of the text alone.
pub uninterp spec fn html_of(markdown: Seq<char>) -> Seq<char>;

/// Relies on `pulldown_cmark::Parser` and `pulldown_cmark::html::push_html`:
/// converts a markdown text into an HTML fragment, a function of the
/// text alone.
#[verifier::external_body]
fn markdown_to_html(text: &str) -> (r: String)
    ensures
        r@ == html_of(text@),
{
    let parser = pulldown_cmark::Parser::new(text);
    let mut out = String::new();
    pulldown_cmark::html::push_html(&mut out, parser);
    out
}

/// The display strategy of the single-article view.
pub struct BlogDisplayer;

impl Displayer<Result<String, FetchError>> for BlogDisplayer {
    open spec fn spec_display(value: Option<Result<String, FetchError>>, extra_args: usize) -> RenderedView {
        match value {
            Option::None => RenderedView::Spinner,
            Option::Some(res) => match res {
                Result::Ok(text) => RenderedView::Markdown(html_of(text@)),
                Result::Err(_) => RenderedView::ErrorText,
            },
        }
    }

    fn display(value: &Option<Result<String, FetchError>>, extra_args: usize) -> (r: Rendered) {
        match value {
            Option::None => Rendered::Spinner,
            Option::Some(res) => match res {
                Result::Ok(text) => Rendered::Markdown(markdown_to_html(text.as_str())),
                Result::Err(_) => Rendered::ErrorText,
            },
        }
    }
}

} // verus!
