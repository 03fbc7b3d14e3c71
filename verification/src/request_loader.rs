//! The fetch-display pipeline: a component configured with a URL issues
//! one GET request per configuration, holds the decoded result in a
//! mutable slot, and renders through a pluggable display strategy. A
//! configuration change resets the slot and issues a fresh request; a
//! response is stored only if it answers the request currently in
//! flight, so a stale response is never observed.

use vstd::prelude::*;
use crate::blog_preview_list::PageView;
use crate::blog_preview_list::PageViewModel;
use crate::strings::str_eq;

verus! {

/// An error value carried in place of a decoded response body: a
/// transport or decode failure; strategies render it as a generic error.
#[derive(Clone, Copy, PartialEq, Eq, Structural, Debug)]
pub struct FetchError;

/// What a display strategy renders: the loading indicator, the generic
/// error text, a markdown article converted to HTML, a plain list of
/// article titles, or one page of article previews.
pub enum Rendered {
    Spinner,
    ErrorText,
    Markdown(String),
    TitleList(Vec<String>),
    PreviewPage(PageView),
}

/// The mathematical shape of a rendered view.
pub enum RenderedView {
    Spinner,
    ErrorText,
    Markdown(Seq<char>),
    TitleList(Seq<Seq<char>>),
    PreviewPage(PageViewModel),
}

impl View for Rendered {
    type V = RenderedView;

    open spec fn view(&self) -> RenderedView {
        match self {
            Rendered::Spinner => RenderedView::Spinner,
            Rendered::ErrorText => RenderedView::ErrorText,
            Rendered::Markdown(s) => RenderedView::Markdown(s@),
            Rendered::TitleList(ts) => RenderedView::TitleList(
                crate::article_list::views_of(ts@),
            ),
            Rendered::PreviewPage(p) => RenderedView::PreviewPage(p@),
        }
    }
}

/// A display strategy: renders a fetched value, or its absence.
pub trait Displayer<U> {
    /// What the strategy renders for a slot value and the extra argument.
    spec fn spec_display(value: Option<U>, extra_args: usize) -> RenderedView;

    /// Renders the slot; a `None` slot is the still-loading state.
    fn display(value: &Option<U>, extra_args: usize) -> (r: Rendered)
        ensures
            r@ == Self::spec_display(*value, extra_args),
    ;
}

/// The properties a loader is configured with: the URL to fetch, and an
/// extra argument handed through to the display strategy.
pub struct RequestLoaderProps {
    pub url: String,
    pub extra_args: usize,
}

/// Property equality, as the loader's change detection compares: by value.
pub open spec fn props_eq(a: RequestLoaderProps, b: RequestLoaderProps) -> bool {
    a.url@ == b.url@ && a.extra_args == b.extra_args
}

/// One GET request the component asks its host to issue; the id ties the
/// eventual response back to the request it answers.
pub struct FetchRequest {
    pub id: u64,
    pub url: String,
}

/// A response body arriving for the request with the given id.
pub enum FetchMessage<U> {
    Loaded(u64, U),
}

/// The loader's abstract state.
pub struct LoaderState<U> {
    pub url: Seq<char>,
    pub extra_args: usize,
    pub display_value: Option<U>,
    pub current_request: u64,
}

/// The state of a freshly created loader: an empty slot, and request 0
/// in flight for the configured URL.
pub open spec fn loader_created<U>(url: Seq<char>, extra_args: usize) -> LoaderState<U> {
    LoaderState { url, extra_args, display_value: None, current_request: 0 }
}

/// The state after a configuration change, and the id of the request it
/// issues: equal properties change nothing; differing properties reset
/// the slot and put the next request in flight.
pub open spec fn loader_changed<U>(s: LoaderState<U>, url: Seq<char>, extra_args: usize) -> (
    LoaderState<U>,
    Option<u64>,
) {
    if s.url == url && s.extra_args == extra_args {
        (s, None)
    } else {
        (
            LoaderState {
                url,
                extra_args,
                display_value: None,
                current_request: (s.current_request + 1) as u64,
            },
            Some((s.current_request + 1) as u64),
        )
    }
}

/// The state after a response arrives, and whether it re-renders: the
/// body fills the slot only if it answers the request in flight; any
/// other response is never observed.
pub open spec fn loader_updated<U>(s: LoaderState<U>, id: u64, value: U) -> (
    LoaderState<U>,
    bool,
) {
    if id == s.current_request {
        (LoaderState { display_value: Some(value), ..s }, true)
    } else {
        (s, false)
    }
}

/// The fetch-display pipeline's state: the configuration, the slot for
/// the decoded value, and the id of the request in flight.
pub struct RequestLoader<T: Displayer<U>, U> {
    pub props: RequestLoaderProps,
    pub display_value: Option<U>,
    pub current_request: u64,
    pub phantom: core::marker::PhantomData<T>,
}

impl<T: Displayer<U>, U> RequestLoader<T, U> {
    /// The loader's abstract state.
    pub open spec fn state(self) -> LoaderState<U> {
        LoaderState {
            url: self.props.url@,
            extra_args: self.props.extra_args,
            display_value: self.display_value,
            current_request: self.current_request,
        }
    }

    /// Creates the component: the slot starts empty — rendering the
    /// loading state — and exactly one request for the configured URL is
    /// handed back to be issued.
    pub fn create(props: RequestLoaderProps) -> (r: (RequestLoader<T, U>, FetchRequest))
        ensures
            r.0.state() == loader_created::<U>(props.url@, props.extra_args),
            r.1.id == 0,
            r.1.url@ == props.url@,
    {
        let request = FetchRequest { id: 0, url: props.url.clone() };
        let loader = RequestLoader {
            props,
            display_value: None,
            current_request: 0,
            phantom: core::marker::PhantomData,
        };
        (loader, request)
    }

    /// Applies a configuration change: when the properties differ by
    /// value, the slot resets, the new properties are taken, and the
    /// returned request — superseding the one in flight — is to be
    /// issued; equal properties change nothing.
    pub fn change(&mut self, props: RequestLoaderProps) -> (r: Option<FetchRequest>)
        requires
            old(self).current_request < u64::MAX,
        ensures
            final(self).state() == loader_changed::<U>(
                old(self).state(),
                props.url@,
                props.extra_args,
            ).0,
            match r {
                Option::Some(req) => loader_changed::<U>(
                    old(self).state(),
                    props.url@,
                    props.extra_args,
                ).1 == Some(req.id) && req.url@ == props.url@,
                Option::None => loader_changed::<U>(
                    old(self).state(),
                    props.url@,
                    props.extra_args,
                ).1 is None,
            },
    {
        let same = str_eq(self.props.url.as_str(), props.url.as_str()) && self.props.extra_args
            == props.extra_args;
        if same {
            None
        } else {
            self.display_value = None;
            self.props = props;
            self.current_request = self.current_request + 1;
            Some(FetchRequest { id: self.current_request, url: self.props.url.clone() })
        }
    }

    /// Takes a response: the body is stored — and a re-render reported —
    /// only if it answers the request in flight.
    pub fn update(&mut self, msg: FetchMessage<U>) -> (render: bool)
        ensures
            match msg {
                FetchMessage::Loaded(id, value) => final(self).state() == loader_updated::<U>(
                    old(self).state(),
                    id,
                    value,
                ).0 && render == loader_updated::<U>(old(self).state(), id, value).1,
            },
    {
        match msg {
            FetchMessage::Loaded(id, value) => {
                if id == self.current_request {
                    self.display_value = Some(value);
                    true
                } else {
                    false
                }
            },
        }
    }

    /// Renders the current slot through the display strategy.
    pub fn view(&self) -> (r: Rendered)
        ensures
            r@ == T::spec_display(self.display_value, self.props.extra_args),
    {
        T::display(&self.display_value, self.props.extra_args)
    }
}

/// Re-configuring the loader before the first response arrives leaves
/// exactly one observable value: a response to the superseded request is
/// ignored and the loading state stays, while the response to the latest
/// request fills the slot — no stale value is ever rendered.
pub proof fn lemma_latest_request_wins<U>(
    url_a: Seq<char>,
    extra_a: usize,
    url_b: Seq<char>,
    extra_b: usize,
    body_a: U,
    body_b: U,
)
    requires
        url_a != url_b || extra_a != extra_b,
    ensures
        ({
            let s0 = loader_created::<U>(url_a, extra_a);
            let (s1, issued) = loader_changed::<U>(s0, url_b, extra_b);
            let (s2, rendered_a) = loader_updated::<U>(s1, s0.current_request, body_a);
            let (s3, rendered_b) = loader_updated::<U>(s2, s1.current_request, body_b);
            &&& issued == Some(s1.current_request)
            &&& s0.display_value is None
            &&& s2.display_value is None
            &&& rendered_a == false
            &&& s3.display_value == Some(body_b)
            &&& rendered_b == true
        }),
{
}

} // verus!
