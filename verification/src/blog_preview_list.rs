//! The paginated preview list: slices the article list into fixed-size
//! pages, renders each article of the page as a preview link, and offers
//! previous/next navigation.

use vstd::prelude::*;
use vstd::string::StringExecFns;
use crate::article_list::Articles;
use crate::article_list::views_of;
use crate::request_loader::Displayer;
use crate::request_loader::FetchError;
use crate::request_loader::Rendered;
use crate::request_loader::RenderedView;

verus! {

/// How many articles one page shows.
pub const PAGE_SIZE: usize = 5;

/// One article on a page: its file name and the URL its preview is
/// fetched from.
pub struct PageEntry {
    pub name: String,
    pub preview_url: String,
}

/// The mathematical shape of a page entry.
pub struct PageEntryModel {
    pub name: Seq<char>,
    pub preview_url: Seq<char>,
}

impl View for PageEntry {
    type V = PageEntryModel;

    open spec fn view(&self) -> PageEntryModel {
        PageEntryModel { name: self.name@, preview_url: self.preview_url@ }
    }
}

/// One rendered page: the articles of the page's slice and the optional
/// previous/next page numbers.
pub struct PageView {
    pub articles: Vec<PageEntry>,
    pub prev_page: Option<usize>,
    pub next_page: Option<usize>,
}

/// The mathematical shape of a rendered page.
pub struct PageViewModel {
    pub articles: Seq<PageEntryModel>,
    pub prev_page: Option<usize>,
    pub next_page: Option<usize>,
}

impl View for PageView {
    type V = PageViewModel;

    open spec fn view(&self) -> PageViewModel {
        PageViewModel {
            articles: entry_views(self.articles@),
            prev_page: self.prev_page,
            next_page: self.next_page,
        }
    }
}

/// The slice bounds of a page: `(page-1)*PAGE_SIZE` to `page*PAGE_SIZE`,
/// each clamped to the list length; a page beyond the end is empty.
pub open spec fn page_start(page: usize, n: int) -> int {
    if page == 0 {
        0
    } else if (page - 1) * PAGE_SIZE <= n {
        (page - 1) * PAGE_SIZE
    } else {
        n
    }
}

/// The exclusive end of a page's slice, clamped to the list length.
pub open spec fn page_end(page: usize, n: int) -> int {
    if page * PAGE_SIZE <= n {
        page * PAGE_SIZE
    } else {
        n
    }
}

/// The entry shown for one article name.
pub open spec fn entry_model(name: Seq<char>) -> PageEntryModel {
    PageEntryModel { name, preview_url: "/preview/articles/"@ + name }
}

/// The models of a vector of page entries.
pub open spec fn entry_views(es: Seq<PageEntry>) -> Seq<PageEntryModel> {
    es.map_values(|e: PageEntry| e@)
}

/// The entries shown for a sequence of article names.
pub open spec fn entry_models_of(names: Seq<Seq<char>>) -> Seq<PageEntryModel> {
    names.map_values(|nm: Seq<char>| entry_model(nm))
}

/// What one page shows of the given article names: the page's slice,
/// each article with its preview URL; a previous link exactly for pages
/// after the first, targeting the page before; a next link exactly while
/// more articles follow the slice, targeting the page after.
pub open spec fn page_view_model(names: Seq<Seq<char>>, page: usize) -> PageViewModel {
    let n = names.len() as int;
    PageViewModel {
        articles: entry_models_of(names.subrange(page_start(page, n), page_end(page, n))),
        prev_page: if page > 1 {
            Some((page - 1) as usize)
        } else {
            None
        },
        next_page: if page * PAGE_SIZE < n {
            Some((page + 1) as usize)
        } else {
            None
        },
    }
}

/// The raw slice indexes of a page: where it starts and where it ends,
/// before clamping to the list's length.
pub fn calculate_indexes_from_page(page_number: usize) -> (r: (usize, usize))
    requires
        page_number >= 1,
        page_number * PAGE_SIZE <= usize::MAX,
    ensures
        r.0 == (page_number - 1) * PAGE_SIZE,
        r.1 == page_number * PAGE_SIZE,
{
    let start_index = (page_number - 1) * PAGE_SIZE;
    let end_index = start_index + PAGE_SIZE;
    (start_index, end_index)
}

/// Builds the preview URL an article's body is fetched from.
pub fn preview_url(name: &str) -> (r: String)
    ensures
        r@ == "/preview/articles/"@ + name@,
{
    let mut s = String::new();
    s.append("/preview/articles/");
    s.append(name);
    proof {
        assert(s@ =~= "/preview/articles/"@ + name@);
    }
    s
}

/// Builds the page shown for the given articles and page number,
/// clamping the slice to the list and computing the navigation links.
pub fn build_page_view(articles: &Vec<String>, page: usize) -> (r: PageView)
    ensures
        r@ == page_view_model(views_of(articles@), page),
{
    let n = articles.len();
    let start: usize = if page == 0 {
        0
    } else if page - 1 > n / PAGE_SIZE {
        n
    } else {
        let s = (page - 1) * PAGE_SIZE;
        proof {
            lemma_div_mul_le(n as int);
        }
        if s > n {
            n
        } else {
            s
        }
    };
    let end: usize = if page > n / PAGE_SIZE {
        n
    } else {
        let e = page * PAGE_SIZE;
        proof {
            lemma_div_mul_le(n as int);
        }
        if e > n {
            n
        } else {
            e
        }
    };
    let ghost nv = views_of(articles@);
    proof {
        lemma_page_bounds(page, n as int);
        assert(start as int == page_start(page, n as int));
        assert(end as int == page_end(page, n as int));
    }
    let mut entries: Vec<PageEntry> = Vec::new();
    let mut i: usize = start;
    proof {
        assert(entry_views(entries@) =~= entry_models_of(
            nv.subrange(start as int, start as int),
        ));
    }
    while i < end
        invariant
            start <= i <= end,
            end <= articles@.len(),
            nv == views_of(articles@),
            nv.len() == articles@.len(),
            entries@.len() == i - start,
            entry_views(entries@) == entry_models_of(nv.subrange(start as int, i as int)),
        decreases end - i,
    {
        let ghost old_entries = entries@;
        let name = articles[i].clone();
        let url = preview_url(articles[i].as_str());
        entries.push(PageEntry { name, preview_url: url });
        proof {
            let m_new = entry_views(entries@);
            let m_old = entry_views(old_entries);
            let rhs = entry_models_of(nv.subrange(start as int, i + 1));
            let rhs_old = entry_models_of(nv.subrange(start as int, i as int));
            assert(m_old == rhs_old);
            assert(m_new.len() == entries@.len());
            assert(rhs.len() == i + 1 - start);
            assert forall|j: int| 0 <= j < m_new.len() implies m_new[j] == rhs[j] by {
                if j < m_new.len() - 1 {
                    assert(m_new[j] == m_old[j]);
                    assert(rhs[j] == rhs_old[j]);
                } else {
                    assert(nv.subrange(start as int, i + 1)[j] == nv[i as int]);
                    assert(nv[i as int] == articles@[i as int]@);
                    assert(entries@[j]@ == entry_model(nv[i as int]));
                }
            }
            assert(m_new =~= rhs);
        }
        i = i + 1;
    }
    let prev_page = if page > 1 {
        Some(page - 1)
    } else {
        None
    };
    let next_page = if end < n {
        Some(page + 1)
    } else {
        None
    };
    proof {
        lemma_page_next(page, n as int);
    }
    PageView { articles: entries, prev_page, next_page }
}

/// Multiplying the truncated quotient back never exceeds the dividend.
proof fn lemma_div_mul_le(n: int)
    requires
        n >= 0,
    ensures
        (n / (PAGE_SIZE as int)) * (PAGE_SIZE as int) <= n,
{
    assert((n / 5) * 5 <= n) by (nonlinear_arith)
        requires
            n >= 0,
    ;
}

/// The clamped bounds equal their definitionally clamped forms, however
/// the page number stands to the list length.
proof fn lemma_page_bounds(page: usize, n: int)
    requires
        n >= 0,
    ensures
        page >= 1 && page - 1 > n / (PAGE_SIZE as int) ==> page_start(page, n) == n,
        page * PAGE_SIZE > n ==> page_end(page, n) == n,
        page_start(page, n) <= page_end(page, n) <= n,
        page >= 1 && page - 1 <= n / (PAGE_SIZE as int) ==> (page - 1) * PAGE_SIZE <= n,
        page > n / (PAGE_SIZE as int) ==> page * PAGE_SIZE > n,
        page <= n / (PAGE_SIZE as int) ==> page * PAGE_SIZE <= n,
{
    let p = page as int;
    assert((p > n / 5 ==> p * 5 > n) && (p <= n / 5 ==> p * 5 <= n)) by (nonlinear_arith)
        requires
            p >= 0,
            n >= 0,
    ;
    if p >= 1 {
        assert((p - 1 > n / 5 ==> (p - 1) * 5 > n) && (p - 1 <= n / 5 ==> (p - 1) * 5 <= n))
            by (nonlinear_arith)
            requires
                p >= 1,
                n >= 0,
        ;
        assert((p - 1) * 5 <= p * 5) by (nonlinear_arith)
            requires
                p >= 1,
        ;
    }
}

/// The next link is shown exactly when the clamped end leaves articles
/// over, which is exactly when the raw end falls short of the length.
proof fn lemma_page_next(page: usize, n: int)
    requires
        n >= 0,
    ensures
        (page_end(page, n) < n) == ((page as int) * (PAGE_SIZE as int) < n),
{
}

/// The display strategy of the paginated preview list.
pub struct BlogPreviewListDisplayer;

impl Displayer<Result<Articles, FetchError>> for BlogPreviewListDisplayer {
    open spec fn spec_display(value: Option<Result<Articles, FetchError>>, extra_args: usize) -> RenderedView {
        match value {
            Option::None => RenderedView::Spinner,
            Option::Some(res) => match res {
                Result::Ok(arts) => RenderedView::PreviewPage(
                    page_view_model(views_of(arts.articles@), extra_args),
                ),
                Result::Err(_) => RenderedView::ErrorText,
            },
        }
    }

    fn display(value: &Option<Result<Articles, FetchError>>, extra_args: usize) -> (r: Rendered) {
        match value {
            Option::None => Rendered::Spinner,
            Option::Some(res) => match res {
                Result::Ok(arts) => Rendered::PreviewPage(
                    build_page_view(&arts.articles, extra_args),
                ),
                Result::Err(_) => Rendered::ErrorText,
            },
        }
    }
}

/// One page of a list renders exactly the slice from `(page-1)*PAGE_SIZE`
/// to `page*PAGE_SIZE`, clamped to the list's length; the previous link
/// is present exactly for pages after the first and targets the page
/// before; the next link is present exactly while articles follow the
/// slice and targets the page after.
pub proof fn lemma_page_view_law(names: Seq<Seq<char>>, page: usize)
    requires
        page >= 1,
        page * PAGE_SIZE <= usize::MAX,
    ensures
        ({
            let m = page_view_model(names, page);
            let n = names.len() as int;
            let start = if (page - 1) * PAGE_SIZE <= n {
                (page - 1) * PAGE_SIZE
            } else {
                n
            };
            let end = if page * PAGE_SIZE <= n {
                page * PAGE_SIZE
            } else {
                n
            };
            &&& m.articles == entry_models_of(names.subrange(start, end))
            &&& (forall|j: int|
                0 <= j < m.articles.len() ==> (#[trigger] m.articles[j]).name == names.subrange(
                    start,
                    end,
                )[j])
            &&& (m.prev_page is Some <==> page > 1)
            &&& (page > 1 ==> m.prev_page == Some((page - 1) as usize))
            &&& (m.next_page is Some <==> page * PAGE_SIZE < n)
            &&& (page * PAGE_SIZE < n ==> m.next_page == Some((page + 1) as usize))
        }),
{
    let m = page_view_model(names, page);
    let n = names.len() as int;
    assert((page - 1) * PAGE_SIZE <= (page as int) * (PAGE_SIZE as int)) by (nonlinear_arith)
        requires
            page >= 1,
    ;
}

} // verus!
