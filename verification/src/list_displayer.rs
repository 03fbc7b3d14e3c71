//! The plain-list display strategy: every article of the fetched listing
//! is shown as a link titled by its file name turned into a readable
//! title.

use vstd::prelude::*;
use crate::article_list::Articles;
use crate::article_list::views_of;
use crate::request_loader::Displayer;
use crate::request_loader::FetchError;
use crate::request_loader::Rendered;
use crate::request_loader::RenderedView;
use crate::strings::convert_to_title;
use crate::strings::title_of;

verus! {

/// The titles shown for the given article names, in order.
pub open spec fn titles_of(names: Seq<Seq<char>>) -> Seq<Seq<char>> {
    names.map_values(|n: Seq<char>| title_of(n))
}

/// Builds the display titles of the listed articles, in order.
pub fn article_titles(articles: &Vec<String>) -> (r: Vec<String>)
    ensures
        views_of(r@) == titles_of(views_of(articles@)),
{
    let mut titles: Vec<String> = Vec::new();
    let mut i: usize = 0;
    proof {
        assert(views_of(titles@) =~= titles_of(views_of(articles@).take(0)));
    }
    while i < articles.len()
        invariant
            i <= articles@.len(),
            titles@.len() == i,
            views_of(titles@) == titles_of(views_of(articles@).take(i as int)),
        decreases articles@.len() - i,
    {
        titles.push(convert_to_title(articles[i].as_str()));
        proof {
            let av = views_of(articles@);
            let lhs = views_of(titles@);
            let rhs = titles_of(av.take(i + 1));
            assert forall|j: int| 0 <= j < lhs.len() implies lhs[j] == rhs[j] by {
                if j < i {
                    assert(views_of(titles@)[j] == titles_of(av.take(i as int))[j]);
                    assert(av.take(i + 1)[j] == av.take(i as int)[j]);
                } else {
                    assert(titles@[j]@ == title_of(av[i as int]));
                    assert(av.take(i + 1)[j] == av[i as int]);
                }
            }
            assert(lhs =~= rhs);
        }
        i = i + 1;
    }
    proof {
        assert(views_of(articles@).take(articles@.len() as int) =~= views_of(articles@));
    }
    titles
}

/// The display strategy of the plain article list.
pub struct ListDisplayer;

impl Displayer<Result<Articles, FetchError>> for ListDisplayer {
    open spec fn spec_display(value: Option<Result<Articles, FetchError>>, extra_args: usize) -> RenderedView {
        match value {
            Option::None => RenderedView::Spinner,
            Option::Some(res) => match res {
                Result::Ok(arts) => RenderedView::TitleList(titles_of(views_of(arts.articles@))),
                Result::Err(_) => RenderedView::ErrorText,
            },
        }
    }

    fn display(value: &Option<Result<Articles, FetchError>>, extra_args: usize) -> (r: Rendered) {
        match value {
            Option::None => Rendered::Spinner,
            Option::Some(res) => match res {
                Result::Ok(arts) => Rendered::TitleList(article_titles(&arts.articles)),
                Result::Err(_) => Rendered::ErrorText,
            },
        }
    }
}

} // verus!
