use web_blog::article_list::Articles;
use web_blog::blog_displayer::BlogDisplayer;
use web_blog::blog_preview_list::BlogPreviewListDisplayer;
use web_blog::list_displayer::ListDisplayer;
use web_blog::request_loader::Displayer;
use web_blog::request_loader::FetchError;
use web_blog::request_loader::Rendered;
use web_blog::routes::routing;
use web_blog::routes::AppRoute;
use web_blog::routes::RouteTarget;
use web_blog::strings::convert_to_title;

#[test]
fn titles_replace_underscores_and_capitalize() {
    assert_eq!(convert_to_title("first_post.md"), "First post");
    assert_eq!(convert_to_title("hello.tar.gz"), "Hello");
    assert_eq!(convert_to_title("x"), "X");
    assert_eq!(convert_to_title("Already_Big.md"), "Already Big");
}

#[test]
fn markdown_is_converted_not_echoed() {
    let value = Some(Ok("# A title".to_string()));
    match BlogDisplayer::display(&value, 0) {
        Rendered::Markdown(html) => {
            assert!(html.contains("<h1>"));
            assert!(html.contains("A title"));
            assert_ne!(html, "# A title");
        },
        _ => panic!("a fetched body must render as markdown"),
    }
}

#[test]
fn empty_slot_renders_the_spinner() {
    let value: Option<Result<String, FetchError>> = None;
    assert!(matches!(BlogDisplayer::display(&value, 0), Rendered::Spinner));
}

#[test]
fn error_renders_the_error_text() {
    let value: Option<Result<String, FetchError>> = Some(Err(FetchError));
    assert!(matches!(BlogDisplayer::display(&value, 0), Rendered::ErrorText));
}

#[test]
fn list_displayer_titles_every_article() {
    let arts = Articles {
        articles: vec!["first_post.md".to_string(), "second_post.md".to_string()],
    };
    match ListDisplayer::display(&Some(Ok(arts)), 0) {
        Rendered::TitleList(titles) => {
            assert_eq!(
                titles,
                vec!["First post".to_string(), "Second post".to_string()]
            );
        },
        _ => panic!("a fetched listing must render as a title list"),
    }
}

#[test]
fn preview_list_displayer_pages_the_listing() {
    let names: Vec<String> = (1..=7).map(|i| format!("p{}.md", i)).collect();
    let arts = Articles { articles: names.clone() };
    match BlogPreviewListDisplayer::display(&Some(Ok(arts)), 2) {
        Rendered::PreviewPage(page) => {
            let shown: Vec<String> = page.articles.iter().map(|e| e.name.clone()).collect();
            assert_eq!(shown, names[5..7].to_vec());
            assert_eq!(page.prev_page, Some(1));
            assert_eq!(page.next_page, None);
        },
        _ => panic!("a fetched listing must render as a preview page"),
    }
}

#[test]
fn routes_mount_their_views() {
    match routing(AppRoute::ViewPost("a.md".to_string())) {
        RouteTarget::Article { url } => assert_eq!(url, "/articles/a.md"),
        _ => panic!("a post route must mount the article view"),
    }
    match routing(AppRoute::Page(7)) {
        RouteTarget::PreviewList { url, page } => {
            assert_eq!(url, "/article_list");
            assert_eq!(page, 7);
        },
        _ => panic!("a page route must mount the preview list"),
    }
    match routing(AppRoute::HomePage) {
        RouteTarget::PreviewList { url, page } => {
            assert_eq!(url, "/article_list");
            assert_eq!(page, 1);
        },
        _ => panic!("the home page must mount the preview list"),
    }
    assert!(matches!(routing(AppRoute::AboutMe), RouteTarget::About));
}
