use web_blog::blog_displayer::BlogDisplayer;
use web_blog::request_loader::FetchError;
use web_blog::request_loader::FetchMessage;
use web_blog::request_loader::Rendered;
use web_blog::request_loader::RequestLoader;
use web_blog::request_loader::RequestLoaderProps;

type ArticleLoader = RequestLoader<BlogDisplayer, Result<String, FetchError>>;

fn props(url: &str, extra_args: usize) -> RequestLoaderProps {
    RequestLoaderProps { url: url.to_string(), extra_args }
}

#[test]
fn creation_issues_one_request_and_renders_loading() {
    let (loader, request) = ArticleLoader::create(props("/articles/a.md", 0));
    assert_eq!(request.url, "/articles/a.md");
    assert!(loader.display_value.is_none());
    assert!(matches!(loader.view(), Rendered::Spinner));
}

#[test]
fn response_to_the_current_request_is_rendered() {
    let (mut loader, request) = ArticleLoader::create(props("/articles/a.md", 0));
    let rendered = loader.update(FetchMessage::Loaded(request.id, Ok("body".to_string())));
    assert!(rendered);
    assert_eq!(loader.display_value, Some(Ok("body".to_string())));
}

#[test]
fn unchanged_properties_issue_no_request() {
    let (mut loader, _request) = ArticleLoader::create(props("/articles/a.md", 0));
    assert!(loader.change(props("/articles/a.md", 0)).is_none());
}

#[test]
fn url_change_before_resolution_shows_only_the_latest_response() {
    let (mut loader, request_a) = ArticleLoader::create(props("/articles/a.md", 0));
    let request_b = loader
        .change(props("/articles/b.md", 0))
        .expect("differing properties must issue a request");
    assert_eq!(request_b.url, "/articles/b.md");

    // The superseded request resolves late: it is never observed.
    let rendered = loader.update(FetchMessage::Loaded(request_a.id, Ok("# A".to_string())));
    assert!(!rendered);
    assert!(loader.display_value.is_none());
    assert!(matches!(loader.view(), Rendered::Spinner));

    // The latest request resolves: exactly this value is rendered.
    let rendered = loader.update(FetchMessage::Loaded(request_b.id, Ok("# B".to_string())));
    assert!(rendered);
    match loader.view() {
        Rendered::Markdown(html) => {
            assert!(html.contains("B"));
            assert!(!html.contains("A"));
        },
        _ => panic!("the latest response must be rendered"),
    }
}

#[test]
fn error_value_renders_the_error_text() {
    let (mut loader, request) = ArticleLoader::create(props("/articles/a.md", 0));
    loader.update(FetchMessage::Loaded(request.id, Err(FetchError)));
    assert!(matches!(loader.view(), Rendered::ErrorText));
}
