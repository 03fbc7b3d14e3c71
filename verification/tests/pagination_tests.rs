use web_blog::blog_preview_list::build_page_view;
use web_blog::blog_preview_list::calculate_indexes_from_page;
use web_blog::blog_preview_list::preview_url;

fn names(n: usize) -> Vec<String> {
    (1..=n).map(|i| format!("post{:02}.md", i)).collect()
}

fn page_names(articles: &[String], page: usize) -> Vec<String> {
    build_page_view(&articles.to_vec(), page)
        .articles
        .iter()
        .map(|e| e.name.clone())
        .collect()
}

#[test]
fn first_page_shows_first_five_without_previous() {
    let arts = names(12);
    let view = build_page_view(&arts, 1);
    let shown: Vec<String> = view.articles.iter().map(|e| e.name.clone()).collect();
    assert_eq!(shown, arts[0..5].to_vec());
    assert_eq!(view.prev_page, None);
    assert_eq!(view.next_page, Some(2));
}

#[test]
fn middle_page_shows_its_slice_with_both_links() {
    let arts = names(12);
    let view = build_page_view(&arts, 2);
    let shown: Vec<String> = view.articles.iter().map(|e| e.name.clone()).collect();
    assert_eq!(shown, arts[5..10].to_vec());
    assert_eq!(view.prev_page, Some(1));
    assert_eq!(view.next_page, Some(3));
}

#[test]
fn last_page_is_clamped_and_has_no_next() {
    let arts = names(12);
    let view = build_page_view(&arts, 3);
    let shown: Vec<String> = view.articles.iter().map(|e| e.name.clone()).collect();
    assert_eq!(shown, arts[10..12].to_vec());
    assert_eq!(view.prev_page, Some(2));
    assert_eq!(view.next_page, None);
}

#[test]
fn page_boundary_exactly_full() {
    let arts = names(10);
    assert_eq!(page_names(&arts, 2), arts[5..10].to_vec());
    let view = build_page_view(&arts, 2);
    assert_eq!(view.next_page, None);
}

#[test]
fn out_of_range_page_is_empty_with_only_previous() {
    let arts = names(7);
    let view = build_page_view(&arts, 4);
    assert!(view.articles.is_empty());
    assert_eq!(view.prev_page, Some(3));
    assert_eq!(view.next_page, None);
}

#[test]
fn empty_list_first_page_is_empty() {
    let view = build_page_view(&Vec::new(), 1);
    assert!(view.articles.is_empty());
    assert_eq!(view.prev_page, None);
    assert_eq!(view.next_page, None);
}

#[test]
fn indexes_follow_the_page_formula() {
    assert_eq!(calculate_indexes_from_page(1), (0, 5));
    assert_eq!(calculate_indexes_from_page(3), (10, 15));
}

#[test]
fn entries_carry_their_preview_urls() {
    let arts = names(2);
    let view = build_page_view(&arts, 1);
    assert_eq!(view.articles[0].preview_url, "/preview/articles/post01.md");
    assert_eq!(view.articles[1].preview_url, "/preview/articles/post02.md");
}

#[test]
fn preview_url_prefixes_the_name() {
    assert_eq!(preview_url("story.md"), "/preview/articles/story.md");
}
