use web_blog::article_list::list_articles;
use web_blog::article_list::FsEntry;

fn entry(name: &str, is_dir: bool) -> FsEntry {
    FsEntry { name: name.to_string(), is_dir }
}

#[test]
fn listing_sorts_files_ascending() {
    let entries = vec![
        entry("zebra.md", false),
        entry("alpha.md", false),
        entry("media.md", false),
    ];
    let arts = list_articles(entries);
    assert_eq!(
        arts.articles,
        vec![
            "alpha.md".to_string(),
            "media.md".to_string(),
            "zebra.md".to_string()
        ]
    );
}

#[test]
fn listing_keeps_each_file_exactly_once() {
    let entries = vec![
        entry("b.md", false),
        entry("a.md", false),
        entry("c.md", false),
        entry("d.md", false),
    ];
    let arts = list_articles(entries);
    assert_eq!(arts.articles.len(), 4);
    for name in ["a.md", "b.md", "c.md", "d.md"] {
        assert_eq!(arts.articles.iter().filter(|n| n.as_str() == name).count(), 1);
    }
}

#[test]
fn listing_excludes_subdirectories() {
    let entries = vec![
        entry("posts", true),
        entry("b.md", false),
        entry("images", true),
        entry("a.md", false),
    ];
    let arts = list_articles(entries);
    assert_eq!(arts.articles, vec!["a.md".to_string(), "b.md".to_string()]);
}

#[test]
fn listing_of_empty_directory_is_empty() {
    let arts = list_articles(Vec::new());
    assert!(arts.articles.is_empty());
}

#[test]
fn listing_of_only_subdirectories_is_empty() {
    let entries = vec![entry("x", true), entry("y", true)];
    let arts = list_articles(entries);
    assert!(arts.articles.is_empty());
}

#[test]
fn listing_orders_prefixes_first() {
    let entries = vec![entry("abc.md", false), entry("ab.md", false)];
    let arts = list_articles(entries);
    assert_eq!(arts.articles, vec!["ab.md".to_string(), "abc.md".to_string()]);
}
