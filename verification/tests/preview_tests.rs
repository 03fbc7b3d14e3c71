use web_blog::preview::preview;

fn lines(ls: &[&str]) -> Vec<String> {
    ls.iter().map(|l| l.to_string()).collect()
}

#[test]
fn short_file_previews_in_full() {
    let ls = lines(&["alpha", "beta", "gamma"]);
    assert_eq!(preview(&ls), "alpha\nbeta\ngamma\n");
}

#[test]
fn empty_file_previews_empty() {
    assert_eq!(preview(&Vec::new()), "");
}

#[test]
fn nine_line_file_previews_in_full() {
    let ls: Vec<String> = (1..=9).map(|i| format!("line {}", i)).collect();
    let expected: String = (1..=9).map(|i| format!("line {}\n", i)).collect();
    assert_eq!(preview(&ls), expected);
}

#[test]
fn ten_line_file_previews_in_full() {
    let ls: Vec<String> = (1..=10).map(|i| format!("line {}", i)).collect();
    let expected: String = (1..=10).map(|i| format!("line {}\n", i)).collect();
    assert_eq!(preview(&ls), expected);
}

#[test]
fn longer_file_previews_exactly_ten_lines() {
    let ls: Vec<String> = (1..=25).map(|i| format!("line {}", i)).collect();
    let expected: String = (1..=10).map(|i| format!("line {}\n", i)).collect();
    let got = preview(&ls);
    assert_eq!(got, expected);
    assert_eq!(got.lines().count(), 10);
    assert!(!got.contains("line 11"));
}
