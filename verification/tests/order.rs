use md_dir_builder::order::{precedes, sort_files};

fn strings(items: &[&str]) -> Vec<String> {
    items.iter().map(|s| s.to_string()).collect()
}

#[test]
fn listing_puts_deeper_paths_first() {
    let mut files = strings(&["a.md", "b/c.md", "d/e/f.md"]);
    sort_files(&mut files);
    assert_eq!(files, strings(&["d/e/f.md", "b/c.md", "a.md"]));
}

#[test]
fn listing_orders_equal_depth_lexicographically() {
    let mut files = strings(&["/b.md", "/a.md", "/x/b.md", "/x/a.md", "/B.md"]);
    sort_files(&mut files);
    assert_eq!(files, strings(&["/x/a.md", "/x/b.md", "/B.md", "/a.md", "/b.md"]));
}

#[test]
fn precedes_compares_depth_before_text() {
    assert!(precedes("z/z", "a"));
    assert!(!precedes("a", "z/z"));
    assert!(precedes("a", "a"));
    assert!(precedes("a", "ab"));
    assert!(!precedes("ab", "a"));
}
