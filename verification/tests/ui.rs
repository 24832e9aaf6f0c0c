use md_dir_builder::ui::{determine_visible_file, files_at_depth, hash, split_dirs};
use std::collections::hash_map::DefaultHasher;
use std::hash::{Hash, Hasher};

fn reference_hash(s: &str) -> u64 {
    let mut hasher = DefaultHasher::default();
    s.hash(&mut hasher);
    hasher.finish()
}

#[test]
fn hash_is_the_default_hash_of_the_text() {
    assert_eq!(reference_hash(""), hash(""));
    assert_eq!(reference_hash("ws.js"), hash("ws.js"));
    assert_eq!(reference_hash("console.log('ä');\n"), hash("console.log('ä');\n"));
    assert_ne!(hash("a"), hash("b"));
}

#[test]
fn determine_visible_file_drops_the_leading_parts() {
    let file = vec!["a", "b", "c.md"];
    assert_eq!(&["a", "b", "c.md"], determine_visible_file(&file, 0));
    assert_eq!(&["b", "c.md"], determine_visible_file(&file, 1));
    assert_eq!(&["c.md"], determine_visible_file(&file, 2));
    assert!(determine_visible_file(&file, 3).is_empty());
}

#[test]
fn split_dirs_groups_neighbours_by_directory() {
    let a1 = vec!["a", "1.md"];
    let a2 = vec!["a", "x", "2.md"];
    let b1 = vec!["b", "1.md"];
    let top = vec!["top.md"];
    let c1 = vec!["c", "1.md"];
    let files = [&a1, &a2, &b1, &top, &c1];
    let dirs = split_dirs(&files, 0);
    assert_eq!(3, dirs.len());
    assert_eq!(("a", &files[0..2]), dirs[0]);
    assert_eq!(("b", &files[2..3]), dirs[1]);
    assert_eq!(("c", &files[4..5]), dirs[2]);
}

#[test]
fn split_dirs_looks_at_the_given_depth() {
    let a1 = vec!["a", "1.md"];
    let ax = vec!["a", "x", "2.md"];
    let ay = vec!["a", "y", "3.md"];
    let files = [&a1, &ax, &ay];
    let dirs = split_dirs(&files, 1);
    assert_eq!(2, dirs.len());
    assert_eq!(("x", &files[1..2]), dirs[0]);
    assert_eq!(("y", &files[2..3]), dirs[1]);
    assert!(split_dirs(&files, 2).is_empty());
}

#[test]
fn split_dirs_of_files_without_directory_is_empty() {
    let one = vec!["a.md"];
    let two = vec!["b.md"];
    let files = [&one, &two];
    assert!(split_dirs(&files, 0).is_empty());
    let none: [&Vec<&str>; 0] = [];
    assert!(split_dirs(&none, 0).is_empty());
}

#[test]
fn split_dirs_starts_a_new_run_where_a_directory_returns() {
    let a1 = vec!["a", "1.md"];
    let b1 = vec!["b", "1.md"];
    let a2 = vec!["a", "2.md"];
    let files = [&a1, &b1, &a2];
    let dirs = split_dirs(&files, 0);
    assert_eq!(3, dirs.len());
    assert_eq!(("a", &files[0..1]), dirs[0]);
    assert_eq!(("b", &files[1..2]), dirs[1]);
    assert_eq!(("a", &files[2..3]), dirs[2]);
}

#[test]
fn files_at_depth_keeps_the_files_of_the_directory() {
    let top = vec!["top.md"];
    let a1 = vec!["a", "1.md"];
    let ax = vec!["a", "x", "2.md"];
    let other = vec!["other.md"];
    let files = [&top, &a1, &ax, &other];
    assert_eq!(vec![&top, &other], files_at_depth(&files, 0));
    assert_eq!(vec![&a1], files_at_depth(&files, 1));
    assert_eq!(vec![&ax], files_at_depth(&files, 2));
    assert!(files_at_depth(&files, 3).is_empty());
    assert!(files_at_depth(&files, usize::MAX).is_empty());
    let empty: Vec<&str> = Vec::new();
    let with_empty = [&empty, &top];
    assert_eq!(vec![&top], files_at_depth(&with_empty, 0));
}
