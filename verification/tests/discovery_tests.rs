use grepx::discovery::{find_files, PathKind, SearchRoot, WalkEntry};

fn entry(path: &str, depth: usize, is_file: bool) -> WalkEntry {
    WalkEntry { path: path.to_string(), depth, is_file }
}

fn root(path: &str, kind: PathKind, entries: Vec<WalkEntry>) -> SearchRoot {
    SearchRoot { path: path.to_string(), kind, entries }
}

fn tree() -> Vec<WalkEntry> {
    vec![
        entry("src", 0, false),
        entry("src/a.txt", 1, true),
        entry("src/sub", 1, false),
        entry("src/sub/b.txt", 2, true),
        entry("src/sub/deep", 2, false),
        entry("src/sub/deep/c.txt", 3, true),
        entry("src/z.txt", 1, true),
    ]
}

#[test]
fn a_path_that_does_not_exist_is_passed_over() {
    let roots = vec![
        root("gone.txt", PathKind::Missing, Vec::new()),
        root("here.txt", PathKind::File, Vec::new()),
    ];
    assert_eq!(find_files(&roots, false), vec!["here.txt".to_string()]);
    assert_eq!(find_files(&roots, true), vec!["here.txt".to_string()]);
    let only_missing = vec![root("gone.txt", PathKind::Missing, Vec::new())];
    assert!(find_files(&only_missing, true).is_empty());
}

#[test]
fn a_directory_gives_all_its_files_with_recursion() {
    let roots = vec![root("src", PathKind::Directory, tree())];
    assert_eq!(
        find_files(&roots, true),
        vec![
            "src/a.txt".to_string(),
            "src/sub/b.txt".to_string(),
            "src/sub/deep/c.txt".to_string(),
            "src/z.txt".to_string(),
        ]
    );
}

#[test]
fn a_directory_gives_its_own_files_without_recursion() {
    let roots = vec![root("src", PathKind::Directory, tree())];
    assert_eq!(find_files(&roots, false), vec!["src/a.txt".to_string(), "src/z.txt".to_string()]);
}

#[test]
fn the_files_come_in_the_order_of_the_roots() {
    let roots = vec![
        root("one.txt", PathKind::File, Vec::new()),
        root("src", PathKind::Directory, tree()),
        root("pipe", PathKind::Other, Vec::new()),
        root("gone", PathKind::Missing, tree()),
        root("one.txt", PathKind::File, Vec::new()),
    ];
    assert_eq!(
        find_files(&roots, false),
        vec![
            "one.txt".to_string(),
            "src/a.txt".to_string(),
            "src/z.txt".to_string(),
            "one.txt".to_string(),
        ]
    );
}

#[test]
fn no_roots_give_no_files() {
    assert!(find_files(&Vec::new(), true).is_empty());
    let empty_dir = vec![root("empty", PathKind::Directory, Vec::new())];
    assert!(find_files(&empty_dir, true).is_empty());
}
