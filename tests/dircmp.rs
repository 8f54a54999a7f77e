use filecmp::dircmp::classify;
use filecmp::listing::{common_names, filter, is_skipped, name_less, sort_names};
use filecmp::stat::{S_IFDIR, S_IFLNK, S_IFREG};
use filecmp::{cmpfiles, DirCmp, DirEntry, EntryKind};

fn file(name: &str) -> DirEntry {
    DirEntry { name: name.to_string(), mode: Some(S_IFREG | 0o644) }
}

fn dir(name: &str) -> DirEntry {
    DirEntry { name: name.to_string(), mode: Some(S_IFDIR | 0o755) }
}

fn strings(v: &[&str]) -> Vec<String> {
    v.iter().map(|s| s.to_string()).collect()
}

fn sorted(v: &Vec<String>) -> Vec<String> {
    let mut v = v.clone();
    v.sort();
    v
}

#[test]
fn test_dircmp() {
    // "dir" and "dir_same" each hold a file and a subdirectory; "dir_same" also holds
    // an ignored ".git" directory.
    let left = vec![dir("subdir"), file("file")];
    let right = vec![file("file"), dir(".git"), dir("subdir")];
    let mut result = DirCmp::new("dir".to_string(), "dir_same".to_string(), &left, &right);
    assert_eq!(result.left, "dir");
    assert_eq!(result.right, "dir_same");
    assert_eq!(sorted(&result.left_list), vec!["file", "subdir"]);
    assert_eq!(sorted(&result.right_list), vec!["file", "subdir"]);
    assert_eq!(sorted(&result.common), vec!["file", "subdir"]);
    assert_eq!(sorted(&result.left_only), Vec::<String>::new());
    assert_eq!(sorted(&result.right_only), Vec::<String>::new());
    assert_eq!(sorted(&result.common_dirs), vec!["subdir"]);
    assert_eq!(result.common_files, vec!["file"]);
    assert_eq!(result.common_funny, Vec::<String>::new());

    result.compare_files(&vec![Some(true)]);
    assert_eq!(result.same_files, vec!["file"]);
    assert_eq!(result.diff_files, Vec::<String>::new());
    assert_eq!(result.funny_files, Vec::<String>::new());
}

#[test]
fn extra_file_is_right_only() {
    let left = vec![file("file"), dir("subdir")];
    let right = vec![file("file2"), dir("subdir"), file("file")];
    let result = DirCmp::new("dir".to_string(), "dir_diff".to_string(), &left, &right);
    assert_eq!(result.right_list, vec!["file", "file2", "subdir"]);
    assert_eq!(result.right_only, vec!["file2"]);
    assert_eq!(result.left_only, Vec::<String>::new());
    assert_eq!(result.common, vec!["file", "subdir"]);

    let reversed = DirCmp::new("dir_diff".to_string(), "dir".to_string(), &right, &left);
    assert_eq!(reversed.left_only, vec!["file2"]);
    assert_eq!(reversed.right_only, Vec::<String>::new());
    assert!(!reversed.common.contains(&"file2".to_string()));
}

#[test]
fn listings_are_filtered_and_sorted() {
    let entries = vec![
        file("zeta"),
        dir("CVS"),
        file("alpha"),
        dir("__pycache__"),
        file("tags"),
        dir("."),
        dir(".."),
        dir(".hg"),
        dir(".bzr"),
        dir("_darcs"),
        dir("RCS"),
        file("Beta"),
    ];
    let result = DirCmp::new("a".to_string(), "b".to_string(), &entries, &vec![]);
    assert_eq!(result.left_list, vec!["Beta", "alpha", "zeta"]);
    assert_eq!(result.left_only, vec!["Beta", "alpha", "zeta"]);
    assert_eq!(result.common, Vec::<String>::new());
}

#[test]
fn shared_names_are_partitioned() {
    let left = vec![
        dir("d"),
        file("f"),
        dir("mixed"),
        DirEntry { name: "gone".to_string(), mode: None },
        DirEntry { name: "link".to_string(), mode: Some(S_IFLNK | 0o777) },
        file("only_left"),
    ];
    let right = vec![
        dir("d"),
        file("f"),
        file("mixed"),
        file("gone"),
        DirEntry { name: "link".to_string(), mode: Some(S_IFLNK | 0o777) },
    ];
    let result = DirCmp::new("l".to_string(), "r".to_string(), &left, &right);
    assert_eq!(result.common, vec!["d", "f", "gone", "link", "mixed"]);
    assert_eq!(result.common_dirs, vec!["d"]);
    assert_eq!(result.common_files, vec!["f"]);
    assert_eq!(result.common_funny, vec!["gone", "link", "mixed"]);
    assert_eq!(result.left_only, vec!["only_left"]);
    let mut all = result.common_dirs.clone();
    all.extend(result.common_files.clone());
    all.extend(result.common_funny.clone());
    assert_eq!(sorted(&all), sorted(&result.common));
}

#[test]
fn file_outcomes_are_partitioned() {
    let common = strings(&["a", "b", "c", "d"]);
    let (same, diff, funny) = cmpfiles(&common, &vec![Some(true), Some(false), None, Some(true)]);
    assert_eq!(same, vec!["a", "d"]);
    assert_eq!(diff, vec!["b"]);
    assert_eq!(funny, vec!["c"]);
}

#[test]
fn classification_of_modes() {
    assert_eq!(classify(Some(S_IFDIR | 0o755), Some(S_IFDIR | 0o700)), EntryKind::Dir);
    assert_eq!(classify(Some(S_IFREG | 0o644), Some(S_IFREG | 0o600)), EntryKind::File);
    assert_eq!(classify(Some(S_IFREG | 0o644), Some(S_IFDIR | 0o755)), EntryKind::Funny);
    assert_eq!(classify(Some(S_IFLNK), Some(S_IFLNK)), EntryKind::Funny);
    assert_eq!(classify(None, Some(S_IFREG)), EntryKind::Funny);
    assert_eq!(classify(Some(S_IFREG), None), EntryKind::Funny);
}

#[test]
fn name_order() {
    assert!(name_less(&"a".to_string(), &"b".to_string()));
    assert!(name_less(&"ab".to_string(), &"abc".to_string()));
    assert!(!name_less(&"abc".to_string(), &"ab".to_string()));
    assert!(!name_less(&"a".to_string(), &"a".to_string()));
    assert!(name_less(&"Z".to_string(), &"a".to_string()));
    assert!(name_less(&"z".to_string(), &"é".to_string()));
    let names = strings(&["pear", "apple", "Fig", "apple", "é", "banana"]);
    assert_eq!(sort_names(names), strings(&["Fig", "apple", "apple", "banana", "pear", "é"]));
}

#[test]
fn skipped_names() {
    for n in ["RCS", "CVS", "tags", ".git", ".hg", ".bzr", "_darcs", "__pycache__", ".", ".."] {
        assert!(is_skipped(&n.to_string()));
    }
    for n in ["rcs", "git", "file", "", "..."] {
        assert!(!is_skipped(&n.to_string()));
    }
}

#[test]
fn filter_drops_the_skipped_names() {
    let flist = strings(&["a", "b", "c", "b"]);
    assert_eq!(filter(&flist, &strings(&["b"])), strings(&["a", "c"]));
    assert_eq!(filter(&flist, &strings(&[])), flist);
    assert_eq!(filter(&strings(&["x"]), &strings(&["x"])), Vec::<String>::new());
}

#[test]
fn common_names_keep_the_left_order() {
    let left = strings(&["c", "a", "b"]);
    let right = strings(&["b", "c", "d"]);
    assert_eq!(common_names(&left, &right), strings(&["c", "b"]));
    assert_eq!(common_names(&left, &strings(&[])), Vec::<String>::new());
}
