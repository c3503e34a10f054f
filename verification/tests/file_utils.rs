use blsforme::file_utils::{
    basename, changed_files, digests_equal, join_component, metas_decisive, pair_changed,
    FileKind, FileMeta, PathExt,
};

fn meta(size: u64, kind: FileKind) -> Option<FileMeta> {
    Some(FileMeta { size, kind })
}

fn strings(items: &[&str]) -> Vec<String> {
    items.iter().map(|s| String::from(*s)).collect()
}

#[test]
fn basename_takes_text_after_last_separator() {
    assert_eq!(basename("/usr/lib/kernel/vmlinuz-6.1"), Some(String::from("vmlinuz-6.1")));
    assert_eq!(basename("vmlinuz"), Some(String::from("vmlinuz")));
    assert_eq!(basename("/usr/lib/"), None);
    assert_eq!(basename(""), None);
    assert_eq!(basename("/usr/."), None);
    assert_eq!(basename("/usr/.."), None);
    assert_eq!(basename("/usr/.config"), Some(String::from(".config")));
}

#[test]
fn join_component_inserts_one_separator() {
    assert_eq!(join_component("/boot", "loader"), "/boot/loader");
    assert_eq!(join_component("/boot/", "loader"), "/boot/loader");
}

#[test]
fn resolve_reuses_existing_casing() {
    let base = String::from("/boot/EFI");
    let entries = strings(&["Foo", "Linux", "bar"]);
    let r = base.join_insensitive(&entries, &String::from("linux"));
    assert_eq!(r, "/boot/EFI/Linux");
}

#[test]
fn resolve_without_match_keeps_desired_name() {
    let base = String::from("/boot/EFI");
    let entries = strings(&["Foo", "bar"]);
    let r = base.join_insensitive(&entries, &String::from("linux"));
    assert_eq!(r, "/boot/EFI/linux");
}

#[test]
fn resolve_prefers_first_of_several_matches() {
    let base = String::from("/boot/EFI");
    let entries = strings(&["LINUX", "Linux"]);
    let r = base.join_insensitive(&entries, &String::from("linux"));
    assert_eq!(r, "/boot/EFI/LINUX");
}

#[test]
fn digests_equal_compares_bytes() {
    assert!(digests_equal(&vec![1, 2, 3], &vec![1, 2, 3]));
    assert!(!digests_equal(&vec![1, 2, 3], &vec![1, 2, 4]));
    assert!(!digests_equal(&vec![1, 2, 3], &vec![1, 2]));
}

#[test]
fn matching_metas_and_digests_mean_unchanged() {
    let m = meta(10, FileKind::Regular);
    let d = Some(vec![7u8; 32]);
    assert!(!metas_decisive(&m, &m));
    assert!(!pair_changed(&m, &m, &d, &d));
}

#[test]
fn differing_digests_mean_changed() {
    let m = meta(10, FileKind::Regular);
    let da = Some(vec![7u8; 32]);
    let db = Some(vec![8u8; 32]);
    assert!(pair_changed(&m, &m, &da, &db));
}

#[test]
fn unreadable_side_means_changed() {
    let m = meta(10, FileKind::Regular);
    assert!(metas_decisive(&m, &None));
    assert!(metas_decisive(&None, &m));
    assert!(pair_changed(&m, &None, &None, &None));
    let d = Some(vec![7u8; 32]);
    assert!(pair_changed(&m, &m, &d, &None));
}

#[test]
fn size_or_type_mismatch_is_decisive_whatever_the_content() {
    let a = meta(10, FileKind::Regular);
    let b = meta(11, FileKind::Regular);
    let c = meta(10, FileKind::Directory);
    assert!(metas_decisive(&a, &b));
    assert!(metas_decisive(&a, &c));
    // Equal digests cannot rescue a pair whose metadata already differs.
    let d = Some(vec![7u8; 32]);
    assert!(pair_changed(&a, &b, &d, &d));
    assert!(pair_changed(&a, &c, &d, &d));
}

#[test]
fn changed_files_keeps_input_order() {
    let files = vec![
        (String::from("/no/such/dir/kernel"), String::from("/no/such/other/kernel")),
        (String::from("/no/such/dir/initrd"), String::from("/no/such/other/initrd")),
        (String::from("/no/such/dir/extra"), String::from("/no/such/other/extra")),
    ];
    let metas = vec![
        // Size mismatch: decisive, no content consulted.
        (meta(10, FileKind::Regular), meta(20, FileKind::Regular)),
        // Metadata matches, but neither path exists: digesting fails, so the
        // pair is conservatively treated as changed.
        (meta(10, FileKind::Regular), meta(10, FileKind::Regular)),
        // Destination missing: decisive.
        (meta(10, FileKind::Regular), None),
    ];
    let r = changed_files(&files, &metas);
    assert_eq!(r, files);
}

#[test]
fn changed_files_on_empty_input_is_empty() {
    let r = changed_files(&vec![], &vec![]);
    assert!(r.is_empty());
}

#[test]
fn byte_identical_pair_is_excluded() {
    // Both sides are the same readable file, so sizes, types and content
    // digests agree: the pair must be filtered out.
    let files = vec![(String::from("/proc/version"), String::from("/proc/version"))];
    let metas = vec![(meta(0, FileKind::Regular), meta(0, FileKind::Regular))];
    let r = changed_files(&files, &metas);
    assert!(r.is_empty());
}
