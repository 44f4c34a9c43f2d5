use exif_mtime::tree::visit_files;
use exif_mtime::tree::visit_files_worklist;
use exif_mtime::tree::FsNode;

#[test]
fn a_single_file_is_visited_once() {
    let (files, diags) = visit_files(&FsNode::File(1));
    assert_eq!(files, vec![1]);
    assert_eq!(diags, Vec::<u64>::new());
}

#[test]
fn an_empty_directory_yields_nothing() {
    let (files, diags) = visit_files(&FsNode::Dir(Vec::new()));
    assert!(files.is_empty());
    assert!(diags.is_empty());
}

#[test]
fn an_unlistable_root_is_one_diagnostic() {
    let (files, diags) = visit_files(&FsNode::UnlistableDir(9));
    assert!(files.is_empty());
    assert_eq!(diags, vec![9]);
}

#[test]
fn every_file_in_a_nested_tree_is_visited_exactly_once() {
    let tree = FsNode::Dir(vec![
        FsNode::File(1),
        FsNode::Dir(vec![
            FsNode::File(2),
            FsNode::Dir(vec![FsNode::File(3)]),
            FsNode::Other(9),
        ]),
        FsNode::File(4),
    ]);
    let (files, diags) = visit_files(&tree);
    assert_eq!(files, vec![1, 2, 3, 4]);
    assert!(diags.is_empty());
}

#[test]
fn an_unlistable_directory_does_not_hide_its_siblings() {
    let tree = FsNode::Dir(vec![
        FsNode::Dir(vec![FsNode::File(1)]),
        FsNode::UnlistableDir(7),
        FsNode::Dir(vec![FsNode::File(2)]),
        FsNode::File(3),
    ]);
    let (files, diags) = visit_files(&tree);
    assert_eq!(files, vec![1, 2, 3]);
    assert_eq!(diags, vec![7]);
}

#[test]
fn nesting_depth_does_not_matter() {
    let mut tree = FsNode::File(42);
    for _ in 0..200 {
        tree = FsNode::Dir(vec![tree]);
    }
    let (files, diags) = visit_files(&tree);
    assert_eq!(files, vec![42]);
    assert!(diags.is_empty());
}

#[test]
fn two_files_with_the_same_label_are_both_visited() {
    let tree = FsNode::Dir(vec![FsNode::File(5), FsNode::Dir(vec![FsNode::File(5)])]);
    let (files, _) = visit_files(&tree);
    assert_eq!(files, vec![5, 5]);
}

#[test]
fn the_worklist_scan_visits_the_same_files_as_the_recursive_one() {
    let build = || {
        FsNode::Dir(vec![
            FsNode::File(1),
            FsNode::Dir(vec![
                FsNode::File(2),
                FsNode::Dir(vec![FsNode::File(3)]),
                FsNode::UnlistableDir(7),
            ]),
            FsNode::UnlistableDir(8),
            FsNode::File(4),
            FsNode::Other(9),
        ])
    };
    let (mut rec_files, mut rec_diags) = visit_files(&build());
    let (mut wl_files, mut wl_diags) = visit_files_worklist(build());
    rec_files.sort();
    rec_diags.sort();
    wl_files.sort();
    wl_diags.sort();
    assert_eq!(rec_files, wl_files);
    assert_eq!(rec_diags, wl_diags);
    assert_eq!(wl_files, vec![1, 2, 3, 4]);
    assert_eq!(wl_diags, vec![7, 8]);
}

#[test]
fn the_worklist_scan_handles_deep_nesting() {
    let mut tree = FsNode::File(42);
    for _ in 0..50_000 {
        tree = FsNode::Dir(vec![tree]);
    }
    let (files, diags) = visit_files_worklist(tree);
    assert_eq!(files, vec![42]);
    assert!(diags.is_empty());
}

#[test]
fn other_entries_are_passed_over_silently() {
    let tree = FsNode::Dir(vec![FsNode::Other(1), FsNode::Other(2)]);
    let (files, diags) = visit_files(&tree);
    assert!(files.is_empty());
    assert!(diags.is_empty());
}
