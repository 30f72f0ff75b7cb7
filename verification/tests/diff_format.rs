use turbocommit::diff::{diff_trees, list_changed_paths, DiffEntry};
use turbocommit::entry::format_entry;
use turbocommit::errors::DiffError;
use turbocommit::format::{format_addition, format_deletion, format_unified_diff};
use turbocommit::graph::{Commit, CommitGraph};
use turbocommit::ids::{ChangeId, CommitId, ContentId};
use turbocommit::repo::{
    diff_revision, get_description, get_modified_files, has_changes_for_revision,
    plan_signatures, RepoSnapshot,
};
use turbocommit::tree::{ContentStore, Tree, TreeEntry, TreeValue};

fn cid(tag: u8) -> ContentId {
    ContentId::from_bytes(vec![tag; 4])
}

fn file_value(tag: u8, executable: bool) -> TreeValue {
    TreeValue::File {
        id: cid(tag),
        executable,
    }
}

fn tree_of(entries: Vec<(&str, TreeValue)>) -> Tree {
    let entries = entries
        .into_iter()
        .map(|(p, v)| TreeEntry {
            path: p.to_string(),
            value: v,
        })
        .collect();
    Tree::from_entries(entries).unwrap()
}

fn snapshot_of(trees: Vec<Tree>, store: ContentStore) -> RepoSnapshot {
    let mut id_bytes = vec![0u8; 20];
    id_bytes[0] = 0xaa;
    let commit = Commit {
        id: CommitId::from_bytes(id_bytes.clone()),
        change_id: ChangeId::from_bytes(vec![0u8; 16]),
        parent_ids: vec![],
        tree: 1,
        parent_tree: 0,
        description: "initial work".to_string(),
    };
    RepoSnapshot {
        graph: CommitGraph {
            commits: vec![commit],
            heads: vec![CommitId::from_bytes(id_bytes.clone())],
        },
        trees,
        store,
        workspace_commit: Some(CommitId::from_bytes(id_bytes)),
    }
}

#[test]
fn diff_of_identical_trees_is_empty() {
    let t = tree_of(vec![("a.txt", file_value(1, false)), ("b.txt", file_value(2, false))]);
    let u = tree_of(vec![("a.txt", file_value(1, false)), ("b.txt", file_value(2, false))]);
    let rows = diff_trees(&t, &u, None);
    assert_eq!(rows.len(), 0);
}

#[test]
fn diff_reports_additions_deletions_and_modifications_sorted() {
    let before = tree_of(vec![
        ("a.txt", file_value(1, false)),
        ("b.txt", file_value(2, false)),
    ]);
    let after = tree_of(vec![
        ("b.txt", file_value(3, false)),
        ("c.txt", file_value(4, false)),
    ]);
    let rows = diff_trees(&before, &after, None);
    let paths: Vec<&str> = rows.iter().map(|r| r.path.as_str()).collect();
    assert_eq!(paths, vec!["a.txt", "b.txt", "c.txt"]);
    assert!(matches!(rows[0].after, TreeValue::Absent));
    assert!(matches!(rows[2].before, TreeValue::Absent));
}

#[test]
fn diff_filter_drops_paths_outside_the_selection() {
    let before = tree_of(vec![("a.txt", file_value(1, false))]);
    let after = tree_of(vec![
        ("a.txt", file_value(2, false)),
        ("b.txt", file_value(3, false)),
    ]);
    let filter = vec!["b.txt".to_string()];
    let rows = diff_trees(&before, &after, Some(&filter));
    assert_eq!(rows.len(), 1);
    assert_eq!(rows[0].path, "b.txt");
}

#[test]
fn list_changed_paths_is_sorted_and_complete() {
    let before = tree_of(vec![("m.txt", file_value(1, false))]);
    let after = tree_of(vec![
        ("a.txt", file_value(2, false)),
        ("m.txt", file_value(3, false)),
    ]);
    let paths = list_changed_paths(&before, &after);
    assert_eq!(paths, vec!["a.txt".to_string(), "m.txt".to_string()]);
}

#[test]
fn format_addition_renders_all_lines_added() {
    assert_eq!(format_addition(b"a\nb\n"), "@@ -0,0 +1,2 @@\n+a\n+b\n");
}

#[test]
fn format_deletion_renders_all_lines_removed() {
    assert_eq!(format_deletion(b"a\nb\n"), "@@ -1,2 +0,0 @@\n-a\n-b\n");
}

#[test]
fn unified_diff_of_identical_contents_is_empty() {
    assert_eq!(format_unified_diff(b"a\nb\n", b"a\nb\n"), "");
}

#[test]
fn unified_diff_reports_contiguous_mismatch_runs() {
    assert_eq!(
        format_unified_diff(b"a\nb\n", b"a\nc\n"),
        "@@ -2,1 +2,1 @@\n-b\n+c\n"
    );
}

#[test]
fn unified_diff_shifted_lines_mismatch_at_their_old_indices() {
    // the contiguous-mismatch scan is not a minimal diff: an insertion at
    // the top re-reports every following line
    assert_eq!(
        format_unified_diff(b"a\nb\n", b"x\na\nb\n"),
        "@@ -1,3 +1,3 @@\n-a\n+x\n-b\n+a\n+b\n"
    );
}

#[test]
fn unified_diff_empty_lines_emit_no_signs() {
    // an empty before-line emits no '-' row at that index
    assert_eq!(format_unified_diff(b"\nx\n", b"y\nx\n"), "@@ -1,1 +1,1 @@\n+y\n");
}

#[test]
fn addition_and_deletion_renderings_mirror_each_other() {
    let empty = tree_of(vec![]);
    let full = tree_of(vec![("f", file_value(7, false))]);
    let mut store = ContentStore::new();
    store.add_file(cid(7), b"x\n".to_vec());

    let forward = diff_trees(&empty, &full, None);
    let mut forward_text = String::new();
    for row in &forward {
        forward_text.push_str(&format_entry(row, &store).unwrap());
    }
    let backward = diff_trees(&full, &empty, None);
    let mut backward_text = String::new();
    for row in &backward {
        backward_text.push_str(&format_entry(row, &store).unwrap());
    }
    assert_eq!(
        forward_text,
        "diff --git a/f b/f\nnew file mode 100644\n--- /dev/null\n+++ b/f\n@@ -0,0 +1,1 @@\n+x\n"
    );
    assert_eq!(
        backward_text,
        "diff --git a/f b/f\ndeleted file mode 100644\n--- a/f\n+++ /dev/null\n@@ -1,1 +0,0 @@\n-x\n"
    );
}

#[test]
fn root_commit_added_text_file_renders_exact_output() {
    // empty parent tree, one added text file "a\nb\n"
    let empty = Tree::empty();
    let full = tree_of(vec![("file", file_value(9, false))]);
    let mut store = ContentStore::new();
    store.add_file(cid(9), b"a\nb\n".to_vec());
    let snapshot = snapshot_of(vec![empty, full], store);
    let text = diff_revision(&snapshot, None, None).unwrap();
    assert_eq!(
        text,
        "diff --git a/file b/file\nnew file mode 100644\n--- /dev/null\n+++ b/file\n@@ -0,0 +1,2 @@\n+a\n+b\n"
    );
}

#[test]
fn executable_bit_flip_renders_mode_lines_and_no_hunks() {
    let before = tree_of(vec![("file", file_value(9, false))]);
    let after = tree_of(vec![("file", file_value(9, true))]);
    let mut store = ContentStore::new();
    store.add_file(cid(9), b"same\ncontent\n".to_vec());
    let snapshot = snapshot_of(vec![before, after], store);
    let text = diff_revision(&snapshot, None, None).unwrap();
    assert_eq!(
        text,
        "diff --git a/file b/file\nold mode 100644\nnew mode 100755\n--- a/file\n+++ b/file\n"
    );
}

#[test]
fn binary_file_modification_renders_only_the_sentinel() {
    let before = tree_of(vec![("file", file_value(1, false))]);
    let after = tree_of(vec![("file", file_value(2, false))]);
    let mut store = ContentStore::new();
    store.add_file(cid(1), b"ab\x00cd".to_vec());
    store.add_file(cid(2), b"ab\x00ce".to_vec());
    let snapshot = snapshot_of(vec![before, after], store);
    let text = diff_revision(&snapshot, None, None).unwrap();
    assert_eq!(text, "Binary file file modified\n");
}

#[test]
fn symlink_retarget_renders_single_synthetic_hunk() {
    let before = tree_of(vec![("link", TreeValue::Symlink { id: cid(1) })]);
    let after = tree_of(vec![("link", TreeValue::Symlink { id: cid(2) })]);
    let mut store = ContentStore::new();
    store.add_symlink(cid(1), "old/target".to_string());
    store.add_symlink(cid(2), "new/target".to_string());
    let snapshot = snapshot_of(vec![before, after], store);
    let text = diff_revision(&snapshot, None, None).unwrap();
    assert_eq!(
        text,
        "diff --git a/link b/link\n--- a/link\n+++ b/link\n@@ -1 +1 @@\n-old/target\n+new/target\n"
    );
}

#[test]
fn file_type_change_renders_the_literal_line() {
    let before = tree_of(vec![("p", file_value(1, false))]);
    let after = tree_of(vec![("p", TreeValue::Symlink { id: cid(2) })]);
    let store = ContentStore::new();
    let snapshot = snapshot_of(vec![before, after], store);
    let text = diff_revision(&snapshot, None, None).unwrap();
    assert_eq!(text, "diff --git a/p b/p\n--- a/p\n+++ b/p\nFile type changed\n");
}

#[test]
fn missing_content_fails_with_content_unavailable() {
    let before = Tree::empty();
    let after = tree_of(vec![("file", file_value(9, false))]);
    let store = ContentStore::new();
    let snapshot = snapshot_of(vec![before, after], store);
    assert!(matches!(
        diff_revision(&snapshot, None, None),
        Err(DiffError::ContentUnavailable)
    ));
}

#[test]
fn missing_workspace_commit_fails_with_no_working_copy() {
    let empty = Tree::empty();
    let store = ContentStore::new();
    let mut snapshot = snapshot_of(vec![empty, Tree::empty()], store);
    snapshot.workspace_commit = None;
    assert!(matches!(
        diff_revision(&snapshot, None, None),
        Err(DiffError::NoWorkingCopy)
    ));
}

#[test]
fn dangling_workspace_commit_fails_with_object_not_found() {
    let empty = Tree::empty();
    let store = ContentStore::new();
    let mut snapshot = snapshot_of(vec![empty, Tree::empty()], store);
    snapshot.workspace_commit = Some(CommitId::from_bytes(vec![0x11; 20]));
    assert!(matches!(
        diff_revision(&snapshot, None, None),
        Err(DiffError::ObjectNotFound)
    ));
}

#[test]
fn has_changes_compares_the_two_trees() {
    let same = snapshot_of(vec![Tree::empty(), Tree::empty()], ContentStore::new());
    assert_eq!(has_changes_for_revision(&same, None).unwrap(), false);

    let changed = snapshot_of(
        vec![Tree::empty(), tree_of(vec![("f", file_value(1, false))])],
        ContentStore::new(),
    );
    assert_eq!(has_changes_for_revision(&changed, None).unwrap(), true);
}

#[test]
fn description_is_none_only_when_empty() {
    let snapshot = snapshot_of(vec![Tree::empty(), Tree::empty()], ContentStore::new());
    assert_eq!(
        get_description(&snapshot, None).unwrap(),
        Some("initial work".to_string())
    );
    let mut blank = snapshot_of(vec![Tree::empty(), Tree::empty()], ContentStore::new());
    blank.graph.commits[0].description = String::new();
    assert_eq!(get_description(&blank, None).unwrap(), None);
}

#[test]
fn modified_files_lists_changed_paths_of_the_working_copy() {
    let snapshot = snapshot_of(
        vec![Tree::empty(), tree_of(vec![("f", file_value(1, false))])],
        ContentStore::new(),
    );
    assert_eq!(get_modified_files(&snapshot).unwrap(), vec!["f".to_string()]);
}

#[test]
fn unsorted_entries_are_refused() {
    let entries = vec![
        TreeEntry {
            path: "b".to_string(),
            value: file_value(1, false),
        },
        TreeEntry {
            path: "a".to_string(),
            value: file_value(2, false),
        },
    ];
    assert!(Tree::from_entries(entries).is_none());
}

#[test]
fn format_entry_skips_unchanged_and_unresolved_rows() {
    let store = ContentStore::new();
    let row = DiffEntry {
        path: "x".to_string(),
        before: TreeValue::Conflicted,
        after: TreeValue::Absent,
    };
    assert_eq!(format_entry(&row, &store).unwrap(), "");
}

#[test]
fn unified_diff_directions_share_hunk_headers_with_signs_inverted() {
    let forward = format_unified_diff(b"a\nb\n", b"a\nc\n");
    let backward = format_unified_diff(b"a\nc\n", b"a\nb\n");
    assert_eq!(forward, "@@ -2,1 +2,1 @@\n-b\n+c\n");
    assert_eq!(backward, "@@ -2,1 +2,1 @@\n-c\n+b\n");
}

#[test]
fn diff_revision_accepts_prefix_revisions() {
    let before = tree_of(vec![("f", file_value(1, false))]);
    let after = tree_of(vec![("f", file_value(2, false))]);
    let mut store = ContentStore::new();
    store.add_file(cid(1), b"old\n".to_vec());
    store.add_file(cid(2), b"new\n".to_vec());
    let snapshot = snapshot_of(vec![before, after], store);
    // the head commit's id starts with aa
    let text = diff_revision(&snapshot, Some("aa"), None).unwrap();
    assert!(text.starts_with("diff --git a/f b/f\n"));
    assert!(matches!(
        diff_revision(&snapshot, Some("zz9"), None),
        Err(DiffError::NotFound)
    ));
    assert!(matches!(
        diff_revision(&snapshot, Some("a|b"), None),
        Err(DiffError::InvalidSyntax)
    ));
}

#[test]
fn signature_fallback_follows_the_configured_identity() {
    // both sides complete: nothing substituted
    assert_eq!(
        plan_signatures("a", "a@x", "c", "c@x", "u", "u@x"),
        Some((false, false))
    );
    // an incomplete author falls back
    assert_eq!(
        plan_signatures("", "a@x", "c", "c@x", "u", "u@x"),
        Some((true, false))
    );
    assert_eq!(
        plan_signatures("a", "a@x", "c", "", "u", "u@x"),
        Some((false, true))
    );
    // a needed fallback without a configured identity is refused
    assert_eq!(plan_signatures("", "", "c", "c@x", "", "u@x"), None);
    // no fallback needed: the configured identity may be missing
    assert_eq!(
        plan_signatures("a", "a@x", "c", "c@x", "", ""),
        Some((false, false))
    );
}
