use turbocommit::binary::is_binary_content;
use turbocommit::errors::ResolutionError;
use turbocommit::graph::{resolve_revision, validate_revision_id, Commit, CommitGraph};
use turbocommit::ids::{ChangeId, CommitId};

fn commit_id(first: u8, second: u8) -> CommitId {
    let mut bytes = vec![0u8; 20];
    bytes[0] = first;
    bytes[1] = second;
    CommitId::from_bytes(bytes)
}

fn change_id(first: u8) -> ChangeId {
    let mut bytes = vec![0u8; 16];
    bytes[0] = first;
    ChangeId::from_bytes(bytes)
}

fn commit(id: CommitId, cid: ChangeId, parents: Vec<CommitId>) -> Commit {
    Commit {
        id,
        change_id: cid,
        parent_ids: parents,
        tree: 0,
        parent_tree: 0,
        description: String::new(),
    }
}

fn two_commit_graph() -> CommitGraph {
    // ids aa00... and ab00...: hex displays share "a" and diverge at the
    // second character
    let c1 = commit(commit_id(0xaa, 0), change_id(0x10), vec![]);
    let c2 = commit(commit_id(0xab, 0), change_id(0x20), vec![]);
    let heads = vec![commit_id(0xaa, 0), commit_id(0xab, 0)];
    CommitGraph { commits: vec![c1, c2], heads }
}

#[test]
fn test_is_binary_content_detects_null_bytes() {
    // Binary content with null byte
    let binary_content = vec![0x89, 0x50, 0x4E, 0x47, 0x00, 0x0D, 0x0A, 0x1A];
    assert!(is_binary_content(&binary_content));
}

#[test]
fn test_is_binary_content_allows_text() {
    // Plain text content
    let text_content = b"Hello, world!\nThis is a text file.\n";
    assert!(!is_binary_content(text_content));
}

#[test]
fn test_is_binary_content_empty() {
    // Empty content should not be considered binary
    let empty_content: Vec<u8> = vec![];
    assert!(!is_binary_content(&empty_content));
}

#[test]
fn test_is_binary_content_utf8_text() {
    // UTF-8 text content with unicode characters
    let utf8_content = "Hello, 世界! 🌍 Unicode text.".as_bytes();
    assert!(!is_binary_content(utf8_content));
}

#[test]
fn test_is_binary_content_null_in_middle() {
    // Null byte in the middle of content
    let mixed_content = vec![0x48, 0x65, 0x6C, 0x6C, 0x6F, 0x00, 0x57, 0x6F, 0x72, 0x6C, 0x64];
    assert!(is_binary_content(&mixed_content));
}

#[test]
fn test_is_binary_content_only_checks_first_8000_bytes() {
    // Create content with null byte at position 8001 (should not be detected)
    let mut content = vec![0x41u8; 8001]; // 'A' repeated
    content[8000] = 0x00; // null byte after first 8000 bytes
    assert!(!is_binary_content(&content));

    // Create content with null byte at position 7999 (should be detected)
    let mut content2 = vec![0x41u8; 8000]; // 'A' repeated
    content2[7999] = 0x00; // null byte within first 8000 bytes
    assert!(is_binary_content(&content2));
}

#[test]
fn validate_accepts_plain_revision_names() {
    assert!(validate_revision_id("abc123").is_ok());
    assert!(validate_revision_id("feature-1_2.3:x").is_ok());
}

#[test]
fn validate_rejects_empty_and_special_characters() {
    assert!(matches!(
        validate_revision_id(""),
        Err(ResolutionError::InvalidSyntax)
    ));
    assert!(matches!(
        validate_revision_id("a|b"),
        Err(ResolutionError::InvalidSyntax)
    ));
    assert!(matches!(
        validate_revision_id("a b"),
        Err(ResolutionError::InvalidSyntax)
    ));
    assert!(matches!(
        validate_revision_id("$(x)"),
        Err(ResolutionError::InvalidSyntax)
    ));
}

#[test]
fn resolve_full_hex_fast_path_skips_existence_check() {
    // A syntactically valid full commit id that exists nowhere still
    // resolves on the fast path.
    let graph = two_commit_graph();
    let query = "ff00000000000000000000000000000000000000";
    let resolved = resolve_revision(&graph, query).unwrap();
    assert_eq!(resolved.hex(), query);
    // Only the later lookup notices that no such commit exists.
    assert!(turbocommit::graph::find_index(&graph.commits, &resolved).is_none());
}

#[test]
fn resolve_full_hex_accepts_uppercase() {
    let graph = two_commit_graph();
    let resolved = resolve_revision(&graph, "FF00000000000000000000000000000000000000").unwrap();
    assert_eq!(resolved.hex(), "ff00000000000000000000000000000000000000");
}

#[test]
fn resolve_shared_prefix_is_ambiguous() {
    let graph = two_commit_graph();
    assert!(matches!(
        resolve_revision(&graph, "a"),
        Err(ResolutionError::Ambiguous)
    ));
}

#[test]
fn resolve_unique_prefix_finds_each_commit() {
    let graph = two_commit_graph();
    let r1 = resolve_revision(&graph, "aa").unwrap();
    assert_eq!(r1.hex(), "aa00000000000000000000000000000000000000");
    let r2 = resolve_revision(&graph, "ab").unwrap();
    assert_eq!(r2.hex(), "ab00000000000000000000000000000000000000");
}

#[test]
fn resolve_prefix_is_case_insensitive() {
    let graph = two_commit_graph();
    let r1 = resolve_revision(&graph, "AA").unwrap();
    assert_eq!(r1.hex(), "aa00000000000000000000000000000000000000");
}

#[test]
fn resolve_unknown_prefix_is_not_found() {
    let graph = two_commit_graph();
    assert!(matches!(
        resolve_revision(&graph, "ff"),
        Err(ResolutionError::NotFound)
    ));
}

#[test]
fn resolve_matches_change_id_display() {
    // change id 0x10... displays as "yz" + "z" * 30 in the reversed
    // alphabet; its unique prefix resolves the commit
    let graph = two_commit_graph();
    let r = resolve_revision(&graph, "yz").unwrap();
    assert_eq!(r.hex(), "aa00000000000000000000000000000000000000");
}

#[test]
fn resolve_walks_parent_edges() {
    // head -> parent; the parent is only reachable through the edge
    let parent = commit(commit_id(0xcc, 0), change_id(0x30), vec![]);
    let head = commit(
        commit_id(0xdd, 0),
        change_id(0x40),
        vec![commit_id(0xcc, 0)],
    );
    let graph = CommitGraph {
        commits: vec![head, parent],
        heads: vec![commit_id(0xdd, 0)],
    };
    let r = resolve_revision(&graph, "cc").unwrap();
    assert_eq!(r.hex(), "cc00000000000000000000000000000000000000");
}

#[test]
fn resolve_ignores_unreachable_commits() {
    // 0xcc exists but no head reaches it
    let stray = commit(commit_id(0xcc, 0), change_id(0x30), vec![]);
    let head = commit(commit_id(0xdd, 0), change_id(0x40), vec![]);
    let graph = CommitGraph {
        commits: vec![head, stray],
        heads: vec![commit_id(0xdd, 0)],
    };
    assert!(matches!(
        resolve_revision(&graph, "cc"),
        Err(ResolutionError::NotFound)
    ));
}

#[test]
fn try_from_hex_requires_full_length() {
    assert!(CommitId::try_from_hex("aa00000000000000000000000000000000000000").is_some());
    assert!(CommitId::try_from_hex("aa0000000000000000000000000000000000000").is_none());
    assert!(CommitId::try_from_hex("zz00000000000000000000000000000000000000").is_none());
    assert!(CommitId::try_from_hex("").is_none());
}

#[test]
fn change_id_reverse_hex_uses_zk_alphabet() {
    let cid = ChangeId::from_bytes(vec![0x00, 0x1f]);
    // nibbles 0,0,1,15 map to z,z,y,k
    assert_eq!(cid.reverse_hex(), "zzyk");
}

#[test]
fn short_even_length_hex_goes_through_the_prefix_search() {
    // "aa00" is valid even-length hex but not a full id, so it resolves by
    // prefix search, not by the fast path
    let graph = two_commit_graph();
    let r = resolve_revision(&graph, "aa00").unwrap();
    assert_eq!(r.hex(), "aa00000000000000000000000000000000000000");
}
