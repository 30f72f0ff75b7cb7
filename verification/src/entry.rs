//! Rendering one diff row into unified-diff text: the six-case dispatch
//! over the row's before/after values, with binary contents short-circuited
//! to a sentinel line and unresolved or unchanged values producing nothing.

use vstd::prelude::*;
use vstd::string::StringExecFns;
use crate::binary::is_binary_content;
use crate::binary::spec_is_binary;
use crate::diff::DiffEntry;
use crate::errors::DiffError;
use crate::format::addition_text;
use crate::format::deletion_text;
use crate::format::format_addition;
use crate::format::format_deletion;
use crate::format::format_unified_diff;
use crate::format::unified_text;
use crate::tree::ContentStore;
use crate::tree::TreeValueView;
use crate::tree::assoc_lookup;

verus! {

/// The `diff --git` header line for a path.
pub open spec fn diff_git_line(p: Seq<char>) -> Seq<char> {
    "diff --git a/"@ + p + " b/"@ + p + "\n"@
}

/// The `--- a/<path>` line.
pub open spec fn minus_path_line(p: Seq<char>) -> Seq<char> {
    "--- a/"@ + p + "\n"@
}

/// The `+++ b/<path>` line.
pub open spec fn plus_path_line(p: Seq<char>) -> Seq<char> {
    "+++ b/"@ + p + "\n"@
}

/// The text for a deleted file: a binary sentinel, or header lines plus an
/// all-removed hunk.
pub open spec fn deleted_file_text(p: Seq<char>, content: Seq<u8>) -> Seq<char> {
    if spec_is_binary(content) {
        "Binary file "@ + p + " deleted\n"@
    } else {
        diff_git_line(p) + "deleted file mode 100644\n"@ + minus_path_line(p)
            + "+++ /dev/null\n"@ + deletion_text(content)
    }
}

/// The text for an added file: a binary sentinel, or header lines plus an
/// all-added hunk.
pub open spec fn added_file_text(p: Seq<char>, content: Seq<u8>) -> Seq<char> {
    if spec_is_binary(content) {
        "Binary file "@ + p + " added\n"@
    } else {
        diff_git_line(p) + "new file mode 100644\n"@ + "--- /dev/null\n"@ + plus_path_line(p)
            + addition_text(content)
    }
}

/// The `old mode`/`new mode` pair emitted when the executable bit changes.
pub open spec fn mode_lines(source_exec: bool, target_exec: bool) -> Seq<char> {
    if source_exec == target_exec {
        Seq::empty()
    } else if target_exec {
        "old mode 100644\nnew mode 100755\n"@
    } else {
        "old mode 100755\nnew mode 100644\n"@
    }
}

/// The text for a modified file: a binary sentinel when either side is
/// binary, else headers, mode lines when the bit flipped, and the line diff.
pub open spec fn modified_file_text(
    p: Seq<char>,
    source_exec: bool,
    target_exec: bool,
    source: Seq<u8>,
    target: Seq<u8>,
) -> Seq<char> {
    if spec_is_binary(source) || spec_is_binary(target) {
        "Binary file "@ + p + " modified\n"@
    } else {
        diff_git_line(p) + mode_lines(source_exec, target_exec) + minus_path_line(p)
            + plus_path_line(p) + unified_text(source, target)
    }
}

/// The text for a retargeted symlink: one synthetic single-line hunk.
pub open spec fn symlink_text(p: Seq<char>, source_target: Seq<char>, target_target: Seq<char>)
    -> Seq<char> {
    diff_git_line(p) + minus_path_line(p) + plus_path_line(p) + "@@ -1 +1 @@\n"@ + "-"@
        + source_target + "\n"@ + "+"@ + target_target + "\n"@
}

/// The text for a path whose value changed kind (file to symlink or back).
pub open spec fn type_changed_text(p: Seq<char>) -> Seq<char> {
    diff_git_line(p) + minus_path_line(p) + plus_path_line(p) + "File type changed\n"@
}

/// The text a diff row renders to, or `None` when a needed content id is
/// missing from the store. Checked in precedence order: deletion, addition,
/// file modification (content or executable bit), symlink retarget, type
/// change; anything else - unchanged values, unresolved values, symlink
/// additions and deletions - renders as nothing.
pub open spec fn spec_format_entry(
    p: Seq<char>,
    before: TreeValueView,
    after: TreeValueView,
    files: Seq<(Seq<u8>, Seq<u8>)>,
    symlinks: Seq<(Seq<u8>, Seq<char>)>,
) -> Option<Seq<char>> {
    match (before, after) {
        (TreeValueView::File { id: sid, executable: se }, TreeValueView::Absent) => match
            assoc_lookup(files, sid) {
            Some(content) => Some(deleted_file_text(p, content)),
            None => None,
        },
        (TreeValueView::Absent, TreeValueView::File { id: tid, executable: te }) => match
            assoc_lookup(files, tid) {
            Some(content) => Some(added_file_text(p, content)),
            None => None,
        },
        (
            TreeValueView::File { id: sid, executable: se },
            TreeValueView::File { id: tid, executable: te },
        ) => {
            if sid != tid || se != te {
                match assoc_lookup(files, sid) {
                    Some(source) => match assoc_lookup(files, tid) {
                        Some(target) => Some(modified_file_text(p, se, te, source, target)),
                        None => None,
                    },
                    None => None,
                }
            } else {
                Some(Seq::empty())
            }
        },
        (TreeValueView::Symlink { id: sid }, TreeValueView::Symlink { id: tid }) => {
            if sid != tid {
                match assoc_lookup(symlinks, sid) {
                    Some(source) => match assoc_lookup(symlinks, tid) {
                        Some(target) => Some(symlink_text(p, source, target)),
                        None => None,
                    },
                    None => None,
                }
            } else {
                Some(Seq::empty())
            }
        },
        (TreeValueView::File { .. }, TreeValueView::Symlink { .. }) => Some(type_changed_text(p)),
        (TreeValueView::Symlink { .. }, TreeValueView::File { .. }) => Some(type_changed_text(p)),
        _ => Some(Seq::empty()),
    }
}

/// Appends `diff --git a/<p> b/<p>`.
fn push_diff_git_line(out: &mut String, p: &String)
    ensures
        final(out)@ == old(out)@ + diff_git_line(p@),
{
    out.append("diff --git a/");
    out.append(p.as_str());
    out.append(" b/");
    out.append(p.as_str());
    out.append("\n");
    proof {
        assert(out@ =~= old(out)@ + diff_git_line(p@));
    }
}

/// Appends `--- a/<p>`.
fn push_minus_path_line(out: &mut String, p: &String)
    ensures
        final(out)@ == old(out)@ + minus_path_line(p@),
{
    out.append("--- a/");
    out.append(p.as_str());
    out.append("\n");
    proof {
        assert(out@ =~= old(out)@ + minus_path_line(p@));
    }
}

/// Appends `+++ b/<p>`.
fn push_plus_path_line(out: &mut String, p: &String)
    ensures
        final(out)@ == old(out)@ + plus_path_line(p@),
{
    out.append("+++ b/");
    out.append(p.as_str());
    out.append("\n");
    proof {
        assert(out@ =~= old(out)@ + plus_path_line(p@));
    }
}

/// Appends `Binary file <p><verb>`, where `verb` carries its own leading
/// space and trailing newline.
fn push_binary_line(out: &mut String, p: &String, verb: &str)
    ensures
        final(out)@ == old(out)@ + "Binary file "@ + p@ + verb@,
{
    out.append("Binary file ");
    out.append(p.as_str());
    out.append(verb);
    proof {
        assert(out@ =~= old(out)@ + "Binary file "@ + p@ + verb@);
    }
}

/// Renders one diff row against the content store; fails with
/// `ContentUnavailable` exactly when a content id the row needs is not in
/// the store.
#[verifier::rlimit(100)]
pub fn format_entry(entry: &DiffEntry, store: &ContentStore) -> (r: Result<String, DiffError>)
    ensures
        match spec_format_entry(
            entry.path@,
            entry.before@,
            entry.after@,
            store.files_view(),
            store.symlinks_view(),
        ) {
            Some(text) => r matches Ok(s) && s@ == text,
            None => r == Result::<String, DiffError>::Err(DiffError::ContentUnavailable),
        },
{
    let p = &entry.path;
    match (&entry.before, &entry.after) {
        (crate::tree::TreeValue::File { id: sid, .. }, crate::tree::TreeValue::Absent) => {
            let content = match store.read_file(sid) {
                Some(c) => c,
                None => {
                    return Err(DiffError::ContentUnavailable);
                },
            };
            let mut out = String::new();
            if is_binary_content(content.as_slice()) {
                push_binary_line(&mut out, p, " deleted\n");
                proof {
                    assert(out@ =~= deleted_file_text(p@, content@));
                }
            } else {
                push_diff_git_line(&mut out, p);
                out.append("deleted file mode 100644\n");
                push_minus_path_line(&mut out, p);
                out.append("+++ /dev/null\n");
                let hunk = format_deletion(content.as_slice());
                out.append(hunk.as_str());
                proof {
                    assert(out@ =~= deleted_file_text(p@, content@));
                }
            }
            Ok(out)
        },
        (crate::tree::TreeValue::Absent, crate::tree::TreeValue::File { id: tid, .. }) => {
            let content = match store.read_file(tid) {
                Some(c) => c,
                None => {
                    return Err(DiffError::ContentUnavailable);
                },
            };
            let mut out = String::new();
            if is_binary_content(content.as_slice()) {
                push_binary_line(&mut out, p, " added\n");
                proof {
                    assert(out@ =~= added_file_text(p@, content@));
                }
            } else {
                push_diff_git_line(&mut out, p);
                out.append("new file mode 100644\n");
                out.append("--- /dev/null\n");
                push_plus_path_line(&mut out, p);
                let hunk = format_addition(content.as_slice());
                out.append(hunk.as_str());
                proof {
                    assert(out@ =~= added_file_text(p@, content@));
                }
            }
            Ok(out)
        },
        (
            crate::tree::TreeValue::File { id: sid, executable: se },
            crate::tree::TreeValue::File { id: tid, executable: te },
        ) => {
            if !sid.same_as(tid) || *se != *te {
                let source = match store.read_file(sid) {
                    Some(c) => c,
                    None => {
                        return Err(DiffError::ContentUnavailable);
                    },
                };
                let target = match store.read_file(tid) {
                    Some(c) => c,
                    None => {
                        return Err(DiffError::ContentUnavailable);
                    },
                };
                let mut out = String::new();
                if is_binary_content(source.as_slice()) || is_binary_content(target.as_slice()) {
                    push_binary_line(&mut out, p, " modified\n");
                    proof {
                        assert(out@ =~= modified_file_text(p@, *se, *te, source@, target@));
                    }
                } else {
                    push_diff_git_line(&mut out, p);
                    if *se != *te {
                        if *te {
                            out.append("old mode 100644\nnew mode 100755\n");
                        } else {
                            out.append("old mode 100755\nnew mode 100644\n");
                        }
                    }
                    push_minus_path_line(&mut out, p);
                    push_plus_path_line(&mut out, p);
                    let hunks = format_unified_diff(source.as_slice(), target.as_slice());
                    out.append(hunks.as_str());
                    proof {
                        assert(out@ =~= modified_file_text(p@, *se, *te, source@, target@));
                    }
                }
                Ok(out)
            } else {
                let out = String::new();
                Ok(out)
            }
        },
        (
            crate::tree::TreeValue::Symlink { id: sid },
            crate::tree::TreeValue::Symlink { id: tid },
        ) => {
            if !sid.same_as(tid) {
                let source = match store.read_symlink(sid) {
                    Some(t) => t,
                    None => {
                        return Err(DiffError::ContentUnavailable);
                    },
                };
                let target = match store.read_symlink(tid) {
                    Some(t) => t,
                    None => {
                        return Err(DiffError::ContentUnavailable);
                    },
                };
                let mut out = String::new();
                push_diff_git_line(&mut out, p);
                push_minus_path_line(&mut out, p);
                push_plus_path_line(&mut out, p);
                out.append("@@ -1 +1 @@\n");
                out.append("-");
                out.append(source.as_str());
                out.append("\n");
                out.append("+");
                out.append(target.as_str());
                out.append("\n");
                proof {
                    assert(out@ =~= symlink_text(p@, source@, target@));
                }
                Ok(out)
            } else {
                let out = String::new();
                Ok(out)
            }
        },
        (crate::tree::TreeValue::File { .. }, crate::tree::TreeValue::Symlink { .. }) => {
            let mut out = String::new();
            push_diff_git_line(&mut out, p);
            push_minus_path_line(&mut out, p);
            push_plus_path_line(&mut out, p);
            out.append("File type changed\n");
            proof {
                assert(out@ =~= type_changed_text(p@));
            }
            Ok(out)
        },
        (crate::tree::TreeValue::Symlink { .. }, crate::tree::TreeValue::File { .. }) => {
            let mut out = String::new();
            push_diff_git_line(&mut out, p);
            push_minus_path_line(&mut out, p);
            push_plus_path_line(&mut out, p);
            out.append("File type changed\n");
            proof {
                assert(out@ =~= type_changed_text(p@));
            }
            Ok(out)
        },
        _ => {
            let out = String::new();
            Ok(out)
        },
    }
}

} // verus!
