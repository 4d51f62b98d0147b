use mica::git::backend::{parse_branches, GitCliBackend, GitError};
use mica::git::diff::{parse_unified_diff, DiffLineKind, DiffTarget};
use mica::git::status::{parse_porcelain_v2, status_symbol, GitFileChange, GitFileKind};

#[test]
fn parses_hunks_and_line_numbers() {
    let raw = "diff --git a/a.rs b/a.rs\n--- a/a.rs\n+++ b/a.rs\n@@ -1,2 +1,3 @@ fn main\n old\n-removed\n+added\n+extra\n".to_owned();
    let diff = parse_unified_diff("a.rs".to_owned(), DiffTarget::WorkingTree, raw);
    assert_eq!(diff.hunks.len(), 1);
    let hunk = &diff.hunks[0];
    assert_eq!((hunk.old_start, hunk.new_start), (1, 1));
    assert_eq!(hunk.lines[1].old_line, Some(2));
    assert_eq!(hunk.lines[2].new_line, Some(2));
    assert!(hunk.patch.starts_with("diff --git"));
}

#[test]
fn identifies_binary_diff() {
    let diff = parse_unified_diff(
        "image.png".to_owned(),
        DiffTarget::WorkingTree,
        "Binary files a/image.png and b/image.png differ\n".to_owned(),
    );
    assert!(diff.binary);
    assert!(diff.hunks.is_empty());
}

#[test]
fn diff_lines_carry_kinds_and_heading() {
    let raw = "--- a/x\n+++ b/x\n@@ -3 +3,2 @@ head\n-a\n+b\n+c\n".to_owned();
    let diff = parse_unified_diff("x".to_owned(), DiffTarget::Staged, raw);
    assert!(!diff.binary);
    assert_eq!(diff.hunks.len(), 1);
    let hunk = &diff.hunks[0];
    assert_eq!((hunk.old_start, hunk.old_count, hunk.new_start, hunk.new_count), (3, 1, 3, 2));
    assert_eq!(hunk.lines[0].kind, DiffLineKind::Removed);
    assert_eq!(hunk.lines[1].kind, DiffLineKind::Added);
    assert_eq!(hunk.lines[2].new_line, Some(4));
}

#[test]
fn parses_branch_counts_and_mixed_file_states() {
    let input = b"# branch.head main\x00# branch.upstream origin/main\x00# branch.ab +2 -1\x001 M. N... 100644 100644 100644 aaa bbb staged.rs\x001 .M N... 100644 100644 100644 aaa aaa work.rs\x00? \xe6\x97\xa5\xe6\x9c\xac.rs\x00";
    let status = parse_porcelain_v2(input);
    assert_eq!(status.branch.as_deref(), Some("main"));
    assert_eq!((status.ahead, status.behind), (2, 1));
    assert_eq!(status.files.len(), 3);
    assert!(status.files.iter().any(|file| file.staged));
    assert!(status.files.iter().any(|file| file.untracked));
}

#[test]
fn status_files_come_sorted_by_path_components() {
    let input = b"? b.rs\x00? a-b.rs\x00? a/z.rs\x00";
    let status = parse_porcelain_v2(input);
    let paths: Vec<&str> = status.files.iter().map(|f| f.path.as_str()).collect();
    assert_eq!(paths, vec!["a/z.rs", "a-b.rs", "b.rs"]);
}

fn change(kind: GitFileKind, conflicted: bool, untracked: bool) -> GitFileChange {
    GitFileChange {
        path: "file.rs".to_owned(),
        original_path: None,
        kind,
        index_status: '.',
        worktree_status: '.',
        staged: false,
        unstaged: true,
        conflicted,
        untracked,
    }
}

#[test]
fn status_symbol_maps_each_kind() {
    assert_eq!(status_symbol(&change(GitFileKind::Added, false, false)), 'A');
    assert_eq!(status_symbol(&change(GitFileKind::Modified, false, false)), 'M');
    assert_eq!(status_symbol(&change(GitFileKind::Deleted, false, false)), 'D');
    assert_eq!(status_symbol(&change(GitFileKind::Renamed, false, false)), 'R');
    assert_eq!(status_symbol(&change(GitFileKind::Copied, false, false)), 'C');
    assert_eq!(status_symbol(&change(GitFileKind::TypeChanged, false, false)), 'T');
    assert_eq!(status_symbol(&change(GitFileKind::Untracked, false, true)), 'U');
}

#[test]
fn status_symbol_conflicted_overrides_kind() {
    assert_eq!(status_symbol(&change(GitFileKind::Added, true, false)), '!');
    assert_eq!(status_symbol(&change(GitFileKind::Unmerged, true, false)), '!');
}

#[test]
fn git_error_message_names_command_exit_and_detail() {
    let error = GitError {
        args: vec!["push".to_owned(), "origin".to_owned()],
        exit_code: Some(-1),
        stderr: "  rejected \n".to_owned(),
    };
    assert_eq!(error.message(), "git push origin failed (exit -1): rejected");
    let error = GitError { args: vec![], exit_code: None, stderr: String::new() };
    assert_eq!(error.message(), "git failed (could not start)");
}

#[test]
fn empty_commit_message_is_refused() {
    assert!(GitCliBackend::check_commit_message("  \n").is_err());
    assert!(GitCliBackend::check_commit_message("fix").is_ok());
}

#[test]
fn branch_list_is_parsed_and_ordered() {
    let out = b"zeta\0\0\0refs/heads/zeta\norigin/main\0\0\0refs/remotes/origin/main\nmain\0*\0origin/main\0refs/heads/main\nbroken\0*\n";
    let branches = parse_branches(out);
    assert_eq!(branches.len(), 3);
    assert_eq!(branches[0].name, "main");
    assert!(branches[0].current);
    assert!(!branches[0].remote);
    assert_eq!(branches[0].upstream.as_deref(), Some("origin/main"));
    assert_eq!(branches[1].name, "zeta");
    assert_eq!(branches[1].upstream, None);
    assert_eq!(branches[2].name, "origin/main");
    assert!(branches[2].remote);
}

#[test]
fn empty_commit_message_is_rejected_before_running_git() {
    let error = GitCliBackend::commit_invocation("  ").unwrap_err();
    assert!(error.stderr.contains("cannot be empty"));
    assert_eq!(
        error,
        GitError {
            args: vec!["commit".into()],
            exit_code: None,
            stderr: "commit message cannot be empty".into(),
        }
    );
    let run = GitCliBackend::commit_invocation("fix: 修正").unwrap();
    assert_eq!(run.args, vec!["commit".to_owned(), "-F".to_owned(), "-".to_owned()]);
    assert_eq!(run.input, Some("fix: 修正".as_bytes().to_vec()));
}
