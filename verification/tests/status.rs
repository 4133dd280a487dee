use webwiki::git::{begin_commit, CommitRequest};
use webwiki::status::{
    ahead_behind, classify, file_statuses, sync_report, ChangeKind, StatusEntry, INDEX_DELETED,
    INDEX_MODIFIED, INDEX_NEW, INDEX_RENAMED, WT_DELETED, WT_MODIFIED, WT_NEW, WT_RENAMED,
};
use webwiki::sync::{advance, Call, Directive, Reply, Workflow};

fn entry(path: &str, bits: u32) -> StatusEntry {
    StatusEntry { path: Some(path.to_string()), bits }
}

#[test]
fn status_bits_have_the_engine_values() {
    assert_eq!(INDEX_NEW, git2::Status::INDEX_NEW.bits());
    assert_eq!(INDEX_MODIFIED, git2::Status::INDEX_MODIFIED.bits());
    assert_eq!(INDEX_DELETED, git2::Status::INDEX_DELETED.bits());
    assert_eq!(INDEX_RENAMED, git2::Status::INDEX_RENAMED.bits());
    assert_eq!(WT_NEW, git2::Status::WT_NEW.bits());
    assert_eq!(WT_MODIFIED, git2::Status::WT_MODIFIED.bits());
    assert_eq!(WT_DELETED, git2::Status::WT_DELETED.bits());
    assert_eq!(WT_RENAMED, git2::Status::WT_RENAMED.bits());
}

#[test]
fn classify_single_bits() {
    assert_eq!(classify(INDEX_NEW), ChangeKind::New);
    assert_eq!(classify(WT_NEW), ChangeKind::New);
    assert_eq!(classify(INDEX_MODIFIED), ChangeKind::Modified);
    assert_eq!(classify(WT_MODIFIED), ChangeKind::Modified);
    assert_eq!(classify(INDEX_DELETED), ChangeKind::Deleted);
    assert_eq!(classify(WT_DELETED), ChangeKind::Deleted);
    assert_eq!(classify(INDEX_RENAMED), ChangeKind::Renamed);
    assert_eq!(classify(WT_RENAMED), ChangeKind::Renamed);
}

#[test]
fn classify_prefers_new_then_modified_then_deleted_then_renamed() {
    assert_eq!(classify(WT_NEW | WT_MODIFIED | WT_DELETED | WT_RENAMED), ChangeKind::New);
    assert_eq!(classify(INDEX_NEW | WT_MODIFIED), ChangeKind::New);
    assert_eq!(classify(INDEX_MODIFIED | WT_DELETED | INDEX_RENAMED), ChangeKind::Modified);
    assert_eq!(classify(WT_DELETED | INDEX_RENAMED), ChangeKind::Deleted);
    assert_eq!(classify(INDEX_DELETED | WT_RENAMED), ChangeKind::Deleted);
}

#[test]
fn classify_without_a_known_bit_is_unknown() {
    assert_eq!(classify(0), ChangeKind::Unknown);
    assert_eq!(classify(git2::Status::IGNORED.bits()), ChangeKind::Unknown);
    assert_eq!(classify(git2::Status::CONFLICTED.bits()), ChangeKind::Unknown);
    assert_eq!(classify(git2::Status::INDEX_TYPECHANGE.bits()), ChangeKind::Unknown);
    assert_eq!(classify(git2::Status::WT_TYPECHANGE.bits()), ChangeKind::Unknown);
}

#[test]
fn labels_are_the_reported_words() {
    assert_eq!(ChangeKind::New.label(), "New");
    assert_eq!(ChangeKind::Modified.label(), "Modified");
    assert_eq!(ChangeKind::Deleted.label(), "Deleted");
    assert_eq!(ChangeKind::Renamed.label(), "Renamed");
    assert_eq!(ChangeKind::Unknown.label(), "Unknown");
}

#[test]
fn file_statuses_keep_order_and_replace_missing_paths() {
    let entries = vec![
        entry("b.md", WT_MODIFIED),
        StatusEntry { path: None, bits: WT_DELETED },
        entry("a.md", INDEX_RENAMED),
    ];
    let out = file_statuses(&entries);
    assert_eq!(out.len(), 3);
    assert_eq!((out[0].path.as_str(), out[0].status.as_str()), ("b.md", "Modified"));
    assert_eq!((out[1].path.as_str(), out[1].status.as_str()), ("", "Deleted"));
    assert_eq!((out[2].path.as_str(), out[2].status.as_str()), ("a.md", "Renamed"));
}

#[test]
fn ahead_behind_is_zero_without_upstream() {
    assert_eq!(ahead_behind(None), (0, 0));
    let report = sync_report(&vec![entry("x.md", WT_NEW)], None);
    assert_eq!(report.commits_ahead, 0);
    assert_eq!(report.commits_behind, 0);
    assert_eq!(report.files.len(), 1);
}

#[test]
fn ahead_behind_reports_what_was_counted() {
    assert_eq!(ahead_behind(Some((3, 2))), (3, 2));
    for n in 0..5usize {
        let report = sync_report(&Vec::new(), Some((n, 0)));
        assert_eq!(report.commits_ahead, n);
        assert_eq!(report.commits_behind, 0);
    }
}

#[test]
fn one_local_commit_beyond_upstream_is_one_ahead() {
    let report = sync_report(&Vec::new(), Some((1, 0)));
    assert_eq!(report.commits_ahead, 1);
    assert_eq!(report.commits_behind, 0);
    assert!(report.files.is_empty());
}

#[test]
fn test_git_status_and_commit() {
    // A fresh repository with one untracked file.
    let statuses = file_statuses(&vec![entry("test.md", WT_NEW)]);
    assert!(!statuses.is_empty());
    assert_eq!(statuses[0].path, "test.md");
    assert_eq!(statuses[0].status, "New");

    // Commit it.
    let commit_req = CommitRequest {
        message: "First commit".to_string(),
        files: vec!["test.md".to_string()],
        author_name: "Tester".to_string(),
        author_email: "tester@example.com".to_string(),
    };
    let mut step = begin_commit(&commit_req);
    let mut calls = Vec::new();
    while let Directive::Perform(call) = step {
        calls.push(call);
        let reply = match call {
            // The repository has no commit yet.
            Call::ReadHead => Reply::Head(false),
            _ => Reply::Done,
        };
        step = advance(Workflow::Commit, call, reply);
    }
    assert_eq!(step, Directive::Succeed);
    assert_eq!(
        calls,
        vec![
            Call::OpenRepository,
            Call::StagePaths,
            Call::WriteIndex,
            Call::WriteTree,
            Call::MakeSignature,
            Call::ReadHead,
            Call::CreateCommit { root: true },
        ]
    );

    // Nothing is left to report.
    let statuses = file_statuses(&Vec::new());
    assert!(statuses.is_empty());
}
