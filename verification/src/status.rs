//! Classification of working-tree and index changes.

use vstd::prelude::*;

verus! {

/// Bit of a status word: the path is new in the index.
pub const INDEX_NEW: u32 = 0x0001;

/// Bit of a status word: the indexed content differs from the last commit.
pub const INDEX_MODIFIED: u32 = 0x0002;

/// Bit of a status word: the path was removed from the index.
pub const INDEX_DELETED: u32 = 0x0004;

/// Bit of a status word: the path was renamed in the index.
pub const INDEX_RENAMED: u32 = 0x0008;

/// Bit of a status word: the path is untracked in the working tree.
pub const WT_NEW: u32 = 0x0080;

/// Bit of a status word: the working-tree content differs from the index.
pub const WT_MODIFIED: u32 = 0x0100;

/// Bit of a status word: the path is missing from the working tree.
pub const WT_DELETED: u32 = 0x0200;

/// Bit of a status word: the path was renamed in the working tree.
pub const WT_RENAMED: u32 = 0x0800;

/// The kind of change reported for one path.
#[derive(Clone, Copy, Debug, PartialEq, Eq, Structural)]
pub enum ChangeKind {
    New,
    Modified,
    Deleted,
    Renamed,
    Unknown,
}

/// Whether a status word has at least one bit of `mask` set.
pub open spec fn any_set(bits: u32, mask: u32) -> bool {
    bits & mask != 0
}

/// The kind of a status word. A new path wins over a modified one, a modified
/// one over a deleted one, a deleted one over a renamed one; a word with none
/// of these bits is `Unknown`.
pub open spec fn kind_of(bits: u32) -> ChangeKind {
    if any_set(bits, INDEX_NEW | WT_NEW) {
        ChangeKind::New
    } else if any_set(bits, INDEX_MODIFIED | WT_MODIFIED) {
        ChangeKind::Modified
    } else if any_set(bits, INDEX_DELETED | WT_DELETED) {
        ChangeKind::Deleted
    } else if any_set(bits, INDEX_RENAMED | WT_RENAMED) {
        ChangeKind::Renamed
    } else {
        ChangeKind::Unknown
    }
}

/// Classifies one status word.
pub fn classify(bits: u32) -> (kind: ChangeKind)
    ensures
        kind == kind_of(bits),
{
    if bits & (INDEX_NEW | WT_NEW) != 0 {
        ChangeKind::New
    } else if bits & (INDEX_MODIFIED | WT_MODIFIED) != 0 {
        ChangeKind::Modified
    } else if bits & (INDEX_DELETED | WT_DELETED) != 0 {
        ChangeKind::Deleted
    } else if bits & (INDEX_RENAMED | WT_RENAMED) != 0 {
        ChangeKind::Renamed
    } else {
        ChangeKind::Unknown
    }
}

impl ChangeKind {
    /// The label under which a kind is reported.
    pub open spec fn label_text(self) -> Seq<char> {
        match self {
            ChangeKind::New => "New"@,
            ChangeKind::Modified => "Modified"@,
            ChangeKind::Deleted => "Deleted"@,
            ChangeKind::Renamed => "Renamed"@,
            ChangeKind::Unknown => "Unknown"@,
        }
    }

    /// Returns the label under which the kind is reported.
    pub fn label(self) -> (text: String)
        ensures
            text@ == self.label_text(),
    {
        match self {
            ChangeKind::New => "New".to_string(),
            ChangeKind::Modified => "Modified".to_string(),
            ChangeKind::Deleted => "Deleted".to_string(),
            ChangeKind::Renamed => "Renamed".to_string(),
            ChangeKind::Unknown => "Unknown".to_string(),
        }
    }
}

/// One path as the repository engine reports it: the path, absent where it is
/// not valid text, and its status word.
pub struct StatusEntry {
    pub path: Option<String>,
    pub bits: u32,
}

/// One changed path and the label of its change.
#[derive(Debug)]
pub struct FileStatus {
    pub path: String,
    pub status: String,
}

/// The path that is reported for an entry: its own, or the empty text.
pub open spec fn reported_path(entry: StatusEntry) -> Seq<char> {
    match entry.path {
        Some(p) => p@,
        None => Seq::<char>::empty(),
    }
}

/// Whether `out` reports `entries` one for one and in order.
pub open spec fn reports(out: Seq<FileStatus>, entries: Seq<StatusEntry>) -> bool {
    &&& out.len() == entries.len()
    &&& forall|i: int|
        0 <= i < entries.len() ==> {
            &&& (#[trigger] out[i]).path@ == reported_path(entries[i])
            &&& out[i].status@ == kind_of(entries[i].bits).label_text()
        }
}

/// Builds the list of changed paths from the engine's entries.
pub fn file_statuses(entries: &Vec<StatusEntry>) -> (out: Vec<FileStatus>)
    ensures
        reports(out@, entries@),
{
    let mut out: Vec<FileStatus> = Vec::new();
    let mut i: usize = 0;
    while i < entries.len()
        invariant
            i <= entries.len(),
            reports(out@, entries@.take(i as int)),
        decreases entries.len() - i,
    {
        let entry = &entries[i];
        let path = match &entry.path {
            Some(p) => p.clone(),
            None => String::new(),
        };
        let status = classify(entry.bits).label();
        out.push(FileStatus { path, status });
        i += 1;
    }
    assert(entries@.take(i as int) =~= entries@);
    out
}

/// What a status query or a fetch reports: the changed paths, and by how
/// many commits the branch is ahead of and behind its upstream.
#[derive(Debug)]
pub struct SyncReport {
    pub files: Vec<FileStatus>,
    pub commits_ahead: usize,
    pub commits_behind: usize,
}

/// The commits ahead and behind that are reported: those counted against the
/// upstream, and none where the branch has no upstream.
pub open spec fn counted(divergence: Option<(usize, usize)>) -> (usize, usize) {
    match divergence {
        Some(counts) => counts,
        None => (0, 0),
    }
}

/// Returns the commits ahead and behind that are reported.
pub fn ahead_behind(divergence: Option<(usize, usize)>) -> (counts: (usize, usize))
    ensures
        counts == counted(divergence),
        divergence is None ==> counts == (0usize, 0usize),
{
    match divergence {
        Some(counts) => counts,
        None => (0, 0),
    }
}

/// Builds the report from the engine's entries and, where the branch has an
/// upstream, the commits counted against it.
pub fn sync_report(entries: &Vec<StatusEntry>, divergence: Option<(usize, usize)>) -> (report:
    SyncReport)
    ensures
        reports(report.files@, entries@),
        (report.commits_ahead, report.commits_behind) == counted(divergence),
        entries@.len() == 0 ==> report.files@.len() == 0,
{
    let counts = ahead_behind(divergence);
    SyncReport { files: file_statuses(entries), commits_ahead: counts.0, commits_behind: counts.1 }
}

} // verus!
