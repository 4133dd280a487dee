//! Requests, credentials and messages of the synchronisation workflows.

use crate::sync::{begin, first_step, Directive, SyncError, Workflow};
use crate::text::{chars_of, contains_text, find_from, occurs_at, same_text, trim_text, trimmed};
use crate::tree::texts;
use vstd::prelude::*;
use vstd::string::StringExecFns;

verus! {

/// User name and token for the remote.
pub struct Credential {
    pub username: String,
    pub token: String,
}

/// The user name under which the remote is addressed: the configured one,
/// else the one that the remote's address names, else `git`.
pub open spec fn chosen_username(configured: Option<&str>, in_address: Option<&str>) -> Seq<char> {
    match configured {
        Some(name) => name@,
        None => match in_address {
            Some(name) => name@,
            None => "git"@,
        },
    }
}

/// Makes the credentials for the remote from the process configuration.
/// Without a token there are none: the remote is never tried without.
pub fn resolve_credentials(
    token: Option<&str>,
    username: Option<&str>,
    in_address: Option<&str>,
) -> (found: Result<Credential, SyncError>)
    ensures
        match found {
            Ok(credential) => {
                &&& token matches Some(t)
                &&& credential.token@ == trimmed(t@)
                &&& credential.username@ == chosen_username(username, in_address)
            },
            Err(error) => token is None && error == SyncError::NoCredentials,
        },
{
    match token {
        None => Err(SyncError::NoCredentials),
        Some(t) => {
            let name = match username {
                Some(name) => name,
                None => match in_address {
                    Some(name) => name,
                    None => "git",
                },
            };
            Ok(Credential { username: name.to_owned(), token: trim_text(t) })
        },
    }
}

/// The reference pair that sends a branch to the branch of the same name.
pub open spec fn refspec_of(branch: Seq<char>) -> Seq<char> {
    "refs/heads/"@ + branch + ":refs/heads/"@ + branch
}

/// Makes the reference pair for a push of `branch`.
pub fn push_refspec(branch: &str) -> (refspec: String)
    ensures
        refspec@ == refspec_of(branch@),
{
    let mut refspec = String::from_str("refs/heads/");
    refspec.append(branch);
    refspec.append(":refs/heads/");
    refspec.append(branch);
    refspec
}

/// Whether a path names something below the root it is relative to: it is
/// not empty, does not start at the file system's root and holds no `..`.
pub open spec fn stays_inside(path: Seq<char>) -> bool {
    &&& path.len() > 0
    &&& path[0] != '/'
    &&& !contains_text(path, seq!['.', '.'])
}

/// Tells whether a path names something below the root it is relative to.
pub fn is_inside(path: &str) -> (yes: bool)
    ensures
        yes == stays_inside(path@),
{
    let chars = chars_of(path);
    if chars.len() == 0 || chars[0] == '/' {
        return false;
    }
    let dots: Vec<char> = vec!['.', '.'];
    assert(dots@ =~= seq!['.', '.']);
    match find_from(&chars, &dots, 0) {
        Some(at) => false,
        None => {
            assert forall|at: int| !occurs_at(path@, dots@, at) by {
                if 0 <= at {
                    assert(!occurs_at(path@, dots@, at));
                }
            }
            true
        },
    }
}

/// Whether every path of a list stays inside the root.
pub open spec fn all_inside(paths: Seq<String>) -> bool {
    forall|i: int| 0 <= i < paths.len() ==> stays_inside(#[trigger] paths[i]@)
}

/// Tells whether every path of a list stays inside the root.
pub fn paths_inside(paths: &Vec<String>) -> (yes: bool)
    ensures
        yes == all_inside(paths@),
{
    let mut i: usize = 0;
    while i < paths.len()
        invariant
            i <= paths.len(),
            forall|j: int| 0 <= j < i ==> stays_inside(#[trigger] paths[j]@),
        decreases paths.len() - i,
    {
        if !is_inside(paths[i].as_str()) {
            return false;
        }
        i += 1;
    }
    true
}

/// A request to commit: the message, the paths to stage, and the author.
#[derive(Debug)]
pub struct CommitRequest {
    pub message: String,
    pub files: Vec<String>,
    pub author_name: String,
    pub author_email: String,
}

impl CommitRequest {
    /// Whether the request can be carried out: it has a message, and its
    /// paths stay inside the volume.
    pub open spec fn acceptable(&self) -> bool {
        self.message@.len() > 0 && all_inside(self.files@)
    }

    /// Tells whether the request can be carried out.
    pub fn is_acceptable(&self) -> (yes: bool)
        ensures
            yes == self.acceptable(),
    {
        !self.message.as_str().is_empty() && paths_inside(&self.files)
    }
}

/// A request to discard the changes to some paths.
#[derive(Debug)]
pub struct RestoreRequest {
    pub files: Vec<String>,
}

/// The first step of a commit: a request that cannot be carried out is
/// refused before the repository is touched.
pub open spec fn first_commit_step(request: CommitRequest) -> Directive {
    if request.acceptable() {
        first_step(Workflow::Commit)
    } else {
        Directive::Fail(SyncError::InvalidRequest)
    }
}

/// Starts a commit.
pub fn begin_commit(request: &CommitRequest) -> (step: Directive)
    ensures
        step == first_commit_step(*request),
{
    if request.is_acceptable() {
        begin(Workflow::Commit)
    } else {
        Directive::Fail(SyncError::InvalidRequest)
    }
}

/// The first step of a restore: with no paths there is nothing to do and
/// the repository is not touched; a path that leaves the volume is refused.
pub open spec fn first_restore_step(request: RestoreRequest) -> Directive {
    if request.files@.len() == 0 {
        Directive::Succeed
    } else if all_inside(request.files@) {
        first_step(Workflow::Restore)
    } else {
        Directive::Fail(SyncError::InvalidRequest)
    }
}

/// Starts a restore.
pub fn begin_restore(request: &RestoreRequest) -> (step: Directive)
    ensures
        step == first_restore_step(*request),
{
    if request.files.len() == 0 {
        Directive::Succeed
    } else if paths_inside(&request.files) {
        begin(Workflow::Restore)
    } else {
        Directive::Fail(SyncError::InvalidRequest)
    }
}

impl SyncError {
    /// The words with which the error is reported.
    pub open spec fn words(self) -> Seq<char> {
        match self {
            SyncError::VolumeNotFound => "Volume not found"@,
            SyncError::InvalidRequest => "Invalid request"@,
            SyncError::RepositoryUnavailable => "Failed to open repository"@,
            SyncError::StatusUnavailable => "Failed to read status"@,
            SyncError::ReferenceUnresolved => "Failed to resolve reference"@,
            SyncError::DivergenceUnavailable => "Failed to compare with upstream"@,
            SyncError::RemoteMissing => "Failed to find remote 'origin'"@,
            SyncError::NoCredentials => "No GIT_TOKEN provided in environment"@,
            SyncError::AuthenticationRejected => "Authentication rejected"@,
            SyncError::FetchFailed => "Git fetch failed"@,
            SyncError::PushFailed => "Git push failed"@,
            SyncError::AnalysisFailed => "Merge analysis failed"@,
            SyncError::UnsupportedMerge => "Unsupported merge analysis result"@,
            SyncError::FastForwardFailed => "Fast-forward failed"@,
            SyncError::MergeFailed => "Merge failed"@,
            SyncError::MergeConflicts => "Merge conflicts detected. Manual resolution required."@,
            SyncError::CleanupFailed => "Failed to clean up merge state"@,
            SyncError::HeadUnavailable => "Failed to get HEAD"@,
            SyncError::DetachedHead => "Failed to get branch name"@,
            SyncError::StageFailed => "Failed to stage files"@,
            SyncError::IndexWriteFailed => "Failed to write index"@,
            SyncError::TreeWriteFailed => "Failed to write tree"@,
            SyncError::SignatureInvalid => "Failed to create signature"@,
            SyncError::CommitFailed => "Failed to create commit"@,
            SyncError::RestoreFailed => "Failed to restore files"@,
            SyncError::OutOfOrder => "Workflow out of order"@,
        }
    }

    /// Whether the error stands for a failed call, so that its report ends
    /// with what the engine said.
    pub open spec fn has_detail(self) -> bool {
        match self {
            SyncError::VolumeNotFound
            | SyncError::InvalidRequest
            | SyncError::NoCredentials
            | SyncError::UnsupportedMerge
            | SyncError::MergeConflicts
            | SyncError::DetachedHead
            | SyncError::OutOfOrder => false,
            _ => true,
        }
    }

    /// The report of the error: its words and, for a failed call, a colon,
    /// a blank and what the engine said.
    pub open spec fn report(self, detail: Seq<char>) -> Seq<char> {
        if self.has_detail() {
            self.words() + ": "@ + detail
        } else {
            self.words()
        }
    }

    /// The status code with which the error is answered: 404 for a volume
    /// that is not known, 500 for everything else.
    pub open spec fn code(self) -> u16 {
        if self is VolumeNotFound {
            404
        } else {
            500
        }
    }

    /// Returns the words with which the error is reported.
    pub fn description(self) -> (text: &'static str)
        ensures
            text@ == self.words(),
    {
        match self {
            SyncError::VolumeNotFound => "Volume not found",
            SyncError::InvalidRequest => "Invalid request",
            SyncError::RepositoryUnavailable => "Failed to open repository",
            SyncError::StatusUnavailable => "Failed to read status",
            SyncError::ReferenceUnresolved => "Failed to resolve reference",
            SyncError::DivergenceUnavailable => "Failed to compare with upstream",
            SyncError::RemoteMissing => "Failed to find remote 'origin'",
            SyncError::NoCredentials => "No GIT_TOKEN provided in environment",
            SyncError::AuthenticationRejected => "Authentication rejected",
            SyncError::FetchFailed => "Git fetch failed",
            SyncError::PushFailed => "Git push failed",
            SyncError::AnalysisFailed => "Merge analysis failed",
            SyncError::UnsupportedMerge => "Unsupported merge analysis result",
            SyncError::FastForwardFailed => "Fast-forward failed",
            SyncError::MergeFailed => "Merge failed",
            SyncError::MergeConflicts => "Merge conflicts detected. Manual resolution required.",
            SyncError::CleanupFailed => "Failed to clean up merge state",
            SyncError::HeadUnavailable => "Failed to get HEAD",
            SyncError::DetachedHead => "Failed to get branch name",
            SyncError::StageFailed => "Failed to stage files",
            SyncError::IndexWriteFailed => "Failed to write index",
            SyncError::TreeWriteFailed => "Failed to write tree",
            SyncError::SignatureInvalid => "Failed to create signature",
            SyncError::CommitFailed => "Failed to create commit",
            SyncError::RestoreFailed => "Failed to restore files",
            SyncError::OutOfOrder => "Workflow out of order",
        }
    }

    /// Returns the report of the error; `detail` is what the engine said of
    /// the failed call.
    pub fn message(self, detail: &str) -> (text: String)
        ensures
            text@ == self.report(detail@),
    {
        let mut text = String::from_str(self.description());
        match self {
            SyncError::VolumeNotFound
            | SyncError::InvalidRequest
            | SyncError::NoCredentials
            | SyncError::UnsupportedMerge
            | SyncError::MergeConflicts
            | SyncError::DetachedHead
            | SyncError::OutOfOrder => {},
            _ => {
                text.append(": ");
                text.append(detail);
            },
        }
        text
    }

    /// Returns the status code with which the error is answered.
    pub fn status_code(self) -> (code: u16)
        ensures
            code == self.code(),
    {
        match self {
            SyncError::VolumeNotFound => 404,
            _ => 500,
        }
    }
}

/// The status code that answers the end of a workflow: 200 for success.
pub open spec fn answer_code(end: Result<(), SyncError>) -> u16 {
    match end {
        Ok(_) => 200,
        Err(error) => error.code(),
    }
}

/// Returns the status code that answers the end of a workflow.
pub fn response_code(end: Result<(), SyncError>) -> (code: u16)
    ensures
        code == answer_code(end),
        (code == 200) == end.is_ok(),
{
    match end {
        Ok(_) => 200,
        Err(error) => error.status_code(),
    }
}

/// The files that are chosen for a commit.
pub struct Selection {
    files: Vec<String>,
}

impl Selection {
    /// No file is chosen twice.
    pub closed spec fn wf(&self) -> bool {
        forall|i: int, j: int|
            0 <= i < j < self.files@.len() ==> (#[trigger] self.files@[i])@ != (
            #[trigger] self.files@[j])@
    }

    /// The chosen files.
    pub closed spec fn view(&self) -> Set<Seq<char>> {
        texts(self.files@).to_set()
    }

    /// The chosen files in the order in which they were chosen.
    pub closed spec fn listed(&self) -> Seq<Seq<char>> {
        texts(self.files@)
    }

    /// A selection without files.
    pub fn new() -> (selection: Self)
        ensures
            selection.wf(),
            selection@ == Set::<Seq<char>>::empty(),
            selection.listed() == Seq::<Seq<char>>::empty(),
    {
        let selection = Selection { files: Vec::new() };
        assert(selection.listed() =~= Seq::<Seq<char>>::empty());
        assert(selection@ =~= Set::<Seq<char>>::empty());
        selection
    }

    /// Finds where a file stands among the chosen ones.
    fn position(&self, path: &str) -> (found: Option<usize>)
        ensures
            match found {
                Some(at) => at < self.files@.len() && self.files@[at as int]@ == path@,
                None => !self@.contains(path@),
            },
            found is Some ==> self@.contains(path@),
    {
        let mut at: usize = 0;
        while at < self.files.len()
            invariant
                at <= self.files@.len(),
                forall|k: int| 0 <= k < at ==> (#[trigger] self.files@[k])@ != path@,
            decreases self.files@.len() - at,
        {
            if same_text(self.files[at].as_str(), path) {
                assert(texts(self.files@)[at as int] == path@);
                return Some(at);
            }
            at += 1;
        }
        assert forall|k: int| 0 <= k < texts(self.files@).len() implies texts(self.files@)[k]
            != path@ by {
            assert(texts(self.files@)[k] == self.files@[k]@);
        }
        None
    }

    /// Tells whether a file is chosen.
    pub fn contains(&self, path: &str) -> (yes: bool)
        ensures
            yes == self@.contains(path@),
    {
        self.position(path).is_some()
    }

    /// Chooses a file that is not chosen, and drops one that is.
    pub fn toggle(&mut self, path: String)
        requires
            old(self).wf(),
        ensures
            final(self).wf(),
            final(self)@ == if old(self)@.contains(path@) {
                old(self)@.remove(path@)
            } else {
                old(self)@.insert(path@)
            },
            final(self).listed() == if old(self)@.contains(path@) {
                old(self).listed().remove(old(self).listed().index_of(path@))
            } else {
                old(self).listed().push(path@)
            },
    {
        let ghost before = self.files@;
        match self.position(path.as_str()) {
            Some(at) => {
                self.files.remove(at);
                proof {
                    let after = self.files@;
                    let listed = texts(before);
                    let first = listed.index_of(path@);
                    assert(listed[at as int] == path@);
                    assert(listed.contains(path@));
                    assert(first == at) by {
                        assert(0 <= first < listed.len() && listed[first] == path@);
                        assert(listed[first] == before[first]@);
                        if first < at {
                            assert(before[first]@ != before[at as int]@);
                        } else if at < first {
                            assert(before[at as int]@ != before[first]@);
                        }
                    }
                    assert(texts(after) =~= listed.remove(at as int));
                    assert forall|i: int, j: int| 0 <= i < j < after.len() implies (
                    #[trigger] after[i])@ != (#[trigger] after[j])@ by {
                        let oi = if i < at { i } else { i + 1 };
                        let oj = if j < at { j } else { j + 1 };
                        assert(before[oi]@ != before[oj]@);
                    }
                    assert forall|t: Seq<char>| self@.contains(t) == old(self)@.remove(
                        path@,
                    ).contains(t) by {
                        if texts(after).contains(t) {
                            let k = choose|k: int| 0 <= k < texts(after).len() && texts(after)[k]
                                == t;
                            let ok = if k < at { k } else { k + 1 };
                            assert(texts(before)[ok] == t);
                            assert(before[ok]@ != before[at as int]@);
                        }
                        if texts(before).contains(t) && t != path@ {
                            let k = choose|k: int| 0 <= k < texts(before).len() && texts(
                                before,
                            )[k] == t;
                            let nk = if k < at { k } else { k - 1 };
                            assert(texts(after)[nk] == t);
                        }
                    }
                    assert(self@ =~= old(self)@.remove(path@));
                }
            },
            None => {
                self.files.push(path);
                proof {
                    let after = self.files@;
                    assert(texts(after) =~= texts(before).push(path@));
                    assert forall|i: int, j: int| 0 <= i < j < after.len() implies (
                    #[trigger] after[i])@ != (#[trigger] after[j])@ by {
                        if j == before.len() {
                            assert(texts(before)[i] == before[i]@);
                            assert(texts(before).contains(before[i]@));
                        } else {
                            assert(before[i]@ != before[j]@);
                        }
                    }
                    assert forall|t: Seq<char>| self@.contains(t) == old(self)@.insert(
                        path@,
                    ).contains(t) by {
                        if texts(after).contains(t) {
                            let k = choose|k: int| 0 <= k < texts(after).len() && texts(after)[k]
                                == t;
                            if k < before.len() {
                                assert(texts(before)[k] == t);
                            }
                        }
                        if texts(before).contains(t) {
                            let k = choose|k: int| 0 <= k < texts(before).len() && texts(
                                before,
                            )[k] == t;
                            assert(texts(after)[k] == t);
                        }
                        if t == path@ {
                            assert(texts(after)[before.len() as int] == t);
                        }
                    }
                    assert(self@ =~= old(self)@.insert(path@));
                }
            },
        }
    }

    /// Hands out the chosen files, in the order in which they were chosen.
    pub fn into_files(self) -> (files: Vec<String>)
        ensures
            texts(files@) == self.listed(),
            texts(files@).to_set() == self@,
    {
        self.files
    }
}

} // verus!
