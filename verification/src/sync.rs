//! The synchronisation workflows as a machine of steps.
//!
//! A workflow is a series of calls to the repository engine. The program
//! that owns the engine performs one call at a time and reports how it
//! ended; `advance` then says what comes next. The first failure ends a
//! workflow, and no call is made after it.

use vstd::prelude::*;

verus! {

/// The operations on a volume.
#[derive(Clone, Copy, Debug, PartialEq, Eq, Structural)]
pub enum Workflow {
    Status,
    Fetch,
    Pull,
    Push,
    Commit,
    Restore,
}

/// One call to the repository engine.
#[derive(Clone, Copy, Debug, PartialEq, Eq, Structural)]
pub enum Call {
    /// Open the repository at the volume's root.
    OpenRepository,
    /// List the differences of working tree and index, untracked files included.
    ReadStatus,
    /// Find the upstream reference of the current branch.
    ResolveUpstream,
    /// Count the commits by which the branch and its upstream differ.
    CountDivergence,
    /// Look up the remote named `origin`.
    FindRemote,
    /// Take user name and token from the process configuration.
    LoadCredentials,
    /// Download the remote's references and objects.
    FetchRemote,
    /// Compare the local head with the fetched tip.
    AnalyzeMerge,
    /// Move the branch to the fetched tip and force the working tree to it.
    FastForward,
    /// Merge the fetched tip into the working tree and the index.
    MergeRemote,
    /// Commit the merged index with the local head and the fetched tip as parents.
    CommitMerge,
    /// Leave the merging state.
    ClearMergeState,
    /// Read the name of the current branch.
    ReadBranch,
    /// Send the current branch to the remote under its own name.
    PushBranch,
    /// Add the requested paths to the index.
    StagePaths,
    /// Write the index to disk.
    WriteIndex,
    /// Write the index as a tree.
    WriteTree,
    /// Make the author's signature.
    MakeSignature,
    /// Read the commit that HEAD points to.
    ReadHead,
    /// Create the commit: without a parent where `root` is set, else on top of HEAD.
    CreateCommit { root: bool },
    /// Reset the requested paths in index and working tree to HEAD.
    RestorePaths,
}

/// Why a call failed.
#[derive(Clone, Copy, Debug, PartialEq, Eq, Structural)]
pub enum Cause {
    /// The remote refused the credentials.
    Authentication,
    /// Anything else.
    Other,
}

/// How a call ended.
#[derive(Clone, Copy, Debug, PartialEq, Eq, Structural)]
pub enum Reply {
    /// The call succeeded and has nothing to tell.
    Done,
    /// The call failed.
    Failed(Cause),
    /// `ResolveUpstream`: whether the branch has an upstream.
    Upstream(bool),
    /// `AnalyzeMerge`: the analysis word.
    Analysis(u32),
    /// `MergeRemote`: whether the merged index holds conflicts.
    Merged { conflicts: bool },
    /// `ReadHead`: whether HEAD points to a commit.
    Head(bool),
    /// `ReadBranch`: whether HEAD is on a branch.
    Branch(bool),
    /// `LoadCredentials`: whether a token is configured.
    Credentials(bool),
}

/// The ways in which an operation on a volume fails.
#[derive(Clone, Copy, Debug, PartialEq, Eq, Structural)]
pub enum SyncError {
    VolumeNotFound,
    InvalidRequest,
    RepositoryUnavailable,
    StatusUnavailable,
    ReferenceUnresolved,
    DivergenceUnavailable,
    RemoteMissing,
    NoCredentials,
    AuthenticationRejected,
    FetchFailed,
    PushFailed,
    AnalysisFailed,
    UnsupportedMerge,
    FastForwardFailed,
    MergeFailed,
    MergeConflicts,
    CleanupFailed,
    HeadUnavailable,
    DetachedHead,
    StageFailed,
    IndexWriteFailed,
    TreeWriteFailed,
    SignatureInvalid,
    CommitFailed,
    RestoreFailed,
    OutOfOrder,
}

/// What a workflow does next.
#[derive(Clone, Copy, Debug, PartialEq, Eq, Structural)]
pub enum Directive {
    /// Perform this call and report how it ended.
    Perform(Call),
    /// The workflow is complete.
    Succeed,
    /// The workflow is over and failed.
    Fail(SyncError),
}

/// The remote that every workflow talks to.
pub const REMOTE_NAME: &'static str = "origin";

/// The message of the commit that a pull makes of a clean merge.
pub const MERGE_MESSAGE: &'static str = "Merge remote-tracking branch";

/// The name under which the process configuration holds the token.
pub const TOKEN_VARIABLE: &'static str = "GIT_TOKEN";

/// The name under which the process configuration holds the user name.
pub const USERNAME_VARIABLE: &'static str = "GIT_USERNAME";

/// Bit of an analysis word: both sides have commits of their own.
pub const ANALYSIS_NORMAL: u32 = 0x1;

/// Bit of an analysis word: the local head holds the fetched tip already.
pub const ANALYSIS_UP_TO_DATE: u32 = 0x2;

/// Bit of an analysis word: the fetched tip descends from the local head.
pub const ANALYSIS_FASTFORWARD: u32 = 0x4;

/// What a pull does once the fetched tip has been compared with the local head.
#[derive(Clone, Copy, Debug, PartialEq, Eq, Structural)]
pub enum MergePlan {
    UpToDate,
    FastForward,
    Merge,
    Unsupported,
}

/// The plan for an analysis word. Up-to-date wins over fast-forward, and
/// fast-forward over a merge; a word with none of the three bits is not
/// supported.
pub open spec fn plan_of(analysis: u32) -> MergePlan {
    if analysis & ANALYSIS_UP_TO_DATE != 0 {
        MergePlan::UpToDate
    } else if analysis & ANALYSIS_FASTFORWARD != 0 {
        MergePlan::FastForward
    } else if analysis & ANALYSIS_NORMAL != 0 {
        MergePlan::Merge
    } else {
        MergePlan::Unsupported
    }
}

/// Chooses the plan for an analysis word.
pub fn plan_merge(analysis: u32) -> (plan: MergePlan)
    ensures
        plan == plan_of(analysis),
{
    if analysis & ANALYSIS_UP_TO_DATE != 0 {
        MergePlan::UpToDate
    } else if analysis & ANALYSIS_FASTFORWARD != 0 {
        MergePlan::FastForward
    } else if analysis & ANALYSIS_NORMAL != 0 {
        MergePlan::Merge
    } else {
        MergePlan::Unsupported
    }
}

/// What HEAD points to.
#[derive(Clone, Copy, Debug, PartialEq, Eq, Structural)]
pub enum HeadState {
    /// A branch without a commit, as in a repository that was just made.
    Unborn,
    /// A commit that is the tip of no branch.
    Detached,
    /// A branch with a commit.
    OnBranch,
}

/// Whether a branch is compared with an upstream: only a branch with a
/// commit for which an upstream is configured. Everything else counts as in
/// step with its upstream, and is no error.
pub open spec fn tracks_upstream(head: HeadState, configured: bool) -> bool {
    head is OnBranch && configured
}

/// The reply to `ResolveUpstream` for what was found of HEAD and of the
/// upstream of its branch.
pub fn upstream_reply(head: HeadState, configured: bool) -> (reply: Reply)
    ensures
        reply == Reply::Upstream(tracks_upstream(head, configured)),
{
    match head {
        HeadState::OnBranch => Reply::Upstream(configured),
        _ => Reply::Upstream(false),
    }
}

/// The reply to `ReadBranch` for what was found of HEAD: only a branch with
/// a commit has a name under which it can be sent.
pub fn branch_reply(head: HeadState, named: bool) -> (reply: Reply)
    ensures
        reply == Reply::Branch(head is OnBranch && named),
{
    match head {
        HeadState::OnBranch => Reply::Branch(named),
        _ => Reply::Branch(false),
    }
}

/// The place of a call in a workflow, counted from 1; 0 where the workflow
/// never makes the call.
pub open spec fn place(workflow: Workflow, call: Call) -> nat {
    match workflow {
        Workflow::Status => match call {
            Call::OpenRepository => 1,
            Call::ReadStatus => 2,
            Call::ResolveUpstream => 3,
            Call::CountDivergence => 4,
            _ => 0,
        },
        Workflow::Fetch => match call {
            Call::OpenRepository => 1,
            Call::FindRemote => 2,
            Call::LoadCredentials => 3,
            Call::FetchRemote => 4,
            Call::ReadStatus => 5,
            Call::ResolveUpstream => 6,
            Call::CountDivergence => 7,
            _ => 0,
        },
        Workflow::Pull => match call {
            Call::OpenRepository => 1,
            Call::FindRemote => 2,
            Call::LoadCredentials => 3,
            Call::FetchRemote => 4,
            Call::AnalyzeMerge => 5,
            Call::FastForward => 6,
            Call::MergeRemote => 6,
            Call::CommitMerge => 7,
            Call::ClearMergeState => 8,
            _ => 0,
        },
        Workflow::Push => match call {
            Call::OpenRepository => 1,
            Call::FindRemote => 2,
            Call::ReadBranch => 3,
            Call::LoadCredentials => 4,
            Call::PushBranch => 5,
            _ => 0,
        },
        Workflow::Commit => match call {
            Call::OpenRepository => 1,
            Call::StagePaths => 2,
            Call::WriteIndex => 3,
            Call::WriteTree => 4,
            Call::MakeSignature => 5,
            Call::ReadHead => 6,
            Call::CreateCommit { .. } => 7,
            _ => 0,
        },
        Workflow::Restore => match call {
            Call::OpenRepository => 1,
            Call::RestorePaths => 2,
            _ => 0,
        },
    }
}

/// Whether a workflow ever makes a call.
pub open spec fn belongs(workflow: Workflow, call: Call) -> bool {
    place(workflow, call) > 0
}

/// The error that stands for a failed call.
pub open spec fn failure_of(call: Call, cause: Cause) -> SyncError {
    match call {
        Call::OpenRepository => SyncError::RepositoryUnavailable,
        Call::ReadStatus => SyncError::StatusUnavailable,
        Call::ResolveUpstream => SyncError::ReferenceUnresolved,
        Call::CountDivergence => SyncError::DivergenceUnavailable,
        Call::FindRemote => SyncError::RemoteMissing,
        Call::LoadCredentials => SyncError::NoCredentials,
        Call::FetchRemote => match cause {
            Cause::Authentication => SyncError::AuthenticationRejected,
            Cause::Other => SyncError::FetchFailed,
        },
        Call::AnalyzeMerge => SyncError::AnalysisFailed,
        Call::FastForward => SyncError::FastForwardFailed,
        Call::MergeRemote => SyncError::MergeFailed,
        Call::CommitMerge => SyncError::CommitFailed,
        Call::ClearMergeState => SyncError::CleanupFailed,
        Call::ReadBranch => SyncError::HeadUnavailable,
        Call::PushBranch => match cause {
            Cause::Authentication => SyncError::AuthenticationRejected,
            Cause::Other => SyncError::PushFailed,
        },
        Call::StagePaths => SyncError::StageFailed,
        Call::WriteIndex => SyncError::IndexWriteFailed,
        Call::WriteTree => SyncError::TreeWriteFailed,
        Call::MakeSignature => SyncError::SignatureInvalid,
        Call::ReadHead => SyncError::HeadUnavailable,
        Call::CreateCommit { .. } => SyncError::CommitFailed,
        Call::RestorePaths => SyncError::RestoreFailed,
    }
}

/// What follows a call that succeeded with nothing to tell.
pub open spec fn after_done(workflow: Workflow, call: Call) -> Directive {
    match call {
        Call::OpenRepository => match workflow {
            Workflow::Status => Directive::Perform(Call::ReadStatus),
            Workflow::Fetch | Workflow::Pull | Workflow::Push => Directive::Perform(
                Call::FindRemote,
            ),
            Workflow::Commit => Directive::Perform(Call::StagePaths),
            Workflow::Restore => Directive::Perform(Call::RestorePaths),
        },
        Call::ReadStatus => Directive::Perform(Call::ResolveUpstream),
        Call::CountDivergence => Directive::Succeed,
        Call::FindRemote => match workflow {
            Workflow::Push => Directive::Perform(Call::ReadBranch),
            _ => Directive::Perform(Call::LoadCredentials),
        },
        Call::FetchRemote => match workflow {
            Workflow::Fetch => Directive::Perform(Call::ReadStatus),
            _ => Directive::Perform(Call::AnalyzeMerge),
        },
        Call::FastForward => Directive::Succeed,
        Call::CommitMerge => Directive::Perform(Call::ClearMergeState),
        Call::ClearMergeState => Directive::Succeed,
        Call::PushBranch => Directive::Succeed,
        Call::StagePaths => Directive::Perform(Call::WriteIndex),
        Call::WriteIndex => Directive::Perform(Call::WriteTree),
        Call::WriteTree => Directive::Perform(Call::MakeSignature),
        Call::MakeSignature => Directive::Perform(Call::ReadHead),
        Call::CreateCommit { .. } => Directive::Succeed,
        Call::RestorePaths => Directive::Succeed,
        _ => Directive::Fail(SyncError::OutOfOrder),
    }
}

/// What follows a call that told something.
pub open spec fn after_answer(workflow: Workflow, call: Call, reply: Reply) -> Directive {
    match (call, reply) {
        (Call::ResolveUpstream, Reply::Upstream(true)) => Directive::Perform(Call::CountDivergence),
        (Call::ResolveUpstream, Reply::Upstream(false)) => Directive::Succeed,
        (Call::LoadCredentials, Reply::Credentials(true)) => match workflow {
            Workflow::Push => Directive::Perform(Call::PushBranch),
            _ => Directive::Perform(Call::FetchRemote),
        },
        (Call::LoadCredentials, Reply::Credentials(false)) => Directive::Fail(
            SyncError::NoCredentials,
        ),
        (Call::AnalyzeMerge, Reply::Analysis(word)) => match plan_of(word) {
            MergePlan::UpToDate => Directive::Succeed,
            MergePlan::FastForward => Directive::Perform(Call::FastForward),
            MergePlan::Merge => Directive::Perform(Call::MergeRemote),
            MergePlan::Unsupported => Directive::Fail(SyncError::UnsupportedMerge),
        },
        (Call::MergeRemote, Reply::Merged { conflicts: true }) => Directive::Fail(
            SyncError::MergeConflicts,
        ),
        (Call::MergeRemote, Reply::Merged { conflicts: false }) => Directive::Perform(
            Call::CommitMerge,
        ),
        (Call::ReadBranch, Reply::Branch(true)) => Directive::Perform(Call::LoadCredentials),
        (Call::ReadBranch, Reply::Branch(false)) => Directive::Fail(SyncError::DetachedHead),
        (Call::ReadHead, Reply::Head(found)) => Directive::Perform(
            Call::CreateCommit { root: !found },
        ),
        _ => Directive::Fail(SyncError::OutOfOrder),
    }
}

/// What a workflow does after `call` ended with `reply`.
///
/// A call that the workflow never makes, and a reply that does not fit the
/// call, end the workflow as out of order. A failed call ends it with the
/// error of that call, with one exception: where HEAD cannot be read, a
/// commit is made without a parent.
pub open spec fn next_step(workflow: Workflow, call: Call, reply: Reply) -> Directive {
    if !belongs(workflow, call) {
        Directive::Fail(SyncError::OutOfOrder)
    } else {
        match reply {
            Reply::Failed(cause) => match call {
                Call::ReadHead => Directive::Perform(Call::CreateCommit { root: true }),
                _ => Directive::Fail(failure_of(call, cause)),
            },
            Reply::Done => after_done(workflow, call),
            _ => after_answer(workflow, call, reply),
        }
    }
}

/// The first step of every workflow: open the repository.
pub open spec fn first_step(workflow: Workflow) -> Directive {
    Directive::Perform(Call::OpenRepository)
}

/// Whether a call can change files of the working tree.
pub open spec fn changes_worktree(call: Call) -> bool {
    call is FastForward || call is MergeRemote || call is RestorePaths
}

/// Whether a call can move the local branch.
pub open spec fn moves_branch(call: Call) -> bool {
    call is FastForward || call is CommitMerge || call is CreateCommit
}

/// Whether a call can change the index or the repository's own state.
pub open spec fn changes_index(call: Call) -> bool {
    call is MergeRemote || call is ClearMergeState || call is StagePaths || call is WriteIndex
        || call is WriteTree || call is RestorePaths
}

/// Whether a call talks to the remote.
pub open spec fn uses_network(call: Call) -> bool {
    call is FetchRemote || call is PushBranch
}

/// Whether a call leaves repository, working tree and remote as they are.
pub open spec fn reads_only(call: Call) -> bool {
    !changes_worktree(call) && !moves_branch(call) && !changes_index(call) && !uses_network(call)
}

/// Returns the place of a call in a workflow.
pub fn place_of(workflow: Workflow, call: Call) -> (at: u8)
    ensures
        at == place(workflow, call),
{
    match workflow {
        Workflow::Status => match call {
            Call::OpenRepository => 1,
            Call::ReadStatus => 2,
            Call::ResolveUpstream => 3,
            Call::CountDivergence => 4,
            _ => 0,
        },
        Workflow::Fetch => match call {
            Call::OpenRepository => 1,
            Call::FindRemote => 2,
            Call::LoadCredentials => 3,
            Call::FetchRemote => 4,
            Call::ReadStatus => 5,
            Call::ResolveUpstream => 6,
            Call::CountDivergence => 7,
            _ => 0,
        },
        Workflow::Pull => match call {
            Call::OpenRepository => 1,
            Call::FindRemote => 2,
            Call::LoadCredentials => 3,
            Call::FetchRemote => 4,
            Call::AnalyzeMerge => 5,
            Call::FastForward => 6,
            Call::MergeRemote => 6,
            Call::CommitMerge => 7,
            Call::ClearMergeState => 8,
            _ => 0,
        },
        Workflow::Push => match call {
            Call::OpenRepository => 1,
            Call::FindRemote => 2,
            Call::ReadBranch => 3,
            Call::LoadCredentials => 4,
            Call::PushBranch => 5,
            _ => 0,
        },
        Workflow::Commit => match call {
            Call::OpenRepository => 1,
            Call::StagePaths => 2,
            Call::WriteIndex => 3,
            Call::WriteTree => 4,
            Call::MakeSignature => 5,
            Call::ReadHead => 6,
            Call::CreateCommit { .. } => 7,
            _ => 0,
        },
        Workflow::Restore => match call {
            Call::OpenRepository => 1,
            Call::RestorePaths => 2,
            _ => 0,
        },
    }
}

/// Returns the error that stands for a failed call.
pub fn failure(call: Call, cause: Cause) -> (error: SyncError)
    ensures
        error == failure_of(call, cause),
{
    match call {
        Call::OpenRepository => SyncError::RepositoryUnavailable,
        Call::ReadStatus => SyncError::StatusUnavailable,
        Call::ResolveUpstream => SyncError::ReferenceUnresolved,
        Call::CountDivergence => SyncError::DivergenceUnavailable,
        Call::FindRemote => SyncError::RemoteMissing,
        Call::LoadCredentials => SyncError::NoCredentials,
        Call::FetchRemote => match cause {
            Cause::Authentication => SyncError::AuthenticationRejected,
            Cause::Other => SyncError::FetchFailed,
        },
        Call::AnalyzeMerge => SyncError::AnalysisFailed,
        Call::FastForward => SyncError::FastForwardFailed,
        Call::MergeRemote => SyncError::MergeFailed,
        Call::CommitMerge => SyncError::CommitFailed,
        Call::ClearMergeState => SyncError::CleanupFailed,
        Call::ReadBranch => SyncError::HeadUnavailable,
        Call::PushBranch => match cause {
            Cause::Authentication => SyncError::AuthenticationRejected,
            Cause::Other => SyncError::PushFailed,
        },
        Call::StagePaths => SyncError::StageFailed,
        Call::WriteIndex => SyncError::IndexWriteFailed,
        Call::WriteTree => SyncError::TreeWriteFailed,
        Call::MakeSignature => SyncError::SignatureInvalid,
        Call::ReadHead => SyncError::HeadUnavailable,
        Call::CreateCommit { .. } => SyncError::CommitFailed,
        Call::RestorePaths => SyncError::RestoreFailed,
    }
}

/// Starts a workflow.
pub fn begin(workflow: Workflow) -> (step: Directive)
    ensures
        step == first_step(workflow),
{
    Directive::Perform(Call::OpenRepository)
}

/// Says what a workflow does after `call` ended with `reply`.
pub fn advance(workflow: Workflow, call: Call, reply: Reply) -> (step: Directive)
    ensures
        step == next_step(workflow, call, reply),
{
    if place_of(workflow, call) == 0 {
        return Directive::Fail(SyncError::OutOfOrder);
    }
    match reply {
        Reply::Failed(cause) => match call {
            Call::ReadHead => Directive::Perform(Call::CreateCommit { root: true }),
            _ => Directive::Fail(failure(call, cause)),
        },
        Reply::Done => match call {
            Call::OpenRepository => match workflow {
                Workflow::Status => Directive::Perform(Call::ReadStatus),
                Workflow::Commit => Directive::Perform(Call::StagePaths),
                Workflow::Restore => Directive::Perform(Call::RestorePaths),
                _ => Directive::Perform(Call::FindRemote),
            },
            Call::ReadStatus => Directive::Perform(Call::ResolveUpstream),
            Call::FindRemote => match workflow {
                Workflow::Push => Directive::Perform(Call::ReadBranch),
                _ => Directive::Perform(Call::LoadCredentials),
            },
            Call::FetchRemote => match workflow {
                Workflow::Fetch => Directive::Perform(Call::ReadStatus),
                _ => Directive::Perform(Call::AnalyzeMerge),
            },
            Call::CommitMerge => Directive::Perform(Call::ClearMergeState),
            Call::StagePaths => Directive::Perform(Call::WriteIndex),
            Call::WriteIndex => Directive::Perform(Call::WriteTree),
            Call::WriteTree => Directive::Perform(Call::MakeSignature),
            Call::MakeSignature => Directive::Perform(Call::ReadHead),
            Call::CountDivergence | Call::FastForward | Call::ClearMergeState | Call::PushBranch
            | Call::CreateCommit { .. } | Call::RestorePaths => Directive::Succeed,
            _ => Directive::Fail(SyncError::OutOfOrder),
        },
        Reply::Upstream(found) => match call {
            Call::ResolveUpstream => if found {
                Directive::Perform(Call::CountDivergence)
            } else {
                Directive::Succeed
            },
            _ => Directive::Fail(SyncError::OutOfOrder),
        },
        Reply::Credentials(found) => match call {
            Call::LoadCredentials => if !found {
                Directive::Fail(SyncError::NoCredentials)
            } else {
                match workflow {
                    Workflow::Push => Directive::Perform(Call::PushBranch),
                    _ => Directive::Perform(Call::FetchRemote),
                }
            },
            _ => Directive::Fail(SyncError::OutOfOrder),
        },
        Reply::Analysis(word) => match call {
            Call::AnalyzeMerge => match plan_merge(word) {
                MergePlan::UpToDate => Directive::Succeed,
                MergePlan::FastForward => Directive::Perform(Call::FastForward),
                MergePlan::Merge => Directive::Perform(Call::MergeRemote),
                MergePlan::Unsupported => Directive::Fail(SyncError::UnsupportedMerge),
            },
            _ => Directive::Fail(SyncError::OutOfOrder),
        },
        Reply::Merged { conflicts } => match call {
            Call::MergeRemote => if conflicts {
                Directive::Fail(SyncError::MergeConflicts)
            } else {
                Directive::Perform(Call::CommitMerge)
            },
            _ => Directive::Fail(SyncError::OutOfOrder),
        },
        Reply::Branch(named) => match call {
            Call::ReadBranch => if named {
                Directive::Perform(Call::LoadCredentials)
            } else {
                Directive::Fail(SyncError::DetachedHead)
            },
            _ => Directive::Fail(SyncError::OutOfOrder),
        },
        Reply::Head(found) => match call {
            Call::ReadHead => Directive::Perform(Call::CreateCommit { root: !found }),
            _ => Directive::Fail(SyncError::OutOfOrder),
        },
    }
}

/// Every call that a workflow asks for is one of its own, and stands later
/// in it than the call before: a workflow comes to its end after at most
/// eight calls.
pub proof fn law_workflows_move_forward(workflow: Workflow, call: Call, reply: Reply)
    ensures
        first_step(workflow) == Directive::Perform(Call::OpenRepository),
        place(workflow, Call::OpenRepository) == 1,
        place(workflow, call) <= 8,
        next_step(workflow, call, reply) matches Directive::Perform(next) ==> belongs(
            workflow,
            next,
        ) && place(workflow, call) < place(workflow, next),
{
}

/// The first failure ends a workflow: after a failed call no other call is
/// made, and the error is that of the call. The one exception is a commit
/// that cannot read HEAD, which goes on as a commit without a parent.
pub proof fn law_first_failure_ends(workflow: Workflow, call: Call, cause: Cause)
    requires
        belongs(workflow, call),
    ensures
        !(call is ReadHead) ==> next_step(workflow, call, Reply::Failed(cause)) == Directive::Fail(
            failure_of(call, cause),
        ),
        call is ReadHead ==> next_step(workflow, call, Reply::Failed(cause)) == Directive::Perform(
            Call::CreateCommit { root: true },
        ),
        failure_of(call, cause) != SyncError::OutOfOrder,
{
}

/// A status query only reads. A fetch talks to the remote and otherwise only
/// reads: it changes neither working tree nor index and moves no branch.
pub proof fn law_status_and_fetch_read(call: Call)
    ensures
        belongs(Workflow::Status, call) ==> reads_only(call),
        belongs(Workflow::Fetch, call) ==> !changes_worktree(call) && !moves_branch(call)
            && !changes_index(call),
{
}

/// Nothing is sent to or taken from the remote without credentials: a call
/// that uses the network follows only on credentials that were found.
pub proof fn law_network_needs_credentials(workflow: Workflow, call: Call, reply: Reply)
    ensures
        next_step(workflow, call, reply) matches Directive::Perform(next) && uses_network(next)
            ==> call is LoadCredentials && reply == Reply::Credentials(true),
        next_step(workflow, Call::LoadCredentials, Reply::Credentials(false)) is Fail,
{
}

/// How a pull goes on after the analysis: up to date, it ends at once; on a
/// fast-forward it moves the branch and ends; else it merges, and conflicts
/// end it with nothing committed and nothing cleaned up, while a clean merge
/// is committed, the merging state is left, and the pull ends.
pub proof fn law_pull_outcomes(word: u32)
    ensures
        plan_of(word) is UpToDate ==> next_step(
            Workflow::Pull,
            Call::AnalyzeMerge,
            Reply::Analysis(word),
        ) == Directive::Succeed,
        plan_of(word) is FastForward ==> next_step(
            Workflow::Pull,
            Call::AnalyzeMerge,
            Reply::Analysis(word),
        ) == Directive::Perform(Call::FastForward),
        plan_of(word) is Merge ==> next_step(
            Workflow::Pull,
            Call::AnalyzeMerge,
            Reply::Analysis(word),
        ) == Directive::Perform(Call::MergeRemote),
        plan_of(word) is Unsupported ==> next_step(
            Workflow::Pull,
            Call::AnalyzeMerge,
            Reply::Analysis(word),
        ) == Directive::Fail(SyncError::UnsupportedMerge),
        next_step(Workflow::Pull, Call::FastForward, Reply::Done) == Directive::Succeed,
        next_step(Workflow::Pull, Call::MergeRemote, Reply::Merged { conflicts: true })
            == Directive::Fail(SyncError::MergeConflicts),
        next_step(Workflow::Pull, Call::MergeRemote, Reply::Merged { conflicts: false })
            == Directive::Perform(Call::CommitMerge),
        next_step(Workflow::Pull, Call::CommitMerge, Reply::Done) == Directive::Perform(
            Call::ClearMergeState,
        ),
        next_step(Workflow::Pull, Call::ClearMergeState, Reply::Done) == Directive::Succeed,
{
}

/// A commit has HEAD as its parent where HEAD points to a commit, and no
/// parent where it does not.
pub proof fn law_commit_parent(found: bool)
    ensures
        next_step(Workflow::Commit, Call::ReadHead, Reply::Head(found)) == Directive::Perform(
            Call::CreateCommit { root: !found },
        ),
        next_step(Workflow::Commit, Call::CreateCommit { root: !found }, Reply::Done)
            == Directive::Succeed,
{
}

} // verus!
