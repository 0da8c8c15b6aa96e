//! What the user is told when the changes of a thread land: as a merge, or as a pull
//! request.
use vstd::prelude::*;
use vstd::string::StringExecFns;

use crate::text;

verus! {

/// How a worktree was merged into its base.
#[derive(Clone, Copy, Debug, PartialEq, Eq, Structural)]
pub enum MergeWorktreeIntoBaseResultKind {
    FastForward,
    MergeCommit,
    AlreadyUpToDate,
}

/// The merge of one worktree.
#[derive(Debug, PartialEq, Eq)]
pub struct MergeWorktreeIntoBaseResult {
    pub kind: MergeWorktreeIntoBaseResultKind,
    pub target_branch_name: String,
    pub source_branch_name: Option<String>,
    /// Whether uncommitted changes were committed first.
    pub auto_committed: bool,
}

/// A worktree that can be merged.
#[derive(Debug, PartialEq, Eq)]
pub struct ThreadWorktreeMergeTarget {
    pub target_branch_name: Option<String>,
}

/// A branch that was pushed for a pull request.
#[derive(Debug, PartialEq, Eq)]
pub struct ThreadWorktreePullRequest {
    pub branch_name: String,
    pub url: String,
    /// Whether uncommitted changes were committed first.
    pub checkpoint_created: bool,
}

/// What the user is told of a merge, and whether to offer to archive the thread.
#[derive(Debug, PartialEq, Eq)]
pub struct MergeThreadChangesSummary {
    pub message: String,
    pub offer_archive: bool,
}

/// The names of the branches to merge into.
pub open spec fn branch_names(targets: Seq<ThreadWorktreeMergeTarget>) -> Seq<Option<Seq<char>>> {
    targets.map_values(
        |target: ThreadWorktreeMergeTarget| text::optional_text(target.target_branch_name),
    )
}

/// The label of the button that merges: the branch, where all worktrees have the same and
/// it has a name.
pub open spec fn button_label(names: Seq<Option<Seq<char>>>) -> Option<Seq<char>> {
    if names.len() == 0 {
        None
    } else if names[0] is Some && (forall|i: int|
        0 <= i < names.len() ==> #[trigger] names[i] == names[0]) {
        Some("Merge into "@ + names[0]->0)
    } else if names.len() == 1 {
        Some("Merge into base branch"@)
    } else {
        Some("Merge into base branches"@)
    }
}

/// Labels the button that merges the changes of a thread.
pub fn merge_thread_changes_button_label(targets: &Vec<ThreadWorktreeMergeTarget>) -> (label:
    Option<String>)
    ensures
        text::optional_text(label) == button_label(branch_names(targets@)),
{
    let ghost names = branch_names(targets@);
    if targets.len() == 0 {
        return None;
    }
    let first = match &targets[0].target_branch_name {
        Some(first) => first,
        None => {
            proof {
                assert(names[0] is None);
            }
            return if targets.len() == 1 {
                Some("Merge into base branch".to_string())
            } else {
                Some("Merge into base branches".to_string())
            };
        },
    };
    assert(names[0] == Some(first@));
    let mut i: usize = 1;
    while i < targets.len()
        invariant
            1 <= i <= targets.len(),
            names == branch_names(targets@),
            names[0] == Some(first@),
            forall|j: int| 0 <= j < i ==> #[trigger] names[j] == names[0],
        decreases targets.len() - i,
    {
        assert(names[i as int] == text::optional_text(targets@[i as int].target_branch_name));
        if !text::is_text(&targets[i].target_branch_name, first) {
            return Some("Merge into base branches".to_string());
        }
        i += 1;
    }
    let mut label = "Merge into ".to_string();
    label.append(first);
    Some(label)
}

/// The words that tell of a checkpoint.
pub open spec fn checkpoint_words(created: bool) -> Seq<char> {
    if created {
        " after checkpointing uncommitted changes"@
    } else {
        ""@
    }
}

fn checkpoint_text(created: bool) -> (words: &'static str)
    ensures
        words@ == checkpoint_words(created),
{
    if created {
        " after checkpointing uncommitted changes"
    } else {
        ""
    }
}

/// How many of the merges changed something.
pub open spec fn merged_count(results: Seq<MergeWorktreeIntoBaseResult>) -> nat
    decreases results.len(),
{
    if results.len() == 0 {
        0
    } else {
        merged_count(results.drop_last()) + (if results.last().kind
            == MergeWorktreeIntoBaseResultKind::AlreadyUpToDate {
            0nat
        } else {
            1nat
        })
    }
}

/// What the user is told of merges.
pub open spec fn merge_message(results: Seq<MergeWorktreeIntoBaseResult>) -> Seq<char> {
    if results.len() == 0 {
        "No linked git worktree found for this thread"@
    } else if results.len() == 1 {
        let result = results[0];
        match result.kind {
            MergeWorktreeIntoBaseResultKind::FastForward => "Merged thread changes into "@
                + result.target_branch_name@ + " with a fast-forward"@ + checkpoint_words(
                result.auto_committed,
            ),
            MergeWorktreeIntoBaseResultKind::MergeCommit => "Merged thread changes into "@
                + result.target_branch_name@ + checkpoint_words(result.auto_committed),
            MergeWorktreeIntoBaseResultKind::AlreadyUpToDate => "Nothing to merge into "@
                + result.target_branch_name@,
        }
    } else if merged_count(results) == 0 {
        "Nothing to merge in "@ + text::decimal_text(results.len()) + " repositories"@
    } else {
        "Merged thread changes in "@ + text::decimal_text(merged_count(results)) + "/"@
            + text::decimal_text(results.len()) + " repositories"@
    }
}

/// Tells of merges. The thread may be archived where one of them changed something.
pub fn summarize_merge_thread_changes_result(results: Vec<MergeWorktreeIntoBaseResult>) -> (summary:
    MergeThreadChangesSummary)
    ensures
        summary.message@ == merge_message(results@),
        summary.offer_archive == (merged_count(results@) > 0),
{
    if results.len() == 0 {
        return MergeThreadChangesSummary {
            message: "No linked git worktree found for this thread".to_string(),
            offer_archive: false,
        };
    }
    if results.len() == 1 {
        let result = &results[0];
        let checkpoint = checkpoint_text(result.auto_committed);
        proof {
            reveal_with_fuel(merged_count, 2);
            assert(results@.drop_last() =~= Seq::empty());
            assert(results@.last() == results@[0]);
        }
        return match result.kind {
            MergeWorktreeIntoBaseResultKind::FastForward => {
                let mut message = "Merged thread changes into ".to_string();
                message.append(&result.target_branch_name);
                message.append(" with a fast-forward");
                message.append(checkpoint);
                MergeThreadChangesSummary { message, offer_archive: true }
            },
            MergeWorktreeIntoBaseResultKind::MergeCommit => {
                let mut message = "Merged thread changes into ".to_string();
                message.append(&result.target_branch_name);
                message.append(checkpoint);
                MergeThreadChangesSummary { message, offer_archive: true }
            },
            MergeWorktreeIntoBaseResultKind::AlreadyUpToDate => {
                let mut message = "Nothing to merge into ".to_string();
                message.append(&result.target_branch_name);
                MergeThreadChangesSummary { message, offer_archive: false }
            },
        };
    }
    let mut count: usize = 0;
    let mut i: usize = 0;
    assert(results@.take(0) =~= Seq::empty());
    while i < results.len()
        invariant
            i <= results.len(),
            count <= i,
            count == merged_count(results@.take(i as int)),
        decreases results.len() - i,
    {
        proof {
            let next = results@.take(i + 1);
            assert(next.drop_last() =~= results@.take(i as int));
            assert(next.last() == results@[i as int]);
        }
        match results[i].kind {
            MergeWorktreeIntoBaseResultKind::AlreadyUpToDate => {},
            _ => {
                count += 1;
            },
        }
        i += 1;
    }
    assert(results@.take(i as int) =~= results@);
    if count == 0 {
        let mut message = "Nothing to merge in ".to_string();
        message.append(text::decimal(results.len() as u64).as_str());
        message.append(" repositories");
        MergeThreadChangesSummary { message, offer_archive: false }
    } else {
        let mut message = "Merged thread changes in ".to_string();
        message.append(text::decimal(count as u64).as_str());
        message.append("/");
        message.append(text::decimal(results.len() as u64).as_str());
        message.append(" repositories");
        MergeThreadChangesSummary { message, offer_archive: true }
    }
}

/// Archiving is offered exactly where some merge changed something.
pub proof fn archive_is_offered_after_changes(results: Seq<MergeWorktreeIntoBaseResult>)
    ensures
        merged_count(results) > 0 <==> exists|i: int|
            0 <= i < results.len() && (#[trigger] results[i]).kind
                != MergeWorktreeIntoBaseResultKind::AlreadyUpToDate,
        merged_count(results) <= results.len(),
    decreases results.len(),
{
    if results.len() > 0 {
        let before = results.drop_last();
        archive_is_offered_after_changes(before);
        if merged_count(before) > 0 {
            let i = choose|i: int|
                0 <= i < before.len() && (#[trigger] before[i]).kind
                    != MergeWorktreeIntoBaseResultKind::AlreadyUpToDate;
            assert(results[i] == before[i]);
        }
        if exists|i: int|
            0 <= i < results.len() && (#[trigger] results[i]).kind
                != MergeWorktreeIntoBaseResultKind::AlreadyUpToDate {
            let i = choose|i: int|
                0 <= i < results.len() && (#[trigger] results[i]).kind
                    != MergeWorktreeIntoBaseResultKind::AlreadyUpToDate;
            if i < before.len() {
                assert(before[i] == results[i]);
            }
        } else {
            assert(results[results.len() - 1].kind
                == MergeWorktreeIntoBaseResultKind::AlreadyUpToDate);
        }
        if results.last().kind != MergeWorktreeIntoBaseResultKind::AlreadyUpToDate {
            assert(results[results.len() - 1].kind
                != MergeWorktreeIntoBaseResultKind::AlreadyUpToDate);
        }
    }
}

/// Tells that a branch was pushed for a pull request.
pub fn summarize_create_thread_pull_request_result(result: &ThreadWorktreePullRequest) -> (message:
    String)
    ensures
        message@ == "Pushed "@ + result.branch_name@ + checkpoint_words(result.checkpoint_created)
            + " — opening pull request page"@,
{
    let mut message = "Pushed ".to_string();
    message.append(&result.branch_name);
    message.append(checkpoint_text(result.checkpoint_created));
    message.append(" — opening pull request page");
    message
}

/// An error with its causes.
#[verifier::external_type_specification]
#[verifier::external_body]
pub struct ExAnyhowError(anyhow::Error);

/// Whether a text is one that the alternate `Display` of an `anyhow::Error` may write for
/// it. It is a relation and no function of the error: an error words its message when it is
/// displayed, and that of the operating system depends on the machine.
pub uninterp spec fn error_displays(error: anyhow::Error, chain: Seq<char>) -> bool;

/// The alternate `Display` of `anyhow::Error`: what the error and its causes say, joined
/// by colons. The text is tied to the error by [`error_displays`] alone: how the errors
/// word it is left open.
#[verifier::external_body]
pub(crate) fn error_chain(error: &anyhow::Error) -> (chain: String)
    ensures
        error_displays(*error, chain@),
{
    format!("{error:#}")
}

/// Tells that a merge failed, given what the error and its causes say.
pub fn merge_failed_message(chain: &str) -> (message: String)
    ensures
        message@ == "Merge failed: "@ + chain@,
{
    let mut message = "Merge failed: ".to_string();
    message.append(chain);
    message
}

/// Tells that a merge failed, and what displaying this error gives. The wording is left to
/// the error.
pub fn summarize_merge_thread_changes_error(error: &anyhow::Error) -> (message: String)
    ensures
        exists|chain: Seq<char>| #[trigger]
            error_displays(*error, chain) && message@ == "Merge failed: "@ + chain,
{
    merge_failed_message(&error_chain(error))
}

/// Tells that a pull request could not be made, given what the error and its causes say.
pub fn create_pull_request_failed_message(chain: &str) -> (message: String)
    ensures
        message@ == "Create PR failed: "@ + chain@,
{
    let mut message = "Create PR failed: ".to_string();
    message.append(chain);
    message
}

/// Tells that a pull request could not be made, and what displaying this error gives. The
/// wording is left to the error.
pub fn summarize_create_thread_pull_request_error(error: &anyhow::Error) -> (message: String)
    ensures
        exists|chain: Seq<char>| #[trigger]
            error_displays(*error, chain) && message@ == "Create PR failed: "@ + chain,
{
    create_pull_request_failed_message(&error_chain(error))
}

/// The name of each branch is seen at its place.
pub proof fn branches_are_seen_in_place(targets: Seq<ThreadWorktreeMergeTarget>)
    ensures
        branch_names(targets).len() == targets.len(),
        forall|i: int|
            0 <= i < targets.len() ==> #[trigger] branch_names(targets)[i] == text::optional_text(
                targets[i].target_branch_name,
            ),
{
}

/// The button names the branch exactly where all worktrees have that branch. Where one has no
/// name or two differ it names none, and says whether there are several.
pub proof fn the_button_names_a_common_branch(
    names: Seq<Option<Seq<char>>>,
    name: Seq<char>,
    i: int,
    j: int,
)
    ensures
        button_label(names) is None <==> names.len() == 0,
        names.len() > 0 && (forall|k: int|
            0 <= k < names.len() ==> #[trigger] names[k] == Some(name)) ==> button_label(names)
            == Some("Merge into "@ + name),
        0 <= i < names.len() && names[i] is None && names.len() == 1 ==> button_label(names)
            == Some("Merge into base branch"@),
        0 <= i < names.len() && names[i] is None && names.len() > 1 ==> button_label(names) == Some(
            "Merge into base branches"@,
        ),
        0 <= i < names.len() && 0 <= j < names.len() && names[i] != names[j] ==> button_label(names)
            == Some("Merge into base branches"@),
{
}

/// Whether a merge changed something.
pub open spec fn changed(result: MergeWorktreeIntoBaseResult) -> bool {
    result.kind is FastForward || result.kind is MergeCommit
}

/// Every merge that changed something is counted once, and no other.
pub proof fn every_change_is_counted(
    results: Seq<MergeWorktreeIntoBaseResult>,
    more: Seq<MergeWorktreeIntoBaseResult>,
    one: MergeWorktreeIntoBaseResult,
)
    ensures
        merged_count(results + more) == merged_count(results) + merged_count(more),
        one.kind is FastForward ==> merged_count(seq![one]) == 1,
        one.kind is MergeCommit ==> merged_count(seq![one]) == 1,
        one.kind is AlreadyUpToDate ==> merged_count(seq![one]) == 0,
        merged_count(Seq::empty()) == 0,
    decreases more.len(),
{
    if more.len() == 0 {
        assert(results + more =~= results);
    } else {
        every_change_is_counted(results, more.drop_last(), one);
        assert((results + more).drop_last() =~= results + more.drop_last());
        assert((results + more).last() == more.last());
    }
    assert(seq![one].drop_last() =~= Seq::empty());
    assert(seq![one].last() == one);
    assert(merged_count(seq![one].drop_last()) == 0);
}

proof fn count_is_of_changes(results: Seq<MergeWorktreeIntoBaseResult>)
    ensures
        merged_count(results) == results.filter(
            |result: MergeWorktreeIntoBaseResult| changed(result),
        ).len(),
    decreases results.len(),
{
    reveal(Seq::filter);
    if results.len() > 0 {
        count_is_of_changes(results.drop_last());
    }
}

/// One merge is told with its branch, and with the checkpoint where there was one and something
/// changed. Of several it is told how many changed something and how many there are.
pub proof fn merges_are_told(results: Seq<MergeWorktreeIntoBaseResult>)
    ensures
        results.len() == 1 && results[0].kind is FastForward && results[0].auto_committed
            ==> merge_message(results) == "Merged thread changes into "@
            + results[0].target_branch_name@ + " with a fast-forward"@
            + " after checkpointing uncommitted changes"@,
        results.len() == 1 && results[0].kind is FastForward && !results[0].auto_committed
            ==> merge_message(results) == "Merged thread changes into "@
            + results[0].target_branch_name@ + " with a fast-forward"@,
        results.len() == 1 && results[0].kind is MergeCommit && results[0].auto_committed
            ==> merge_message(results) == "Merged thread changes into "@
            + results[0].target_branch_name@ + " after checkpointing uncommitted changes"@,
        results.len() == 1 && results[0].kind is MergeCommit && !results[0].auto_committed
            ==> merge_message(results) == "Merged thread changes into "@
            + results[0].target_branch_name@,
        results.len() == 1 && results[0].kind is AlreadyUpToDate ==> merge_message(results)
            == "Nothing to merge into "@ + results[0].target_branch_name@,
        results.len() == 0 ==> merge_message(results)
            == "No linked git worktree found for this thread"@,
        results.len() > 1 ==> ({
            let count = results.filter(|result: MergeWorktreeIntoBaseResult| changed(result)).len();
            &&& count == 0 ==> merge_message(results) == "Nothing to merge in "@
                + text::decimal_text(results.len()) + " repositories"@
            &&& count > 0 ==> merge_message(results) == "Merged thread changes in "@
                + text::decimal_text(count) + "/"@ + text::decimal_text(results.len())
                + " repositories"@
        }),
{
    count_is_of_changes(results);
    reveal_strlit("");
    if results.len() == 1 && !results[0].auto_committed {
        let into = "Merged thread changes into "@ + results[0].target_branch_name@;
        assert(into + ""@ =~= into);
        assert(into + " with a fast-forward"@ + ""@ =~= into + " with a fast-forward"@);
    }
}

/// A checkpoint is told of exactly where there was one.
pub proof fn checkpoints_are_told(created: bool)
    ensures
        created <==> checkpoint_words(created) == " after checkpointing uncommitted changes"@,
        !created <==> checkpoint_words(created).len() == 0,
{
    reveal_strlit("");
    reveal_strlit(" after checkpointing uncommitted changes");
}

} // verus!
