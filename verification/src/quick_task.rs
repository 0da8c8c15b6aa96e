//! Quick tasks: whether they can be started, and the queue that starts one at a time.
use std::collections::VecDeque;
use vstd::prelude::*;
use vstd::string::StringExecFns;

use crate::limits;
use crate::text;
use crate::thread_landing;

verus! {

/// Whether quick tasks can be started, or why not.
#[derive(Clone, Copy, Debug, PartialEq, Eq, Structural)]
pub enum QuickTaskEligibility {
    Eligible,
    NoGitRepository,
    CollaborativeProject,
    NoAgentPanel,
    NoNativeSiblingHost,
}

impl QuickTaskEligibility {
    pub fn from_parts(
        project_has_git_repository: bool,
        is_collaborative_project: bool,
        has_agent_panel: bool,
        has_native_sibling_host: bool,
    ) -> (eligibility: Self)
        ensures
            eligibility == (if !project_has_git_repository {
                QuickTaskEligibility::NoGitRepository
            } else if is_collaborative_project {
                QuickTaskEligibility::CollaborativeProject
            } else if !has_agent_panel {
                QuickTaskEligibility::NoAgentPanel
            } else if !has_native_sibling_host {
                QuickTaskEligibility::NoNativeSiblingHost
            } else {
                QuickTaskEligibility::Eligible
            }),
    {
        if !project_has_git_repository {
            QuickTaskEligibility::NoGitRepository
        } else if is_collaborative_project {
            QuickTaskEligibility::CollaborativeProject
        } else if !has_agent_panel {
            QuickTaskEligibility::NoAgentPanel
        } else if !has_native_sibling_host {
            QuickTaskEligibility::NoNativeSiblingHost
        } else {
            QuickTaskEligibility::Eligible
        }
    }

    pub fn is_eligible(&self) -> (eligible: bool)
        ensures
            eligible == (*self == QuickTaskEligibility::Eligible),
    {
        match self {
            QuickTaskEligibility::Eligible => true,
            _ => false,
        }
    }

    /// Why quick tasks cannot be started.
    pub open spec fn reason_text(self) -> Option<Seq<char>> {
        match self {
            QuickTaskEligibility::Eligible => None,
            QuickTaskEligibility::NoGitRepository => Some(
                "Quick Task needs at least one git repository in this project."@,
            ),
            QuickTaskEligibility::CollaborativeProject => Some(
                "Quick Task cannot create fresh worktrees in collaborative projects."@,
            ),
            QuickTaskEligibility::NoAgentPanel => Some(
                "Quick Task needs the agent panel in this workspace."@,
            ),
            QuickTaskEligibility::NoNativeSiblingHost => Some(
                "Quick Task needs native sibling-thread support in this workspace."@,
            ),
        }
    }

    pub fn reason(&self) -> (reason: Option<&'static str>)
        ensures
            match reason {
                Some(reason) => self.reason_text() == Some(reason@),
                None => self.reason_text() is None,
            },
    {
        match self {
            QuickTaskEligibility::Eligible => None,
            QuickTaskEligibility::NoGitRepository => Some(
                "Quick Task needs at least one git repository in this project.",
            ),
            QuickTaskEligibility::CollaborativeProject => Some(
                "Quick Task cannot create fresh worktrees in collaborative projects.",
            ),
            QuickTaskEligibility::NoAgentPanel => Some(
                "Quick Task needs the agent panel in this workspace.",
            ),
            QuickTaskEligibility::NoNativeSiblingHost => Some(
                "Quick Task needs native sibling-thread support in this workspace.",
            ),
        }
    }
}

/// The name of a project: the names of its first three folders and how many more there
/// are.
pub open spec fn display_name(names: Seq<Seq<char>>) -> Seq<char> {
    if names.len() == 0 {
        "empty project"@
    } else if names.len() <= 3 {
        text::joined(names, ", "@)
    } else {
        text::joined(
            names.take(3).push("+"@ + text::decimal_text((names.len() - 3) as nat) + " more"@),
            ", "@,
        )
    }
}

/// Names a project by the names of its folders.
pub fn project_display_name(worktree_root_names: &Vec<String>) -> (name: String)
    ensures
        name@ == display_name(text::texts(worktree_root_names@)),
{
    let ghost all = text::texts(worktree_root_names@);
    let count = worktree_root_names.len();
    if count == 0 {
        return "empty project".to_string();
    }
    let mut names: Vec<String> = Vec::new();
    let mut i: usize = 0;
    while i < count && i < 3
        invariant
            count == worktree_root_names.len(),
            i <= count,
            i <= 3,
            names.len() == i,
            forall|j: int| 0 <= j < i ==> (#[trigger] names@[j])@ == worktree_root_names@[j]@,
        decreases count - i,
    {
        names.push(worktree_root_names[i].clone());
        i += 1;
    }
    assert(text::texts(names@) =~= all.take(i as int));
    if count > 3 {
        let mut more = "+".to_string();
        more.append(text::decimal((count - 3) as u64).as_str());
        more.append(" more");
        names.push(more);
        assert(text::texts(names@) =~= all.take(3).push(more@));
    } else {
        assert(all.take(i as int) =~= all);
    }
    text::join(&names, ", ")
}

/// A task that waits to be started: the request for its thread, and its title.
#[derive(Debug, PartialEq, Eq)]
pub struct QueuedQuickTask<R> {
    pub request: R,
    pub title: String,
}

/// The model of a [`QueuedQuickTask`].
pub struct QueuedTaskView<R> {
    pub request: R,
    pub title: Seq<char>,
}

impl<R> View for QueuedQuickTask<R> {
    type V = QueuedTaskView<R>;

    open spec fn view(&self) -> QueuedTaskView<R> {
        QueuedTaskView { request: self.request, title: self.title@ }
    }
}

/// How starting a task ended.
#[derive(Debug)]
pub enum TaskOutcome {
    /// It was started, under the title of its thread.
    Started { title: String },
    /// It was not; the error and its causes say why.
    Failed { error_chain: String },
}

/// The queue of quick tasks, which starts one at a time.
#[derive(Debug)]
pub struct QuickTaskQueue<R> {
    pending_tasks: VecDeque<QueuedQuickTask<R>>,
    is_starting_task: bool,
    active_title: Option<String>,
    status_lines: VecDeque<String>,
}

/// The model of a [`QuickTaskQueue`].
pub struct QueueView<R> {
    /// The tasks that wait, the next one first.
    pub pending: Seq<QueuedTaskView<R>>,
    /// The title of the task that is being started.
    pub starting: Option<Seq<char>>,
    /// What became of the last tasks.
    pub status: Seq<Seq<char>>,
}

impl<R> QueueView<R> {
    /// The queue with the next task started, where none is being started.
    pub open spec fn started_next(self) -> Self {
        if self.starting is None && self.pending.len() > 0 {
            QueueView {
                pending: self.pending.drop_first(),
                starting: Some(self.pending.first().title),
                ..self
            }
        } else {
            self
        }
    }

    /// The request that is started next, where none is being started.
    pub open spec fn next_request(self) -> Option<R> {
        if self.starting is None && self.pending.len() > 0 {
            Some(self.pending.first().request)
        } else {
            None
        }
    }

    /// The queue with a task added at its end.
    pub open spec fn with_task(self, task: QueuedTaskView<R>) -> Self {
        QueueView { pending: self.pending.push(task), ..self }
    }

    /// The queue once starting a task has ended.
    pub open spec fn finished(self, outcome: TaskOutcome) -> Self {
        QueueView {
            starting: None,
            status: limits::last_of(self.status.push(status_line(self.starting->0, outcome)), 3),
            ..self
        }
    }

    /// Whether no task waits while none is being started.
    pub open spec fn is_busy_while_tasks_wait(self) -> bool {
        self.pending.len() > 0 ==> self.starting is Some
    }
}

/// The line that tells how starting a task ended.
pub open spec fn status_line(title: Seq<char>, outcome: TaskOutcome) -> Seq<char> {
    match outcome {
        TaskOutcome::Started { title } => "Started: "@ + title@,
        TaskOutcome::Failed { error_chain } => "Failed: "@ + title + ": "@ + error_chain@,
    }
}

impl<R> View for QuickTaskQueue<R> {
    type V = QueueView<R>;

    closed spec fn view(&self) -> QueueView<R> {
        QueueView {
            pending: self.pending_tasks@.map_values(|task: QueuedQuickTask<R>| task@),
            starting: text::optional_text(self.active_title),
            status: text::texts(self.status_lines@),
        }
    }
}

impl<R> QuickTaskQueue<R> {
    /// The invariant: the title of the task that is being started is known, and no task
    /// waits while none is being started.
    pub closed spec fn wf(&self) -> bool {
        &&& self.is_starting_task <==> self.active_title is Some
        &&& self@.is_busy_while_tasks_wait()
    }

    pub fn new() -> (queue: Self)
        ensures
            queue.wf(),
            queue@ == (QueueView::<R> {
                pending: Seq::empty(),
                starting: None,
                status: Seq::empty(),
            }),
    {
        let queue = QuickTaskQueue {
            pending_tasks: VecDeque::new(),
            is_starting_task: false,
            active_title: None,
            status_lines: VecDeque::new(),
        };
        assert(queue@.pending =~= Seq::empty());
        assert(queue@.status =~= Seq::empty());
        queue
    }

    /// Adds a task. The request that is to be started now, if any, is handed back.
    pub fn enqueue(&mut self, request: R, title: String) -> (start: Option<R>)
        requires
            old(self).wf(),
        ensures
            final(self).wf(),
            ({
                let more = old(self)@.with_task(QueuedTaskView { request, title: title@ });
                &&& final(self)@ == more.started_next()
                &&& start == more.next_request()
            }),
    {
        let ghost before = self@;
        let ghost task = QueuedTaskView { request, title: title@ };
        self.pending_tasks.push_back(QueuedQuickTask { request, title });
        assert(self@.pending =~= before.pending.push(task));
        self.start_next()
    }

    fn start_next(&mut self) -> (start: Option<R>)
        requires
            old(self).is_starting_task <==> old(self).active_title is Some,
        ensures
            final(self).is_starting_task <==> final(self).active_title is Some,
            final(self)@ == old(self)@.started_next(),
            start == old(self)@.next_request(),
    {
        if self.is_starting_task {
            return None;
        }
        let ghost before = self@;
        let ghost tasks = self.pending_tasks@;
        match self.pending_tasks.pop_front() {
            None => {
                self.active_title = None;
                None
            },
            Some(task) => {
                assert(tasks[0] == task);
                assert(before.pending.first() == task@);
                self.is_starting_task = true;
                self.active_title = Some(task.title);
                assert(self@.pending =~= before.pending.drop_first());
                Some(task.request)
            },
        }
    }

    /// Takes in how starting a task ended. The request that is to be started now, if any,
    /// is handed back.
    pub fn finish(&mut self, outcome: TaskOutcome) -> (start: Option<R>)
        requires
            old(self).wf(),
            old(self)@.starting is Some,
        ensures
            final(self).wf(),
            final(self)@ == old(self)@.finished(outcome).started_next(),
            start == old(self)@.finished(outcome).next_request(),
    {
        let ghost before = self@;
        let line = match outcome {
            TaskOutcome::Started { title } => {
                let mut line = "Started: ".to_string();
                line.append(&title);
                line
            },
            TaskOutcome::Failed { error_chain } => {
                let mut line = "Failed: ".to_string();
                if let Some(title) = &self.active_title {
                    line.append(title);
                }
                line.append(": ");
                line.append(&error_chain);
                line
            },
        };
        self.is_starting_task = false;
        self.active_title = None;
        self.push_status(line);
        assert(self@ == before.finished(outcome));
        self.start_next()
    }

    fn push_status(&mut self, status: String)
        ensures
            final(self)@ == (QueueView {
                status: limits::last_of(old(self)@.status.push(status@), 3),
                ..old(self)@
            }),
            final(self).is_starting_task == old(self).is_starting_task,
            final(self).active_title == old(self).active_title,
    {
        let ghost before = self@;
        self.status_lines.push_back(status);
        let ghost all = self.status_lines@;
        let ghost views = before.status.push(status@);
        assert(text::texts(all) =~= views);
        while self.status_lines.len() > 3
            invariant
                self.status_lines@.len() <= all.len(),
                self.status_lines@.len() == all.len() || self.status_lines@.len() >= 3,
                self.status_lines@ == all.subrange(
                    all.len() - self.status_lines@.len(),
                    all.len() as int,
                ),
                self.pending_tasks == old(self).pending_tasks,
                self.is_starting_task == old(self).is_starting_task,
                self.active_title == old(self).active_title,
            decreases self.status_lines.len(),
        {
            let _ = self.status_lines.pop_front();
            assert(self.status_lines@ =~= all.subrange(
                all.len() - self.status_lines@.len(),
                all.len() as int,
            ));
        }
        assert(self@.status =~= limits::last_of(views, 3)) by {
            let dropped = all.len() - self.status_lines@.len();
            assert forall|i: int| 0 <= i < self.status_lines@.len() implies self@.status[i]
                == views[dropped + i] by {
                assert(self.status_lines@[i] == all[dropped + i]);
                assert(text::texts(all)[dropped + i] == views[dropped + i]);
            }
        }
    }

    pub fn pending_count(&self) -> (count: usize)
        ensures
            count == self@.pending.len(),
    {
        self.pending_tasks.len()
    }

    /// The lines that tell what became of the last tasks.
    pub fn status_lines(&self) -> (lines: Vec<String>)
        ensures
            text::texts(lines@) == self@.status,
    {
        let mut lines: Vec<String> = Vec::new();
        let mut i: usize = 0;
        while i < self.status_lines.len()
            invariant
                i <= self.status_lines.len(),
                lines.len() == i,
                forall|j: int| 0 <= j < i ==> (#[trigger] lines@[j])@ == self.status_lines@[j]@,
            decreases self.status_lines.len() - i,
        {
            lines.push(self.status_lines[i].clone());
            i += 1;
        }
        assert(text::texts(lines@) =~= self@.status);
        lines
    }

    /// What the queue is doing: starting a task, or holding tasks back.
    pub fn state_text(&self) -> (state: Option<String>)
        ensures
            text::optional_text(state) == queue_state(self@),
    {
        match &self.active_title {
            Some(title) => {
                let mut state = "Starting: ".to_string();
                state.append(title);
                Some(state)
            },
            None => {
                let count = self.pending_tasks.len();
                if count > 0 {
                    let mut state = text::decimal(count as u64);
                    state.append(" queued");
                    Some(state)
                } else {
                    None
                }
            },
        }
    }
}

/// What a queue is doing, in words.
pub open spec fn queue_state<R>(queue: QueueView<R>) -> Option<Seq<char>> {
    match queue.starting {
        Some(title) => Some("Starting: "@ + title),
        None => if queue.pending.len() > 0 {
            Some(text::decimal_text(queue.pending.len()) + " queued"@)
        } else {
            None
        },
    }
}

/// Tells that a task could not be started, for the reason that an error and its causes
/// give. The reason is what displaying this error gave; its wording is left to the error.
pub fn failed_outcome(error: &anyhow::Error) -> (outcome: TaskOutcome)
    ensures
        outcome matches TaskOutcome::Failed { error_chain } && thread_landing::error_displays(
            *error,
            error_chain@,
        ),
{
    TaskOutcome::Failed { error_chain: thread_landing::error_chain(error) }
}

/// Tasks are started in the order in which they came: what waits is always the end of
/// what waited and came, and the task that is started is the one before it.
pub proof fn first_come_first_started<R>(queue: QueueView<R>, task: QueuedTaskView<R>)
    requires
        queue.is_busy_while_tasks_wait(),
    ensures
        ({
            let all = queue.pending.push(task);
            let more = queue.with_task(task);
            &&& more.next_request() is None ==> more.started_next().pending == all
            &&& more.next_request() matches Some(request) ==> all == seq![task] && request
                == task.request && more.started_next().pending == Seq::<QueuedTaskView<R>>::empty()
            &&& more.started_next().is_busy_while_tasks_wait()
            &&& more.started_next().starting is Some
        }),
{
    let all = queue.pending.push(task);
    if queue.starting is None {
        assert(queue.pending.len() == 0);
        assert(all =~= seq![task]);
        assert(all.drop_first() =~= Seq::empty());
    }
}

/// When starting a task has ended the next one is started at once, and only the last
/// three outcomes are shown.
pub proof fn next_is_started_at_once<R>(queue: QueueView<R>, outcome: TaskOutcome)
    requires
        queue.starting is Some,
    ensures
        ({
            let after = queue.finished(outcome).started_next();
            &&& after.is_busy_while_tasks_wait()
            &&& after.status.len() <= 3
            &&& after.status.last() == status_line(queue.starting->0, outcome)
            &&& queue.pending.len() > 0 ==> after.starting == Some(queue.pending.first().title)
                && after.pending == queue.pending.drop_first()
            &&& queue.pending.len() == 0 ==> after.starting is None
        }),
{
}

/// The dialog in which a task is described.
#[derive(Debug)]
pub struct QuickTaskModal {
    pub project_name: String,
    pub eligibility: QuickTaskEligibility,
    pub has_queue: bool,
    pub last_error: Option<String>,
}

/// What becomes of a task that is submitted: the prompt to start it with, or the error to
/// show.
pub open spec fn submission(
    eligibility: QuickTaskEligibility,
    has_queue: bool,
    prompt: Seq<char>,
) -> Result<Seq<char>, Option<Seq<char>>> {
    if eligibility != QuickTaskEligibility::Eligible {
        Err(eligibility.reason_text())
    } else if !has_queue {
        Err(Some("Quick Task needs native sibling-thread support."@))
    } else if text::trimmed(prompt).len() == 0 {
        Err(Some("Enter a task prompt."@))
    } else {
        Ok(text::trimmed(prompt))
    }
}

impl QuickTaskModal {
    pub fn new(project_name: String, eligibility: QuickTaskEligibility, has_host: bool) -> (modal:
        Self)
        ensures
            modal.project_name@ == project_name@,
            modal.eligibility == eligibility,
            modal.has_queue == has_host,
            modal.last_error is None,
    {
        QuickTaskModal { project_name, eligibility, has_queue: has_host, last_error: None }
    }

    /// Takes in the text that was submitted. The prompt to start a task with is handed
    /// back, without the white space around it; then the text is to be cleared.
    pub fn submit<'a>(&mut self, prompt: &'a str) -> (start: Option<&'a str>)
        ensures
            final(self).project_name == old(self).project_name,
            final(self).eligibility == old(self).eligibility,
            final(self).has_queue == old(self).has_queue,
            match submission(old(self).eligibility, old(self).has_queue, prompt@) {
                Ok(trimmed) => final(self).last_error is None && (start matches Some(start)
                    && start@ == trimmed),
                Err(error) => text::optional_text(final(self).last_error) == error && start is None,
            },
    {
        if !self.eligibility.is_eligible() {
            self.last_error = match self.eligibility.reason() {
                Some(reason) => Some(reason.to_string()),
                None => None,
            };
            return None;
        }
        if !self.has_queue {
            self.last_error = Some("Quick Task needs native sibling-thread support.".to_string());
            return None;
        }
        let prompt = text::trim(prompt);
        if prompt.is_empty() {
            self.last_error = Some("Enter a task prompt.".to_string());
            return None;
        }
        self.last_error = None;
        Some(prompt)
    }

    /// What the dialog shows, given what its queue is doing and has done.
    pub fn content(&self, queue_state: Option<String>, status_lines: Vec<String>) -> (content:
        ModalContent)
        ensures
            content.headline@ == "Quick Task"@,
            content.description@ == "Project: "@ + self.project_name@
                + ". Tasks run in a fresh worktree."@,
            content.shows_editor == (self.eligibility == QuickTaskEligibility::Eligible),
            match content.reason {
                Some(reason) => self.eligibility.reason_text() == Some(reason@),
                None => self.eligibility.reason_text() is None,
            },
            content.error == self.last_error,
            content.status_lines == status_lines,
            content.footer == queue_state,
            content.start_is_disabled == (self.eligibility != QuickTaskEligibility::Eligible),
    {
        let mut description = "Project: ".to_string();
        description.append(&self.project_name);
        description.append(". Tasks run in a fresh worktree.");
        ModalContent {
            headline: "Quick Task",
            description,
            shows_editor: self.eligibility.is_eligible(),
            reason: self.eligibility.reason(),
            error: self.last_error.clone(),
            status_lines,
            footer: queue_state,
            start_is_disabled: !self.eligibility.is_eligible(),
        }
    }
}

/// What the dialog shows.
#[derive(Debug)]
pub struct ModalContent {
    pub headline: &'static str,
    pub description: String,
    pub shows_editor: bool,
    /// Why there is no editor.
    pub reason: Option<&'static str>,
    pub error: Option<String>,
    pub status_lines: Vec<String>,
    pub footer: Option<String>,
    pub start_is_disabled: bool,
}

/// A task is seen whole.
pub proof fn tasks_are_seen_whole<R>(task: QueuedQuickTask<R>)
    ensures
        task@.request == task.request,
        task@.title == task.title@,
{
}

/// Quick tasks are refused for a reason exactly where they cannot be started, and each reason
/// is its own.
pub proof fn only_refusals_have_reasons(eligibility: QuickTaskEligibility)
    ensures
        eligibility.reason_text() is None <==> eligibility == QuickTaskEligibility::Eligible,
        eligibility.reason_text() is Some ==> ({
            let reason = eligibility.reason_text()->0;
            &&& reason == "Quick Task needs at least one git repository in this project."@ <==> (
            eligibility == QuickTaskEligibility::NoGitRepository)
            &&& reason == "Quick Task cannot create fresh worktrees in collaborative projects."@
                <==> (eligibility == QuickTaskEligibility::CollaborativeProject)
            &&& reason == "Quick Task needs the agent panel in this workspace."@ <==> (eligibility
                == QuickTaskEligibility::NoAgentPanel)
            &&& reason == "Quick Task needs native sibling-thread support in this workspace."@
                <==> (eligibility == QuickTaskEligibility::NoNativeSiblingHost)
        }),
{
    reveal_strlit("Quick Task needs at least one git repository in this project.");
    reveal_strlit("Quick Task cannot create fresh worktrees in collaborative projects.");
    reveal_strlit("Quick Task needs the agent panel in this workspace.");
    reveal_strlit("Quick Task needs native sibling-thread support in this workspace.");
    assert("Quick Task needs at least one git repository in this project."@.len() == 61);
    assert("Quick Task cannot create fresh worktrees in collaborative projects."@.len() == 67);
    assert("Quick Task needs the agent panel in this workspace."@.len() == 51);
    assert("Quick Task needs native sibling-thread support in this workspace."@.len() == 65);
}

/// The name of a project joins the names of all its folders where there are at most three.
/// Else it joins the first three and goes on with how many more there are.
pub proof fn projects_are_named_by_their_folders(names: Seq<Seq<char>>)
    ensures
        names.len() == 0 ==> display_name(names) == "empty project"@,
        names.len() == 1 ==> display_name(names) == names[0],
        names.len() == 2 ==> display_name(names) == names[0] + ", "@ + names[1],
        names.len() == 3 ==> display_name(names) == names[0] + ", "@ + names[1] + ", "@ + names[2],
        names.len() > 3 ==> display_name(names) == names[0] + ", "@ + names[1] + ", "@ + names[2]
            + ", "@ + ("+"@ + text::decimal_text((names.len() - 3) as nat) + " more"@),
{
    reveal_with_fuel(text::joined, 5);
}

/// Where no task is being started the next one is, and the others move up; what became of the
/// earlier ones stays. While one is being started, or where none waits, nothing changes.
pub proof fn the_next_task_is_started<R>(queue: QueueView<R>)
    ensures
        queue.starting is Some || queue.pending.len() == 0 ==> queue.started_next() == queue
            && queue.next_request() is None,
        queue.starting is None && queue.pending.len() > 0 ==> ({
            let after = queue.started_next();
            &&& queue.next_request() == Some(queue.pending[0].request)
            &&& after.starting == Some(queue.pending[0].title)
            &&& after.pending.len() == queue.pending.len() - 1
            &&& forall|i: int|
                0 <= i < after.pending.len() ==> #[trigger] after.pending[i] == queue.pending[i + 1]
            &&& after.status == queue.status
        }),
{
}

/// A task that is added waits behind all others, and nothing else changes.
pub proof fn tasks_wait_at_the_end<R>(queue: QueueView<R>, task: QueuedTaskView<R>)
    ensures
        queue.with_task(task).pending.len() == queue.pending.len() + 1,
        queue.with_task(task).pending.last() == task,
        forall|i: int|
            0 <= i < queue.pending.len() ==> #[trigger] queue.with_task(task).pending[i]
                == queue.pending[i],
        queue.with_task(task).starting == queue.starting,
        queue.with_task(task).status == queue.status,
{
}

/// When starting a task has ended its line is the last, behind the two before it; no task is
/// being started then, and those that wait stay.
pub proof fn outcomes_are_shown_last<R>(queue: QueueView<R>, outcome: TaskOutcome)
    ensures
        ({
            let after = queue.finished(outcome);
            &&& after.starting is None
            &&& after.pending == queue.pending
            &&& after.status.len() == (if queue.status.len() < 3 {
                queue.status.len() + 1
            } else {
                3
            })
            &&& after.status.last() == status_line(queue.starting->0, outcome)
            &&& forall|i: int|
                0 <= i < after.status.len() - 1 ==> #[trigger] after.status[i]
                    == queue.status[queue.status.len() - after.status.len() + 1 + i]
        }),
{
}

/// The line about a task that was started ends with the title of its thread, and the line
/// about one that was not holds the title of the task and ends with the reason.
pub proof fn outcomes_are_told(title: Seq<char>, outcome: TaskOutcome)
    ensures
        outcome matches TaskOutcome::Started { title: started } ==> {
            &&& "Started: "@.is_prefix_of(status_line(title, outcome))
            &&& status_line(title, outcome).skip("Started: "@.len() as int) == started@
        },
        outcome matches TaskOutcome::Failed { error_chain } ==> {
            let line = status_line(title, outcome);
            let start = "Failed: "@.len() as int;
            let colon = start + title.len();
            let reason = colon + ": "@.len();
            &&& "Failed: "@.is_prefix_of(line)
            &&& line.subrange(start, colon) == title
            &&& line.subrange(colon, reason) == ": "@
            &&& line.skip(reason) == error_chain@
        },
{
    if let TaskOutcome::Started { title: started } = outcome {
        assert(status_line(title, outcome).skip("Started: "@.len() as int) =~= started@);
    }
    if let TaskOutcome::Failed { error_chain } = outcome {
        let line = status_line(title, outcome);
        let start = "Failed: "@.len() as int;
        let colon = start + title.len();
        let reason = colon + ": "@.len();
        assert(line.subrange(0, start) =~= "Failed: "@);
        assert(line.subrange(start, colon) =~= title);
        assert(line.subrange(colon, reason) =~= ": "@);
        assert(line.skip(reason) =~= error_chain@);
    }
}

/// A queue says what it is doing: the title of the task that is being started, else how many
/// tasks wait, else nothing.
pub proof fn queues_say_what_they_do<R>(queue: QueueView<R>)
    ensures
        queue_state(queue) is None <==> queue.starting is None && queue.pending.len() == 0,
        queue.starting matches Some(title) ==> queue_state(queue) == Some("Starting: "@ + title),
        queue.starting is None && queue.pending.len() > 0 ==> (queue_state(queue) matches Some(
            state,
        ) && state.len() > " queued"@.len() && state.subrange(
            state.len() - " queued"@.len(),
            state.len() as int,
        ) == " queued"@ && text::decimal_value(
            state.take(state.len() - " queued"@.len()),
        ) == queue.pending.len()),
{
    if queue.starting is None && queue.pending.len() > 0 {
        let number = text::decimal_text(queue.pending.len());
        let state = number + " queued"@;
        assert(state.subrange(number.len() as int, state.len() as int) =~= " queued"@);
        assert(state.take(number.len() as int) =~= number);
        text::decimal_text_gives_the_number(queue.pending.len());
    }
}

/// A task is started with the text between the white space around it, exactly where tasks can
/// be started, there is a queue and there is such a text. Else the first of these that is
/// missing is told.
pub proof fn submissions_start_the_prompt(
    eligibility: QuickTaskEligibility,
    has_queue: bool,
    prompt: Seq<char>,
)
    ensures
        submission(eligibility, has_queue, prompt) is Ok <==> (eligibility
            == QuickTaskEligibility::Eligible && has_queue && text::trimmed(prompt).len() > 0),
        submission(eligibility, has_queue, prompt) matches Ok(start) ==> start == text::trimmed(
            prompt,
        ),
        eligibility != QuickTaskEligibility::Eligible ==> submission(eligibility, has_queue, prompt)
            == Err::<Seq<char>, Option<Seq<char>>>(eligibility.reason_text()),
        eligibility == QuickTaskEligibility::Eligible && !has_queue ==> submission(
            eligibility,
            has_queue,
            prompt,
        ) == Err::<Seq<char>, Option<Seq<char>>>(
            Some("Quick Task needs native sibling-thread support."@),
        ),
        eligibility == QuickTaskEligibility::Eligible && has_queue && text::trimmed(prompt).len()
            == 0 ==> submission(eligibility, has_queue, prompt) == Err::<
            Seq<char>,
            Option<Seq<char>>,
        >(Some("Enter a task prompt."@)),
{
}

/// A queue never holds tasks back while none is being started.
pub proof fn no_task_waits_in_an_idle_queue<R>(queue: QuickTaskQueue<R>)
    requires
        queue.wf(),
    ensures
        queue@.starting is None ==> queue@.pending.len() == 0,
{
}

} // verus!
