//! The host of agent sessions: which sessions there are, what happened in each, who
//! follows them, and which turns run.
use vstd::prelude::*;
use vstd::string::StringExecFns;

use crate::event_buffer;
use crate::event_buffer::{SessionEventBuffer, AGENT_EVENT_BUFFER_LIMIT};
use crate::remote_agent_connection;
use crate::session_event;
use crate::session_event::{
    AgentSessionEvent, BufferedAgentEvent, BufferedAgentSessionEvent, SerializableThreadEvent,
    SerializedAgentThreadEvent, SubscribeAgentSessionResponse,
};
use crate::sign_in;
use crate::sign_in::{BeginAgentSignInResponse, OAuthFlow, PendingAgentSignIn, SignInError};
use crate::table;
use crate::table::TextTable;
use crate::text;
use crate::thread_metadata;
use crate::thread_metadata::ThreadMetadata;
use crate::tool_authorization;
use crate::tool_authorization::{
    AgentToolAuthorizationRequestEvent, AgentToolAuthorizationResolvedEvent,
    SelectedPermissionOutcome, ToolAuthorizationResolveError, ToolAuthorizationStore,
    ToolCallAuthorization,
};

verus! {

/// How many turns run. There is one count of the turns of a host, which the host holds.
#[derive(Debug, PartialEq, Eq, Structural)]
pub struct AgentTurnActivity {
    pub active_turns: usize,
}

/// The number after another; the first number follows the last.
pub open spec fn next_count(count: usize) -> usize {
    if count == usize::MAX {
        0
    } else {
        (count + 1) as usize
    }
}

/// The number before another; the last number comes before the first.
pub open spec fn previous_count(count: usize) -> usize {
    if count == 0 {
        usize::MAX
    } else {
        (count - 1) as usize
    }
}

impl Default for AgentTurnActivity {
    fn default() -> (activity: Self)
        ensures
            activity.active_turns == 0,
    {
        AgentTurnActivity { active_turns: 0 }
    }
}

impl AgentTurnActivity {
    pub fn active_turn_count(&self) -> (count: usize)
        ensures
            count == self.active_turns,
    {
        self.active_turns
    }

    /// Counts a turn that starts.
    pub fn start_turn(&mut self)
        ensures
            final(self).active_turns == next_count(old(self).active_turns),
    {
        self.active_turns = if self.active_turns == usize::MAX {
            0
        } else {
            self.active_turns + 1
        };
    }

    /// Counts a turn that ends.
    pub fn finish_turn(&mut self)
        ensures
            final(self).active_turns == previous_count(old(self).active_turns),
    {
        self.active_turns = if self.active_turns == 0 {
            usize::MAX
        } else {
            self.active_turns - 1
        };
    }
}

/// A turn that started and ended leaves the count as it was.
pub proof fn turns_are_balanced(count: usize)
    ensures
        previous_count(next_count(count)) == count,
        next_count(previous_count(count)) == count,
{
}

/// What happens to the count of the turns.
pub enum TurnStep {
    Started,
    Ended,
}

/// The count after a list of steps.
pub open spec fn counted(steps: Seq<TurnStep>) -> usize
    decreases steps.len(),
{
    if steps.len() == 0 {
        0
    } else {
        match steps.last() {
            TurnStep::Started => next_count(counted(steps.drop_last())),
            TurnStep::Ended => previous_count(counted(steps.drop_last())),
        }
    }
}

/// How many turns started.
pub open spec fn started(steps: Seq<TurnStep>) -> nat
    decreases steps.len(),
{
    if steps.len() == 0 {
        0
    } else {
        started(steps.drop_last()) + if steps.last() is Started {
            1nat
        } else {
            0
        }
    }
}

/// How many turns ended.
pub open spec fn ended(steps: Seq<TurnStep>) -> nat
    decreases steps.len(),
{
    if steps.len() == 0 {
        0
    } else {
        ended(steps.drop_last()) + if steps.last() is Ended {
            1nat
        } else {
            0
        }
    }
}

/// Whether a turn only ends after it started.
pub open spec fn ends_follow_starts(steps: Seq<TurnStep>) -> bool
    decreases steps.len(),
{
    ended(steps) <= started(steps) && (steps.len() > 0 ==> ends_follow_starts(steps.drop_last()))
}

/// The count is the number of the turns that started less that of the turns that ended.
pub proof fn turns_are_counted(steps: Seq<TurnStep>)
    requires
        ends_follow_starts(steps),
        started(steps) <= usize::MAX,
    ensures
        counted(steps) == started(steps) - ended(steps),
    decreases steps.len(),
{
    if steps.len() > 0 {
        turns_are_counted(steps.drop_last());
    }
}

/// Why the host refused a request.
#[derive(Debug)]
pub enum HostError {
    SessionNotFound,
    TurnIsRunning,
    Authorization(ToolAuthorizationResolveError),
    SerializeEventPayload(serde_json::Error),
}

/// The model of a [`HostError`].
pub enum HostFault {
    SessionNotFound,
    TurnIsRunning,
    Authorization(ToolAuthorizationResolveError),
    SerializeEventPayload,
}

impl View for HostError {
    type V = HostFault;

    open spec fn view(&self) -> HostFault {
        match *self {
            HostError::SessionNotFound => HostFault::SessionNotFound,
            HostError::TurnIsRunning => HostFault::TurnIsRunning,
            HostError::Authorization(error) => HostFault::Authorization(error),
            HostError::SerializeEventPayload(_) => HostFault::SerializeEventPayload,
        }
    }
}

impl HostError {
    pub fn message(&self) -> (message: &'static str)
        ensures
            message@ == (match self@ {
                HostFault::SessionNotFound => "agent session not found"@,
                HostFault::TurnIsRunning => "agent session already has a running turn"@,
                HostFault::Authorization(error) => error.text(),
                HostFault::SerializeEventPayload => "serialize agent thread event payload"@,
            }),
    {
        match self {
            HostError::SessionNotFound => "agent session not found",
            HostError::TurnIsRunning => "agent session already has a running turn",
            HostError::Authorization(error) => error.message(),
            HostError::SerializeEventPayload(_) => "serialize agent thread event payload",
        }
    }
}

/// The model of the outcome of [`AgentSessionHost::respond_tool_authorization`].
pub open spec fn answered(res: Result<AgentToolAuthorizationResolvedEvent, HostError>) -> Result<
    tool_authorization::ResolvedView,
    HostFault,
> {
    match res {
        Ok(event) => Ok(event@),
        Err(error) => Err(error@),
    }
}

/// What the host tells of an answer, given what is told of it in its session.
pub open spec fn answered_with(
    told: Result<tool_authorization::ResolvedView, ToolAuthorizationResolveError>,
) -> Result<tool_authorization::ResolvedView, HostFault> {
    match told {
        Ok(event) => Ok(event),
        Err(error) => Err(HostFault::Authorization(error)),
    }
}

/// A session of the host.
pub struct HostedAgentSession {
    events: SessionEventBuffer,
    approvals: ToolAuthorizationStore,
    has_running_turn: bool,
}

/// The model of a [`HostedAgentSession`].
pub struct HostedSessionView {
    pub events: event_buffer::EventBufferView,
    pub approvals: tool_authorization::AuthorizationStoreView,
    pub has_running_turn: bool,
}

impl View for HostedAgentSession {
    type V = HostedSessionView;

    closed spec fn view(&self) -> HostedSessionView {
        HostedSessionView {
            events: self.events@,
            approvals: self.approvals@,
            has_running_turn: self.has_running_turn,
        }
    }
}

impl HostedAgentSession {
    pub closed spec fn wf(&self) -> bool {
        self.events.wf() && self.approvals.wf()
    }

    fn new() -> (session: Self)
        ensures
            session.wf(),
            session@ == HostedSessionView::fresh(),
    {
        HostedAgentSession {
            events: SessionEventBuffer::default(),
            approvals: ToolAuthorizationStore::default(),
            has_running_turn: false,
        }
    }
}

impl HostedSessionView {
    /// A session in which nothing has happened.
    pub open spec fn fresh() -> Self {
        HostedSessionView {
            events: event_buffer::EventBufferView { pushed: 0, events: Seq::empty() },
            approvals: tool_authorization::AuthorizationStoreView {
                next_approval_id: 0,
                approvals: Map::empty(),
            },
            has_running_turn: false,
        }
    }
}

/// The host of agent sessions.
pub struct AgentSessionHost {
    sessions: TextTable<HostedAgentSession>,
    subscribed_sessions: TextTable<()>,
    pending_sign_in: Option<PendingAgentSignIn>,
    has_project: bool,
    turn_activity: AgentTurnActivity,
    running_turn_count: usize,
}

/// The model of an [`AgentSessionHost`].
pub struct HostView {
    pub sessions: Map<Seq<char>, HostedSessionView>,
    /// The sessions that the other side follows.
    pub subscribed: Set<Seq<char>>,
    pub pending_sign_in: Option<sign_in::PendingView>,
    pub has_project: bool,
    pub turn_activity: AgentTurnActivity,
    pub running_turn_count: usize,
}

impl View for AgentSessionHost {
    type V = HostView;

    closed spec fn view(&self) -> HostView {
        HostView {
            sessions: self.sessions@.map_values(|session: HostedAgentSession| session@),
            subscribed: self.subscribed_sessions@.dom(),
            pending_sign_in: sign_in::pending_view(self.pending_sign_in),
            has_project: self.has_project,
            turn_activity: self.turn_activity,
            running_turn_count: self.running_turn_count,
        }
    }
}

impl HostView {
    /// The host with a session changed or added.
    pub open spec fn with_session(self, session_id: Seq<char>, session: HostedSessionView) -> Self {
        HostView { sessions: self.sessions.insert(session_id, session), ..self }
    }

    /// The host after a session has one more event.
    pub open spec fn with_event(
        self,
        session_id: Seq<char>,
        event: session_event::ThreadEventView,
    ) -> Self {
        if self.sessions.dom().contains(session_id) {
            let session = self.sessions[session_id];
            self.with_session(
                session_id,
                HostedSessionView {
                    events: session.events.push(event, AGENT_EVENT_BUFFER_LIMIT as nat),
                    ..session
                },
            )
        } else {
            self
        }
    }

    /// The message that tells the other side of an event: only of a session that it
    /// follows, and only where the event can be written.
    pub open spec fn live_event(
        self,
        session_id: Seq<char>,
        event: session_event::ThreadEventView,
    ) -> Option<session_event::LiveEventView> {
        if self.sessions.dom().contains(session_id) && self.subscribed.contains(session_id) {
            match event.to_wire() {
                Some(written) => Some(
                    session_event::LiveEventView {
                        session_id,
                        sequence: self.sessions[session_id].events.next(),
                        event: Some(written),
                    },
                ),
                None => None,
            }
        } else {
            None
        }
    }

    /// The host once a turn of a session has started.
    pub open spec fn with_turn(self, session_id: Seq<char>) -> Self {
        HostView {
            turn_activity: AgentTurnActivity {
                active_turns: next_count(self.turn_activity.active_turns),
            },
            running_turn_count: (self.running_turn_count + 1) as usize,
            ..self.with_session(
                session_id,
                HostedSessionView { has_running_turn: true, ..self.sessions[session_id] },
            )
        }
    }

    /// The host once a turn of a session has ended.
    pub open spec fn without_turn(self, session_id: Seq<char>) -> Self {
        let ended = if self.sessions.dom().contains(session_id) {
            self.with_session(
                session_id,
                HostedSessionView { has_running_turn: false, ..self.sessions[session_id] },
            )
        } else {
            self
        };
        HostView {
            turn_activity: AgentTurnActivity {
                active_turns: previous_count(self.turn_activity.active_turns),
            },
            running_turn_count: if self.running_turn_count == 0 {
                0
            } else {
                (self.running_turn_count - 1) as usize
            },
            ..ended
        }
    }
}

/// The paths that a session works in: the folders of its thread, or else the main
/// worktrees, in the order in which they were added.
pub fn session_root_paths(metadata: &ThreadMetadata) -> (paths: Vec<String>)
    ensures
        text::texts(paths@) == (if metadata@.worktree_paths.folder_paths.ordered_paths.len() > 0 {
            metadata@.worktree_paths.folder_paths.ordered_paths
        } else {
            metadata@.worktree_paths.main_worktree_paths.ordered_paths
        }),
{
    let folders = &metadata.folder_paths().ordered_paths;
    if folders.len() > 0 {
        text::copy_texts(folders)
    } else {
        text::copy_texts(&metadata.main_worktree_paths().ordered_paths)
    }
}

/// The message of the error that a worktree could not be made.
pub fn worktree_error_message(path: &str) -> (message: String)
    ensures
        message@ == "create agent worktree for "@ + path@,
{
    let mut message = "create agent worktree for ".to_string();
    message.append(path);
    message
}

/// The messages of events, `None` where one of them cannot be written.
pub open spec fn all_written(events: Seq<session_event::ThreadEventView>) -> Option<
    Seq<session_event::SerializedEventView>,
>
    decreases events.len(),
{
    if events.len() == 0 {
        Some(Seq::empty())
    } else {
        match (all_written(events.drop_last()), events.last().to_wire()) {
            (Some(before), Some(last)) => Some(before.push(last)),
            _ => None,
        }
    }
}

/// The messages of events with their places, `None` where one of them cannot be written.
pub open spec fn all_buffered_written(events: Seq<session_event::BufferedEventView>) -> Option<
    Seq<session_event::SessionEventView>,
>
    decreases events.len(),
{
    if events.len() == 0 {
        Some(Seq::empty())
    } else {
        match (all_buffered_written(events.drop_last()), events.last().to_wire()) {
            (Some(before), Some(last)) => Some(before.push(last)),
            _ => None,
        }
    }
}

proof fn unwritten_stays(events: Seq<session_event::ThreadEventView>, count: int)
    requires
        0 <= count <= events.len(),
        all_written(events.take(count)) is None,
    ensures
        all_written(events) is None,
    decreases events.len(),
{
    if count == events.len() {
        assert(events.take(count) =~= events);
    } else {
        assert(events.drop_last().take(count) =~= events.take(count));
        unwritten_stays(events.drop_last(), count);
    }
}

proof fn unwritten_buffered_stays(events: Seq<session_event::BufferedEventView>, count: int)
    requires
        0 <= count <= events.len(),
        all_buffered_written(events.take(count)) is None,
    ensures
        all_buffered_written(events) is None,
    decreases events.len(),
{
    if count == events.len() {
        assert(events.take(count) =~= events);
    } else {
        assert(events.drop_last().take(count) =~= events.take(count));
        unwritten_buffered_stays(events.drop_last(), count);
    }
}

/// Writes the events of a snapshot.
pub fn snapshot_to_proto(events: &Vec<SerializableThreadEvent>) -> (res: Result<
    Vec<SerializedAgentThreadEvent>,
    HostError,
>)
    ensures
        match res {
            Ok(written) => all_written(session_event::event_views(events@)) == Some(
                session_event::serialized_views(written@),
            ),
            Err(error) => all_written(session_event::event_views(events@)) is None && error@
                == HostFault::SerializeEventPayload,
        },
{
    let ghost views = session_event::event_views(events@);
    let mut written: Vec<SerializedAgentThreadEvent> = Vec::new();
    assert(session_event::serialized_views(written@) =~= Seq::empty());
    assert(views.take(0) =~= Seq::empty());
    let mut i: usize = 0;
    while i < events.len()
        invariant
            i <= events.len(),
            views == session_event::event_views(events@),
            all_written(views.take(i as int)) == Some(session_event::serialized_views(written@)),
        decreases events.len() - i,
    {
        let ghost before = session_event::serialized_views(written@);
        proof {
            let next = views.take(i + 1);
            assert(next.drop_last() =~= views.take(i as int));
            assert(next.last() == events@[i as int]@);
        }
        match session_event::serializable_event_to_proto(&events[i]) {
            Ok(event) => {
                written.push(event);
                assert(session_event::serialized_views(written@) =~= before.push(event@));
            },
            Err(error) => {
                proof {
                    unwritten_stays(views, i + 1);
                }
                return Err(HostError::SerializeEventPayload(error));
            },
        }
        i += 1;
    }
    assert(views.take(i as int) =~= views);
    Ok(written)
}

fn buffered_to_proto(events: &Vec<BufferedAgentEvent>) -> (res: Result<
    Vec<BufferedAgentSessionEvent>,
    HostError,
>)
    ensures
        match res {
            Ok(written) => all_buffered_written(session_event::buffered_views(events@)) == Some(
                session_event::session_event_views(written@),
            ),
            Err(error) => all_buffered_written(session_event::buffered_views(events@)) is None
                && error@ == HostFault::SerializeEventPayload,
        },
{
    let ghost views = session_event::buffered_views(events@);
    let mut written: Vec<BufferedAgentSessionEvent> = Vec::new();
    assert(session_event::session_event_views(written@) =~= Seq::empty());
    assert(views.take(0) =~= Seq::empty());
    let mut i: usize = 0;
    while i < events.len()
        invariant
            i <= events.len(),
            views == session_event::buffered_views(events@),
            all_buffered_written(views.take(i as int)) == Some(
                session_event::session_event_views(written@),
            ),
        decreases events.len() - i,
    {
        let ghost before = session_event::session_event_views(written@);
        proof {
            let next = views.take(i + 1);
            assert(next.drop_last() =~= views.take(i as int));
            assert(next.last() == events@[i as int]@);
        }
        match session_event::buffered_event_to_proto(&events[i]) {
            Ok(event) => {
                written.push(event);
                assert(session_event::session_event_views(written@) =~= before.push(event@));
            },
            Err(error) => {
                proof {
                    unwritten_buffered_stays(views, i + 1);
                }
                return Err(HostError::SerializeEventPayload(error));
            },
        }
        i += 1;
    }
    assert(views.take(i as int) =~= views);
    Ok(written)
}

/// The model of a live event that may be sent.
pub open spec fn optional_live_event(event: Option<AgentSessionEvent>) -> Option<
    session_event::LiveEventView,
> {
    match event {
        Some(event) => Some(event@),
        None => None,
    }
}

/// The start of a subscription: where the session stands, and whether events were lost.
#[derive(Debug, Clone, Copy, PartialEq, Eq, Structural)]
pub struct SubscriptionStart {
    pub snapshot_sequence: u64,
    pub gap: bool,
}

impl AgentSessionHost {
    pub closed spec fn wf(&self) -> bool {
        &&& self.sessions.wf()
        &&& self.subscribed_sessions.wf()
        &&& forall|id: Seq<char>| #[trigger]
            self.sessions@.dom().contains(id) ==> self.sessions@[id].wf()
    }

    /// A host without sessions.
    pub fn new(turn_activity: AgentTurnActivity) -> (host: Self)
        ensures
            host.wf(),
            host@ == (HostView {
                sessions: Map::empty(),
                subscribed: Set::empty(),
                pending_sign_in: None,
                has_project: false,
                turn_activity,
                running_turn_count: 0,
            }),
    {
        let host = AgentSessionHost {
            sessions: TextTable::new(),
            subscribed_sessions: TextTable::new(),
            pending_sign_in: None,
            has_project: false,
            turn_activity,
            running_turn_count: 0,
        };
        assert(host@.sessions =~= Map::empty());
        assert(host@.subscribed =~= Set::empty());
        host
    }

    fn put(&mut self, session_id: &str, session: HostedAgentSession)
        requires
            old(self).wf(),
            session.wf(),
        ensures
            final(self).wf(),
            final(self)@ == old(self)@.with_session(session_id@, session@),
    {
        let ghost before = self.sessions@;
        self.sessions.insert(session_id.to_string(), session);
        proof {
            assert(self@.sessions =~= old(self)@.sessions.insert(session_id@, session@));
            assert forall|id: Seq<char>| #[trigger] self.sessions@.dom().contains(
                id,
            ) implies self.sessions@[id].wf() by {
                if id != session_id@ {
                    assert(before.dom().contains(id));
                }
            }
        }
    }

    fn take(&mut self, session_id: &str) -> (session: Option<HostedAgentSession>)
        requires
            old(self).wf(),
        ensures
            final(self).wf(),
            final(self)@ == (HostView {
                sessions: old(self)@.sessions.remove(session_id@),
                ..old(self)@
            }),
            match session {
                Some(session) => session.wf() && old(self)@.sessions.dom().contains(session_id@)
                    && session@ == old(self)@.sessions[session_id@],
                None => !old(self)@.sessions.dom().contains(session_id@),
            },
    {
        let ghost before = self.sessions@;
        let session = self.sessions.take(session_id);
        proof {
            assert(self@.sessions =~= old(self)@.sessions.remove(session_id@));
            assert forall|id: Seq<char>| #[trigger] self.sessions@.dom().contains(
                id,
            ) implies self.sessions@[id].wf() by {
                assert(before.dom().contains(id));
            }
            assert(before.dom().contains(session_id@) == old(self)@.sessions.dom().contains(
                session_id@,
            ));
        }
        session
    }

    fn session(&self, session_id: &str) -> (session: Option<&HostedAgentSession>)
        requires
            self.wf(),
        ensures
            match session {
                Some(session) => session.wf() && self@.sessions.dom().contains(session_id@)
                    && session@ == self@.sessions[session_id@],
                None => !self@.sessions.dom().contains(session_id@),
            },
    {
        let session = self.sessions.get(session_id);
        assert(self.sessions@.dom().contains(session_id@) == self@.sessions.dom().contains(
            session_id@,
        ));
        session
    }

    /// Whether the project of the host is still to be made. It is made once, when the
    /// first session needs it.
    pub fn ensure_project(&mut self) -> (make: bool)
        requires
            old(self).wf(),
        ensures
            final(self).wf(),
            make == !old(self)@.has_project,
            final(self)@ == (HostView { has_project: true, ..old(self)@ }),
    {
        let make = !self.has_project;
        self.has_project = true;
        make
    }

    /// Takes in a session that was created. What is to be put into the registry of threads
    /// is handed back.
    pub fn register_session(&mut self, session_id: &str, metadata: ThreadMetadata) -> (registered:
        ThreadMetadata)
        requires
            old(self).wf(),
        ensures
            final(self).wf(),
            final(self)@ == old(self)@.with_session(session_id@, HostedSessionView::fresh()),
            registered@ == (thread_metadata::ThreadMetadataView {
                session_id: Some(session_id@),
                server_hosted: true,
                ..metadata@
            }),
    {
        self.put(session_id, HostedAgentSession::new());
        let mut registered = metadata;
        registered.session_id = Some(session_id.to_string());
        registered.server_hosted = true;
        registered
    }

    /// Starts a turn of a session, unless one runs.
    pub fn prompt_session(&mut self, session_id: &str) -> (res: Result<(), HostError>)
        requires
            old(self).wf(),
            old(self)@.running_turn_count < usize::MAX,
        ensures
            final(self).wf(),
            if !old(self)@.sessions.dom().contains(session_id@) {
                final(self)@ == old(self)@ && (res matches Err(error) && error@
                    == HostFault::SessionNotFound)
            } else if old(self)@.sessions[session_id@].has_running_turn {
                final(self)@ == old(self)@ && (res matches Err(error) && error@
                    == HostFault::TurnIsRunning)
            } else {
                final(self)@ == old(self)@.with_turn(session_id@) && res is Ok
            },
    {
        let ghost before = self@;
        match self.session(session_id) {
            None => {
                return Err(HostError::SessionNotFound);
            },
            Some(session) => {
                if session.has_running_turn {
                    return Err(HostError::TurnIsRunning);
                }
            },
        }
        match self.take(session_id) {
            None => {},
            Some(mut session) => {
                session.has_running_turn = true;
                self.put(session_id, session);
                self.turn_activity.start_turn();
                self.running_turn_count = self.running_turn_count + 1;
                assert(self@.sessions =~= before.with_turn(session_id@).sessions);
            },
        }
        Ok(())
    }

    /// Ends a turn of a session.
    pub fn finish_turn(&mut self, session_id: &str)
        requires
            old(self).wf(),
        ensures
            final(self).wf(),
            final(self)@ == old(self)@.without_turn(session_id@),
    {
        let ghost before = self@;
        match self.take(session_id) {
            Some(mut session) => {
                session.has_running_turn = false;
                self.put(session_id, session);
            },
            None => {},
        }
        self.running_turn_count = if self.running_turn_count == 0 {
            0
        } else {
            self.running_turn_count - 1
        };
        self.turn_activity.finish_turn();
        assert(self@.sessions =~= before.without_turn(session_id@).sessions);
    }

    /// Whether there is a session whose turn can be cancelled.
    pub fn cancel_session(&self, session_id: &str) -> (res: Result<(), HostError>)
        requires
            self.wf(),
        ensures
            match res {
                Ok(_) => self@.sessions.dom().contains(session_id@),
                Err(error) => !self@.sessions.dom().contains(session_id@) && error@
                    == HostFault::SessionNotFound,
            },
    {
        match self.session(session_id) {
            Some(_) => Ok(()),
            None => Err(HostError::SessionNotFound),
        }
    }

    /// Takes in a tool call of a session that asks for a permission. The event that asks
    /// for it is handed back.
    pub fn request_tool_authorization(
        &mut self,
        session_id: &str,
        authorization: ToolCallAuthorization,
    ) -> (res: Result<AgentToolAuthorizationRequestEvent, HostError>)
        requires
            old(self).wf(),
        ensures
            final(self).wf(),
            match res {
                Ok(event) => {
                    let session = old(self)@.sessions[session_id@];
                    &&& old(self)@.sessions.dom().contains(session_id@)
                    &&& event@ == (tool_authorization::RequestView {
                        session_id: session_id@,
                        approval_id: session.approvals.next_id(),
                        tool_call_id: authorization.tool_call.tool_call_id@,
                        tool_call_fields: authorization.tool_call.fields,
                        options: authorization.options,
                        kind: authorization.kind,
                    })
                    &&& final(self)@ == old(self)@.with_session(
                        session_id@,
                        HostedSessionView {
                            approvals: session.approvals.requested(
                                event@,
                                authorization.response,
                            ),
                            ..session
                        },
                    )
                },
                Err(error) => !old(self)@.sessions.dom().contains(session_id@) && final(self)@
                    == old(self)@ && error@ == HostFault::SessionNotFound,
            },
    {
        let ghost before = self@;
        match self.take(session_id) {
            None => {
                assert(self@.sessions =~= before.sessions);
                Err(HostError::SessionNotFound)
            },
            Some(mut session) => {
                let event = session.approvals.request(session_id.to_string(), authorization);
                let ghost changed = session@;
                self.put(session_id, session);
                assert(self@.sessions =~= before.with_session(session_id@, changed).sessions);
                Ok(event)
            },
        }
    }

    /// Answers a tool call that asks for a permission: the answer is handed to the channel
    /// of the request. The event that tells of the answer is handed back. Whether the answer
    /// reaches the tool is not for the host to say.
    pub fn respond_tool_authorization(
        &mut self,
        session_id: &str,
        approval_id: &str,
        outcome: SelectedPermissionOutcome,
    ) -> (res: Result<AgentToolAuthorizationResolvedEvent, HostError>)
        requires
            old(self).wf(),
        ensures
            final(self).wf(),
            if !old(self)@.sessions.dom().contains(session_id@) {
                final(self)@ == old(self)@ && (res matches Err(error) && error@
                    == HostFault::SessionNotFound)
            } else {
                let session = old(self)@.sessions[session_id@];
                if !session.approvals.approvals.dom().contains(approval_id@) {
                    final(self)@ == old(self)@ && (res matches Err(error) && error@
                        == HostFault::Authorization(ToolAuthorizationResolveError::NotFound))
                } else if !session.approvals.is_open(approval_id@) {
                    final(self)@ == old(self)@ && (res matches Err(error) && error@
                        == HostFault::Authorization(ToolAuthorizationResolveError::AlreadyResolved))
                } else {
                    &&& final(self)@ == old(self)@.with_session(
                        session_id@,
                        HostedSessionView {
                            approvals: session.approvals.resolved(approval_id@, outcome@),
                            ..session
                        },
                    )
                    &&& session.approvals.approvals[approval_id@].response matches Some(sender)
                    &&& exists|delivered: bool| #[trigger]
                        tool_authorization::outcome_sent(sender, outcome@, delivered)
                            && answered(res) == answered_with(
                            tool_authorization::answer(
                                session.approvals.approvals[approval_id@].request,
                                outcome@,
                                delivered,
                            ),
                        )
                }
            },
    {
        let ghost before = self@;
        match self.take(session_id) {
            None => {
                assert(self@.sessions =~= before.sessions);
                Err(HostError::SessionNotFound)
            },
            Some(mut session) => {
                let res = session.approvals.resolve(approval_id, outcome);
                let ghost changed = session@;
                self.put(session_id, session);
                proof {
                    assert(self@.sessions =~= before.with_session(session_id@, changed).sessions);
                    if changed == before.sessions[session_id@] {
                        assert(self@.sessions =~= before.sessions);
                    }
                }
                match res {
                    Ok(event) => Ok(event),
                    Err(error) => Err(HostError::Authorization(error)),
                }
            },
        }
    }

    /// Keeps an event of a session. The message that tells the other side of it, where it
    /// follows the session, is handed back.
    pub fn push_buffered_event(&mut self, session_id: &str, event: SerializableThreadEvent) -> (
    live: Option<AgentSessionEvent>)
        requires
            old(self).wf(),
        ensures
            final(self).wf(),
            final(self)@ == old(self)@.with_event(session_id@, event@),
            optional_live_event(live) == old(self)@.live_event(session_id@, event@),
    {
        let ghost before = self@;
        match self.take(session_id) {
            None => {
                assert(self@.sessions =~= before.sessions);
                None
            },
            Some(mut session) => {
                let pushed = session.events.push(event, AGENT_EVENT_BUFFER_LIMIT);
                let ghost changed = session@;
                self.put(session_id, session);
                assert(self@.sessions =~= before.with_session(session_id@, changed).sessions);
                if self.subscribed_sessions.contains(session_id) {
                    match session_event::buffered_event_to_proto(&pushed) {
                        Ok(written) => Some(
                            AgentSessionEvent {
                                session_id: session_id.to_string(),
                                sequence: written.sequence,
                                event: written.event,
                            },
                        ),
                        Err(_) => None,
                    }
                } else {
                    None
                }
            },
        }
    }

    /// The events of a session that are kept.
    pub fn buffered_events(&self, session_id: &str) -> (events: Vec<BufferedAgentEvent>)
        requires
            self.wf(),
        ensures
            session_event::buffered_views(events@) == (if self@.sessions.dom().contains(
                session_id@,
            ) {
                self@.sessions[session_id@].events.buffered()
            } else {
                Seq::empty()
            }),
    {
        match self.session(session_id) {
            Some(session) => session.events.events(),
            None => {
                let none: Vec<BufferedAgentEvent> = Vec::new();
                assert(session_event::buffered_views(none@) =~= Seq::empty());
                none
            },
        }
    }

    /// Keeps an event of a session without telling anyone.
    pub fn push_test_event(&mut self, session_id: &str, event: SerializableThreadEvent)
        requires
            old(self).wf(),
        ensures
            final(self).wf(),
            final(self)@ == old(self)@.with_event(session_id@, event@),
    {
        let ghost before = self@;
        match self.take(session_id) {
            None => {
                assert(self@.sessions =~= before.sessions);
            },
            Some(mut session) => {
                let _ = session.events.push(event, AGENT_EVENT_BUFFER_LIMIT);
                let ghost changed = session@;
                self.put(session_id, session);
                assert(self@.sessions =~= before.with_session(session_id@, changed).sessions);
            },
        }
    }

    /// Whether the project of the host was made.
    pub fn has_lazy_project(&self) -> (made: bool)
        ensures
            made == self@.has_project,
    {
        self.has_project
    }

    pub fn running_turn_count(&self) -> (count: usize)
        ensures
            count == self@.running_turn_count,
    {
        self.running_turn_count
    }

    /// The count of the turns that run.
    pub fn turn_activity(&self) -> (activity: &AgentTurnActivity)
        ensures
            *activity == self@.turn_activity,
    {
        &self.turn_activity
    }

    /// The events that ask for the permissions of a session that were not decided yet, in
    /// no particular order.
    pub fn pending_authorizations(&self, session_id: &str) -> (events: Vec<
        AgentToolAuthorizationRequestEvent,
    >)
        requires
            self.wf(),
        ensures
            if self@.sessions.dom().contains(session_id@) {
                exists|ids: Seq<Seq<char>>| #[trigger]
                    table::lists_keys(ids, self@.sessions[session_id@].approvals.approvals)
                        && tool_authorization::request_views(events@)
                        == tool_authorization::pending_among(
                        ids,
                        self@.sessions[session_id@].approvals.approvals,
                    )
            } else {
                events@.len() == 0
            },
    {
        match self.session(session_id) {
            Some(session) => {
                assert(session.approvals@ == self@.sessions[session_id@].approvals);
                session.approvals.pending_events()
            },
            None => Vec::new(),
        }
    }

    /// How many permissions of a session were not decided yet.
    pub fn pending_authorization_count(&self, session_id: &str) -> (count: usize)
        requires
            self.wf(),
        ensures
            if self@.sessions.dom().contains(session_id@) {
                exists|ids: Seq<Seq<char>>| #[trigger]
                    table::lists_keys(ids, self@.sessions[session_id@].approvals.approvals) && count
                        == tool_authorization::pending_among(
                        ids,
                        self@.sessions[session_id@].approvals.approvals,
                    ).len()
            } else {
                count == 0
            },
    {
        let events = self.pending_authorizations(session_id);
        assert(tool_authorization::request_views(events@).len() == events.len());
        events.len()
    }

    /// Starts a subscription: from now on the other side is told of the events of the
    /// session.
    pub fn begin_subscription(&mut self, session_id: &str, from_sequence: u64) -> (res: Result<
        SubscriptionStart,
        HostError,
    >)
        requires
            old(self).wf(),
        ensures
            final(self).wf(),
            match res {
                Ok(start) => {
                    let events = old(self)@.sessions[session_id@].events;
                    &&& old(self)@.sessions.dom().contains(session_id@)
                    &&& start.snapshot_sequence == events.next()
                    &&& start.gap == events.has_gap_before(from_sequence)
                    &&& final(self)@ == (HostView {
                        subscribed: old(self)@.subscribed.insert(session_id@),
                        ..old(self)@
                    })
                },
                Err(error) => !old(self)@.sessions.dom().contains(session_id@) && final(self)@
                    == old(self)@ && error@ == HostFault::SessionNotFound,
            },
    {
        let start = match self.session(session_id) {
            Some(session) => SubscriptionStart {
                snapshot_sequence: session.events.next_sequence(),
                gap: session.events.has_gap_before(from_sequence),
            },
            None => {
                return Err(HostError::SessionNotFound);
            },
        };
        let ghost before = self@.subscribed;
        self.subscribed_sessions.insert(session_id.to_string(), ());
        assert(self@.subscribed =~= before.insert(session_id@));
        Ok(start)
    }

    /// The answer to a subscription, once the thread was replayed. The snapshot holds the
    /// replayed events and then those that ask for the permissions that are still open.
    pub fn finish_subscription(
        &self,
        session_id: &str,
        from_sequence: u64,
        start: SubscriptionStart,
        snapshot: Vec<SerializedAgentThreadEvent>,
        pending: &Vec<SerializableThreadEvent>,
    ) -> (res: Result<SubscribeAgentSessionResponse, HostError>)
        requires
            self.wf(),
        ensures
            match all_written(session_event::event_views(pending@)) {
                None => res matches Err(error) && error@ == HostFault::SerializeEventPayload,
                Some(asked) => if !self@.sessions.dom().contains(session_id@) {
                    res matches Err(error) && error@ == HostFault::SessionNotFound
                } else {
                    let events = event_buffer::at_or_after(
                        self@.sessions[session_id@].events.buffered(),
                        from_sequence,
                    );
                    match all_buffered_written(events) {
                        None => res matches Err(error) && error@
                            == HostFault::SerializeEventPayload,
                        Some(written) => {
                            &&& res matches Ok(response)
                            &&& response.snapshot_sequence == start.snapshot_sequence
                            &&& response.gap == start.gap
                            &&& session_event::serialized_views(response.snapshot@)
                                == session_event::serialized_views(snapshot@) + asked
                            &&& session_event::session_event_views(response.events@) == written
                        },
                    }
                },
            },
    {
        let ghost replayed = session_event::serialized_views(snapshot@);
        let mut snapshot = snapshot;
        let mut asked = match snapshot_to_proto(pending) {
            Ok(asked) => asked,
            Err(error) => {
                return Err(error);
            },
        };
        let ghost asked_views = session_event::serialized_views(asked@);
        snapshot.append(&mut asked);
        assert(session_event::serialized_views(snapshot@) =~= replayed + asked_views);
        let events = match self.session(session_id) {
            Some(session) => session.events.events_from(from_sequence),
            None => {
                return Err(HostError::SessionNotFound);
            },
        };
        match buffered_to_proto(&events) {
            Ok(events) => Ok(
                SubscribeAgentSessionResponse {
                    snapshot_sequence: start.snapshot_sequence,
                    gap: start.gap,
                    snapshot,
                    events,
                },
            ),
            Err(error) => Err(error),
        }
    }

    /// Starts a sign-in flow in the place of the one that may be there.
    pub fn begin_agent_sign_in<E>(&mut self, flow: Result<OAuthFlow, E>, now_ms: u64) -> (res: Result<
        BeginAgentSignInResponse,
        E,
    >)
        requires
            old(self).wf(),
            now_ms + sign_in::AGENT_SIGN_IN_EXPIRATION_MS <= u64::MAX,
        ensures
            final(self).wf(),
            match flow {
                Ok(flow) => {
                    &&& res matches Ok(response)
                    &&& response.authorize_url@ == flow.authorize_url@
                    &&& response.state@ == flow.state@
                    &&& final(self)@ == (HostView {
                        pending_sign_in: Some(
                            sign_in::PendingView {
                                verifier: flow.verifier@,
                                state: flow.state@,
                                expires_at_ms: (now_ms
                                    + sign_in::AGENT_SIGN_IN_EXPIRATION_MS) as u64,
                            },
                        ),
                        ..old(self)@
                    })
                },
                Err(error) => {
                    &&& res == Err::<BeginAgentSignInResponse, E>(error)
                    &&& final(self)@ == old(self)@
                },
            },
    {
        sign_in::begin_agent_sign_in(&mut self.pending_sign_in, flow, now_ms)
    }

    /// Ends the sign-in flow that may be there and gives its verifier, where the state is
    /// right and the time has not run out.
    pub fn take_pending_sign_in_verifier(&mut self, state: &str, now_ms: u64) -> (res: Result<
        String,
        SignInError,
    >)
        requires
            old(self).wf(),
        ensures
            final(self).wf(),
            final(self)@ == (HostView { pending_sign_in: None, ..old(self)@ }),
            match res {
                Ok(verifier) => sign_in::completed(old(self)@.pending_sign_in, state@, now_ms)
                    == Ok::<Seq<char>, SignInError>(verifier@),
                Err(error) => sign_in::completed(old(self)@.pending_sign_in, state@, now_ms)
                    == Err::<Seq<char>, SignInError>(error),
            },
    {
        sign_in::take_pending_sign_in_verifier(&mut self.pending_sign_in, state, now_ms)
    }

    /// Lets the time of the sign-in flow that may be there run out.
    pub fn set_pending_sign_in_expired(&mut self, now_ms: u64)
        requires
            old(self).wf(),
            now_ms >= 1000,
        ensures
            final(self).wf(),
            final(self)@ == (HostView {
                pending_sign_in: match old(self)@.pending_sign_in {
                    Some(pending) => Some(
                        sign_in::PendingView { expires_at_ms: (now_ms - 1000) as u64, ..pending },
                    ),
                    None => None,
                },
                ..old(self)@
            }),
    {
        match self.pending_sign_in.take() {
            Some(mut pending) => {
                pending.expires_at_ms = now_ms - 1000;
                self.pending_sign_in = Some(pending);
            },
            None => {},
        }
    }
}

/// Of the events of a session no more are kept than there have been.
pub proof fn sessions_keep_at_most_pushed(host: &AgentSessionHost, session_id: Seq<char>)
    requires
        host.wf(),
        host@.sessions.dom().contains(session_id),
    ensures
        host@.sessions[session_id].events.events.len() <= host@.sessions[session_id].events.pushed,
{
    assert(host.sessions@.dom().contains(session_id));
    event_buffer::kept_at_most_pushed(&host.sessions@[session_id].events);
}

/// A session runs one turn at a time: while one runs another cannot start, and when it
/// has ended the host is as before.
pub proof fn one_turn_at_a_time(host: HostView, session_id: Seq<char>)
    requires
        host.sessions.dom().contains(session_id),
        !host.sessions[session_id].has_running_turn,
        host.running_turn_count < usize::MAX,
    ensures
        host.with_turn(session_id).sessions[session_id].has_running_turn,
        host.with_turn(session_id).without_turn(session_id) == host,
{
    let ended = host.with_turn(session_id).without_turn(session_id);
    assert(ended.sessions =~= host.sessions);
}

/// A subscriber is told of every event that happens from then on, with its place, where
/// the event can be written.
pub proof fn subscribers_are_told(
    host: HostView,
    session_id: Seq<char>,
    event: session_event::ThreadEventView,
)
    requires
        host.sessions.dom().contains(session_id),
        host.subscribed.contains(session_id),
        event.to_wire() is Some,
    ensures
        host.live_event(session_id, event) matches Some(live) && live.session_id == session_id
            && live.sequence == host.sessions[session_id].events.next() && live.event
            == event.to_wire(),
        host.sessions[session_id].events.pushed < u64::MAX ==> host.with_event(
            session_id,
            event,
        ).sessions[session_id].events.next() == host.sessions[session_id].events.next() + 1,
{
}

proof fn buffered_written_each(events: Seq<session_event::BufferedEventView>)
    ensures
        all_buffered_written(events) matches Some(written) ==> written.len() == events.len()
            && forall|i: int|
            0 <= i < events.len() ==> (#[trigger] events[i]).to_wire() == Some(written[i]),
    decreases events.len(),
{
    if events.len() > 0 {
        let before = events.drop_last();
        buffered_written_each(before);
        if all_buffered_written(events) is Some {
            let written = all_buffered_written(events)->0;
            assert forall|i: int| 0 <= i < events.len() implies (#[trigger] events[i]).to_wire()
                == Some(written[i]) by {
                if i < before.len() {
                    assert(before[i] == events[i]);
                }
            }
        }
    }
}

/// A subscriber that lost the connection and asks for the events from its next place on
/// is given every event that it has missed, each once and in order, and is then where the
/// host is. Only the message of the user that it knows already, where it waits for one, is
/// left out. This holds where the host still keeps the events, their payloads are read back
/// as they were printed, and the places have not run out.
pub proof fn subscriber_catches_up(
    host: HostView,
    sessions: Map<Seq<char>, remote_agent_connection::RemoteSessionView>,
    session_id: Seq<char>,
)
    requires
        host.sessions.dom().contains(session_id),
        sessions.dom().contains(session_id),
        host.sessions[session_id].events.events.len() <= host.sessions[session_id].events.pushed,
        host.sessions[session_id].events.pushed <= u64::MAX,
        sessions[session_id].next_sequence <= host.sessions[session_id].events.next(),
        !host.sessions[session_id].events.has_gap_before(sessions[session_id].next_sequence),
    ensures
        ({
            let buffer = host.sessions[session_id].events;
            let missed = event_buffer::at_or_after(
                buffer.buffered(),
                sessions[session_id].next_sequence,
            );
            (forall|i: int|
                0 <= i < missed.len() ==> (#[trigger] missed[i]).event.payload_reads_back()) ==> {
                &&& all_buffered_written(missed) matches Some(written)
                &&& remote_agent_connection::replayed(sessions, session_id, written) matches Some(
                    replay,
                )
                &&& replay.events == sessions[session_id].applied_of(
                    missed.map_values(|event: session_event::BufferedEventView| event.event),
                )
                &&& replay.sessions[session_id].next_sequence == buffer.next()
            }
        }),
{
    let buffer = host.sessions[session_id].events;
    let next = sessions[session_id].next_sequence;
    let missed = event_buffer::at_or_after(buffer.buffered(), next);
    event_buffer::no_gap_means_complete(buffer, next);
    if forall|i: int|
        0 <= i < missed.len() ==> (#[trigger] missed[i]).event.payload_reads_back() {
        all_written_back(missed);
        buffered_written_each(missed);
        let written = all_buffered_written(missed)->0;
        let events = missed.map_values(|event: session_event::BufferedEventView| event.event);
        assert forall|i: int| 0 <= i < written.len() implies (#[trigger] written[i]).sequence == next
            + i && (written[i].event matches Some(event) && event.from_wire() == Some(
            events[i],
        )) by {
            assert(missed[i].to_wire() == Some(written[i]));
            assert(missed[i].sequence == next + i);
            session_event::event_round_trip(missed[i].event);
        }
        remote_agent_connection::replayed_in_order(sessions, session_id, written, events);
    }
}

/// A subscriber that takes in an answer with a snapshot, since it starts from nothing or
/// events were lost, is then where the host is: it has emptied the thread, applied the
/// snapshot, and every event since the snapshot was taken, each once and in order, though
/// events went on happening before the answer was given. Only the message of the user that
/// it knows already, where it waits for one, is left out. This holds where the host still
/// keeps the events since the snapshot, what is sent is read back as it was printed, and the
/// places have not run out.
pub proof fn subscriber_catches_up_from_snapshot(
    host: HostView,
    sessions: Map<Seq<char>, remote_agent_connection::RemoteSessionView>,
    session_id: Seq<char>,
    from_sequence: u64,
    place: u64,
    snapshot: Seq<session_event::SerializedEventView>,
    shown: Seq<session_event::ThreadEventView>,
)
    requires
        host.sessions.dom().contains(session_id),
        sessions.dom().contains(session_id),
        host.sessions[session_id].events.events.len() <= host.sessions[session_id].events.pushed,
        host.sessions[session_id].events.pushed <= u64::MAX,
        from_sequence <= place <= host.sessions[session_id].events.next(),
        !host.sessions[session_id].events.has_gap_before(place),
        shown.len() == snapshot.len(),
        forall|i: int|
            0 <= i < snapshot.len() ==> (#[trigger] snapshot[i]).from_wire() == Some(shown[i]),
    ensures
        ({
            let buffer = host.sessions[session_id].events;
            let sent = event_buffer::at_or_after(buffer.buffered(), from_sequence);
            let since = event_buffer::at_or_after(buffer.buffered(), place);
            (forall|i: int|
                0 <= i < sent.len() ==> (#[trigger] sent[i]).event.payload_reads_back()) ==> {
                &&& all_buffered_written(sent) matches Some(written)
                &&& (remote_agent_connection::ReplayView {
                    reset_is_due: true,
                    snapshot,
                    snapshot_sequence: Some(place),
                    events: written,
                }).taken_in(sessions, session_id) matches Some(taken)
                &&& taken.reset
                &&& taken.snapshot == shown
                &&& taken.events == sessions[session_id].applied_of(
                    since.map_values(|event: session_event::BufferedEventView| event.event),
                )
                &&& taken.sessions[session_id].next_sequence == buffer.next()
            }
        }),
{
    let buffer = host.sessions[session_id].events;
    let sent = event_buffer::at_or_after(buffer.buffered(), from_sequence);
    let since = event_buffer::at_or_after(buffer.buffered(), place);
    event_buffer::asked_events_are_numbered(buffer, from_sequence, place);
    let start = if from_sequence <= buffer.first() {
        buffer.first() as int
    } else {
        from_sequence as int
    };
    if forall|i: int| 0 <= i < sent.len() ==> (#[trigger] sent[i]).event.payload_reads_back() {
        all_written_back(sent);
        buffered_written_each(sent);
        let written = all_buffered_written(sent)->0;
        let events = sent.map_values(|event: session_event::BufferedEventView| event.event);
        assert forall|i: int| 0 <= i < written.len() implies (#[trigger] written[i]).sequence == start
            + i && (written[i].event matches Some(event) && event.from_wire() == Some(
            events[i],
        )) by {
            assert(sent[i].to_wire() == Some(written[i]));
            assert(sent[i].sequence == start + i);
            session_event::event_round_trip(sent[i].event);
        }
        remote_agent_connection::snapshot_is_taken_in(
            sessions,
            session_id,
            snapshot,
            shown,
            place,
            written,
            events,
            start,
        );
        assert(events.skip(place - start) =~= since.map_values(
            |event: session_event::BufferedEventView| event.event,
        ));
    }
}

proof fn all_written_back(events: Seq<session_event::BufferedEventView>)
    requires
        forall|i: int|
            0 <= i < events.len() ==> (#[trigger] events[i]).event.payload_reads_back(),
    ensures
        all_buffered_written(events) is Some,
    decreases events.len(),
{
    if events.len() > 0 {
        let before = events.drop_last();
        assert forall|i: int| 0 <= i < before.len() implies (
        #[trigger] before[i]).event.payload_reads_back() by {
            assert(before[i] == events[i]);
        }
        all_written_back(before);
        assert(events[events.len() - 1].event.payload_reads_back());
        session_event::event_round_trip(events.last().event);
    }
}

/// A count goes up and down by one; past the last number it starts again at the first.
pub proof fn counts_go_by_one(count: usize)
    ensures
        count < usize::MAX ==> next_count(count) == count + 1,
        count > 0 ==> previous_count(count) == count - 1,
        next_count(usize::MAX) == 0,
        previous_count(0) == usize::MAX,
{
}

/// What went wrong is seen by its kind.
pub proof fn host_faults_are_seen(error: HostError)
    ensures
        error is SessionNotFound <==> error@ is SessionNotFound,
        error is TurnIsRunning <==> error@ is TurnIsRunning,
        error is SerializeEventPayload <==> error@ is SerializeEventPayload,
        error matches HostError::Authorization(cause) ==> error@ == HostFault::Authorization(
            cause,
        ),
{
}

/// The host tells of an answer what its session tells of it.
pub proof fn answers_are_told_as_they_are(
    event: tool_authorization::ResolvedView,
    error: ToolAuthorizationResolveError,
    resolved: AgentToolAuthorizationResolvedEvent,
    fault: HostError,
)
    ensures
        answered_with(Ok(event)) == Ok::<tool_authorization::ResolvedView, HostFault>(event),
        answered_with(Err(error)) == Err::<tool_authorization::ResolvedView, HostFault>(
            HostFault::Authorization(error),
        ),
        answered(Ok(resolved)) == Ok::<tool_authorization::ResolvedView, HostFault>(resolved@),
        answered(Err(fault)) == Err::<tool_authorization::ResolvedView, HostFault>(fault@),
{
}

/// In a new session nothing has happened, nobody waits for a permission, and no turn runs.
pub proof fn sessions_start_empty(id: Seq<char>)
    ensures
        HostedSessionView::fresh().events.pushed == 0,
        HostedSessionView::fresh().events.events.len() == 0,
        HostedSessionView::fresh().approvals.next_approval_id == 0,
        !HostedSessionView::fresh().approvals.approvals.dom().contains(id),
        !HostedSessionView::fresh().has_running_turn,
{
}

/// A session that changed is there as it is now, and everything else of the host is as
/// before.
pub proof fn one_session_changes(
    host: HostView,
    session_id: Seq<char>,
    session: HostedSessionView,
    other: Seq<char>,
)
    ensures
        ({
            let after = host.with_session(session_id, session);
            &&& after.sessions.dom() == host.sessions.dom().insert(session_id)
            &&& after.sessions[session_id] == session
            &&& other != session_id ==> after.sessions[other] == host.sessions[other]
            &&& after.subscribed == host.subscribed
            &&& after.pending_sign_in == host.pending_sign_in
            &&& after.has_project == host.has_project
            &&& after.turn_activity == host.turn_activity
            &&& after.running_turn_count == host.running_turn_count
        }),
{
}

/// An event that happens in a known session is kept as it is: the newest event of the
/// session is that very one, with its variant, its payload and what is written for
/// debugging, at the next place. The events before it stay as they were, except for the
/// oldest ones once more than a thousand and twenty-four are there. Nothing else of the
/// session or of the host changes.
pub proof fn events_are_kept_as_they_are(
    host: HostView,
    session_id: Seq<char>,
    event: session_event::ThreadEventView,
    other: Seq<char>,
)
    requires
        host.sessions.dom().contains(session_id),
    ensures
        ({
            let before = host.sessions[session_id];
            let after_host = host.with_event(session_id, event);
            let after = after_host.sessions[session_id];
            let dropped = before.events.events.len() + 1 - after.events.events.len();
            &&& after.events.events.len() > 0
            &&& after.events.events.last().variant == event.variant
            &&& after.events.events.last().payload == event.payload
            &&& after.events.events.last().debug == event.debug
            &&& after.events.pushed == before.events.pushed + 1
            &&& before.events.events.len() < 1024 ==> dropped == 0
            &&& before.events.events.len() >= 1024 ==> after.events.events.len() == 1024
            &&& forall|i: int|
                0 <= i < after.events.events.len() - 1 ==> #[trigger] after.events.events[i]
                    == before.events.events[dropped + i]
            &&& after.approvals == before.approvals
            &&& after.has_running_turn == before.has_running_turn
            &&& after_host.sessions.dom() == host.sessions.dom()
            &&& other != session_id ==> after_host.sessions[other] == host.sessions[other]
            &&& after_host.subscribed == host.subscribed
            &&& after_host.pending_sign_in == host.pending_sign_in
            &&& after_host.has_project == host.has_project
            &&& after_host.turn_activity == host.turn_activity
            &&& after_host.running_turn_count == host.running_turn_count
        }),
{
    event_buffer::push_keeps_what_was_kept(host.sessions[session_id].events, event, 1024);
    assert(host.with_event(session_id, event).sessions.dom() =~= host.sessions.dom());
}

/// An event of a session that is not known changes nothing, and nobody is told of it.
pub proof fn events_of_unknown_sessions_are_dropped(
    host: HostView,
    session_id: Seq<char>,
    event: session_event::ThreadEventView,
)
    requires
        !host.sessions.dom().contains(session_id),
    ensures
        host.with_event(session_id, event) == host,
        host.live_event(session_id, event) is None,
{
}

/// An event that just happened is replayed to whoever asks for the events from its place or
/// an earlier one on, last of all and as it is.
pub proof fn new_events_are_replayed(
    host: HostView,
    session_id: Seq<char>,
    event: session_event::ThreadEventView,
    from_sequence: u64,
)
    requires
        host.sessions.dom().contains(session_id),
        host.sessions[session_id].events.events.len() <= host.sessions[session_id].events.pushed,
        host.sessions[session_id].events.pushed < u64::MAX,
        from_sequence <= host.sessions[session_id].events.pushed,
    ensures
        ({
            let kept = host.with_event(session_id, event).sessions[session_id].events;
            let replayed = event_buffer::at_or_after(kept.buffered(), from_sequence);
            &&& replayed.len() > 0
            &&& replayed.last().event == event
            &&& replayed.last().sequence == host.sessions[session_id].events.pushed
        }),
{
    let before = host.sessions[session_id].events;
    let kept = host.with_event(session_id, event).sessions[session_id].events;
    event_buffer::push_keeps_what_was_kept(before, event, 1024);
    assert(kept.events.last() == event);
    let all = kept.buffered();
    assert(all.last().event == event);
    assert(all.last().sequence == before.pushed);
}

/// The other side is told of an event exactly where it follows the session and the event
/// can be written; then it is told of this event, in this session, at the next place.
pub proof fn followers_are_told_as_it_is(
    host: HostView,
    session_id: Seq<char>,
    event: session_event::ThreadEventView,
)
    ensures
        host.live_event(session_id, event) is Some <==> (host.sessions.dom().contains(session_id)
            && host.subscribed.contains(session_id) && event.to_wire() is Some),
        host.live_event(session_id, event) matches Some(live) ==> {
            &&& live.session_id == session_id
            &&& live.sequence == host.sessions[session_id].events.next()
            &&& live.event == event.to_wire()
        },
{
}

/// A live message that may be there stands for itself.
pub proof fn live_messages_are_seen(live: AgentSessionEvent)
    ensures
        optional_live_event(Some(live)) == Some(live@),
        optional_live_event(None) is None,
{
}

/// A turn that starts or ends changes the running turn of its session and the two counts,
/// and nothing else of the host.
pub proof fn turns_change_the_turn_only(host: HostView, session_id: Seq<char>, other: Seq<char>)
    ensures
        host.sessions.dom().contains(session_id) && host.running_turn_count < usize::MAX ==> {
            let after = host.with_turn(session_id);
            &&& after.sessions[session_id].has_running_turn
            &&& after.sessions[session_id].events == host.sessions[session_id].events
            &&& after.sessions[session_id].approvals == host.sessions[session_id].approvals
            &&& other != session_id ==> after.sessions[other] == host.sessions[other]
            &&& after.sessions.dom() == host.sessions.dom()
            &&& after.subscribed == host.subscribed
            &&& after.pending_sign_in == host.pending_sign_in
            &&& after.has_project == host.has_project
            &&& after.running_turn_count == host.running_turn_count + 1
            &&& host.turn_activity.active_turns < usize::MAX ==> after.turn_activity.active_turns
                == host.turn_activity.active_turns + 1
        },
        ({
            let after = host.without_turn(session_id);
            &&& host.sessions.dom().contains(session_id)
                ==> !after.sessions[session_id].has_running_turn
            &&& after.sessions[session_id].events == host.sessions[session_id].events
            &&& after.sessions[session_id].approvals == host.sessions[session_id].approvals
            &&& other != session_id ==> after.sessions[other] == host.sessions[other]
            &&& after.sessions.dom() == host.sessions.dom()
            &&& after.subscribed == host.subscribed
            &&& after.pending_sign_in == host.pending_sign_in
            &&& after.has_project == host.has_project
            &&& host.running_turn_count > 0 ==> after.running_turn_count == host.running_turn_count
                - 1
            &&& host.running_turn_count == 0 ==> after.running_turn_count == 0
            &&& host.turn_activity.active_turns > 0 ==> after.turn_activity.active_turns
                == host.turn_activity.active_turns - 1
        }),
{
    if host.sessions.dom().contains(session_id) {
        assert(host.with_turn(session_id).sessions.dom() =~= host.sessions.dom());
    }
    assert(host.without_turn(session_id).sessions.dom() =~= host.sessions.dom());
}

/// A list of events is written event by event, each as it is written for itself, in order;
/// it cannot be written exactly where one of them cannot.
pub proof fn lists_are_written_in_place(events: Seq<session_event::ThreadEventView>)
    ensures
        all_written(events) is None <==> exists|i: int|
            0 <= i < events.len() && (#[trigger] events[i]).to_wire() is None,
        all_written(events) matches Some(written) ==> written.len() == events.len() && forall|
            i: int,
        |
            0 <= i < events.len() ==> Some(#[trigger] written[i]) == events[i].to_wire(),
    decreases events.len(),
{
    if events.len() > 0 {
        let before = events.drop_last();
        lists_are_written_in_place(before);
        if all_written(before) is None {
            let i = choose|i: int| 0 <= i < before.len() && (#[trigger] before[i]).to_wire() is None;
            assert(events[i].to_wire() is None);
        } else {
            assert(forall|i: int| 0 <= i < before.len() ==> before[i] == events[i]);
            if events.last().to_wire() is None {
                assert(events[events.len() - 1].to_wire() is None);
            } else {
                let written = all_written(before)->0;
                assert forall|i: int| 0 <= i < events.len() implies (#[trigger] events[i]).to_wire()
                    is Some by {
                    if i < before.len() {
                        assert(Some(written[i]) == before[i].to_wire());
                    }
                }
            }
        }
    }
}

/// A list of events with places is written event by event, each as it is written for
/// itself, in order; it cannot be written exactly where one of them cannot.
pub proof fn replays_are_written_in_place(events: Seq<session_event::BufferedEventView>)
    ensures
        all_buffered_written(events) is None <==> exists|i: int|
            0 <= i < events.len() && (#[trigger] events[i]).to_wire() is None,
        all_buffered_written(events) matches Some(written) ==> written.len() == events.len()
            && forall|i: int|
            0 <= i < events.len() ==> Some(#[trigger] written[i]) == events[i].to_wire(),
    decreases events.len(),
{
    if events.len() > 0 {
        let before = events.drop_last();
        replays_are_written_in_place(before);
        if all_buffered_written(before) is None {
            let i = choose|i: int| 0 <= i < before.len() && (#[trigger] before[i]).to_wire() is None;
            assert(events[i].to_wire() is None);
        } else {
            assert(forall|i: int| 0 <= i < before.len() ==> before[i] == events[i]);
            if events.last().to_wire() is None {
                assert(events[events.len() - 1].to_wire() is None);
            } else {
                let written = all_buffered_written(before)->0;
                assert forall|i: int| 0 <= i < events.len() implies (#[trigger] events[i]).to_wire()
                    is Some by {
                    if i < before.len() {
                        assert(Some(written[i]) == before[i].to_wire());
                    }
                }
            }
        }
    }
}

} // verus!
