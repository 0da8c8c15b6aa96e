//! The sessions that run on another machine, as seen from this side: the events of each
//! are applied in order, each once, and what was missed is asked for again.
use agent_client_protocol::v1::schema;
use vstd::prelude::*;

use crate::event_buffer;
use crate::limits;
use crate::session_event;
use crate::session_event::{
    AgentSessionEvent, SerializableThreadEvent, SubscribeAgentSessionResponse,
};
use crate::table::TextTable;
use crate::text;
use crate::thread_id;
use crate::thread_id::ThreadId;
use crate::thread_metadata;
use crate::thread_metadata::{ThreadMetadata, WorktreePaths};
use crate::timestamp::Timestamp;
use crate::tool_authorization::{
    AgentToolAuthorizationRequestEvent, AgentToolAuthorizationResolvedEvent,
    AGENT_TOOL_AUTHORIZATION_REQUEST_EVENT, AGENT_TOOL_AUTHORIZATION_RESOLVED_EVENT,
};

verus! {

/// What an event's place says about it.
#[derive(Debug, Clone, Copy, PartialEq, Eq, Structural)]
pub enum SequenceDecision {
    /// It was seen before.
    Duplicate,
    /// Events before it were missed.
    Gap,
    /// It is the next one.
    Apply,
}

/// What the place of an event says, given the place of the next event.
pub open spec fn decision(next_sequence: u64, sequence: u64) -> SequenceDecision {
    if sequence < next_sequence {
        SequenceDecision::Duplicate
    } else if sequence > next_sequence {
        SequenceDecision::Gap
    } else {
        SequenceDecision::Apply
    }
}

/// The place of the event after the one at a place.
pub open spec fn after(sequence: u64) -> u64 {
    limits::saturated((sequence + 1) as nat)
}

/// Judges the place of an event; the next place moves on only past the next event.
pub fn classify_sequence(next_sequence: &mut u64, sequence: u64) -> (judged: SequenceDecision)
    ensures
        judged == decision(*old(next_sequence), sequence),
        *final(next_sequence) == (if judged == SequenceDecision::Apply {
            after(*old(next_sequence))
        } else {
            *old(next_sequence)
        }),
{
    if sequence < *next_sequence {
        SequenceDecision::Duplicate
    } else if sequence > *next_sequence {
        SequenceDecision::Gap
    } else {
        if *next_sequence < u64::MAX {
            *next_sequence = *next_sequence + 1;
        }
        SequenceDecision::Apply
    }
}

/// What judging one place after the other came to: the next place, and the places of the
/// events that were to be applied.
pub struct Judged {
    pub next_sequence: u64,
    pub applied: Seq<u64>,
}

/// What judging a list of places comes to, each in its turn.
pub open spec fn judged(next_sequence: u64, places: Seq<u64>) -> Judged
    decreases places.len(),
{
    if places.len() == 0 {
        Judged { next_sequence, applied: Seq::empty() }
    } else {
        let before = judged(next_sequence, places.drop_last());
        if decision(before.next_sequence, places.last()) == SequenceDecision::Apply {
            Judged {
                next_sequence: after(before.next_sequence),
                applied: before.applied.push(places.last()),
            }
        } else {
            before
        }
    }
}

/// Whatever places are judged, in whatever order and however often: those that are applied
/// are the places from the first next one on, each once, in order and without a hole. The
/// next place never goes back, moves on by one at most, and a place that was just applied
/// is a duplicate. This holds as long as the places have not run out.
pub proof fn places_are_applied_in_order(next_sequence: u64, places: Seq<u64>)
    requires
        judged(next_sequence, places).next_sequence < u64::MAX,
    ensures
        ({
            let all = judged(next_sequence, places);
            &&& next_sequence <= all.next_sequence
            &&& all.applied.len() == all.next_sequence - next_sequence
            &&& forall|i: int|
                0 <= i < all.applied.len() ==> #[trigger] all.applied[i] == next_sequence + i
            &&& places.len() > 0 ==> {
                let before = judged(next_sequence, places.drop_last());
                &&& before.next_sequence <= all.next_sequence <= before.next_sequence + 1
                &&& decision(before.next_sequence, places.last()) == SequenceDecision::Apply
                    ==> decision(all.next_sequence, places.last()) == SequenceDecision::Duplicate
            }
        }),
    decreases places.len(),
{
    if places.len() > 0 {
        places_are_applied_in_order(next_sequence, places.drop_last());
    }
}

/// A session of the other side.
#[derive(Debug)]
pub struct RemoteSession {
    next_sequence: u64,
    prompt_is_running: bool,
    suppress_next_user_message: bool,
    resolved_approvals: TextTable<()>,
}

/// The model of a [`RemoteSession`].
pub struct RemoteSessionView {
    /// The place of the next event.
    pub next_sequence: u64,
    /// Whether a prompt waits for the events of the session.
    pub prompt_is_running: bool,
    /// Whether the next message of the user is known here already.
    pub suppress_next_user_message: bool,
    /// The permissions that were decided.
    pub resolved_approvals: Set<Seq<char>>,
}

impl View for RemoteSession {
    type V = RemoteSessionView;

    closed spec fn view(&self) -> RemoteSessionView {
        RemoteSessionView {
            next_sequence: self.next_sequence,
            prompt_is_running: self.prompt_is_running,
            suppress_next_user_message: self.suppress_next_user_message,
            resolved_approvals: self.resolved_approvals@.dom(),
        }
    }
}

impl RemoteSession {
    pub closed spec fn wf(&self) -> bool {
        self.resolved_approvals.wf()
    }
}

/// What is to be done with an event of a session.
#[derive(Debug, Clone, Copy, PartialEq, Eq, Structural)]
pub enum SequenceEvent {
    /// Nothing.
    Duplicate,
    /// What was missed is to be asked for.
    Gap,
    /// It is to be applied, and handed to the running prompt where there is one.
    Apply { to_prompt: bool },
}

impl RemoteSessionView {
    /// A session of which no event was seen.
    pub open spec fn fresh() -> Self {
        RemoteSessionView {
            next_sequence: 0,
            prompt_is_running: false,
            suppress_next_user_message: false,
            resolved_approvals: Set::empty(),
        }
    }

    /// Whether an event at a place is the message of the user that is known here already.
    pub open spec fn suppresses(self, sequence: u64, variant: Seq<char>) -> bool {
        sequence == self.next_sequence && self.suppress_next_user_message && variant
            == "user_message"@
    }

    /// What is to be done with an event.
    pub open spec fn prepare(self, sequence: u64, variant: Seq<char>) -> SequenceEvent {
        if sequence < self.next_sequence || self.suppresses(sequence, variant) {
            SequenceEvent::Duplicate
        } else if sequence > self.next_sequence {
            SequenceEvent::Gap
        } else {
            SequenceEvent::Apply { to_prompt: self.prompt_is_running }
        }
    }

    /// The session once an event was seen.
    pub open spec fn prepared(self, sequence: u64, variant: Seq<char>) -> Self {
        if sequence != self.next_sequence {
            self
        } else {
            RemoteSessionView {
                next_sequence: after(self.next_sequence),
                suppress_next_user_message: self.suppress_next_user_message
                    && !self.suppresses(sequence, variant),
                ..self
            }
        }
    }

    /// The session while a prompt runs.
    pub open spec fn prompting(self) -> Self {
        RemoteSessionView { prompt_is_running: true, suppress_next_user_message: true, ..self }
    }

    /// The session once its prompt ended.
    pub open spec fn prompted(self) -> Self {
        RemoteSessionView { prompt_is_running: false, suppress_next_user_message: false, ..self }
    }
}

/// Why an event or an answer of the other side could not be taken in.
#[derive(Debug)]
pub enum RemoteAgentError {
    SessionNotFound,
    MissingEventPayload,
    MissingBufferedEventPayload,
    DeserializeEventPayload(serde_json::Error),
    AuthorizationSessionMismatch,
    PromptReceiverDropped,
}

/// The model of a [`RemoteAgentError`].
pub enum RemoteAgentFault {
    SessionNotFound,
    MissingEventPayload,
    MissingBufferedEventPayload,
    DeserializeEventPayload,
    AuthorizationSessionMismatch,
    PromptReceiverDropped,
}

impl View for RemoteAgentError {
    type V = RemoteAgentFault;

    open spec fn view(&self) -> RemoteAgentFault {
        match self {
            RemoteAgentError::SessionNotFound => RemoteAgentFault::SessionNotFound,
            RemoteAgentError::MissingEventPayload => RemoteAgentFault::MissingEventPayload,
            RemoteAgentError::MissingBufferedEventPayload =>
                RemoteAgentFault::MissingBufferedEventPayload,
            RemoteAgentError::DeserializeEventPayload(_) =>
                RemoteAgentFault::DeserializeEventPayload,
            RemoteAgentError::AuthorizationSessionMismatch =>
                RemoteAgentFault::AuthorizationSessionMismatch,
            RemoteAgentError::PromptReceiverDropped => RemoteAgentFault::PromptReceiverDropped,
        }
    }
}

impl RemoteAgentFault {
    pub open spec fn message(self) -> Seq<char> {
        match self {
            RemoteAgentFault::SessionNotFound => "remote agent session not found"@,
            RemoteAgentFault::MissingEventPayload => "agent session event missing event payload"@,
            RemoteAgentFault::MissingBufferedEventPayload =>
                "buffered agent session event missing payload"@,
            RemoteAgentFault::DeserializeEventPayload =>
                "deserialize agent thread event payload"@,
            RemoteAgentFault::AuthorizationSessionMismatch =>
                "agent tool authorization session id mismatch"@,
            RemoteAgentFault::PromptReceiverDropped =>
                "remote prompt event receiver was dropped"@,
        }
    }
}

impl RemoteAgentError {
    pub fn message(&self) -> (message: &'static str)
        ensures
            message@ == self@.message(),
    {
        match self {
            RemoteAgentError::SessionNotFound => "remote agent session not found",
            RemoteAgentError::MissingEventPayload => "agent session event missing event payload",
            RemoteAgentError::MissingBufferedEventPayload =>
                "buffered agent session event missing payload",
            RemoteAgentError::DeserializeEventPayload(_) =>
                "deserialize agent thread event payload",
            RemoteAgentError::AuthorizationSessionMismatch =>
                "agent tool authorization session id mismatch",
            RemoteAgentError::PromptReceiverDropped => "remote prompt event receiver was dropped",
        }
    }
}

/// The request for the events of a session from a place on.
#[derive(Debug, PartialEq, Eq)]
pub struct SubscribeAgentSession {
    pub session_id: String,
    pub from_sequence: u64,
}

/// What is to be done with an event that just happened.
#[derive(Debug, PartialEq, Eq)]
pub enum LiveAction {
    Ignore,
    Resubscribe(SubscribeAgentSession),
    Apply { event: SerializableThreadEvent, to_prompt: bool },
}

/// The model of a [`LiveAction`].
pub enum LiveActionView {
    Ignore,
    Resubscribe { session_id: Seq<char>, from_sequence: u64 },
    Apply { event: session_event::ThreadEventView, to_prompt: bool },
}

impl View for LiveAction {
    type V = LiveActionView;

    open spec fn view(&self) -> LiveActionView {
        match *self {
            LiveAction::Ignore => LiveActionView::Ignore,
            LiveAction::Resubscribe(request) => LiveActionView::Resubscribe {
                session_id: request.session_id@,
                from_sequence: request.from_sequence,
            },
            LiveAction::Apply { event, to_prompt } => LiveActionView::Apply {
                event: event@,
                to_prompt,
            },
        }
    }
}

/// The sessions of the other side, by their ids.
#[derive(Debug)]
pub struct RemoteAgentConnection {
    sessions: TextTable<RemoteSession>,
}

/// The model of a connection is the map of its sessions.
impl View for RemoteAgentConnection {
    type V = Map<Seq<char>, RemoteSessionView>;

    closed spec fn view(&self) -> Map<Seq<char>, RemoteSessionView> {
        self.sessions@.map_values(|session: RemoteSession| session@)
    }
}

/// What is to be done with an event that just happened and is meant for a session, and
/// the sessions after it.
pub open spec fn live_action(
    sessions: Map<Seq<char>, RemoteSessionView>,
    session_id: Seq<char>,
    live: session_event::LiveEventView,
) -> (Result<LiveActionView, RemoteAgentFault>, Map<Seq<char>, RemoteSessionView>) {
    if live.session_id != session_id {
        (Ok(LiveActionView::Ignore), sessions)
    } else if live.event is None {
        (Err(RemoteAgentFault::MissingEventPayload), sessions)
    } else if live.event->0.from_wire() is None {
        (Err(RemoteAgentFault::DeserializeEventPayload), sessions)
    } else if !sessions.dom().contains(session_id) {
        (Err(RemoteAgentFault::SessionNotFound), sessions)
    } else {
        let event = live.event->0.from_wire()->0;
        let session = sessions[session_id];
        (
            Ok(
                match session.prepare(live.sequence, event.variant) {
                    SequenceEvent::Duplicate => LiveActionView::Ignore,
                    SequenceEvent::Gap => LiveActionView::Resubscribe {
                        session_id,
                        from_sequence: session.next_sequence,
                    },
                    SequenceEvent::Apply { to_prompt } => LiveActionView::Apply {
                        event,
                        to_prompt,
                    },
                },
            ),
            sessions.insert(session_id, session.prepared(live.sequence, event.variant)),
        )
    }
}

/// Where an event goes.
#[derive(Debug, Clone, Copy, PartialEq, Eq, Structural)]
pub enum EventRoute {
    /// It asks for a permission.
    RequestAuthorization,
    /// It tells how a permission was decided.
    ResolveAuthorization,
    /// It goes to the running prompt.
    Prompt,
    /// It goes to the thread.
    Thread,
}

/// Where an event of a variant goes; events about permissions go neither to a prompt nor
/// to the thread.
pub open spec fn route(variant: Seq<char>, to_prompt: bool) -> EventRoute {
    if variant == AGENT_TOOL_AUTHORIZATION_REQUEST_EVENT@ {
        EventRoute::RequestAuthorization
    } else if variant == AGENT_TOOL_AUTHORIZATION_RESOLVED_EVENT@ {
        EventRoute::ResolveAuthorization
    } else if to_prompt {
        EventRoute::Prompt
    } else {
        EventRoute::Thread
    }
}

/// Chooses where an event goes.
pub fn route_event(variant: &str, to_prompt: bool) -> (chosen: EventRoute)
    ensures
        chosen == route(variant@, to_prompt),
{
    if text::same_text(variant, AGENT_TOOL_AUTHORIZATION_REQUEST_EVENT) {
        EventRoute::RequestAuthorization
    } else if text::same_text(variant, AGENT_TOOL_AUTHORIZATION_RESOLVED_EVENT) {
        EventRoute::ResolveAuthorization
    } else if to_prompt {
        EventRoute::Prompt
    } else {
        EventRoute::Thread
    }
}

/// What a running prompt met.
#[derive(Debug, Clone, Copy, PartialEq, Eq, Structural)]
pub enum PromptProgress {
    /// An event, or applying it, failed.
    Failed,
    /// An event was applied that does not end the turn.
    Applied,
    /// An event was applied that ends the turn with a response.
    Responded,
    /// There are no more events.
    Ended,
}

/// How a prompt goes on.
#[derive(Debug, Clone, Copy, PartialEq, Eq, Structural)]
pub enum PromptStep {
    ReturnError,
    Wait,
    ReturnResponse,
    /// Return a response that says that the turn ended.
    ReturnEndTurn,
}

/// The answer to a permission, for the other side.
#[derive(Debug, PartialEq, Eq)]
pub struct RespondAgentToolAuthorization {
    pub session_id: String,
    pub approval_id: String,
    pub selected_outcome_json: String,
}

impl RemoteAgentConnection {
    pub closed spec fn wf(&self) -> bool {
        &&& self.sessions.wf()
        &&& forall|id: Seq<char>| #[trigger]
            self.sessions@.dom().contains(id) ==> self.sessions@[id].wf()
    }

    pub fn new() -> (connection: Self)
        ensures
            connection.wf(),
            connection@ == Map::<Seq<char>, RemoteSessionView>::empty(),
    {
        let connection = RemoteAgentConnection { sessions: TextTable::new() };
        assert(connection@ =~= Map::empty());
        connection
    }

    fn put(&mut self, session_id: &str, session: RemoteSession)
        requires
            old(self).wf(),
            session.wf(),
        ensures
            final(self).wf(),
            final(self)@ == old(self)@.insert(session_id@, session@),
    {
        let ghost before = self.sessions@;
        self.sessions.insert(session_id.to_string(), session);
        proof {
            assert(self@ =~= old(self)@.insert(session_id@, session@));
            assert forall|id: Seq<char>| #[trigger] self.sessions@.dom().contains(
                id,
            ) implies self.sessions@[id].wf() by {
                if id != session_id@ {
                    assert(before.dom().contains(id));
                }
            }
        }
    }

    fn take(&mut self, session_id: &str) -> (session: Option<RemoteSession>)
        requires
            old(self).wf(),
        ensures
            final(self).wf(),
            final(self)@ == old(self)@.remove(session_id@),
            match session {
                Some(session) => session.wf() && old(self)@.dom().contains(session_id@) && session@
                    == old(self)@[session_id@],
                None => !old(self)@.dom().contains(session_id@),
            },
    {
        let ghost before = self.sessions@;
        let session = self.sessions.take(session_id);
        proof {
            assert(self@ =~= old(self)@.remove(session_id@));
            assert forall|id: Seq<char>| #[trigger] self.sessions@.dom().contains(
                id,
            ) implies self.sessions@[id].wf() by {
                assert(before.dom().contains(id));
            }
            assert(before.dom().contains(session_id@) == old(self)@.dom().contains(session_id@));
        }
        session
    }

    /// Starts to follow a session. Its events are asked for from the first one on, and the
    /// snapshot in the answer replaces what the thread holds.
    pub fn begin_session(&mut self, session_id: &str) -> (request: SubscribeAgentSession)
        requires
            old(self).wf(),
        ensures
            final(self).wf(),
            final(self)@ == old(self)@.insert(session_id@, RemoteSessionView::fresh()),
            request.session_id@ == session_id@,
            request.from_sequence == 0,
    {
        let session = RemoteSession {
            next_sequence: 0,
            prompt_is_running: false,
            suppress_next_user_message: false,
            resolved_approvals: TextTable::new(),
        };
        assert(session@.resolved_approvals =~= Set::empty());
        self.put(session_id, session);
        SubscribeAgentSession { session_id: session_id.to_string(), from_sequence: 0 }
    }

    /// Judges an event of a session, and moves on past it where it is the next one.
    pub fn prepare_sequence_event(
        &mut self,
        session_id: &str,
        sequence: u64,
        event: &SerializableThreadEvent,
    ) -> (res: Result<SequenceEvent, RemoteAgentError>)
        requires
            old(self).wf(),
        ensures
            final(self).wf(),
            match res {
                Ok(prepared) => old(self)@.dom().contains(session_id@) && prepared == old(
                    self,
                )@[session_id@].prepare(sequence, event@.variant) && final(self)@ == old(
                    self,
                )@.insert(
                    session_id@,
                    old(self)@[session_id@].prepared(sequence, event@.variant),
                ),
                Err(error) => !old(self)@.dom().contains(session_id@) && error@
                    == RemoteAgentFault::SessionNotFound && final(self)@ == old(self)@,
            },
    {
        let ghost before = self@;
        match self.take(session_id) {
            None => {
                assert(self@ =~= before);
                Err(RemoteAgentError::SessionNotFound)
            },
            Some(mut session) => {
                let judged = classify_sequence(&mut session.next_sequence, sequence);
                let prepared = match judged {
                    SequenceDecision::Duplicate => SequenceEvent::Duplicate,
                    SequenceDecision::Gap => SequenceEvent::Gap,
                    SequenceDecision::Apply => {
                        if session.suppress_next_user_message && text::same_text(
                            &event.variant,
                            "user_message",
                        ) {
                            session.suppress_next_user_message = false;
                            SequenceEvent::Duplicate
                        } else {
                            SequenceEvent::Apply { to_prompt: session.prompt_is_running }
                        }
                    },
                };
                self.put(session_id, session);
                assert(self@ =~= before.insert(
                    session_id@,
                    before[session_id@].prepared(sequence, event@.variant),
                ));
                Ok(prepared)
            },
        }
    }

    /// Takes in an event that just happened.
    pub fn handle_live_event(&mut self, session_id: &str, event: &AgentSessionEvent) -> (res: Result<
        LiveAction,
        RemoteAgentError,
    >)
        requires
            old(self).wf(),
        ensures
            final(self).wf(),
            final(self)@ == live_action(old(self)@, session_id@, event@).1,
            match res {
                Ok(action) => live_action(old(self)@, session_id@, event@).0 == Ok::<
                    LiveActionView,
                    RemoteAgentFault,
                >(action@),
                Err(error) => live_action(old(self)@, session_id@, event@).0 == Err::<
                    LiveActionView,
                    RemoteAgentFault,
                >(error@),
            },
    {
        if !text::same_text(&event.session_id, session_id) {
            return Ok(LiveAction::Ignore);
        }
        let serialized = match &event.event {
            Some(serialized) => serialized,
            None => {
                return Err(RemoteAgentError::MissingEventPayload);
            },
        };
        let serialized = match session_event::serializable_event_from_proto(serialized) {
            Ok(serialized) => serialized,
            Err(error) => {
                return Err(RemoteAgentError::DeserializeEventPayload(error));
            },
        };
        let prepared = match self.prepare_sequence_event(session_id, event.sequence, &serialized) {
            Ok(prepared) => prepared,
            Err(error) => {
                return Err(error);
            },
        };
        match prepared {
            SequenceEvent::Duplicate => Ok(LiveAction::Ignore),
            SequenceEvent::Gap => match self.resubscribe(session_id) {
                Ok(request) => Ok(LiveAction::Resubscribe(request)),
                Err(error) => Err(error),
            },
            SequenceEvent::Apply { to_prompt } => Ok(
                LiveAction::Apply { event: serialized, to_prompt },
            ),
        }
    }

    /// The request for the events of a session that were not seen yet.
    pub fn resubscribe(&self, session_id: &str) -> (res: Result<
        SubscribeAgentSession,
        RemoteAgentError,
    >)
        requires
            self.wf(),
        ensures
            match res {
                Ok(request) => self@.dom().contains(session_id@) && request.session_id@
                    == session_id@ && request.from_sequence == self@[session_id@].next_sequence,
                Err(error) => !self@.dom().contains(session_id@) && error@
                    == RemoteAgentFault::SessionNotFound,
            },
    {
        match self.sessions.get(session_id) {
            Some(session) => {
                assert(self@.dom().contains(session_id@));
                Ok(
                    SubscribeAgentSession {
                        session_id: session_id.to_string(),
                        from_sequence: session.next_sequence,
                    },
                )
            },
            None => {
                assert(!self@.dom().contains(session_id@));
                Err(RemoteAgentError::SessionNotFound)
            },
        }
    }

    /// Goes on from a place, where the session is known.
    fn set_next_sequence(&mut self, session_id: &str, next_sequence: u64)
        requires
            old(self).wf(),
        ensures
            final(self).wf(),
            final(self)@ == at_place(old(self)@, session_id@, next_sequence),
    {
        let ghost before = self@;
        match self.take(session_id) {
            Some(mut session) => {
                session.next_sequence = next_sequence;
                self.put(session_id, session);
                assert(self@ =~= at_place(before, session_id@, next_sequence));
            },
            None => {
                assert(self@ =~= before);
            },
        }
    }

    /// Whether a permission was decided already.
    pub fn is_approval_resolved(&self, session_id: &str, approval_id: &str) -> (resolved: bool)
        requires
            self.wf(),
        ensures
            resolved == is_resolved(self@, session_id@, approval_id@),
    {
        match self.sessions.get(session_id) {
            Some(session) => {
                assert(self@.dom().contains(session_id@));
                session.resolved_approvals.contains(approval_id)
            },
            None => {
                assert(!self@.dom().contains(session_id@));
                false
            },
        }
    }

    /// Remembers that a permission was decided, where the session is known.
    pub fn mark_approval_resolved(&mut self, session_id: &str, approval_id: String)
        requires
            old(self).wf(),
        ensures
            final(self).wf(),
            final(self)@ == with_resolved(old(self)@, session_id@, approval_id@),
    {
        let ghost before = self@;
        match self.take(session_id) {
            Some(mut session) => {
                let ghost approvals = session@.resolved_approvals;
                session.resolved_approvals.insert(approval_id, ());
                assert(session@.resolved_approvals =~= approvals.insert(approval_id@));
                self.put(session_id, session);
                assert(self@ =~= with_resolved(before, session_id@, approval_id@));
            },
            None => {
                assert(self@ =~= before);
            },
        }
    }

    /// Judges an event that asks for a permission: whether the user is to be asked. It is
    /// an error where the event speaks of another session.
    pub fn authorization_requested(
        &self,
        session_id: &str,
        request: &AgentToolAuthorizationRequestEvent,
    ) -> (res: Result<bool, RemoteAgentError>)
        requires
            self.wf(),
        ensures
            match res {
                Ok(ask) => request@.session_id == session_id@ && ask == !is_resolved(
                    self@,
                    session_id@,
                    request@.approval_id,
                ),
                Err(error) => request@.session_id != session_id@ && error@
                    == RemoteAgentFault::AuthorizationSessionMismatch,
            },
    {
        if !text::same_text(&request.session_id, session_id) {
            return Err(RemoteAgentError::AuthorizationSessionMismatch);
        }
        Ok(!self.is_approval_resolved(session_id, &request.approval_id))
    }

    /// The answer to send once the user was asked: none where the user chose nothing, or
    /// where the permission was decided in the meantime. What the user chose is handed in
    /// as JSON.
    pub fn authorization_response(
        &self,
        session_id: &str,
        approval_id: &str,
        selected_outcome_json: Option<String>,
    ) -> (response: Option<RespondAgentToolAuthorization>)
        requires
            self.wf(),
        ensures
            match response {
                Some(response) => selected_outcome_json is Some && !is_resolved(
                    self@,
                    session_id@,
                    approval_id@,
                ) && response.session_id@ == session_id@ && response.approval_id@ == approval_id@
                    && response.selected_outcome_json@ == selected_outcome_json->0@,
                None => selected_outcome_json is None || is_resolved(
                    self@,
                    session_id@,
                    approval_id@,
                ),
            },
    {
        match selected_outcome_json {
            Some(selected_outcome_json) => {
                if self.is_approval_resolved(session_id, approval_id) {
                    None
                } else {
                    Some(
                        RespondAgentToolAuthorization {
                            session_id: session_id.to_string(),
                            approval_id: approval_id.to_string(),
                            selected_outcome_json,
                        },
                    )
                }
            },
            None => None,
        }
    }

    /// Takes in an event that tells how a permission was decided; the thread is to be told
    /// of the outcome. It is an error where the event speaks of another session.
    pub fn authorization_resolved(
        &mut self,
        session_id: &str,
        resolved: &AgentToolAuthorizationResolvedEvent,
    ) -> (res: Result<(), RemoteAgentError>)
        requires
            old(self).wf(),
        ensures
            final(self).wf(),
            match res {
                Ok(_) => resolved@.session_id == session_id@ && final(self)@ == with_resolved(
                    old(self)@,
                    session_id@,
                    resolved@.approval_id,
                ),
                Err(error) => resolved@.session_id != session_id@ && final(self)@ == old(self)@
                    && error@ == RemoteAgentFault::AuthorizationSessionMismatch,
            },
    {
        if !text::same_text(&resolved.session_id, session_id) {
            return Err(RemoteAgentError::AuthorizationSessionMismatch);
        }
        self.mark_approval_resolved(session_id, resolved.approval_id.clone());
        Ok(())
    }

    /// Starts a prompt: the events of the session go to it, and the message of the user,
    /// which is known here already, is skipped when it comes back.
    pub fn begin_prompt(&mut self, session_id: &str) -> (res: Result<(), RemoteAgentError>)
        requires
            old(self).wf(),
        ensures
            final(self).wf(),
            match res {
                Ok(_) => old(self)@.dom().contains(session_id@) && final(self)@ == old(
                    self,
                )@.insert(session_id@, old(self)@[session_id@].prompting()),
                Err(error) => !old(self)@.dom().contains(session_id@) && final(self)@ == old(self)@
                    && error@ == RemoteAgentFault::SessionNotFound,
            },
    {
        let ghost before = self@;
        match self.take(session_id) {
            Some(mut session) => {
                session.prompt_is_running = true;
                session.suppress_next_user_message = true;
                self.put(session_id, session);
                assert(self@ =~= before.insert(session_id@, before[session_id@].prompting()));
                Ok(())
            },
            None => {
                assert(self@ =~= before);
                Err(RemoteAgentError::SessionNotFound)
            },
        }
    }

    /// Decides how a running prompt goes on. A prompt that fails leaves the session as it
    /// is; one that ends gives the session free.
    pub fn prompt_step(&mut self, session_id: &str, progress: PromptProgress) -> (step: PromptStep)
        requires
            old(self).wf(),
        ensures
            final(self).wf(),
            step == (match progress {
                PromptProgress::Failed => PromptStep::ReturnError,
                PromptProgress::Applied => PromptStep::Wait,
                PromptProgress::Responded => PromptStep::ReturnResponse,
                PromptProgress::Ended => PromptStep::ReturnEndTurn,
            }),
            final(self)@ == (if (progress == PromptProgress::Responded || progress
                == PromptProgress::Ended) && old(self)@.dom().contains(session_id@) {
                old(self)@.insert(session_id@, old(self)@[session_id@].prompted())
            } else {
                old(self)@
            }),
    {
        match progress {
            PromptProgress::Failed => PromptStep::ReturnError,
            PromptProgress::Applied => PromptStep::Wait,
            PromptProgress::Responded => {
                self.finish_prompt(session_id);
                PromptStep::ReturnResponse
            },
            PromptProgress::Ended => {
                self.finish_prompt(session_id);
                PromptStep::ReturnEndTurn
            },
        }
    }

    fn finish_prompt(&mut self, session_id: &str)
        requires
            old(self).wf(),
        ensures
            final(self).wf(),
            final(self)@ == (if old(self)@.dom().contains(session_id@) {
                old(self)@.insert(session_id@, old(self)@[session_id@].prompted())
            } else {
                old(self)@
            }),
    {
        let ghost before = self@;
        match self.take(session_id) {
            Some(mut session) => {
                session.prompt_is_running = false;
                session.suppress_next_user_message = false;
                self.put(session_id, session);
                assert(self@ =~= before.insert(session_id@, before[session_id@].prompted()));
            },
            None => {
                assert(self@ =~= before);
            },
        }
    }

    /// The name of the agent in telemetry.
    pub fn telemetry_id(&self) -> (id: &'static str)
        ensures
            id@ == "zed_remote"@,
    {
        "zed_remote"
    }

    pub fn supports_load_session(&self) -> (supported: bool)
        ensures
            supported,
    {
        true
    }
}

/// The sessions with one of them, where it is known, at a place.
pub open spec fn at_place(
    sessions: Map<Seq<char>, RemoteSessionView>,
    session_id: Seq<char>,
    next_sequence: u64,
) -> Map<Seq<char>, RemoteSessionView> {
    if sessions.dom().contains(session_id) {
        sessions.insert(
            session_id,
            RemoteSessionView { next_sequence, ..sessions[session_id] },
        )
    } else {
        sessions
    }
}

/// Whether a permission of a session was decided.
pub open spec fn is_resolved(
    sessions: Map<Seq<char>, RemoteSessionView>,
    session_id: Seq<char>,
    approval_id: Seq<char>,
) -> bool {
    sessions.dom().contains(session_id) && sessions[session_id].resolved_approvals.contains(
        approval_id,
    )
}

/// The sessions with a permission of one of them, where it is known, decided.
pub open spec fn with_resolved(
    sessions: Map<Seq<char>, RemoteSessionView>,
    session_id: Seq<char>,
    approval_id: Seq<char>,
) -> Map<Seq<char>, RemoteSessionView> {
    if sessions.dom().contains(session_id) {
        sessions.insert(
            session_id,
            RemoteSessionView {
                resolved_approvals: sessions[session_id].resolved_approvals.insert(approval_id),
                ..sessions[session_id]
            },
        )
    } else {
        sessions
    }
}

/// Once a permission is decided the user is not asked for it and no answer is sent.
pub proof fn resolved_stays_resolved(
    sessions: Map<Seq<char>, RemoteSessionView>,
    session_id: Seq<char>,
    approval_id: Seq<char>,
    sequence: u64,
    variant: Seq<char>,
    other: Seq<char>,
)
    requires
        sessions.dom().contains(session_id),
    ensures
        ({
            let decided = with_resolved(sessions, session_id, approval_id);
            let later = decided.insert(
                session_id,
                decided[session_id].prepared(sequence, variant),
            );
            &&& is_resolved(decided, session_id, approval_id)
            &&& is_resolved(later, session_id, approval_id)
            &&& is_resolved(
                with_resolved(decided, session_id, other),
                session_id,
                approval_id,
            )
        }),
{
}

/// A part of a prompt, by its text.
#[derive(Debug, PartialEq, Eq)]
pub enum PromptPart {
    Text(String),
    /// A link, by its address.
    ResourceLink(String),
    /// An embedded resource, by its text.
    TextResource(String),
    /// Anything else, as it is written for debugging.
    Other(String),
}

/// The model of a [`PromptPart`].
pub enum PartView {
    Text { text: Seq<char> },
    ResourceLink { uri: Seq<char> },
    TextResource { text: Seq<char> },
    Other { debug: Seq<char> },
}

impl View for PromptPart {
    type V = PartView;

    open spec fn view(&self) -> PartView {
        match *self {
            PromptPart::Text(text) => PartView::Text { text: text@ },
            PromptPart::ResourceLink(uri) => PartView::ResourceLink { uri: uri@ },
            PromptPart::TextResource(text) => PartView::TextResource { text: text@ },
            PromptPart::Other(debug) => PartView::Other { debug: debug@ },
        }
    }
}

impl PartView {
    /// What is written for a part: a text and an embedded resource by their texts, a link
    /// by its address, and anything else as it is written for debugging.
    pub open spec fn markdown(self) -> Seq<char> {
        match self {
            PartView::Text { text } => text,
            PartView::ResourceLink { uri } => uri,
            PartView::TextResource { text } => text,
            PartView::Other { debug } => debug,
        }
    }
}

/// The texts of the parts of a prompt.
pub open spec fn part_texts(parts: Seq<PromptPart>) -> Seq<Seq<char>> {
    parts.map_values(|part: PromptPart| part@.markdown())
}

/// Writes the parts of a prompt as Markdown: the text of each on lines of its own.
pub fn parts_markdown(parts: &Vec<PromptPart>) -> (markdown: String)
    ensures
        markdown@ == text::joined(part_texts(parts@), "\n"@),
{
    let mut texts: Vec<String> = Vec::new();
    let mut i: usize = 0;
    while i < parts.len()
        invariant
            i <= parts.len(),
            texts.len() == i,
            forall|j: int| 0 <= j < i ==> (#[trigger] texts@[j])@ == parts@[j]@.markdown(),
        decreases parts.len() - i,
    {
        let text = match &parts[i] {
            PromptPart::Text(text) => text.clone(),
            PromptPart::ResourceLink(uri) => uri.clone(),
            PromptPart::TextResource(text) => text.clone(),
            PromptPart::Other(debug) => debug.clone(),
        };
        texts.push(text);
        i += 1;
    }
    assert(text::texts(texts@) =~= part_texts(parts@));
    text::join(&texts, "\n")
}

/// A part of a prompt, as the agent client protocol has it.
#[verifier::external_type_specification]
#[verifier::external_body]
pub struct ExContentBlock(agent_client_protocol::v1::schema::ContentBlock);

/// What a `ContentBlock` of the agent client protocol holds, by its kind: the text of a
/// text block, the address of a link, the text of an embedded text resource, and of any
/// other block what its derived `Debug` writes.
pub uninterp spec fn block_part(block: schema::ContentBlock) -> PartView;

/// Takes a `ContentBlock` of the agent client protocol apart: one variant for each kind of
/// block, with the field of it that is used, or what the derived `Debug` of any other
/// writes. The part depends on the block alone and is called [`block_part`].
#[verifier::external_body]
fn prompt_part(block: &schema::ContentBlock) -> (part: PromptPart)
    ensures
        part@ == block_part(*block),
{
    match block {
        schema::ContentBlock::Text(text) => PromptPart::Text(text.text.clone()),
        schema::ContentBlock::ResourceLink(link) => PromptPart::ResourceLink(link.uri.clone()),
        schema::ContentBlock::Resource(schema::EmbeddedResource {
            resource: schema::EmbeddedResourceResource::TextResourceContents(resource),
            ..
        }) => PromptPart::TextResource(resource.text.clone()),
        other => PromptPart::Other(format!("{other:?}")),
    }
}

/// The texts for the parts of a prompt.
pub open spec fn block_texts(blocks: Seq<schema::ContentBlock>) -> Seq<Seq<char>> {
    blocks.map_values(|block: schema::ContentBlock| block_part(block).markdown())
}

/// Writes a prompt as Markdown.
pub fn prompt_markdown(params: &Vec<schema::ContentBlock>) -> (markdown: String)
    ensures
        markdown@ == text::joined(block_texts(params@), "\n"@),
{
    let mut parts: Vec<PromptPart> = Vec::new();
    let mut i: usize = 0;
    while i < params.len()
        invariant
            i <= params.len(),
            parts.len() == i,
            forall|j: int| 0 <= j < i ==> (#[trigger] parts@[j])@ == block_part(params@[j]),
        decreases params.len() - i,
    {
        parts.push(prompt_part(&params[i]));
        i += 1;
    }
    assert(part_texts(parts@) =~= block_texts(params@));
    parts_markdown(&parts)
}

/// What is known of a session that is about to be created on the other side.
pub fn new_session_metadata(
    agent_id: String,
    updated_at: Timestamp,
    created_at: Timestamp,
    worktree_paths: WorktreePaths,
) -> (metadata: ThreadMetadata)
    ensures
        thread_id::is_random_uuid(metadata@.thread_id.bits),
        metadata@ == (thread_metadata::ThreadMetadataView {
            thread_id: metadata@.thread_id,
            session_id: None,
            agent_id: agent_id@,
            title: None,
            title_override: None,
            parallel_attempt_group: None,
            landed: None,
            updated_at: updated_at@,
            created_at: Some(created_at@),
            interacted_at: None,
            worktree_paths: worktree_paths@,
            remote_connection: None,
            archived: false,
            server_hosted: true,
        }),
{
    ThreadMetadata {
        thread_id: ThreadId::new(),
        session_id: None,
        agent_id,
        title: None,
        title_override: None,
        parallel_attempt_group: None,
        landed: None,
        updated_at,
        created_at: Some(created_at),
        interacted_at: None,
        worktree_paths,
        remote_connection: None,
        archived: false,
        server_hosted: true,
    }
}

/// The work that the answer to a subscription gives: first the snapshot, where it
/// replaces what the thread holds, then the events.
#[derive(Debug)]
pub struct SubscriptionReplay {
    response: SubscribeAgentSessionResponse,
    reset_is_due: bool,
    snapshot_is_due: bool,
    snapshot_position: usize,
    event_position: usize,
}

/// The model of a [`SubscriptionReplay`]: what is left to do.
pub struct ReplayView {
    /// Whether the entries of the thread are to be dropped.
    pub reset_is_due: bool,
    /// The events of the snapshot that are to be applied.
    pub snapshot: Seq<session_event::SerializedEventView>,
    /// The place from which the session goes on after the snapshot.
    pub snapshot_sequence: Option<u64>,
    /// The events that are to be judged.
    pub events: Seq<session_event::SessionEventView>,
}

/// The next thing to do for a subscription.
#[derive(Debug, PartialEq, Eq)]
pub enum ReplayStep {
    /// Drop the entries of the thread.
    ResetEntries,
    /// Apply an event of the snapshot to the thread.
    ApplySnapshot(SerializableThreadEvent),
    /// Apply an event, and hand it to the running prompt where there is one.
    Apply { event: SerializableThreadEvent, to_prompt: bool },
    Done,
}

/// The model of a [`ReplayStep`].
pub enum ReplayStepView {
    ResetEntries,
    ApplySnapshot(session_event::ThreadEventView),
    Apply { event: session_event::ThreadEventView, to_prompt: bool },
    Done,
}

impl View for ReplayStep {
    type V = ReplayStepView;

    open spec fn view(&self) -> ReplayStepView {
        match *self {
            ReplayStep::ResetEntries => ReplayStepView::ResetEntries,
            ReplayStep::ApplySnapshot(event) => ReplayStepView::ApplySnapshot(event@),
            ReplayStep::Apply { event, to_prompt } => ReplayStepView::Apply {
                event: event@,
                to_prompt,
            },
            ReplayStep::Done => ReplayStepView::Done,
        }
    }
}

/// One step: its outcome, the sessions after it, and what is left to do.
pub struct Stepped {
    pub outcome: Result<ReplayStepView, RemoteAgentFault>,
    pub sessions: Map<Seq<char>, RemoteSessionView>,
    pub left: ReplayView,
}

/// The first of the events that is to be applied; those before it are only counted.
pub open spec fn step_events(
    sessions: Map<Seq<char>, RemoteSessionView>,
    session_id: Seq<char>,
    events: Seq<session_event::SessionEventView>,
) -> Stepped
    decreases events.len(),
{
    let left = ReplayView {
        reset_is_due: false,
        snapshot: Seq::empty(),
        snapshot_sequence: None,
        events,
    };
    if events.len() == 0 {
        Stepped { outcome: Ok(ReplayStepView::Done), sessions, left }
    } else {
        let first = events.first();
        let rest = ReplayView { events: events.drop_first(), ..left };
        if first.event is None {
            Stepped {
                outcome: Err(RemoteAgentFault::MissingBufferedEventPayload),
                sessions,
                left: rest,
            }
        } else if first.event->0.from_wire() is None {
            Stepped {
                outcome: Err(RemoteAgentFault::DeserializeEventPayload),
                sessions,
                left: rest,
            }
        } else if !sessions.dom().contains(session_id) {
            Stepped { outcome: Err(RemoteAgentFault::SessionNotFound), sessions, left: rest }
        } else {
            let event = first.event->0.from_wire()->0;
            let session = sessions[session_id];
            let moved = sessions.insert(
                session_id,
                session.prepared(first.sequence, event.variant),
            );
            match session.prepare(first.sequence, event.variant) {
                SequenceEvent::Apply { to_prompt } => Stepped {
                    outcome: Ok(ReplayStepView::Apply { event, to_prompt }),
                    sessions: moved,
                    left: rest,
                },
                _ => step_events(moved, session_id, events.drop_first()),
            }
        }
    }
}

impl ReplayView {
    /// The next step for a session.
    pub open spec fn step(
        self,
        sessions: Map<Seq<char>, RemoteSessionView>,
        session_id: Seq<char>,
    ) -> Stepped {
        if self.reset_is_due {
            Stepped {
                outcome: Ok(ReplayStepView::ResetEntries),
                sessions,
                left: ReplayView { reset_is_due: false, ..self },
            }
        } else if self.snapshot.len() > 0 {
            Stepped {
                outcome: match self.snapshot.first().from_wire() {
                    Some(event) => Ok(ReplayStepView::ApplySnapshot(event)),
                    None => Err(RemoteAgentFault::DeserializeEventPayload),
                },
                sessions,
                left: ReplayView { snapshot: self.snapshot.drop_first(), ..self },
            }
        } else {
            step_events(
                match self.snapshot_sequence {
                    Some(place) => at_place(sessions, session_id, place),
                    None => sessions,
                },
                session_id,
                self.events,
            )
        }
    }
}

/// The work that the answer to a subscription gives. The snapshot counts only where a
/// reset was asked for or events were lost.
pub open spec fn replay_of(response: SubscribeAgentSessionResponse, reset: bool) -> ReplayView {
    let events = session_event::session_event_views(response.events@);
    if reset || response.gap {
        ReplayView {
            reset_is_due: true,
            snapshot: session_event::serialized_views(response.snapshot@),
            snapshot_sequence: Some(response.snapshot_sequence),
            events,
        }
    } else {
        ReplayView { reset_is_due: false, snapshot: Seq::empty(), snapshot_sequence: None, events }
    }
}

impl View for SubscriptionReplay {
    type V = ReplayView;

    closed spec fn view(&self) -> ReplayView {
        ReplayView {
            reset_is_due: self.reset_is_due,
            snapshot: if self.snapshot_is_due {
                session_event::serialized_views(self.response.snapshot@).skip(
                    self.snapshot_position as int,
                )
            } else {
                Seq::empty()
            },
            snapshot_sequence: if self.snapshot_is_due {
                Some(self.response.snapshot_sequence)
            } else {
                None
            },
            events: session_event::session_event_views(self.response.events@).skip(
                self.event_position as int,
            ),
        }
    }
}

impl SubscriptionReplay {
    pub closed spec fn wf(&self) -> bool {
        &&& self.snapshot_position <= self.response.snapshot.len()
        &&& self.event_position <= self.response.events.len()
    }

    /// Takes in the answer to a subscription.
    pub fn new(response: SubscribeAgentSessionResponse, reset_to_snapshot: bool) -> (replay: Self)
        ensures
            replay.wf(),
            replay@ == replay_of(response, reset_to_snapshot),
    {
        let reset_to_snapshot = reset_to_snapshot || response.gap;
        let replay = SubscriptionReplay {
            response,
            reset_is_due: reset_to_snapshot,
            snapshot_is_due: reset_to_snapshot,
            snapshot_position: 0,
            event_position: 0,
        };
        proof {
            let snapshot = session_event::serialized_views(response.snapshot@);
            let events = session_event::session_event_views(response.events@);
            assert(snapshot.skip(0) =~= snapshot);
            assert(events.skip(0) =~= events);
        }
        replay
    }

    /// Finds the next thing to do for a session. Where doing it fails, the events that
    /// were not looked at yet stay as they are.
    pub fn next_step(&mut self, connection: &mut RemoteAgentConnection, session_id: &str) -> (res:
        Result<ReplayStep, RemoteAgentError>)
        requires
            old(self).wf(),
            old(connection).wf(),
        ensures
            final(self).wf(),
            final(connection).wf(),
            ({
                let stepped = old(self)@.step(old(connection)@, session_id@);
                &&& final(connection)@ == stepped.sessions
                &&& final(self)@ == stepped.left
                &&& match res {
                    Ok(step) => stepped.outcome == Ok::<ReplayStepView, RemoteAgentFault>(step@),
                    Err(error) => stepped.outcome == Err::<ReplayStepView, RemoteAgentFault>(
                        error@,
                    ),
                }
            }),
    {
        if self.reset_is_due {
            self.reset_is_due = false;
            return Ok(ReplayStep::ResetEntries);
        }
        let ghost snapshot = session_event::serialized_views(self.response.snapshot@);
        let ghost events = session_event::session_event_views(self.response.events@);
        if self.snapshot_is_due {
            if self.snapshot_position < self.response.snapshot.len() {
                let position = self.snapshot_position;
                let res = session_event::serializable_event_from_proto(
                    &self.response.snapshot[position],
                );
                self.snapshot_position = position + 1;
                proof {
                    let left = snapshot.skip(position as int);
                    assert(left.first() == self.response.snapshot@[position as int]@);
                    assert(left.drop_first() =~= snapshot.skip(position + 1));
                }
                return match res {
                    Ok(event) => Ok(ReplayStep::ApplySnapshot(event)),
                    Err(error) => Err(RemoteAgentError::DeserializeEventPayload(error)),
                };
            }
            assert(snapshot.skip(self.snapshot_position as int) =~= Seq::empty());
            connection.set_next_sequence(session_id, self.response.snapshot_sequence);
            self.snapshot_is_due = false;
        }
        let ghost started = old(self)@.step(old(connection)@, session_id@);
        while self.event_position < self.response.events.len()
            invariant
                self.wf(),
                connection.wf(),
                !self.reset_is_due,
                !self.snapshot_is_due,
                events == session_event::session_event_views(self.response.events@),
                started == old(self)@.step(old(connection)@, session_id@),
                started == step_events(
                    connection@,
                    session_id@,
                    events.skip(self.event_position as int),
                ),
            decreases self.response.events.len() - self.event_position,
        {
            let position = self.event_position;
            proof {
                let left = events.skip(position as int);
                assert(left.first() == self.response.events@[position as int]@);
                assert(left.drop_first() =~= events.skip(position + 1));
            }
            self.event_position = position + 1;
            let sequence = self.response.events[position].sequence;
            let serialized = match &self.response.events[position].event {
                Some(serialized) => serialized,
                None => {
                    return Err(RemoteAgentError::MissingBufferedEventPayload);
                },
            };
            let event = match session_event::serializable_event_from_proto(serialized) {
                Ok(event) => event,
                Err(error) => {
                    return Err(RemoteAgentError::DeserializeEventPayload(error));
                },
            };
            match connection.prepare_sequence_event(session_id, sequence, &event) {
                Ok(SequenceEvent::Apply { to_prompt }) => {
                    return Ok(ReplayStep::Apply { event, to_prompt });
                },
                Ok(_) => {},
                Err(error) => {
                    return Err(error);
                },
            }
        }
        assert(events.skip(self.event_position as int) =~= Seq::empty());
        Ok(ReplayStep::Done)
    }
}

/// The event at a place is the next one, and the session moves on to the place after it.
pub proof fn next_event_is_applied(session: RemoteSessionView, variant: Seq<char>)
    requires
        !session.suppress_next_user_message,
    ensures
        session.prepare(session.next_sequence, variant) == (SequenceEvent::Apply {
            to_prompt: session.prompt_is_running,
        }),
        session.prepared(session.next_sequence, variant).next_sequence == after(
            session.next_sequence,
        ),
{
}

/// An event that is not the next one changes nothing, so it may come any number of times.
pub proof fn other_events_change_nothing(
    session: RemoteSessionView,
    sequence: u64,
    variant: Seq<char>,
)
    requires
        sequence != session.next_sequence,
    ensures
        session.prepared(sequence, variant) == session,
        !(session.prepare(sequence, variant) is Apply),
{
}

/// Seeing an event twice does what seeing it once does, as long as places have not run
/// out.
pub proof fn events_are_applied_once(session: RemoteSessionView, sequence: u64, variant: Seq<char>)
    requires
        sequence < u64::MAX,
    ensures
        ({
            let once = session.prepared(sequence, variant);
            &&& once.prepared(sequence, variant) == once
            &&& sequence <= session.next_sequence ==> once.prepare(sequence, variant)
                == SequenceEvent::Duplicate
        }),
{
}

/// The session once the events that the other side keeps were seen, one after the other.
pub open spec fn seen(
    session: RemoteSessionView,
    events: Seq<session_event::BufferedEventView>,
) -> RemoteSessionView
    decreases events.len(),
{
    if events.len() == 0 {
        session
    } else {
        seen(session, events.drop_last()).prepared(
            events.last().sequence,
            events.last().event.variant,
        )
    }
}

proof fn seen_in_order(
    session: RemoteSessionView,
    events: Seq<session_event::BufferedEventView>,
)
    requires
        session.next_sequence + events.len() <= u64::MAX,
        forall|i: int|
            0 <= i < events.len() ==> (#[trigger] events[i]).sequence == session.next_sequence + i,
    ensures
        seen(session, events).next_sequence == session.next_sequence + events.len(),
        forall|i: int|
            0 <= i < events.len() ==> decision(
                seen(session, events.take(i)).next_sequence,
                (#[trigger] events[i]).sequence,
            ) == SequenceDecision::Apply,
    decreases events.len(),
{
    if events.len() > 0 {
        let before = events.drop_last();
        assert forall|i: int| 0 <= i < before.len() implies (#[trigger] before[i]).sequence
            == session.next_sequence + i by {
            assert(before[i] == events[i]);
        }
        seen_in_order(session, before);
        assert(events[events.len() - 1].sequence == session.next_sequence + events.len() - 1);
        assert forall|i: int| 0 <= i < events.len() implies decision(
            seen(session, events.take(i)).next_sequence,
            (#[trigger] events[i]).sequence,
        ) == SequenceDecision::Apply by {
            if i < before.len() {
                assert(before[i] == events[i]);
                assert(before.take(i) =~= events.take(i));
            } else {
                assert(events.take(i) =~= before);
            }
        }
    }
}

/// What a whole replay of events did: the events that were applied, and the sessions
/// after it.
pub struct Replayed {
    pub events: Seq<session_event::ThreadEventView>,
    pub sessions: Map<Seq<char>, RemoteSessionView>,
}

/// The outcome of taking step after step until all events were judged, where no step
/// fails.
pub open spec fn replayed(
    sessions: Map<Seq<char>, RemoteSessionView>,
    session_id: Seq<char>,
    events: Seq<session_event::SessionEventView>,
) -> Option<Replayed>
    decreases events.len(),
{
    let stepped = step_events(sessions, session_id, events);
    match stepped.outcome {
        Ok(ReplayStepView::Done) => Some(
            Replayed { events: Seq::empty(), sessions: stepped.sessions },
        ),
        Ok(ReplayStepView::Apply { event, .. }) => if stepped.left.events.len() < events.len() {
            match replayed(stepped.sessions, session_id, stepped.left.events) {
                Some(rest) => Some(
                    Replayed { events: seq![event] + rest.events, sessions: rest.sessions },
                ),
                None => None,
            }
        } else {
            None
        },
        _ => None,
    }
}

/// Events without the first message of the user among them.
pub open spec fn without_user_message(events: Seq<session_event::ThreadEventView>) -> Seq<
    session_event::ThreadEventView,
>
    decreases events.len(),
{
    if events.len() == 0 {
        events
    } else if events.first().variant == "user_message"@ {
        events.drop_first()
    } else {
        seq![events.first()] + without_user_message(events.drop_first())
    }
}

impl RemoteSessionView {
    /// Those of the events that the session has missed which are applied: all of them, but
    /// for the message of the user that may be known here already.
    pub open spec fn applied_of(self, events: Seq<session_event::ThreadEventView>) -> Seq<
        session_event::ThreadEventView,
    > {
        if self.suppress_next_user_message {
            without_user_message(events)
        } else {
            events
        }
    }
}

/// Events that follow on from the next place without a hole are all applied, in order, but
/// for the message of the user that may be known here already.
pub proof fn replayed_in_order(
    sessions: Map<Seq<char>, RemoteSessionView>,
    session_id: Seq<char>,
    written: Seq<session_event::SessionEventView>,
    events: Seq<session_event::ThreadEventView>,
)
    requires
        sessions.dom().contains(session_id),
        sessions[session_id].next_sequence + written.len() <= u64::MAX,
        events.len() == written.len(),
        forall|i: int|
            0 <= i < written.len() ==> (#[trigger] written[i]).sequence
                == sessions[session_id].next_sequence + i && (written[i].event matches Some(event)
                && event.from_wire() == Some(events[i])),
    ensures
        replayed(sessions, session_id, written) matches Some(replay) && replay.events
            == sessions[session_id].applied_of(events) && replay.sessions.dom().contains(session_id)
            && replay.sessions[session_id].next_sequence == sessions[session_id].next_sequence
            + written.len(),
    decreases written.len(),
{
    if written.len() == 0 {
        assert(events =~= Seq::empty());
    } else {
        let first = written[0];
        let session = sessions[session_id];
        assert(first.sequence == session.next_sequence);
        let moved = sessions.insert(
            session_id,
            session.prepared(first.sequence, events[0].variant),
        );
        let rest = written.drop_first();
        let rest_events = events.drop_first();
        assert forall|i: int| 0 <= i < rest.len() implies (#[trigger] rest[i]).sequence
            == moved[session_id].next_sequence + i && (rest[i].event matches Some(event)
            && event.from_wire() == Some(rest_events[i])) by {
            assert(rest[i] == written[i + 1]);
        }
        replayed_in_order(moved, session_id, rest, rest_events);
        let stepped = step_events(sessions, session_id, written);
        if session.suppresses(first.sequence, events[0].variant) {
            assert(stepped == step_events(moved, session_id, rest));
            assert(replayed(sessions, session_id, written) == replayed(moved, session_id, rest));
        } else {
            assert(stepped.left.events == rest);
            assert(stepped.sessions == moved);
            assert(seq![events[0]] + rest_events =~= events);
        }
    }
}

/// Events that were seen already are passed over: replaying them does what replaying the
/// events after them does.
pub proof fn seen_events_are_passed_over(
    sessions: Map<Seq<char>, RemoteSessionView>,
    session_id: Seq<char>,
    written: Seq<session_event::SessionEventView>,
    count: int,
)
    requires
        sessions.dom().contains(session_id),
        0 <= count <= written.len(),
        forall|i: int|
            0 <= i < count ==> (#[trigger] written[i]).sequence < sessions[session_id].next_sequence
                && (written[i].event matches Some(event) && event.from_wire() is Some),
        replayed(sessions, session_id, written.skip(count)) is Some,
    ensures
        replayed(sessions, session_id, written) == replayed(
            sessions,
            session_id,
            written.skip(count),
        ),
    decreases count,
{
    if count == 0 {
        assert(written.skip(0) =~= written);
    } else {
        let rest = written.drop_first();
        assert(rest.skip(count - 1) =~= written.skip(count));
        assert forall|i: int| 0 <= i < count - 1 implies (#[trigger] rest[i]).sequence
            < sessions[session_id].next_sequence && (rest[i].event matches Some(event)
            && event.from_wire() is Some) by {
            assert(rest[i] == written[i + 1]);
        }
        seen_events_are_passed_over(sessions, session_id, rest, count - 1);
        let first = written[0];
        let session = sessions[session_id];
        assert(first.sequence < session.next_sequence);
        let event = first.event->0.from_wire()->0;
        assert(sessions.insert(session_id, session.prepared(first.sequence, event.variant))
            =~= sessions);
        assert(step_events(sessions, session_id, written) == step_events(
            sessions,
            session_id,
            rest,
        ));
    }
}

/// What taking in a whole answer did: whether the thread was emptied, the events of the
/// snapshot and those after it that were applied, and the sessions after it.
pub struct TakenIn {
    pub reset: bool,
    pub snapshot: Seq<session_event::ThreadEventView>,
    pub events: Seq<session_event::ThreadEventView>,
    pub sessions: Map<Seq<char>, RemoteSessionView>,
}

impl ReplayView {
    /// How much there is left to look at.
    pub open spec fn size(self) -> nat {
        (if self.reset_is_due {
            1nat
        } else {
            0
        }) + self.snapshot.len() + self.events.len()
    }

    /// The outcome of taking step after step until nothing is left to do, where no step
    /// fails.
    pub open spec fn taken_in(
        self,
        sessions: Map<Seq<char>, RemoteSessionView>,
        session_id: Seq<char>,
    ) -> Option<TakenIn>
        decreases self.size(),
    {
        let stepped = self.step(sessions, session_id);
        match stepped.outcome {
            Ok(ReplayStepView::Done) => Some(
                TakenIn {
                    reset: false,
                    snapshot: Seq::empty(),
                    events: Seq::empty(),
                    sessions: stepped.sessions,
                },
            ),
            Ok(step) => if stepped.left.size() < self.size() {
                match stepped.left.taken_in(stepped.sessions, session_id) {
                    Some(rest) => Some(
                        match step {
                            ReplayStepView::ResetEntries => TakenIn { reset: true, ..rest },
                            ReplayStepView::ApplySnapshot(event) => TakenIn {
                                snapshot: seq![event] + rest.snapshot,
                                ..rest
                            },
                            ReplayStepView::Apply { event, .. } => TakenIn {
                                events: seq![event] + rest.events,
                                ..rest
                            },
                            ReplayStepView::Done => rest,
                        },
                    ),
                    None => None,
                }
            } else {
                None
            },
            Err(_) => None,
        }
    }
}

proof fn taken_in_events(
    sessions: Map<Seq<char>, RemoteSessionView>,
    session_id: Seq<char>,
    place: Option<u64>,
    events: Seq<session_event::SessionEventView>,
)
    requires
        ({
            let placed = match place {
                Some(place) => at_place(sessions, session_id, place),
                None => sessions,
            };
            replayed(placed, session_id, events) is Some
        }),
    ensures
        ({
            let placed = match place {
                Some(place) => at_place(sessions, session_id, place),
                None => sessions,
            };
            let replay = ReplayView {
                reset_is_due: false,
                snapshot: Seq::empty(),
                snapshot_sequence: place,
                events,
            };
            let all = replayed(placed, session_id, events)->0;
            replay.taken_in(sessions, session_id) == Some(
                TakenIn {
                    reset: false,
                    snapshot: Seq::empty(),
                    events: all.events,
                    sessions: all.sessions,
                },
            )
        }),
    decreases events.len(),
{
    let placed = match place {
        Some(place) => at_place(sessions, session_id, place),
        None => sessions,
    };
    let stepped = step_events(placed, session_id, events);
    step_events_left(placed, session_id, events);
    if let Ok(ReplayStepView::Apply { event, to_prompt }) = stepped.outcome {
        taken_in_events(stepped.sessions, session_id, None, stepped.left.events);
    }
}

proof fn step_events_left(
    sessions: Map<Seq<char>, RemoteSessionView>,
    session_id: Seq<char>,
    events: Seq<session_event::SessionEventView>,
)
    ensures
        ({
            let stepped = step_events(sessions, session_id, events);
            &&& stepped.left == (ReplayView {
                reset_is_due: false,
                snapshot: Seq::empty(),
                snapshot_sequence: None,
                events: stepped.left.events,
            })
            &&& stepped.outcome matches Ok(step) ==> (step is Done || step is Apply)
        }),
    decreases events.len(),
{
    if events.len() > 0 {
        let first = events.first();
        if first.event is Some && first.event->0.from_wire() is Some && sessions.dom().contains(
            session_id,
        ) {
            let event = first.event->0.from_wire()->0;
            let moved = sessions.insert(
                session_id,
                sessions[session_id].prepared(first.sequence, event.variant),
            );
            step_events_left(moved, session_id, events.drop_first());
        }
    }
}

proof fn taken_in_snapshot(
    sessions: Map<Seq<char>, RemoteSessionView>,
    session_id: Seq<char>,
    snapshot: Seq<session_event::SerializedEventView>,
    read: Seq<session_event::ThreadEventView>,
    place: u64,
    events: Seq<session_event::SessionEventView>,
)
    requires
        read.len() == snapshot.len(),
        forall|i: int|
            0 <= i < snapshot.len() ==> (#[trigger] snapshot[i]).from_wire() == Some(read[i]),
        replayed(at_place(sessions, session_id, place), session_id, events) is Some,
    ensures
        ({
            let replay = ReplayView {
                reset_is_due: false,
                snapshot,
                snapshot_sequence: Some(place),
                events,
            };
            let all = replayed(at_place(sessions, session_id, place), session_id, events)->0;
            replay.taken_in(sessions, session_id) == Some(
                TakenIn {
                    reset: false,
                    snapshot: read,
                    events: all.events,
                    sessions: all.sessions,
                },
            )
        }),
    decreases snapshot.len(),
{
    if snapshot.len() == 0 {
        assert(snapshot =~= Seq::empty());
        assert(read =~= Seq::empty());
        taken_in_events(sessions, session_id, Some(place), events);
    } else {
        let rest = snapshot.drop_first();
        let rest_read = read.drop_first();
        assert forall|i: int| 0 <= i < rest.len() implies (#[trigger] rest[i]).from_wire() == Some(
            rest_read[i],
        ) by {
            assert(rest[i] == snapshot[i + 1]);
        }
        taken_in_snapshot(sessions, session_id, rest, rest_read, place, events);
        assert(snapshot[0].from_wire() == Some(read[0]));
        assert(seq![read[0]] + rest_read =~= read);
        let replay = ReplayView {
            reset_is_due: false,
            snapshot,
            snapshot_sequence: Some(place),
            events,
        };
        assert(replay.step(sessions, session_id).left == ReplayView { snapshot: rest, ..replay });
    }
}

/// A subscriber that takes in an answer with a snapshot empties the thread, applies the
/// snapshot, and then the events that follow on from its place, whether or not older ones
/// came along; those it passes over. The message of the user that may be known here already
/// is left out.
pub proof fn snapshot_is_taken_in(
    sessions: Map<Seq<char>, RemoteSessionView>,
    session_id: Seq<char>,
    snapshot: Seq<session_event::SerializedEventView>,
    read: Seq<session_event::ThreadEventView>,
    place: u64,
    written: Seq<session_event::SessionEventView>,
    events: Seq<session_event::ThreadEventView>,
    first: int,
)
    requires
        sessions.dom().contains(session_id),
        read.len() == snapshot.len(),
        forall|i: int|
            0 <= i < snapshot.len() ==> (#[trigger] snapshot[i]).from_wire() == Some(read[i]),
        events.len() == written.len(),
        forall|i: int|
            0 <= i < written.len() ==> (#[trigger] written[i]).sequence == first + i && (
            written[i].event matches Some(event) && event.from_wire() == Some(events[i])),
        0 <= first <= place <= first + written.len() <= u64::MAX,
    ensures
        ({
            let replay = ReplayView {
                reset_is_due: true,
                snapshot,
                snapshot_sequence: Some(place),
                events: written,
            };
            &&& replay.taken_in(sessions, session_id) matches Some(taken)
            &&& taken.reset
            &&& taken.snapshot == read
            &&& taken.events == sessions[session_id].applied_of(events.skip(place - first))
            &&& taken.sessions.dom().contains(session_id)
            &&& taken.sessions[session_id].next_sequence == first + written.len()
        }),
{
    let placed = at_place(sessions, session_id, place);
    let count = place - first;
    let rest = written.skip(count);
    let rest_events = events.skip(count);
    assert forall|i: int| 0 <= i < rest.len() implies (#[trigger] rest[i]).sequence
        == placed[session_id].next_sequence + i && (rest[i].event matches Some(event)
        && event.from_wire() == Some(rest_events[i])) by {
        assert(rest[i] == written[count + i]);
    }
    replayed_in_order(placed, session_id, rest, rest_events);
    seen_events_are_passed_over(placed, session_id, written, count);
    taken_in_snapshot(sessions, session_id, snapshot, read, place, written);
    let replay = ReplayView {
        reset_is_due: true,
        snapshot,
        snapshot_sequence: Some(place),
        events: written,
    };
    assert(replay.step(sessions, session_id).left == ReplayView { reset_is_due: false, ..replay });
}

/// A subscriber that asks for the events from its next place on, and is told that none is
/// lost, gets each event that it has not seen, in order, and is then where the other side
/// is. This holds as long as the places have not run out.
pub proof fn resubscribing_catches_up(
    session: RemoteSessionView,
    buffer: event_buffer::EventBufferView,
)
    requires
        buffer.events.len() <= buffer.pushed <= u64::MAX,
        session.next_sequence <= buffer.next(),
        !buffer.has_gap_before(session.next_sequence),
    ensures
        ({
            let events = event_buffer::at_or_after(buffer.buffered(), session.next_sequence);
            &&& seen(session, events).next_sequence == buffer.next()
            &&& forall|i: int|
                0 <= i < events.len() ==> decision(
                    seen(session, events.take(i)).next_sequence,
                    (#[trigger] events[i]).sequence,
                ) == SequenceDecision::Apply
        }),
{
    event_buffer::no_gap_means_complete(buffer, session.next_sequence);
    let events = event_buffer::at_or_after(buffer.buffered(), session.next_sequence);
    seen_in_order(session, events);
}

/// An event is applied exactly where its place is the next one; one before is a duplicate,
/// and one after means that events were missed.
pub proof fn places_are_judged(next_sequence: u64, sequence: u64)
    ensures
        decision(next_sequence, sequence) is Apply <==> sequence == next_sequence,
        decision(next_sequence, sequence) is Duplicate <==> sequence < next_sequence,
        decision(next_sequence, sequence) is Gap <==> sequence > next_sequence,
        sequence < u64::MAX ==> after(sequence) == sequence + 1,
        after(u64::MAX) == u64::MAX,
{
}

/// A session that is followed anew starts at the first place, with no prompt and nothing
/// decided.
pub proof fn sessions_start_at_the_first_place(approval_id: Seq<char>)
    ensures
        RemoteSessionView::fresh().next_sequence == 0,
        !RemoteSessionView::fresh().prompt_is_running,
        !RemoteSessionView::fresh().suppress_next_user_message,
        !RemoteSessionView::fresh().resolved_approvals.contains(approval_id),
{
}

/// The event at the next place is applied, for the prompt exactly where one is running;
/// only the message of the user that is known here already is not. Every other event is
/// not applied.
pub proof fn next_events_go_to_the_prompt(
    session: RemoteSessionView,
    sequence: u64,
    variant: Seq<char>,
)
    ensures
        ({
            let known = session.suppress_next_user_message && variant == "user_message"@;
            &&& sequence == session.next_sequence && !known ==> session.prepare(sequence, variant)
                == (SequenceEvent::Apply { to_prompt: session.prompt_is_running })
            &&& sequence == session.next_sequence && known ==> session.prepare(sequence, variant)
                is Duplicate
            &&& sequence < session.next_sequence ==> session.prepare(sequence, variant)
                is Duplicate
            &&& sequence > session.next_sequence ==> session.prepare(sequence, variant) is Gap
        }),
{
}

/// Seeing the event at the next place moves the session on by one; the message of the user
/// that is known here already is waited for until it comes. Nothing else of the session
/// changes, and any other event changes nothing.
pub proof fn events_move_the_place_only(
    session: RemoteSessionView,
    sequence: u64,
    variant: Seq<char>,
)
    ensures
        ({
            let after = session.prepared(sequence, variant);
            &&& after.prompt_is_running == session.prompt_is_running
            &&& after.resolved_approvals == session.resolved_approvals
            &&& sequence != session.next_sequence ==> after == session
            &&& sequence == session.next_sequence && sequence < u64::MAX ==> after.next_sequence
                == sequence + 1
            &&& sequence == session.next_sequence && sequence == u64::MAX ==> after.next_sequence
                == sequence
            &&& sequence == session.next_sequence ==> (after.suppress_next_user_message <==> (
            session.suppress_next_user_message && variant != "user_message"@))
        }),
{
}

/// While a prompt runs, the events of the session go to it, and the message of the user is
/// known already; once it has ended neither is so. Nothing else of the session changes.
pub proof fn prompts_get_the_events(session: RemoteSessionView)
    ensures
        session.prompting().prompt_is_running,
        session.prompting().suppress_next_user_message,
        session.prompting().next_sequence == session.next_sequence,
        session.prompting().resolved_approvals == session.resolved_approvals,
        !session.prompted().prompt_is_running,
        !session.prompted().suppress_next_user_message,
        session.prompted().next_sequence == session.next_sequence,
        session.prompted().resolved_approvals == session.resolved_approvals,
{
}

/// A live event of another session is passed over, and one that cannot be read, or of a
/// session that is not known, is told; none of them changes anything.
pub proof fn live_events_are_refused(
    sessions: Map<Seq<char>, RemoteSessionView>,
    session_id: Seq<char>,
    live: session_event::LiveEventView,
)
    ensures
        ({
            let (action, after) = live_action(sessions, session_id, live);
            let unreadable = live.event is Some && live.event->0.from_wire() is None;
            &&& live.session_id != session_id ==> action == Ok::<LiveActionView, RemoteAgentFault>(
                LiveActionView::Ignore,
            ) && after == sessions
            &&& action is Err ==> live.session_id == session_id && after == sessions
            &&& live.session_id == session_id && live.event is None ==> action == Err::<
                LiveActionView,
                RemoteAgentFault,
            >(RemoteAgentFault::MissingEventPayload)
            &&& live.session_id == session_id && unreadable ==> action == Err::<
                LiveActionView,
                RemoteAgentFault,
            >(RemoteAgentFault::DeserializeEventPayload)
            &&& live.session_id == session_id && live.event is Some && !unreadable
                && !sessions.dom().contains(session_id) ==> action == Err::<
                LiveActionView,
                RemoteAgentFault,
            >(RemoteAgentFault::SessionNotFound)
            &&& live.session_id == session_id && live.event is Some && !unreadable
                && sessions.dom().contains(session_id) ==> action is Ok
        }),
{
}

/// A live event of a session that can be read is applied as it is where it is the next one,
/// for the prompt of the session exactly where one is running; where events before it were
/// missed they are asked for from the next place on; and where it was seen, or is the
/// message of the user that is known already, it is passed over. Only this session moves on,
/// and only past the next event.
pub proof fn live_events_are_applied_in_turn(
    sessions: Map<Seq<char>, RemoteSessionView>,
    live: session_event::LiveEventView,
    event: session_event::ThreadEventView,
    other: Seq<char>,
)
    requires
        sessions.dom().contains(live.session_id),
        live.event is Some,
        live.event->0.from_wire() == Some(event),
    ensures
        ({
            let session = sessions[live.session_id];
            let (action, after) = live_action(sessions, live.session_id, live);
            let is_next = live.sequence == session.next_sequence;
            let known = session.suppress_next_user_message && event.variant == "user_message"@;
            &&& is_next && !known ==> action == Ok::<LiveActionView, RemoteAgentFault>(
                LiveActionView::Apply { event, to_prompt: session.prompt_is_running },
            )
            &&& (is_next && known) || live.sequence < session.next_sequence ==> action == Ok::<
                LiveActionView,
                RemoteAgentFault,
            >(LiveActionView::Ignore)
            &&& live.sequence > session.next_sequence ==> action == Ok::<
                LiveActionView,
                RemoteAgentFault,
            >(
                LiveActionView::Resubscribe {
                    session_id: live.session_id,
                    from_sequence: session.next_sequence,
                },
            )
            &&& after.dom() == sessions.dom()
            &&& other != live.session_id ==> after[other] == sessions[other]
            &&& !is_next ==> after[live.session_id] == session
            &&& is_next && live.sequence < u64::MAX ==> after[live.session_id].next_sequence
                == live.sequence + 1
            &&& after[live.session_id].prompt_is_running == session.prompt_is_running
            &&& after[live.session_id].resolved_approvals == session.resolved_approvals
        }),
{
    let event_read = live.event->0.from_wire()->0;
    assert(sessions.insert(
        live.session_id,
        sessions[live.session_id].prepared(live.sequence, event_read.variant),
    ).dom() =~= sessions.dom());
}

/// The events that a prompt was started for go to it: after a prompt has begun, the next
/// event of its session is applied for the prompt, and after it has ended, for the thread.
pub proof fn running_prompts_get_live_events(
    sessions: Map<Seq<char>, RemoteSessionView>,
    live: session_event::LiveEventView,
    event: session_event::ThreadEventView,
)
    requires
        sessions.dom().contains(live.session_id),
        live.event is Some,
        live.event->0.from_wire() == Some(event),
        live.sequence == sessions[live.session_id].next_sequence,
        event.variant != "user_message"@,
    ensures
        ({
            let session = sessions[live.session_id];
            let begun = sessions.insert(live.session_id, session.prompting());
            let ended = begun.insert(live.session_id, begun[live.session_id].prompted());
            &&& live_action(begun, live.session_id, live).0 == Ok::<
                LiveActionView,
                RemoteAgentFault,
            >(LiveActionView::Apply { event, to_prompt: true })
            &&& live_action(ended, live.session_id, live).0 == Ok::<
                LiveActionView,
                RemoteAgentFault,
            >(LiveActionView::Apply { event, to_prompt: false })
        }),
{
}

/// What is to be done with a live event is seen whole.
pub proof fn live_actions_are_seen_whole(action: LiveAction)
    ensures
        action is Ignore <==> action@ is Ignore,
        action is Resubscribe <==> action@ is Resubscribe,
        action is Apply <==> action@ is Apply,
        action matches LiveAction::Resubscribe(request) ==> action@ == (
        LiveActionView::Resubscribe {
            session_id: request.session_id@,
            from_sequence: request.from_sequence,
        }),
        action matches LiveAction::Apply { event, to_prompt } ==> action@ == (
        LiveActionView::Apply { event: event@, to_prompt }),
{
}

/// What is to be done next for an answer is seen whole.
pub proof fn replay_steps_are_seen_whole(step: ReplayStep)
    ensures
        step is ResetEntries <==> step@ is ResetEntries,
        step is ApplySnapshot <==> step@ is ApplySnapshot,
        step is Apply <==> step@ is Apply,
        step is Done <==> step@ is Done,
        step matches ReplayStep::ApplySnapshot(event) ==> step@ == ReplayStepView::ApplySnapshot(
            event@,
        ),
        step matches ReplayStep::Apply { event, to_prompt } ==> step@ == (ReplayStepView::Apply {
            event: event@,
            to_prompt,
        }),
{
}

/// What went wrong is seen by its kind.
pub proof fn faults_are_seen(error: RemoteAgentError)
    ensures
        error is SessionNotFound <==> error@ is SessionNotFound,
        error is MissingEventPayload <==> error@ is MissingEventPayload,
        error is MissingBufferedEventPayload <==> error@ is MissingBufferedEventPayload,
        error is DeserializeEventPayload <==> error@ is DeserializeEventPayload,
        error is AuthorizationSessionMismatch <==> error@ is AuthorizationSessionMismatch,
        error is PromptReceiverDropped <==> error@ is PromptReceiverDropped,
{
}

/// Events about permissions never go to the prompt or the thread, and all others do: to the
/// prompt exactly where they are meant for it.
pub proof fn permissions_go_their_own_way(variant: Seq<char>, to_prompt: bool)
    ensures
        route(variant, to_prompt) is RequestAuthorization <==> variant
            == "agent_tool_authorization_request"@,
        route(variant, to_prompt) is ResolveAuthorization <==> variant
            == "agent_tool_authorization_resolved"@,
        variant != "agent_tool_authorization_request"@ && variant
            != "agent_tool_authorization_resolved"@ ==> route(variant, to_prompt) == (if to_prompt {
            EventRoute::Prompt
        } else {
            EventRoute::Thread
        }),
{
    reveal_strlit("agent_tool_authorization_request");
    reveal_strlit("agent_tool_authorization_resolved");
    assert("agent_tool_authorization_request"@.len() != "agent_tool_authorization_resolved"@.len());
}

/// Deciding a permission of a known session decides that one and no other, and changes
/// nothing else.
pub proof fn one_permission_is_decided(
    sessions: Map<Seq<char>, RemoteSessionView>,
    session_id: Seq<char>,
    approval_id: Seq<char>,
    other_session: Seq<char>,
    other: Seq<char>,
)
    ensures
        ({
            let after = with_resolved(sessions, session_id, approval_id);
            &&& after.dom() == sessions.dom()
            &&& sessions.dom().contains(session_id) ==> is_resolved(after, session_id, approval_id)
            &&& !sessions.dom().contains(session_id) ==> after == sessions
            &&& (other_session != session_id || other != approval_id) ==> is_resolved(
                after,
                other_session,
                other,
            ) == is_resolved(sessions, other_session, other)
            &&& other_session != session_id ==> after[other_session] == sessions[other_session]
            &&& after[session_id].next_sequence == sessions[session_id].next_sequence
            &&& after[session_id].prompt_is_running == sessions[session_id].prompt_is_running
            &&& after[session_id].suppress_next_user_message
                == sessions[session_id].suppress_next_user_message
            &&& is_resolved(sessions, session_id, approval_id) <==> (sessions.dom().contains(
                session_id,
            ) && sessions[session_id].resolved_approvals.contains(approval_id))
        }),
{
    assert(with_resolved(sessions, session_id, approval_id).dom() =~= sessions.dom());
}

/// Going on from a place changes the place of that session and nothing else.
pub proof fn only_the_place_is_set(
    sessions: Map<Seq<char>, RemoteSessionView>,
    session_id: Seq<char>,
    place: u64,
    other: Seq<char>,
)
    ensures
        ({
            let after = at_place(sessions, session_id, place);
            &&& after.dom() == sessions.dom()
            &&& sessions.dom().contains(session_id) ==> after[session_id].next_sequence == place
            &&& !sessions.dom().contains(session_id) ==> after == sessions
            &&& other != session_id ==> after[other] == sessions[other]
            &&& after[session_id].prompt_is_running == sessions[session_id].prompt_is_running
            &&& after[session_id].suppress_next_user_message
                == sessions[session_id].suppress_next_user_message
            &&& after[session_id].resolved_approvals == sessions[session_id].resolved_approvals
        }),
{
    assert(at_place(sessions, session_id, place).dom() =~= sessions.dom());
}

/// Of the events of an answer the first one is looked at: one that cannot be read, or of a
/// session that is not known, is told and left behind; the next one is applied as it is, for
/// the prompt exactly where one is running; and any other is passed over.
pub proof fn events_are_looked_at_in_turn(
    sessions: Map<Seq<char>, RemoteSessionView>,
    session_id: Seq<char>,
    first: session_event::SessionEventView,
    rest: Seq<session_event::SessionEventView>,
)
    ensures
        ({
            let stepped = step_events(sessions, session_id, seq![first] + rest);
            let read = first.event is Some && first.event->0.from_wire() is Some;
            let event = first.event->0.from_wire()->0;
            let session = sessions[session_id];
            let is_next = first.sequence == session.next_sequence;
            let known = session.suppress_next_user_message && event.variant == "user_message"@;
            &&& first.event is None ==> stepped.outcome == Err::<ReplayStepView, RemoteAgentFault>(
                RemoteAgentFault::MissingBufferedEventPayload,
            ) && stepped.sessions == sessions && stepped.left.events == rest
            &&& first.event is Some && !read ==> stepped.outcome == Err::<
                ReplayStepView,
                RemoteAgentFault,
            >(RemoteAgentFault::DeserializeEventPayload) && stepped.sessions == sessions
                && stepped.left.events == rest
            &&& read && !sessions.dom().contains(session_id) ==> stepped.outcome == Err::<
                ReplayStepView,
                RemoteAgentFault,
            >(RemoteAgentFault::SessionNotFound) && stepped.sessions == sessions
                && stepped.left.events == rest
            &&& read && sessions.dom().contains(session_id) && is_next && !known ==> {
                &&& stepped.outcome == Ok::<ReplayStepView, RemoteAgentFault>(
                    ReplayStepView::Apply { event, to_prompt: session.prompt_is_running },
                )
                &&& stepped.sessions == sessions.insert(
                    session_id,
                    session.prepared(first.sequence, event.variant),
                )
                &&& stepped.left.events == rest
            }
            &&& read && sessions.dom().contains(session_id) && !is_next ==> stepped == step_events(
                sessions,
                session_id,
                rest,
            )
            &&& read && sessions.dom().contains(session_id) && is_next && known ==> stepped
                == step_events(
                sessions.insert(session_id, session.prepared(first.sequence, event.variant)),
                session_id,
                rest,
            )
        }),
        ({
            let none = step_events(sessions, session_id, Seq::empty());
            none.outcome == Ok::<ReplayStepView, RemoteAgentFault>(ReplayStepView::Done)
                && none.sessions == sessions && none.left.events.len() == 0
        }),
{
    let events = seq![first] + rest;
    assert(events.first() == first);
    assert(events.drop_first() =~= rest);
    if sessions.dom().contains(session_id) && first.sequence
        != sessions[session_id].next_sequence {
        let event = first.event->0.from_wire()->0;
        assert(sessions.insert(
            session_id,
            sessions[session_id].prepared(first.sequence, event.variant),
        ) =~= sessions);
    }
}

/// An answer is taken in with its snapshot where a reset was asked for or events were lost,
/// and with its events in any case. First the thread is emptied, then the snapshot is
/// applied, event by event, and only then the session goes on from the place of the
/// snapshot.
pub proof fn snapshots_come_first(
    response: SubscribeAgentSessionResponse,
    reset: bool,
    replay: ReplayView,
    sessions: Map<Seq<char>, RemoteSessionView>,
    session_id: Seq<char>,
)
    ensures
        ({
            let made = replay_of(response, reset);
            &&& made.events == session_event::session_event_views(response.events@)
            &&& made.reset_is_due <==> (reset || response.gap)
            &&& (reset || response.gap) ==> made.snapshot == session_event::serialized_views(
                response.snapshot@,
            ) && made.snapshot_sequence == Some(response.snapshot_sequence)
            &&& !(reset || response.gap) ==> made.snapshot.len() == 0 && made.snapshot_sequence
                is None
        }),
        replay.reset_is_due ==> {
            let stepped = replay.step(sessions, session_id);
            &&& stepped.outcome == Ok::<ReplayStepView, RemoteAgentFault>(
                ReplayStepView::ResetEntries,
            )
            &&& stepped.sessions == sessions
            &&& !stepped.left.reset_is_due
            &&& stepped.left.snapshot == replay.snapshot
            &&& stepped.left.snapshot_sequence == replay.snapshot_sequence
            &&& stepped.left.events == replay.events
        },
        !replay.reset_is_due && replay.snapshot.len() > 0 ==> {
            let stepped = replay.step(sessions, session_id);
            &&& replay.snapshot[0].from_wire() matches Some(event) ==> stepped.outcome == Ok::<
                ReplayStepView,
                RemoteAgentFault,
            >(ReplayStepView::ApplySnapshot(event))
            &&& replay.snapshot[0].from_wire() is None ==> stepped.outcome == Err::<
                ReplayStepView,
                RemoteAgentFault,
            >(RemoteAgentFault::DeserializeEventPayload)
            &&& stepped.sessions == sessions
            &&& stepped.left.snapshot == replay.snapshot.drop_first()
            &&& stepped.left.snapshot_sequence == replay.snapshot_sequence
            &&& stepped.left.events == replay.events
            &&& !stepped.left.reset_is_due
        },
        !replay.reset_is_due && replay.snapshot.len() == 0 ==> replay.step(sessions, session_id)
            == step_events(
            match replay.snapshot_sequence {
                Some(place) => at_place(sessions, session_id, place),
                None => sessions,
            },
            session_id,
            replay.events,
        ),
{
    assert(replay_of(response, reset).snapshot.len() == 0 || reset || response.gap);
}

/// Of each part of a prompt its own text is written, in order.
pub proof fn parts_are_written_in_place(parts: Seq<PromptPart>, blocks: Seq<schema::ContentBlock>)
    ensures
        part_texts(parts).len() == parts.len(),
        forall|i: int|
            0 <= i < parts.len() ==> (match parts[i] {
                PromptPart::Text(text) => #[trigger] part_texts(parts)[i] == text@,
                PromptPart::ResourceLink(uri) => part_texts(parts)[i] == uri@,
                PromptPart::TextResource(text) => part_texts(parts)[i] == text@,
                PromptPart::Other(debug) => part_texts(parts)[i] == debug@,
            }),
        block_texts(blocks).len() == blocks.len(),
        forall|i: int|
            0 <= i < blocks.len() ==> (match block_part(blocks[i]) {
                PartView::Text { text } => #[trigger] block_texts(blocks)[i] == text,
                PartView::ResourceLink { uri } => block_texts(blocks)[i] == uri,
                PartView::TextResource { text } => block_texts(blocks)[i] == text,
                PartView::Other { debug } => block_texts(blocks)[i] == debug,
            }),
{
}

/// Each fault of a mirror is told in words of its own.
pub proof fn mirror_faults_are_told_apart(told: RemoteAgentFault)
    ensures
        told.message() == "remote agent session not found"@ <==> told is SessionNotFound,
        told.message() == "agent session event missing event payload"@ <==> told is MissingEventPayload,
        told.message() == "buffered agent session event missing payload"@ <==> told is MissingBufferedEventPayload,
        told.message() == "deserialize agent thread event payload"@ <==> told is DeserializeEventPayload,
        told.message() == "agent tool authorization session id mismatch"@ <==> told is AuthorizationSessionMismatch,
        told.message() == "remote prompt event receiver was dropped"@ <==> told is PromptReceiverDropped,
{
    reveal_strlit("remote agent session not found");
    reveal_strlit("agent session event missing event payload");
    reveal_strlit("buffered agent session event missing payload");
    reveal_strlit("deserialize agent thread event payload");
    reveal_strlit("agent tool authorization session id mismatch");
    reveal_strlit("remote prompt event receiver was dropped");
    assert("remote agent session not found"@.len() == 30);
    assert("agent session event missing event payload"@.len() == 41);
    assert("buffered agent session event missing payload"@.len() == 44);
    assert("deserialize agent thread event payload"@.len() == 38);
    assert("agent tool authorization session id mismatch"@.len() == 44);
    assert("remote prompt event receiver was dropped"@.len() == 40);
    assert("agent tool authorization session id mismatch"@[0] == 'a');
    assert("buffered agent session event missing payload"@[0] == 'b');
}

} // verus!
