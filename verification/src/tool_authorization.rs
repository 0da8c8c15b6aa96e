//! The tool calls of a session that wait for a user's permission, and the answers to
//! them.
use futures::channel::oneshot::Sender;
use serde_json::Value;
use vstd::prelude::*;

use crate::limits;
use crate::table;
use crate::table::TextTable;
use crate::text;

verus! {

/// The variant of the event that asks for a permission.
pub const AGENT_TOOL_AUTHORIZATION_REQUEST_EVENT: &'static str = "agent_tool_authorization_request";

/// The variant of the event that tells how a permission was decided.
pub const AGENT_TOOL_AUTHORIZATION_RESOLVED_EVENT: &'static str =
    "agent_tool_authorization_resolved";

/// The end of a channel through which one value is sent.
#[verifier::external_type_specification]
#[verifier::external_body]
#[verifier::reject_recursive_types(T)]
pub struct ExSender<T>(futures::channel::oneshot::Sender<T>);

#[derive(Debug, Clone, Copy, PartialEq, Eq, Structural)]
pub enum PermissionOptionKind {
    AllowOnce,
    AllowAlways,
    RejectOnce,
    RejectAlways,
}

/// The option that a user chose.
#[derive(Debug, PartialEq, Eq)]
pub struct SelectedPermissionOutcome {
    pub option_id: String,
    pub option_kind: PermissionOptionKind,
}

/// The model of a [`SelectedPermissionOutcome`].
pub struct OutcomeView {
    pub option_id: Seq<char>,
    pub option_kind: PermissionOptionKind,
}

impl View for SelectedPermissionOutcome {
    type V = OutcomeView;

    open spec fn view(&self) -> OutcomeView {
        OutcomeView { option_id: self.option_id@, option_kind: self.option_kind }
    }
}

impl SelectedPermissionOutcome {
    pub fn new(option_id: String, option_kind: PermissionOptionKind) -> (outcome: Self)
        ensures
            outcome@ == (OutcomeView { option_id: option_id@, option_kind }),
    {
        SelectedPermissionOutcome { option_id, option_kind }
    }
}

impl Clone for SelectedPermissionOutcome {
    fn clone(&self) -> (copy: Self)
        ensures
            copy@ == self@,
    {
        SelectedPermissionOutcome {
            option_id: self.option_id.clone(),
            option_kind: self.option_kind,
        }
    }
}

/// Whether sending this answer through this channel may tell that it was delivered, or that
/// it was not. It is a relation and no function of the channel: whether the other end is
/// still there depends on when the answer is sent.
pub uninterp spec fn outcome_sent(
    sender: Sender<SelectedPermissionOutcome>,
    outcome: OutcomeView,
    delivered: bool,
) -> bool;

/// `futures::channel::oneshot::Sender::send`: hands an answer to the other end of the
/// channel and tells whether it was taken. The channel and the answer that was handed to
/// it are tied to what is told by [`outcome_sent`] alone: when the other end is gone is
/// left open.
#[verifier::external_body]
fn send_outcome(
    sender: Sender<SelectedPermissionOutcome>,
    outcome: SelectedPermissionOutcome,
) -> (delivered: bool)
    ensures
        outcome_sent(sender, outcome@, delivered),
{
    sender.send(outcome).is_ok()
}

/// A tool call: its id, and the rest of it as JSON.
#[derive(Debug, PartialEq, Eq)]
pub struct ToolCallUpdate {
    pub tool_call_id: String,
    pub fields: Value,
}

/// The event that asks for a permission.
#[derive(Debug, PartialEq, Eq)]
pub struct AgentToolAuthorizationRequestEvent {
    pub session_id: String,
    pub approval_id: String,
    pub tool_call: ToolCallUpdate,
    pub options: Value,
    pub kind: Value,
}

/// The event that tells how a permission was decided.
#[derive(Debug, PartialEq, Eq)]
pub struct AgentToolAuthorizationResolvedEvent {
    pub session_id: String,
    pub approval_id: String,
    pub tool_call_id: String,
    pub outcome: SelectedPermissionOutcome,
}

/// The model of an [`AgentToolAuthorizationRequestEvent`].
pub struct RequestView {
    pub session_id: Seq<char>,
    pub approval_id: Seq<char>,
    pub tool_call_id: Seq<char>,
    pub tool_call_fields: Value,
    pub options: Value,
    pub kind: Value,
}

/// The model of an [`AgentToolAuthorizationResolvedEvent`].
pub struct ResolvedView {
    pub session_id: Seq<char>,
    pub approval_id: Seq<char>,
    pub tool_call_id: Seq<char>,
    pub outcome: OutcomeView,
}

impl View for AgentToolAuthorizationRequestEvent {
    type V = RequestView;

    open spec fn view(&self) -> RequestView {
        RequestView {
            session_id: self.session_id@,
            approval_id: self.approval_id@,
            tool_call_id: self.tool_call.tool_call_id@,
            tool_call_fields: self.tool_call.fields,
            options: self.options,
            kind: self.kind,
        }
    }
}

impl View for AgentToolAuthorizationResolvedEvent {
    type V = ResolvedView;

    open spec fn view(&self) -> ResolvedView {
        ResolvedView {
            session_id: self.session_id@,
            approval_id: self.approval_id@,
            tool_call_id: self.tool_call_id@,
            outcome: self.outcome@,
        }
    }
}

impl Clone for AgentToolAuthorizationRequestEvent {
    fn clone(&self) -> (copy: Self)
        ensures
            copy@ == self@,
    {
        AgentToolAuthorizationRequestEvent {
            session_id: self.session_id.clone(),
            approval_id: self.approval_id.clone(),
            tool_call: ToolCallUpdate {
                tool_call_id: self.tool_call.tool_call_id.clone(),
                fields: self.tool_call.fields.clone(),
            },
            options: self.options.clone(),
            kind: self.kind.clone(),
        }
    }
}

/// The models of requests.
pub open spec fn request_views(requests: Seq<AgentToolAuthorizationRequestEvent>) -> Seq<
    RequestView,
> {
    requests.map_values(|request: AgentToolAuthorizationRequestEvent| request@)
}

impl AgentToolAuthorizationRequestEvent {
    /// The variant under which the event is sent.
    pub fn variant(&self) -> (variant: &'static str)
        ensures
            variant@ == AGENT_TOOL_AUTHORIZATION_REQUEST_EVENT@,
    {
        AGENT_TOOL_AUTHORIZATION_REQUEST_EVENT
    }
}

impl AgentToolAuthorizationResolvedEvent {
    /// The variant under which the event is sent.
    pub fn variant(&self) -> (variant: &'static str)
        ensures
            variant@ == AGENT_TOOL_AUTHORIZATION_RESOLVED_EVENT@,
    {
        AGENT_TOOL_AUTHORIZATION_RESOLVED_EVENT
    }
}

/// A tool call that asks for a permission, with the channel for the answer.
pub struct ToolCallAuthorization {
    pub tool_call: ToolCallUpdate,
    pub options: Value,
    pub kind: Value,
    pub response: Sender<SelectedPermissionOutcome>,
}

/// A request with what became of it.
pub struct HostedToolAuthorization {
    request: AgentToolAuthorizationRequestEvent,
    response: Option<Sender<SelectedPermissionOutcome>>,
    resolved_outcome: Option<SelectedPermissionOutcome>,
}

/// The model of a [`HostedToolAuthorization`].
pub struct AuthorizationView {
    pub request: RequestView,
    /// The channel for the answer, until there is one.
    pub response: Option<Sender<SelectedPermissionOutcome>>,
    /// The answer, once there is one.
    pub outcome: Option<OutcomeView>,
}

impl View for HostedToolAuthorization {
    type V = AuthorizationView;

    closed spec fn view(&self) -> AuthorizationView {
        AuthorizationView {
            request: self.request@,
            response: self.response,
            outcome: match self.resolved_outcome {
                Some(outcome) => Some(outcome@),
                None => None,
            },
        }
    }
}

impl HostedToolAuthorization {
    /// The invariant: there is a channel to answer through until there is an answer.
    pub closed spec fn wf(&self) -> bool {
        self.response is Some <==> self.resolved_outcome is None
    }
}

/// Why a request was not answered.
#[derive(Debug, Clone, Copy, PartialEq, Eq, Structural)]
pub enum ToolAuthorizationResolveError {
    NotFound,
    AlreadyResolved,
    ReceiverDropped,
}

impl ToolAuthorizationResolveError {
    pub open spec fn text(self) -> Seq<char> {
        match self {
            ToolAuthorizationResolveError::NotFound => "agent tool authorization not found"@,
            ToolAuthorizationResolveError::AlreadyResolved =>
                "agent tool authorization already resolved"@,
            ToolAuthorizationResolveError::ReceiverDropped =>
                "agent tool authorization receiver was dropped"@,
        }
    }

    pub fn message(&self) -> (message: &'static str)
        ensures
            message@ == self.text(),
    {
        match self {
            ToolAuthorizationResolveError::NotFound => "agent tool authorization not found",
            ToolAuthorizationResolveError::AlreadyResolved =>
                "agent tool authorization already resolved",
            ToolAuthorizationResolveError::ReceiverDropped =>
                "agent tool authorization receiver was dropped",
        }
    }
}

/// The requests of a session, found by the ids that were given to them.
pub struct ToolAuthorizationStore {
    next_approval_id: u64,
    approvals: TextTable<HostedToolAuthorization>,
}

/// The model of a [`ToolAuthorizationStore`].
pub struct AuthorizationStoreView {
    pub next_approval_id: u64,
    pub approvals: Map<Seq<char>, AuthorizationView>,
}

/// The open requests among those with the given ids.
pub open spec fn pending_among(
    ids: Seq<Seq<char>>,
    approvals: Map<Seq<char>, AuthorizationView>,
) -> Seq<RequestView>
    decreases ids.len(),
{
    if ids.len() == 0 {
        Seq::empty()
    } else {
        let before = pending_among(ids.drop_last(), approvals);
        let last = approvals[ids.last()];
        if last.outcome is None {
            before.push(last.request)
        } else {
            before
        }
    }
}

impl AuthorizationStoreView {
    /// The id of the next request.
    pub open spec fn next_id(self) -> Seq<char> {
        text::decimal_text(self.next_approval_id as nat)
    }

    /// The store after a request whose answer is to go through a channel.
    pub open spec fn requested(
        self,
        request: RequestView,
        response: Sender<SelectedPermissionOutcome>,
    ) -> Self {
        AuthorizationStoreView {
            next_approval_id: limits::saturated((self.next_approval_id + 1) as nat),
            approvals: self.approvals.insert(
                request.approval_id,
                AuthorizationView { request, response: Some(response), outcome: None },
            ),
        }
    }

    /// Whether a request waits for its answer.
    pub open spec fn is_open(self, id: Seq<char>) -> bool {
        self.approvals.dom().contains(id) && self.approvals[id].outcome is None
    }

    /// The store after the answer to a request that waited for it.
    pub open spec fn resolved(self, id: Seq<char>, outcome: OutcomeView) -> Self {
        AuthorizationStoreView {
            approvals: self.approvals.insert(
                id,
                AuthorizationView {
                    response: None,
                    outcome: Some(outcome),
                    ..self.approvals[id]
                },
            ),
            ..self
        }
    }

    /// Whether the ids in use are those of earlier requests; so it is until ids run out.
    pub open spec fn ids_are_past(self) -> bool {
        self.next_approval_id < u64::MAX ==> forall|id: Seq<char>| #[trigger]
            self.approvals.dom().contains(id) ==> exists|n: nat|
                n < self.next_approval_id && id == #[trigger] text::decimal_text(n)
    }
}

/// What is told of an answer that was handed to the channel of a request.
pub open spec fn answer(request: RequestView, outcome: OutcomeView, delivered: bool) -> Result<
    ResolvedView,
    ToolAuthorizationResolveError,
> {
    if delivered {
        Ok(
            ResolvedView {
                session_id: request.session_id,
                approval_id: request.approval_id,
                tool_call_id: request.tool_call_id,
                outcome,
            },
        )
    } else {
        Err(ToolAuthorizationResolveError::ReceiverDropped)
    }
}

/// The model of the outcome of [`ToolAuthorizationStore::resolve`].
pub open spec fn answer_view(
    res: Result<AgentToolAuthorizationResolvedEvent, ToolAuthorizationResolveError>,
) -> Result<ResolvedView, ToolAuthorizationResolveError> {
    match res {
        Ok(resolved) => Ok(resolved@),
        Err(error) => Err(error),
    }
}

/// Tells of an answer that was handed to the channel of a request.
pub fn resolution(
    request: &AgentToolAuthorizationRequestEvent,
    outcome: SelectedPermissionOutcome,
    delivered: bool,
) -> (res: Result<AgentToolAuthorizationResolvedEvent, ToolAuthorizationResolveError>)
    ensures
        answer_view(res) == answer(request@, outcome@, delivered),
{
    if delivered {
        Ok(
            AgentToolAuthorizationResolvedEvent {
                session_id: request.session_id.clone(),
                approval_id: request.approval_id.clone(),
                tool_call_id: request.tool_call.tool_call_id.clone(),
                outcome,
            },
        )
    } else {
        Err(ToolAuthorizationResolveError::ReceiverDropped)
    }
}

impl View for ToolAuthorizationStore {
    type V = AuthorizationStoreView;

    closed spec fn view(&self) -> AuthorizationStoreView {
        AuthorizationStoreView {
            next_approval_id: self.next_approval_id,
            approvals: self.approvals@.map_values(
                |authorization: HostedToolAuthorization| authorization@,
            ),
        }
    }
}

impl Default for ToolAuthorizationStore {
    fn default() -> (store: Self)
        ensures
            store.wf(),
            store@ == (AuthorizationStoreView { next_approval_id: 0, approvals: Map::empty() }),
    {
        let store = ToolAuthorizationStore { next_approval_id: 0, approvals: TextTable::new() };
        assert(store@.approvals =~= Map::empty());
        store
    }
}

impl ToolAuthorizationStore {
    /// The invariant: a request can be answered until it is, and no id is given twice.
    pub closed spec fn wf(&self) -> bool {
        &&& self.approvals.wf()
        &&& forall|id: Seq<char>| #[trigger]
            self.approvals@.dom().contains(id) ==> self.approvals@[id].wf()
        &&& self@.ids_are_past()
    }

    /// Takes in a tool call that asks for a permission, under a new id. The event that
    /// asks for it is handed back.
    pub fn request(&mut self, session_id: String, authorization: ToolCallAuthorization) -> (event:
        AgentToolAuthorizationRequestEvent)
        requires
            old(self).wf(),
        ensures
            final(self).wf(),
            event@ == (RequestView {
                session_id: session_id@,
                approval_id: old(self)@.next_id(),
                tool_call_id: authorization.tool_call.tool_call_id@,
                tool_call_fields: authorization.tool_call.fields,
                options: authorization.options,
                kind: authorization.kind,
            }),
            final(self)@ == old(self)@.requested(event@, authorization.response),
            old(self)@.next_approval_id < u64::MAX ==> !old(self)@.approvals.dom().contains(
                event@.approval_id,
            ),
    {
        let approval_id = text::decimal(self.next_approval_id);
        let ghost before = self@;
        let ghost number = self.next_approval_id as nat;
        self.next_approval_id = if self.next_approval_id < u64::MAX {
            self.next_approval_id + 1
        } else {
            self.next_approval_id
        };
        let request = AgentToolAuthorizationRequestEvent {
            session_id,
            approval_id: approval_id.clone(),
            tool_call: authorization.tool_call,
            options: authorization.options,
            kind: authorization.kind,
        };
        let hosted = HostedToolAuthorization {
            request: request.clone(),
            response: Some(authorization.response),
            resolved_outcome: None,
        };
        let ghost id = approval_id@;
        let ghost table = self.approvals@;
        self.approvals.insert(approval_id, hosted);
        proof {
            assert(self@.approvals =~= before.approvals.insert(id, hosted@));
            assert forall|other: Seq<char>| #[trigger] self.approvals@.dom().contains(
                other,
            ) implies self.approvals@[other].wf() by {
                if other != id {
                    assert(table.dom().contains(other));
                }
            }
            if number < u64::MAX {
                if before.approvals.dom().contains(id) {
                    let n = choose|n: nat| n < number && id == #[trigger] text::decimal_text(n);
                    text::decimal_text_injective(n, number);
                }
                assert forall|other: Seq<char>| #[trigger] self@.approvals.dom().contains(
                    other,
                ) implies exists|n: nat|
                    n < self.next_approval_id && other == #[trigger] text::decimal_text(n) by {
                    if other == id {
                        assert(other == text::decimal_text(number));
                    } else {
                        assert(before.approvals.dom().contains(other));
                        let n = choose|n: nat|
                            n < number && other == #[trigger] text::decimal_text(n);
                        assert(n < self.next_approval_id && other == text::decimal_text(n));
                    }
                }
            }
        }
        request
    }

    /// The events that ask for the permissions that were not decided yet, in no particular
    /// order.
    pub fn pending_events(&self) -> (events: Vec<AgentToolAuthorizationRequestEvent>)
        requires
            self.wf(),
        ensures
            exists|ids: Seq<Seq<char>>| #[trigger]
                table::lists_keys(ids, self@.approvals) && request_views(events@) == pending_among(
                    ids,
                    self@.approvals,
                ),
    {
        let ghost ids = self.approvals.keys();
        let mut events: Vec<AgentToolAuthorizationRequestEvent> = Vec::new();
        assert(request_views(events@) =~= Seq::empty());
        assert(ids.take(0) =~= Seq::empty());
        let mut i: usize = 0;
        while i < self.approvals.len()
            invariant
                self.wf(),
                ids == self.approvals.keys(),
                i <= ids.len(),
                request_views(events@) == pending_among(ids.take(i as int), self@.approvals),
            decreases ids.len() - i,
        {
            let authorization = self.approvals.at(i);
            let ghost before = request_views(events@);
            proof {
                let next = ids.take(i + 1);
                assert(next.drop_last() =~= ids.take(i as int));
                assert(next.last() == ids[i as int]);
                assert(self@.approvals[ids[i as int]] == authorization@);
            }
            if authorization.resolved_outcome.is_none() {
                let event = authorization.request.clone();
                events.push(event);
                assert(request_views(events@) =~= before.push(event@));
            }
            i += 1;
        }
        proof {
            assert(ids.take(i as int) =~= ids);
            self.approvals.keys_are_listed();
            assert(table::lists_keys(ids, self@.approvals)) by {
                assert forall|j: int| 0 <= j < ids.len() implies self@.approvals.dom().contains(
                    #[trigger] ids[j],
                ) by {
                    assert(self.approvals@.dom().contains(ids[j]));
                }
                assert forall|id: Seq<char>| #[trigger] self@.approvals.dom().contains(
                    id,
                ) implies ids.contains(id) by {
                    assert(self.approvals@.dom().contains(id));
                }
            }
        }
        events
    }

    /// Answers a request. The first answer counts: it is handed to the channel of the
    /// request, and told of only where it arrives. Whether it does is not for the store to
    /// say.
    pub fn resolve(&mut self, approval_id: &str, outcome: SelectedPermissionOutcome) -> (res:
        Result<AgentToolAuthorizationResolvedEvent, ToolAuthorizationResolveError>)
        requires
            old(self).wf(),
        ensures
            final(self).wf(),
            if !old(self)@.approvals.dom().contains(approval_id@) {
                final(self)@ == old(self)@ && answer_view(res) == Err::<ResolvedView, _>(
                    ToolAuthorizationResolveError::NotFound,
                )
            } else if !old(self)@.is_open(approval_id@) {
                final(self)@ == old(self)@ && answer_view(res) == Err::<ResolvedView, _>(
                    ToolAuthorizationResolveError::AlreadyResolved,
                )
            } else {
                let asked = old(self)@.approvals[approval_id@];
                &&& final(self)@ == old(self)@.resolved(approval_id@, outcome@)
                &&& asked.response matches Some(sender)
                &&& exists|delivered: bool| #[trigger]
                    outcome_sent(sender, outcome@, delivered) && answer_view(res) == answer(
                        asked.request,
                        outcome@,
                        delivered,
                    )
            },
    {
        let ghost table = self.approvals@;
        let ghost before = self@;
        match self.approvals.take(approval_id) {
            None => {
                assert(self.approvals@ =~= table);
                Err(ToolAuthorizationResolveError::NotFound)
            },
            Some(mut authorization) => {
                assert(table.dom().contains(approval_id@));
                let ghost hosted = authorization@;
                let res = match authorization.response {
                    None => {
                        Err(ToolAuthorizationResolveError::AlreadyResolved)
                    },
                    Some(response) => {
                        let delivered = send_outcome(response, outcome.clone());
                        authorization.response = None;
                        authorization.resolved_outcome = Some(outcome.clone());
                        let res = resolution(&authorization.request, outcome, delivered);
                        assert(outcome_sent(response, outcome@, delivered));
                        res
                    },
                };
                let ghost kept = authorization;
                self.approvals.insert(approval_id.to_string(), authorization);
                proof {
                    assert(self.approvals@ =~= table.insert(approval_id@, kept));
                    assert(self@.approvals =~= before.approvals.insert(approval_id@, kept@));
                    if hosted.outcome is Some {
                        assert(self@.approvals =~= before.approvals);
                    }
                    assert forall|other: Seq<char>| #[trigger] self.approvals@.dom().contains(
                        other,
                    ) implies self.approvals@[other].wf() by {
                        if other != approval_id@ {
                            assert(table.dom().contains(other));
                        }
                    }
                    assert forall|id: Seq<char>| #[trigger] self@.approvals.dom().contains(
                        id,
                    ) implies before.approvals.dom().contains(id) by {}
                    assert(self@.ids_are_past());
                }
                res
            },
        }
    }
}

/// The first answer to a request wins: after it the request is not open any more and
/// keeps that answer, and the other requests are as before.
pub proof fn first_answer_wins(
    store: AuthorizationStoreView,
    id: Seq<char>,
    first: OutcomeView,
    other: Seq<char>,
)
    requires
        store.is_open(id),
    ensures
        !store.resolved(id, first).is_open(id),
        store.resolved(id, first).approvals.dom().contains(id),
        store.resolved(id, first).approvals[id].outcome == Some(first),
        other != id ==> store.resolved(id, first).is_open(other) == store.is_open(other),
        other != id ==> store.resolved(id, first).approvals[other] == store.approvals[other],
{
}

/// A new request is open, and its answer goes through the channel that came with it.
pub proof fn request_is_open(
    store: AuthorizationStoreView,
    request: RequestView,
    response: Sender<SelectedPermissionOutcome>,
)
    ensures
        store.requested(request, response).is_open(request.approval_id),
        store.requested(request, response).approvals[request.approval_id].response == Some(
            response,
        ),
{
}

/// The ids of the requests that wait for their answers.
pub open spec fn open_ids(approvals: Map<Seq<char>, AuthorizationView>) -> Set<Seq<char>> {
    approvals.dom().filter(|id: Seq<char>| approvals[id].outcome is None)
}

spec fn open_among(ids: Seq<Seq<char>>, approvals: Map<Seq<char>, AuthorizationView>) -> Set<
    Seq<char>,
> {
    ids.to_set().filter(|id: Seq<char>| approvals[id].outcome is None)
}

proof fn pending_counts_open(ids: Seq<Seq<char>>, approvals: Map<Seq<char>, AuthorizationView>)
    requires
        table::keys_distinct(ids),
    ensures
        open_among(ids, approvals).finite(),
        pending_among(ids, approvals).len() == open_among(ids, approvals).len(),
    decreases ids.len(),
{
    vstd::seq_lib::seq_to_set_is_finite(ids);
    if ids.len() == 0 {
        assert(open_among(ids, approvals) =~= Set::empty());
    } else {
        let before = ids.drop_last();
        let last = ids.last();
        assert forall|i: int, j: int| 0 <= i < j < before.len() implies #[trigger] before[i]
            != #[trigger] before[j] by {
            assert(before[i] == ids[i] && before[j] == ids[j]);
        }
        pending_counts_open(before, approvals);
        assert(!before.contains(last)) by {
            if before.contains(last) {
                let i = choose|i: int| 0 <= i < before.len() && before[i] == last;
                assert(ids[i] == ids[ids.len() - 1]);
            }
        }
        assert forall|id: Seq<char>| ids.contains(id) <==> before.contains(id) || id == last by {
            if ids.contains(id) {
                let i = choose|i: int| 0 <= i < ids.len() && ids[i] == id;
                if i < before.len() {
                    assert(before[i] == id);
                }
            }
            if before.contains(id) {
                let i = choose|i: int| 0 <= i < before.len() && before[i] == id;
                assert(ids[i] == id);
            }
            assert(ids[ids.len() - 1] == last);
        }
        if approvals[last].outcome is None {
            assert(open_among(ids, approvals) =~= open_among(before, approvals).insert(last));
        } else {
            assert(open_among(ids, approvals) =~= open_among(before, approvals));
        }
    }
}

/// However the requests are listed, as many are told to be open as wait for an answer.
pub proof fn open_requests_are_counted(
    ids: Seq<Seq<char>>,
    approvals: Map<Seq<char>, AuthorizationView>,
)
    requires
        table::lists_keys(ids, approvals),
    ensures
        open_ids(approvals).finite(),
        pending_among(ids, approvals).len() == open_ids(approvals).len(),
{
    pending_counts_open(ids, approvals);
    assert forall|id: Seq<char>| ids.contains(id) implies approvals.dom().contains(id) by {
        let i = choose|i: int| 0 <= i < ids.len() && ids[i] == id;
        assert(approvals.dom().contains(ids[i]));
    }
    assert(open_among(ids, approvals) =~= open_ids(approvals));
}

/// A request under a new id makes the number of open requests grow by one, and leaves the
/// others as they were.
pub proof fn request_opens_one(
    store: AuthorizationStoreView,
    request: RequestView,
    response: Sender<SelectedPermissionOutcome>,
    before: Seq<Seq<char>>,
    after: Seq<Seq<char>>,
)
    requires
        !store.approvals.dom().contains(request.approval_id),
        table::lists_keys(before, store.approvals),
        table::lists_keys(after, store.requested(request, response).approvals),
    ensures
        pending_among(after, store.requested(request, response).approvals).len() == pending_among(
            before,
            store.approvals,
        ).len() + 1,
        forall|id: Seq<char>| #[trigger]
            store.approvals.dom().contains(id) ==> store.requested(request, response).approvals[id]
                == store.approvals[id],
{
    let requested = store.requested(request, response).approvals;
    open_requests_are_counted(before, store.approvals);
    open_requests_are_counted(after, requested);
    assert(open_ids(requested) =~= open_ids(store.approvals).insert(request.approval_id));
}

/// The answer to an open request makes the number of open requests shrink by one.
pub proof fn answer_closes_one(
    store: AuthorizationStoreView,
    id: Seq<char>,
    outcome: OutcomeView,
    before: Seq<Seq<char>>,
    after: Seq<Seq<char>>,
)
    requires
        store.is_open(id),
        table::lists_keys(before, store.approvals),
        table::lists_keys(after, store.resolved(id, outcome).approvals),
    ensures
        pending_among(after, store.resolved(id, outcome).approvals).len() + 1 == pending_among(
            before,
            store.approvals,
        ).len(),
{
    let resolved = store.resolved(id, outcome).approvals;
    open_requests_are_counted(before, store.approvals);
    open_requests_are_counted(after, resolved);
    assert(open_ids(resolved).insert(id) =~= open_ids(store.approvals));
}

/// An answer is seen whole, and so are the events about permissions.
pub proof fn permissions_are_seen_whole(
    outcome: SelectedPermissionOutcome,
    request: AgentToolAuthorizationRequestEvent,
    resolved: AgentToolAuthorizationResolvedEvent,
)
    ensures
        outcome@.option_id == outcome.option_id@,
        outcome@.option_kind == outcome.option_kind,
        request@.session_id == request.session_id@,
        request@.approval_id == request.approval_id@,
        request@.tool_call_id == request.tool_call.tool_call_id@,
        request@.tool_call_fields == request.tool_call.fields,
        request@.options == request.options,
        request@.kind == request.kind,
        resolved@.session_id == resolved.session_id@,
        resolved@.approval_id == resolved.approval_id@,
        resolved@.tool_call_id == resolved.tool_call_id@,
        resolved@.outcome == resolved.outcome@,
        answer_view(Ok(resolved)) == Ok::<ResolvedView, ToolAuthorizationResolveError>(resolved@),
        forall|error: ToolAuthorizationResolveError| #[trigger]
            answer_view(Err(error)) == Err::<ResolvedView, ToolAuthorizationResolveError>(error),
{
}

/// In a list each request is seen at its place.
pub proof fn requests_are_seen_in_place(requests: Seq<AgentToolAuthorizationRequestEvent>)
    ensures
        request_views(requests).len() == requests.len(),
        forall|i: int|
            0 <= i < requests.len() ==> #[trigger] request_views(requests)[i] == requests[i]@,
{
}

/// The id of the next request is its number.
pub proof fn ids_are_numbers(store: AuthorizationStoreView)
    ensures
        text::decimal_value(store.next_id()) == store.next_approval_id,
{
    text::decimal_text_gives_the_number(store.next_approval_id as nat);
}

/// A request is kept as it was made, unanswered, under its id, and the next id is another;
/// the other requests stay as they were.
pub proof fn requests_are_kept_as_made(
    store: AuthorizationStoreView,
    request: RequestView,
    response: Sender<SelectedPermissionOutcome>,
    other: Seq<char>,
)
    ensures
        ({
            let after = store.requested(request, response);
            &&& after.approvals.dom() == store.approvals.dom().insert(request.approval_id)
            &&& after.approvals[request.approval_id].request == request
            &&& after.approvals[request.approval_id].response == Some(response)
            &&& after.approvals[request.approval_id].outcome is None
            &&& after.is_open(request.approval_id)
            &&& other != request.approval_id ==> after.approvals[other] == store.approvals[other]
            &&& store.next_approval_id < u64::MAX ==> after.next_approval_id
                == store.next_approval_id + 1
            &&& store.next_approval_id == u64::MAX ==> after.next_approval_id == u64::MAX
        }),
{
}

/// An answer is kept with its request, which stays as it was made, and the others stay as
/// they were.
pub proof fn answers_are_kept_with_the_request(
    store: AuthorizationStoreView,
    id: Seq<char>,
    outcome: OutcomeView,
    other: Seq<char>,
)
    requires
        store.is_open(id),
    ensures
        ({
            let after = store.resolved(id, outcome);
            &&& after.approvals.dom() == store.approvals.dom()
            &&& after.approvals[id].request == store.approvals[id].request
            &&& after.approvals[id].outcome == Some(outcome)
            &&& after.approvals[id].response is None
            &&& other != id ==> after.approvals[other] == store.approvals[other]
            &&& after.next_approval_id == store.next_approval_id
        }),
        store.approvals.dom().contains(id),
        store.approvals[id].outcome is None,
{
    assert(store.resolved(id, outcome).approvals.dom() =~= store.approvals.dom());
}

/// A request that is there and has no answer is open, and no other.
pub proof fn unanswered_requests_are_open(store: AuthorizationStoreView, id: Seq<char>)
    ensures
        store.is_open(id) <==> (store.approvals.dom().contains(id)
            && store.approvals[id].outcome is None),
{
}

/// What is told of an answer that arrived is the answer itself, with the session, the id and
/// the tool call of its request; one that did not arrive is told as such.
pub proof fn answers_name_their_request(request: RequestView, outcome: OutcomeView)
    ensures
        answer(request, outcome, true) matches Ok(told) && told.session_id == request.session_id
            && told.approval_id == request.approval_id && told.tool_call_id == request.tool_call_id
            && told.outcome == outcome,
        answer(request, outcome, false) == Err::<ResolvedView, ToolAuthorizationResolveError>(
            ToolAuthorizationResolveError::ReceiverDropped,
        ),
{
}

/// The open requests are told as they were made, each of them, in the order of their ids in
/// the list, and no answered one is told.
pub proof fn open_requests_are_told(
    ids: Seq<Seq<char>>,
    more: Seq<Seq<char>>,
    id: Seq<char>,
    approvals: Map<Seq<char>, AuthorizationView>,
)
    ensures
        pending_among(ids + more, approvals) == pending_among(ids, approvals) + pending_among(
            more,
            approvals,
        ),
        approvals[id].outcome is None ==> pending_among(seq![id], approvals)
            == seq![approvals[id].request],
        approvals[id].outcome is Some ==> pending_among(seq![id], approvals) == Seq::<
            RequestView,
        >::empty(),
    decreases more.len(),
{
    if more.len() == 0 {
        assert(ids + more =~= ids);
        assert(pending_among(ids, approvals) + pending_among(more, approvals) =~= pending_among(
            ids,
            approvals,
        ));
    } else {
        open_requests_are_told(ids, more.drop_last(), id, approvals);
        assert((ids + more).drop_last() =~= ids + more.drop_last());
        assert((ids + more).last() == more.last());
        assert(pending_among(ids + more, approvals) =~= pending_among(ids, approvals)
            + pending_among(more, approvals));
    }
    assert(seq![id].drop_last() =~= Seq::empty());
    assert(pending_among(seq![id].drop_last(), approvals) =~= Seq::empty());
    assert(seq![id].last() == id);
}

/// Each reason that a request was not answered is told in words of its own.
pub proof fn refused_answers_are_told_apart(told: ToolAuthorizationResolveError)
    ensures
        told.text() == "agent tool authorization not found"@ <==> told is NotFound,
        told.text() == "agent tool authorization already resolved"@ <==> told is AlreadyResolved,
        told.text() == "agent tool authorization receiver was dropped"@ <==> told is ReceiverDropped,
{
    reveal_strlit("agent tool authorization not found");
    reveal_strlit("agent tool authorization already resolved");
    reveal_strlit("agent tool authorization receiver was dropped");
    assert("agent tool authorization not found"@.len() == 34);
    assert("agent tool authorization already resolved"@.len() == 41);
    assert("agent tool authorization receiver was dropped"@.len() == 45);
}

} // verus!
