//! The events of an agent session, in the form in which they are kept and in the one in
//! which they are sent.
use serde_json::Value;
use vstd::prelude::*;

use crate::json;
use crate::text;

verus! {

/// An event of a thread that can be kept and sent.
#[derive(Debug, PartialEq, Eq)]
pub struct SerializableThreadEvent {
    pub variant: String,
    pub payload: Option<Value>,
    pub debug: Option<String>,
}

/// The model of a [`SerializableThreadEvent`].
pub struct ThreadEventView {
    pub variant: Seq<char>,
    pub payload: Option<Value>,
    pub debug: Option<Seq<char>>,
}

/// An event of a thread, in a message.
#[derive(Debug, PartialEq, Eq)]
pub struct SerializedAgentThreadEvent {
    pub variant: String,
    pub payload_json: Option<String>,
    pub debug: Option<String>,
}

/// The model of a [`SerializedAgentThreadEvent`].
pub struct SerializedEventView {
    pub variant: Seq<char>,
    pub payload_json: Option<Seq<char>>,
    pub debug: Option<Seq<char>>,
}

impl View for SerializableThreadEvent {
    type V = ThreadEventView;

    open spec fn view(&self) -> ThreadEventView {
        ThreadEventView {
            variant: self.variant@,
            payload: self.payload,
            debug: text::optional_text(self.debug),
        }
    }
}

impl View for SerializedAgentThreadEvent {
    type V = SerializedEventView;

    open spec fn view(&self) -> SerializedEventView {
        SerializedEventView {
            variant: self.variant@,
            payload_json: text::optional_text(self.payload_json),
            debug: text::optional_text(self.debug),
        }
    }
}

impl Clone for SerializableThreadEvent {
    fn clone(&self) -> (copy: Self)
        ensures
            copy@ == self@,
    {
        SerializableThreadEvent {
            variant: self.variant.clone(),
            payload: match &self.payload {
                Some(payload) => Some(payload.clone()),
                None => None,
            },
            debug: self.debug.clone(),
        }
    }
}

impl ThreadEventView {
    /// The form in which an event is sent, `None` where `serde_json` cannot print its
    /// payload.
    pub open spec fn to_wire(self) -> Option<SerializedEventView> {
        match self.payload {
            Some(payload) => match json::printed_json(payload) {
                Some(printed) => Some(
                    SerializedEventView {
                        variant: self.variant,
                        payload_json: Some(printed),
                        debug: self.debug,
                    },
                ),
                None => None,
            },
            None => Some(
                SerializedEventView {
                    variant: self.variant,
                    payload_json: None,
                    debug: self.debug,
                },
            ),
        }
    }

    /// Whether the payload is read back from what is printed of it.
    pub open spec fn payload_reads_back(self) -> bool {
        self.payload matches Some(payload) ==> (json::printed_json(payload) matches Some(printed)
            && json::parsed_json(printed) == Some(payload))
    }
}

impl SerializedEventView {
    /// The event that was sent, `None` where `serde_json` refuses the text of its payload.
    pub open spec fn from_wire(self) -> Option<ThreadEventView> {
        match self.payload_json {
            Some(printed) => match json::parsed_json(printed) {
                Some(payload) => Some(
                    ThreadEventView {
                        variant: self.variant,
                        payload: Some(payload),
                        debug: self.debug,
                    },
                ),
                None => None,
            },
            None => Some(
                ThreadEventView { variant: self.variant, payload: None, debug: self.debug },
            ),
        }
    }
}

/// Reads an event from a message; fails where the text of its payload is no JSON.
pub fn serializable_event_from_proto(event: &SerializedAgentThreadEvent) -> (res: Result<
    SerializableThreadEvent,
    serde_json::Error,
>)
    ensures
        match res {
            Ok(read) => event@.from_wire() == Some(read@),
            Err(_) => event@.from_wire() is None,
        },
{
    let payload = match &event.payload_json {
        Some(printed) => match json::parse_json(printed) {
            Ok(payload) => Some(payload),
            Err(error) => {
                return Err(error);
            },
        },
        None => None,
    };
    Ok(
        SerializableThreadEvent {
            variant: event.variant.clone(),
            payload,
            debug: event.debug.clone(),
        },
    )
}

/// Writes an event for a message; fails where its payload cannot be printed.
pub fn serializable_event_to_proto(event: &SerializableThreadEvent) -> (res: Result<
    SerializedAgentThreadEvent,
    serde_json::Error,
>)
    ensures
        match res {
            Ok(written) => event@.to_wire() == Some(written@),
            Err(_) => event@.to_wire() is None,
        },
{
    let payload_json = match &event.payload {
        Some(payload) => match json::print_json(payload) {
            Ok(printed) => Some(printed),
            Err(error) => {
                return Err(error);
            },
        },
        None => None,
    };
    Ok(
        SerializedAgentThreadEvent {
            variant: event.variant.clone(),
            payload_json,
            debug: event.debug.clone(),
        },
    )
}

/// An event is read back from its message, where `serde_json` reads back the payload that
/// it printed.
pub proof fn event_round_trip(event: ThreadEventView)
    ensures
        event.payload_reads_back() ==> (event.to_wire() matches Some(written)
            && written.from_wire() == Some(event)),
{
}

/// An event with its place in the order of a session's events.
#[derive(Debug, PartialEq, Eq)]
pub struct BufferedAgentEvent {
    pub sequence: u64,
    pub event: SerializableThreadEvent,
}

/// The model of a [`BufferedAgentEvent`].
pub struct BufferedEventView {
    pub sequence: u64,
    pub event: ThreadEventView,
}

impl View for BufferedAgentEvent {
    type V = BufferedEventView;

    open spec fn view(&self) -> BufferedEventView {
        BufferedEventView { sequence: self.sequence, event: self.event@ }
    }
}

impl Clone for BufferedAgentEvent {
    fn clone(&self) -> (copy: Self)
        ensures
            copy@ == self@,
    {
        BufferedAgentEvent { sequence: self.sequence, event: self.event.clone() }
    }
}

/// The models of events with their places.
pub open spec fn buffered_views(events: Seq<BufferedAgentEvent>) -> Seq<BufferedEventView> {
    events.map_values(|event: BufferedAgentEvent| event@)
}

/// An event with its place, in the answer to a subscription.
#[derive(Debug, PartialEq, Eq)]
pub struct BufferedAgentSessionEvent {
    pub sequence: u64,
    pub event: Option<SerializedAgentThreadEvent>,
}

/// The model of a [`BufferedAgentSessionEvent`].
pub struct SessionEventView {
    pub sequence: u64,
    pub event: Option<SerializedEventView>,
}

/// The model of an event that may be missing.
pub open spec fn optional_event(event: Option<SerializedAgentThreadEvent>) -> Option<
    SerializedEventView,
> {
    match event {
        Some(event) => Some(event@),
        None => None,
    }
}

impl View for BufferedAgentSessionEvent {
    type V = SessionEventView;

    open spec fn view(&self) -> SessionEventView {
        SessionEventView { sequence: self.sequence, event: optional_event(self.event) }
    }
}

/// The models of events in the answer to a subscription.
pub open spec fn session_event_views(events: Seq<BufferedAgentSessionEvent>) -> Seq<
    SessionEventView,
> {
    events.map_values(|event: BufferedAgentSessionEvent| event@)
}

/// The models of events in a message.
pub open spec fn serialized_views(events: Seq<SerializedAgentThreadEvent>) -> Seq<
    SerializedEventView,
> {
    events.map_values(|event: SerializedAgentThreadEvent| event@)
}

/// The models of events.
pub open spec fn event_views(events: Seq<SerializableThreadEvent>) -> Seq<ThreadEventView> {
    events.map_values(|event: SerializableThreadEvent| event@)
}

impl BufferedEventView {
    pub open spec fn to_wire(self) -> Option<SessionEventView> {
        match self.event.to_wire() {
            Some(event) => Some(SessionEventView { sequence: self.sequence, event: Some(event) }),
            None => None,
        }
    }
}

/// Writes an event with its place.
pub fn buffered_event_to_proto(event: &BufferedAgentEvent) -> (res: Result<
    BufferedAgentSessionEvent,
    serde_json::Error,
>)
    ensures
        match res {
            Ok(written) => event@.to_wire() == Some(written@),
            Err(_) => event@.to_wire() is None,
        },
{
    match serializable_event_to_proto(&event.event) {
        Ok(written) => Ok(
            BufferedAgentSessionEvent { sequence: event.sequence, event: Some(written) },
        ),
        Err(error) => Err(error),
    }
}

/// An event of a session as it happens, in a message.
#[derive(Debug, PartialEq, Eq)]
pub struct AgentSessionEvent {
    pub session_id: String,
    pub sequence: u64,
    pub event: Option<SerializedAgentThreadEvent>,
}

/// The model of an [`AgentSessionEvent`].
pub struct LiveEventView {
    pub session_id: Seq<char>,
    pub sequence: u64,
    pub event: Option<SerializedEventView>,
}

impl View for AgentSessionEvent {
    type V = LiveEventView;

    open spec fn view(&self) -> LiveEventView {
        LiveEventView {
            session_id: self.session_id@,
            sequence: self.sequence,
            event: optional_event(self.event),
        }
    }
}

/// The answer to a subscription: the thread as it stands, and the events that the
/// subscriber has not seen.
#[derive(Debug, PartialEq, Eq)]
pub struct SubscribeAgentSessionResponse {
    /// The place of the first event that is not part of the snapshot.
    pub snapshot_sequence: u64,
    /// Whether events that the subscriber has not seen are no longer kept.
    pub gap: bool,
    pub snapshot: Vec<SerializedAgentThreadEvent>,
    pub events: Vec<BufferedAgentSessionEvent>,
}

/// An event is seen whole: its variant, its payload and what is written for debugging.
pub proof fn events_are_seen_whole(event: SerializableThreadEvent)
    ensures
        event@.variant == event.variant@,
        event@.payload == event.payload,
        event.debug is None ==> event@.debug is None,
        event.debug matches Some(debug) ==> event@.debug == Some(debug@),
{
}

/// A written event is seen whole.
pub proof fn written_events_are_seen_whole(event: SerializedAgentThreadEvent)
    ensures
        event@.variant == event.variant@,
        event.payload_json is None ==> event@.payload_json is None,
        event.payload_json matches Some(payload) ==> event@.payload_json == Some(payload@),
        event.debug is None ==> event@.debug is None,
        event.debug matches Some(debug) ==> event@.debug == Some(debug@),
{
}

/// An event with its place is seen with both, and so is one that is sent.
pub proof fn places_are_seen(
    kept: BufferedAgentEvent,
    replayed: BufferedAgentSessionEvent,
    live: AgentSessionEvent,
)
    ensures
        kept@.sequence == kept.sequence,
        kept@.event == kept.event@,
        replayed@.sequence == replayed.sequence,
        replayed.event is None ==> replayed@.event is None,
        replayed.event matches Some(event) ==> replayed@.event == Some(event@),
        live@.session_id == live.session_id@,
        live@.sequence == live.sequence,
        live.event is None ==> live@.event is None,
        live.event matches Some(event) ==> live@.event == Some(event@),
{
}

/// In a list each event is seen at its place.
pub proof fn lists_are_seen_in_place(
    kept: Seq<BufferedAgentEvent>,
    replayed: Seq<BufferedAgentSessionEvent>,
    written: Seq<SerializedAgentThreadEvent>,
    events: Seq<SerializableThreadEvent>,
)
    ensures
        buffered_views(kept).len() == kept.len(),
        forall|i: int| 0 <= i < kept.len() ==> #[trigger] buffered_views(kept)[i] == kept[i]@,
        session_event_views(replayed).len() == replayed.len(),
        forall|i: int|
            0 <= i < replayed.len() ==> #[trigger] session_event_views(replayed)[i]
                == replayed[i]@,
        serialized_views(written).len() == written.len(),
        forall|i: int|
            0 <= i < written.len() ==> #[trigger] serialized_views(written)[i] == written[i]@,
        event_views(events).len() == events.len(),
        forall|i: int| 0 <= i < events.len() ==> #[trigger] event_views(events)[i] == events[i]@,
{
}

/// Writing an event keeps its variant and what is written for debugging, and prints the
/// payload, where there is one. It fails only where the payload cannot be printed.
pub proof fn writing_keeps_the_event(event: ThreadEventView)
    ensures
        event.to_wire() is None <==> (event.payload is Some && json::printed_json(
            event.payload->0,
        ) is None),
        event.to_wire() matches Some(written) ==> {
            &&& written.variant == event.variant
            &&& written.debug == event.debug
            &&& event.payload is None ==> written.payload_json is None
            &&& event.payload matches Some(payload) ==> written.payload_json
                == json::printed_json(payload)
        },
{
}

/// Reading a written event keeps its variant and what is written for debugging, and parses
/// the payload, where there is one. It fails only where the payload cannot be parsed.
pub proof fn reading_keeps_the_event(written: SerializedEventView)
    ensures
        written.from_wire() is None <==> (written.payload_json is Some && json::parsed_json(
            written.payload_json->0,
        ) is None),
        written.from_wire() matches Some(event) ==> {
            &&& event.variant == written.variant
            &&& event.debug == written.debug
            &&& written.payload_json is None ==> event.payload is None
            &&& written.payload_json matches Some(payload) ==> event.payload == json::parsed_json(
                payload,
            )
        },
{
}

/// An event that is written with its place keeps the place.
pub proof fn writing_keeps_the_place(event: BufferedEventView)
    ensures
        event.to_wire() is None <==> event.event.to_wire() is None,
        event.to_wire() matches Some(written) ==> written.sequence == event.sequence
            && written.event == event.event.to_wire(),
{
}

} // verus!
