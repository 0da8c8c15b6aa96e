use agent_client_protocol::v1::schema;
use mutex_agent::event_buffer::SessionEventBuffer;
use mutex_agent::remote_agent_connection::{
    parts_markdown, classify_sequence, new_session_metadata, prompt_markdown, route_event, PromptPart,
    EventRoute, LiveAction, PromptProgress, PromptStep, RemoteAgentConnection, ReplayStep,
    SequenceDecision, SequenceEvent, SubscribeAgentSession, SubscriptionReplay,
};
use mutex_agent::session_event::{
    buffered_event_to_proto, serializable_event_from_proto, serializable_event_to_proto,
    AgentSessionEvent, BufferedAgentSessionEvent, SerializableThreadEvent,
    SerializedAgentThreadEvent, SubscribeAgentSessionResponse,
};
use mutex_agent::thread_metadata::WorktreePaths;
use mutex_agent::timestamp::Timestamp;
use mutex_agent::tool_authorization::{
    AgentToolAuthorizationRequestEvent, AgentToolAuthorizationResolvedEvent, PermissionOptionKind,
    SelectedPermissionOutcome, ToolCallUpdate, AGENT_TOOL_AUTHORIZATION_REQUEST_EVENT,
    AGENT_TOOL_AUTHORIZATION_RESOLVED_EVENT,
};
use serde_json::Value;

fn event(variant: &str) -> SerializableThreadEvent {
    SerializableThreadEvent {
        variant: variant.to_string(),
        payload: Some(Value::Bool(true)),
        debug: None,
    }
}

fn serialized(variant: &str) -> SerializedAgentThreadEvent {
    SerializedAgentThreadEvent {
        variant: variant.to_string(),
        payload_json: Some("true".to_string()),
        debug: None,
    }
}

fn live(session_id: &str, sequence: u64, variant: &str) -> AgentSessionEvent {
    AgentSessionEvent {
        session_id: session_id.to_string(),
        sequence,
        event: Some(serialized(variant)),
    }
}

fn buffered(sequence: u64, variant: &str) -> BufferedAgentSessionEvent {
    BufferedAgentSessionEvent {
        sequence,
        event: Some(serialized(variant)),
    }
}

#[test]
fn classify_sequence_applies_in_order_and_advances() {
    let mut next_sequence = 7;

    assert_eq!(
        classify_sequence(&mut next_sequence, 7),
        SequenceDecision::Apply
    );
    assert_eq!(next_sequence, 8);
}

#[test]
fn classify_sequence_ignores_duplicates_without_advancing() {
    let mut next_sequence = 7;

    assert_eq!(
        classify_sequence(&mut next_sequence, 6),
        SequenceDecision::Duplicate
    );
    assert_eq!(next_sequence, 7);
}

#[test]
fn classify_sequence_reports_gap_without_advancing() {
    let mut next_sequence = 7;

    assert_eq!(
        classify_sequence(&mut next_sequence, 9),
        SequenceDecision::Gap
    );
    assert_eq!(next_sequence, 7);
}

#[test]
fn classify_sequence_stops_at_the_last_place() {
    let mut next_sequence = u64::MAX;
    assert_eq!(
        classify_sequence(&mut next_sequence, u64::MAX),
        SequenceDecision::Apply
    );
    assert_eq!(next_sequence, u64::MAX);
}

#[test]
fn events_are_written_and_read() {
    let written = serializable_event_to_proto(&event("message")).expect("written");
    assert_eq!(written, serialized("message"));
    assert_eq!(
        serializable_event_from_proto(&written).expect("read"),
        event("message")
    );
    let plain = SerializableThreadEvent {
        variant: "stop".to_string(),
        payload: None,
        debug: Some("Stop".to_string()),
    };
    let written = serializable_event_to_proto(&plain).expect("written");
    assert_eq!(written.payload_json, None);
    assert_eq!(serializable_event_from_proto(&written).expect("read"), plain);

    let broken = SerializedAgentThreadEvent {
        variant: "message".to_string(),
        payload_json: Some("{".to_string()),
        debug: None,
    };
    assert!(serializable_event_from_proto(&broken).is_err());
}

#[test]
fn the_buffer_numbers_its_events() {
    let mut buffer = SessionEventBuffer::default();
    assert_eq!(buffer.next_sequence(), 0);
    assert_eq!(buffer.first_sequence(), 0);
    assert!(!buffer.has_gap_before(0));
    for name in ["a", "b", "c", "d", "e"] {
        buffer.push(event(name), 3);
    }
    assert_eq!(buffer.next_sequence(), 5);
    assert_eq!(buffer.first_sequence(), 2);
    let kept: Vec<(u64, String)> = buffer
        .events()
        .into_iter()
        .map(|event| (event.sequence, event.event.variant))
        .collect();
    assert_eq!(
        kept,
        vec![
            (2, "c".to_string()),
            (3, "d".to_string()),
            (4, "e".to_string())
        ]
    );
    assert!(buffer.has_gap_before(1));
    assert!(!buffer.has_gap_before(2));
    assert!(!buffer.has_gap_before(5));
    assert!(!buffer.has_gap_before(9));
    assert_eq!(buffer.events_from(0).len(), 3);
    assert_eq!(buffer.events_from(4).len(), 1);
    assert_eq!(buffer.events_from(5).len(), 0);
    let written = buffered_event_to_proto(&buffer.events_from(4)[0]).expect("written");
    assert_eq!(written, buffered(4, "e"));
}

#[test]
fn a_buffer_without_room_keeps_nothing() {
    let mut buffer = SessionEventBuffer::default();
    let pushed = buffer.push(event("a"), 0);
    assert_eq!(pushed.sequence, 0);
    assert!(buffer.events().is_empty());
    assert_eq!(buffer.first_sequence(), 1);
    assert!(buffer.has_gap_before(0));
}

#[test]
fn live_events_are_applied_in_order() {
    let mut connection = RemoteAgentConnection::new();
    let request = connection.begin_session("s");
    assert_eq!(
        request,
        SubscribeAgentSession {
            session_id: "s".to_string(),
            from_sequence: 0
        }
    );
    assert_eq!(
        connection
            .handle_live_event("s", &live("other", 0, "x"))
            .expect("ignored"),
        LiveAction::Ignore
    );
    for sequence in 0..3 {
        assert_eq!(
            connection
                .handle_live_event("s", &live("s", sequence, "x"))
                .expect("applied"),
            LiveAction::Apply {
                event: event("x"),
                to_prompt: false
            }
        );
    }
    assert_eq!(
        connection
            .handle_live_event("s", &live("s", 1, "x"))
            .expect("seen before"),
        LiveAction::Ignore
    );
    assert_eq!(
        connection
            .handle_live_event("s", &live("s", 9, "x"))
            .expect("missed some"),
        LiveAction::Resubscribe(SubscribeAgentSession {
            session_id: "s".to_string(),
            from_sequence: 3
        })
    );
    assert_eq!(connection.resubscribe("s").expect("known").from_sequence, 3);
}

#[test]
fn live_events_can_be_refused() {
    let mut connection = RemoteAgentConnection::new();
    let mut missing = live("s", 0, "x");
    missing.event = None;
    let error = connection
        .handle_live_event("s", &missing)
        .expect_err("no payload");
    assert_eq!(error.message(), "agent session event missing event payload");
    let mut broken = live("s", 0, "x");
    broken.event = Some(SerializedAgentThreadEvent {
        variant: "x".to_string(),
        payload_json: Some("?".to_string()),
        debug: None,
    });
    let error = connection
        .handle_live_event("s", &broken)
        .expect_err("no JSON");
    assert_eq!(error.message(), "deserialize agent thread event payload");
    let error = connection
        .handle_live_event("s", &live("s", 0, "x"))
        .expect_err("no session");
    assert_eq!(error.message(), "remote agent session not found");
    assert!(connection.resubscribe("s").is_err());
}

#[test]
fn the_message_of_the_user_is_skipped_once() {
    let mut connection = RemoteAgentConnection::new();
    connection.begin_session("s");
    connection.begin_prompt("s").expect("known");
    assert_eq!(
        connection
            .prepare_sequence_event("s", 0, &event("agent_text"))
            .expect("known"),
        SequenceEvent::Apply { to_prompt: true }
    );
    assert_eq!(
        connection
            .prepare_sequence_event("s", 5, &event("user_message"))
            .expect("known"),
        SequenceEvent::Gap
    );
    assert_eq!(
        connection
            .prepare_sequence_event("s", 1, &event("user_message"))
            .expect("known"),
        SequenceEvent::Duplicate
    );
    assert_eq!(
        connection
            .prepare_sequence_event("s", 2, &event("user_message"))
            .expect("known"),
        SequenceEvent::Apply { to_prompt: true }
    );
}

#[test]
fn prompts_end() {
    let mut connection = RemoteAgentConnection::new();
    assert_eq!(
        connection
            .begin_prompt("s")
            .expect_err("no session")
            .message(),
        "remote agent session not found"
    );
    connection.begin_session("s");
    for (progress, step, keeps_running) in [
        (PromptProgress::Failed, PromptStep::ReturnError, true),
        (PromptProgress::Applied, PromptStep::Wait, true),
        (PromptProgress::Responded, PromptStep::ReturnResponse, false),
        (PromptProgress::Ended, PromptStep::ReturnEndTurn, false),
    ] {
        connection.begin_session("s");
        connection.begin_prompt("s").expect("known");
        assert_eq!(connection.prompt_step("s", progress), step);
        assert_eq!(
            connection
                .prepare_sequence_event("s", 0, &event("agent_text"))
                .expect("known"),
            SequenceEvent::Apply {
                to_prompt: keeps_running
            }
        );
    }
}

#[test]
fn a_subscription_is_replayed() {
    let mut connection = RemoteAgentConnection::new();
    connection.begin_session("s");
    let response = SubscribeAgentSessionResponse {
        snapshot_sequence: 2,
        gap: false,
        snapshot: vec![serialized("one"), serialized("two")],
        events: vec![buffered(1, "old"), buffered(2, "new"), buffered(4, "gap")],
    };
    let mut replay = SubscriptionReplay::new(response, true);
    let mut steps = Vec::new();
    loop {
        let step = replay.next_step(&mut connection, "s").expect("step");
        if step == ReplayStep::Done {
            break;
        }
        steps.push(step);
    }
    assert_eq!(
        steps,
        vec![
            ReplayStep::ResetEntries,
            ReplayStep::ApplySnapshot(event("one")),
            ReplayStep::ApplySnapshot(event("two")),
            ReplayStep::Apply {
                event: event("new"),
                to_prompt: false
            },
        ]
    );
    assert_eq!(connection.resubscribe("s").expect("known").from_sequence, 3);
}

#[test]
fn without_a_reset_only_the_events_count() {
    for (gap, first) in [
        (
            false,
            ReplayStep::Apply {
                event: event("a"),
                to_prompt: false,
            },
        ),
        (true, ReplayStep::ResetEntries),
    ] {
        let mut connection = RemoteAgentConnection::new();
        connection.begin_session("s");
        let response = SubscribeAgentSessionResponse {
            snapshot_sequence: 7,
            gap,
            snapshot: vec![serialized("one")],
            events: vec![buffered(0, "a")],
        };
        let mut replay = SubscriptionReplay::new(response, false);
        assert_eq!(replay.next_step(&mut connection, "s").expect("step"), first);
    }
}

#[test]
fn replays_can_fail() {
    let mut connection = RemoteAgentConnection::new();
    let response = SubscribeAgentSessionResponse {
        snapshot_sequence: 0,
        gap: false,
        snapshot: vec![],
        events: vec![
            BufferedAgentSessionEvent {
                sequence: 0,
                event: None,
            },
            buffered(0, "a"),
        ],
    };
    let mut replay = SubscriptionReplay::new(response, false);
    assert_eq!(
        replay
            .next_step(&mut connection, "s")
            .expect_err("no payload")
            .message(),
        "buffered agent session event missing payload"
    );
    assert_eq!(
        replay
            .next_step(&mut connection, "s")
            .expect_err("no session")
            .message(),
        "remote agent session not found"
    );
    assert_eq!(
        replay.next_step(&mut connection, "s").expect("step"),
        ReplayStep::Done
    );
}

#[test]
fn a_lost_connection_is_caught_up() {
    let mut buffer = SessionEventBuffer::default();
    let mut connection = RemoteAgentConnection::new();
    connection.begin_session("s");
    for number in 0..6 {
        let pushed = buffer.push(event("x"), 4);
        if number < 3 {
            connection
                .handle_live_event("s", &live("s", pushed.sequence, "x"))
                .expect("applied");
        }
    }
    let from = connection.resubscribe("s").expect("known").from_sequence;
    assert!(!buffer.has_gap_before(from));
    for missed in buffer.events_from(from) {
        assert_eq!(
            connection
                .prepare_sequence_event("s", missed.sequence, &missed.event)
                .expect("known"),
            SequenceEvent::Apply { to_prompt: false }
        );
    }
    assert_eq!(
        connection.resubscribe("s").expect("known").from_sequence,
        buffer.next_sequence()
    );
}

#[test]
fn permissions_are_asked_for_until_decided() {
    let mut connection = RemoteAgentConnection::new();
    connection.begin_session("s");
    let request = AgentToolAuthorizationRequestEvent {
        session_id: "s".to_string(),
        approval_id: "0".to_string(),
        tool_call: ToolCallUpdate {
            tool_call_id: "tool-1".to_string(),
            fields: Value::Null,
        },
        options: Value::Null,
        kind: Value::Null,
    };
    assert_eq!(request.variant(), AGENT_TOOL_AUTHORIZATION_REQUEST_EVENT);
    assert!(connection
        .authorization_requested("s", &request)
        .expect("for the session"));
    assert_eq!(
        connection
            .authorization_requested("t", &request)
            .expect_err("another session")
            .message(),
        "agent tool authorization session id mismatch"
    );
    let response = connection
        .authorization_response("s", "0", Some("{}".to_string()))
        .expect("a response");
    assert_eq!(response.session_id, "s");
    assert_eq!(response.approval_id, "0");
    assert_eq!(response.selected_outcome_json, "{}");
    assert_eq!(connection.authorization_response("s", "0", None), None);

    let resolved = AgentToolAuthorizationResolvedEvent {
        session_id: "s".to_string(),
        approval_id: "0".to_string(),
        tool_call_id: "tool-1".to_string(),
        outcome: SelectedPermissionOutcome::new("allow".to_string(), PermissionOptionKind::AllowOnce),
    };
    assert!(connection.authorization_resolved("t", &resolved).is_err());
    assert!(!connection.is_approval_resolved("s", "0"));
    connection
        .authorization_resolved("s", &resolved)
        .expect("for the session");
    assert!(connection.is_approval_resolved("s", "0"));
    assert!(!connection
        .authorization_requested("s", &request)
        .expect("for the session"));
    assert_eq!(
        connection.authorization_response("s", "0", Some("{}".to_string())),
        None
    );
    connection.mark_approval_resolved("unknown", "0".to_string());
    assert!(!connection.is_approval_resolved("unknown", "0"));
}

#[test]
fn events_are_routed() {
    assert_eq!(
        route_event(AGENT_TOOL_AUTHORIZATION_REQUEST_EVENT, true),
        EventRoute::RequestAuthorization
    );
    assert_eq!(
        route_event(AGENT_TOOL_AUTHORIZATION_RESOLVED_EVENT, false),
        EventRoute::ResolveAuthorization
    );
    assert_eq!(route_event("user_message", true), EventRoute::Prompt);
    assert_eq!(route_event("user_message", false), EventRoute::Thread);
}

#[test]
fn prompts_are_written_as_markdown() {
    assert_eq!(parts_markdown(&vec![]), "");
    assert_eq!(
        parts_markdown(&vec![
            PromptPart::Text("hello".to_string()),
            PromptPart::ResourceLink("file:///a".to_string()),
            PromptPart::TextResource("content".to_string()),
            PromptPart::Other("Image".to_string()),
        ]),
        "hello\nfile:///a\ncontent\nImage"
    );
}

#[test]
fn prompts_of_the_protocol_are_written_as_markdown() {
    let text = schema::ContentBlock::Text(schema::TextContent::new("hello"));
    let link = schema::ContentBlock::ResourceLink(schema::ResourceLink::new("a", "file:///a"));
    let resource = schema::ContentBlock::Resource(schema::EmbeddedResource::new(
        schema::EmbeddedResourceResource::TextResourceContents(schema::TextResourceContents::new(
            "content",
            "file:///b",
        )),
    ));
    let image = schema::ContentBlock::Image(schema::ImageContent::new("data", "image/png"));
    let debug = format!("{image:?}");
    assert!(debug.contains("image/png"));
    assert_eq!(
        prompt_markdown(&vec![text, link, resource, image]),
        format!("hello\nfile:///a\ncontent\n{debug}")
    );
    assert_eq!(prompt_markdown(&vec![]), "");
}

#[test]
fn new_sessions_are_drafts_on_the_server() {
    let now = Timestamp::from_timestamp_millis(1000).expect("valid timestamp");
    let metadata = new_session_metadata("agent".to_string(), now, now, WorktreePaths::default());
    assert!(metadata.is_draft());
    assert!(metadata.server_hosted);
    assert!(!metadata.archived);
    assert_eq!(metadata.agent_id, "agent");
    assert_eq!(metadata.created_at, Some(now));
    assert_eq!(metadata.interacted_at, None);
    let connection = RemoteAgentConnection::new();
    assert_eq!(connection.telemetry_id(), "zed_remote");
    assert!(connection.supports_load_session());
}

#[test]
fn places_are_applied_in_order_whatever_comes() {
    let mut next = 3;
    let mut applied = Vec::new();
    for place in [5, 3, 3, 2, 4, 9, 4, 5, 6, 0, 6, 7] {
        let before = next;
        if classify_sequence(&mut next, place) == SequenceDecision::Apply {
            applied.push(place);
            let mut again = next;
            assert_eq!(
                classify_sequence(&mut again, place),
                SequenceDecision::Duplicate
            );
        }
        assert!(before <= next && next <= before + 1);
    }
    assert_eq!(applied, vec![3, 4, 5, 6, 7]);
    assert_eq!(next, 8);
}

#[test]
fn a_known_message_is_left_out_when_catching_up() {
    let mut connection = RemoteAgentConnection::new();
    connection.begin_session("s");
    connection.begin_prompt("s").expect("session");
    let buffered = |sequence, variant| BufferedAgentSessionEvent {
        sequence,
        event: Some(serialized(variant)),
    };
    let mut replay = SubscriptionReplay::new(
        SubscribeAgentSessionResponse {
            snapshot_sequence: 4,
            gap: false,
            snapshot: vec![],
            events: vec![
                buffered(0, "agent_text"),
                buffered(1, "user_message"),
                buffered(2, "user_message"),
                buffered(3, "stop"),
            ],
        },
        false,
    );
    let mut applied = Vec::new();
    while let ReplayStep::Apply { event, .. } =
        replay.next_step(&mut connection, "s").expect("step")
    {
        applied.push(event.variant);
    }
    assert_eq!(applied, vec!["agent_text", "user_message", "stop"]);
}

#[test]
fn a_snapshot_and_what_followed_it_are_taken_in() {
    let mut connection = RemoteAgentConnection::new();
    connection.begin_session("s");
    let buffered = |sequence, variant| BufferedAgentSessionEvent {
        sequence,
        event: Some(serialized(variant)),
    };
    let mut replay = SubscriptionReplay::new(
        SubscribeAgentSessionResponse {
            snapshot_sequence: 7,
            gap: true,
            snapshot: vec![serialized("shown")],
            events: vec![
                buffered(5, "old"),
                buffered(6, "older"),
                buffered(7, "new"),
                buffered(8, "newer"),
            ],
        },
        false,
    );
    let mut done = Vec::new();
    loop {
        match replay.next_step(&mut connection, "s").expect("step") {
            ReplayStep::ResetEntries => done.push("reset".to_string()),
            ReplayStep::ApplySnapshot(event) => done.push(event.variant),
            ReplayStep::Apply { event, .. } => done.push(event.variant),
            ReplayStep::Done => break,
        }
    }
    assert_eq!(done, vec!["reset", "shown", "new", "newer"]);
    let request = connection.resubscribe("s").expect("session");
    assert_eq!(request.from_sequence, 9);
}
