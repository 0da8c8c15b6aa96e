use mutex_agent::response_log::{
    http_error_body_log_summary, optional_number, response_error_log_summary,
    response_output_item_kind, response_summary_log_summary, response_usage_log_summary,
    stream_event_is_high_volume, stream_event_log_summary, HttpErrorLogBody, HttpErrorLogObject,
};
use mutex_agent::response_stream::{
    authorization_header, body_reading, push_item_events, read_content_text, read_stream_line,
    response_events, responses_endpoint, BodyReading, StreamLine,
};
use mutex_agent::responses::{
    GenericStreamErrorPayload, PartialResponseError, ReasoningSummaryPart, ResponseCompactionItem,
    ResponseError, ResponseFunctionToolCall, ResponseIncompleteDetails, ResponseInputTokensDetails,
    ResponseOutputItem, ResponseOutputMessage, ResponseOutputTokensDetails, ResponseReasoningItem,
    ResponseSummary, ResponseUsage, StreamEvent,
};
use serde_json::Value;

fn json(text: &str) -> Value {
    serde_json::from_str(text).expect("valid JSON")
}

fn message(id: Option<&str>, parts: &[&str]) -> ResponseOutputItem {
    ResponseOutputItem::Message(ResponseOutputMessage {
        id: id.map(str::to_string),
        content: parts.iter().map(|part| json(part)).collect(),
        role: Some("assistant".to_string()),
        status: None,
        phase: None,
    })
}

fn function_call(id: Option<&str>) -> ResponseOutputItem {
    ResponseOutputItem::FunctionCall(ResponseFunctionToolCall {
        id: id.map(str::to_string),
        arguments: "{\"a\":1}".to_string(),
        call_id: Some("call".to_string()),
        name: Some("tool".to_string()),
        status: None,
    })
}

fn reasoning(id: Option<&str>) -> ResponseOutputItem {
    ResponseOutputItem::Reasoning(ResponseReasoningItem {
        id: id.map(str::to_string),
        summary: vec![
            ReasoningSummaryPart::SummaryText {
                text: "first".to_string(),
            },
            ReasoningSummaryPart::Unknown,
            ReasoningSummaryPart::SummaryText {
                text: "second".to_string(),
            },
        ],
        content: vec![],
        encrypted_content: None,
        status: None,
    })
}

fn compaction() -> ResponseOutputItem {
    ResponseOutputItem::Compaction(ResponseCompactionItem {
        id: Some("c".to_string()),
        encrypted_content: "secret".to_string(),
    })
}

fn summary(status: Option<&str>, output: Vec<ResponseOutputItem>) -> ResponseSummary {
    ResponseSummary {
        id: Some("resp".to_string()),
        status: status.map(str::to_string),
        incomplete_details: None,
        error: None,
        usage: None,
        output,
        service_tier: None,
    }
}

#[test]
fn endpoint_and_authorization() {
    assert_eq!(
        responses_endpoint("https://example.com/v1"),
        "https://example.com/v1/responses"
    );
    assert_eq!(authorization_header(" \tkey\n"), "Bearer key");
    assert_eq!(authorization_header("   "), "Bearer ");
}

#[test]
fn bodies_are_read_by_status() {
    assert_eq!(body_reading(200, true), BodyReading::Lines);
    assert_eq!(body_reading(299, false), BodyReading::Summary);
    assert_eq!(body_reading(199, true), BodyReading::Failure);
    assert_eq!(body_reading(300, true), BodyReading::Failure);
    assert_eq!(body_reading(404, false), BodyReading::Failure);
}

#[test]
fn stream_lines() {
    assert_eq!(read_stream_line("data: {}"), StreamLine::Event("{}"));
    assert_eq!(read_stream_line("data:{}"), StreamLine::Event("{}"));
    assert_eq!(read_stream_line("data:  x"), StreamLine::Event(" x"));
    assert_eq!(read_stream_line("data: [DONE]"), StreamLine::Done);
    assert_eq!(read_stream_line("data:[DONE]"), StreamLine::Done);
    assert_eq!(read_stream_line("data: "), StreamLine::Nothing);
    assert_eq!(read_stream_line("data:"), StreamLine::Nothing);
    assert_eq!(read_stream_line(""), StreamLine::Nothing);
    assert_eq!(read_stream_line("event: ping"), StreamLine::Nothing);
    assert_eq!(read_stream_line(" data: {}"), StreamLine::Nothing);
}

#[test]
fn texts_are_found_in_parts() {
    assert_eq!(
        read_content_text(&json("{\"text\":\"hello\"}")),
        Some("hello".to_string())
    );
    assert_eq!(read_content_text(&json("{\"text\":1}")), None);
    assert_eq!(read_content_text(&json("{\"refusal\":\"no\"}")), None);
    assert_eq!(read_content_text(&json("[1]")), None);
}

#[test]
fn items_give_their_deltas() {
    let mut events = Vec::new();
    let found = vec![Some("a".to_string()), None, Some("b".to_string())];
    push_item_events(&mut events, 4, &message(Some("m"), &[]), &found);
    assert_eq!(
        events,
        vec![
            StreamEvent::OutputItemAdded {
                output_index: 4,
                sequence_number: None,
                item: message(Some("m"), &[]),
            },
            StreamEvent::OutputTextDelta {
                item_id: "m".to_string(),
                output_index: 4,
                content_index: None,
                delta: "a".to_string(),
            },
            StreamEvent::OutputTextDelta {
                item_id: "m".to_string(),
                output_index: 4,
                content_index: None,
                delta: "b".to_string(),
            },
            StreamEvent::OutputItemDone {
                output_index: 4,
                sequence_number: None,
                item: message(Some("m"), &[]),
            },
        ]
    );
}

#[test]
fn items_without_an_id_give_no_deltas() {
    for item in [
        message(None, &["{\"text\":\"a\"}"]),
        function_call(None),
        reasoning(None),
        compaction(),
        ResponseOutputItem::Unknown,
    ] {
        let events = response_events(summary(None, vec![item.clone()]));
        assert_eq!(events.len(), 5);
        assert_eq!(
            events[3],
            StreamEvent::OutputItemDone {
                output_index: 0,
                sequence_number: None,
                item,
            }
        );
    }
}

#[test]
fn an_answer_in_one_piece_becomes_events() {
    let output = vec![
        message(
            Some("m"),
            &["{\"text\":\"hello\"}", "{\"image\":1}", "{\"text\":\"world\"}"],
        ),
        function_call(Some("f")),
        reasoning(Some("r")),
        compaction(),
    ];
    let response = summary(Some("completed"), output.clone());
    let events = response_events(response.clone());
    assert_eq!(
        events[0],
        StreamEvent::Created {
            response: response.clone()
        }
    );
    assert_eq!(
        events[1],
        StreamEvent::InProgress {
            response: response.clone()
        }
    );
    assert_eq!(
        events[3],
        StreamEvent::OutputTextDelta {
            item_id: "m".to_string(),
            output_index: 0,
            content_index: None,
            delta: "hello".to_string(),
        }
    );
    assert_eq!(
        events[4],
        StreamEvent::OutputTextDelta {
            item_id: "m".to_string(),
            output_index: 0,
            content_index: None,
            delta: "world".to_string(),
        }
    );
    assert_eq!(
        events[7],
        StreamEvent::FunctionCallArgumentsDone {
            item_id: "f".to_string(),
            output_index: 1,
            arguments: "{\"a\":1}".to_string(),
            sequence_number: None,
        }
    );
    assert_eq!(
        events[10],
        StreamEvent::ReasoningSummaryTextDelta {
            item_id: "r".to_string(),
            output_index: 2,
            delta: "first".to_string(),
        }
    );
    assert_eq!(
        events[11],
        StreamEvent::ReasoningSummaryTextDelta {
            item_id: "r".to_string(),
            output_index: 2,
            delta: "second".to_string(),
        }
    );
    assert_eq!(events.len(), 16);
    assert_eq!(events[15], StreamEvent::Completed { response });

    let done: Vec<ResponseOutputItem> = events
        .into_iter()
        .filter_map(|event| match event {
            StreamEvent::OutputItemDone { item, .. } => Some(item),
            _ => None,
        })
        .collect();
    assert_eq!(done, output);
}

#[test]
fn the_status_chooses_the_last_event() {
    for (status, expected) in [
        (Some("incomplete"), "incomplete"),
        (Some("failed"), "failed"),
        (Some("completed"), "completed"),
        (Some("other"), "completed"),
        (None, "completed"),
    ] {
        let events = response_events(summary(status, vec![]));
        assert_eq!(events.len(), 3);
        let name = match &events[2] {
            StreamEvent::Incomplete { .. } => "incomplete",
            StreamEvent::Failed { .. } => "failed",
            StreamEvent::Completed { .. } => "completed",
            _ => "none",
        };
        assert_eq!(name, expected);
    }
}

#[test]
fn generic_errors_prefer_the_top_level() {
    let nested = PartialResponseError {
        code: Some("nested".to_string()),
        message: Some("inner".to_string()),
        param: Some(json("1")),
    };
    let payload = GenericStreamErrorPayload {
        top_level: PartialResponseError {
            code: None,
            message: Some("outer".to_string()),
            param: None,
        },
        error: Some(nested),
    };
    assert_eq!(
        payload.into_response_error(),
        ResponseError {
            code: Some("nested".to_string()),
            message: "outer".to_string(),
            param: Some(json("1")),
        }
    );
    assert_eq!(
        GenericStreamErrorPayload::default().into_response_error(),
        ResponseError {
            code: None,
            message: String::new(),
            param: None,
        }
    );
}

#[test]
fn log_lines_of_answers() {
    assert_eq!(optional_number(&None), "none");
    assert_eq!(optional_number(&Some(0)), "0");
    assert_eq!(
        optional_number(&Some(18446744073709551615)),
        "18446744073709551615"
    );
    let usage = ResponseUsage {
        input_tokens: Some(12),
        input_tokens_details: ResponseInputTokensDetails { cached_tokens: 3 },
        output_tokens: None,
        output_tokens_details: ResponseOutputTokensDetails {
            reasoning_tokens: 40,
        },
        total_tokens: Some(100),
    };
    assert_eq!(
        response_usage_log_summary(&usage),
        "input_tokens=12 output_tokens=none total_tokens=100 cached_tokens=3 reasoning_tokens=40"
    );
    let error = ResponseError {
        code: Some("bad".to_string()),
        message: "no é".to_string(),
        param: None,
    };
    assert_eq!(
        response_error_log_summary(&error),
        "code=bad message_chars=4 param_present=false"
    );
    let mut response = summary(None, vec![compaction()]);
    assert_eq!(
        response_summary_log_summary(&response),
        "response_id=resp status=none output_count=1 incomplete_reason=none error=none usage=none"
    );
    response.incomplete_details = Some(ResponseIncompleteDetails {
        reason: Some("max_output_tokens".to_string()),
    });
    response.error = Some(error);
    response.usage = Some(usage);
    assert_eq!(
        response_summary_log_summary(&response),
        "response_id=resp status=none output_count=1 incomplete_reason=max_output_tokens \
         error=code=bad message_chars=4 param_present=false usage=input_tokens=12 \
         output_tokens=none total_tokens=100 cached_tokens=3 reasoning_tokens=40"
    );
}

#[test]
fn log_lines_of_events() {
    let item_id = "i".to_string();
    let plain = "response_id=none status=none output_count=0 incomplete_reason=none error=none \
                 usage=none";
    let cases = vec![
        (
            StreamEvent::Created {
                response: ResponseSummary::default(),
            },
            format!("event=response.created {plain}"),
            false,
        ),
        (
            StreamEvent::InProgress {
                response: ResponseSummary::default(),
            },
            format!("event=response.in_progress {plain}"),
            false,
        ),
        (
            StreamEvent::OutputItemAdded {
                output_index: 10,
                sequence_number: Some(7),
                item: ResponseOutputItem::Unknown,
            },
            "event=response.output_item.added output_index=10 sequence_number=7 item_type=unknown"
                .to_string(),
            false,
        ),
        (
            StreamEvent::OutputItemDone {
                output_index: 1,
                sequence_number: None,
                item: compaction(),
            },
            "event=response.output_item.done output_index=1 sequence_number=none \
             item_type=compaction"
                .to_string(),
            false,
        ),
        (
            StreamEvent::ContentPartAdded {
                item_id: item_id.clone(),
                output_index: 2,
                content_index: 3,
                part: Value::Null,
            },
            "event=response.content_part.added output_index=2 content_index=3".to_string(),
            false,
        ),
        (
            StreamEvent::ContentPartDone {
                item_id: item_id.clone(),
                output_index: 2,
                content_index: 3,
                part: Value::Null,
            },
            "event=response.content_part.done output_index=2 content_index=3".to_string(),
            false,
        ),
        (
            StreamEvent::OutputTextDelta {
                item_id: item_id.clone(),
                output_index: 2,
                content_index: None,
                delta: "abc".to_string(),
            },
            "event=response.output_text.delta output_index=2 content_index=none delta_chars=3"
                .to_string(),
            true,
        ),
        (
            StreamEvent::OutputTextDone {
                item_id: item_id.clone(),
                output_index: 2,
                content_index: Some(5),
                text: "äöü".to_string(),
            },
            "event=response.output_text.done output_index=2 content_index=5 text_chars=3"
                .to_string(),
            false,
        ),
        (
            StreamEvent::RefusalDelta {
                item_id: item_id.clone(),
                output_index: 0,
                content_index: 1,
                delta: "no".to_string(),
                sequence_number: Some(2),
            },
            "event=response.refusal.delta output_index=0 content_index=1 sequence_number=2 \
             delta_chars=2"
                .to_string(),
            true,
        ),
        (
            StreamEvent::RefusalDone {
                item_id: item_id.clone(),
                output_index: 0,
                content_index: 1,
                refusal: "no".to_string(),
                sequence_number: None,
            },
            "event=response.refusal.done output_index=0 content_index=1 sequence_number=none \
             refusal_chars=2"
                .to_string(),
            false,
        ),
        (
            StreamEvent::ReasoningSummaryPartAdded {
                item_id: item_id.clone(),
                output_index: 0,
                summary_index: 9,
            },
            "event=response.reasoning_summary_part.added output_index=0 summary_index=9"
                .to_string(),
            false,
        ),
        (
            StreamEvent::ReasoningSummaryTextDelta {
                item_id: item_id.clone(),
                output_index: 0,
                delta: String::new(),
            },
            "event=response.reasoning_summary_text.delta output_index=0 delta_chars=0".to_string(),
            true,
        ),
        (
            StreamEvent::ReasoningSummaryTextDone {
                item_id: item_id.clone(),
                output_index: 0,
                text: "x".to_string(),
            },
            "event=response.reasoning_summary_text.done output_index=0 text_chars=1".to_string(),
            false,
        ),
        (
            StreamEvent::ReasoningSummaryPartDone {
                item_id: item_id.clone(),
                output_index: 0,
                summary_index: 9,
            },
            "event=response.reasoning_summary_part.done output_index=0 summary_index=9"
                .to_string(),
            false,
        ),
        (
            StreamEvent::FunctionCallArgumentsDelta {
                item_id: item_id.clone(),
                output_index: 0,
                delta: "{".to_string(),
                sequence_number: None,
            },
            "event=response.function_call_arguments.delta output_index=0 sequence_number=none \
             delta_chars=1"
                .to_string(),
            true,
        ),
        (
            StreamEvent::FunctionCallArgumentsDone {
                item_id,
                output_index: 0,
                arguments: "{}".to_string(),
                sequence_number: Some(3),
            },
            "event=response.function_call_arguments.done output_index=0 sequence_number=3 \
             arguments_chars=2"
                .to_string(),
            false,
        ),
        (
            StreamEvent::Completed {
                response: ResponseSummary::default(),
            },
            format!("event=response.completed {plain}"),
            false,
        ),
        (
            StreamEvent::Incomplete {
                response: ResponseSummary::default(),
            },
            format!("event=response.incomplete {plain}"),
            false,
        ),
        (
            StreamEvent::Failed {
                response: ResponseSummary::default(),
            },
            format!("event=response.failed {plain}"),
            false,
        ),
        (
            StreamEvent::Error {
                error: ResponseError {
                    code: None,
                    message: "oops".to_string(),
                    param: Some(Value::Null),
                },
            },
            "event=response.error code=none message_chars=4 param_present=true".to_string(),
            false,
        ),
        (
            StreamEvent::GenericError {
                error: GenericStreamErrorPayload::default(),
            },
            "event=error code=none message_chars=0 param_present=false".to_string(),
            false,
        ),
        (StreamEvent::Unknown, "event=unknown".to_string(), false),
    ];
    for (event, line, high_volume) in cases {
        assert_eq!(stream_event_log_summary(&event), line);
        assert_eq!(stream_event_is_high_volume(&event), high_volume);
    }
}

#[test]
fn item_kinds() {
    assert_eq!(response_output_item_kind(&message(None, &[])), "message");
    assert_eq!(response_output_item_kind(&function_call(None)), "function_call");
    assert_eq!(response_output_item_kind(&reasoning(None)), "reasoning");
    assert_eq!(response_output_item_kind(&compaction()), "compaction");
    assert_eq!(
        response_output_item_kind(&ResponseOutputItem::Unknown),
        "unknown"
    );
}

#[test]
fn log_lines_of_failed_requests() {
    let object = HttpErrorLogObject {
        code: None,
        error_type: Some("invalid_request".to_string()),
        message: Some("wrong".to_string()),
        param: Some(json("\"x\"")),
    };
    assert_eq!(
        http_error_body_log_summary(
            "12345",
            &Ok(HttpErrorLogBody {
                error: Some(object)
            })
        ),
        "body_chars=5 error_type=invalid_request code=none message_chars=5 param_present=true"
    );
    let empty = HttpErrorLogObject {
        code: Some("c".to_string()),
        error_type: None,
        message: None,
        param: None,
    };
    assert_eq!(
        http_error_body_log_summary("", &Ok(HttpErrorLogBody { error: Some(empty) })),
        "body_chars=0 error_type=none code=c message_chars=0 param_present=false"
    );
    assert_eq!(
        http_error_body_log_summary("{}", &Ok(HttpErrorLogBody { error: None })),
        "body_chars=2 error=none"
    );
    assert_eq!(
        http_error_body_log_summary("?", &Err("expected value".to_string())),
        "body_chars=1 parse_error=expected value"
    );
}
