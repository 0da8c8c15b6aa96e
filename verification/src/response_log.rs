//! The log lines that stand for an answer: they name ids, states, positions and sizes,
//! and hold nothing of what was written.
use serde_json::Value;
use vstd::prelude::*;
use vstd::string::{StrSliceExecFns, StringExecFns};

use crate::responses::{
    ResponseError, ResponseOutputItem, ResponseSummary, ResponseUsage, StreamEvent,
};
use crate::responses;
use crate::text;

verus! {

/// A text that may be missing, as the log lines write it.
pub open spec fn text_or_none(found: Option<Seq<char>>) -> Seq<char> {
    match found {
        Some(found) => found,
        None => "none"@,
    }
}

/// A truth value, as the log lines write it.
pub open spec fn bool_text(value: bool) -> Seq<char> {
    if value {
        "true"@
    } else {
        "false"@
    }
}

/// A number that may be missing, as the log lines write it.
pub open spec fn optional_number_text(value: Option<u64>) -> Seq<char> {
    text::optional_number_text(
        match value {
            Some(n) => Some(n as nat),
            None => None,
        },
    )
}

/// The name of an item's kind.
pub open spec fn item_kind_text(item: responses::ResponseOutputItemView) -> Seq<char> {
    match item {
        responses::ResponseOutputItemView::Message { .. } => "message"@,
        responses::ResponseOutputItemView::FunctionCall { .. } => "function_call"@,
        responses::ResponseOutputItemView::Reasoning { .. } => "reasoning"@,
        responses::ResponseOutputItemView::Compaction { .. } => "compaction"@,
        responses::ResponseOutputItemView::Unknown => "unknown"@,
    }
}

/// An error without its message, of which only the length is told.
pub open spec fn error_text(error: responses::ResponseErrorView) -> Seq<char> {
    "code="@ + text_or_none(error.code) + " message_chars="@ + text::decimal_text(
        error.message.len(),
    ) + " param_present="@ + bool_text(error.param is Some)
}

/// The token counts of an answer.
pub open spec fn usage_text(usage: ResponseUsage) -> Seq<char> {
    "input_tokens="@ + optional_number_text(usage.input_tokens) + " output_tokens="@
        + optional_number_text(usage.output_tokens) + " total_tokens="@ + optional_number_text(
        usage.total_tokens,
    ) + " cached_tokens="@ + text::decimal_text(usage.input_tokens_details.cached_tokens as nat)
        + " reasoning_tokens="@ + text::decimal_text(
        usage.output_tokens_details.reasoning_tokens as nat,
    )
}

/// An answer without its output, of which only the length is told.
pub open spec fn summary_text(response: responses::ResponseSummaryView) -> Seq<char> {
    "response_id="@ + text_or_none(response.id) + " status="@ + text_or_none(response.status)
        + " output_count="@ + text::decimal_text(response.output.len()) + " incomplete_reason="@
        + text_or_none(
        match response.incomplete_details {
            Some(reason) => reason,
            None => None,
        },
    ) + " error="@ + (match response.error {
        Some(error) => error_text(error),
        None => "none"@,
    }) + " usage="@ + (match response.usage {
        Some(usage) => usage_text(usage),
        None => "none"@,
    })
}

/// The log line of an event.
pub open spec fn event_text(event: responses::StreamEventView) -> Seq<char> {
    match event {
        responses::StreamEventView::Created { response } => "event=response.created "@
            + summary_text(response),
        responses::StreamEventView::InProgress { response } => "event=response.in_progress "@
            + summary_text(response),
        responses::StreamEventView::OutputItemAdded { output_index, sequence_number, item } => "event=response.output_item.added output_index="@
            + text::decimal_text(output_index)
            + " sequence_number="@
            + optional_number_text(sequence_number)
            + " item_type="@
            + item_kind_text(item),
        responses::StreamEventView::OutputItemDone { output_index, sequence_number, item } => "event=response.output_item.done output_index="@
            + text::decimal_text(output_index)
            + " sequence_number="@
            + optional_number_text(sequence_number)
            + " item_type="@
            + item_kind_text(item),
        responses::StreamEventView::ContentPartAdded { output_index, content_index, .. } => "event=response.content_part.added output_index="@
            + text::decimal_text(output_index)
            + " content_index="@
            + text::decimal_text(content_index),
        responses::StreamEventView::ContentPartDone { output_index, content_index, .. } => "event=response.content_part.done output_index="@
            + text::decimal_text(output_index)
            + " content_index="@
            + text::decimal_text(content_index),
        responses::StreamEventView::OutputTextDelta { output_index, content_index, delta, .. } => "event=response.output_text.delta output_index="@
            + text::decimal_text(output_index)
            + " content_index="@
            + text::optional_number_text(content_index)
            + " delta_chars="@
            + text::decimal_text(delta.len()),
        responses::StreamEventView::OutputTextDone { output_index, content_index, text: done, .. } => "event=response.output_text.done output_index="@
            + text::decimal_text(output_index)
            + " content_index="@
            + text::optional_number_text(content_index)
            + " text_chars="@
            + text::decimal_text(done.len()),
        responses::StreamEventView::RefusalDelta { output_index, content_index, sequence_number, delta, .. } => "event=response.refusal.delta output_index="@
            + text::decimal_text(output_index)
            + " content_index="@
            + text::decimal_text(content_index)
            + " sequence_number="@
            + optional_number_text(sequence_number)
            + " delta_chars="@
            + text::decimal_text(delta.len()),
        responses::StreamEventView::RefusalDone { output_index, content_index, sequence_number, refusal, .. } => "event=response.refusal.done output_index="@
            + text::decimal_text(output_index)
            + " content_index="@
            + text::decimal_text(content_index)
            + " sequence_number="@
            + optional_number_text(sequence_number)
            + " refusal_chars="@
            + text::decimal_text(refusal.len()),
        responses::StreamEventView::ReasoningSummaryPartAdded { output_index, summary_index, .. } => "event=response.reasoning_summary_part.added output_index="@
            + text::decimal_text(output_index)
            + " summary_index="@
            + text::decimal_text(summary_index),
        responses::StreamEventView::ReasoningSummaryTextDelta { output_index, delta, .. } => "event=response.reasoning_summary_text.delta output_index="@
            + text::decimal_text(output_index)
            + " delta_chars="@
            + text::decimal_text(delta.len()),
        responses::StreamEventView::ReasoningSummaryTextDone { output_index, text: done, .. } => "event=response.reasoning_summary_text.done output_index="@
            + text::decimal_text(output_index)
            + " text_chars="@
            + text::decimal_text(done.len()),
        responses::StreamEventView::ReasoningSummaryPartDone { output_index, summary_index, .. } => "event=response.reasoning_summary_part.done output_index="@
            + text::decimal_text(output_index)
            + " summary_index="@
            + text::decimal_text(summary_index),
        responses::StreamEventView::FunctionCallArgumentsDelta { output_index, sequence_number, delta, .. } => "event=response.function_call_arguments.delta output_index="@
            + text::decimal_text(output_index)
            + " sequence_number="@
            + optional_number_text(sequence_number)
            + " delta_chars="@
            + text::decimal_text(delta.len()),
        responses::StreamEventView::FunctionCallArgumentsDone { output_index, sequence_number, arguments, .. } => "event=response.function_call_arguments.done output_index="@
            + text::decimal_text(output_index)
            + " sequence_number="@
            + optional_number_text(sequence_number)
            + " arguments_chars="@
            + text::decimal_text(arguments.len()),
        responses::StreamEventView::Completed { response } => "event=response.completed "@
            + summary_text(response),
        responses::StreamEventView::Incomplete { response } => "event=response.incomplete "@
            + summary_text(response),
        responses::StreamEventView::Failed { response } => "event=response.failed "@
            + summary_text(response),
        responses::StreamEventView::Error { error } => "event=response.error "@
            + error_text(error),
        responses::StreamEventView::GenericError { error } => "event=error "@
            + error_text(error.response_error()),
        responses::StreamEventView::Unknown => "event=unknown"@,
    }
}

/// Whether an event is one of the small pieces that arrive in large numbers.
pub open spec fn is_delta(event: responses::StreamEventView) -> bool {
    event is OutputTextDelta || event is RefusalDelta || event is ReasoningSummaryTextDelta
        || event is FunctionCallArgumentsDelta
}

fn text_or<'a>(found: &'a Option<String>) -> (text: &'a str)
    ensures
        text@ == text_or_none(text::optional_text(*found)),
{
    match found {
        Some(found) => found.as_str(),
        None => "none",
    }
}

fn bool_name(value: bool) -> (name: &'static str)
    ensures
        name@ == bool_text(value),
{
    if value {
        "true"
    } else {
        "false"
    }
}

fn char_count(counted: &str) -> (count: String)
    ensures
        count@ == text::decimal_text(counted@.len()),
{
    text::decimal(counted.unicode_len() as u64)
}

fn widened(index: &Option<usize>) -> (wide: Option<u64>)
    ensures
        wide is Some <==> index is Some,
        wide matches Some(n) ==> n == index->0,
{
    match index {
        Some(i) => Some(*i as u64),
        None => None,
    }
}

/// Writes a number that may be missing.
pub fn optional_number(value: &Option<u64>) -> (text: String)
    ensures
        text@ == optional_number_text(*value),
{
    match value {
        Some(n) => text::decimal(*n),
        None => "none".to_string(),
    }
}

/// Names the kind of an output item.
pub fn response_output_item_kind(item: &ResponseOutputItem) -> (kind: &'static str)
    ensures
        kind@ == item_kind_text(item@),
{
    match item {
        ResponseOutputItem::Message(_) => "message",
        ResponseOutputItem::FunctionCall(_) => "function_call",
        ResponseOutputItem::Reasoning(_) => "reasoning",
        ResponseOutputItem::Compaction(_) => "compaction",
        ResponseOutputItem::Unknown => "unknown",
    }
}

/// Writes an error without its message.
pub fn response_error_log_summary(error: &ResponseError) -> (line: String)
    ensures
        line@ == error_text(error@),
{
    let mut line = "code=".to_string();
    line.append(text_or(&error.code));
    line.append(" message_chars=");
    line.append(char_count(&error.message).as_str());
    line.append(" param_present=");
    line.append(bool_name(error.param.is_some()));
    line
}

/// Writes the token counts of an answer.
pub fn response_usage_log_summary(usage: &ResponseUsage) -> (line: String)
    ensures
        line@ == usage_text(*usage),
{
    let mut line = "input_tokens=".to_string();
    line.append(optional_number(&usage.input_tokens).as_str());
    line.append(" output_tokens=");
    line.append(optional_number(&usage.output_tokens).as_str());
    line.append(" total_tokens=");
    line.append(optional_number(&usage.total_tokens).as_str());
    line.append(" cached_tokens=");
    line.append(text::decimal(usage.input_tokens_details.cached_tokens).as_str());
    line.append(" reasoning_tokens=");
    line.append(text::decimal(usage.output_tokens_details.reasoning_tokens).as_str());
    line
}

/// Writes an answer without its output.
pub fn response_summary_log_summary(response: &ResponseSummary) -> (line: String)
    ensures
        line@ == summary_text(response@),
{
    let mut line = "response_id=".to_string();
    line.append(text_or(&response.id));
    line.append(" status=");
    line.append(text_or(&response.status));
    line.append(" output_count=");
    line.append(text::decimal(response.output.len() as u64).as_str());
    line.append(" incomplete_reason=");
    let incomplete_reason = match &response.incomplete_details {
        Some(details) => text_or(&details.reason),
        None => "none",
    };
    line.append(incomplete_reason);
    line.append(" error=");
    let error = match &response.error {
        Some(error) => response_error_log_summary(error),
        None => "none".to_string(),
    };
    line.append(error.as_str());
    line.append(" usage=");
    let usage = match &response.usage {
        Some(usage) => response_usage_log_summary(usage),
        None => "none".to_string(),
    };
    line.append(usage.as_str());
    line
}

/// Writes the log line of an event.
pub fn stream_event_log_summary(event: &StreamEvent) -> (line: String)
    ensures
        line@ == event_text(event@),
{
    match event {
        StreamEvent::Created { response } => {
            let mut line = "event=response.created ".to_string();
            line.append(response_summary_log_summary(response).as_str());
            line
        },
        StreamEvent::InProgress { response } => {
            let mut line = "event=response.in_progress ".to_string();
            line.append(response_summary_log_summary(response).as_str());
            line
        },
        StreamEvent::OutputItemAdded { output_index, sequence_number, item } => {
            let mut line = "event=response.output_item.added output_index=".to_string();
            line.append(text::decimal(*output_index as u64).as_str());
            line.append(" sequence_number=");
            line.append(optional_number(sequence_number).as_str());
            line.append(" item_type=");
            line.append(response_output_item_kind(item));
            line
        },
        StreamEvent::OutputItemDone { output_index, sequence_number, item } => {
            let mut line = "event=response.output_item.done output_index=".to_string();
            line.append(text::decimal(*output_index as u64).as_str());
            line.append(" sequence_number=");
            line.append(optional_number(sequence_number).as_str());
            line.append(" item_type=");
            line.append(response_output_item_kind(item));
            line
        },
        StreamEvent::ContentPartAdded { output_index, content_index, .. } => {
            let mut line = "event=response.content_part.added output_index=".to_string();
            line.append(text::decimal(*output_index as u64).as_str());
            line.append(" content_index=");
            line.append(text::decimal(*content_index as u64).as_str());
            line
        },
        StreamEvent::ContentPartDone { output_index, content_index, .. } => {
            let mut line = "event=response.content_part.done output_index=".to_string();
            line.append(text::decimal(*output_index as u64).as_str());
            line.append(" content_index=");
            line.append(text::decimal(*content_index as u64).as_str());
            line
        },
        StreamEvent::OutputTextDelta { output_index, content_index, delta, .. } => {
            let mut line = "event=response.output_text.delta output_index=".to_string();
            line.append(text::decimal(*output_index as u64).as_str());
            line.append(" content_index=");
            line.append(optional_number(&widened(content_index)).as_str());
            line.append(" delta_chars=");
            line.append(char_count(delta).as_str());
            line
        },
        StreamEvent::OutputTextDone { output_index, content_index, text: done, .. } => {
            let mut line = "event=response.output_text.done output_index=".to_string();
            line.append(text::decimal(*output_index as u64).as_str());
            line.append(" content_index=");
            line.append(optional_number(&widened(content_index)).as_str());
            line.append(" text_chars=");
            line.append(char_count(done).as_str());
            line
        },
        StreamEvent::RefusalDelta { output_index, content_index, sequence_number, delta, .. } => {
            let mut line = "event=response.refusal.delta output_index=".to_string();
            line.append(text::decimal(*output_index as u64).as_str());
            line.append(" content_index=");
            line.append(text::decimal(*content_index as u64).as_str());
            line.append(" sequence_number=");
            line.append(optional_number(sequence_number).as_str());
            line.append(" delta_chars=");
            line.append(char_count(delta).as_str());
            line
        },
        StreamEvent::RefusalDone { output_index, content_index, sequence_number, refusal, .. } => {
            let mut line = "event=response.refusal.done output_index=".to_string();
            line.append(text::decimal(*output_index as u64).as_str());
            line.append(" content_index=");
            line.append(text::decimal(*content_index as u64).as_str());
            line.append(" sequence_number=");
            line.append(optional_number(sequence_number).as_str());
            line.append(" refusal_chars=");
            line.append(char_count(refusal).as_str());
            line
        },
        StreamEvent::ReasoningSummaryPartAdded { output_index, summary_index, .. } => {
            let mut line = "event=response.reasoning_summary_part.added output_index=".to_string();
            line.append(text::decimal(*output_index as u64).as_str());
            line.append(" summary_index=");
            line.append(text::decimal(*summary_index as u64).as_str());
            line
        },
        StreamEvent::ReasoningSummaryTextDelta { output_index, delta, .. } => {
            let mut line = "event=response.reasoning_summary_text.delta output_index=".to_string();
            line.append(text::decimal(*output_index as u64).as_str());
            line.append(" delta_chars=");
            line.append(char_count(delta).as_str());
            line
        },
        StreamEvent::ReasoningSummaryTextDone { output_index, text: done, .. } => {
            let mut line = "event=response.reasoning_summary_text.done output_index=".to_string();
            line.append(text::decimal(*output_index as u64).as_str());
            line.append(" text_chars=");
            line.append(char_count(done).as_str());
            line
        },
        StreamEvent::ReasoningSummaryPartDone { output_index, summary_index, .. } => {
            let mut line = "event=response.reasoning_summary_part.done output_index=".to_string();
            line.append(text::decimal(*output_index as u64).as_str());
            line.append(" summary_index=");
            line.append(text::decimal(*summary_index as u64).as_str());
            line
        },
        StreamEvent::FunctionCallArgumentsDelta { output_index, sequence_number, delta, .. } => {
            let mut line = "event=response.function_call_arguments.delta output_index=".to_string();
            line.append(text::decimal(*output_index as u64).as_str());
            line.append(" sequence_number=");
            line.append(optional_number(sequence_number).as_str());
            line.append(" delta_chars=");
            line.append(char_count(delta).as_str());
            line
        },
        StreamEvent::FunctionCallArgumentsDone { output_index, sequence_number, arguments, .. } => {
            let mut line = "event=response.function_call_arguments.done output_index=".to_string();
            line.append(text::decimal(*output_index as u64).as_str());
            line.append(" sequence_number=");
            line.append(optional_number(sequence_number).as_str());
            line.append(" arguments_chars=");
            line.append(char_count(arguments).as_str());
            line
        },
        StreamEvent::Completed { response } => {
            let mut line = "event=response.completed ".to_string();
            line.append(response_summary_log_summary(response).as_str());
            line
        },
        StreamEvent::Incomplete { response } => {
            let mut line = "event=response.incomplete ".to_string();
            line.append(response_summary_log_summary(response).as_str());
            line
        },
        StreamEvent::Failed { response } => {
            let mut line = "event=response.failed ".to_string();
            line.append(response_summary_log_summary(response).as_str());
            line
        },
        StreamEvent::Error { error } => {
            let mut line = "event=response.error ".to_string();
            line.append(response_error_log_summary(error).as_str());
            line
        },
        StreamEvent::GenericError { error } => {
            let mut line = "event=error ".to_string();
            let error = error.clone().into_response_error();
            line.append(response_error_log_summary(&error).as_str());
            line
        },
        StreamEvent::Unknown => "event=unknown".to_string(),
    }
}

/// Tells the events that arrive in large numbers from the others.
pub fn stream_event_is_high_volume(event: &StreamEvent) -> (high: bool)
    ensures
        high == is_delta(event@),
{
    match event {
        StreamEvent::OutputTextDelta { .. } => true,
        StreamEvent::RefusalDelta { .. } => true,
        StreamEvent::ReasoningSummaryTextDelta { .. } => true,
        StreamEvent::FunctionCallArgumentsDelta { .. } => true,
        _ => false,
    }
}

/// The words of an error's message do not show in the log, only how many characters they
/// have.
pub proof fn messages_are_not_logged(
    a: responses::ResponseErrorView,
    b: responses::ResponseErrorView,
)
    requires
        a.code == b.code,
        a.message.len() == b.message.len(),
        a.param is Some == b.param is Some,
    ensures
        error_text(a) == error_text(b),
{
}

/// The output of an answer does not show in the log, only how many items it has.
pub proof fn output_is_not_logged(
    a: responses::ResponseSummaryView,
    b: responses::ResponseSummaryView,
)
    requires
        a.output.len() == b.output.len(),
        b == (responses::ResponseSummaryView {
            output: b.output,
            service_tier: b.service_tier,
            ..a
        }),
    ensures
        summary_text(a) == summary_text(b),
{
}

/// The body of a failed request, as far as its log line tells of it.
#[derive(Debug, Clone, PartialEq, Eq)]
pub struct HttpErrorLogBody {
    pub error: Option<HttpErrorLogObject>,
}

#[derive(Debug, Clone, PartialEq, Eq)]
pub struct HttpErrorLogObject {
    pub code: Option<String>,
    pub error_type: Option<String>,
    pub message: Option<String>,
    pub param: Option<Value>,
}

/// The log line of a failed request's body: its length, and what was read from it or
/// why nothing could be read.
pub open spec fn error_body_text(body: Seq<char>, read: Result<HttpErrorLogBody, String>) -> Seq<
    char,
> {
    "body_chars="@ + text::decimal_text(body.len()) + (match read {
        Ok(HttpErrorLogBody { error: Some(error) }) => " error_type="@ + text_or_none(
            text::optional_text(error.error_type),
        ) + " code="@ + text_or_none(text::optional_text(error.code)) + " message_chars="@
            + text::decimal_text(
            match error.message {
                Some(message) => message@.len(),
                None => 0,
            },
        ) + " param_present="@ + bool_text(error.param is Some),
        Ok(HttpErrorLogBody { error: None }) => " error=none"@,
        Err(error) => " parse_error="@ + error@,
    })
}

/// Writes the log line of a failed request's body. What was read from the body, or the
/// message of the error that reading it gave, is handed in.
pub fn http_error_body_log_summary(body: &str, read: &Result<HttpErrorLogBody, String>) -> (line:
    String)
    ensures
        line@ == error_body_text(body@, *read),
{
    let found = match read {
        Ok(read) => match &read.error {
            Some(error) => {
                let mut found = " error_type=".to_string();
                found.append(text_or(&error.error_type));
                found.append(" code=");
                found.append(text_or(&error.code));
                found.append(" message_chars=");
                let count = match &error.message {
                    Some(message) => char_count(message),
                    None => text::decimal(0),
                };
                found.append(count.as_str());
                found.append(" param_present=");
                found.append(bool_name(error.param.is_some()));
                found
            },
            None => " error=none".to_string(),
        },
        Err(error) => {
            let mut found = " parse_error=".to_string();
            found.append(error.as_str());
            found
        },
    };
    let mut line = "body_chars=".to_string();
    line.append(char_count(body).as_str());
    line.append(found.as_str());
    line
}

/// Whether a line holds a text at a place.
pub open spec fn stands_at(line: Seq<char>, part: Seq<char>, place: int) -> bool {
    0 <= place <= line.len() - part.len() && line.subrange(place, place + part.len()) == part
}

/// Whether a line holds a text somewhere.
pub open spec fn holds_text(line: Seq<char>, part: Seq<char>) -> bool {
    exists|place: int| stands_at(line, part, place)
}

/// The lines about events that tell of an answer or an error name the event and tell of the
/// whole answer or the whole error.
pub proof fn answers_and_errors_are_logged(event: responses::StreamEventView)
    ensures
        event matches responses::StreamEventView::Created { response } ==> event_text(event)
            == "event=response.created "@ + summary_text(response),
        event matches responses::StreamEventView::InProgress { response } ==> event_text(event)
            == "event=response.in_progress "@ + summary_text(response),
        event matches responses::StreamEventView::Completed { response } ==> event_text(event)
            == "event=response.completed "@ + summary_text(response),
        event matches responses::StreamEventView::Incomplete { response } ==> event_text(event)
            == "event=response.incomplete "@ + summary_text(response),
        event matches responses::StreamEventView::Failed { response } ==> event_text(event)
            == "event=response.failed "@ + summary_text(response),
        event matches responses::StreamEventView::Error { error } ==> event_text(event)
            == "event=response.error "@ + error_text(error),
        event matches responses::StreamEventView::GenericError { error } ==> event_text(event)
            == "event=error "@ + error_text(error.response_error()),
        event is Unknown ==> event_text(event) == "event=unknown"@,
{
}

/// The lines about items and their parts name the event, and tell the places and the kind.
pub proof fn items_and_parts_are_logged(event: responses::StreamEventView)
    ensures
        event matches responses::StreamEventView::OutputItemAdded {
            output_index,
            sequence_number,
            item,
        } ==> {
            let line = event_text(event);
            let name = "event=response.output_item.added output_index="@;
            &&& stands_at(line, name, 0)
            &&& stands_at(line, text::decimal_text(output_index), name.len() as int)
            &&& holds_text(line, " sequence_number="@ + optional_number_text(sequence_number))
            &&& holds_text(line, " item_type="@ + item_kind_text(item))
        },
        event matches responses::StreamEventView::OutputItemDone {
            output_index,
            sequence_number,
            item,
        } ==> {
            let line = event_text(event);
            let name = "event=response.output_item.done output_index="@;
            &&& stands_at(line, name, 0)
            &&& stands_at(line, text::decimal_text(output_index), name.len() as int)
            &&& holds_text(line, " sequence_number="@ + optional_number_text(sequence_number))
            &&& holds_text(line, " item_type="@ + item_kind_text(item))
        },
        event matches responses::StreamEventView::ContentPartAdded {
            output_index,
            content_index,
            ..
        } ==> {
            let line = event_text(event);
            let name = "event=response.content_part.added output_index="@;
            &&& stands_at(line, name, 0)
            &&& stands_at(line, text::decimal_text(output_index), name.len() as int)
            &&& holds_text(line, " content_index="@ + text::decimal_text(content_index))
        },
        event matches responses::StreamEventView::ContentPartDone {
            output_index,
            content_index,
            ..
        } ==> {
            let line = event_text(event);
            let name = "event=response.content_part.done output_index="@;
            &&& stands_at(line, name, 0)
            &&& stands_at(line, text::decimal_text(output_index), name.len() as int)
            &&& holds_text(line, " content_index="@ + text::decimal_text(content_index))
        },
        event matches responses::StreamEventView::ReasoningSummaryPartAdded {
            output_index,
            summary_index,
            ..
        } ==> {
            let line = event_text(event);
            let name = "event=response.reasoning_summary_part.added output_index="@;
            &&& stands_at(line, name, 0)
            &&& stands_at(line, text::decimal_text(output_index), name.len() as int)
            &&& holds_text(line, " summary_index="@ + text::decimal_text(summary_index))
        },
        event matches responses::StreamEventView::ReasoningSummaryPartDone {
            output_index,
            summary_index,
            ..
        } ==> {
            let line = event_text(event);
            let name = "event=response.reasoning_summary_part.done output_index="@;
            &&& stands_at(line, name, 0)
            &&& stands_at(line, text::decimal_text(output_index), name.len() as int)
            &&& holds_text(line, " summary_index="@ + text::decimal_text(summary_index))
        },
{
    if let responses::StreamEventView::OutputItemAdded {
        output_index,
        sequence_number,
        item,
    } = event {
        let line = event_text(event);
        let name = "event=response.output_item.added output_index="@;
        let place = text::decimal_text(output_index);
        assert(line.subrange(0, name.len() as int) =~= name);
        assert(line.subrange(name.len() as int, (name + place).len() as int) =~= place);
        let part1 = " sequence_number="@ + optional_number_text(sequence_number);
        let at1: int = (name + place).len() as int;
        assert(line.subrange(at1, at1 + part1.len()) =~= part1);
        assert(stands_at(line, part1, at1));
        let part2 = " item_type="@ + item_kind_text(item);
        let at2: int = at1 + part1.len();
        assert(line.subrange(at2, at2 + part2.len()) =~= part2);
        assert(stands_at(line, part2, at2));
    }
    if let responses::StreamEventView::OutputItemDone {
        output_index,
        sequence_number,
        item,
    } = event {
        let line = event_text(event);
        let name = "event=response.output_item.done output_index="@;
        let place = text::decimal_text(output_index);
        assert(line.subrange(0, name.len() as int) =~= name);
        assert(line.subrange(name.len() as int, (name + place).len() as int) =~= place);
        let part1 = " sequence_number="@ + optional_number_text(sequence_number);
        let at1: int = (name + place).len() as int;
        assert(line.subrange(at1, at1 + part1.len()) =~= part1);
        assert(stands_at(line, part1, at1));
        let part2 = " item_type="@ + item_kind_text(item);
        let at2: int = at1 + part1.len();
        assert(line.subrange(at2, at2 + part2.len()) =~= part2);
        assert(stands_at(line, part2, at2));
    }
    if let responses::StreamEventView::ContentPartAdded {
        output_index,
        content_index,
        ..
    } = event {
        let line = event_text(event);
        let name = "event=response.content_part.added output_index="@;
        let place = text::decimal_text(output_index);
        assert(line.subrange(0, name.len() as int) =~= name);
        assert(line.subrange(name.len() as int, (name + place).len() as int) =~= place);
        let part1 = " content_index="@ + text::decimal_text(content_index);
        let at1: int = (name + place).len() as int;
        assert(line.subrange(at1, at1 + part1.len()) =~= part1);
        assert(stands_at(line, part1, at1));
    }
    if let responses::StreamEventView::ContentPartDone { output_index, content_index, .. } = event {
        let line = event_text(event);
        let name = "event=response.content_part.done output_index="@;
        let place = text::decimal_text(output_index);
        assert(line.subrange(0, name.len() as int) =~= name);
        assert(line.subrange(name.len() as int, (name + place).len() as int) =~= place);
        let part1 = " content_index="@ + text::decimal_text(content_index);
        let at1: int = (name + place).len() as int;
        assert(line.subrange(at1, at1 + part1.len()) =~= part1);
        assert(stands_at(line, part1, at1));
    }
    if let responses::StreamEventView::ReasoningSummaryPartAdded {
        output_index,
        summary_index,
        ..
    } = event {
        let line = event_text(event);
        let name = "event=response.reasoning_summary_part.added output_index="@;
        let place = text::decimal_text(output_index);
        assert(line.subrange(0, name.len() as int) =~= name);
        assert(line.subrange(name.len() as int, (name + place).len() as int) =~= place);
        let part1 = " summary_index="@ + text::decimal_text(summary_index);
        let at1: int = (name + place).len() as int;
        assert(line.subrange(at1, at1 + part1.len()) =~= part1);
        assert(stands_at(line, part1, at1));
    }
    if let responses::StreamEventView::ReasoningSummaryPartDone {
        output_index,
        summary_index,
        ..
    } = event {
        let line = event_text(event);
        let name = "event=response.reasoning_summary_part.done output_index="@;
        let place = text::decimal_text(output_index);
        assert(line.subrange(0, name.len() as int) =~= name);
        assert(line.subrange(name.len() as int, (name + place).len() as int) =~= place);
        let part1 = " summary_index="@ + text::decimal_text(summary_index);
        let at1: int = (name + place).len() as int;
        assert(line.subrange(at1, at1 + part1.len()) =~= part1);
        assert(stands_at(line, part1, at1));
    }
}

/// The lines about the text of an answer name the event, and tell the places and how many
/// characters the text has.
pub proof fn text_is_counted_in_the_log(event: responses::StreamEventView)
    ensures
        event matches responses::StreamEventView::OutputTextDelta {
            output_index,
            content_index,
            delta,
            ..
        } ==> {
            let line = event_text(event);
            let name = "event=response.output_text.delta output_index="@;
            &&& stands_at(line, name, 0)
            &&& stands_at(line, text::decimal_text(output_index), name.len() as int)
            &&& holds_text(line, " content_index="@ + text::optional_number_text(content_index))
            &&& holds_text(line, " delta_chars="@ + text::decimal_text(delta.len()))
        },
        event matches responses::StreamEventView::OutputTextDone {
            output_index,
            content_index,
            text: done,
            ..
        } ==> {
            let line = event_text(event);
            let name = "event=response.output_text.done output_index="@;
            &&& stands_at(line, name, 0)
            &&& stands_at(line, text::decimal_text(output_index), name.len() as int)
            &&& holds_text(line, " content_index="@ + text::optional_number_text(content_index))
            &&& holds_text(line, " text_chars="@ + text::decimal_text(done.len()))
        },
        event matches responses::StreamEventView::RefusalDelta {
            output_index,
            content_index,
            sequence_number,
            delta,
            ..
        } ==> {
            let line = event_text(event);
            let name = "event=response.refusal.delta output_index="@;
            &&& stands_at(line, name, 0)
            &&& stands_at(line, text::decimal_text(output_index), name.len() as int)
            &&& holds_text(line, " content_index="@ + text::decimal_text(content_index))
            &&& holds_text(line, " sequence_number="@ + optional_number_text(sequence_number))
            &&& holds_text(line, " delta_chars="@ + text::decimal_text(delta.len()))
        },
        event matches responses::StreamEventView::RefusalDone {
            output_index,
            content_index,
            sequence_number,
            refusal,
            ..
        } ==> {
            let line = event_text(event);
            let name = "event=response.refusal.done output_index="@;
            &&& stands_at(line, name, 0)
            &&& stands_at(line, text::decimal_text(output_index), name.len() as int)
            &&& holds_text(line, " content_index="@ + text::decimal_text(content_index))
            &&& holds_text(line, " sequence_number="@ + optional_number_text(sequence_number))
            &&& holds_text(line, " refusal_chars="@ + text::decimal_text(refusal.len()))
        },
{
    if let responses::StreamEventView::OutputTextDelta {
        output_index,
        content_index,
        delta,
        ..
    } = event {
        let line = event_text(event);
        let name = "event=response.output_text.delta output_index="@;
        let place = text::decimal_text(output_index);
        assert(line.subrange(0, name.len() as int) =~= name);
        assert(line.subrange(name.len() as int, (name + place).len() as int) =~= place);
        let part1 = " content_index="@ + text::optional_number_text(content_index);
        let at1: int = (name + place).len() as int;
        assert(line.subrange(at1, at1 + part1.len()) =~= part1);
        assert(stands_at(line, part1, at1));
        let part2 = " delta_chars="@ + text::decimal_text(delta.len());
        let at2: int = at1 + part1.len();
        assert(line.subrange(at2, at2 + part2.len()) =~= part2);
        assert(stands_at(line, part2, at2));
    }
    if let responses::StreamEventView::OutputTextDone {
        output_index,
        content_index,
        text: done,
        ..
    } = event {
        let line = event_text(event);
        let name = "event=response.output_text.done output_index="@;
        let place = text::decimal_text(output_index);
        assert(line.subrange(0, name.len() as int) =~= name);
        assert(line.subrange(name.len() as int, (name + place).len() as int) =~= place);
        let part1 = " content_index="@ + text::optional_number_text(content_index);
        let at1: int = (name + place).len() as int;
        assert(line.subrange(at1, at1 + part1.len()) =~= part1);
        assert(stands_at(line, part1, at1));
        let part2 = " text_chars="@ + text::decimal_text(done.len());
        let at2: int = at1 + part1.len();
        assert(line.subrange(at2, at2 + part2.len()) =~= part2);
        assert(stands_at(line, part2, at2));
    }
    if let responses::StreamEventView::RefusalDelta {
        output_index,
        content_index,
        sequence_number,
        delta,
        ..
    } = event {
        let line = event_text(event);
        let name = "event=response.refusal.delta output_index="@;
        let place = text::decimal_text(output_index);
        assert(line.subrange(0, name.len() as int) =~= name);
        assert(line.subrange(name.len() as int, (name + place).len() as int) =~= place);
        let part1 = " content_index="@ + text::decimal_text(content_index);
        let at1: int = (name + place).len() as int;
        assert(line.subrange(at1, at1 + part1.len()) =~= part1);
        assert(stands_at(line, part1, at1));
        let part2 = " sequence_number="@ + optional_number_text(sequence_number);
        let at2: int = at1 + part1.len();
        assert(line.subrange(at2, at2 + part2.len()) =~= part2);
        assert(stands_at(line, part2, at2));
        let part3 = " delta_chars="@ + text::decimal_text(delta.len());
        let at3: int = at2 + part2.len();
        assert(line.subrange(at3, at3 + part3.len()) =~= part3);
        assert(stands_at(line, part3, at3));
    }
    if let responses::StreamEventView::RefusalDone {
        output_index,
        content_index,
        sequence_number,
        refusal,
        ..
    } = event {
        let line = event_text(event);
        let name = "event=response.refusal.done output_index="@;
        let place = text::decimal_text(output_index);
        assert(line.subrange(0, name.len() as int) =~= name);
        assert(line.subrange(name.len() as int, (name + place).len() as int) =~= place);
        let part1 = " content_index="@ + text::decimal_text(content_index);
        let at1: int = (name + place).len() as int;
        assert(line.subrange(at1, at1 + part1.len()) =~= part1);
        assert(stands_at(line, part1, at1));
        let part2 = " sequence_number="@ + optional_number_text(sequence_number);
        let at2: int = at1 + part1.len();
        assert(line.subrange(at2, at2 + part2.len()) =~= part2);
        assert(stands_at(line, part2, at2));
        let part3 = " refusal_chars="@ + text::decimal_text(refusal.len());
        let at3: int = at2 + part2.len();
        assert(line.subrange(at3, at3 + part3.len()) =~= part3);
        assert(stands_at(line, part3, at3));
    }
}

/// The lines about reasoning and about the arguments of calls name the event, and tell the
/// places and how many characters there are.
pub proof fn reasoning_and_calls_are_counted_in_the_log(event: responses::StreamEventView)
    ensures
        event matches responses::StreamEventView::ReasoningSummaryTextDelta {
            output_index,
            delta,
            ..
        } ==> {
            let line = event_text(event);
            let name = "event=response.reasoning_summary_text.delta output_index="@;
            &&& stands_at(line, name, 0)
            &&& stands_at(line, text::decimal_text(output_index), name.len() as int)
            &&& holds_text(line, " delta_chars="@ + text::decimal_text(delta.len()))
        },
        event matches responses::StreamEventView::ReasoningSummaryTextDone {
            output_index,
            text: done,
            ..
        } ==> {
            let line = event_text(event);
            let name = "event=response.reasoning_summary_text.done output_index="@;
            &&& stands_at(line, name, 0)
            &&& stands_at(line, text::decimal_text(output_index), name.len() as int)
            &&& holds_text(line, " text_chars="@ + text::decimal_text(done.len()))
        },
        event matches responses::StreamEventView::FunctionCallArgumentsDelta {
            output_index,
            sequence_number,
            delta,
            ..
        } ==> {
            let line = event_text(event);
            let name = "event=response.function_call_arguments.delta output_index="@;
            &&& stands_at(line, name, 0)
            &&& stands_at(line, text::decimal_text(output_index), name.len() as int)
            &&& holds_text(line, " sequence_number="@ + optional_number_text(sequence_number))
            &&& holds_text(line, " delta_chars="@ + text::decimal_text(delta.len()))
        },
        event matches responses::StreamEventView::FunctionCallArgumentsDone {
            output_index,
            sequence_number,
            arguments,
            ..
        } ==> {
            let line = event_text(event);
            let name = "event=response.function_call_arguments.done output_index="@;
            &&& stands_at(line, name, 0)
            &&& stands_at(line, text::decimal_text(output_index), name.len() as int)
            &&& holds_text(line, " sequence_number="@ + optional_number_text(sequence_number))
            &&& holds_text(line, " arguments_chars="@ + text::decimal_text(arguments.len()))
        },
{
    if let responses::StreamEventView::ReasoningSummaryTextDelta {
        output_index,
        delta,
        ..
    } = event {
        let line = event_text(event);
        let name = "event=response.reasoning_summary_text.delta output_index="@;
        let place = text::decimal_text(output_index);
        assert(line.subrange(0, name.len() as int) =~= name);
        assert(line.subrange(name.len() as int, (name + place).len() as int) =~= place);
        let part1 = " delta_chars="@ + text::decimal_text(delta.len());
        let at1: int = (name + place).len() as int;
        assert(line.subrange(at1, at1 + part1.len()) =~= part1);
        assert(stands_at(line, part1, at1));
    }
    if let responses::StreamEventView::ReasoningSummaryTextDone {
        output_index,
        text: done,
        ..
    } = event {
        let line = event_text(event);
        let name = "event=response.reasoning_summary_text.done output_index="@;
        let place = text::decimal_text(output_index);
        assert(line.subrange(0, name.len() as int) =~= name);
        assert(line.subrange(name.len() as int, (name + place).len() as int) =~= place);
        let part1 = " text_chars="@ + text::decimal_text(done.len());
        let at1: int = (name + place).len() as int;
        assert(line.subrange(at1, at1 + part1.len()) =~= part1);
        assert(stands_at(line, part1, at1));
    }
    if let responses::StreamEventView::FunctionCallArgumentsDelta {
        output_index,
        sequence_number,
        delta,
        ..
    } = event {
        let line = event_text(event);
        let name = "event=response.function_call_arguments.delta output_index="@;
        let place = text::decimal_text(output_index);
        assert(line.subrange(0, name.len() as int) =~= name);
        assert(line.subrange(name.len() as int, (name + place).len() as int) =~= place);
        let part1 = " sequence_number="@ + optional_number_text(sequence_number);
        let at1: int = (name + place).len() as int;
        assert(line.subrange(at1, at1 + part1.len()) =~= part1);
        assert(stands_at(line, part1, at1));
        let part2 = " delta_chars="@ + text::decimal_text(delta.len());
        let at2: int = at1 + part1.len();
        assert(line.subrange(at2, at2 + part2.len()) =~= part2);
        assert(stands_at(line, part2, at2));
    }
    if let responses::StreamEventView::FunctionCallArgumentsDone {
        output_index,
        sequence_number,
        arguments,
        ..
    } = event {
        let line = event_text(event);
        let name = "event=response.function_call_arguments.done output_index="@;
        let place = text::decimal_text(output_index);
        assert(line.subrange(0, name.len() as int) =~= name);
        assert(line.subrange(name.len() as int, (name + place).len() as int) =~= place);
        let part1 = " sequence_number="@ + optional_number_text(sequence_number);
        let at1: int = (name + place).len() as int;
        assert(line.subrange(at1, at1 + part1.len()) =~= part1);
        assert(stands_at(line, part1, at1));
        let part2 = " arguments_chars="@ + text::decimal_text(arguments.len());
        let at2: int = at1 + part1.len();
        assert(line.subrange(at2, at2 + part2.len()) =~= part2);
        assert(stands_at(line, part2, at2));
    }
}

/// What was written does not show in the log, only how many characters it has; and neither do
/// the ids of items.
pub proof fn content_is_not_logged(event: responses::StreamEventView, id: Seq<char>, other: Seq<char>)
    ensures
        event matches responses::StreamEventView::ContentPartAdded {
            output_index,
            content_index,
            part,
            ..
        } ==> event_text(
            event,
        ) == event_text(responses::StreamEventView::ContentPartAdded {
            item_id: id,
            output_index,
            content_index,
            part,
        }),
        event matches responses::StreamEventView::ContentPartDone {
            output_index,
            content_index,
            part,
            ..
        } ==> event_text(
            event,
        ) == event_text(responses::StreamEventView::ContentPartDone {
            item_id: id,
            output_index,
            content_index,
            part,
        }),
        event matches responses::StreamEventView::OutputTextDelta {
            output_index,
            content_index,
            delta,
            ..
        } ==> (other.len() == delta.len() ==> event_text(
            event,
        ) == event_text(responses::StreamEventView::OutputTextDelta {
            item_id: id,
            output_index,
            content_index,
            delta: other,
        })),
        event matches responses::StreamEventView::OutputTextDone {
            output_index,
            content_index,
            text: done,
            ..
        } ==> (other.len() == done.len() ==> event_text(
            event,
        ) == event_text(responses::StreamEventView::OutputTextDone {
            item_id: id,
            output_index,
            content_index,
            text: other,
        })),
        event matches responses::StreamEventView::RefusalDelta {
            output_index,
            content_index,
            delta,
            sequence_number,
            ..
        } ==> (other.len() == delta.len() ==> event_text(
            event,
        ) == event_text(responses::StreamEventView::RefusalDelta {
            item_id: id,
            output_index,
            content_index,
            delta: other,
            sequence_number,
        })),
        event matches responses::StreamEventView::RefusalDone {
            output_index,
            content_index,
            refusal,
            sequence_number,
            ..
        } ==> (other.len() == refusal.len() ==> event_text(
            event,
        ) == event_text(responses::StreamEventView::RefusalDone {
            item_id: id,
            output_index,
            content_index,
            refusal: other,
            sequence_number,
        })),
        event matches responses::StreamEventView::ReasoningSummaryPartAdded {
            output_index,
            summary_index,
            ..
        } ==> event_text(
            event,
        ) == event_text(responses::StreamEventView::ReasoningSummaryPartAdded {
            item_id: id,
            output_index,
            summary_index,
        }),
        event matches responses::StreamEventView::ReasoningSummaryTextDelta {
            output_index,
            delta,
            ..
        } ==> (other.len() == delta.len() ==> event_text(
            event,
        ) == event_text(responses::StreamEventView::ReasoningSummaryTextDelta {
            item_id: id,
            output_index,
            delta: other,
        })),
        event matches responses::StreamEventView::ReasoningSummaryTextDone {
            output_index,
            text: done,
            ..
        } ==> (other.len() == done.len() ==> event_text(
            event,
        ) == event_text(responses::StreamEventView::ReasoningSummaryTextDone {
            item_id: id,
            output_index,
            text: other,
        })),
        event matches responses::StreamEventView::ReasoningSummaryPartDone {
            output_index,
            summary_index,
            ..
        } ==> event_text(
            event,
        ) == event_text(responses::StreamEventView::ReasoningSummaryPartDone {
            item_id: id,
            output_index,
            summary_index,
        }),
        event matches responses::StreamEventView::FunctionCallArgumentsDelta {
            output_index,
            delta,
            sequence_number,
            ..
        } ==> (other.len() == delta.len() ==> event_text(
            event,
        ) == event_text(responses::StreamEventView::FunctionCallArgumentsDelta {
            item_id: id,
            output_index,
            delta: other,
            sequence_number,
        })),
        event matches responses::StreamEventView::FunctionCallArgumentsDone {
            output_index,
            arguments,
            sequence_number,
            ..
        } ==> (other.len() == arguments.len() ==> event_text(
            event,
        ) == event_text(responses::StreamEventView::FunctionCallArgumentsDone {
            item_id: id,
            output_index,
            arguments: other,
            sequence_number,
        })),
{
}

/// The small pieces that arrive in large numbers are the deltas, and no other event is one.
pub proof fn only_deltas_arrive_in_large_numbers(event: responses::StreamEventView)
    ensures
        event is OutputTextDelta ==> is_delta(event),
        event is RefusalDelta ==> is_delta(event),
        event is ReasoningSummaryTextDelta ==> is_delta(event),
        event is FunctionCallArgumentsDelta ==> is_delta(event),
        event is Created || event is InProgress || event is Completed || event is Incomplete
            || event is Failed || event is Error || event is GenericError || event is Unknown
            ==> !is_delta(event),
        event is OutputItemAdded || event is OutputItemDone || event is ContentPartAdded || event
            is ContentPartDone || event is OutputTextDone || event is RefusalDone || event
            is ReasoningSummaryPartAdded || event is ReasoningSummaryPartDone || event
            is ReasoningSummaryTextDone || event is FunctionCallArgumentsDone ==> !is_delta(event),
{
}

/// What may be missing is written as it is, or as the word for nothing; and the kinds of items
/// have names of their own.
pub proof fn values_are_written_as_they_are(
    found: Seq<char>,
    number: u64,
    a: responses::ResponseOutputItemView,
)
    ensures
        text_or_none(Some(found)) == found,
        text_or_none(None) == "none"@,
        bool_text(true) == "true"@,
        bool_text(false) == "false"@,
        text::decimal_value(optional_number_text(Some(number))) == number,
        optional_number_text(None) == "none"@,
        a is Message ==> item_kind_text(a) == "message"@,
        a is FunctionCall ==> item_kind_text(a) == "function_call"@,
        a is Reasoning ==> item_kind_text(a) == "reasoning"@,
        a is Compaction ==> item_kind_text(a) == "compaction"@,
        a is Unknown ==> item_kind_text(a) == "unknown"@,
{
    text::decimal_text_gives_the_number(number as nat);
}

/// The line about an error tells its code, how many characters its message has, and whether it
/// names a parameter.
pub proof fn errors_are_logged(error: responses::ResponseErrorView)
    ensures
        ({
            let line = error_text(error);
            &&& holds_text(line, "code="@ + text_or_none(error.code))
            &&& holds_text(line, " message_chars="@ + text::decimal_text(error.message.len()))
            &&& holds_text(line, " param_present="@ + bool_text(error.param is Some))
            &&& stands_at(line, "code="@, 0)
        }),
{
    let line = error_text(error);
    let part0 = "code="@ + text_or_none(error.code);
    let at0: int = 0;
    assert(line.subrange(at0, at0 + part0.len()) =~= part0);
    assert(stands_at(line, part0, at0));
    let part1 = " message_chars="@ + text::decimal_text(error.message.len());
    let at1: int = at0 + part0.len();
    assert(line.subrange(at1, at1 + part1.len()) =~= part1);
    assert(stands_at(line, part1, at1));
    let part2 = " param_present="@ + bool_text(error.param is Some);
    let at2: int = at1 + part1.len();
    assert(line.subrange(at2, at2 + part2.len()) =~= part2);
    assert(stands_at(line, part2, at2));
    assert(line.subrange(0, "code="@.len() as int) =~= "code="@);
}

/// The line about tokens tells each count.
pub proof fn tokens_are_logged(usage: ResponseUsage)
    ensures
        ({
            let line = usage_text(usage);
            &&& holds_text(line, "input_tokens="@ + optional_number_text(usage.input_tokens))
            &&& holds_text(line, " output_tokens="@ + optional_number_text(usage.output_tokens))
            &&& holds_text(line, " total_tokens="@ + optional_number_text(usage.total_tokens))
            &&& holds_text(
                line,
                " cached_tokens="@ + text::decimal_text(usage.input_tokens_details.cached_tokens as nat),
            )
            &&& holds_text(
                line,
                " reasoning_tokens="@ + text::decimal_text(usage.output_tokens_details.reasoning_tokens as nat),
            )
            &&& stands_at(line, "input_tokens="@, 0)
        }),
{
    let line = usage_text(usage);
    let part0 = "input_tokens="@ + optional_number_text(usage.input_tokens);
    let at0: int = 0;
    assert(line.subrange(at0, at0 + part0.len()) =~= part0);
    assert(stands_at(line, part0, at0));
    let part1 = " output_tokens="@ + optional_number_text(usage.output_tokens);
    let at1: int = at0 + part0.len();
    assert(line.subrange(at1, at1 + part1.len()) =~= part1);
    assert(stands_at(line, part1, at1));
    let part2 = " total_tokens="@ + optional_number_text(usage.total_tokens);
    let at2: int = at1 + part1.len();
    assert(line.subrange(at2, at2 + part2.len()) =~= part2);
    assert(stands_at(line, part2, at2));
    let part3 = " cached_tokens="@ + text::decimal_text(
        usage.input_tokens_details.cached_tokens as nat,
    );
    let at3: int = at2 + part2.len();
    assert(line.subrange(at3, at3 + part3.len()) =~= part3);
    assert(stands_at(line, part3, at3));
    let part4 = " reasoning_tokens="@ + text::decimal_text(
        usage.output_tokens_details.reasoning_tokens as nat,
    );
    let at4: int = at3 + part3.len();
    assert(line.subrange(at4, at4 + part4.len()) =~= part4);
    assert(stands_at(line, part4, at4));
    assert(line.subrange(0, "input_tokens="@.len() as int) =~= "input_tokens="@);
}

proof fn parts_stand(before: Seq<char>, part: Seq<char>, after: Seq<char>)
    ensures
        holds_text(before + part + after, part),
{
    let line = before + part + after;
    let place: int = before.len() as int;
    assert(line.subrange(place, place + part.len()) =~= part);
    assert(stands_at(line, part, place));
}

proof fn value_stands(line: Seq<char>, start: Seq<char>, name: Seq<char>, value: Seq<char>)
    requires
        (start + name + value).is_prefix_of(line),
    ensures
        holds_text(line, name + value),
{
    let after = line.skip((start + name + value).len() as int);
    assert(line =~= start + name + value + after);
    assert(start + name + value + after =~= start + (name + value) + after);
    parts_stand(start, name + value, after);
}

proof fn longer_begins_alike(line: Seq<char>, start: Seq<char>, more: Seq<char>)
    requires
        (start + more).is_prefix_of(line),
    ensures
        start.is_prefix_of(line),
{
    assert(line.subrange(0, start.len() as int) =~= (start + more).subrange(0, start.len() as int));
    assert((start + more).subrange(0, start.len() as int) =~= start);
}

/// The line about an answer tells its id, its status, how many items it has, why it is
/// incomplete, its error and its tokens.
pub proof fn answers_are_logged(response: responses::ResponseSummaryView)
    ensures
        ({
            let line = summary_text(response);
            &&& holds_text(line, "response_id="@ + text_or_none(response.id))
            &&& holds_text(line, " status="@ + text_or_none(response.status))
            &&& holds_text(line, " output_count="@ + text::decimal_text(response.output.len()))
            &&& response.incomplete_details matches Some(reason) ==> holds_text(
                line,
                " incomplete_reason="@ + text_or_none(reason),
            )
            &&& response.incomplete_details is None ==> holds_text(
                line,
                " incomplete_reason="@ + "none"@,
            )
            &&& response.error matches Some(error) ==> holds_text(
                line,
                " error="@ + error_text(error),
            )
            &&& response.error is None ==> holds_text(line, " error="@ + "none"@)
            &&& response.usage matches Some(usage) ==> holds_text(
                line,
                " usage="@ + usage_text(usage),
            )
            &&& response.usage is None ==> holds_text(line, " usage="@ + "none"@)
        }),
{
    let line = summary_text(response);
    let reason = text_or_none(
        match response.incomplete_details {
            Some(reason) => reason,
            None => None,
        },
    );
    let error = match response.error {
        Some(error) => error_text(error),
        None => "none"@,
    };
    let usage = match response.usage {
        Some(usage) => usage_text(usage),
        None => "none"@,
    };
    let empty = Seq::<char>::empty();
    let one = "response_id="@ + text_or_none(response.id);
    let two = one + " status="@ + text_or_none(response.status);
    let three = two + " output_count="@ + text::decimal_text(response.output.len());
    let four = three + " incomplete_reason="@ + reason;
    let five = four + " error="@ + error;
    let six = five + " usage="@ + usage;
    assert(line == six);
    assert(six.subrange(0, six.len() as int) =~= six);
    value_stands(line, five, " usage="@, usage);
    longer_begins_alike(line, five + " usage="@, usage);
    longer_begins_alike(line, five, " usage="@);
    value_stands(line, four, " error="@, error);
    longer_begins_alike(line, four + " error="@, error);
    longer_begins_alike(line, four, " error="@);
    value_stands(line, three, " incomplete_reason="@, reason);
    longer_begins_alike(line, three + " incomplete_reason="@, reason);
    longer_begins_alike(line, three, " incomplete_reason="@);
    value_stands(line, two, " output_count="@, text::decimal_text(response.output.len()));
    longer_begins_alike(
        line,
        two + " output_count="@,
        text::decimal_text(response.output.len()),
    );
    longer_begins_alike(line, two, " output_count="@);
    value_stands(line, one, " status="@, text_or_none(response.status));
    longer_begins_alike(line, one + " status="@, text_or_none(response.status));
    longer_begins_alike(line, one, " status="@);
    assert(empty + "response_id="@ + text_or_none(response.id) =~= one);
    value_stands(line, empty, "response_id="@, text_or_none(response.id));
}

/// The line about the body of a failed request tells how many characters it has, and then what
/// was read from it: the kind and the code of the error, how many characters its message has,
/// and whether it names a parameter; or that there is no error, or why it could not be read.
pub proof fn bodies_are_logged(body: Seq<char>, read: Result<HttpErrorLogBody, String>)
    ensures
        ({
            let line = error_body_text(body, read);
            let size = "body_chars="@ + text::decimal_text(body.len());
            &&& stands_at(line, size, 0)
            &&& read matches Ok(HttpErrorLogBody { error: Some(error) }) ==> {
                &&& holds_text(
                    line,
                    " error_type="@ + text_or_none(text::optional_text(error.error_type)),
                )
                &&& holds_text(line, " code="@ + text_or_none(text::optional_text(error.code)))
                &&& error.message matches Some(message) ==> holds_text(
                    line,
                    " message_chars="@ + text::decimal_text(message@.len()),
                )
                &&& error.message is None ==> holds_text(
                    line,
                    " message_chars="@ + text::decimal_text(0),
                )
                &&& holds_text(line, " param_present="@ + bool_text(error.param is Some))
            }
            &&& read matches Ok(HttpErrorLogBody { error: None }) ==> line == size + " error=none"@
            &&& read matches Err(error) ==> line == size + (" parse_error="@ + error@)
        }),
{
    let line = error_body_text(body, read);
    let size = "body_chars="@ + text::decimal_text(body.len());
    assert(line.subrange(0, size.len() as int) =~= size);
    if let Ok(HttpErrorLogBody { error: Some(error) }) = read {
        let count: nat = match error.message {
            Some(message) => message@.len(),
            None => 0,
        };
        let part0 = " error_type="@ + text_or_none(text::optional_text(error.error_type));
        let part1 = " code="@ + text_or_none(text::optional_text(error.code));
        let part2 = " message_chars="@ + text::decimal_text(count);
        let part3 = " param_present="@ + bool_text(error.param is Some);
        let at0: int = size.len() as int;
        let at1: int = at0 + part0.len();
        let at2: int = at1 + part1.len();
        let at3: int = at2 + part2.len();
        assert(line =~= size + part0 + part1 + part2 + part3);
        assert(line.subrange(at0, at0 + part0.len()) =~= part0);
        assert(stands_at(line, part0, at0));
        assert(line.subrange(at1, at1 + part1.len()) =~= part1);
        assert(stands_at(line, part1, at1));
        assert(line.subrange(at2, at2 + part2.len()) =~= part2);
        assert(stands_at(line, part2, at2));
        assert(line.subrange(at3, at3 + part3.len()) =~= part3);
        assert(stands_at(line, part3, at3));
    }
}

/// The words of the message in a failed request's body do not show in the log, and neither does
/// the rest of the body.
pub proof fn bodies_are_not_logged(
    a: Seq<char>,
    b: Seq<char>,
    first: HttpErrorLogObject,
    second: HttpErrorLogObject,
)
    requires
        a.len() == b.len(),
        first.code == second.code,
        first.error_type == second.error_type,
        first.message is Some,
        second.message is Some,
        first.message->0@.len() == second.message->0@.len(),
        first.param is Some == second.param is Some,
    ensures
        error_body_text(a, Ok(HttpErrorLogBody { error: Some(first) })) == error_body_text(
            b,
            Ok(HttpErrorLogBody { error: Some(second) }),
        ),
{
}

} // verus!
