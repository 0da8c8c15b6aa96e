//! How an answer of the Responses API is read: where the request goes, what a streamed
//! line holds, and which events stand for an answer that came in one piece.
use serde_json::Value;
use vstd::prelude::*;
use vstd::string::StringExecFns;

use crate::json;
use crate::responses::{
    ReasoningSummaryPart, ResponseOutputItem, ResponseSummary, StreamEvent,
};
use crate::responses;
use crate::text;

verus! {

/// The address that requests are posted to.
pub fn responses_endpoint(api_url: &str) -> (uri: String)
    ensures
        uri@ == api_url@ + "/responses"@,
{
    let mut uri = api_url.to_string();
    uri.append("/responses");
    uri
}

/// The value of the `Authorization` header; white space around the key is dropped.
pub fn authorization_header(api_key: &str) -> (value: String)
    ensures
        value@ == "Bearer "@ + text::trimmed(api_key@),
{
    let mut value = "Bearer ".to_string();
    value.append(text::trim(api_key));
    value
}

/// How the body of an answer is to be read.
#[derive(Clone, Copy, Debug, PartialEq, Eq, Structural)]
pub enum BodyReading {
    /// Line by line, each line through [`read_stream_line`].
    Lines,
    /// As one summary, which [`response_events`] turns into events.
    Summary,
    /// As the text of a failure.
    Failure,
}

/// Chooses how to read a body: only a status of the 2xx range is a success.
pub fn body_reading(status: u16, is_streaming: bool) -> (reading: BodyReading)
    ensures
        reading == (if !(200 <= status < 300) {
            BodyReading::Failure
        } else if is_streaming {
            BodyReading::Lines
        } else {
            BodyReading::Summary
        }),
{
    if status < 200 || status >= 300 {
        BodyReading::Failure
    } else if is_streaming {
        BodyReading::Lines
    } else {
        BodyReading::Summary
    }
}

/// What a line of a streamed answer holds.
#[derive(Clone, Copy, Debug, PartialEq, Eq)]
pub enum StreamLine<'a> {
    /// Nothing: the line is no data line, or its data is empty.
    Nothing,
    /// The marker at the end of the stream.
    Done,
    /// The JSON of an event.
    Event(&'a str),
}

/// The data of a line: what follows `data: `, or else `data:`.
pub open spec fn line_data(line: Seq<char>) -> Option<Seq<char>> {
    responses::first_of(
        text::without_prefix(line, "data: "@),
        text::without_prefix(line, "data:"@),
    )
}

/// Whether a line holds the JSON of an event.
pub open spec fn line_event(line: Seq<char>) -> Option<Seq<char>> {
    match line_data(line) {
        Some(data) => if data == "[DONE]"@ || data.len() == 0 {
            None
        } else {
            Some(data)
        },
        None => None,
    }
}

/// Reads one line of a streamed answer.
pub fn read_stream_line<'a>(line: &'a str) -> (held: StreamLine<'a>)
    ensures
        match held {
            StreamLine::Nothing => line_event(line@) is None && line_data(line@) != Some("[DONE]"@),
            StreamLine::Done => line_data(line@) == Some("[DONE]"@),
            StreamLine::Event(json) => line_event(line@) == Some(json@),
        },
{
    let data = match text::strip_prefix(line, "data: ") {
        Some(data) => data,
        None => match text::strip_prefix(line, "data:") {
            Some(data) => data,
            None => {
                return StreamLine::Nothing;
            },
        },
    };
    proof {
        reveal_strlit("[DONE]");
    }
    if text::same_text(data, "[DONE]") {
        StreamLine::Done
    } else if data.is_empty() {
        StreamLine::Nothing
    } else {
        StreamLine::Event(data)
    }
}

/// Whatever JSON stands behind `data: ` on a line is read from it, unless it is empty or
/// the marker at the end of the stream.
pub proof fn data_lines_carry_events(json: Seq<char>)
    requires
        json.len() > 0,
        json != "[DONE]"@,
    ensures
        line_event("data: "@ + json) == Some(json),
{
    let line = "data: "@ + json;
    assert(line.subrange(0, "data: "@.len() as int) =~= "data: "@);
    assert(line.skip("data: "@.len() as int) =~= json);
}

/// The models of a list of events.
pub open spec fn event_views(events: Seq<StreamEvent>) -> Seq<responses::StreamEventView> {
    events.map_values(|event: StreamEvent| event@)
}

fn push_event(events: &mut Vec<StreamEvent>, event: StreamEvent)
    ensures
        event_views(final(events)@) == event_views(old(events)@).push(event@),
{
    events.push(event);
    assert(event_views(events@) =~= event_views(old(events)@).push(event@));
}

/// The text of a message part: its member `text`, where that is a string.
pub open spec fn content_text(part: Value) -> Option<Seq<char>> {
    match json::json_member(part, "text"@) {
        Some(member) => json::json_string(member),
        None => None,
    }
}

/// Reads the text of a message part.
pub fn read_content_text(part: &Value) -> (found: Option<String>)
    ensures
        text::optional_text(found) == content_text(*part),
{
    match json::member(part, "text") {
        Some(member) => match json::string_of(member) {
            Some(found) => Some(found.to_string()),
            None => None,
        },
        None => None,
    }
}

/// The optional texts of a list.
pub open spec fn optional_texts(list: Seq<Option<String>>) -> Seq<Option<Seq<char>>> {
    list.map_values(|found: Option<String>| text::optional_text(found))
}

/// The texts of the parts of a message.
pub open spec fn content_texts(content: Seq<Value>) -> Seq<Option<Seq<char>>> {
    content.map_values(|part: Value| content_text(part))
}

/// Reads the texts of the parts of a message.
pub fn read_content_texts(content: &Vec<Value>) -> (found: Vec<Option<String>>)
    ensures
        optional_texts(found@) == content_texts(content@),
{
    let mut found: Vec<Option<String>> = Vec::new();
    let mut i: usize = 0;
    while i < content.len()
        invariant
            i <= content.len(),
            found.len() == i,
            forall|j: int|
                0 <= j < i ==> text::optional_text(#[trigger] found@[j]) == content_text(
                    content@[j],
                ),
        decreases content.len() - i,
    {
        found.push(read_content_text(&content[i]));
        i += 1;
    }
    assert(optional_texts(found@) =~= content_texts(content@));
    found
}

/// One text delta for each text that is there.
pub open spec fn text_deltas(
    item_id: Seq<char>,
    output_index: nat,
    found: Seq<Option<Seq<char>>>,
) -> Seq<responses::StreamEventView>
    decreases found.len(),
{
    if found.len() == 0 {
        seq![]
    } else {
        let before = text_deltas(item_id, output_index, found.drop_last());
        match found.last() {
            Some(delta) => before.push(
                responses::StreamEventView::OutputTextDelta {
                    item_id,
                    output_index,
                    content_index: None,
                    delta,
                },
            ),
            None => before,
        }
    }
}

/// One reasoning delta for each part of the summary that has a text.
pub open spec fn reasoning_deltas(
    item_id: Seq<char>,
    output_index: nat,
    summary: Seq<Option<Seq<char>>>,
) -> Seq<responses::StreamEventView>
    decreases summary.len(),
{
    if summary.len() == 0 {
        seq![]
    } else {
        let before = reasoning_deltas(item_id, output_index, summary.drop_last());
        match summary.last() {
            Some(delta) => before.push(
                responses::StreamEventView::ReasoningSummaryTextDelta {
                    item_id,
                    output_index,
                    delta,
                },
            ),
            None => before,
        }
    }
}

/// The events between the addition and the completion of an item, given the texts that
/// were found in the parts of a message. An item without an id has none; neither has a
/// compaction, whose completion carries the full item.
pub open spec fn item_deltas(
    output_index: nat,
    item: responses::ResponseOutputItemView,
    found: Seq<Option<Seq<char>>>,
) -> Seq<responses::StreamEventView> {
    match item {
        responses::ResponseOutputItemView::Message { id: Some(item_id), .. } => text_deltas(
            item_id,
            output_index,
            found,
        ),
        responses::ResponseOutputItemView::FunctionCall { id: Some(item_id), arguments, .. } => seq![
            responses::StreamEventView::FunctionCallArgumentsDone {
                item_id,
                output_index,
                arguments,
                sequence_number: None,
            },
        ],
        responses::ResponseOutputItemView::Reasoning { id: Some(item_id), summary, .. } =>
            reasoning_deltas(item_id, output_index, summary),
        _ => seq![],
    }
}

/// All events of one item.
pub open spec fn item_events(
    output_index: nat,
    item: responses::ResponseOutputItemView,
    found: Seq<Option<Seq<char>>>,
) -> Seq<responses::StreamEventView> {
    seq![
        responses::StreamEventView::OutputItemAdded { output_index, sequence_number: None, item },
    ] + item_deltas(output_index, item, found) + seq![
        responses::StreamEventView::OutputItemDone { output_index, sequence_number: None, item },
    ]
}

/// The texts that are looked for in an item: those of a message's parts.
pub open spec fn item_texts(item: responses::ResponseOutputItemView) -> Seq<Option<Seq<char>>> {
    match item {
        responses::ResponseOutputItemView::Message { content, .. } => content_texts(content),
        _ => seq![],
    }
}

/// The events of all items in turn.
pub open spec fn output_events(output: Seq<responses::ResponseOutputItemView>) -> Seq<
    responses::StreamEventView,
>
    decreases output.len(),
{
    if output.len() == 0 {
        seq![]
    } else {
        output_events(output.drop_last()) + item_events(
            (output.len() - 1) as nat,
            output.last(),
            item_texts(output.last()),
        )
    }
}

/// The event that ends an answer, by its status.
pub open spec fn final_event(
    response: responses::ResponseSummaryView,
) -> responses::StreamEventView {
    if response.status == Some("incomplete"@) {
        responses::StreamEventView::Incomplete { response }
    } else if response.status == Some("failed"@) {
        responses::StreamEventView::Failed { response }
    } else {
        responses::StreamEventView::Completed { response }
    }
}

/// The events that stand for an answer which came in one piece.
pub open spec fn summary_events(response: responses::ResponseSummaryView) -> Seq<
    responses::StreamEventView,
> {
    seq![
        responses::StreamEventView::Created { response },
        responses::StreamEventView::InProgress { response },
    ] + output_events(response.output) + seq![final_event(response)]
}

fn push_text_deltas(
    events: &mut Vec<StreamEvent>,
    item_id: &String,
    output_index: usize,
    found: &Vec<Option<String>>,
)
    ensures
        event_views(final(events)@) == event_views(old(events)@) + text_deltas(
            item_id@,
            output_index as nat,
            optional_texts(found@),
        ),
{
    let mut i: usize = 0;
    assert(optional_texts(found@).take(0) =~= seq![]);
    while i < found.len()
        invariant
            i <= found.len(),
            event_views(events@) == event_views(old(events)@) + text_deltas(
                item_id@,
                output_index as nat,
                optional_texts(found@).take(i as int),
            ),
        decreases found.len() - i,
    {
        proof {
            let next = optional_texts(found@).take(i + 1);
            assert(next.drop_last() =~= optional_texts(found@).take(i as int));
            assert(next.last() == text::optional_text(found@[i as int]));
        }
        if let Some(delta) = &found[i] {
            push_event(
                events,
                StreamEvent::OutputTextDelta {
                    item_id: item_id.clone(),
                    output_index,
                    content_index: None,
                    delta: delta.clone(),
                },
            );
        }
        i += 1;
    }
    assert(optional_texts(found@).take(i as int) =~= optional_texts(found@));
}

fn push_reasoning_deltas(
    events: &mut Vec<StreamEvent>,
    item_id: &String,
    output_index: usize,
    summary: &Vec<ReasoningSummaryPart>,
)
    ensures
        event_views(final(events)@) == event_views(old(events)@) + reasoning_deltas(
            item_id@,
            output_index as nat,
            responses::summary_part_texts(summary@),
        ),
{
    let mut i: usize = 0;
    assert(responses::summary_part_texts(summary@).take(0) =~= seq![]);
    while i < summary.len()
        invariant
            i <= summary.len(),
            event_views(events@) == event_views(old(events)@) + reasoning_deltas(
                item_id@,
                output_index as nat,
                responses::summary_part_texts(summary@).take(i as int),
            ),
        decreases summary.len() - i,
    {
        proof {
            let next = responses::summary_part_texts(summary@).take(i + 1);
            assert(next.drop_last() =~= responses::summary_part_texts(summary@).take(i as int));
            assert(next.last() == responses::summary_part_text(summary@[i as int]));
        }
        if let ReasoningSummaryPart::SummaryText { text: delta } = &summary[i] {
            push_event(
                events,
                StreamEvent::ReasoningSummaryTextDelta {
                    item_id: item_id.clone(),
                    output_index,
                    delta: delta.clone(),
                },
            );
        }
        i += 1;
    }
    assert(responses::summary_part_texts(summary@).take(i as int)
        =~= responses::summary_part_texts(summary@));
}

/// Appends the events of one item, given the texts that were found in its parts.
pub fn push_item_events(
    events: &mut Vec<StreamEvent>,
    output_index: usize,
    item: &ResponseOutputItem,
    found: &Vec<Option<String>>,
)
    ensures
        event_views(final(events)@) == event_views(old(events)@) + item_events(
            output_index as nat,
            item@,
            optional_texts(found@),
        ),
{
    push_event(
        events,
        StreamEvent::OutputItemAdded { output_index, sequence_number: None, item: item.clone() },
    );
    let ghost added = event_views(events@);
    match item {
        ResponseOutputItem::Message(message) => {
            if let Some(item_id) = &message.id {
                push_text_deltas(events, item_id, output_index, found);
            }
        },
        ResponseOutputItem::FunctionCall(call) => {
            if let Some(item_id) = &call.id {
                push_event(
                    events,
                    StreamEvent::FunctionCallArgumentsDone {
                        item_id: item_id.clone(),
                        output_index,
                        arguments: call.arguments.clone(),
                        sequence_number: None,
                    },
                );
            }
        },
        ResponseOutputItem::Reasoning(reasoning) => {
            if let Some(item_id) = &reasoning.id {
                push_reasoning_deltas(events, item_id, output_index, &reasoning.summary);
            }
        },
        ResponseOutputItem::Compaction(_) => {},
        ResponseOutputItem::Unknown => {},
    }
    assert(event_views(events@) =~= added + item_deltas(
        output_index as nat,
        item@,
        optional_texts(found@),
    ));
    push_event(
        events,
        StreamEvent::OutputItemDone { output_index, sequence_number: None, item: item.clone() },
    );
    assert(event_views(events@) =~= event_views(old(events)@) + item_events(
        output_index as nat,
        item@,
        optional_texts(found@),
    ));
}

/// Turns an answer that came in one piece into the events of a stream.
pub fn response_events(response: ResponseSummary) -> (events: Vec<StreamEvent>)
    ensures
        event_views(events@) == summary_events(response@),
{
    let mut events: Vec<StreamEvent> = Vec::new();
    push_event(&mut events, StreamEvent::Created { response: response.clone() });
    push_event(&mut events, StreamEvent::InProgress { response: response.clone() });
    let ghost opening = event_views(events@);
    assert(opening =~= seq![
        responses::StreamEventView::Created { response: response@ },
        responses::StreamEventView::InProgress { response: response@ },
    ]);
    let mut i: usize = 0;
    assert(response@.output.take(0) =~= seq![]);
    while i < response.output.len()
        invariant
            i <= response.output.len(),
            event_views(events@) =~= opening + output_events(response@.output.take(i as int)),
        decreases response.output.len() - i,
    {
        let found = match &response.output[i] {
            ResponseOutputItem::Message(message) => read_content_texts(&message.content),
            _ => Vec::new(),
        };
        push_item_events(&mut events, i, &response.output[i], &found);
        proof {
            let next = response@.output.take(i + 1);
            assert(next.drop_last() =~= response@.output.take(i as int));
            assert(next.last() == response.output@[i as int]@);
            assert(optional_texts(found@) =~= item_texts(next.last()));
        }
        i += 1;
    }
    assert(response@.output.take(i as int) =~= response@.output);
    let last = if text::is_text(&response.status, "incomplete") {
        StreamEvent::Incomplete { response: response.clone() }
    } else if text::is_text(&response.status, "failed") {
        StreamEvent::Failed { response: response.clone() }
    } else {
        StreamEvent::Completed { response: response.clone() }
    };
    push_event(&mut events, last);
    assert(event_views(events@) =~= summary_events(response@));
    events
}

/// The items that a list of events reports as done.
pub open spec fn done_items(events: Seq<responses::StreamEventView>) -> Seq<
    responses::ResponseOutputItemView,
>
    decreases events.len(),
{
    if events.len() == 0 {
        seq![]
    } else {
        let before = done_items(events.drop_last());
        match events.last() {
            responses::StreamEventView::OutputItemDone { item, .. } => before.push(item),
            _ => before,
        }
    }
}

proof fn done_items_append(
    first: Seq<responses::StreamEventView>,
    second: Seq<responses::StreamEventView>,
)
    ensures
        done_items(first + second) == done_items(first) + done_items(second),
    decreases second.len(),
{
    if second.len() == 0 {
        assert(first + second =~= first);
        assert(done_items(first) + done_items(second) =~= done_items(first));
    } else {
        done_items_append(first, second.drop_last());
        assert((first + second).drop_last() =~= first + second.drop_last());
        assert(done_items(first + second) =~= done_items(first) + done_items(second));
    }
}

proof fn text_deltas_finish_nothing(
    item_id: Seq<char>,
    output_index: nat,
    found: Seq<Option<Seq<char>>>,
)
    ensures
        done_items(text_deltas(item_id, output_index, found)) == Seq::<
            responses::ResponseOutputItemView,
        >::empty(),
    decreases found.len(),
{
    if found.len() > 0 {
        text_deltas_finish_nothing(item_id, output_index, found.drop_last());
        let before = text_deltas(item_id, output_index, found.drop_last());
        let all = text_deltas(item_id, output_index, found);
        if found.last() is Some {
            assert(all.drop_last() =~= before);
        }
    }
}

proof fn reasoning_deltas_finish_nothing(
    item_id: Seq<char>,
    output_index: nat,
    summary: Seq<Option<Seq<char>>>,
)
    ensures
        done_items(reasoning_deltas(item_id, output_index, summary)) == Seq::<
            responses::ResponseOutputItemView,
        >::empty(),
    decreases summary.len(),
{
    if summary.len() > 0 {
        reasoning_deltas_finish_nothing(item_id, output_index, summary.drop_last());
        let before = reasoning_deltas(item_id, output_index, summary.drop_last());
        let all = reasoning_deltas(item_id, output_index, summary);
        if summary.last() is Some {
            assert(all.drop_last() =~= before);
        }
    }
}

proof fn done_items_of_one(event: responses::StreamEventView)
    ensures
        done_items(seq![event]) == (match event {
            responses::StreamEventView::OutputItemDone { item, .. } => seq![item],
            _ => seq![],
        }),
{
    assert(seq![event].drop_last() =~= seq![]);
    assert(done_items(seq![event].drop_last()) =~= seq![]);
    assert(done_items(seq![event]) =~= (match event {
        responses::StreamEventView::OutputItemDone { item, .. } => seq![item],
        _ => seq![],
    }));
}

proof fn item_events_finish_item(
    output_index: nat,
    item: responses::ResponseOutputItemView,
    found: Seq<Option<Seq<char>>>,
)
    ensures
        done_items(item_events(output_index, item, found)) == seq![item],
{
    let added = responses::StreamEventView::OutputItemAdded {
        output_index,
        sequence_number: None,
        item,
    };
    let done = responses::StreamEventView::OutputItemDone {
        output_index,
        sequence_number: None,
        item,
    };
    let deltas = item_deltas(output_index, item, found);
    done_items_of_one(added);
    done_items_of_one(done);
    match item {
        responses::ResponseOutputItemView::Message { id: Some(item_id), .. } => {
            text_deltas_finish_nothing(item_id, output_index, found);
        },
        responses::ResponseOutputItemView::FunctionCall { id: Some(item_id), arguments, .. } => {
            done_items_of_one(
                responses::StreamEventView::FunctionCallArgumentsDone {
                    item_id,
                    output_index,
                    arguments,
                    sequence_number: None,
                },
            );
        },
        responses::ResponseOutputItemView::Reasoning { id: Some(item_id), summary, .. } => {
            reasoning_deltas_finish_nothing(item_id, output_index, summary);
        },
        _ => {},
    }
    assert(done_items(deltas) =~= seq![]);
    done_items_append(seq![added], deltas);
    done_items_append(seq![added] + deltas, seq![done]);
    assert(done_items(item_events(output_index, item, found)) =~= seq![item]);
}

proof fn output_events_finish_output(output: Seq<responses::ResponseOutputItemView>)
    ensures
        done_items(output_events(output)) == output,
    decreases output.len(),
{
    if output.len() == 0 {
        assert(done_items(output_events(output)) =~= output);
    } else {
        output_events_finish_output(output.drop_last());
        let last = item_events(
            (output.len() - 1) as nat,
            output.last(),
            item_texts(output.last()),
        );
        item_events_finish_item(
            (output.len() - 1) as nat,
            output.last(),
            item_texts(output.last()),
        );
        done_items_append(output_events(output.drop_last()), last);
        assert(done_items(output_events(output)) =~= output);
    }
}

/// The events that stand for an answer report exactly its output items as done, each
/// once, whole and in order; they open with the answer's creation and close with the
/// event of its status, which carries the whole answer.
pub proof fn events_carry_the_answer(response: responses::ResponseSummaryView)
    ensures
        done_items(summary_events(response)) == response.output,
        summary_events(response).first() == (responses::StreamEventView::Created { response }),
        summary_events(response).last() == final_event(response),
{
    let opening = seq![
        responses::StreamEventView::Created { response },
        responses::StreamEventView::InProgress { response },
    ];
    assert(opening.drop_last() =~= seq![responses::StreamEventView::Created { response }]);
    done_items_of_one(responses::StreamEventView::Created { response });
    assert(done_items(opening) =~= seq![]);
    done_items_of_one(final_event(response));
    output_events_finish_output(response.output);
    done_items_append(opening, output_events(response.output));
    done_items_append(
        opening + output_events(response.output),
        seq![final_event(response)],
    );
    assert(done_items(summary_events(response)) =~= response.output);
}

/// The data of a line is what stands behind its mark, without the one space that may follow
/// the mark; a line without the mark has none.
pub proof fn data_stands_behind_the_mark(line: Seq<char>, data: Seq<char>)
    ensures
        line_data(line) == Some(data) <==> (line == "data: "@ + data || (line == "data:"@ + data
            && !"data: "@.is_prefix_of(line))),
{
    text::prefix_and_rest_are_the_text(line, "data: "@, data);
    text::prefix_and_rest_are_the_text(line, "data:"@, data);
    if "data: "@.is_prefix_of(line) {
        let rest = line.skip("data: "@.len() as int);
        text::prefix_and_rest_are_the_text(line, "data: "@, rest);
    } else {
        if line == "data: "@ + data {
            assert("data: "@ =~= line.subrange(0, "data: "@.len() as int));
        }
    }
}

/// A line holds an event exactly where it has data that is neither empty nor the mark of the
/// end, and then the event is the whole data.
pub proof fn events_are_the_data(line: Seq<char>)
    ensures
        line_event(line) is Some <==> (line_data(line) is Some && line_data(line)->0.len() > 0
            && line_data(line)->0 != "[DONE]"@),
        line_event(line) is Some ==> line_event(line) == line_data(line),
{
}

/// In a list each event is seen at its place.
pub proof fn events_are_seen_in_place(events: Seq<StreamEvent>)
    ensures
        event_views(events).len() == events.len(),
        forall|i: int| 0 <= i < events.len() ==> #[trigger] event_views(events)[i] == events[i]@,
{
}

/// The text of a part is its member of that name, where it is a text; of a list each is
/// found at its place.
pub proof fn content_texts_are_found_in_place(content: Seq<Value>, found: Seq<Option<String>>)
    ensures
        content_texts(content).len() == content.len(),
        forall|i: int|
            0 <= i < content.len() ==> (match json::json_member(content[i], "text"@) {
                Some(member) => #[trigger] content_texts(content)[i] == json::json_string(member),
                None => content_texts(content)[i] is None,
            }),
        optional_texts(found).len() == found.len(),
        forall|i: int|
            0 <= i < found.len() ==> #[trigger] optional_texts(found)[i] == text::optional_text(
                found[i],
            ),
{
}

/// Every text that was found gives one delta with the whole text, for this item, in order;
/// what was not found gives none.
pub proof fn every_text_gives_a_delta(
    item_id: Seq<char>,
    output_index: nat,
    found: Seq<Option<Seq<char>>>,
    more: Seq<Option<Seq<char>>>,
    one: Option<Seq<char>>,
)
    ensures
        text_deltas(item_id, output_index, found + more) == text_deltas(
            item_id,
            output_index,
            found,
        ) + text_deltas(item_id, output_index, more),
        one is None ==> text_deltas(item_id, output_index, seq![one]) == Seq::<
            responses::StreamEventView,
        >::empty(),
        one matches Some(delta) ==> text_deltas(item_id, output_index, seq![one])
            == seq![responses::StreamEventView::OutputTextDelta {
            item_id,
            output_index,
            content_index: None,
            delta,
        }],
    decreases more.len(),
{
    if more.len() == 0 {
        assert(found + more =~= found);
        assert(text_deltas(item_id, output_index, found) + text_deltas(item_id, output_index, more)
            =~= text_deltas(item_id, output_index, found));
    } else {
        every_text_gives_a_delta(item_id, output_index, found, more.drop_last(), one);
        assert((found + more).drop_last() =~= found + more.drop_last());
        assert((found + more).last() == more.last());
        assert(text_deltas(item_id, output_index, found + more) =~= text_deltas(
            item_id,
            output_index,
            found,
        ) + text_deltas(item_id, output_index, more));
    }
    assert(seq![one].drop_last() =~= Seq::empty());
    assert(text_deltas(item_id, output_index, seq![one].drop_last()) =~= Seq::empty());
    assert(seq![one].last() == one);
    if let Some(delta) = one {
        assert(text_deltas(item_id, output_index, seq![one])
            =~= seq![responses::StreamEventView::OutputTextDelta {
            item_id,
            output_index,
            content_index: None,
            delta,
        }]);
    }
}

/// Every text of a summary gives one delta with the whole text, for this item, in order;
/// a part without a text gives none.
pub proof fn every_summary_text_gives_a_delta(
    item_id: Seq<char>,
    output_index: nat,
    summary: Seq<Option<Seq<char>>>,
    more: Seq<Option<Seq<char>>>,
    one: Option<Seq<char>>,
)
    ensures
        reasoning_deltas(item_id, output_index, summary + more) == reasoning_deltas(
            item_id,
            output_index,
            summary,
        ) + reasoning_deltas(item_id, output_index, more),
        one is None ==> reasoning_deltas(item_id, output_index, seq![one]) == Seq::<
            responses::StreamEventView,
        >::empty(),
        one matches Some(delta) ==> reasoning_deltas(item_id, output_index, seq![one])
            == seq![responses::StreamEventView::ReasoningSummaryTextDelta {
            item_id,
            output_index,
            delta,
        }],
    decreases more.len(),
{
    if more.len() == 0 {
        assert(summary + more =~= summary);
        assert(reasoning_deltas(item_id, output_index, summary) + reasoning_deltas(
            item_id,
            output_index,
            more,
        ) =~= reasoning_deltas(item_id, output_index, summary));
    } else {
        every_summary_text_gives_a_delta(item_id, output_index, summary, more.drop_last(), one);
        assert((summary + more).drop_last() =~= summary + more.drop_last());
        assert((summary + more).last() == more.last());
        assert(reasoning_deltas(item_id, output_index, summary + more) =~= reasoning_deltas(
            item_id,
            output_index,
            summary,
        ) + reasoning_deltas(item_id, output_index, more));
    }
    assert(seq![one].drop_last() =~= Seq::empty());
    assert(reasoning_deltas(item_id, output_index, seq![one].drop_last()) =~= Seq::empty());
    assert(seq![one].last() == one);
    if let Some(delta) = one {
        assert(reasoning_deltas(item_id, output_index, seq![one])
            =~= seq![responses::StreamEventView::ReasoningSummaryTextDelta {
            item_id,
            output_index,
            delta,
        }]);
    }
}

/// What an item with an id gives between its start and its end: a message its texts, a call
/// its whole arguments, and reasoning the texts of its summary. An item without an id gives
/// nothing there.
pub proof fn items_give_what_they_hold(
    output_index: nat,
    item: responses::ResponseOutputItemView,
    found: Seq<Option<Seq<char>>>,
)
    ensures
        item matches responses::ResponseOutputItemView::Message { id: Some(item_id), .. }
            ==> item_deltas(output_index, item, found) == text_deltas(item_id, output_index, found),
        item matches responses::ResponseOutputItemView::FunctionCall {
            id: Some(item_id),
            arguments,
            ..
        } ==> item_deltas(output_index, item, found)
            == seq![responses::StreamEventView::FunctionCallArgumentsDone {
            item_id,
            output_index,
            arguments,
            sequence_number: None,
        }],
        item matches responses::ResponseOutputItemView::Reasoning { id: Some(item_id), summary, .. }
            ==> item_deltas(output_index, item, found) == reasoning_deltas(
            item_id,
            output_index,
            summary,
        ),
        (item matches responses::ResponseOutputItemView::Message { id, .. } && id is None) || (
        item matches responses::ResponseOutputItemView::FunctionCall { id, .. } && id is None) || (
        item matches responses::ResponseOutputItemView::Reasoning { id, .. } && id is None) || item
            is Compaction || item is Unknown ==> item_deltas(output_index, item, found).len() == 0,
        item matches responses::ResponseOutputItemView::Message { content, .. } ==> item_texts(item)
            == content_texts(content),
        !(item is Message) ==> item_texts(item).len() == 0,
{
}

/// The events of an item begin with its start and end with its end, each with the whole item
/// at its place, and between them stands what it holds.
pub proof fn items_start_and_end(
    output_index: nat,
    item: responses::ResponseOutputItemView,
    found: Seq<Option<Seq<char>>>,
)
    ensures
        ({
            let events = item_events(output_index, item, found);
            &&& events.len() == item_deltas(output_index, item, found).len() + 2
            &&& events.first() == (responses::StreamEventView::OutputItemAdded {
                output_index,
                sequence_number: None,
                item,
            })
            &&& events.last() == (responses::StreamEventView::OutputItemDone {
                output_index,
                sequence_number: None,
                item,
            })
            &&& events.subrange(1, events.len() - 1) == item_deltas(output_index, item, found)
        }),
{
    let events = item_events(output_index, item, found);
    assert(events.subrange(1, events.len() - 1) =~= item_deltas(output_index, item, found));
}

/// The events of an answer's items come item by item, each with its own place and its own
/// texts; one more item adds its events at the end.
pub proof fn items_come_one_after_the_other(
    output: Seq<responses::ResponseOutputItemView>,
    item: responses::ResponseOutputItemView,
)
    ensures
        output_events(Seq::empty()).len() == 0,
        output_events(output.push(item)) == output_events(output) + item_events(
            output.len(),
            item,
            item_texts(item),
        ),
{
    assert(output.push(item).drop_last() =~= output);
}

/// An answer ends as its status says: incomplete or failed where it says so, and else
/// completed, with the whole answer. Before that it begins, and its items come.
pub proof fn answers_end_as_they_say(response: responses::ResponseSummaryView)
    ensures
        response.status == Some("incomplete"@) ==> final_event(response) == (
        responses::StreamEventView::Incomplete { response }),
        response.status == Some("failed"@) && response.status != Some("incomplete"@)
            ==> final_event(response) == (responses::StreamEventView::Failed { response }),
        response.status != Some("incomplete"@) && response.status != Some("failed"@)
            ==> final_event(response) == (responses::StreamEventView::Completed { response }),
        ({
            let events = summary_events(response);
            let count = output_events(response.output).len() as int;
            &&& events.len() == count + 3
            &&& events[0] == (responses::StreamEventView::Created { response })
            &&& events[1] == (responses::StreamEventView::InProgress { response })
            &&& events.subrange(2, 2 + count) == output_events(response.output)
            &&& events[2 + count] == final_event(response)
        }),
{
    let count = output_events(response.output).len() as int;
    assert(summary_events(response).subrange(2, 2 + count) =~= output_events(response.output));
}

} // verus!
