//! The Responses API: the requests, and the answers and events that come back.
use serde_json::Value;
use vstd::prelude::*;

use crate::json;
use crate::text;

verus! {

/// How hard a model is asked to reason.
#[derive(Clone, Copy, Debug, PartialEq, Eq, Structural)]
pub enum ReasoningEffort {
    Disabled,
    Minimal,
    Low,
    Medium,
    High,
    XHigh,
}

/// Who speaks in a message.
#[derive(Clone, Copy, Debug, PartialEq, Eq, Structural)]
pub enum Role {
    User,
    Assistant,
    System,
    Tool,
}

/// The bit pattern of a single-precision number that is handed on unread.
#[derive(Clone, Copy, Debug, PartialEq, Eq, Structural)]
pub struct FloatBits(pub u32);

/// A request to the Responses API. `service_tier` and `tool_choice` are kept in the
/// form in which they are sent.
#[derive(Debug)]
pub struct Request {
    pub model: String,
    pub instructions: Option<String>,
    pub input: Vec<ResponseInputItem>,
    pub include_fields: Vec<ResponseIncludable>,
    pub stream: bool,
    pub temperature: Option<FloatBits>,
    pub top_p: Option<FloatBits>,
    pub max_output_tokens: Option<u64>,
    pub parallel_tool_calls: Option<bool>,
    pub tool_choice: Option<Value>,
    pub tools: Vec<ToolDefinition>,
    pub prompt_cache_key: Option<String>,
    pub reasoning: Option<ReasoningConfig>,
    pub store: Option<bool>,
    pub service_tier: Option<String>,
    pub context_management: Option<Vec<ContextManagement>>,
}

/// Server-side context management configuration.
#[derive(Debug, Clone, Copy, PartialEq, Eq, Structural)]
pub enum ContextManagement {
    Compaction { compact_threshold: u64 },
}

#[derive(Debug, Clone, Copy, PartialEq, Eq, Structural)]
pub enum ResponseIncludable {
    ReasoningEncryptedContent,
}

#[derive(Debug)]
pub enum ResponseInputItem {
    Message(ResponseMessageItem),
    FunctionCall(ResponseFunctionCallItem),
    FunctionCallOutput(ResponseFunctionCallOutputItem),
    Reasoning(ResponseReasoningInputItem),
    Compaction(ResponseCompactionItem),
}

#[derive(Debug, Clone, PartialEq, Eq)]
pub struct ResponseCompactionItem {
    pub id: Option<String>,
    pub encrypted_content: String,
}

#[derive(Debug)]
pub struct ResponseMessageItem {
    pub role: Role,
    pub content: Vec<ResponseInputContent>,
    pub phase: Option<String>,
}

#[derive(Debug)]
pub struct ResponseFunctionCallItem {
    pub call_id: String,
    pub name: String,
    pub arguments: String,
}

#[derive(Debug)]
pub struct ResponseFunctionCallOutputItem {
    pub call_id: String,
    pub output: ResponseFunctionCallOutputContent,
}

#[derive(Debug, Clone, PartialEq, Eq)]
pub struct ResponseReasoningInputItem {
    pub id: Option<String>,
    pub summary: Vec<ResponseReasoningSummaryPart>,
    pub content: Vec<Value>,
    pub encrypted_content: Option<String>,
    pub status: Option<String>,
}

#[derive(Debug, Clone, PartialEq, Eq)]
pub enum ResponseReasoningSummaryPart {
    SummaryText { text: String },
}

#[derive(Debug)]
pub enum ResponseFunctionCallOutputContent {
    List(Vec<ResponseInputContent>),
    Text(String),
}

#[derive(Debug, Clone)]
pub enum ResponseInputContent {
    Text { text: String },
    Image { image_url: String },
    OutputText { text: String, annotations: Vec<Value> },
    Refusal { refusal: String },
}

#[derive(Debug)]
pub struct ReasoningConfig {
    pub effort: ReasoningEffort,
    pub summary: Option<ReasoningSummaryMode>,
}

#[derive(Debug, Clone, Copy, PartialEq, Eq, Structural)]
pub enum ReasoningSummaryMode {
    Auto,
    Concise,
    Detailed,
}

#[derive(Debug)]
pub enum ToolDefinition {
    Function {
        name: String,
        description: Option<String>,
        parameters: Option<Value>,
        strict: Option<bool>,
    },
}

#[derive(Debug, PartialEq, Eq)]
pub struct ResponseError {
    pub code: Option<String>,
    pub message: String,
    pub param: Option<Value>,
}

/// The model of a [`ResponseError`].
pub struct ResponseErrorView {
    pub code: Option<Seq<char>>,
    pub message: Seq<char>,
    pub param: Option<Value>,
}

impl View for ResponseError {
    type V = ResponseErrorView;

    open spec fn view(&self) -> ResponseErrorView {
        ResponseErrorView {
            code: text::optional_text(self.code),
            message: self.message@,
            param: self.param,
        }
    }
}

impl Clone for ResponseError {
    fn clone(&self) -> (copy: Self)
        ensures
            copy@ == self@,
    {
        ResponseError {
            code: self.code.clone(),
            message: self.message.clone(),
            param: self.param.clone(),
        }
    }
}

/// Payload of the top-level `error` event of the stream.
///
/// The error fields are documented to stand at the top level of the event, but often
/// come nested under an `error` object.
#[derive(Debug, PartialEq, Eq)]
pub struct GenericStreamErrorPayload {
    pub top_level: PartialResponseError,
    pub error: Option<PartialResponseError>,
}

/// The fields of an error, each of which may be missing.
#[derive(Debug, PartialEq, Eq)]
pub struct PartialResponseError {
    pub code: Option<String>,
    pub message: Option<String>,
    pub param: Option<Value>,
}

/// The model of a [`PartialResponseError`].
pub struct PartialResponseErrorView {
    pub code: Option<Seq<char>>,
    pub message: Option<Seq<char>>,
    pub param: Option<Value>,
}

/// The model of a [`GenericStreamErrorPayload`].
pub struct GenericStreamErrorPayloadView {
    pub top_level: PartialResponseErrorView,
    pub error: Option<PartialResponseErrorView>,
}

impl View for PartialResponseError {
    type V = PartialResponseErrorView;

    open spec fn view(&self) -> PartialResponseErrorView {
        PartialResponseErrorView {
            code: text::optional_text(self.code),
            message: text::optional_text(self.message),
            param: self.param,
        }
    }
}

impl View for GenericStreamErrorPayload {
    type V = GenericStreamErrorPayloadView;

    open spec fn view(&self) -> GenericStreamErrorPayloadView {
        GenericStreamErrorPayloadView {
            top_level: self.top_level@,
            error: match self.error {
                Some(error) => Some(error@),
                None => None,
            },
        }
    }
}

impl Default for PartialResponseError {
    fn default() -> (error: Self)
        ensures
            error@ == (PartialResponseErrorView { code: None, message: None, param: None }),
    {
        PartialResponseError { code: None, message: None, param: None }
    }
}

impl Clone for PartialResponseError {
    fn clone(&self) -> (copy: Self)
        ensures
            copy@ == self@,
    {
        PartialResponseError {
            code: self.code.clone(),
            message: self.message.clone(),
            param: self.param.clone(),
        }
    }
}

impl Default for GenericStreamErrorPayload {
    fn default() -> (payload: Self)
        ensures
            payload.top_level@ == (PartialResponseErrorView {
                code: None,
                message: None,
                param: None,
            }),
            payload.error is None,
    {
        GenericStreamErrorPayload { top_level: PartialResponseError::default(), error: None }
    }
}

impl Clone for GenericStreamErrorPayload {
    fn clone(&self) -> (copy: Self)
        ensures
            copy@ == self@,
    {
        let error = match &self.error {
            Some(error) => Some(error.clone()),
            None => None,
        };
        GenericStreamErrorPayload { top_level: self.top_level.clone(), error }
    }
}

/// The first of two optional values that is there.
pub open spec fn first_of<T>(first: Option<T>, second: Option<T>) -> Option<T> {
    match first {
        Some(_) => first,
        None => second,
    }
}

impl GenericStreamErrorPayloadView {
    /// The nested error, empty where there is none.
    pub open spec fn nested(self) -> PartialResponseErrorView {
        match self.error {
            Some(error) => error,
            None => PartialResponseErrorView { code: None, message: None, param: None },
        }
    }

    /// The error that the payload stands for: each field from the top level, else from
    /// the nested object; a message that is in neither is empty.
    pub open spec fn response_error(self) -> ResponseErrorView {
        ResponseErrorView {
            code: first_of(self.top_level.code, self.nested().code),
            message: match first_of(self.top_level.message, self.nested().message) {
                Some(message) => message,
                None => Seq::empty(),
            },
            param: first_of(self.top_level.param, self.nested().param),
        }
    }
}

fn or_else<T>(first: Option<T>, second: Option<T>) -> (chosen: Option<T>)
    ensures
        chosen == first_of(first, second),
{
    match first {
        Some(value) => Some(value),
        None => second,
    }
}

impl GenericStreamErrorPayload {
    /// The error that the payload stands for.
    pub fn into_response_error(self) -> (error: ResponseError)
        ensures
            error@ == self@.response_error(),
    {
        let nested = match self.error {
            Some(error) => error,
            None => PartialResponseError::default(),
        };
        let message = match or_else(self.top_level.message, nested.message) {
            Some(message) => message,
            None => String::new(),
        };
        ResponseError {
            code: or_else(self.top_level.code, nested.code),
            message,
            param: or_else(self.top_level.param, nested.param),
        }
    }
}

/// An event of a streamed answer.
#[derive(Debug, PartialEq, Eq)]
#[allow(inconsistent_fields)]
pub enum StreamEvent {
    Created { response: ResponseSummary },
    InProgress { response: ResponseSummary },
    OutputItemAdded {
        output_index: usize,
        sequence_number: Option<u64>,
        item: ResponseOutputItem,
    },
    OutputItemDone { output_index: usize, sequence_number: Option<u64>, item: ResponseOutputItem },
    ContentPartAdded { item_id: String, output_index: usize, content_index: usize, part: Value },
    ContentPartDone { item_id: String, output_index: usize, content_index: usize, part: Value },
    OutputTextDelta {
        item_id: String,
        output_index: usize,
        content_index: Option<usize>,
        delta: String,
    },
    OutputTextDone {
        item_id: String,
        output_index: usize,
        content_index: Option<usize>,
        text: String,
    },
    RefusalDelta {
        item_id: String,
        output_index: usize,
        content_index: usize,
        delta: String,
        sequence_number: Option<u64>,
    },
    RefusalDone {
        item_id: String,
        output_index: usize,
        content_index: usize,
        refusal: String,
        sequence_number: Option<u64>,
    },
    ReasoningSummaryPartAdded { item_id: String, output_index: usize, summary_index: usize },
    ReasoningSummaryTextDelta { item_id: String, output_index: usize, delta: String },
    ReasoningSummaryTextDone { item_id: String, output_index: usize, text: String },
    ReasoningSummaryPartDone { item_id: String, output_index: usize, summary_index: usize },
    FunctionCallArgumentsDelta {
        item_id: String,
        output_index: usize,
        delta: String,
        sequence_number: Option<u64>,
    },
    FunctionCallArgumentsDone {
        item_id: String,
        output_index: usize,
        arguments: String,
        sequence_number: Option<u64>,
    },
    Completed { response: ResponseSummary },
    Incomplete { response: ResponseSummary },
    Failed { response: ResponseSummary },
    Error { error: ResponseError },
    GenericError { error: GenericStreamErrorPayload },
    Unknown,
}

/// The model of a [`StreamEvent`].
#[allow(inconsistent_fields)]
pub enum StreamEventView {
    Created { response: ResponseSummaryView },
    InProgress { response: ResponseSummaryView },
    OutputItemAdded {
        output_index: nat,
        sequence_number: Option<u64>,
        item: ResponseOutputItemView,
    },
    OutputItemDone {
        output_index: nat,
        sequence_number: Option<u64>,
        item: ResponseOutputItemView,
    },
    ContentPartAdded { item_id: Seq<char>, output_index: nat, content_index: nat, part: Value },
    ContentPartDone { item_id: Seq<char>, output_index: nat, content_index: nat, part: Value },
    OutputTextDelta {
        item_id: Seq<char>,
        output_index: nat,
        content_index: Option<nat>,
        delta: Seq<char>,
    },
    OutputTextDone {
        item_id: Seq<char>,
        output_index: nat,
        content_index: Option<nat>,
        text: Seq<char>,
    },
    RefusalDelta {
        item_id: Seq<char>,
        output_index: nat,
        content_index: nat,
        delta: Seq<char>,
        sequence_number: Option<u64>,
    },
    RefusalDone {
        item_id: Seq<char>,
        output_index: nat,
        content_index: nat,
        refusal: Seq<char>,
        sequence_number: Option<u64>,
    },
    ReasoningSummaryPartAdded { item_id: Seq<char>, output_index: nat, summary_index: nat },
    ReasoningSummaryTextDelta { item_id: Seq<char>, output_index: nat, delta: Seq<char> },
    ReasoningSummaryTextDone { item_id: Seq<char>, output_index: nat, text: Seq<char> },
    ReasoningSummaryPartDone { item_id: Seq<char>, output_index: nat, summary_index: nat },
    FunctionCallArgumentsDelta {
        item_id: Seq<char>,
        output_index: nat,
        delta: Seq<char>,
        sequence_number: Option<u64>,
    },
    FunctionCallArgumentsDone {
        item_id: Seq<char>,
        output_index: nat,
        arguments: Seq<char>,
        sequence_number: Option<u64>,
    },
    Completed { response: ResponseSummaryView },
    Incomplete { response: ResponseSummaryView },
    Failed { response: ResponseSummaryView },
    Error { error: ResponseErrorView },
    GenericError { error: GenericStreamErrorPayloadView },
    Unknown,
}

/// The model of an optional index.
pub open spec fn optional_index(index: Option<usize>) -> Option<nat> {
    match index {
        Some(i) => Some(i as nat),
        None => None,
    }
}

impl View for StreamEvent {
    type V = StreamEventView;

    open spec fn view(&self) -> StreamEventView {
        match *self {
            StreamEvent::Created { response } => StreamEventView::Created { response: response@ },
            StreamEvent::InProgress { response } => StreamEventView::InProgress {
                response: response@,
            },
            StreamEvent::OutputItemAdded { output_index, sequence_number, item } =>
                StreamEventView::OutputItemAdded {
                output_index: output_index as nat,
                sequence_number,
                item: item@,
            },
            StreamEvent::OutputItemDone { output_index, sequence_number, item } =>
                StreamEventView::OutputItemDone {
                output_index: output_index as nat,
                sequence_number,
                item: item@,
            },
            StreamEvent::ContentPartAdded { item_id, output_index, content_index, part } =>
                StreamEventView::ContentPartAdded {
                item_id: item_id@,
                output_index: output_index as nat,
                content_index: content_index as nat,
                part,
            },
            StreamEvent::ContentPartDone { item_id, output_index, content_index, part } =>
                StreamEventView::ContentPartDone {
                item_id: item_id@,
                output_index: output_index as nat,
                content_index: content_index as nat,
                part,
            },
            StreamEvent::OutputTextDelta { item_id, output_index, content_index, delta } =>
                StreamEventView::OutputTextDelta {
                item_id: item_id@,
                output_index: output_index as nat,
                content_index: optional_index(content_index),
                delta: delta@,
            },
            StreamEvent::OutputTextDone { item_id, output_index, content_index, text } =>
                StreamEventView::OutputTextDone {
                item_id: item_id@,
                output_index: output_index as nat,
                content_index: optional_index(content_index),
                text: text@,
            },
            StreamEvent::RefusalDelta {
                item_id,
                output_index,
                content_index,
                delta,
                sequence_number,
            } => StreamEventView::RefusalDelta {
                item_id: item_id@,
                output_index: output_index as nat,
                content_index: content_index as nat,
                delta: delta@,
                sequence_number,
            },
            StreamEvent::RefusalDone {
                item_id,
                output_index,
                content_index,
                refusal,
                sequence_number,
            } => StreamEventView::RefusalDone {
                item_id: item_id@,
                output_index: output_index as nat,
                content_index: content_index as nat,
                refusal: refusal@,
                sequence_number,
            },
            StreamEvent::ReasoningSummaryPartAdded { item_id, output_index, summary_index } =>
                StreamEventView::ReasoningSummaryPartAdded {
                item_id: item_id@,
                output_index: output_index as nat,
                summary_index: summary_index as nat,
            },
            StreamEvent::ReasoningSummaryTextDelta { item_id, output_index, delta } =>
                StreamEventView::ReasoningSummaryTextDelta {
                item_id: item_id@,
                output_index: output_index as nat,
                delta: delta@,
            },
            StreamEvent::ReasoningSummaryTextDone { item_id, output_index, text } =>
                StreamEventView::ReasoningSummaryTextDone {
                item_id: item_id@,
                output_index: output_index as nat,
                text: text@,
            },
            StreamEvent::ReasoningSummaryPartDone { item_id, output_index, summary_index } =>
                StreamEventView::ReasoningSummaryPartDone {
                item_id: item_id@,
                output_index: output_index as nat,
                summary_index: summary_index as nat,
            },
            StreamEvent::FunctionCallArgumentsDelta {
                item_id,
                output_index,
                delta,
                sequence_number,
            } => StreamEventView::FunctionCallArgumentsDelta {
                item_id: item_id@,
                output_index: output_index as nat,
                delta: delta@,
                sequence_number,
            },
            StreamEvent::FunctionCallArgumentsDone {
                item_id,
                output_index,
                arguments,
                sequence_number,
            } => StreamEventView::FunctionCallArgumentsDone {
                item_id: item_id@,
                output_index: output_index as nat,
                arguments: arguments@,
                sequence_number,
            },
            StreamEvent::Completed { response } => StreamEventView::Completed {
                response: response@,
            },
            StreamEvent::Incomplete { response } => StreamEventView::Incomplete {
                response: response@,
            },
            StreamEvent::Failed { response } => StreamEventView::Failed { response: response@ },
            StreamEvent::Error { error } => StreamEventView::Error { error: error@ },
            StreamEvent::GenericError { error } => StreamEventView::GenericError { error: error@ },
            StreamEvent::Unknown => StreamEventView::Unknown,
        }
    }
}

/// What the service says of an answer as a whole.
#[derive(Debug, PartialEq, Eq)]
pub struct ResponseSummary {
    pub id: Option<String>,
    pub status: Option<String>,
    pub incomplete_details: Option<ResponseIncompleteDetails>,
    pub error: Option<ResponseError>,
    pub usage: Option<ResponseUsage>,
    pub output: Vec<ResponseOutputItem>,
    pub service_tier: Option<String>,
}

/// The model of a [`ResponseSummary`].
pub struct ResponseSummaryView {
    pub id: Option<Seq<char>>,
    pub status: Option<Seq<char>>,
    /// The reason is missing with or without the details that would hold it.
    pub incomplete_details: Option<Option<Seq<char>>>,
    pub error: Option<ResponseErrorView>,
    pub usage: Option<ResponseUsage>,
    pub output: Seq<ResponseOutputItemView>,
    pub service_tier: Option<Seq<char>>,
}

/// The models of a list of output items.
pub open spec fn item_views(items: Seq<ResponseOutputItem>) -> Seq<ResponseOutputItemView> {
    items.map_values(|item: ResponseOutputItem| item@)
}

impl View for ResponseSummary {
    type V = ResponseSummaryView;

    open spec fn view(&self) -> ResponseSummaryView {
        ResponseSummaryView {
            id: text::optional_text(self.id),
            status: text::optional_text(self.status),
            incomplete_details: match self.incomplete_details {
                Some(details) => Some(text::optional_text(details.reason)),
                None => None,
            },
            error: match self.error {
                Some(error) => Some(error@),
                None => None,
            },
            usage: self.usage,
            output: item_views(self.output@),
            service_tier: text::optional_text(self.service_tier),
        }
    }
}

impl Default for ResponseSummary {
    fn default() -> (summary: Self)
        ensures
            summary@ == (ResponseSummaryView {
                id: None,
                status: None,
                incomplete_details: None,
                error: None,
                usage: None,
                output: Seq::empty(),
                service_tier: None,
            }),
    {
        let summary = ResponseSummary {
            id: None,
            status: None,
            incomplete_details: None,
            error: None,
            usage: None,
            output: Vec::new(),
            service_tier: None,
        };
        assert(summary@.output =~= Seq::empty());
        summary
    }
}

impl Clone for ResponseSummary {
    fn clone(&self) -> (copy: Self)
        ensures
            copy@ == self@,
    {
        let incomplete_details = match &self.incomplete_details {
            Some(details) => Some(ResponseIncompleteDetails { reason: details.reason.clone() }),
            None => None,
        };
        let error = match &self.error {
            Some(error) => Some(error.clone()),
            None => None,
        };
        ResponseSummary {
            id: self.id.clone(),
            status: self.status.clone(),
            incomplete_details,
            error,
            usage: self.usage,
            output: copy_items(&self.output),
            service_tier: self.service_tier.clone(),
        }
    }
}

/// Copies a list of output items.
pub fn copy_items(items: &Vec<ResponseOutputItem>) -> (copy: Vec<ResponseOutputItem>)
    ensures
        item_views(copy@) == item_views(items@),
{
    let mut copy: Vec<ResponseOutputItem> = Vec::new();
    let mut i: usize = 0;
    while i < items.len()
        invariant
            i <= items.len(),
            copy.len() == i,
            forall|j: int| 0 <= j < i ==> #[trigger] copy@[j]@ == items@[j]@,
        decreases items.len() - i,
    {
        copy.push(items[i].clone());
        i += 1;
    }
    assert(item_views(copy@) =~= item_views(items@));
    copy
}

/// Why an answer stopped early.
#[derive(Debug, Clone, PartialEq, Eq)]
pub struct ResponseIncompleteDetails {
    pub reason: Option<String>,
}

/// The tokens that an answer took.
#[derive(Debug, Clone, Copy, PartialEq, Eq, Structural)]
pub struct ResponseUsage {
    pub input_tokens: Option<u64>,
    pub input_tokens_details: ResponseInputTokensDetails,
    pub output_tokens: Option<u64>,
    pub output_tokens_details: ResponseOutputTokensDetails,
    pub total_tokens: Option<u64>,
}

#[derive(Debug, Clone, Copy, PartialEq, Eq, Structural)]
pub struct ResponseInputTokensDetails {
    pub cached_tokens: u64,
}

#[derive(Debug, Clone, Copy, PartialEq, Eq, Structural)]
pub struct ResponseOutputTokensDetails {
    pub reasoning_tokens: u64,
}

impl Default for ResponseIncompleteDetails {
    fn default() -> (details: Self)
        ensures
            details.reason is None,
    {
        ResponseIncompleteDetails { reason: None }
    }
}

impl Default for ResponseUsage {
    fn default() -> (usage: Self)
        ensures
            usage.input_tokens is None,
            usage.input_tokens_details.cached_tokens == 0,
            usage.output_tokens is None,
            usage.output_tokens_details.reasoning_tokens == 0,
            usage.total_tokens is None,
    {
        ResponseUsage {
            input_tokens: None,
            input_tokens_details: ResponseInputTokensDetails::default(),
            output_tokens: None,
            output_tokens_details: ResponseOutputTokensDetails::default(),
            total_tokens: None,
        }
    }
}

impl Default for ResponseInputTokensDetails {
    fn default() -> (details: Self)
        ensures
            details.cached_tokens == 0,
    {
        ResponseInputTokensDetails { cached_tokens: 0 }
    }
}

impl Default for ResponseOutputTokensDetails {
    fn default() -> (details: Self)
        ensures
            details.reasoning_tokens == 0,
    {
        ResponseOutputTokensDetails { reasoning_tokens: 0 }
    }
}

/// One item of an answer's output.
#[derive(Debug, PartialEq, Eq)]
pub enum ResponseOutputItem {
    Message(ResponseOutputMessage),
    FunctionCall(ResponseFunctionToolCall),
    Reasoning(ResponseReasoningItem),
    Compaction(ResponseCompactionItem),
    Unknown,
}

#[derive(Debug, Clone, PartialEq, Eq)]
pub struct ResponseReasoningItem {
    pub id: Option<String>,
    pub summary: Vec<ReasoningSummaryPart>,
    pub content: Vec<Value>,
    pub encrypted_content: Option<String>,
    pub status: Option<String>,
}

#[derive(Debug, Clone, PartialEq, Eq)]
pub enum ReasoningSummaryPart {
    SummaryText { text: String },
    Unknown,
}

#[derive(Debug, Clone, PartialEq, Eq)]
pub struct ResponseOutputMessage {
    pub id: Option<String>,
    pub content: Vec<Value>,
    pub role: Option<String>,
    pub status: Option<String>,
    pub phase: Option<String>,
}

#[derive(Debug, Clone, PartialEq, Eq)]
pub struct ResponseFunctionToolCall {
    pub id: Option<String>,
    pub arguments: String,
    pub call_id: Option<String>,
    pub name: Option<String>,
    pub status: Option<String>,
}

/// The model of a [`ReasoningSummaryPart`]: its text, where it has one.
pub open spec fn summary_part_text(part: ReasoningSummaryPart) -> Option<Seq<char>> {
    match part {
        ReasoningSummaryPart::SummaryText { text } => Some(text@),
        ReasoningSummaryPart::Unknown => None,
    }
}

/// The models of a list of summary parts.
pub open spec fn summary_part_texts(parts: Seq<ReasoningSummaryPart>) -> Seq<Option<Seq<char>>> {
    parts.map_values(|part: ReasoningSummaryPart| summary_part_text(part))
}

/// The model of a [`ResponseOutputItem`].
#[allow(inconsistent_fields)]
pub enum ResponseOutputItemView {
    Message {
        id: Option<Seq<char>>,
        content: Seq<Value>,
        role: Option<Seq<char>>,
        status: Option<Seq<char>>,
        phase: Option<Seq<char>>,
    },
    FunctionCall {
        id: Option<Seq<char>>,
        arguments: Seq<char>,
        call_id: Option<Seq<char>>,
        name: Option<Seq<char>>,
        status: Option<Seq<char>>,
    },
    Reasoning {
        id: Option<Seq<char>>,
        summary: Seq<Option<Seq<char>>>,
        content: Seq<Value>,
        encrypted_content: Option<Seq<char>>,
        status: Option<Seq<char>>,
    },
    Compaction { id: Option<Seq<char>>, encrypted_content: Seq<char> },
    Unknown,
}

impl View for ResponseOutputItem {
    type V = ResponseOutputItemView;

    open spec fn view(&self) -> ResponseOutputItemView {
        match *self {
            ResponseOutputItem::Message(message) => ResponseOutputItemView::Message {
                id: text::optional_text(message.id),
                content: message.content@,
                role: text::optional_text(message.role),
                status: text::optional_text(message.status),
                phase: text::optional_text(message.phase),
            },
            ResponseOutputItem::FunctionCall(call) => ResponseOutputItemView::FunctionCall {
                id: text::optional_text(call.id),
                arguments: call.arguments@,
                call_id: text::optional_text(call.call_id),
                name: text::optional_text(call.name),
                status: text::optional_text(call.status),
            },
            ResponseOutputItem::Reasoning(reasoning) => ResponseOutputItemView::Reasoning {
                id: text::optional_text(reasoning.id),
                summary: summary_part_texts(reasoning.summary@),
                content: reasoning.content@,
                encrypted_content: text::optional_text(reasoning.encrypted_content),
                status: text::optional_text(reasoning.status),
            },
            ResponseOutputItem::Compaction(compaction) => ResponseOutputItemView::Compaction {
                id: text::optional_text(compaction.id),
                encrypted_content: compaction.encrypted_content@,
            },
            ResponseOutputItem::Unknown => ResponseOutputItemView::Unknown,
        }
    }
}

fn copy_summary_parts(parts: &Vec<ReasoningSummaryPart>) -> (copy: Vec<ReasoningSummaryPart>)
    ensures
        summary_part_texts(copy@) == summary_part_texts(parts@),
{
    let mut copy: Vec<ReasoningSummaryPart> = Vec::new();
    let mut i: usize = 0;
    while i < parts.len()
        invariant
            i <= parts.len(),
            copy.len() == i,
            forall|j: int|
                0 <= j < i ==> summary_part_text(#[trigger] copy@[j]) == summary_part_text(parts@[j]),
        decreases parts.len() - i,
    {
        let part = match &parts[i] {
            ReasoningSummaryPart::SummaryText { text } => ReasoningSummaryPart::SummaryText {
                text: text.clone(),
            },
            ReasoningSummaryPart::Unknown => ReasoningSummaryPart::Unknown,
        };
        copy.push(part);
        i += 1;
    }
    assert(summary_part_texts(copy@) =~= summary_part_texts(parts@));
    copy
}

impl Clone for ResponseOutputItem {
    fn clone(&self) -> (copy: Self)
        ensures
            copy@ == self@,
    {
        match self {
            ResponseOutputItem::Message(message) => ResponseOutputItem::Message(
                ResponseOutputMessage {
                    id: message.id.clone(),
                    content: json::copy_values(&message.content),
                    role: message.role.clone(),
                    status: message.status.clone(),
                    phase: message.phase.clone(),
                },
            ),
            ResponseOutputItem::FunctionCall(call) => ResponseOutputItem::FunctionCall(
                ResponseFunctionToolCall {
                    id: call.id.clone(),
                    arguments: call.arguments.clone(),
                    call_id: call.call_id.clone(),
                    name: call.name.clone(),
                    status: call.status.clone(),
                },
            ),
            ResponseOutputItem::Reasoning(reasoning) => ResponseOutputItem::Reasoning(
                ResponseReasoningItem {
                    id: reasoning.id.clone(),
                    summary: copy_summary_parts(&reasoning.summary),
                    content: json::copy_values(&reasoning.content),
                    encrypted_content: reasoning.encrypted_content.clone(),
                    status: reasoning.status.clone(),
                },
            ),
            ResponseOutputItem::Compaction(compaction) => ResponseOutputItem::Compaction(
                ResponseCompactionItem {
                    id: compaction.id.clone(),
                    encrypted_content: compaction.encrypted_content.clone(),
                },
            ),
            ResponseOutputItem::Unknown => ResponseOutputItem::Unknown,
        }
    }
}

/// An error is seen whole, and so are the parts of one that came in a stream.
pub proof fn errors_are_seen_whole(
    error: ResponseError,
    partial: PartialResponseError,
    payload: GenericStreamErrorPayload,
)
    ensures
        error@.code == text::optional_text(error.code),
        error@.message == error.message@,
        error@.param == error.param,
        partial@.code == text::optional_text(partial.code),
        partial@.message == text::optional_text(partial.message),
        partial@.param == partial.param,
        payload@.top_level == payload.top_level@,
        payload.error is None ==> payload@.error is None,
        payload.error matches Some(nested) ==> payload@.error == Some(nested@),
{
}

/// Of an error in a stream each part is taken from the top where it is there, and else from
/// the error within; only a message that is nowhere is empty.
pub proof fn errors_are_taken_from_the_top_first(payload: GenericStreamErrorPayloadView)
    ensures
        ({
            let error = payload.response_error();
            &&& payload.top_level.code is Some ==> error.code == payload.top_level.code
            &&& payload.top_level.message matches Some(message) ==> error.message == message
            &&& payload.top_level.param is Some ==> error.param == payload.top_level.param
            &&& payload.error matches Some(nested) ==> {
                &&& payload.top_level.code is None ==> error.code == nested.code
                &&& payload.top_level.message is None && nested.message is Some ==> Some(
                    error.message,
                ) == nested.message
                &&& payload.top_level.message is None && nested.message is None
                    ==> error.message.len() == 0
                &&& payload.top_level.param is None ==> error.param == nested.param
            }
            &&& payload.error is None ==> {
                &&& payload.top_level.code is None ==> error.code is None
                &&& payload.top_level.message is None ==> error.message.len() == 0
                &&& payload.top_level.param is None ==> error.param is None
            }
        }),
{
}

/// The first of two that is there is taken.
pub proof fn the_first_that_is_there_is_taken<T>(first: Option<T>, second: Option<T>)
    ensures
        first is Some ==> first_of(first, second) == first,
        first is None ==> first_of(first, second) == second,
{
}

/// An event of a stream is seen whole: its kind, its places and its text.
pub proof fn stream_events_are_seen_whole(event: StreamEvent)
    ensures
        event@ == (match event {
            StreamEvent::Created { response } => StreamEventView::Created { response: response@ },
            StreamEvent::InProgress { response } => StreamEventView::InProgress {
                response: response@,
            },
            StreamEvent::OutputItemAdded { output_index, sequence_number, item } =>
                StreamEventView::OutputItemAdded {
                output_index: output_index as nat,
                sequence_number,
                item: item@,
            },
            StreamEvent::OutputItemDone { output_index, sequence_number, item } =>
                StreamEventView::OutputItemDone {
                output_index: output_index as nat,
                sequence_number,
                item: item@,
            },
            StreamEvent::ContentPartAdded { item_id, output_index, content_index, part } =>
                StreamEventView::ContentPartAdded {
                item_id: item_id@,
                output_index: output_index as nat,
                content_index: content_index as nat,
                part,
            },
            StreamEvent::ContentPartDone { item_id, output_index, content_index, part } =>
                StreamEventView::ContentPartDone {
                item_id: item_id@,
                output_index: output_index as nat,
                content_index: content_index as nat,
                part,
            },
            StreamEvent::OutputTextDelta { item_id, output_index, content_index, delta } =>
                StreamEventView::OutputTextDelta {
                item_id: item_id@,
                output_index: output_index as nat,
                content_index: optional_index(content_index),
                delta: delta@,
            },
            StreamEvent::OutputTextDone { item_id, output_index, content_index, text } =>
                StreamEventView::OutputTextDone {
                item_id: item_id@,
                output_index: output_index as nat,
                content_index: optional_index(content_index),
                text: text@,
            },
            StreamEvent::RefusalDelta {
                item_id,
                output_index,
                content_index,
                delta,
                sequence_number,
            } => StreamEventView::RefusalDelta {
                item_id: item_id@,
                output_index: output_index as nat,
                content_index: content_index as nat,
                delta: delta@,
                sequence_number,
            },
            StreamEvent::RefusalDone {
                item_id,
                output_index,
                content_index,
                refusal,
                sequence_number,
            } => StreamEventView::RefusalDone {
                item_id: item_id@,
                output_index: output_index as nat,
                content_index: content_index as nat,
                refusal: refusal@,
                sequence_number,
            },
            StreamEvent::ReasoningSummaryPartAdded { item_id, output_index, summary_index } =>
                StreamEventView::ReasoningSummaryPartAdded {
                item_id: item_id@,
                output_index: output_index as nat,
                summary_index: summary_index as nat,
            },
            StreamEvent::ReasoningSummaryTextDelta { item_id, output_index, delta } =>
                StreamEventView::ReasoningSummaryTextDelta {
                item_id: item_id@,
                output_index: output_index as nat,
                delta: delta@,
            },
            StreamEvent::ReasoningSummaryTextDone { item_id, output_index, text } =>
                StreamEventView::ReasoningSummaryTextDone {
                item_id: item_id@,
                output_index: output_index as nat,
                text: text@,
            },
            StreamEvent::ReasoningSummaryPartDone { item_id, output_index, summary_index } =>
                StreamEventView::ReasoningSummaryPartDone {
                item_id: item_id@,
                output_index: output_index as nat,
                summary_index: summary_index as nat,
            },
            StreamEvent::FunctionCallArgumentsDelta {
                item_id,
                output_index,
                delta,
                sequence_number,
            } => StreamEventView::FunctionCallArgumentsDelta {
                item_id: item_id@,
                output_index: output_index as nat,
                delta: delta@,
                sequence_number,
            },
            StreamEvent::FunctionCallArgumentsDone {
                item_id,
                output_index,
                arguments,
                sequence_number,
            } => StreamEventView::FunctionCallArgumentsDone {
                item_id: item_id@,
                output_index: output_index as nat,
                arguments: arguments@,
                sequence_number,
            },
            StreamEvent::Completed { response } => StreamEventView::Completed {
                response: response@,
            },
            StreamEvent::Incomplete { response } => StreamEventView::Incomplete {
                response: response@,
            },
            StreamEvent::Failed { response } => StreamEventView::Failed { response: response@ },
            StreamEvent::Error { error } => StreamEventView::Error { error: error@ },
            StreamEvent::GenericError { error } => StreamEventView::GenericError { error: error@ },
            StreamEvent::Unknown => StreamEventView::Unknown,
        }),
        forall|i: usize| #[trigger] optional_index(Some(i)) == Some(i as nat),
        optional_index(None) is None,
{
}

/// An item of an answer is seen whole.
pub proof fn items_are_seen_whole(item: ResponseOutputItem)
    ensures
        item@ == (match item {
            ResponseOutputItem::Message(message) => ResponseOutputItemView::Message {
                id: text::optional_text(message.id),
                content: message.content@,
                role: text::optional_text(message.role),
                status: text::optional_text(message.status),
                phase: text::optional_text(message.phase),
            },
            ResponseOutputItem::FunctionCall(call) => ResponseOutputItemView::FunctionCall {
                id: text::optional_text(call.id),
                arguments: call.arguments@,
                call_id: text::optional_text(call.call_id),
                name: text::optional_text(call.name),
                status: text::optional_text(call.status),
            },
            ResponseOutputItem::Reasoning(reasoning) => ResponseOutputItemView::Reasoning {
                id: text::optional_text(reasoning.id),
                summary: summary_part_texts(reasoning.summary@),
                content: reasoning.content@,
                encrypted_content: text::optional_text(reasoning.encrypted_content),
                status: text::optional_text(reasoning.status),
            },
            ResponseOutputItem::Compaction(compaction) => ResponseOutputItemView::Compaction {
                id: text::optional_text(compaction.id),
                encrypted_content: compaction.encrypted_content@,
            },
            ResponseOutputItem::Unknown => ResponseOutputItemView::Unknown,
        }),
{
}

/// In a list each item is seen at its place, and so is each part of a summary; a part that
/// is not known has no text.
pub proof fn items_are_seen_in_place(
    items: Seq<ResponseOutputItem>,
    parts: Seq<ReasoningSummaryPart>,
)
    ensures
        item_views(items).len() == items.len(),
        forall|i: int| 0 <= i < items.len() ==> #[trigger] item_views(items)[i] == items[i]@,
        summary_part_texts(parts).len() == parts.len(),
        forall|i: int|
            0 <= i < parts.len() ==> (#[trigger] summary_part_texts(parts)[i] is None <==> parts[i]
                is Unknown),
        forall|i: int|
            0 <= i < parts.len() ==> (parts[i] matches ReasoningSummaryPart::SummaryText { text }
                ==> #[trigger] summary_part_texts(parts)[i] == Some(text@)),
{
}

/// An answer is seen whole.
pub proof fn answers_are_seen_whole(summary: ResponseSummary)
    ensures
        summary@.id == text::optional_text(summary.id),
        summary@.status == text::optional_text(summary.status),
        summary.incomplete_details is None ==> summary@.incomplete_details is None,
        summary.incomplete_details matches Some(details) ==> summary@.incomplete_details == Some(
            text::optional_text(details.reason),
        ),
        summary.error is None ==> summary@.error is None,
        summary.error matches Some(error) ==> summary@.error == Some(error@),
        summary@.usage == summary.usage,
        summary@.output == item_views(summary.output@),
        summary@.service_tier == text::optional_text(summary.service_tier),
{
}

} // verus!
