//! The models behind a ChatGPT subscription, and the requests that their service takes.
use vstd::prelude::*;
use vstd::string::StringExecFns;

use crate::responses::{
    ReasoningEffort, Request, ResponseInputContent, ResponseInputItem, Role,
};
use crate::text;

verus! {

pub const CODEX_BASE_URL: &'static str = "https://chatgpt.com/backend-api/codex";

/// A model that a subscription gives access to.
#[derive(Clone, Copy, Debug, PartialEq, Eq, Structural)]
pub enum ChatGptModel {
    Gpt55,
    Gpt54,
    Gpt54Mini,
}

/// How many requests to a model run at once.
pub const MAX_CONCURRENT_REQUESTS: usize = 4;

/// All models, the preferred one first.
pub open spec fn all_models() -> Seq<ChatGptModel> {
    seq![ChatGptModel::Gpt55, ChatGptModel::Gpt54, ChatGptModel::Gpt54Mini]
}

/// The efforts that every model can be asked for.
pub open spec fn supported_efforts() -> Seq<ReasoningEffort> {
    seq![
        ReasoningEffort::Low,
        ReasoningEffort::Medium,
        ReasoningEffort::High,
        ReasoningEffort::XHigh,
    ]
}

/// What a request to a model is made with.
#[derive(Debug, PartialEq, Eq)]
pub struct CompletionSettings<S> {
    /// The name by which the service knows the model.
    pub model: &'static str,
    pub supports_parallel_tool_calls: bool,
    pub supports_prompt_cache_key: bool,
    pub max_output_tokens: Option<u64>,
    pub default_reasoning_effort: Option<ReasoningEffort>,
    pub supports_disabled_reasoning: bool,
    pub speed: Option<S>,
}

impl ChatGptModel {
    /// The name by which the service knows the model.
    pub open spec fn id_text(self) -> Seq<char> {
        match self {
            ChatGptModel::Gpt55 => "gpt-5.5"@,
            ChatGptModel::Gpt54 => "gpt-5.4"@,
            ChatGptModel::Gpt54Mini => "gpt-5.4-mini"@,
        }
    }

    pub fn all() -> (models: Vec<Self>)
        ensures
            models@ == all_models(),
    {
        let models = vec![ChatGptModel::Gpt55, ChatGptModel::Gpt54, ChatGptModel::Gpt54Mini];
        assert(models@ =~= all_models());
        models
    }

    pub fn id(&self) -> (id: &'static str)
        ensures
            id@ == self.id_text(),
    {
        match self {
            ChatGptModel::Gpt55 => "gpt-5.5",
            ChatGptModel::Gpt54 => "gpt-5.4",
            ChatGptModel::Gpt54Mini => "gpt-5.4-mini",
        }
    }

    pub fn display_name(&self) -> (name: &'static str)
        ensures
            name@ == (match *self {
                ChatGptModel::Gpt55 => "GPT-5.5"@,
                ChatGptModel::Gpt54 => "GPT-5.4"@,
                ChatGptModel::Gpt54Mini => "GPT-5.4 Mini"@,
            }),
    {
        match self {
            ChatGptModel::Gpt55 => "GPT-5.5",
            ChatGptModel::Gpt54 => "GPT-5.4",
            ChatGptModel::Gpt54Mini => "GPT-5.4 Mini",
        }
    }

    pub fn telemetry_id(&self) -> (id: String)
        ensures
            id@ == "openai-subscribed/"@ + self.id_text(),
    {
        let mut id = "openai-subscribed/".to_string();
        id.append(self.id());
        id
    }

    /// The size of the context window. The service gives every model the same one, even
    /// where the model could take more.
    pub fn max_token_count(&self) -> (count: u64)
        ensures
            count == 272_000,
    {
        272_000
    }

    /// The service states no limit on the output.
    pub fn max_output_tokens(&self) -> (count: Option<u64>)
        ensures
            count is None,
    {
        None
    }

    pub fn supports_images(&self) -> (supported: bool)
        ensures
            supported,
    {
        true
    }

    pub fn default_reasoning_effort(&self) -> (effort: Option<ReasoningEffort>)
        ensures
            effort == Some(ReasoningEffort::Medium),
    {
        Some(ReasoningEffort::Medium)
    }

    pub fn supported_reasoning_efforts(&self) -> (efforts: Vec<ReasoningEffort>)
        ensures
            efforts@ == supported_efforts(),
    {
        let efforts = vec![
            ReasoningEffort::Low,
            ReasoningEffort::Medium,
            ReasoningEffort::High,
            ReasoningEffort::XHigh,
        ];
        assert(efforts@ =~= supported_efforts());
        efforts
    }

    pub fn supports_parallel_tool_calls(&self) -> (supported: bool)
        ensures
            supported,
    {
        true
    }

    pub fn supports_prompt_cache_key(&self) -> (supported: bool)
        ensures
            supported,
    {
        true
    }

    /// Whether requests can be sent with priority.
    pub fn supports_priority(&self) -> (supported: bool)
        ensures
            supported == (*self != ChatGptModel::Gpt54Mini),
    {
        match self {
            ChatGptModel::Gpt55 => true,
            ChatGptModel::Gpt54 => true,
            ChatGptModel::Gpt54Mini => false,
        }
    }

    /// The speed to ask for: none where requests cannot be sent with priority.
    pub fn request_speed<S>(&self, speed: Option<S>) -> (kept: Option<S>)
        ensures
            kept == (if *self == ChatGptModel::Gpt54Mini {
                None
            } else {
                speed
            }),
    {
        if self.supports_priority() {
            speed
        } else {
            None
        }
    }

    /// Whether the model can be asked not to reason.
    pub fn supports_disabled_reasoning(&self) -> (supported: bool)
        ensures
            supported == supported_efforts().contains(ReasoningEffort::Disabled),
    {
        let efforts = self.supported_reasoning_efforts();
        let mut i: usize = 0;
        while i < efforts.len()
            invariant
                efforts@ == supported_efforts(),
                i <= efforts.len(),
                forall|j: int| 0 <= j < i ==> efforts@[j] != ReasoningEffort::Disabled,
            decreases efforts.len() - i,
        {
            if efforts[i] == ReasoningEffort::Disabled {
                assert(supported_efforts()[i as int] == ReasoningEffort::Disabled);
                return true;
            }
            i += 1;
        }
        false
    }

    /// What a request to the model is made with.
    pub fn completion_settings<S>(&self, speed: Option<S>) -> (settings: CompletionSettings<S>)
        ensures
            settings.model@ == self.id_text(),
            settings.supports_parallel_tool_calls,
            settings.supports_prompt_cache_key,
            settings.max_output_tokens is None,
            settings.default_reasoning_effort == Some(ReasoningEffort::Medium),
            settings.supports_disabled_reasoning == supported_efforts().contains(
                ReasoningEffort::Disabled,
            ),
            settings.speed == (if *self == ChatGptModel::Gpt54Mini {
                None
            } else {
                speed
            }),
    {
        CompletionSettings {
            model: self.id(),
            supports_parallel_tool_calls: self.supports_parallel_tool_calls(),
            supports_prompt_cache_key: self.supports_prompt_cache_key(),
            max_output_tokens: None,
            default_reasoning_effort: self.default_reasoning_effort(),
            supports_disabled_reasoning: self.supports_disabled_reasoning(),
            speed: self.request_speed(speed),
        }
    }

    /// The efforts that the user can choose from.
    pub fn supported_effort_levels(&self) -> (levels: Vec<EffortLevel>)
        ensures
            levels@ == effort_levels_of(supported_efforts(), Some(ReasoningEffort::Medium)),
    {
        effort_levels(&self.supported_reasoning_efforts(), self.default_reasoning_effort())
    }
}

/// An effort that the user can choose.
#[derive(Clone, Copy, Debug, PartialEq, Eq)]
pub struct EffortLevel {
    pub name: &'static str,
    pub value: &'static str,
    pub is_default: bool,
}

/// The choice for an effort; there is none for no effort at all.
pub open spec fn effort_level_of(
    effort: ReasoningEffort,
    default_effort: Option<ReasoningEffort>,
) -> Option<EffortLevel> {
    let is_default = Some(effort) == default_effort;
    match effort {
        ReasoningEffort::Disabled => None,
        ReasoningEffort::Minimal => Some(
            EffortLevel { name: "Minimal", value: "minimal", is_default },
        ),
        ReasoningEffort::Low => Some(EffortLevel { name: "Low", value: "low", is_default }),
        ReasoningEffort::Medium => Some(
            EffortLevel { name: "Medium", value: "medium", is_default },
        ),
        ReasoningEffort::High => Some(EffortLevel { name: "High", value: "high", is_default }),
        ReasoningEffort::XHigh => Some(
            EffortLevel { name: "Extra High", value: "xhigh", is_default },
        ),
    }
}

/// The choices for efforts, in their order.
pub open spec fn effort_levels_of(
    efforts: Seq<ReasoningEffort>,
    default_effort: Option<ReasoningEffort>,
) -> Seq<EffortLevel>
    decreases efforts.len(),
{
    if efforts.len() == 0 {
        Seq::empty()
    } else {
        let before = effort_levels_of(efforts.drop_last(), default_effort);
        match effort_level_of(efforts.last(), default_effort) {
            Some(level) => before.push(level),
            None => before,
        }
    }
}

/// Lists the choices for efforts.
pub fn effort_levels(
    efforts: &Vec<ReasoningEffort>,
    default_effort: Option<ReasoningEffort>,
) -> (levels: Vec<EffortLevel>)
    ensures
        levels@ == effort_levels_of(efforts@, default_effort),
{
    let mut levels: Vec<EffortLevel> = Vec::new();
    assert(efforts@.take(0) =~= Seq::empty());
    let mut i: usize = 0;
    while i < efforts.len()
        invariant
            i <= efforts.len(),
            levels@ == effort_levels_of(efforts@.take(i as int), default_effort),
        decreases efforts.len() - i,
    {
        proof {
            let next = efforts@.take(i + 1);
            assert(next.drop_last() =~= efforts@.take(i as int));
            assert(next.last() == efforts@[i as int]);
        }
        let effort = efforts[i];
        let is_default = match default_effort {
            Some(default_effort) => effort == default_effort,
            None => false,
        };
        match effort {
            ReasoningEffort::Disabled => {},
            ReasoningEffort::Minimal => {
                levels.push(EffortLevel { name: "Minimal", value: "minimal", is_default });
            },
            ReasoningEffort::Low => {
                levels.push(EffortLevel { name: "Low", value: "low", is_default });
            },
            ReasoningEffort::Medium => {
                levels.push(EffortLevel { name: "Medium", value: "medium", is_default });
            },
            ReasoningEffort::High => {
                levels.push(EffortLevel { name: "High", value: "high", is_default });
            },
            ReasoningEffort::XHigh => {
                levels.push(EffortLevel { name: "Extra High", value: "xhigh", is_default });
            },
        }
        i += 1;
    }
    assert(efforts@.take(i as int) =~= efforts@);
    levels
}

/// Whether an item of a request is a message of the system.
pub open spec fn is_system_message(item: ResponseInputItem) -> bool {
    item matches ResponseInputItem::Message(message) && message.role == Role::System
}

/// The items of a request that are no messages of the system.
pub open spec fn without_system(items: Seq<ResponseInputItem>) -> Seq<ResponseInputItem>
    decreases items.len(),
{
    if items.len() == 0 {
        Seq::empty()
    } else {
        let before = without_system(items.drop_last());
        if is_system_message(items.last()) {
            before
        } else {
            before.push(items.last())
        }
    }
}

/// The texts among the parts of a message.
pub open spec fn part_texts(parts: Seq<ResponseInputContent>) -> Seq<Seq<char>>
    decreases parts.len(),
{
    if parts.len() == 0 {
        Seq::empty()
    } else {
        let before = part_texts(parts.drop_last());
        match parts.last() {
            ResponseInputContent::Text { text } => before.push(text@),
            _ => before,
        }
    }
}

/// The texts of the messages of the system.
pub open spec fn system_texts(items: Seq<ResponseInputItem>) -> Seq<Seq<char>>
    decreases items.len(),
{
    if items.len() == 0 {
        Seq::empty()
    } else {
        let before = system_texts(items.drop_last());
        match items.last() {
            ResponseInputItem::Message(message) => if message.role == Role::System {
                before + part_texts(message.content@)
            } else {
                before
            },
            _ => before,
        }
    }
}

fn push_part_texts(texts: &mut Vec<String>, parts: &Vec<ResponseInputContent>)
    ensures
        text::texts(final(texts)@) == text::texts(old(texts)@) + part_texts(parts@),
{
    assert(parts@.take(0) =~= Seq::empty());
    assert(text::texts(texts@) =~= text::texts(old(texts)@) + part_texts(parts@.take(0)));
    let mut i: usize = 0;
    while i < parts.len()
        invariant
            i <= parts.len(),
            text::texts(texts@) == text::texts(old(texts)@) + part_texts(parts@.take(i as int)),
        decreases parts.len() - i,
    {
        let ghost before = text::texts(texts@);
        proof {
            let next = parts@.take(i + 1);
            assert(next.drop_last() =~= parts@.take(i as int));
            assert(next.last() == parts@[i as int]);
        }
        if let ResponseInputContent::Text { text: part } = &parts[i] {
            texts.push(part.clone());
            assert(text::texts(texts@) =~= before.push(part@));
        }
        assert(text::texts(texts@) =~= text::texts(old(texts)@) + part_texts(parts@.take(i + 1)));
        i += 1;
    }
    assert(parts@.take(i as int) =~= parts@);
}

/// Fits a request to the service: it is not to store the answer, the length of the answer
/// is not limited, since the service refuses a limit, and the messages of the system go
/// into the instructions instead of the input.
pub fn prepare_codex_request(request: Request) -> (prepared: Request)
    ensures
        prepared.store == Some(false),
        prepared.instructions matches Some(instructions) && instructions@ == text::joined(
            system_texts(request.input@),
            "\n\n"@,
        ),
        prepared.input@ == without_system(request.input@),
        prepared.model == request.model,
        prepared.include_fields == request.include_fields,
        prepared.stream == request.stream,
        prepared.temperature == request.temperature,
        prepared.top_p == request.top_p,
        prepared.max_output_tokens is None,
        prepared.parallel_tool_calls == request.parallel_tool_calls,
        prepared.tool_choice == request.tool_choice,
        prepared.tools == request.tools,
        prepared.prompt_cache_key == request.prompt_cache_key,
        prepared.reasoning == request.reasoning,
        prepared.service_tier == request.service_tier,
        prepared.context_management == request.context_management,
{
    let ghost all = request.input@;
    let mut instructions: Vec<String> = Vec::new();
    let mut input: Vec<ResponseInputItem> = Vec::new();
    assert(all.take(0) =~= Seq::empty());
    assert(text::texts(instructions@) =~= Seq::empty());
    for item in iter: request.input
        invariant
            iter.seq() == all,
            0 <= iter.index() <= all.len(),
            text::texts(instructions@) == system_texts(all.take(iter.index() as int)),
            input@ == without_system(all.take(iter.index() as int)),
    {
        proof {
            let next = all.take(iter.index() + 1);
            assert(next.drop_last() =~= all.take(iter.index() as int));
            assert(next.last() == item);
        }
        match item {
            ResponseInputItem::Message(message) => {
                if message.role == Role::System {
                    push_part_texts(&mut instructions, &message.content);
                } else {
                    input.push(ResponseInputItem::Message(message));
                }
            },
            other => {
                input.push(other);
            },
        }
    }
    assert(all.take(all.len() as int) =~= all);
    let instructions = text::join(&instructions, "\n\n");
    Request {
        model: request.model,
        instructions: Some(instructions),
        input,
        include_fields: request.include_fields,
        stream: request.stream,
        temperature: request.temperature,
        top_p: request.top_p,
        max_output_tokens: None,
        parallel_tool_calls: request.parallel_tool_calls,
        tool_choice: request.tool_choice,
        tools: request.tools,
        prompt_cache_key: request.prompt_cache_key,
        reasoning: request.reasoning,
        store: Some(false),
        service_tier: request.service_tier,
        context_management: request.context_management,
    }
}

/// No message of the system is left in the input of a prepared request, and everything
/// else is, in its order.
pub proof fn no_system_message_is_left(items: Seq<ResponseInputItem>)
    ensures
        forall|i: int|
            0 <= i < without_system(items).len() ==> !is_system_message(
                #[trigger] without_system(items)[i],
            ),
        (forall|i: int| 0 <= i < items.len() ==> !is_system_message(#[trigger] items[i]))
            ==> without_system(items) == items,
        without_system(without_system(items)) == without_system(items),
    decreases items.len(),
{
    if items.len() > 0 {
        let before = items.drop_last();
        no_system_message_is_left(before);
        let kept = without_system(items);
        if forall|i: int| 0 <= i < items.len() ==> !is_system_message(#[trigger] items[i]) {
            assert forall|i: int| 0 <= i < before.len() implies !is_system_message(
                #[trigger] before[i],
            ) by {
                assert(before[i] == items[i]);
            }
            assert(!is_system_message(items[items.len() - 1]));
            assert(before.push(items.last()) =~= items);
        }
        if !is_system_message(items.last()) {
            assert(kept.drop_last() =~= without_system(before));
        }
    } else {
        assert(without_system(items) =~= items);
    }
}

/// Whether a text can be the value of a header: no control characters but tabs.
pub open spec fn is_header_text(text: Seq<char>) -> bool {
    forall|i: int|
        0 <= i < text.len() ==> {
            ||| #[trigger] text[i] == '\t'
            ||| text[i] >= ' ' && text[i] != '\x7f'
        }
}

/// `http::HeaderValue::from_str`, of which only is told whether it works. It works where
/// each byte of the text is a tab or at least 32 and not 127; the bytes of a character
/// beyond ASCII are all above that.
#[verifier::external_body]
fn is_header_value(text: &str) -> (valid: bool)
    ensures
        valid == is_header_text(text@),
{
    http::HeaderValue::from_str(text).is_ok()
}

/// A header of a request.
#[derive(Debug, PartialEq, Eq)]
pub struct Header {
    pub name: &'static str,
    pub value: String,
}

/// The model of a [`Header`].
pub struct HeaderView {
    pub name: Seq<char>,
    pub value: Seq<char>,
}

impl View for Header {
    type V = HeaderView;

    open spec fn view(&self) -> HeaderView {
        HeaderView { name: self.name@, value: self.value@ }
    }
}

/// The models of headers.
pub open spec fn header_views(headers: Seq<Header>) -> Seq<HeaderView> {
    headers.map_values(|header: Header| header@)
}

/// The headers of a request; the one that names the account is left out where there is no
/// account or its id cannot be sent.
pub open spec fn codex_header_views(account_id: Option<Seq<char>>) -> Seq<HeaderView> {
    let always = seq![
        HeaderView { name: "originator"@, value: "zed"@ },
        HeaderView { name: "openai-beta"@, value: "responses=experimental"@ },
    ];
    match account_id {
        Some(id) => if id.len() > 0 && is_header_text(id) {
            always.push(HeaderView { name: "chatgpt-account-id"@, value: id })
        } else {
            always
        },
        None => always,
    }
}

/// Lists the headers of a request.
pub fn codex_headers(account_id: &Option<String>) -> (headers: Vec<Header>)
    ensures
        header_views(headers@) == codex_header_views(text::optional_text(*account_id)),
{
    let mut headers: Vec<Header> = Vec::new();
    headers.push(Header { name: "originator", value: "zed".to_string() });
    headers.push(Header { name: "openai-beta", value: "responses=experimental".to_string() });
    if let Some(id) = account_id {
        if !id.as_str().is_empty() && is_header_value(id) {
            headers.push(Header { name: "chatgpt-account-id", value: id.clone() });
        }
    }
    assert(header_views(headers@) =~= codex_header_views(text::optional_text(*account_id)));
    headers
}

/// Every model is listed, and each once.
pub proof fn every_model_is_listed(model: ChatGptModel)
    ensures
        all_models().contains(model),
        all_models().no_duplicates(),
        all_models().first() == ChatGptModel::Gpt55,
{
    let all = all_models();
    assert(all[0] == ChatGptModel::Gpt55);
    assert(all[1] == ChatGptModel::Gpt54);
    assert(all[2] == ChatGptModel::Gpt54Mini);
}

/// The input of a prepared request is what is left of the items when the messages of the
/// system are taken out, and nothing else: what comes of two lists in a row is what comes of
/// each, one after the other.
pub proof fn only_system_messages_are_taken_out(
    items: Seq<ResponseInputItem>,
    more: Seq<ResponseInputItem>,
    item: ResponseInputItem,
)
    ensures
        without_system(items) == items.filter(
            |item: ResponseInputItem|
                !(item matches ResponseInputItem::Message(message) && message.role == Role::System),
        ),
        without_system(items + more) == without_system(items) + without_system(more),
        without_system(seq![item]) == (if item matches ResponseInputItem::Message(message)
            && message.role == Role::System {
            Seq::empty()
        } else {
            seq![item]
        }),
    decreases items.len() + more.len(),
{
    reveal(Seq::filter);
    if items.len() > 0 {
        only_system_messages_are_taken_out(items.drop_last(), Seq::empty(), item);
    }
    if more.len() == 0 {
        assert(items + more =~= items);
        assert(without_system(items) + without_system(more) =~= without_system(items));
    } else {
        only_system_messages_are_taken_out(items, more.drop_last(), item);
        assert((items + more).drop_last() =~= items + more.drop_last());
        assert((items + more).last() == more.last());
        assert(without_system(items + more) =~= without_system(items) + without_system(more));
    }
    assert(seq![item].drop_last() =~= Seq::empty());
    assert(seq![item].last() == item);
    assert(without_system(seq![item].drop_last()) =~= Seq::empty());
}

/// The texts of the parts of a message are all of them, in order; other parts have none.
pub proof fn every_text_part_is_taken(
    parts: Seq<ResponseInputContent>,
    more: Seq<ResponseInputContent>,
    part: ResponseInputContent,
)
    ensures
        part_texts(parts + more) == part_texts(parts) + part_texts(more),
        part_texts(seq![part]) == (match part {
            ResponseInputContent::Text { text } => seq![text@],
            _ => Seq::empty(),
        }),
    decreases more.len(),
{
    if more.len() == 0 {
        assert(parts + more =~= parts);
        assert(part_texts(parts) + part_texts(more) =~= part_texts(parts));
    } else {
        every_text_part_is_taken(parts, more.drop_last(), part);
        assert((parts + more).drop_last() =~= parts + more.drop_last());
        assert((parts + more).last() == more.last());
        assert(part_texts(parts + more) =~= part_texts(parts) + part_texts(more));
    }
    assert(seq![part].drop_last() =~= Seq::empty());
    assert(part_texts(seq![part].drop_last()) =~= Seq::empty());
    assert(seq![part].last() == part);
}

/// The instructions are made of the texts of all messages of the system, in order, and of
/// no other item.
pub proof fn every_system_text_is_taken(
    items: Seq<ResponseInputItem>,
    more: Seq<ResponseInputItem>,
    item: ResponseInputItem,
)
    ensures
        system_texts(items + more) == system_texts(items) + system_texts(more),
        item matches ResponseInputItem::Message(message) && message.role == Role::System
            ==> system_texts(seq![item]) == part_texts(item->Message_0.content@),
        !(item matches ResponseInputItem::Message(message) && message.role == Role::System)
            ==> system_texts(seq![item]) == Seq::<Seq<char>>::empty(),
    decreases more.len(),
{
    if more.len() == 0 {
        assert(items + more =~= items);
        assert(system_texts(items) + system_texts(more) =~= system_texts(items));
    } else {
        every_system_text_is_taken(items, more.drop_last(), item);
        assert((items + more).drop_last() =~= items + more.drop_last());
        assert((items + more).last() == more.last());
        assert(system_texts(items + more) =~= system_texts(items) + system_texts(more));
    }
    assert(seq![item].drop_last() =~= Seq::empty());
    assert(system_texts(seq![item].drop_last()) =~= Seq::empty());
    assert(seq![item].last() == item);
    if item matches ResponseInputItem::Message(message) && message.role == Role::System {
        assert(system_texts(seq![item]) =~= part_texts(item->Message_0.content@));
    }
}

/// Each effort that asks for reasoning gives one level to choose from, in order, and the
/// level of the default effort is the default.
pub proof fn every_effort_is_offered(
    efforts: Seq<ReasoningEffort>,
    more: Seq<ReasoningEffort>,
    effort: ReasoningEffort,
    default_effort: Option<ReasoningEffort>,
)
    ensures
        effort_levels_of(efforts + more, default_effort) == effort_levels_of(
            efforts,
            default_effort,
        ) + effort_levels_of(more, default_effort),
        effort is Disabled ==> effort_levels_of(seq![effort], default_effort).len() == 0,
        !(effort is Disabled) ==> effort_levels_of(seq![effort], default_effort).len() == 1
            && effort_levels_of(seq![effort], default_effort)[0].is_default == (Some(effort)
            == default_effort),
    decreases more.len(),
{
    if more.len() == 0 {
        assert(efforts + more =~= efforts);
        assert(effort_levels_of(efforts, default_effort) + effort_levels_of(more, default_effort)
            =~= effort_levels_of(efforts, default_effort));
    } else {
        every_effort_is_offered(efforts, more.drop_last(), effort, default_effort);
        assert((efforts + more).drop_last() =~= efforts + more.drop_last());
        assert((efforts + more).last() == more.last());
        assert(effort_levels_of(efforts + more, default_effort) =~= effort_levels_of(
            efforts,
            default_effort,
        ) + effort_levels_of(more, default_effort));
    }
    assert(seq![effort].drop_last() =~= Seq::empty());
    assert(effort_levels_of(seq![effort].drop_last(), default_effort) =~= Seq::empty());
    assert(seq![effort].last() == effort);
}

/// A request names where it comes from, and the account where its id is a text that a
/// header can hold; then the id stands there as it is.
pub proof fn headers_name_the_account(account_id: Option<Seq<char>>)
    ensures
        ({
            let headers = codex_header_views(account_id);
            &&& headers.len() == 2 || headers.len() == 3
            &&& headers[0] == (HeaderView { name: "originator"@, value: "zed"@ })
            &&& headers[1] == (HeaderView {
                name: "openai-beta"@,
                value: "responses=experimental"@,
            })
            &&& headers.len() == 3 <==> (account_id is Some && account_id->0.len() > 0
                && is_header_text(account_id->0))
            &&& headers.len() == 3 ==> headers[2].name == "chatgpt-account-id"@ && account_id
                == Some(headers[2].value)
        }),
{
}

/// In a list each header is seen at its place, with its name and its value.
pub proof fn headers_are_seen_in_place(headers: Seq<Header>)
    ensures
        header_views(headers).len() == headers.len(),
        forall|i: int|
            0 <= i < headers.len() ==> (#[trigger] header_views(headers)[i]).name
                == headers[i].name@ && header_views(headers)[i].value == headers[i].value@,
{
}

/// Each model has an id of its own.
pub proof fn models_are_told_apart(told: ChatGptModel)
    ensures
        told.id_text() == "gpt-5.5"@ <==> told is Gpt55,
        told.id_text() == "gpt-5.4"@ <==> told is Gpt54,
        told.id_text() == "gpt-5.4-mini"@ <==> told is Gpt54Mini,
{
    reveal_strlit("gpt-5.5");
    reveal_strlit("gpt-5.4");
    reveal_strlit("gpt-5.4-mini");
    assert("gpt-5.5"@.len() == 7);
    assert("gpt-5.4"@.len() == 7);
    assert("gpt-5.4-mini"@.len() == 12);
    assert("gpt-5.4"@[6] == '4');
    assert("gpt-5.5"@[6] == '5');
}

/// A text can be the value of a header exactly where none of its characters is a control
/// character other than a tab.
pub proof fn control_characters_are_no_header_text(text: Seq<char>, i: int)
    requires
        0 <= i < text.len(),
    ensures
        text[i] < ' ' && text[i] != '\t' ==> !is_header_text(text),
        text[i] == '\x7f' ==> !is_header_text(text),
        (forall|j: int|
            0 <= j < text.len() ==> ' ' <= #[trigger] text[j] && text[j] != '\x7f')
            ==> is_header_text(text),
        is_header_text(text) ==> is_header_text(text.push('\t')),
{
    if is_header_text(text) {
        let more = text.push('\t');
        assert forall|j: int| 0 <= j < more.len() implies {
            ||| #[trigger] more[j] == '\t'
            ||| more[j] >= ' ' && more[j] != '\x7f'
        } by {
            if j < text.len() {
                assert(more[j] == text[j]);
            }
        }
    }
}

} // verus!
