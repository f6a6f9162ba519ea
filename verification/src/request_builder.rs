//! The requests that are sent to a model.

use crate::api;
use crate::api::{
    BlockView, CacheControl, CacheTtl, ContentView, Message, MessageContent, MessageView,
    SystemPrompt, SystemView, Tool, ToolView,
};
use crate::conversation::{ConversationHistory, HistoryView};
use crate::model_info;
use crate::model_info::{Provider, ReasoningEffort};
use vstd::prelude::*;

verus! {

/// How the model picks its thinking budget.
#[derive(Debug, Clone, Copy, PartialEq, Eq, Structural)]
pub enum ThinkingType {
    /// By itself.
    Adaptive,
    /// From the request.
    Enabled,
}

/// Whether and how much the model thinks before it answers.
#[derive(Debug, Clone, Copy, PartialEq, Eq, Structural)]
pub struct Thinking {
    pub thinking_type: ThinkingType,
    pub budget_tokens: Option<u32>,
}

impl Thinking {
    pub fn adaptive() -> (r: Self)
        ensures
            r == (Thinking { thinking_type: ThinkingType::Adaptive, budget_tokens: None }),
    {
        Thinking { thinking_type: ThinkingType::Adaptive, budget_tokens: None }
    }

    pub fn enabled(budget: u32) -> (r: Self)
        ensures
            r == (Thinking { thinking_type: ThinkingType::Enabled, budget_tokens: Some(budget) }),
    {
        Thinking { thinking_type: ThinkingType::Enabled, budget_tokens: Some(budget) }
    }
}

/// The effort that a model with adaptive thinking is asked for.
#[derive(Debug)]
pub struct OutputConfig {
    pub effort: String,
}

/// The effort that a reasoning model is asked for.
#[derive(Debug)]
pub struct Reasoning {
    pub effort: String,
}

/// When the provider compacts a conversation.
#[derive(Debug, Clone, Copy, PartialEq, Eq, Structural)]
pub enum CompactionTrigger {
    InputTokens { value: u32 },
}

/// A change that the provider makes to a conversation by itself.
#[derive(Debug, Clone, Copy, PartialEq, Eq)]
pub enum ContextEdit {
    Compact20260112 {
        trigger: Option<CompactionTrigger>,
        /// How to summarize, where the provider is told.
        instructions: Option<&'static str>,
    },
}

/// The changes that the provider makes to a conversation by itself.
#[derive(Debug)]
pub struct ContextManagement {
    pub edits: Vec<ContextEdit>,
}

/// A request to a model.
#[derive(Debug)]
pub struct CreateMessageRequest {
    pub model: String,
    pub max_tokens: u32,
    pub messages: Vec<Message>,
    pub system: Option<Vec<SystemPrompt>>,
    pub tools: Option<Vec<Tool>>,
    pub stream: Option<bool>,
    pub thinking: Option<Thinking>,
    pub output_config: Option<OutputConfig>,
    pub reasoning: Option<Reasoning>,
    pub prompt_cache_key: Option<String>,
    pub context_management: Option<ContextManagement>,
}

#[verifier::ext_equal]
pub struct RequestView {
    pub model: Seq<char>,
    pub max_tokens: u32,
    pub messages: Seq<MessageView>,
    pub system: Option<Seq<SystemView>>,
    pub tools: Option<Seq<ToolView>>,
    pub stream: Option<bool>,
    pub thinking: Option<Thinking>,
    pub output_effort: Option<Seq<char>>,
    pub reasoning_effort: Option<Seq<char>>,
    pub prompt_cache_key: Option<Seq<char>>,
    pub context_edits: Option<Seq<ContextEdit>>,
}

impl View for CreateMessageRequest {
    type V = RequestView;

    open spec fn view(&self) -> RequestView {
        RequestView {
            model: self.model@,
            max_tokens: self.max_tokens,
            messages: api::message_views(self.messages@),
            system: match self.system {
                Some(s) => Some(api::system_views(s@)),
                None => None,
            },
            tools: match self.tools {
                Some(t) => Some(api::tool_views(t@)),
                None => None,
            },
            stream: self.stream,
            thinking: self.thinking,
            output_effort: match self.output_config {
                Some(c) => Some(c.effort@),
                None => None,
            },
            reasoning_effort: match self.reasoning {
                Some(c) => Some(c.effort@),
                None => None,
            },
            prompt_cache_key: api::option_view(self.prompt_cache_key),
            context_edits: match self.context_management {
                Some(c) => Some(c.edits@),
                None => None,
            },
        }
    }
}

/// A message with a cache marker on its last block. One that has no blocks
/// cannot carry a marker.
pub open spec fn stamped(m: MessageView, control: CacheControl) -> MessageView {
    match m.content {
        ContentView::Text { .. } => m,
        ContentView::Blocks { content } => if content.len() == 0 {
            m
        } else {
            m.with_blocks(
                content.update(
                    content.len() - 1,
                    BlockView { body: content.last().body, cache: Some(control) },
                ),
            )
        },
    }
}

/// The messages with a marker on the last one, and one that holds for an
/// hour on the anchor where that is another message.
pub open spec fn marked_messages(ms: Seq<MessageView>, anchor: Option<usize>) -> Seq<MessageView> {
    let rolling = if ms.len() > 0 {
        ms.update(ms.len() - 1, stamped(ms.last(), CacheControl { ttl: None }))
    } else {
        ms
    };
    if anchor is Some && anchor->0 + 1 < ms.len() {
        rolling.update(
            anchor->0 as int,
            stamped(ms[anchor->0 as int], CacheControl { ttl: Some(CacheTtl::OneHour) }),
        )
    } else {
        rolling
    }
}

/// The tools with a marker that holds for an hour on the last one that can
/// carry it.
pub open spec fn marked_tools(tools: Seq<ToolView>) -> Seq<ToolView>
    decreases tools.len(),
{
    if tools.len() == 0 {
        tools
    } else if tools.last() is OpenAIWebSearch {
        marked_tools(tools.drop_last()).push(tools.last())
    } else {
        tools.drop_last().push(
            tools.last().marked(CacheControl { ttl: Some(CacheTtl::OneHour) }),
        )
    }
}

/// Whether and how much the model thinks.
pub open spec fn thinking_for(
    client: Provider,
    model: Seq<char>,
    effort: ReasoningEffort,
) -> Option<Thinking> {
    if client != Provider::Anthropic {
        None
    } else if model_info::model_of(model).adaptive_thinking {
        Some(Thinking { thinking_type: ThinkingType::Adaptive, budget_tokens: None })
    } else if effort != ReasoningEffort::Off {
        Some(
            Thinking {
                thinking_type: ThinkingType::Enabled,
                budget_tokens: Some(model_info::thinking_budget(effort)),
            },
        )
    } else {
        None
    }
}

/// The effort that a model with adaptive thinking is asked for.
pub open spec fn output_effort_for(
    client: Provider,
    model: Seq<char>,
    effort: ReasoningEffort,
) -> Option<Seq<char>> {
    if client == Provider::Anthropic && model_info::model_of(model).adaptive_thinking {
        Some(model_info::adaptive_effort(effort))
    } else {
        None
    }
}

/// The effort that a reasoning model is asked for. The highest level that
/// it accepts stands for the one above it.
pub open spec fn reasoning_effort_for(client: Provider, effort: ReasoningEffort) -> Option<
    Seq<char>,
> {
    if client != Provider::OpenAI {
        None
    } else {
        Some(
            match effort {
                ReasoningEffort::Off => "minimal"@,
                ReasoningEffort::Low => "low"@,
                ReasoningEffort::Medium => "medium"@,
                ReasoningEffort::High => "high"@,
                _ => "xhigh"@,
            },
        )
    }
}

/// The trigger of the provider's own compaction, never below the lowest one
/// that it accepts.
pub open spec fn compaction_trigger(model: Seq<char>) -> u32 {
    let at = model_info::model_of(model).compact_at();
    if at < model_info::COMPACTION_TRIGGER_FLOOR {
        model_info::COMPACTION_TRIGGER_FLOOR
    } else {
        at
    }
}

pub open spec fn context_edits_for(client: Provider, model: Seq<char>) -> Option<
    Seq<ContextEdit>,
> {
    if client == Provider::Anthropic && model_info::model_of(model).supports_server_compaction {
        Some(
            seq![
                ContextEdit::Compact20260112 {
                    trigger: Some(
                        CompactionTrigger::InputTokens { value: compaction_trigger(model) },
                    ),
                    instructions: None,
                },
            ],
        )
    } else {
        None
    }
}

/// The request that a conversation amounts to.
pub open spec fn request_for(
    client: Provider,
    model: Seq<char>,
    max_tokens: u32,
    history: HistoryView,
    tools: Seq<ToolView>,
    effort: ReasoningEffort,
    session_id: Seq<char>,
) -> RequestView {
    let caches = client == Provider::Anthropic;
    RequestView {
        model,
        max_tokens,
        messages: if caches {
            marked_messages(history.messages, history.anchor)
        } else {
            history.messages
        },
        system: Some(history.system),
        tools: Some(
            if caches {
                marked_tools(tools)
            } else {
                tools
            },
        ),
        stream: None,
        thinking: thinking_for(client, model, effort),
        output_effort: output_effort_for(client, model, effort),
        reasoning_effort: reasoning_effort_for(client, effort),
        prompt_cache_key: Some(session_id),
        context_edits: context_edits_for(client, model),
    }
}

/// Puts a cache marker on the last block of a message that has one.
pub fn stamp_last_block(msg: &mut Message, control: CacheControl)
    ensures
        final(msg)@ == stamped(old(msg)@, control),
{
    let ghost before = msg@;
    if let MessageContent::Blocks { content } = &mut msg.content {
        let len = content.len();
        if len > 0 {
            let ghost blocks = content@;
            content[len - 1].set_cache_control(control);
            assert(api::block_views(content@) =~= api::block_views(blocks).update(
                len - 1,
                BlockView { body: blocks[len - 1]@.body, cache: Some(control) },
            ));
        }
    }
}

/// Puts a cache marker on the last message and, where it is another message,
/// one that holds for an hour on the anchor. The last message moves with
/// every turn, so its marker keeps the short time to live.
pub fn mark_rolling_cache_breakpoint(messages: &mut Vec<Message>, anchor_idx: Option<usize>)
    ensures
        api::message_views(final(messages)@) == marked_messages(
            api::message_views(old(messages)@),
            anchor_idx,
        ),
{
    let len = messages.len();
    let ghost ms = api::message_views(messages@);
    if len > 0 {
        let ghost before = messages@;
        stamp_last_block(&mut messages[len - 1], CacheControl::ephemeral(None));
        assert(api::message_views(messages@) =~= ms.update(
            len - 1,
            stamped(ms.last(), CacheControl { ttl: None }),
        ));
    }
    if let Some(idx) = anchor_idx {
        if idx < len && idx + 1 < len {
            let ghost rolling = api::message_views(messages@);
            assert(rolling[idx as int] == ms[idx as int]);
            stamp_last_block(&mut messages[idx], CacheControl::ephemeral_one_hour());
            assert(api::message_views(messages@) =~= rolling.update(
                idx as int,
                stamped(ms[idx as int], CacheControl { ttl: Some(CacheTtl::OneHour) }),
            ));
        }
    }
}

proof fn lemma_marked_tools(tools: Seq<ToolView>, i: int)
    requires
        0 <= i < tools.len(),
        !(tools[i] is OpenAIWebSearch),
        forall|k: int| i < k < tools.len() ==> #[trigger] tools[k] is OpenAIWebSearch,
    ensures
        marked_tools(tools) == tools.update(
            i,
            tools[i].marked(CacheControl { ttl: Some(CacheTtl::OneHour) }),
        ),
    decreases tools.len(),
{
    let control = CacheControl { ttl: Some(CacheTtl::OneHour) };
    if i == tools.len() - 1 {
        assert(tools.drop_last().push(tools.last().marked(control)) =~= tools.update(
            i,
            tools[i].marked(control),
        ));
    } else {
        lemma_marked_tools(tools.drop_last(), i);
        assert(marked_tools(tools) =~= tools.update(i, tools[i].marked(control)));
    }
}

proof fn lemma_marked_tools_none(tools: Seq<ToolView>)
    requires
        forall|k: int| 0 <= k < tools.len() ==> #[trigger] tools[k] is OpenAIWebSearch,
    ensures
        marked_tools(tools) == tools,
    decreases tools.len(),
{
    if tools.len() > 0 {
        lemma_marked_tools_none(tools.drop_last());
        assert(tools.drop_last().push(tools.last()) =~= tools);
    }
}

/// Puts a cache marker that holds for an hour on the last tool that can
/// carry it. A tool of the other provider is taken out before the request
/// is sent, so a marker there would be lost.
pub fn mark_last_tool(tools: &mut Vec<Tool>)
    ensures
        api::tool_views(final(tools)@) == marked_tools(api::tool_views(old(tools)@)),
{
    let ghost all = api::tool_views(tools@);
    let mut i: usize = tools.len();
    while i > 0
        invariant
            all == api::tool_views(tools@),
            all == api::tool_views(old(tools)@),
            i <= tools@.len(),
            forall|k: int| i <= k < tools@.len() ==> #[trigger] all[k] is OpenAIWebSearch,
        decreases i,
    {
        i = i - 1;
        assert(all[i as int] == tools@[i as int]@);
        let markable = !matches!(tools[i], Tool::OpenAIWebSearch { .. });
        if markable {
            tools[i].set_cache_control(CacheControl::ephemeral_one_hour());
            proof {
                lemma_marked_tools(all, i as int);
                assert(api::tool_views(tools@) =~= marked_tools(all));
            }
            return;
        }
    }
    proof {
        lemma_marked_tools_none(all);
    }
}

/// Puts together the request for the next response.
pub struct RequestBuilder<'a> {
    pub client: Provider,
    pub model: &'a str,
    pub max_tokens: u32,
    pub conversation: &'a ConversationHistory,
    pub tools: Vec<Tool>,
    pub reasoning_effort: ReasoningEffort,
    /// Sent as the key of the provider's prompt cache.
    pub session_id: &'a str,
}

impl<'a> RequestBuilder<'a> {
    pub fn new(
        client: Provider,
        model: &'a str,
        max_tokens: u32,
        conversation: &'a ConversationHistory,
        tools: Vec<Tool>,
        reasoning_effort: ReasoningEffort,
        session_id: &'a str,
    ) -> (r: Self)
        ensures
            r.client == client,
            r.model == model,
            r.max_tokens == max_tokens,
            r.conversation == conversation,
            r.tools == tools,
            r.reasoning_effort == reasoning_effort,
            r.session_id == session_id,
    {
        RequestBuilder {
            client,
            model,
            max_tokens,
            conversation,
            tools,
            reasoning_effort,
            session_id,
        }
    }

    /// The request. A model with adaptive thinking is always asked to think,
    /// as it rejects earlier thinking in a conversation otherwise; how much
    /// is said by the effort.
    pub fn build(self) -> (r: CreateMessageRequest)
        ensures
            r@ == request_for(
                self.client,
                self.model@,
                self.max_tokens,
                self.conversation@,
                api::tool_views(self.tools@),
                self.reasoning_effort,
                self.session_id@,
            ),
    {
        let is_anthropic = matches!(self.client, Provider::Anthropic);
        let info = model_info::lookup(self.model);
        let (thinking, output_config) = if is_anthropic && info.adaptive_thinking {
            (
                Some(Thinking::adaptive()),
                Some(
                    OutputConfig {
                        effort: model_info::effort_label(self.reasoning_effort).to_owned(),
                    },
                ),
            )
        } else if is_anthropic && self.reasoning_effort.is_enabled() {
            (
                Some(Thinking::enabled(model_info::legacy_thinking_budget(self.reasoning_effort))),
                None,
            )
        } else {
            (None, None)
        };
        let reasoning = if is_anthropic {
            None
        } else {
            let effort = match self.reasoning_effort {
                ReasoningEffort::Off => "minimal",
                ReasoningEffort::Low => "low",
                ReasoningEffort::Medium => "medium",
                ReasoningEffort::High => "high",
                ReasoningEffort::XHigh | ReasoningEffort::Max => "xhigh",
            };
            Some(Reasoning { effort: effort.to_owned() })
        };
        let context_management = if is_anthropic && info.supports_server_compaction {
            let at: u32 = info.auto_compact_at();
            let value: u32 = if at < model_info::COMPACTION_TRIGGER_FLOOR {
                model_info::COMPACTION_TRIGGER_FLOOR
            } else {
                at
            };
            let edits = vec![
                ContextEdit::Compact20260112 {
                    trigger: Some(CompactionTrigger::InputTokens { value }),
                    instructions: None,
                },
            ];
            assert(edits@ =~= context_edits_for(self.client, self.model@)->0);
            Some(ContextManagement { edits })
        } else {
            None
        };
        let mut messages = api::clone_messages(self.conversation.messages());
        let mut tools = self.tools;
        if is_anthropic {
            mark_last_tool(&mut tools);
            mark_rolling_cache_breakpoint(
                &mut messages,
                self.conversation.cache_anchor_message_idx(),
            );
        }
        CreateMessageRequest {
            model: self.model.to_owned(),
            max_tokens: self.max_tokens,
            messages,
            system: Some(api::clone_system(self.conversation.system_prompt())),
            tools: Some(tools),
            stream: None,
            thinking,
            output_config,
            reasoning,
            prompt_cache_key: Some(self.session_id.to_owned()),
            context_management,
        }
    }
}

/// A request carries at most two cache markers on messages more than the
/// conversation does: on the last message and on the anchor. Every other
/// message goes out as it is.
pub proof fn only_rolling_and_anchor_are_marked(
    ms: Seq<MessageView>,
    anchor: Option<usize>,
    i: int,
)
    requires
        0 <= i < ms.len(),
        i != ms.len() - 1,
        anchor != Some(i as usize),
        ms.len() <= usize::MAX,
    ensures
        marked_messages(ms, anchor).len() == ms.len(),
        marked_messages(ms, anchor)[i] == ms[i],
{
}

/// Only requests to the provider that caches by markers carry any, and only
/// they ask it to compact; only the other provider is asked for a reasoning
/// effort.
pub proof fn providers_do_not_mix(
    client: Provider,
    model: Seq<char>,
    max_tokens: u32,
    history: HistoryView,
    tools: Seq<ToolView>,
    effort: ReasoningEffort,
    session_id: Seq<char>,
)
    ensures
        ({
            let r = request_for(client, model, max_tokens, history, tools, effort, session_id);
            &&& client == Provider::OpenAI ==> r.messages == history.messages && r.tools == Some(
                tools,
            ) && r.thinking is None && r.output_effort is None && r.context_edits is None
            &&& (r.reasoning_effort is Some) == (client == Provider::OpenAI)
        }),
{
}

/// The place of a requested effort in the order of the levels that the
/// provider knows; none of other words.
pub open spec fn effort_place(label: Seq<char>) -> Option<int> {
    if label == "minimal"@ {
        Some(0)
    } else if label == "low"@ {
        Some(1)
    } else if label == "medium"@ {
        Some(2)
    } else if label == "high"@ {
        Some(3)
    } else if label == "xhigh"@ {
        Some(4)
    } else {
        None
    }
}

/// Whether an effort is the next one above another.
pub open spec fn next_effort(a: ReasoningEffort, b: ReasoningEffort) -> bool {
    ||| a is Off && b is Low
    ||| a is Low && b is Medium
    ||| a is Medium && b is High
    ||| a is High && b is XHigh
    ||| a is XHigh && b is Max
}

/// A request to the provider that takes a reasoning effort names the one
/// that the user chose. Only the lowest and the highest have another name
/// there. One level more asks for one level more, up to the highest.
pub proof fn requested_effort_is_the_chosen_one(
    model: Seq<char>,
    max_tokens: u32,
    history: HistoryView,
    tools: Seq<ToolView>,
    session_id: Seq<char>,
    a: ReasoningEffort,
    b: ReasoningEffort,
)
    ensures
        ({
            let asked = |e: ReasoningEffort|
                request_for(
                    Provider::OpenAI,
                    model,
                    max_tokens,
                    history,
                    tools,
                    e,
                    session_id,
                ).reasoning_effort;
            &&& asked(ReasoningEffort::Low) == Some("low"@)
            &&& asked(ReasoningEffort::Medium) == Some("medium"@)
            &&& asked(ReasoningEffort::High) == Some("high"@)
            &&& asked(ReasoningEffort::XHigh) == Some("xhigh"@)
            &&& asked(ReasoningEffort::Off) == Some("minimal"@)
            &&& !(a is Off) && !(a is Max) ==> asked(a) == Some(a.label_text())
            &&& asked(a) is Some && effort_place(asked(a)->0) is Some
            &&& next_effort(a, b) && !(b is Max) ==> effort_place(asked(b)->0)->0 == effort_place(
                asked(a)->0,
            )->0 + 1
            &&& b is Max ==> asked(b) == asked(ReasoningEffort::XHigh)
        }),
{
    reveal_strlit("minimal");
    reveal_strlit("low");
    reveal_strlit("medium");
    reveal_strlit("high");
    reveal_strlit("xhigh");
    assert("high"@[0] == 'h' && "xhigh"@[0] == 'x' && "low"@[0] == 'l');
    assert("medium"@.len() == 6 && "minimal"@.len() == 7 && "low"@.len() == 3 && "high"@.len() == 4
        && "xhigh"@.len() == 5);
}

/// A request to the other provider asks a model that thinks adaptively to
/// do so, whatever the effort, and names the chosen one, with the lowest in
/// place of none. Any other model thinks within a budget that goes with the
/// effort, and not at all where none was chosen.
pub proof fn thinking_follows_the_effort(
    model: Seq<char>,
    max_tokens: u32,
    history: HistoryView,
    tools: Seq<ToolView>,
    session_id: Seq<char>,
    e: ReasoningEffort,
)
    ensures
        ({
            let r = request_for(
                Provider::Anthropic,
                model,
                max_tokens,
                history,
                tools,
                e,
                session_id,
            );
            let adaptive = model_info::model_of(model).adaptive_thinking;
            &&& adaptive ==> r.thinking == Some(
                Thinking { thinking_type: ThinkingType::Adaptive, budget_tokens: None },
            )
            &&& adaptive ==> r.output_effort == Some(
                match e {
                    ReasoningEffort::Off => "low"@,
                    ReasoningEffort::Low => "low"@,
                    ReasoningEffort::Medium => "medium"@,
                    ReasoningEffort::High => "high"@,
                    ReasoningEffort::XHigh => "xhigh"@,
                    ReasoningEffort::Max => "max"@,
                },
            )
            &&& !adaptive ==> r.output_effort is None
            &&& !adaptive ==> (r.thinking is None) == (e is Off)
            &&& !adaptive && !(e is Off) ==> r.thinking->0.thinking_type == ThinkingType::Enabled
                && r.thinking->0.budget_tokens is Some
            &&& !adaptive && e is Low ==> r.thinking->0.budget_tokens->0 == 1024
            &&& !adaptive && e is Medium ==> r.thinking->0.budget_tokens->0 == 5 * 1024
            &&& !adaptive && (e is High || e is XHigh || e is Max)
                ==> r.thinking->0.budget_tokens->0 == 16 * 1024
        }),
{
}

/// A request carries what it was made from: the model's name, the limit,
/// the whole system prompt, every message and every tool in order, and the
/// session as the key of the cache. It is not streamed.
pub proof fn request_carries_the_conversation(
    client: Provider,
    model: Seq<char>,
    max_tokens: u32,
    history: HistoryView,
    tools: Seq<ToolView>,
    effort: ReasoningEffort,
    session_id: Seq<char>,
    i: int,
    j: int,
)
    requires
        0 <= i < history.messages.len(),
        0 <= j < tools.len(),
    ensures
        ({
            let r = request_for(client, model, max_tokens, history, tools, effort, session_id);
            &&& r.model == model
            &&& r.max_tokens == max_tokens
            &&& r.system == Some(history.system)
            &&& r.prompt_cache_key == Some(session_id)
            &&& r.stream is None
            &&& r.messages.len() == history.messages.len()
            &&& says_the_same(r.messages[i], history.messages[i])
            &&& r.tools is Some
            &&& r.tools->0.len() == tools.len()
            &&& r.tools->0[j] == tools[j] || (r.tools->0[j] == tools[j].marked(
                CacheControl { ttl: Some(CacheTtl::OneHour) },
            ) && !(tools[j] is OpenAIWebSearch))
        }),
{
    lemma_one_tool_is_marked(tools);
}

/// Whether two messages are of the same side and say the same, whatever
/// cache markers their blocks carry.
pub open spec fn says_the_same(a: MessageView, b: MessageView) -> bool {
    &&& a.role == b.role
    &&& (a.content is Text) == (b.content is Text)
    &&& a.content is Text ==> a.content == b.content
    &&& a.content is Blocks ==> {
        let x = a.content->Blocks_content;
        let y = b.content->Blocks_content;
        x.len() == y.len() && forall|k: int|
            0 <= k < x.len() ==> (#[trigger] x[k]).body == y[k].body
    }
}

proof fn lemma_one_tool_is_marked(tools: Seq<ToolView>)
    ensures
        marked_tools(tools).len() == tools.len(),
        forall|i: int|
            0 <= i < tools.len() ==> (#[trigger] marked_tools(tools)[i]) == tools[i] || (
            marked_tools(tools)[i] == tools[i].marked(
                CacheControl { ttl: Some(CacheTtl::OneHour) },
            ) && !(tools[i] is OpenAIWebSearch) && forall|k: int|
                i < k < tools.len() ==> (#[trigger] tools[k]) is OpenAIWebSearch),
        forall|i: int|
            0 <= i < tools.len() && !(tools[i] is OpenAIWebSearch) && (forall|k: int|
                i < k < tools.len() ==> (#[trigger] tools[k]) is OpenAIWebSearch)
                ==> #[trigger] marked_tools(tools)[i] == tools[i].marked(
                CacheControl { ttl: Some(CacheTtl::OneHour) },
            ),
    decreases tools.len(),
{
    if tools.len() > 0 && tools.last() is OpenAIWebSearch {
        let t = tools.drop_last();
        lemma_one_tool_is_marked(t);
        let m = marked_tools(tools);
        assert forall|i: int| 0 <= i < tools.len() implies (#[trigger] m[i]) == tools[i] || (m[i]
            == tools[i].marked(CacheControl { ttl: Some(CacheTtl::OneHour) })
            && !(tools[i] is OpenAIWebSearch) && forall|k: int|
            i < k < tools.len() ==> (#[trigger] tools[k]) is OpenAIWebSearch) by {
            if i < t.len() {
                assert(m[i] == marked_tools(t)[i]);
                assert(t[i] == tools[i]);
                if marked_tools(t)[i] != t[i] {
                    assert forall|k: int| i < k < tools.len() implies (
                    #[trigger] tools[k]) is OpenAIWebSearch by {
                        if k < t.len() {
                            assert(t[k] is OpenAIWebSearch);
                        }
                    }
                }
            }
        }
        assert forall|i: int|
            0 <= i < tools.len() && !(tools[i] is OpenAIWebSearch) && (forall|k: int|
                i < k < tools.len() ==> (#[trigger] tools[k]) is OpenAIWebSearch) implies
            #[trigger] m[i] == tools[i].marked(CacheControl { ttl: Some(CacheTtl::OneHour) }) by {
            assert(i < t.len());
            assert(t[i] == tools[i]);
            assert forall|k: int| i < k < t.len() implies (#[trigger] t[k]) is OpenAIWebSearch by {
                assert(tools[k] is OpenAIWebSearch);
            }
            assert(m[i] == marked_tools(t)[i]);
        }
    }
}

/// A marker on a tool leaves all else of it as it is.
pub proof fn marked_tool_is_the_same_tool(tool: ToolView, control: CacheControl)
    ensures
        match (tool, tool.marked(control)) {
            (
                ToolView::Regular { name, description, input_schema, .. },
                ToolView::Regular { name: n, description: d, input_schema: s, cache },
            ) => n == name && d == description && s == input_schema && cache == Some(control),
            (
                ToolView::AnthropicWebSearch { name, .. },
                ToolView::AnthropicWebSearch { name: n, cache },
            ) => n == name && cache == Some(control),
            (ToolView::OpenAIWebSearch { name }, ToolView::OpenAIWebSearch { name: n }) => n == name,
            _ => false,
        },
{
}

/// The provider that caches by markers is told three places: the last block
/// of the last message, for the usual time; that of the anchor, for an
/// hour; and the last tool that can carry one, for an hour.
pub proof fn markers_are_where_the_cache_looks(
    model: Seq<char>,
    max_tokens: u32,
    history: HistoryView,
    tools: Seq<ToolView>,
    effort: ReasoningEffort,
    session_id: Seq<char>,
    at: int,
)
    requires
        0 <= at < tools.len(),
        !(tools[at] is OpenAIWebSearch),
        forall|k: int| at < k < tools.len() ==> (#[trigger] tools[k]) is OpenAIWebSearch,
        history.messages.len() > 0,
    ensures
        ({
            let ms = history.messages;
            let r = request_for(
                Provider::Anthropic,
                model,
                max_tokens,
                history,
                tools,
                effort,
                session_id,
            );
            &&& r.tools->0 == tools.update(
                at,
                tools[at].marked(CacheControl { ttl: Some(CacheTtl::OneHour) }),
            )
            &&& ends_with_marker(
                r.messages[ms.len() - 1],
                ms[ms.len() - 1],
                CacheControl { ttl: None },
            )
            &&& history.anchor is Some && history.anchor->0 < ms.len() - 1 ==> ends_with_marker(
                r.messages[history.anchor->0 as int],
                ms[history.anchor->0 as int],
                CacheControl { ttl: Some(CacheTtl::OneHour) },
            )
        }),
{
    lemma_one_tool_is_marked(tools);
    let m = marked_tools(tools);
    let u = tools.update(at, tools[at].marked(CacheControl { ttl: Some(CacheTtl::OneHour) }));
    assert forall|i: int| 0 <= i < m.len() implies m[i] == u[i] by {
        if i < at {
            assert(!(tools[at] is OpenAIWebSearch));
        } else if i > at {
            assert(tools[i] is OpenAIWebSearch);
        }
    }
    assert(m =~= u);
}

/// Whether a message is another with the given marker on its last block and
/// nothing else changed. A message without blocks carries none.
pub open spec fn ends_with_marker(now: MessageView, was: MessageView, c: CacheControl) -> bool {
    &&& now.role == was.role
    &&& was.content is Text ==> now == was
    &&& was.content is Blocks ==> now.content is Blocks && {
        let x = now.content->Blocks_content;
        let y = was.content->Blocks_content;
        &&& x.len() == y.len()
        &&& forall|k: int| 0 <= k < x.len() - 1 ==> (#[trigger] x[k]) == y[k]
        &&& y.len() > 0 ==> x.last().body == y.last().body && x.last().cache == Some(c)
    }
}

/// The provider's own compaction is asked for exactly where the model has
/// it, once, at the tokens at which the model's conversations are compacted
/// and never below fifty thousand.
pub proof fn server_compaction_is_asked_for(
    client: Provider,
    model: Seq<char>,
    max_tokens: u32,
    history: HistoryView,
    tools: Seq<ToolView>,
    effort: ReasoningEffort,
    session_id: Seq<char>,
)
    ensures
        ({
            let edits = request_for(
                client,
                model,
                max_tokens,
                history,
                tools,
                effort,
                session_id,
            ).context_edits;
            let m = model_info::model_of(model);
            &&& (edits is Some) == (client is Anthropic && m.supports_server_compaction)
            &&& edits is Some ==> edits->0.len() == 1 && (edits->0[0] matches
                ContextEdit::Compact20260112 { trigger, instructions } && instructions is None && (
            trigger matches Some(CompactionTrigger::InputTokens { value }) && value >= 50_000 && value
                >= m.compact_at() && (value == 50_000 || value == m.compact_at())))
        }),
{
}

} // verus!
