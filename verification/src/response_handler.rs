//! The loop that answers a user's turn: a response may call tools, their
//! answers ask for the next response, and so on until one calls none.

use crate::api;
use crate::api::{
    BlockView, BodyView, ContentBlock, CreateMessageResponse, MessageContentBlock, MessageView,
    Tool, ToolView,
};
use crate::config::SofosConfig;
use crate::conversation::lifecycle;
use crate::conversation::{ConversationHistory, HistoryView};
use crate::model_info::{Provider, ReasoningEffort};
use crate::request_builder;
use crate::request_builder::{CreateMessageRequest, RequestBuilder, RequestView};
use crate::session::model;
use crate::session::model::{DisplayMessage, DisplayView, SessionTokenCounters};
use crate::text;
use crate::tool_batch;
use crate::tool_batch::{BatchView, CallView, OutcomeView, ToolBatch, ToolCall, ToolOutcome};
use vstd::prelude::*;

verus! {

/// What stands for a response that was cut off before it said anything.
pub const CUT_OFF: &'static str =
    "[Response cut off by token limit before any visible content.]";

/// What precedes messages that the user sent while the tools were running.
pub const STEER_PREFIX: &'static str =
    "[User sent this message while you were working on the current task. Take it into account and adjust your plan if needed]:\n";

/// What the loop waits for.
#[derive(Debug, Clone, Copy, PartialEq, Eq, Structural)]
pub enum LoopPhase {
    /// The first response.
    AwaitingFirst,
    /// The end of the current tool call.
    RunningTools,
    /// The response that follows one made of reasoning alone.
    AwaitingAfterReasoning,
    /// The response that follows the answers to tool calls.
    AwaitingAfterTools,
    /// The summary that follows too many rounds of tool calls.
    AwaitingSummary,
    /// Nothing.
    Finished,
}

/// Why the loop ended.
#[derive(Debug, Clone, Copy, PartialEq, Eq, Structural)]
pub enum Ending {
    Complete,
    /// The response was empty.
    EmptyResponse,
    /// The response was cut off by the token limit.
    Truncated,
    /// Nothing followed a response made of reasoning alone.
    OnlyReasoning,
    /// Nothing followed the answers to tool calls.
    SilentAfterTools,
    /// The user declined a deletion.
    Cancelled,
    /// There were too many rounds of tool calls.
    Summarized,
}

/// What is to be done next.
#[derive(Debug, Clone, Copy, PartialEq, Eq, Structural)]
pub enum LoopAction {
    /// Run the current tool call.
    RunTool,
    /// Send the next request.
    SendRequest,
    /// Send a request without tools.
    SendSummaryRequest,
    /// Stop.
    Finish(Ending),
    /// Nothing: this was not waited for.
    Ignored,
}

/// The loop's state.
pub struct ResponseHandler {
    pub client: Provider,
    pub conversation: ConversationHistory,
    pub model: String,
    pub max_tokens: u32,
    pub reasoning_effort: ReasoningEffort,
    pub config: SofosConfig,
    pub available_tools: Vec<Tool>,
    pub session_id: String,
    /// How many responses have been taken into account.
    pub iteration: u32,
    pub phase: LoopPhase,
    pub batch: ToolBatch,
}

#[verifier::ext_equal]
pub struct HandlerView {
    pub client: Provider,
    pub conversation: HistoryView,
    pub model: Seq<char>,
    pub max_tokens: u32,
    pub reasoning_effort: ReasoningEffort,
    pub config: SofosConfig,
    pub available_tools: Seq<ToolView>,
    pub session_id: Seq<char>,
    pub iteration: nat,
    pub phase: LoopPhase,
    pub batch: BatchView,
}

impl View for ResponseHandler {
    type V = HandlerView;

    open spec fn view(&self) -> HandlerView {
        HandlerView {
            client: self.client,
            conversation: self.conversation@,
            model: self.model@,
            max_tokens: self.max_tokens,
            reasoning_effort: self.reasoning_effort,
            config: self.config,
            available_tools: api::tool_views(self.available_tools@),
            session_id: self.session_id@,
            iteration: self.iteration as nat,
            phase: self.phase,
            batch: self.batch@,
        }
    }
}

/// The visible text of a response: its texts that are not blank, and a line
/// for every web search that found something.
pub open spec fn texts_of(v: Seq<BodyView>) -> Seq<Seq<char>>
    decreases v.len(),
{
    if v.len() == 0 {
        Seq::empty()
    } else {
        let before = texts_of(v.drop_last());
        match v.last() {
            BodyView::Text { text } => if text::trimmed(text).len() > 0 {
                before.push(text)
            } else {
                before
            },
            BodyView::WebSearchToolResult { content, .. } => if content.len() > 0 {
                before.push(search_line(content.len()))
            } else {
                before
            },
            _ => before,
        }
    }
}

pub open spec fn search_line(n: nat) -> Seq<char> {
    "\n[Web search returned "@ + text::decimal_of(n) + " results]"@
}

/// The tool calls of a response.
pub open spec fn calls_of(v: Seq<BodyView>) -> Seq<CallView>
    decreases v.len(),
{
    if v.len() == 0 {
        Seq::empty()
    } else {
        let before = calls_of(v.drop_last());
        match v.last() {
            BodyView::ToolUse { id, name, input } => before.push(CallView { id, name, input }),
            _ => before,
        }
    }
}

pub open spec fn is_reasoning(b: BodyView) -> bool {
    b is Thinking || b is Summary || b is Compaction || b is Reasoning
}

pub open spec fn any_reasoning(v: Seq<BodyView>) -> bool {
    exists|i: int| 0 <= i < v.len() && is_reasoning(#[trigger] v[i])
}

pub open spec fn is_truncated(stop_reason: Option<Seq<char>>) -> bool {
    stop_reason == Some("max_tokens"@)
}

/// The blocks of a response as they enter the conversation. One that was
/// cut off loses its tool calls, whose arguments may be incomplete.
pub open spec fn kept_blocks(v: Seq<BodyView>, truncated: bool) -> Seq<BlockView> {
    let all = api::as_message_blocks(v);
    if truncated {
        let kept = lifecycle::without_calls(all);
        if kept.len() == 0 {
            seq![BlockView::text(CUT_OFF@)]
        } else {
            kept
        }
    } else {
        all
    }
}

/// What the model is told after too many rounds of tool calls.
pub open spec fn interruption_text(max: nat) -> Seq<char> {
    "SYSTEM INTERRUPTION: You have reached the maximum number of tool iterations ("@
        + text::decimal_of(max)
        + "). This limit prevents infinite loops. Please provide a summary of what you've accomplished so far and suggest how the user should proceed. Consider breaking down the task into smaller steps or asking the user for clarification."@
}

/// The turn that answers the tool calls, with what the user said meanwhile.
pub open spec fn answer_blocks(results: Seq<BlockView>, steer: Seq<Seq<char>>) -> Seq<BlockView> {
    if steer.len() == 0 {
        results
    } else {
        results.push(BlockView::text(STEER_PREFIX@ + text::joined(steer, "\n\n"@)))
    }
}

/// What the user sees of a summary.
pub open spec fn summary_display(v: Seq<BodyView>) -> Seq<DisplayView>
    decreases v.len(),
{
    if v.len() == 0 {
        Seq::empty()
    } else {
        let before = summary_display(v.drop_last());
        match v.last() {
            BodyView::Text { text } => if text::trimmed(text).len() > 0 {
                before.push(DisplayView::AssistantMessage { content: text })
            } else {
                before
            },
            _ => before,
        }
    }
}

impl HandlerView {
    /// Whether the loop has gone round as often as it may.
    pub open spec fn exhausted(self) -> bool {
        self.iteration >= self.config.max_tool_iterations
    }

    /// The loop after a response, and what is to be done next.
    pub open spec fn received(self, content: Seq<BodyView>, truncated: bool) -> (
        HandlerView,
        LoopAction,
    ) {
        let calls = calls_of(content);
        let silent = texts_of(content).len() == 0;
        let next = HandlerView {
            iteration: self.iteration + 1,
            conversation: if content.len() > 0 {
                self.conversation.added(
                    MessageView::assistant_blocks(kept_blocks(content, truncated)),
                )
            } else {
                self.conversation
            },
            ..self
        };
        if self.exhausted() {
            (
                HandlerView {
                    conversation: self.conversation.added(
                        MessageView::user(
                            interruption_text(self.config.max_tool_iterations as nat),
                        ),
                    ),
                    phase: LoopPhase::AwaitingSummary,
                    ..self
                },
                LoopAction::SendSummaryRequest,
            )
        } else if truncated {
            next.ended(Ending::Truncated)
        } else if calls.len() > 0 {
            (
                HandlerView {
                    phase: LoopPhase::RunningTools,
                    batch: BatchView::of(calls),
                    ..next
                },
                LoopAction::RunTool,
            )
        } else if silent && any_reasoning(content) && self.client == Provider::OpenAI {
            (
                HandlerView { phase: LoopPhase::AwaitingAfterReasoning, ..next },
                LoopAction::SendRequest,
            )
        } else if silent && !any_reasoning(content) {
            next.ended(Ending::EmptyResponse)
        } else {
            next.ended(Ending::Complete)
        }
    }

    pub open spec fn ended(self, ending: Ending) -> (HandlerView, LoopAction) {
        (HandlerView { phase: LoopPhase::Finished, ..self }, LoopAction::Finish(ending))
    }

    /// What the user sees of a response.
    pub open spec fn received_display(self, content: Seq<BodyView>) -> Seq<DisplayView> {
        if self.exhausted() {
            seq![
                DisplayView::UserMessage {
                    content: "[System: Maximum tool iterations reached]"@,
                },
            ]
        } else if texts_of(content).len() > 0 {
            seq![
                DisplayView::AssistantMessage { content: text::joined(texts_of(content), "\n"@) },
            ]
        } else {
            Seq::empty()
        }
    }

    /// The loop after the end of the current tool call, and what is to be
    /// done next.
    pub open spec fn tool_ended(self, outcome: OutcomeView, steer: Seq<Seq<char>>) -> (
        HandlerView,
        LoopAction,
    ) {
        let batch = self.batch.after(outcome);
        let next = HandlerView { batch, ..self };
        if !batch.is_done() {
            (next, LoopAction::RunTool)
        } else {
            let answered = HandlerView {
                conversation: self.conversation.added(
                    MessageView::user_blocks(answer_blocks(batch.results, steer)),
                ),
                ..next
            };
            if batch.cancelled {
                answered.ended(Ending::Cancelled)
            } else {
                (
                    HandlerView { phase: LoopPhase::AwaitingAfterTools, ..answered },
                    LoopAction::SendRequest,
                )
            }
        }
    }

    /// The loop after the summary that follows too many rounds.
    pub open spec fn summarized(self, content: Seq<BodyView>) -> (HandlerView, LoopAction) {
        let kept = lifecycle::without_calls(api::as_message_blocks(content));
        HandlerView {
            conversation: if kept.len() > 0 {
                self.conversation.added(MessageView::assistant_blocks(kept))
            } else {
                self.conversation
            },
            ..self
        }.ended(Ending::Summarized)
    }

    /// The loop after a response that it may have waited for.
    pub open spec fn responded(self, content: Seq<BodyView>, truncated: bool) -> (
        HandlerView,
        LoopAction,
    ) {
        match self.phase {
            LoopPhase::AwaitingFirst => self.received(content, truncated),
            LoopPhase::AwaitingAfterReasoning => if content.len() == 0 {
                self.ended(Ending::OnlyReasoning)
            } else {
                self.received(content, truncated)
            },
            LoopPhase::AwaitingAfterTools => if content.len() == 0 && !truncated {
                self.ended(Ending::SilentAfterTools)
            } else {
                self.received(content, truncated)
            },
            LoopPhase::AwaitingSummary => self.summarized(content),
            LoopPhase::RunningTools => (self, LoopAction::Ignored),
            LoopPhase::Finished => (self, LoopAction::Ignored),
        }
    }

    /// What the user sees of a response that the loop may have waited for.
    pub open spec fn responded_display(self, content: Seq<BodyView>, truncated: bool) -> Seq<
        DisplayView,
    > {
        match self.phase {
            LoopPhase::AwaitingFirst => self.received_display(content),
            LoopPhase::AwaitingAfterReasoning => if content.len() == 0 {
                Seq::empty()
            } else {
                self.received_display(content)
            },
            LoopPhase::AwaitingAfterTools => if content.len() == 0 && !truncated {
                Seq::empty()
            } else {
                self.received_display(content)
            },
            LoopPhase::AwaitingSummary => summary_display(content),
            LoopPhase::RunningTools => Seq::empty(),
            LoopPhase::Finished => Seq::empty(),
        }
    }

    /// Whether the usage of a response counts here. That of the first one
    /// was counted when it arrived.
    pub open spec fn counts_usage(self) -> bool {
        self.phase == LoopPhase::AwaitingAfterReasoning || self.phase
            == LoopPhase::AwaitingAfterTools || self.phase == LoopPhase::AwaitingSummary
    }

    pub open spec fn request(self) -> RequestView {
        request_builder::request_for(
            self.client,
            self.model,
            self.max_tokens,
            self.conversation,
            self.available_tools,
            self.reasoning_effort,
            self.session_id,
        )
    }
}

/// What a response amounts to: its visible text, its tool calls, and whether
/// it holds reasoning.
pub fn process_content_blocks(content_blocks: &Vec<ContentBlock>) -> (r: (
    Vec<String>,
    Vec<ToolCall>,
    bool,
))
    ensures
        text::views(r.0@) == texts_of(api::body_views(content_blocks@)),
        tool_batch::call_views(r.1@) == calls_of(api::body_views(content_blocks@)),
        r.2 == any_reasoning(api::body_views(content_blocks@)),
{
    let ghost all = api::body_views(content_blocks@);
    let mut text_output: Vec<String> = Vec::new();
    let mut tool_uses: Vec<ToolCall> = Vec::new();
    let mut had_reasoning = false;
    let mut i: usize = 0;
    assert(all.take(0) =~= Seq::<BodyView>::empty());
    assert(text::views(text_output@) =~= texts_of(all.take(0)));
    assert(tool_batch::call_views(tool_uses@) =~= calls_of(all.take(0)));
    while i < content_blocks.len()
        invariant
            all == api::body_views(content_blocks@),
            i <= content_blocks@.len(),
            text::views(text_output@) == texts_of(all.take(i as int)),
            tool_batch::call_views(tool_uses@) == calls_of(all.take(i as int)),
            had_reasoning == (exists|k: int| 0 <= k < i && is_reasoning(#[trigger] all[k])),
        decreases content_blocks@.len() - i,
    {
        proof {
            assert(all.take(i + 1).drop_last() =~= all.take(i as int));
            assert(all.take(i + 1).last() == content_blocks@[i as int]@);
            assert(all[i as int] == content_blocks@[i as int]@);
        }
        let ghost texts_before = text_output@;
        let ghost calls_before = tool_uses@;
        match &content_blocks[i] {
            ContentBlock::Text { text } => {
                if !text::is_blank(text.as_str()) {
                    text_output.push(text.clone());
                    assert(text::views(text_output@) =~= text::views(texts_before).push(text@));
                }
            },
            ContentBlock::Thinking { .. } => {
                had_reasoning = true;
            },
            ContentBlock::Summary { .. } => {
                had_reasoning = true;
            },
            ContentBlock::Compaction { .. } => {
                had_reasoning = true;
            },
            ContentBlock::Reasoning { .. } => {
                had_reasoning = true;
            },
            ContentBlock::ToolUse { id, name, input } => {
                let call = ToolCall { id: id.clone(), name: name.clone(), input: input.clone() };
                tool_uses.push(call);
                assert(tool_batch::call_views(tool_uses@) =~= tool_batch::call_views(
                    calls_before,
                ).push(call@));
            },
            ContentBlock::ServerToolUse { .. } => {},
            ContentBlock::WebSearchToolResult { content, .. } => {
                if content.len() > 0 {
                    let mut line = "\n[Web search returned ".to_owned();
                    line.append(text::decimal(content.len() as u128).as_str());
                    line.append(" results]");
                    text_output.push(line);
                    assert(text::views(text_output@) =~= text::views(texts_before).push(line@));
                }
            },
        }
        i = i + 1;
    }
    assert(all.take(i as int) =~= all);
    (text_output, tool_uses, had_reasoning)
}

fn message_blocks(content_blocks: &Vec<ContentBlock>) -> (r: Vec<MessageContentBlock>)
    ensures
        api::block_views(r@) == api::as_message_blocks(api::body_views(content_blocks@)),
{
    let ghost all = api::as_message_blocks(api::body_views(content_blocks@));
    let mut r: Vec<MessageContentBlock> = Vec::new();
    let mut i: usize = 0;
    while i < content_blocks.len()
        invariant
            all == api::as_message_blocks(api::body_views(content_blocks@)),
            i <= content_blocks@.len(),
            api::block_views(r@) =~= all.take(i as int),
        decreases content_blocks@.len() - i,
    {
        let ghost before = r@;
        r.push(MessageContentBlock::from_content_block_for_api(&content_blocks[i]));
        assert(api::block_views(r@) =~= api::block_views(before).push(all[i as int]));
        i = i + 1;
    }
    r
}

/// The messages that the user sent while the tools were running, as one
/// text, with an empty line between them. None are left afterwards.
pub fn drain_steer_messages(queue: &mut Vec<String>) -> (r: Option<String>)
    ensures
        final(queue)@.len() == 0,
        match r {
            Some(s) => old(queue)@.len() > 0 && s@ == text::joined(
                text::views(old(queue)@),
                "\n\n"@,
            ),
            None => old(queue)@.len() == 0,
        },
{
    if queue.len() == 0 {
        return None;
    }
    let joined = text::join(queue, "\n\n");
    queue.clear();
    Some(joined)
}

impl ResponseHandler {
    pub fn new(
        client: Provider,
        conversation: ConversationHistory,
        model: String,
        max_tokens: u32,
        reasoning_effort: ReasoningEffort,
        available_tools: Vec<Tool>,
        session_id: String,
    ) -> (r: Self)
        ensures
            r@ == (HandlerView {
                client,
                conversation: conversation@,
                model: model@,
                max_tokens,
                reasoning_effort,
                config: SofosConfig::standard(),
                available_tools: api::tool_views(available_tools@),
                session_id: session_id@,
                iteration: 0,
                phase: LoopPhase::AwaitingFirst,
                batch: BatchView::of(Seq::empty()),
            }),
    {
        let calls: Vec<ToolCall> = Vec::new();
        assert(tool_batch::call_views(calls@) =~= Seq::<CallView>::empty());
        ResponseHandler {
            client,
            conversation,
            model,
            max_tokens,
            reasoning_effort,
            config: SofosConfig::default(),
            available_tools,
            session_id,
            iteration: 0,
            phase: LoopPhase::AwaitingFirst,
            batch: ToolBatch::new(calls),
        }
    }

    fn receive(
        &mut self,
        content_blocks: &Vec<ContentBlock>,
        truncated: bool,
        display_messages: &mut Vec<DisplayMessage>,
    ) -> (action: LoopAction)
        ensures
            (final(self)@, action) == old(self)@.received(
                api::body_views(content_blocks@),
                truncated,
            ),
            model::display_views(final(display_messages)@) == model::display_views(
                old(display_messages)@,
            ) + old(self)@.received_display(api::body_views(content_blocks@)),
    {
        let ghost content = api::body_views(content_blocks@);
        let ghost shown = model::display_views(display_messages@);
        if self.iteration >= self.config.max_tool_iterations {
            let mut s =
                "SYSTEM INTERRUPTION: You have reached the maximum number of tool iterations (".to_owned();
            s.append(text::decimal(self.config.max_tool_iterations as u128).as_str());
            s.append(
                "). This limit prevents infinite loops. Please provide a summary of what you've accomplished so far and suggest how the user should proceed. Consider breaking down the task into smaller steps or asking the user for clarification.",
            );
            self.conversation.add_user_message(s);
            model::push_display(
                display_messages,
                DisplayMessage::UserMessage {
                    content: "[System: Maximum tool iterations reached]".to_owned(),
                },
            );
            assert(model::display_views(display_messages@) =~= shown + old(self)@.received_display(
                content,
            ));
            self.phase = LoopPhase::AwaitingSummary;
            return LoopAction::SendSummaryRequest;
        }
        self.iteration = self.iteration + 1;
        let (text_output, tool_uses, had_reasoning) = process_content_blocks(content_blocks);
        assert(text_output@.len() == texts_of(content).len());
        assert(tool_uses@.len() == calls_of(content).len());
        if text_output.len() > 0 {
            model::push_display(
                display_messages,
                DisplayMessage::AssistantMessage { content: text::join(&text_output, "\n") },
            );
        }
        assert(model::display_views(display_messages@) =~= shown + old(self)@.received_display(
            content,
        ));
        if content_blocks.len() > 0 {
            let mut blocks = message_blocks(content_blocks);
            if truncated {
                blocks = lifecycle::take_calls_out(&blocks);
                if blocks.len() == 0 {
                    blocks.push(MessageContentBlock::plain_text(CUT_OFF.to_owned()));
                    assert(api::block_views(blocks@) =~= kept_blocks(content, truncated));
                }
            }
            self.conversation.add_assistant_with_blocks(blocks);
        }
        if truncated {
            self.phase = LoopPhase::Finished;
            return LoopAction::Finish(Ending::Truncated);
        }
        if tool_uses.len() > 0 {
            self.batch = ToolBatch::new(tool_uses);
            self.phase = LoopPhase::RunningTools;
            return LoopAction::RunTool;
        }
        let silent = text_output.len() == 0;
        if silent && had_reasoning && matches!(self.client, Provider::OpenAI) {
            self.phase = LoopPhase::AwaitingAfterReasoning;
            return LoopAction::SendRequest;
        }
        self.phase = LoopPhase::Finished;
        if silent && !had_reasoning {
            LoopAction::Finish(Ending::EmptyResponse)
        } else {
            LoopAction::Finish(Ending::Complete)
        }
    }

    /// Takes a response into account: it enters the conversation, and what
    /// it calls for is done next. A response that was not waited for changes
    /// nothing.
    pub fn handle_response(
        &mut self,
        response: &CreateMessageResponse,
        counters: &mut SessionTokenCounters,
        display_messages: &mut Vec<DisplayMessage>,
    ) -> (action: LoopAction)
        ensures
            (final(self)@, action) == old(self)@.responded(
                api::body_views(response.content@),
                is_truncated(api::option_view(response.stop_reason)),
            ),
            *final(counters) == (if old(self)@.counts_usage() {
                old(counters).plus(response.usage)
            } else {
                *old(counters)
            }),
            model::display_views(final(display_messages)@) == model::display_views(
                old(display_messages)@,
            ) + old(self)@.responded_display(
                api::body_views(response.content@),
                is_truncated(api::option_view(response.stop_reason)),
            ),
    {
        let ghost shown = model::display_views(display_messages@);
        let truncated = match &response.stop_reason {
            Some(reason) => text::same(reason.as_str(), "max_tokens"),
            None => false,
        };
        match self.phase {
            LoopPhase::AwaitingFirst => self.receive(
                &response.content,
                truncated,
                display_messages,
            ),
            LoopPhase::AwaitingAfterReasoning => {
                counters.accumulate_usage(&response.usage);
                if response.content.len() == 0 {
                    self.phase = LoopPhase::Finished;
                    assert(model::display_views(display_messages@) =~= shown + Seq::empty());
                    LoopAction::Finish(Ending::OnlyReasoning)
                } else {
                    self.receive(&response.content, truncated, display_messages)
                }
            },
            LoopPhase::AwaitingAfterTools => {
                counters.accumulate_usage(&response.usage);
                if response.content.len() == 0 && !truncated {
                    self.phase = LoopPhase::Finished;
                    assert(model::display_views(display_messages@) =~= shown + Seq::empty());
                    LoopAction::Finish(Ending::SilentAfterTools)
                } else {
                    self.receive(&response.content, truncated, display_messages)
                }
            },
            LoopPhase::AwaitingSummary => {
                counters.accumulate_usage(&response.usage);
                self.handle_max_iterations(&response.content, display_messages)
            },
            _ => {
                assert(model::display_views(display_messages@) =~= shown + Seq::empty());
                LoopAction::Ignored
            },
        }
    }

    /// Takes the summary that follows too many rounds into account. A tool
    /// call in it would never be answered, so it does not enter the
    /// conversation.
    fn handle_max_iterations(
        &mut self,
        content_blocks: &Vec<ContentBlock>,
        display_messages: &mut Vec<DisplayMessage>,
    ) -> (action: LoopAction)
        ensures
            (final(self)@, action) == old(self)@.summarized(api::body_views(content_blocks@)),
            model::display_views(final(display_messages)@) == model::display_views(
                old(display_messages)@,
            ) + summary_display(api::body_views(content_blocks@)),
    {
        let ghost all = api::body_views(content_blocks@);
        let ghost shown = model::display_views(display_messages@);
        let mut i: usize = 0;
        assert(all.take(0) =~= Seq::<BodyView>::empty());
        assert(shown + summary_display(all.take(0)) =~= shown);
        while i < content_blocks.len()
            invariant
                all == api::body_views(content_blocks@),
                i <= content_blocks@.len(),
                model::display_views(display_messages@) == shown + summary_display(
                    all.take(i as int),
                ),
            decreases content_blocks@.len() - i,
        {
            proof {
                assert(all.take(i + 1).drop_last() =~= all.take(i as int));
                assert(all.take(i + 1).last() == content_blocks@[i as int]@);
            }
            if let ContentBlock::Text { text } = &content_blocks[i] {
                if !text::is_blank(text.as_str()) {
                    let ghost before = model::display_views(display_messages@);
                    model::push_display(
                        display_messages,
                        DisplayMessage::AssistantMessage { content: text.clone() },
                    );
                    assert(model::display_views(display_messages@) =~= shown + summary_display(
                        all.take(i + 1),
                    ));
                }
            }
            i = i + 1;
        }
        assert(all.take(i as int) =~= all);
        let blocks = lifecycle::take_calls_out(&message_blocks(content_blocks));
        if blocks.len() > 0 {
            self.conversation.add_assistant_with_blocks(blocks);
        }
        self.phase = LoopPhase::Finished;
        LoopAction::Finish(Ending::Summarized)
    }

    /// Takes the end of the current tool call into account. Once every call
    /// is answered, the answers enter the conversation together with what
    /// the user sent meanwhile. What was not waited for changes nothing.
    pub fn execute_tools(
        &mut self,
        outcome: ToolOutcome,
        display_messages: &mut Vec<DisplayMessage>,
        steer: &mut Vec<String>,
    ) -> (action: LoopAction)
        ensures
            ({
                let running = old(self)@.phase == LoopPhase::RunningTools
                    && !old(self)@.batch.is_done();
                &&& !running ==> action == LoopAction::Ignored && final(self)@ == old(self)@
                    && final(steer)@ == old(steer)@ && model::display_views(
                    final(display_messages)@,
                ) == model::display_views(old(display_messages)@)
                &&& running ==> (final(self)@, action) == old(self)@.tool_ended(
                    outcome@,
                    text::views(old(steer)@),
                ) && model::display_views(final(display_messages)@) == model::display_views(
                    old(display_messages)@,
                ).push(old(self)@.batch.shown(outcome@)) && final(steer)@ == (
                if final(self)@.batch.is_done() {
                    Seq::empty()
                } else {
                    old(steer)@
                })
            }),
    {
        if !matches!(self.phase, LoopPhase::RunningTools) || self.batch.is_done() {
            return LoopAction::Ignored;
        }
        self.batch.finish_current(outcome, display_messages);
        if !self.batch.is_done() {
            return LoopAction::RunTool;
        }
        let mut blocks = api::clone_blocks(&self.batch.results);
        let ghost results = api::block_views(blocks@);
        if let Some(steer_text) = drain_steer_messages(steer) {
            let mut s = STEER_PREFIX.to_owned();
            s.append(steer_text.as_str());
            let ghost before = blocks@;
            blocks.push(MessageContentBlock::plain_text(s));
            assert(api::block_views(blocks@) =~= api::block_views(before).push(
                BlockView::text(s@),
            ));
            self.conversation.add_user_with_blocks(blocks);
        } else {
            self.conversation.add_tool_results(blocks);
        }
        assert(steer@ =~= Seq::<String>::empty());
        if self.batch.cancelled {
            self.phase = LoopPhase::Finished;
            LoopAction::Finish(Ending::Cancelled)
        } else {
            self.phase = LoopPhase::AwaitingAfterTools;
            LoopAction::SendRequest
        }
    }

    /// The next request.
    pub fn build_request(&self) -> (r: CreateMessageRequest)
        ensures
            r@ == self@.request(),
    {
        RequestBuilder::new(
            self.client,
            self.model.as_str(),
            self.max_tokens,
            &self.conversation,
            api::clone_tools(&self.available_tools),
            self.reasoning_effort,
            self.session_id.as_str(),
        ).build()
    }

    /// The request for a summary after too many rounds. It offers no tools,
    /// so that the answer calls none.
    pub fn build_summary_request(&self) -> (r: CreateMessageRequest)
        ensures
            r@ == (RequestView { tools: None, ..self@.request() }),
    {
        let mut request = self.build_request();
        request.tools = None;
        request
    }

    /// The conversation so far.
    pub fn conversation(&self) -> (r: &ConversationHistory)
        ensures
            r@ == self@.conversation,
    {
        &self.conversation
    }
}

} // verus!
