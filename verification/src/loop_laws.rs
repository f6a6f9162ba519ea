//! What the loop that answers a user's turn makes of a response and of the
//! end of a tool call.

use crate::api;
use crate::api::{BlockView, BodyView, ContentView, MessageView};
use crate::conversation::history_laws;
use crate::response_handler;
use crate::response_handler::{Ending, HandlerView, LoopAction, LoopPhase};
use crate::session::model::DisplayView;
use crate::text;
use crate::tool_batch::{CallView, OutcomeView};
use vstd::prelude::*;

verus! {

/// Whether the user sees something of a block: a text that is not blank, or
/// a web search that found something.
pub open spec fn is_seen(b: BodyView) -> bool {
    match b {
        BodyView::Text { text } => text::trimmed(text).len() > 0,
        BodyView::WebSearchToolResult { content, .. } => content.len() > 0,
        _ => false,
    }
}

/// Whether a block is one of the four kinds of reasoning.
pub open spec fn is_thought(b: BodyView) -> bool {
    match b {
        BodyView::Thinking { .. } => true,
        BodyView::Summary { .. } => true,
        BodyView::Compaction { .. } => true,
        BodyView::Reasoning { .. } => true,
        _ => false,
    }
}

pub open spec fn any_seen(v: Seq<BodyView>) -> bool {
    exists|i: int| 0 <= i < v.len() && is_seen(#[trigger] v[i])
}

pub open spec fn any_thought(v: Seq<BodyView>) -> bool {
    exists|i: int| 0 <= i < v.len() && is_thought(#[trigger] v[i])
}

pub open spec fn any_tool(v: Seq<BodyView>) -> bool {
    exists|i: int| 0 <= i < v.len() && (#[trigger] v[i]) is ToolUse
}

/// A response is read block by block, in order.
pub proof fn response_is_read_in_order(a: Seq<BodyView>, b: Seq<BodyView>)
    ensures
        response_handler::texts_of(a + b) == response_handler::texts_of(a)
            + response_handler::texts_of(b),
        response_handler::calls_of(a + b) == response_handler::calls_of(a)
            + response_handler::calls_of(b),
    decreases b.len(),
{
    if b.len() == 0 {
        assert(a + b =~= a);
        assert(response_handler::texts_of(a) + response_handler::texts_of(b)
            =~= response_handler::texts_of(a));
        assert(response_handler::calls_of(a) + response_handler::calls_of(b)
            =~= response_handler::calls_of(a));
    } else {
        assert((a + b).drop_last() =~= a + b.drop_last());
        assert((a + b).last() == b.last());
        response_is_read_in_order(a, b.drop_last());
        assert(response_handler::texts_of(a + b) =~= response_handler::texts_of(a)
            + response_handler::texts_of(b));
        assert(response_handler::calls_of(a + b) =~= response_handler::calls_of(a)
            + response_handler::calls_of(b));
    }
}

/// Of a text the user sees the text itself, of a web search how much it
/// found, and of nothing else anything. Only the model's own tool calls are
/// run.
pub proof fn block_is_read_by_its_kind(b: BodyView)
    ensures
        ({
            let seen = response_handler::texts_of(seq![b]);
            match b {
                BodyView::Text { text } => if text::trimmed(text).len() > 0 {
                    seen == seq![text]
                } else {
                    seen.len() == 0
                },
                BodyView::WebSearchToolResult { content, .. } => if content.len() > 0 {
                    seen == seq![
                        "\n[Web search returned "@ + text::decimal_of(content.len()) + " results]"@,
                    ]
                } else {
                    seen.len() == 0
                },
                _ => seen.len() == 0,
            }
        }),
        ({
            let run = response_handler::calls_of(seq![b]);
            match b {
                BodyView::ToolUse { id, name, input } => run == seq![CallView { id, name, input }],
                _ => run.len() == 0,
            }
        }),
{
    let none = Seq::<BodyView>::empty();
    assert(seq![b].drop_last() =~= none);
    assert(response_handler::texts_of(none) =~= Seq::<Seq<char>>::empty());
    assert(response_handler::calls_of(none) =~= Seq::<CallView>::empty());
    let seen = response_handler::texts_of(seq![b]);
    if seen.len() == 1 {
        assert(seen =~= seq![seen[0]]);
    }
    let run = response_handler::calls_of(seq![b]);
    if run.len() == 1 {
        assert(run =~= seq![run[0]]);
    }
}

proof fn lemma_seen(v: Seq<BodyView>)
    ensures
        (response_handler::texts_of(v).len() > 0) == any_seen(v),
        (response_handler::calls_of(v).len() > 0) == any_tool(v),
    decreases v.len(),
{
    if v.len() > 0 {
        let t = v.drop_last();
        lemma_seen(t);
        if any_seen(t) {
            let i = choose|i: int| 0 <= i < t.len() && is_seen(#[trigger] t[i]);
            assert(v[i] == t[i]);
        }
        if any_tool(t) {
            let i = choose|i: int| 0 <= i < t.len() && (#[trigger] t[i]) is ToolUse;
            assert(v[i] == t[i]);
        }
        if is_seen(v.last()) {
            assert(is_seen(v[v.len() - 1]));
        }
        if v.last() is ToolUse {
            assert(v[v.len() - 1] is ToolUse);
        }
        if any_seen(v) && !any_seen(t) {
            let i = choose|i: int| 0 <= i < v.len() && is_seen(#[trigger] v[i]);
            if i < t.len() {
                assert(t[i] == v[i]);
            }
        }
        if any_tool(v) && !any_tool(t) {
            let i = choose|i: int| 0 <= i < v.len() && (#[trigger] v[i]) is ToolUse;
            if i < t.len() {
                assert(t[i] == v[i]);
            }
        }
    }
}

proof fn lemma_thought(v: Seq<BodyView>)
    ensures
        response_handler::any_reasoning(v) == any_thought(v),
{
    if response_handler::any_reasoning(v) {
        let i = choose|i: int| 0 <= i < v.len() && response_handler::is_reasoning(#[trigger] v[i]);
        assert(is_thought(v[i]));
    }
    if any_thought(v) {
        let i = choose|i: int| 0 <= i < v.len() && is_thought(#[trigger] v[i]);
        assert(response_handler::is_reasoning(v[i]));
    }
}

/// Whether a loop waits for a response that it will take into account.
pub open spec fn takes(h: HandlerView, content: Seq<BodyView>, truncated: bool) -> bool {
    &&& h.iteration < h.config.max_tool_iterations
    &&& {
        ||| h.phase is AwaitingFirst
        ||| h.phase is AwaitingAfterReasoning && content.len() > 0
        ||| h.phase is AwaitingAfterTools && (content.len() > 0 || truncated)
    }
}

/// What follows a response: nothing where it was cut off; its tools where it
/// calls any; another request where it is made of reasoning alone and the
/// provider is the one that stops there; and nothing otherwise. It counts
/// as one round.
pub proof fn next_step_follows_the_response(
    h: HandlerView,
    content: Seq<BodyView>,
    truncated: bool,
)
    requires
        takes(h, content, truncated),
    ensures
        ({
            let (now, action) = h.responded(content, truncated);
            let mute = !any_seen(content) && !any_tool(content);
            &&& now.iteration == h.iteration + 1
            &&& truncated ==> action == LoopAction::Finish(Ending::Truncated)
            &&& !truncated && any_tool(content) ==> {
                &&& action is RunTool
                &&& now.phase is RunningTools
                &&& now.batch.calls == response_handler::calls_of(content)
                &&& now.batch.next == 0
                &&& now.batch.results.len() == 0
                &&& !now.batch.cancelled
            }
            &&& !truncated && mute && any_thought(content) && h.client is OpenAI
                ==> action is SendRequest && now.phase is AwaitingAfterReasoning
            &&& !truncated && mute && any_thought(content) && h.client is Anthropic ==> action
                == LoopAction::Finish(Ending::Complete)
            &&& !truncated && mute && !any_thought(content) ==> action == LoopAction::Finish(
                Ending::EmptyResponse,
            )
            &&& !truncated && !any_tool(content) && any_seen(content) ==> action
                == LoopAction::Finish(Ending::Complete)
            &&& action is Finish ==> now.phase is Finished
            &&& now.client == h.client && now.model == h.model && now.max_tokens == h.max_tokens
                && now.reasoning_effort == h.reasoning_effort && now.config == h.config
                && now.available_tools == h.available_tools && now.session_id == h.session_id
        }),
{
    lemma_seen(content);
    lemma_thought(content);
}

/// A response enters the conversation as one turn of the assistant, with all
/// its blocks in order and without markers. One that was cut off leaves its
/// tool calls out, and says so where nothing else is left. An empty response
/// leaves the conversation alone.
pub proof fn response_enters_the_conversation(
    h: HandlerView,
    content: Seq<BodyView>,
    truncated: bool,
)
    requires
        takes(h, content, truncated),
    ensures
        ({
            let now = h.responded(content, truncated).0.conversation;
            let all = Seq::new(
                content.len(),
                |i: int| BlockView { body: content[i], cache: None },
            );
            let kept = history_laws::without_steps(all);
            let turn = |blocks: Seq<BlockView>|
                MessageView { role: "assistant"@, content: ContentView::Blocks { content: blocks } };
            let cut = BlockView {
                body: BodyView::Text {
                    text: "[Response cut off by token limit before any visible content.]"@,
                },
                cache: None,
            };
            &&& content.len() == 0 ==> now == h.conversation
            &&& content.len() > 0 && !truncated ==> now == h.conversation.added(turn(all))
            &&& content.len() > 0 && truncated && kept.len() > 0 ==> now == h.conversation.added(
                turn(kept),
            )
            &&& content.len() > 0 && truncated && kept.len() == 0 ==> now == h.conversation.added(
                turn(seq![cut]),
            )
        }),
{
    let all = Seq::new(content.len(), |i: int| BlockView { body: content[i], cache: None });
    assert(api::as_message_blocks(content) =~= all);
    history_laws::lemma_without_steps(all);
}

/// A loop that went round as often as it may takes no response any more: the
/// model is told how often that was and asked for a summary.
pub proof fn exhausted_loop_asks_for_a_summary(
    h: HandlerView,
    content: Seq<BodyView>,
    truncated: bool,
)
    requires
        h.iteration >= h.config.max_tool_iterations,
        h.phase is AwaitingFirst || h.phase is AwaitingAfterReasoning
            || h.phase is AwaitingAfterTools,
        content.len() > 0,
    ensures
        ({
            let (now, action) = h.responded(content, truncated);
            &&& action is SendSummaryRequest
            &&& now.phase is AwaitingSummary
            &&& now.iteration == h.iteration
            &&& now.conversation == h.conversation.added(
                MessageView {
                    role: "user"@,
                    content: ContentView::Text {
                        content:
                            "SYSTEM INTERRUPTION: You have reached the maximum number of tool iterations ("@
                            + text::decimal_of(h.config.max_tool_iterations as nat)
                            + "). This limit prevents infinite loops. Please provide a summary of what you've accomplished so far and suggest how the user should proceed. Consider breaking down the task into smaller steps or asking the user for clarification."@,
                    },
                },
            )
            &&& h.responded_display(content, truncated) == seq![
                DisplayView::UserMessage {
                    content: "[System: Maximum tool iterations reached]"@,
                },
            ]
        }),
{
}

/// Nothing behind reasoning and nothing behind the answers to tool calls end
/// the loop, each in its own way, with the conversation as it was. A loop
/// that runs tools or has ended waits for no response.
pub proof fn empty_responses_end_the_loop(h: HandlerView, content: Seq<BodyView>, truncated: bool)
    ensures
        h.phase is AwaitingAfterReasoning && content.len() == 0 ==> {
            let (now, action) = h.responded(content, truncated);
            &&& action == LoopAction::Finish(Ending::OnlyReasoning)
            &&& now == HandlerView { phase: LoopPhase::Finished, ..h }
            &&& h.responded_display(content, truncated).len() == 0
        },
        h.phase is AwaitingAfterTools && content.len() == 0 && !truncated ==> {
            let (now, action) = h.responded(content, truncated);
            &&& action == LoopAction::Finish(Ending::SilentAfterTools)
            &&& now == HandlerView { phase: LoopPhase::Finished, ..h }
            &&& h.responded_display(content, truncated).len() == 0
        },
        h.phase is RunningTools || h.phase is Finished ==> {
            &&& h.responded(content, truncated) == (h, LoopAction::Ignored)
            &&& h.responded_display(content, truncated).len() == 0
        },
{
}

/// The summary ends the loop. It enters the conversation without tool calls,
/// and not at all where nothing else is in it; the user sees each of its
/// texts that is not blank.
pub proof fn summary_is_kept_without_calls(
    h: HandlerView,
    content: Seq<BodyView>,
    truncated: bool,
)
    requires
        h.phase is AwaitingSummary,
    ensures
        ({
            let (now, action) = h.responded(content, truncated);
            let all = Seq::new(
                content.len(),
                |i: int| BlockView { body: content[i], cache: None },
            );
            let kept = history_laws::without_steps(all);
            &&& action == LoopAction::Finish(Ending::Summarized)
            &&& now.phase is Finished
            &&& kept.len() == 0 ==> now.conversation == h.conversation
            &&& kept.len() > 0 ==> now.conversation == h.conversation.added(
                MessageView { role: "assistant"@, content: ContentView::Blocks { content: kept } },
            )
            &&& h.responded_display(content, truncated) == spoken(content)
        }),
{
    let all = Seq::new(content.len(), |i: int| BlockView { body: content[i], cache: None });
    assert(api::as_message_blocks(content) =~= all);
    history_laws::lemma_without_steps(all);
    lemma_spoken(content);
}

/// One entry for every text of a response that is not blank, in order.
pub open spec fn spoken(v: Seq<BodyView>) -> Seq<DisplayView>
    decreases v.len(),
{
    if v.len() == 0 {
        Seq::empty()
    } else if v.first() is Text && text::trimmed(v.first()->Text_text).len() > 0 {
        seq![DisplayView::AssistantMessage { content: v.first()->Text_text }] + spoken(
            v.drop_first(),
        )
    } else {
        spoken(v.drop_first())
    }
}

proof fn lemma_spoken_push(v: Seq<BodyView>, b: BodyView)
    ensures
        spoken(v.push(b)) == (if b is Text && text::trimmed(b->Text_text).len() > 0 {
            spoken(v).push(DisplayView::AssistantMessage { content: b->Text_text })
        } else {
            spoken(v)
        }),
    decreases v.len(),
{
    if v.len() == 0 {
        assert(v.push(b).drop_first() =~= v);
        assert(spoken(v.push(b)) =~= (if b is Text && text::trimmed(b->Text_text).len() > 0 {
            spoken(v).push(DisplayView::AssistantMessage { content: b->Text_text })
        } else {
            spoken(v)
        }));
    } else {
        assert(v.push(b).drop_first() =~= v.drop_first().push(b));
        assert(v.push(b).first() == v.first());
        lemma_spoken_push(v.drop_first(), b);
        assert(spoken(v.push(b)) =~= (if b is Text && text::trimmed(b->Text_text).len() > 0 {
            spoken(v).push(DisplayView::AssistantMessage { content: b->Text_text })
        } else {
            spoken(v)
        }));
    }
}

proof fn lemma_spoken(v: Seq<BodyView>)
    ensures
        response_handler::summary_display(v) == spoken(v),
    decreases v.len(),
{
    if v.len() > 0 {
        lemma_spoken(v.drop_last());
        lemma_spoken_push(v.drop_last(), v.last());
        assert(v =~= v.drop_last().push(v.last()));
    }
}

/// The user sees all texts of a response at once, one per line, and nothing
/// of one that says nothing.
pub proof fn user_sees_a_response_at_once(h: HandlerView, content: Seq<BodyView>, truncated: bool)
    requires
        takes(h, content, truncated),
    ensures
        any_seen(content) ==> h.responded_display(content, truncated) == seq![
            DisplayView::AssistantMessage {
                content: text::joined(response_handler::texts_of(content), "\n"@),
            },
        ],
        !any_seen(content) ==> h.responded_display(content, truncated).len() == 0,
{
    lemma_seen(content);
}

/// Every response is billed once: the first when it arrived, and each later
/// one that the loop waits for when the loop takes it.
pub proof fn later_responses_are_billed_here(h: HandlerView)
    ensures
        h.counts_usage() == !(h.phase is AwaitingFirst || h.phase is RunningTools
            || h.phase is Finished),
{
}

/// Only the token limit cuts a response off.
pub proof fn only_the_token_limit_cuts_off(reason: Seq<char>)
    ensures
        !response_handler::is_truncated(None),
        response_handler::is_truncated(Some(reason)) == (reason == "max_tokens"@),
{
}

/// The end of a tool call leads to the next one. After the last, the answers
/// enter the conversation as one turn of the user, with what the user said
/// meanwhile behind them, and the next request is sent, unless the user
/// declined a deletion: then the loop ends.
pub proof fn answers_enter_the_conversation(
    h: HandlerView,
    outcome: OutcomeView,
    steer: Seq<Seq<char>>,
)
    ensures
        ({
            let (now, action) = h.tool_ended(outcome, steer);
            let batch = h.batch.after(outcome);
            let turn = |blocks: Seq<BlockView>|
                MessageView { role: "user"@, content: ContentView::Blocks { content: blocks } };
            let said = BlockView {
                body: BodyView::Text {
                    text:
                        "[User sent this message while you were working on the current task. Take it into account and adjust your plan if needed]:\n"@
                        + text::joined(steer, "\n\n"@),
                },
                cache: None,
            };
            &&& now.batch == batch
            &&& now.iteration == h.iteration
            &&& batch.next < batch.calls.len() ==> action is RunTool && now.conversation
                == h.conversation && now.phase == h.phase
            &&& batch.next >= batch.calls.len() && steer.len() == 0 ==> now.conversation
                == h.conversation.added(turn(batch.results))
            &&& batch.next >= batch.calls.len() && steer.len() > 0 ==> now.conversation
                == h.conversation.added(turn(batch.results.push(said)))
            &&& batch.next >= batch.calls.len() && batch.cancelled ==> action
                == LoopAction::Finish(Ending::Cancelled) && now.phase is Finished
            &&& batch.next >= batch.calls.len() && !batch.cancelled ==> action is SendRequest
                && now.phase is AwaitingAfterTools
        }),
{
}

/// The next request is made from the conversation as it is, for the model,
/// the tools and the effort that the loop was started with.
pub proof fn requests_are_made_from_the_conversation(h: HandlerView)
    ensures
        h.request().model == h.model,
        h.request().max_tokens == h.max_tokens,
        h.request().messages.len() == h.conversation.messages.len(),
        h.request().system == Some(h.conversation.system),
        h.request().prompt_cache_key == Some(h.session_id),
        h.client is OpenAI ==> h.request().messages == h.conversation.messages,
        h.client is OpenAI ==> h.request().tools == Some(h.available_tools),
{
}

} // verus!
