//! What holds of the loop that answers a user's turn.

use crate::api;
use crate::api::{BlockView, BodyView, MessageView};
use crate::conversation::laws;
use crate::conversation::lifecycle;
use crate::conversation::HistoryView;
use crate::response_handler;
use crate::response_handler::{HandlerView, LoopAction, LoopPhase};
use crate::text;
use crate::tool_batch;
use crate::tool_batch::OutcomeView;
use vstd::prelude::*;

verus! {

/// Whether a response is one that a provider can give: it answers no tool
/// call of its own.
pub open spec fn is_response(content: Seq<BodyView>) -> bool {
    forall|i: int| 0 <= i < content.len() ==> !(#[trigger] content[i] is ToolResult)
}

/// What the loop keeps: the conversation is one that a provider accepts,
/// and while tools run, its last message makes all the calls that are being
/// answered.
pub open spec fn loop_holds(h: HandlerView) -> bool {
    &&& h.conversation.config.max_messages >= 1
    &&& laws::well_paired(h.conversation.messages)
    &&& h.phase == LoopPhase::RunningTools ==> {
        &&& h.batch.wf()
        &&& h.conversation.messages.len() > 0
        &&& forall|i: int|
            0 <= i < h.batch.calls.len() ==> laws::calls(
                h.conversation.messages.last(),
                (#[trigger] h.batch.calls[i]).id,
            )
    }
}

proof fn lemma_push_paired(ms: Seq<MessageView>, m: MessageView)
    requires
        laws::well_paired(ms),
        m.has_tool_result() ==> m.is_user() && ms.len() > 0,
        ms.len() > 0 ==> laws::answers_only(m, ms.last()),
    ensures
        laws::well_paired(ms.push(m)),
{
    let t = ms.push(m);
    assert forall|i: int| 0 <= i < t.len() && (#[trigger] t[i]).has_tool_result() implies t[i].is_user() by {
        if i < ms.len() {
            assert(ms[i].has_tool_result());
        }
    }
    assert forall|i: int, j: int| 0 <= i && j == i + 1 && j < t.len() implies #[trigger] laws::answers_only(
        t[j],
        t[i],
    ) by {
        if j < ms.len() {
            assert(laws::answers_only(ms[j], ms[i]));
        }
    }
    if ms.len() > 0 {
        assert(t[0] == ms[0]);
    }
}

proof fn lemma_added_paired(h: HistoryView, m: MessageView)
    requires
        laws::well_paired(h.messages),
        m.has_tool_result() ==> m.is_user() && h.messages.len() > 0,
        h.messages.len() > 0 ==> laws::answers_only(m, h.messages.last()),
    ensures
        laws::well_paired(h.added(m).messages),
        h.added(m).config == h.config,
{
    lemma_push_paired(h.messages, m);
    laws::trim_keeps_calls_and_answers_paired(
        HistoryView { messages: h.messages.push(m), ..h },
    );
}

proof fn lemma_without_calls_subset(v: Seq<BlockView>, i: int)
    requires
        0 <= i < lifecycle::without_calls(v).len(),
    ensures
        v.contains(lifecycle::without_calls(v)[i]),
        !lifecycle::without_calls(v)[i].body.is_tool_call(),
    decreases v.len(),
{
    reveal(Seq::filter);
    if v.len() > 0 {
        let before = lifecycle::without_calls(v.drop_last());
        if i < before.len() {
            lemma_without_calls_subset(v.drop_last(), i);
            assert(lifecycle::without_calls(v)[i] == before[i]);
            let k = choose|k: int| 0 <= k < v.drop_last().len() && v.drop_last()[k] == before[i];
            assert(v[k] == before[i]);
        } else {
            assert(lifecycle::without_calls(v)[i] == v.last());
            assert(v[v.len() - 1] == v.last());
        }
    }
}

proof fn lemma_kept_has_no_results(content: Seq<BodyView>, truncated: bool)
    requires
        is_response(content),
    ensures
        !lifecycle::any_result(response_handler::kept_blocks(content, truncated)),
{
    let all = api::as_message_blocks(content);
    let kept = response_handler::kept_blocks(content, truncated);
    assert forall|i: int| 0 <= i < all.len() implies !((#[trigger] all[i]).body is ToolResult) by {
        assert(!(content[i] is ToolResult));
    }
    if truncated && lifecycle::without_calls(all).len() > 0 {
        assert forall|i: int| 0 <= i < kept.len() implies !((#[trigger] kept[i]).body is ToolResult) by {
            lemma_without_calls_subset(all, i);
            let k = choose|k: int| 0 <= k < all.len() && all[k] == kept[i];
            assert(!(all[k].body is ToolResult));
        }
    }
}

proof fn lemma_calls_of(content: Seq<BodyView>, k: int) -> (i: int)
    requires
        0 <= k < response_handler::calls_of(content).len(),
    ensures
        0 <= i < content.len(),
        content[i] is ToolUse,
        content[i]->ToolUse_id == response_handler::calls_of(content)[k].id,
    decreases content.len(),
{
    if content.len() == 0 {
        0
    } else {
        let before = response_handler::calls_of(content.drop_last());
        if k < before.len() {
            lemma_calls_of(content.drop_last(), k)
        } else {
            content.len() - 1
        }
    }
}

proof fn lemma_answered_is_listed(v: Seq<BlockView>, i: int)
    requires
        0 <= i < v.len(),
        v[i].body is ToolResult,
    ensures
        tool_batch::answered_ids(v).contains(v[i].body->ToolResult_tool_use_id),
    decreases v.len(),
{
    let ids = tool_batch::answered_ids(v);
    let before = tool_batch::answered_ids(v.drop_last());
    if i == v.len() - 1 {
        assert(ids[ids.len() - 1] == v[i].body->ToolResult_tool_use_id);
    } else {
        lemma_answered_is_listed(v.drop_last(), i);
        let id = v[i].body->ToolResult_tool_use_id;
        let k = choose|k: int| 0 <= k < before.len() && before[k] == id;
        assert(ids[k] == id);
    }
}

/// A response keeps the conversation one that the provider accepts, however
/// it ends and whatever it calls.
pub proof fn responses_keep_the_conversation_paired(
    h: HandlerView,
    content: Seq<BodyView>,
    truncated: bool,
)
    requires
        loop_holds(h),
        is_response(content),
    ensures
        loop_holds(h.responded(content, truncated).0),
{
    let kept = response_handler::kept_blocks(content, truncated);
    let m = MessageView::assistant_blocks(kept);
    lemma_kept_has_no_results(content, truncated);
    assert(!m.has_tool_result());
    lemma_added_paired(h.conversation, m);
    let note = MessageView::user(
        response_handler::interruption_text(h.config.max_tool_iterations as nat),
    );
    assert(!note.has_tool_result());
    lemma_added_paired(h.conversation, note);
    let quiet = lifecycle::without_calls(api::as_message_blocks(content));
    let s = MessageView::assistant_blocks(quiet);
    lemma_summary_has_no_results(content);
    assert(!s.has_tool_result());
    lemma_added_paired(h.conversation, s);
    let next = h.responded(content, truncated).0;
    if next.phase == LoopPhase::RunningTools && h.phase != LoopPhase::RunningTools {
        let calls = response_handler::calls_of(content);
        tool_batch::new_batch_is_wf(calls);
        assert(content.len() > 0) by {
            let _ = lemma_calls_of(content, 0);
        }
        laws::added_message_comes_last(h.conversation, m);
        assert forall|i: int| 0 <= i < calls.len() implies laws::calls(
            next.conversation.messages.last(),
            (#[trigger] calls[i]).id,
        ) by {
            let k = lemma_calls_of(content, i);
            assert(m.content->Blocks_content[k].body == content[k]);
        }
    }
}

proof fn lemma_summary_has_no_results(content: Seq<BodyView>)
    requires
        is_response(content),
    ensures
        !lifecycle::any_result(lifecycle::without_calls(api::as_message_blocks(content))),
{
    let all = api::as_message_blocks(content);
    let kept = lifecycle::without_calls(all);
    assert forall|i: int| 0 <= i < kept.len() implies !((#[trigger] kept[i]).body is ToolResult) by {
        lemma_without_calls_subset(all, i);
        let k = choose|k: int| 0 <= k < all.len() && all[k] == kept[i];
        assert(!(content[k] is ToolResult));
    }
}

/// The end of a tool call keeps the conversation one that the provider
/// accepts: the calls stay unanswered in it only until all of them are
/// answered at once.
pub proof fn tools_keep_the_conversation_paired(
    h: HandlerView,
    outcome: OutcomeView,
    steer: Seq<Seq<char>>,
)
    requires
        loop_holds(h),
        h.phase == LoopPhase::RunningTools,
        !h.batch.is_done(),
    ensures
        loop_holds(h.tool_ended(outcome, steer).0),
        h.tool_ended(outcome, steer).0.batch.wf(),
{
    let batch = h.batch.after(outcome);
    tool_batch::every_call_is_answered_once(h.batch, outcome);
    if batch.is_done() {
        tool_batch::finished_batch_answers_all_calls(batch);
        let blocks = response_handler::answer_blocks(batch.results, steer);
        let m = MessageView::user_blocks(blocks);
        let last = h.conversation.messages.last();
        assert forall|i: int| 0 <= i < blocks.len() && (#[trigger] blocks[i]).body is ToolResult implies
            laws::calls(last, blocks[i].body->ToolResult_tool_use_id) by {
            assert(i < batch.results.len());
            assert(blocks[i] == batch.results[i]);
            let id = blocks[i].body->ToolResult_tool_use_id;
            lemma_answered_is_listed(batch.results, i);
            let ids = tool_batch::call_ids(batch.calls);
            let k = choose|k: int| 0 <= k < ids.len() && ids[k] == id;
            assert(h.batch.calls[k].id == id);
        }
        lemma_added_paired(h.conversation, m);
    }
}

/// A response that was cut off leaves something in the conversation, and no
/// tool call.
pub proof fn cut_off_response_leaves_no_call(content: Seq<BodyView>)
    ensures
        response_handler::kept_blocks(content, true).len() > 0,
        !lifecycle::any_call(response_handler::kept_blocks(content, true)),
{
    let all = api::as_message_blocks(content);
    let kept = response_handler::kept_blocks(content, true);
    if lifecycle::without_calls(all).len() > 0 {
        assert forall|i: int| 0 <= i < kept.len() implies !(#[trigger] kept[i]).body.is_tool_call() by {
            lemma_without_calls_subset(all, i);
        }
    }
}

/// The loop takes at most as many responses into account as it may, and
/// after that asks for a summary.
pub proof fn loop_is_bounded(h: HandlerView, content: Seq<BodyView>, truncated: bool)
    requires
        h.iteration <= h.config.max_tool_iterations,
    ensures
        h.responded(content, truncated).0.iteration <= h.config.max_tool_iterations,
        h.iteration == h.config.max_tool_iterations ==> {
            let (next, action) = h.responded(content, truncated);
            &&& next.iteration == h.iteration
            &&& action != LoopAction::RunTool && action != LoopAction::SendRequest
        },
{
}

/// Once a summary was asked for, the next response ends the loop.
pub proof fn summary_ends_the_loop(h: HandlerView, content: Seq<BodyView>, truncated: bool)
    requires
        h.phase == LoopPhase::AwaitingSummary,
    ensures
        h.responded(content, truncated).0.phase == LoopPhase::Finished,
        h.responded(content, truncated).1 is Finish,
{
}

/// What the user sent while tools were running reaches the model with the
/// answers to the calls, after them, in the order in which it was sent.
pub proof fn steering_follows_the_answers(results: Seq<BlockView>, steer: Seq<Seq<char>>)
    requires
        steer.len() > 0,
    ensures
        response_handler::answer_blocks(results, steer).len() == results.len() + 1,
        response_handler::answer_blocks(results, steer).drop_last() == results,
        response_handler::answer_blocks(results, steer).last() == BlockView::text(
            response_handler::STEER_PREFIX@ + text::joined(steer, "\n\n"@),
        ),
{
    assert(response_handler::answer_blocks(results, steer).drop_last() =~= results);
}

} // verus!
