//! What holds of a history whatever is done to it.

use super::compaction;
use super::drop_summary;
use super::lifecycle;
use super::tokens;
use super::HistoryView;
use crate::api::{BlockView, MessageView};
use crate::text;
use vstd::prelude::*;

verus! {

proof fn lemma_strip_leading_len(ms: Seq<MessageView>)
    ensures
        lifecycle::strip_leading(ms).len() <= ms.len(),
    decreases ms.len(),
{
    if lifecycle::leading_orphan(ms) {
        lemma_strip_leading_len(ms.drop_first());
    }
}

proof fn lemma_token_trimmed_suffix(ms: Seq<MessageView>, system: nat, budget: nat)
    ensures
        lifecycle::token_trimmed(ms, system, budget).len() <= ms.len(),
        lifecycle::token_trimmed(ms, system, budget) == ms.skip(
            ms.len() - lifecycle::token_trimmed(ms, system, budget).len(),
        ),
        !lifecycle::over_budget(lifecycle::token_trimmed(ms, system, budget), system, budget),
        ms.len() >= 10 ==> lifecycle::token_trimmed(ms, system, budget).len() >= 10,
        ms.len() < 10 ==> lifecycle::token_trimmed(ms, system, budget) == ms,
    decreases ms.len(),
{
    if lifecycle::over_budget(ms, system, budget) {
        lemma_token_trimmed_suffix(ms.drop_first(), system, budget);
        let t = lifecycle::token_trimmed(ms, system, budget);
        assert(ms.drop_first().skip(ms.len() - 1 - t.len()) =~= ms.skip(ms.len() - t.len()));
    } else {
        assert(ms.skip(0) =~= ms);
    }
}

/// A trim only ever drops messages from the front: what it cuts to is a
/// suffix of the history, and what is left after the tool results are taken
/// out is no longer than that.
pub proof fn trim_keeps_a_suffix(h: HistoryView)
    ensures
        h.cut().len() <= h.messages.len(),
        h.cut() == h.messages.skip(h.messages.len() - h.cut().len()),
        h.trimmed().messages.len() <= h.cut().len(),
{
    let c = lifecycle::capped(h.messages, h.config.max_messages as nat);
    let system = tokens::system_tokens(h.system);
    let budget = h.config.max_context_tokens as nat;
    lemma_token_trimmed_suffix(c, system, budget);
    lemma_strip_leading_len(h.cut());
    let cut = h.cut();
    assert(c =~= h.messages.skip(h.messages.len() - c.len()));
    assert(cut =~= h.messages.skip(h.messages.len() - cut.len()));
}

proof fn lemma_filter_tokens(blocks: Seq<BlockView>)
    ensures
        tokens::blocks_tokens(lifecycle::without_results(blocks)) <= tokens::blocks_tokens(blocks),
        !lifecycle::any_result(lifecycle::without_results(blocks)),
    decreases blocks.len(),
{
    reveal(Seq::filter);
    if blocks.len() > 0 {
        lemma_filter_tokens(blocks.drop_last());
        let before = lifecycle::without_results(blocks.drop_last());
        if !(blocks.last().body is ToolResult) {
            assert(before.push(blocks.last()).drop_last() =~= before);
            let now = lifecycle::without_results(blocks);
            assert(now == before.push(blocks.last()));
            assert forall|i: int| 0 <= i < now.len() implies !((#[trigger] now[i]).body is ToolResult) by {
                if i < before.len() {
                    assert(now[i] == before[i]);
                }
            }
        }
    }
}

proof fn lemma_strip_leading(ms: Seq<MessageView>)
    ensures
        !lifecycle::leading_orphan(lifecycle::strip_leading(ms)),
        tokens::messages_tokens(lifecycle::strip_leading(ms)) <= tokens::messages_tokens(ms),
    decreases ms.len(),
{
    if lifecycle::leading_orphan(ms) {
        let content = ms[0].content->Blocks_content;
        let kept = lifecycle::without_results(content);
        lemma_filter_tokens(content);
        if kept.len() > 0 {
            let t = lifecycle::strip_leading(ms);
            assert(t.drop_first() =~= ms.drop_first());
        } else {
            lemma_strip_leading(ms.drop_first());
        }
    }
}

/// After a trim the history has no more messages than the limit allows.
pub proof fn trim_respects_message_limit(h: HistoryView)
    ensures
        h.trimmed().messages.len() <= h.config.max_messages,
{
    trim_keeps_a_suffix(h);
    lemma_token_trimmed_suffix(
        lifecycle::capped(h.messages, h.config.max_messages as nat),
        tokens::system_tokens(h.system),
        h.config.max_context_tokens as nat,
    );
}

/// After a trim the history is within its token budget, or too short to be
/// trimmed further; the flag says which.
pub proof fn trim_respects_token_budget(h: HistoryView)
    ensures
        h.trimmed().total_tokens() <= h.config.max_context_tokens
            || h.trimmed().messages.len() <= lifecycle::TRIM_MIN_MESSAGES,
        h.trimmed().warned == h.trimmed().at_floor(),
{
    lemma_token_trimmed_suffix(
        lifecycle::capped(h.messages, h.config.max_messages as nat),
        tokens::system_tokens(h.system),
        h.config.max_context_tokens as nat,
    );
    lemma_strip_leading(h.cut());
    lemma_strip_leading_len(h.cut());
}

/// The token budget never costs the last ten messages.
pub proof fn trim_keeps_ten_messages(h: HistoryView)
    ensures
        h.messages.len() <= 10 && h.messages.len() <= h.config.max_messages ==> h.cut()
            == h.messages,
        h.messages.len() >= 10 && h.config.max_messages >= 10 ==> h.cut().len() >= 10,
{
    let c = lifecycle::capped(h.messages, h.config.max_messages as nat);
    lemma_token_trimmed_suffix(
        c,
        tokens::system_tokens(h.system),
        h.config.max_context_tokens as nat,
    );
}

/// A trim drops no more than it must: one message more would break the
/// message limit or the token budget.
pub proof fn trim_drops_no_more_than_needed(h: HistoryView, k: int)
    requires
        0 <= k < h.messages.len() - h.cut().len(),
    ensures
        h.messages.skip(k).len() > h.config.max_messages || lifecycle::over_budget(
            h.messages.skip(k),
            tokens::system_tokens(h.system),
            h.config.max_context_tokens as nat,
        ),
{
    let c = lifecycle::capped(h.messages, h.config.max_messages as nat);
    let first = h.messages.len() - c.len();
    if k >= first {
        lemma_every_longer_suffix_over(
            c,
            tokens::system_tokens(h.system),
            h.config.max_context_tokens as nat,
            k - first,
        );
        assert(c.skip(k - first) =~= h.messages.skip(k));
    }
}

proof fn lemma_every_longer_suffix_over(ms: Seq<MessageView>, system: nat, budget: nat, k: int)
    requires
        0 <= k < ms.len() - lifecycle::token_trimmed(ms, system, budget).len(),
    ensures
        lifecycle::over_budget(ms.skip(k), system, budget),
    decreases ms.len(),
{
    if k == 0 {
        assert(ms.skip(0) =~= ms);
    } else {
        lemma_every_longer_suffix_over(ms.drop_first(), system, budget, k - 1);
        assert(ms.drop_first().skip(k - 1) =~= ms.skip(k));
    }
}

/// After a trim the history does not start with an answer to a tool call.
pub proof fn trim_leaves_no_leading_orphan(h: HistoryView)
    ensures
        !lifecycle::leading_orphan(h.trimmed().messages),
{
    lemma_strip_leading(h.cut());
}

proof fn lemma_pick_anchor(ms: Seq<MessageView>, i: int)
    requires
        0 <= i < ms.len() <= usize::MAX,
    ensures
        match lifecycle::pick_anchor(ms, i) {
            Some(p) => {
                &&& p < i
                &&& ms[p as int].content is Blocks
                &&& lifecycle::blocks_between(ms, p as int, ms.len() - 1)
                    >= lifecycle::TARGET_OFFSET_BLOCKS
                &&& forall|q: int|
                    p < q < i ==> !(#[trigger] ms[q].content is Blocks)
                        || lifecycle::blocks_between(ms, q, ms.len() - 1)
                        < lifecycle::TARGET_OFFSET_BLOCKS
            },
            None => forall|q: int|
                0 <= q < i ==> !(#[trigger] ms[q].content is Blocks)
                    || lifecycle::blocks_between(ms, q, ms.len() - 1)
                    < lifecycle::TARGET_OFFSET_BLOCKS,
        },
    decreases i,
{
    if i > 0 {
        if lifecycle::blocks_between(ms, i - 1, ms.len() - 1) >= lifecycle::TARGET_OFFSET_BLOCKS
            && ms[i - 1].content is Blocks {
        } else {
            lemma_pick_anchor(ms, i - 1);
        }
    }
}

/// A second cache marker that is placed anew stands on the last message
/// that is made of blocks, is not the last one of all, and has at least ten
/// blocks from it to the last message; there is no marker where no message
/// is like that.
pub proof fn new_anchor_is_the_nearest_far_enough(ms: Seq<MessageView>)
    requires
        2 <= ms.len() <= usize::MAX,
    ensures
        match lifecycle::next_anchor(ms, None) {
            Some(p) => {
                &&& lifecycle::anchor_fits(ms, p as int)
                &&& lifecycle::blocks_between(ms, p as int, ms.len() - 1) >= 10
                &&& forall|q: int|
                    p < q && #[trigger] lifecycle::anchor_fits(ms, q)
                        ==> lifecycle::blocks_between(ms, q, ms.len() - 1) < 10
            },
            None => forall|q: int| #[trigger]
                lifecycle::anchor_fits(ms, q) ==> lifecycle::blocks_between(ms, q, ms.len() - 1)
                    < 10,
        },
{
    lemma_pick_anchor(ms, ms.len() - 1);
    match lifecycle::next_anchor(ms, None) {
        Some(p) => {
            assert forall|q: int| p < q && #[trigger] lifecycle::anchor_fits(ms, q) implies
                lifecycle::blocks_between(ms, q, ms.len() - 1) < 10 by {
                assert(ms[q].content is Blocks);
            }
        },
        None => {
            assert forall|q: int| #[trigger] lifecycle::anchor_fits(ms, q) implies
                lifecycle::blocks_between(ms, q, ms.len() - 1) < 10 by {
                assert(ms[q].content is Blocks);
            }
        },
    }
}

/// A second cache marker stays put while at most eighteen blocks lie from
/// it to the last message.
pub proof fn anchor_stays_while_near(h: HistoryView)
    requires
        h.anchor is Some,
        h.anchor_valid(),
        lifecycle::blocks_between(h.messages, h.anchor->0 as int, h.messages.len() - 1) <= 18,
    ensures
        h.anchored() == h,
{
}

/// Wherever the second cache marker is placed, it stands on a message that
/// can carry it.
pub proof fn anchored_is_valid(h: HistoryView)
    requires
        h.messages.len() <= usize::MAX,
    ensures
        h.anchored().anchor_valid(),
{
    if h.messages.len() >= 2 {
        lemma_pick_anchor(h.messages, h.messages.len() - 1);
    }
}

/// Whatever a trim starts from, the second cache marker stands on a message
/// that can carry it afterwards.
pub proof fn trim_leaves_a_valid_anchor(h: HistoryView)
    requires
        h.messages.len() <= usize::MAX,
    ensures
        h.trimmed().anchor_valid(),
{
    trim_keeps_a_suffix(h);
    let cut = h.cut();
    let kept = lifecycle::strip_leading(cut);
    let mutated = kept.len() != h.messages.len() || lifecycle::leading_orphan(cut);
    let t = HistoryView {
        messages: kept,
        anchor: if mutated {
            None
        } else {
            h.anchor
        },
        ..h
    };
    anchored_is_valid(t);
}

/// Trimming twice is trimming once.
pub proof fn trim_is_idempotent(h: HistoryView)
    requires
        h.messages.len() <= usize::MAX,
    ensures
        h.trimmed().trimmed() == h.trimmed(),
{
    let t = h.trimmed();
    trim_keeps_a_suffix(h);
    trim_respects_message_limit(h);
    trim_respects_token_budget(h);
    lemma_strip_leading(h.cut());
    assert(t.cut() == t.messages);
    if t.messages.len() >= 2 {
        lemma_pick_anchor(t.messages, t.messages.len() - 1);
    }
    assert(t.trimmed().anchor == lifecycle::next_anchor(t.messages, t.anchor));
    assert(t.trimmed() =~= t);
}

/// A turn that answers no tool call and is added to a history that may hold
/// messages is the last message afterwards.
pub proof fn added_message_comes_last(h: HistoryView, m: MessageView)
    requires
        h.config.max_messages >= 1,
        !(m.is_user() && m.has_tool_result()),
    ensures
        h.added(m).messages.len() > 0,
        h.added(m).messages.last() == m,
{
    let with = HistoryView { messages: h.messages.push(m), ..h };
    trim_keeps_a_suffix(with);
    let c = lifecycle::capped(with.messages, with.config.max_messages as nat);
    lemma_token_trimmed_suffix(
        c,
        tokens::system_tokens(h.system),
        h.config.max_context_tokens as nat,
    );
    assert(with.cut().last() == m);
    lemma_strip_leading_last(with.cut());
}

proof fn lemma_strip_leading_last(ms: Seq<MessageView>)
    requires
        ms.len() > 0,
        !(ms.last().is_user() && ms.last().has_tool_result()),
    ensures
        lifecycle::strip_leading(ms).len() > 0,
        lifecycle::strip_leading(ms).last() == ms.last(),
    decreases ms.len(),
{
    if lifecycle::leading_orphan(ms) {
        assert(ms.len() > 1);
        let kept = lifecycle::without_results(ms[0].content->Blocks_content);
        if kept.len() == 0 {
            assert(ms.drop_first().last() == ms.last());
            lemma_strip_leading_last(ms.drop_first());
        }
    }
}

/// Whether a message makes the tool call `id`.
pub open spec fn calls(m: MessageView, id: Seq<char>) -> bool {
    m.content is Blocks && exists|i: int|
        0 <= i < m.content->Blocks_content.len() && {
            let b = #[trigger] m.content->Blocks_content[i];
            b.body is ToolUse && b.body->ToolUse_id == id
        }
}

/// Whether every answer that a message holds is to a call that the message
/// before it makes.
pub open spec fn answers_only(m: MessageView, before: MessageView) -> bool {
    m.content is Blocks ==> forall|i: int|
        0 <= i < m.content->Blocks_content.len() && (
        #[trigger] m.content->Blocks_content[i]).body is ToolResult ==> calls(
            before,
            m.content->Blocks_content[i].body->ToolResult_tool_use_id,
        )
}

/// Whether every answer to a tool call follows the turn that makes the
/// call. Only user turns answer, and the first message answers nothing.
pub open spec fn well_paired(ms: Seq<MessageView>) -> bool {
    &&& forall|i: int| 0 <= i < ms.len() && (#[trigger] ms[i]).has_tool_result() ==> ms[i].is_user()
    &&& ms.len() > 0 ==> !ms[0].has_tool_result()
    &&& forall|i: int, j: int|
        0 <= i && j == i + 1 && j < ms.len() ==> #[trigger] answers_only(ms[j], ms[i])
}

/// The same as `well_paired`, but the first message may answer calls that
/// are gone.
spec fn paired_after_first(ms: Seq<MessageView>) -> bool {
    &&& forall|i: int| 0 <= i < ms.len() && (#[trigger] ms[i]).has_tool_result() ==> ms[i].is_user()
    &&& forall|i: int, j: int|
        0 <= i && j == i + 1 && j < ms.len() ==> #[trigger] answers_only(ms[j], ms[i])
}

proof fn lemma_filter_keeps_calls(blocks: Seq<BlockView>, i: int) -> (k: int)
    requires
        0 <= i < blocks.len(),
        !(blocks[i].body is ToolResult),
    ensures
        0 <= k < lifecycle::without_results(blocks).len(),
        lifecycle::without_results(blocks)[k] == blocks[i],
    decreases blocks.len(),
{
    reveal(Seq::filter);
    if i == blocks.len() - 1 {
        lifecycle::without_results(blocks).len() - 1
    } else {
        let k = lemma_filter_keeps_calls(blocks.drop_last(), i);
        k
    }
}

proof fn lemma_strip_leading_pairs(ms: Seq<MessageView>)
    requires
        paired_after_first(ms),
    ensures
        well_paired(lifecycle::strip_leading(ms)),
    decreases ms.len(),
{
    let t = lifecycle::strip_leading(ms);
    if lifecycle::leading_orphan(ms) {
        let content = ms[0].content->Blocks_content;
        let kept = lifecycle::without_results(content);
        lemma_filter_tokens(content);
        if kept.len() > 0 {
            let head = ms[0].with_blocks(kept);
            assert(!head.has_tool_result());
            assert forall|i: int, j: int| 0 <= i && j == i + 1 && j < t.len() implies
                #[trigger] answers_only(t[j], t[i]) by {
                assert(t[j] == ms[j]);
                assert(answers_only(ms[j], ms[i]));
                if i == 0 {
                    if t[j].content is Blocks {
                        let c = t[j].content->Blocks_content;
                        assert forall|x: int| 0 <= x < c.len() && (#[trigger] c[x]).body is ToolResult implies
                            calls(head, c[x].body->ToolResult_tool_use_id) by {
                            let id = c[x].body->ToolResult_tool_use_id;
                            assert(calls(ms[0], id));
                            let y = choose|y: int|
                                0 <= y < content.len() && {
                                    let b = #[trigger] content[y];
                                    b.body is ToolUse && b.body->ToolUse_id == id
                                };
                            let k = lemma_filter_keeps_calls(content, y);
                            assert(head.content->Blocks_content[k] == content[y]);
                        }
                    }
                } else {
                    assert(t[i] == ms[i]);
                }
            }
            assert forall|i: int| 0 <= i < t.len() && (#[trigger] t[i]).has_tool_result() implies
                t[i].is_user() by {
                if i > 0 {
                    assert(t[i] == ms[i]);
                }
            }
        } else {
            let rest = ms.drop_first();
            assert forall|i: int, j: int| 0 <= i && j == i + 1 && j < rest.len() implies
                #[trigger] answers_only(rest[j], rest[i]) by {
                assert(answers_only(ms[j + 1], ms[i + 1]));
            }
            assert forall|i: int| 0 <= i < rest.len() && (#[trigger] rest[i]).has_tool_result() implies
                rest[i].is_user() by {
                assert(ms[i + 1].has_tool_result());
            }
            lemma_strip_leading_pairs(rest);
        }
    } else {
        assert(ms.len() > 0 ==> !ms[0].has_tool_result());
    }
}

/// Trimming keeps a history that the provider accepts acceptable: where
/// every answer to a tool call followed its call before, it does so after.
pub proof fn trim_keeps_calls_and_answers_paired(h: HistoryView)
    requires
        well_paired(h.messages),
    ensures
        well_paired(h.trimmed().messages),
{
    trim_keeps_a_suffix(h);
    let cut = h.cut();
    let k = h.messages.len() - cut.len();
    assert forall|i: int, j: int| 0 <= i && j == i + 1 && j < cut.len() implies
        #[trigger] answers_only(cut[j], cut[i]) by {
        assert(answers_only(h.messages[j + k], h.messages[i + k]));
    }
    assert forall|i: int| 0 <= i < cut.len() && (#[trigger] cut[i]).has_tool_result() implies
        cut[i].is_user() by {
        assert(h.messages[i + k].has_tool_result());
    }
    lemma_strip_leading_pairs(cut);
}

/// A restored history does not end with a tool call that nothing answers.
pub proof fn restored_history_ends_without_call(h: HistoryView, ms: Seq<MessageView>)
    ensures
        !lifecycle::trailing_call(h.restored(ms).messages),
{
    let s = lifecycle::strip_trailing(ms);
    lemma_strip_trailing(ms);
    let with = HistoryView { messages: s, anchor: None, ..h };
    trim_keeps_a_suffix(with);
    lemma_strip_leading_trailing(with.cut());
}

proof fn lemma_filter_calls(blocks: Seq<BlockView>)
    ensures
        !lifecycle::any_call(lifecycle::without_calls(blocks)),
    decreases blocks.len(),
{
    reveal(Seq::filter);
    if blocks.len() > 0 {
        lemma_filter_calls(blocks.drop_last());
        let before = lifecycle::without_calls(blocks.drop_last());
        let now = lifecycle::without_calls(blocks);
        if !blocks.last().body.is_tool_call() {
            assert(now == before.push(blocks.last()));
            assert forall|i: int| 0 <= i < now.len() implies !(#[trigger] now[i]).body.is_tool_call() by {
                if i < before.len() {
                    assert(now[i] == before[i]);
                }
            }
        }
    }
}

proof fn lemma_strip_trailing(ms: Seq<MessageView>)
    ensures
        !lifecycle::trailing_call(lifecycle::strip_trailing(ms)),
        lifecycle::strip_trailing(ms).len() == ms.len(),
{
    if lifecycle::trailing_call(ms) {
        lemma_filter_calls(ms.last().content->Blocks_content);
    }
}

proof fn lemma_strip_leading_trailing(ms: Seq<MessageView>)
    requires
        !lifecycle::trailing_call(ms),
    ensures
        !lifecycle::trailing_call(lifecycle::strip_leading(ms)),
    decreases ms.len(),
{
    if lifecycle::leading_orphan(ms) {
        reveal_strlit("user");
        reveal_strlit("assistant");
        assert("user"@.len() != "assistant"@.len());
        let kept = lifecycle::without_results(ms[0].content->Blocks_content);
        if kept.len() == 0 {
            if ms.len() > 1 {
                assert(ms.drop_first().last() == ms.last());
            }
            lemma_strip_leading_trailing(ms.drop_first());
        }
    }
}

/// A compaction leaves at least the configured number of messages alone,
/// always has one to start from, and never starts at tool results.
pub proof fn split_point_keeps_recent(ms: Seq<MessageView>, preserve: nat)
    requires
        ms.len() > 0,
    ensures
        0 <= compaction::split_point(ms, preserve) < ms.len(),
        compaction::split_point(ms, preserve) > 0 ==> compaction::split_point(ms, preserve)
            + preserve <= ms.len(),
        compaction::split_point(ms, preserve) > 0 ==> !compaction::carries_results(
            ms[compaction::split_point(ms, preserve)],
        ),
{
    if ms.len() > preserve + 5 {
        let start = if preserve == 0 {
            ms.len() - 1
        } else {
            ms.len() - preserve
        };
        lemma_back_to_user(ms, start);
        lemma_back_over_results(ms, compaction::back_to_user(ms, start));
    }
}

proof fn lemma_back_to_user(ms: Seq<MessageView>, i: int)
    requires
        0 <= i < ms.len(),
    ensures
        0 <= compaction::back_to_user(ms, i) <= i,
        compaction::back_to_user(ms, i) > 0 ==> ms[compaction::back_to_user(ms, i)].is_user(),
    decreases i,
{
    if i > 0 && !ms[i].is_user() {
        lemma_back_to_user(ms, i - 1);
    }
}

proof fn lemma_back_over_results(ms: Seq<MessageView>, i: int)
    requires
        0 <= i < ms.len(),
    ensures
        0 <= compaction::back_over_results(ms, i) <= i,
        compaction::back_over_results(ms, i) > 0 ==> !compaction::carries_results(
            ms[compaction::back_over_results(ms, i)],
        ),
    decreases i,
{
    if i > 0 && compaction::carries_results(ms[i]) {
        lemma_back_over_results(ms, i - 1);
    }
}

/// Replacing old messages with a summary leaves the others as they were,
/// after the summary.
pub proof fn summary_replaces_only_the_prefix(h: HistoryView, summary: Seq<char>, split: int)
    requires
        0 < split <= h.messages.len(),
    ensures
        h.summarized(summary, split).messages.len() == h.messages.len() - split + 1,
        h.summarized(summary, split).messages[0] == compaction::summary_message(summary),
        h.summarized(summary, split).messages.drop_first() == h.messages.skip(split),
{
    assert(h.summarized(summary, split).messages.drop_first() =~= h.messages.skip(split));
}

/// Shortening tool results changes no message after the given ones, no
/// block that is not a tool result, and no tool result within the
/// threshold.
pub proof fn shortening_touches_only_long_results(
    ms: Seq<MessageView>,
    up_to: int,
    threshold: nat,
    i: int,
)
    requires
        0 <= i < ms.len(),
    ensures
        compaction::shortened_messages(ms, up_to, threshold).len() == ms.len(),
        i >= up_to ==> compaction::shortened_messages(ms, up_to, threshold)[i] == ms[i],
        ms[i].content is Text ==> compaction::shortened_messages(ms, up_to, threshold)[i] == ms[i],
        i < up_to && ms[i].content is Blocks ==> {
            let was = ms[i].content->Blocks_content;
            let now = compaction::shortened_messages(ms, up_to, threshold)[i];
            &&& now.role == ms[i].role
            &&& now.content is Blocks
            &&& now.content->Blocks_content.len() == was.len()
            &&& forall|j: int|
                0 <= j < was.len() ==> (#[trigger] now.content->Blocks_content[j]) == was[j] || (
                was[j].body is ToolResult && text::utf8_len(was[j].body->ToolResult_content)
                    > threshold)
        },
{
}

/// A longer history never has a lower estimate.
pub proof fn estimate_grows_with_the_history(h: HistoryView, m: MessageView)
    ensures
        (HistoryView { messages: h.messages.push(m), ..h }).total_tokens() >= h.total_tokens(),
{
    lemma_messages_tokens_push(h.messages, m);
}

proof fn lemma_messages_tokens_push(ms: Seq<MessageView>, m: MessageView)
    ensures
        tokens::messages_tokens(ms.push(m)) == tokens::messages_tokens(ms)
            + tokens::message_tokens(m),
    decreases ms.len(),
{
    if ms.len() == 0 {
        assert(ms.push(m).drop_first() =~= ms);
    } else {
        assert(ms.push(m).drop_first() =~= ms.drop_first().push(m));
        lemma_messages_tokens_push(ms.drop_first(), m);
    }
}

proof fn lemma_messages_tokens_without(ms: Seq<MessageView>, j: int)
    requires
        0 <= j < ms.len(),
    ensures
        tokens::messages_tokens(ms) == tokens::message_tokens(ms[j]) + tokens::messages_tokens(
            ms.remove(j),
        ),
    decreases ms.len(),
{
    if j == 0 {
        assert(ms.remove(0) =~= ms.drop_first());
    } else {
        lemma_messages_tokens_without(ms.drop_first(), j - 1);
        assert(ms.remove(j).drop_first() =~= ms.drop_first().remove(j - 1));
        assert(ms.remove(j).first() == ms.first());
    }
}

proof fn lemma_tokens_of_the_same_messages(a: Seq<MessageView>, b: Seq<MessageView>)
    requires
        a.to_multiset() == b.to_multiset(),
    ensures
        tokens::messages_tokens(a) == tokens::messages_tokens(b),
    decreases a.len(),
{
    broadcast use vstd::seq_lib::group_to_multiset_ensures;

    assert(a.to_multiset().len() == a.len());
    assert(b.to_multiset().len() == b.len());
    if a.len() > 0 {
        assert(a.contains(a[0]));
        assert(b.to_multiset().count(a[0]) > 0);
        assert(b.contains(a[0]));
        let j = choose|j: int| 0 <= j < b.len() && b[j] == a[0];
        assert(a.remove(0) =~= a.drop_first());
        lemma_tokens_of_the_same_messages(a.remove(0), b.remove(j));
        lemma_messages_tokens_without(b, j);
    }
}

/// The estimate does not depend on the order of the messages.
pub proof fn estimate_ignores_the_order(h: HistoryView, messages: Seq<MessageView>)
    requires
        h.messages.to_multiset() == messages.to_multiset(),
    ensures
        (HistoryView { messages, ..h }).total_tokens() == h.total_tokens(),
{
    lemma_tokens_of_the_same_messages(h.messages, messages);
}

/// Whether the second cache marker, if there is one, stands on a message that
/// can carry it, with at least ten blocks from it to the last message.
pub open spec fn marker_far(h: HistoryView) -> bool {
    h.anchor is Some ==> lifecycle::anchor_fits(h.messages, h.anchor->0 as int)
        && lifecycle::blocks_between(h.messages, h.anchor->0 as int, h.messages.len() - 1)
        >= lifecycle::TARGET_OFFSET_BLOCKS
}

proof fn lemma_same_blocks(a: Seq<MessageView>, b: Seq<MessageView>, from: int, to: int)
    requires
        0 <= from,
        to <= a.len(),
        to <= b.len(),
        forall|i: int| from <= i < to ==> a[i] == b[i],
    ensures
        lifecycle::blocks_between(a, from, to) == lifecycle::blocks_between(b, from, to),
    decreases to - from,
{
    if from < to {
        lemma_same_blocks(a, b, from + 1, to);
    }
}

proof fn lemma_more_blocks(ms: Seq<MessageView>, from: int, to: int)
    requires
        0 <= from <= to < ms.len(),
    ensures
        lifecycle::blocks_between(ms, from, to) <= lifecycle::blocks_between(ms, from, to + 1),
    decreases to - from,
{
    if from < to {
        lemma_more_blocks(ms, from + 1, to);
    }
}

proof fn lemma_anchored_far(h: HistoryView)
    requires
        h.messages.len() <= usize::MAX,
        h.anchor is Some && lifecycle::anchor_fits(h.messages, h.anchor->0 as int)
            ==> lifecycle::blocks_between(
            h.messages,
            h.anchor->0 as int,
            h.messages.len() - 1,
        ) >= lifecycle::TARGET_OFFSET_BLOCKS,
    ensures
        marker_far(h.anchored()),
{
    if h.messages.len() >= 2 {
        lemma_pick_anchor(h.messages, h.messages.len() - 1);
    }
}

proof fn lemma_trimmed_far(h: HistoryView)
    requires
        h.messages.len() <= usize::MAX,
        h.anchor is Some && lifecycle::anchor_fits(h.messages, h.anchor->0 as int)
            ==> lifecycle::blocks_between(
            h.messages,
            h.anchor->0 as int,
            h.messages.len() - 1,
        ) >= lifecycle::TARGET_OFFSET_BLOCKS,
    ensures
        marker_far(h.trimmed()),
{
    trim_keeps_a_suffix(h);
    let cut = h.cut();
    let kept = lifecycle::strip_leading(cut);
    let mutated = kept.len() != h.messages.len() || lifecycle::leading_orphan(cut);
    let t = HistoryView {
        messages: kept,
        anchor: if mutated {
            None
        } else {
            h.anchor
        },
        ..h
    };
    if !mutated {
        assert(h.messages.skip(0) =~= h.messages);
        assert(t.messages == h.messages);
    }
    lemma_anchored_far(t);
}

/// In every history that is built up by adding, extending, trimming,
/// restoring and summarizing, the second cache marker has at least ten blocks
/// from it to the last message: a history starts without a marker, and each
/// of these keeps the distance. Shortening tool results, emptying the history
/// and another system prompt take the marker away. Only taking back the last
/// message, or a step of a trim by itself, can leave it nearer.
pub proof fn marker_keeps_its_distance(
    h: HistoryView,
    m: MessageView,
    text: Seq<char>,
    messages: Seq<MessageView>,
    summary: Seq<char>,
    split: int,
)
    requires
        marker_far(h),
        h.messages.len() < usize::MAX,
        messages.len() <= usize::MAX,
        0 <= split,
    ensures
        forall|morph: bool, search: bool, told: Option<Seq<char>>|
            marker_far(#[trigger] HistoryView::fresh(morph, search, told)),
        marker_far(h.added(m)),
        h.ends_with_user_blocks() ==> marker_far(h.extended(text)),
        marker_far(h.trimmed()),
        marker_far(h.anchored()),
        marker_far(h.restored(messages)),
        marker_far(h.trimmed_with_note(summary)),
        marker_far(h.summarized(summary, split)),
{
    let len = h.messages.len() as int;
    let with = HistoryView { messages: h.messages.push(m), ..h };
    if h.anchor is Some {
        let at = h.anchor->0 as int;
        lemma_same_blocks(h.messages, with.messages, at, len - 1);
        lemma_more_blocks(with.messages, at, len - 1);
        if h.ends_with_user_blocks() {
            lemma_same_blocks(h.messages, h.extended(text).messages, at, len - 1);
        }
    }
    lemma_trimmed_far(with);
    lemma_trimmed_far(h);
    lemma_anchored_far(h);
    lemma_trimmed_far(
        HistoryView { messages: lifecycle::strip_trailing(messages), anchor: None, ..h },
    );
    trim_keeps_a_suffix(h);
    let t = h.trimmed();
    if summary.len() > 0 {
        let note = drop_summary::trim_note((len - t.messages.len()) as nat, summary);
        lemma_anchored_far(
            HistoryView { messages: seq![note] + t.messages, anchor: None, ..t },
        );
    }
    if 0 < split <= len {
        lemma_anchored_far(
            HistoryView {
                messages: seq![compaction::summary_message(summary)] + h.messages.skip(split),
                anchor: None,
                ..h
            },
        );
    }
}

} // verus!
