//! What keeps a history within its limits: dropping old messages, removing
//! the halves of tool calls that lost their counterpart, and placing the
//! second cache marker.

use super::tokens;
use super::{ConversationHistory, HistoryView};
use crate::api;
use crate::api::{
    BlockView, ContentView, Message, MessageContent, MessageContentBlock, MessageView,
};
use crate::text;
use vstd::prelude::*;

verus! {

/// Trimming to the token budget leaves at least this many messages.
pub const TRIM_MIN_MESSAGES: usize = 10;

/// The second cache marker stays where it is while at most this many blocks
/// lie between it and the last message.
pub const KEEP_DISTANCE_BLOCKS: usize = 18;

/// A new second cache marker goes at least this many blocks before the last
/// message.
pub const TARGET_OFFSET_BLOCKS: usize = 10;

/// The blocks that remain when tool results are taken out.
pub open spec fn without_results(blocks: Seq<BlockView>) -> Seq<BlockView> {
    blocks.filter(|b: BlockView| !(b.body is ToolResult))
}

/// The blocks that remain when tool calls are taken out.
pub open spec fn without_calls(blocks: Seq<BlockView>) -> Seq<BlockView> {
    blocks.filter(|b: BlockView| !b.body.is_tool_call())
}

pub open spec fn any_result(blocks: Seq<BlockView>) -> bool {
    exists|i: int| 0 <= i < blocks.len() && (#[trigger] blocks[i]).body is ToolResult
}

pub open spec fn any_call(blocks: Seq<BlockView>) -> bool {
    exists|i: int| 0 <= i < blocks.len() && (#[trigger] blocks[i]).body.is_tool_call()
}

impl MessageView {
    pub open spec fn has_tool_result(self) -> bool {
        self.content is Blocks && any_result(self.content->Blocks_content)
    }

    /// How many blocks the message counts for.
    pub open spec fn block_count(self) -> nat {
        match self.content {
            ContentView::Text { .. } => 1,
            ContentView::Blocks { content } => content.len(),
        }
    }

    /// The same turn with other blocks.
    pub open spec fn with_blocks(self, content: Seq<BlockView>) -> MessageView {
        MessageView { role: self.role, content: ContentView::Blocks { content } }
    }
}

/// Whether a history starts with a user turn that answers a tool call.
pub open spec fn leading_orphan(ms: Seq<MessageView>) -> bool {
    ms.len() > 0 && ms[0].is_user() && ms[0].has_tool_result()
}

/// A history without the tool results that it starts with. A turn keeps its
/// other blocks and goes only where none are left.
pub open spec fn strip_leading(ms: Seq<MessageView>) -> Seq<MessageView>
    decreases ms.len(),
{
    if leading_orphan(ms) {
        let kept = without_results(ms[0].content->Blocks_content);
        if kept.len() > 0 {
            ms.update(0, ms[0].with_blocks(kept))
        } else {
            strip_leading(ms.drop_first())
        }
    } else {
        ms
    }
}

/// Whether a history ends with an assistant turn that calls a tool.
pub open spec fn trailing_call(ms: Seq<MessageView>) -> bool {
    &&& ms.len() > 0
    &&& ms.last().role == "assistant"@
    &&& ms.last().content is Blocks
    &&& any_call(ms.last().content->Blocks_content)
}

/// The blocks of an assistant turn whose tool calls were never answered.
pub open spec fn interrupted(blocks: Seq<BlockView>) -> Seq<BlockView> {
    let kept = without_calls(blocks);
    if kept.len() == 0 {
        seq![BlockView::text("[Tool call interrupted before execution]"@)]
    } else {
        kept
    }
}

/// A history without the tool calls that it ends with.
pub open spec fn strip_trailing(ms: Seq<MessageView>) -> Seq<MessageView> {
    if trailing_call(ms) {
        let last = ms.last();
        ms.update(ms.len() - 1, last.with_blocks(interrupted(last.content->Blocks_content)))
    } else {
        ms
    }
}

/// The last `max` messages.
pub open spec fn capped(ms: Seq<MessageView>, max: nat) -> Seq<MessageView> {
    if ms.len() > max {
        ms.skip(ms.len() - max)
    } else {
        ms
    }
}

/// Whether a history is over the token budget and long enough to be trimmed.
pub open spec fn over_budget(ms: Seq<MessageView>, system: nat, budget: nat) -> bool {
    &&& ms.len() > TRIM_MIN_MESSAGES
    &&& tokens::saturated(system + tokens::messages_tokens(ms)) > budget
}

/// A history with messages dropped from its front until it fits the token
/// budget or has only ten messages left.
pub open spec fn token_trimmed(ms: Seq<MessageView>, system: nat, budget: nat) -> Seq<MessageView>
    decreases ms.len(),
{
    if over_budget(ms, system, budget) {
        token_trimmed(ms.drop_first(), system, budget)
    } else {
        ms
    }
}

/// The blocks in the messages `from..to`.
pub open spec fn blocks_between(ms: Seq<MessageView>, from: int, to: int) -> nat
    decreases to - from,
{
    if from >= to {
        0
    } else {
        ms[from].block_count() + blocks_between(ms, from + 1, to)
    }
}

/// Whether a second cache marker can stand at message `i`.
pub open spec fn anchor_fits(ms: Seq<MessageView>, i: int) -> bool {
    0 <= i && i + 1 < ms.len() && ms[i].content is Blocks
}

/// The last message before `i` that can carry the second cache marker and
/// has at least ten blocks from it to the last message.
pub open spec fn pick_anchor(ms: Seq<MessageView>, i: int) -> Option<usize>
    decreases i,
{
    if i <= 0 {
        None
    } else if blocks_between(ms, i - 1, ms.len() - 1) >= TARGET_OFFSET_BLOCKS
        && ms[i - 1].content is Blocks {
        Some((i - 1) as usize)
    } else {
        pick_anchor(ms, i - 1)
    }
}

/// Where the second cache marker goes, given where it was.
pub open spec fn next_anchor(ms: Seq<MessageView>, at: Option<usize>) -> Option<usize> {
    if ms.len() < 2 {
        None
    } else if at is Some && anchor_fits(ms, at->0 as int) && blocks_between(
        ms,
        at->0 as int,
        ms.len() - 1,
    ) <= KEEP_DISTANCE_BLOCKS {
        at
    } else {
        pick_anchor(ms, ms.len() - 1)
    }
}

impl HistoryView {
    /// The history with its second cache marker moved where it belongs.
    pub open spec fn anchored(self) -> HistoryView {
        HistoryView { anchor: next_anchor(self.messages, self.anchor), ..self }
    }

    /// The messages that are left when old ones are dropped.
    pub open spec fn cut(self) -> Seq<MessageView> {
        token_trimmed(
            capped(self.messages, self.config.max_messages as nat),
            tokens::system_tokens(self.system),
            self.config.max_context_tokens as nat,
        )
    }

    /// Whether the history is over its token budget and too short to trim.
    pub open spec fn at_floor(self) -> bool {
        self.total_tokens() > self.config.max_context_tokens && self.messages.len()
            <= TRIM_MIN_MESSAGES
    }

    /// The history within its limits.
    pub open spec fn trimmed(self) -> HistoryView {
        let cut = self.cut();
        let kept = strip_leading(cut);
        let mutated = kept.len() != self.messages.len() || leading_orphan(cut);
        let t = HistoryView {
            messages: kept,
            anchor: if mutated {
                None
            } else {
                self.anchor
            },
            ..self
        };
        HistoryView { warned: t.at_floor(), ..t.anchored() }
    }

    /// Whether the second cache marker, if there is one, stands on a message
    /// that can carry it.
    pub open spec fn anchor_valid(self) -> bool {
        self.anchor is Some ==> anchor_fits(self.messages, self.anchor->0 as int)
    }
}

/// Whether a history is within its limits and does not end in the middle of
/// a tool call.
pub open spec fn at_rest(h: HistoryView) -> bool {
    h.trimmed().messages == h.messages && !trailing_call(h.messages)
}

/// Takes the tool results out of a list of blocks.
fn take_results_out(content: &Vec<MessageContentBlock>) -> (r: Vec<MessageContentBlock>)
    ensures
        api::block_views(r@) == without_results(api::block_views(content@)),
{
    let ghost all = api::block_views(content@);
    let mut r: Vec<MessageContentBlock> = Vec::new();
    let mut i: usize = 0;
    assert(all.take(0) =~= Seq::<BlockView>::empty());
    proof {
        reveal(Seq::filter);
    }
    while i < content.len()
        invariant
            i <= content@.len(),
            all == api::block_views(content@),
            api::block_views(r@) == without_results(all.take(i as int)),
        decreases content@.len() - i,
    {
        let ghost before = r@;
        proof {
            reveal(Seq::filter);
            assert(all.take(i + 1).drop_last() =~= all.take(i as int));
            assert(all.take(i + 1).last() == content@[i as int]@);
        }
        if !content[i].is_tool_result() {
            r.push(content[i].clone());
            assert(api::block_views(r@) =~= api::block_views(before).push(content@[i as int]@));
        }
        i = i + 1;
    }
    assert(all.take(i as int) =~= all);
    r
}

/// Takes the tool calls out of a list of blocks.
pub fn take_calls_out(content: &Vec<MessageContentBlock>) -> (r: Vec<MessageContentBlock>)
    ensures
        api::block_views(r@) == without_calls(api::block_views(content@)),
{
    let ghost all = api::block_views(content@);
    let mut r: Vec<MessageContentBlock> = Vec::new();
    let mut i: usize = 0;
    assert(all.take(0) =~= Seq::<BlockView>::empty());
    proof {
        reveal(Seq::filter);
    }
    while i < content.len()
        invariant
            i <= content@.len(),
            all == api::block_views(content@),
            api::block_views(r@) == without_calls(all.take(i as int)),
        decreases content@.len() - i,
    {
        let ghost before = r@;
        proof {
            reveal(Seq::filter);
            assert(all.take(i + 1).drop_last() =~= all.take(i as int));
            assert(all.take(i + 1).last() == content@[i as int]@);
        }
        if !content[i].is_tool_call() {
            r.push(content[i].clone());
            assert(api::block_views(r@) =~= api::block_views(before).push(content@[i as int]@));
        }
        i = i + 1;
    }
    assert(all.take(i as int) =~= all);
    r
}

fn any_tool_call(content: &Vec<MessageContentBlock>) -> (r: bool)
    ensures
        r == any_call(api::block_views(content@)),
{
    let ghost all = api::block_views(content@);
    let mut i: usize = 0;
    while i < content.len()
        invariant
            all == api::block_views(content@),
            i <= content@.len(),
            forall|k: int| 0 <= k < i ==> !(#[trigger] all[k]).body.is_tool_call(),
        decreases content@.len() - i,
    {
        if content[i].is_tool_call() {
            assert(all[i as int].body.is_tool_call());
            return true;
        }
        i = i + 1;
    }
    false
}

proof fn lemma_messages_tokens_skip(ms: Seq<MessageView>, i: int, j: int)
    requires
        0 <= i <= j <= ms.len(),
    ensures
        tokens::messages_tokens(ms.skip(j)) <= tokens::messages_tokens(ms.skip(i)),
    decreases j - i,
{
    if i < j {
        assert(ms.skip(i).drop_first() =~= ms.skip(i + 1));
        lemma_messages_tokens_skip(ms, i + 1, j);
    }
}

/// `token_trimmed` is determined by the first suffix that is not over the
/// budget.
proof fn lemma_token_trimmed(ms: Seq<MessageView>, system: nat, budget: nat, k: int)
    requires
        0 <= k <= ms.len(),
        !over_budget(ms.skip(k), system, budget),
        k > 0 ==> over_budget(ms.skip(k - 1), system, budget),
    ensures
        token_trimmed(ms, system, budget) == ms.skip(k),
    decreases k,
{
    if k == 0 {
        assert(ms.skip(0) =~= ms);
    } else {
        lemma_messages_tokens_skip(ms, 0, k - 1);
        assert(ms.skip(0) =~= ms);
        let rest = ms.drop_first();
        assert(rest.skip(k - 1) =~= ms.skip(k));
        if k > 1 {
            assert(rest.skip(k - 2) =~= ms.skip(k - 1));
        }
        lemma_token_trimmed(rest, system, budget, k - 1);
    }
}

impl ConversationHistory {
    /// How many messages a trim drops from the front of `messages`, before
    /// it looks at tool results.
    pub fn trim_count(&self) -> (k: usize)
        ensures
            k <= self.messages@.len(),
            self@.cut() == self@.messages.skip(k as int),
    {
        let len = self.messages.len();
        let first: usize = if len > self.config.max_messages {
            len - self.config.max_messages
        } else {
            0
        };
        let ghost ms = self@.messages;
        let ghost kept = ms.skip(first as int);
        let ghost system = tokens::system_tokens(self@.system);
        let budget = self.config.max_context_tokens;
        assert(capped(ms, self.config.max_messages as nat) =~= kept);
        let system_tokens: usize = self.estimate_system_tokens();
        let mut total: usize = system_tokens;
        let mut i: usize = len;
        assert(ms.skip(len as int) =~= Seq::<MessageView>::empty());
        while i > first
            invariant
                ms == api::message_views(self.messages@),
                len == self.messages@.len(),
                first <= i <= len,
                total == tokens::saturated(system + tokens::messages_tokens(ms.skip(i as int))),
                !over_budget(ms.skip(i as int), system, budget as nat),
            ensures
                first <= i <= len,
                !over_budget(ms.skip(i as int), system, budget as nat),
                i > first ==> over_budget(ms.skip(i - 1), system, budget as nat),
            decreases i,
        {
            proof {
                assert(ms.skip(i - 1).drop_first() =~= ms.skip(i as int));
                assert(ms.skip(i - 1).first() == self.messages@[i - 1]@);
            }
            let more: usize = total.saturating_add(
                Self::estimate_message_tokens(&self.messages[i - 1]),
            );
            if len - (i - 1) > TRIM_MIN_MESSAGES && more > budget {
                break;
            }
            total = more;
            i = i - 1;
        }
        proof {
            assert(kept.skip(i - first) =~= ms.skip(i as int));
            if i > first {
                assert(kept.skip(i - first - 1) =~= ms.skip(i - 1));
            }
            lemma_token_trimmed(kept, system, budget as nat, i - first);
        }
        i
    }

    /// Drops the first `k` messages.
    fn drop_front(&mut self, k: usize)
        requires
            k <= old(self).messages@.len(),
        ensures
            final(self)@ == (HistoryView {
                messages: old(self)@.messages.skip(k as int),
                ..old(self)@
            }),
    {
        let ghost before = self.messages@;
        let rest = self.messages.split_off(k);
        self.messages = rest;
        assert(api::message_views(self.messages@) =~= api::message_views(before).skip(k as int));
    }

    /// Brings the history within its limits: at most `max_messages`
    /// messages, as few of them dropped as the token budget needs, and no
    /// tool result at the front whose call was dropped. The second cache
    /// marker survives only where nothing before it changed.
    pub fn trim_if_needed(&mut self)
        ensures
            final(self)@ == old(self)@.trimmed(),
    {
        let len_before = self.messages.len();
        let k = self.trim_count();
        self.drop_front(k);
        let stripped_orphan = self.drop_leading_orphaned_tool_results();
        let total_tokens = self.estimate_total_tokens();
        if self.messages.len() != len_before || stripped_orphan {
            self.invalidate_cache_anchor();
        }
        self.warned_at_floor = total_tokens > self.config.max_context_tokens && self.messages.len()
            <= TRIM_MIN_MESSAGES;
        self.maintain_cache_anchor();
    }

    /// How many blocks a message counts for.
    pub fn message_block_count(msg: &Message) -> (n: usize)
        ensures
            n == msg@.block_count(),
    {
        match &msg.content {
            MessageContent::Text { .. } => 1,
            MessageContent::Blocks { content } => content.len(),
        }
    }

    /// How many blocks lie in the messages `from..to`, at most the largest
    /// `usize`.
    pub fn block_distance(&self, from: usize, to: usize) -> (n: usize)
        requires
            from <= to <= self.messages@.len(),
        ensures
            n == tokens::saturated(blocks_between(self@.messages, from as int, to as int)),
    {
        let mut total: usize = 0;
        let mut i: usize = to;
        while i > from
            invariant
                from <= i <= to <= self.messages@.len(),
                total == tokens::saturated(blocks_between(self@.messages, i as int, to as int)),
            decreases i,
        {
            i = i - 1;
            total = total.saturating_add(Self::message_block_count(&self.messages[i]));
        }
        total
    }

    /// Moves the second cache marker where it belongs. It stays where it is
    /// while few enough blocks follow it; otherwise it goes to the last
    /// block-carrying message that is far enough from the end, or away.
    pub fn maintain_cache_anchor(&mut self)
        ensures
            final(self)@ == old(self)@.anchored(),
    {
        let len = self.messages.len();
        if len < 2 {
            self.cache_anchor_message_idx = None;
            return;
        }
        let rolling_idx = len - 1;
        if let Some(idx) = self.cache_anchor_message_idx {
            if idx < rolling_idx {
                let ghost m = self@.messages[idx as int];
                assert(m == self.messages@[idx as int]@);
                let carries_blocks = matches!(
                    self.messages[idx].content,
                    MessageContent::Blocks { .. }
                );
                if carries_blocks && self.block_distance(idx, rolling_idx) <= KEEP_DISTANCE_BLOCKS {
                    return;
                }
            }
        }
        let ghost ms = self@.messages;
        let mut blocks_back: usize = 0;
        let mut i: usize = rolling_idx;
        while i > 0
            invariant
                ms == api::message_views(self.messages@),
                rolling_idx == ms.len() - 1,
                i <= rolling_idx,
                blocks_back == tokens::saturated(
                    blocks_between(ms, i as int, rolling_idx as int),
                ),
                pick_anchor(ms, rolling_idx as int) == pick_anchor(ms, i as int),
                self@ == (HistoryView { anchor: self@.anchor, ..old(self)@ }),
                old(self)@.anchored().anchor == pick_anchor(ms, rolling_idx as int),
            decreases i,
        {
            i = i - 1;
            blocks_back = blocks_back.saturating_add(
                Self::message_block_count(&self.messages[i]),
            );
            assert(ms[i as int] == self.messages@[i as int]@);
            if blocks_back >= TARGET_OFFSET_BLOCKS && matches!(
                self.messages[i].content,
                MessageContent::Blocks { .. }
            ) {
                self.cache_anchor_message_idx = Some(i);
                return;
            }
        }
        self.cache_anchor_message_idx = None;
    }

    /// Where the second cache marker stands.
    pub fn cache_anchor_message_idx(&self) -> (r: Option<usize>)
        ensures
            r == self@.anchor,
    {
        self.cache_anchor_message_idx
    }

    /// Takes the second cache marker away.
    pub fn invalidate_cache_anchor(&mut self)
        ensures
            final(self)@ == (HistoryView { anchor: None, ..old(self)@ }),
    {
        self.cache_anchor_message_idx = None;
    }

    /// Removes the tool results that the history starts with: their calls
    /// are no longer part of it. Says whether anything was removed.
    pub fn drop_leading_orphaned_tool_results(&mut self) -> (mutated: bool)
        ensures
            final(self)@ == (HistoryView {
                messages: strip_leading(old(self)@.messages),
                ..old(self)@
            }),
            mutated == leading_orphan(old(self)@.messages),
    {
        let mut mutated = false;
        loop
            invariant
                self@ == (HistoryView { messages: self@.messages, ..old(self)@ }),
                strip_leading(self@.messages) == strip_leading(old(self)@.messages),
                mutated ==> leading_orphan(old(self)@.messages),
                !mutated ==> self@.messages == old(self)@.messages,
            decreases self.messages@.len(),
        {
            if self.messages.len() == 0 {
                return mutated;
            }
            let ghost ms = self@.messages;
            assert(ms[0] == self.messages@[0]@);
            if !self.messages[0].is_user() || !Self::message_has_tool_result(&self.messages[0]) {
                return mutated;
            }
            mutated = true;
            let head = self.messages.remove(0);
            assert(self@.messages =~= ms.drop_first());
            if let MessageContent::Blocks { content } = &head.content {
                let kept = take_results_out(content);
                if kept.len() > 0 {
                    self.messages.insert(
                        0,
                        Message {
                            role: head.role.clone(),
                            content: MessageContent::Blocks { content: kept },
                        },
                    );
                    assert(self@.messages =~= strip_leading(ms));
                    return mutated;
                }
            }
        }
    }

    /// Whether a message answers a tool call.
    pub fn message_has_tool_result(msg: &Message) -> (r: bool)
        ensures
            r == msg@.has_tool_result(),
    {
        match &msg.content {
            MessageContent::Text { .. } => false,
            MessageContent::Blocks { content } => {
                let ghost all = api::block_views(content@);
                let mut i: usize = 0;
                while i < content.len()
                    invariant
                        all == api::block_views(content@),
                        msg@.content == (ContentView::Blocks { content: all }),
                        i <= content@.len(),
                        forall|k: int| 0 <= k < i ==> !((#[trigger] all[k]).body is ToolResult),
                    decreases content@.len() - i,
                {
                    if content[i].is_tool_result() {
                        assert(all[i as int].body is ToolResult);
                        return true;
                    }
                    i = i + 1;
                }
                false
            },
        }
    }

    /// Removes the tool calls that the history ends with: nothing answers
    /// them. Says whether anything was removed.
    pub fn drop_tail_orphaned_tool_uses(&mut self) -> (mutated: bool)
        ensures
            final(self)@ == (HistoryView {
                messages: strip_trailing(old(self)@.messages),
                ..old(self)@
            }),
            mutated == trailing_call(old(self)@.messages),
    {
        let len = self.messages.len();
        if len == 0 {
            return false;
        }
        let ghost ms = self@.messages;
        let last = &self.messages[len - 1];
        assert(ms.last() == last@);
        if !text::same(last.role.as_str(), "assistant") {
            return false;
        }
        let kept = match &last.content {
            MessageContent::Text { .. } => {
                return false;
            },
            MessageContent::Blocks { content } => {
                if !any_tool_call(content) {
                    return false;
                }
                let mut kept = take_calls_out(content);
                if kept.len() == 0 {
                    kept.push(
                        MessageContentBlock::plain_text(
                            "[Tool call interrupted before execution]".to_owned(),
                        ),
                    );
                    assert(api::block_views(kept@) =~= interrupted(api::block_views(content@)));
                }
                kept
            },
        };
        let role = last.role.clone();
        let _ = self.messages.pop();
        self.messages.push(Message { role, content: MessageContent::Blocks { content: kept } });
        assert(self@.messages =~= strip_trailing(ms));
        true
    }
}

} // verus!
