//! Making a long history shorter: shortening old tool results, replacing
//! old messages with a summary, and saying in a few lines what was dropped.

use super::{ConversationHistory, HistoryView};
use crate::api;
use crate::api::{
    BlockView, BodyView, ContentView, Message, MessageContent, MessageContentBlock, MessageView,
};
use crate::text;
use vstd::prelude::*;

verus! {

/// Most bytes that a shortened tool result keeps at each of its ends.
pub const COMPACTION_TOOL_RESULT_KEEP_CHARS: usize = 500;

/// The bytes that a tool result of `len` bytes keeps at each of its ends.
pub open spec fn keep_size(len: nat) -> nat {
    if len / 3 < COMPACTION_TOOL_RESULT_KEEP_CHARS {
        len / 3
    } else {
        COMPACTION_TOOL_RESULT_KEEP_CHARS as nat
    }
}

/// A tool result with its middle left out, where it is longer than the
/// threshold.
pub open spec fn shortened_text(s: Seq<char>, threshold: nat) -> Seq<char> {
    let len = text::utf8_len(s);
    if len > threshold {
        text::clip(s, keep_size(len)) + "\n...[truncated "@ + text::decimal_of(len)
            + " chars]...\n"@ + text::tail_of(s, keep_size(len))
    } else {
        s
    }
}

pub open spec fn shortened_block(b: BlockView, threshold: nat) -> BlockView {
    match b.body {
        BodyView::ToolResult { tool_use_id, content } => BlockView {
            body: BodyView::ToolResult {
                tool_use_id,
                content: shortened_text(content, threshold),
            },
            cache: b.cache,
        },
        _ => b,
    }
}

pub open spec fn shortened_blocks(v: Seq<BlockView>, threshold: nat) -> Seq<BlockView> {
    v.map_values(|b: BlockView| shortened_block(b, threshold))
}

pub open spec fn shortened_message(m: MessageView, threshold: nat) -> MessageView {
    match m.content {
        ContentView::Text { .. } => m,
        ContentView::Blocks { content } => m.with_blocks(shortened_blocks(content, threshold)),
    }
}

/// The messages with the tool results in the first `up_to` of them
/// shortened.
pub open spec fn shortened_messages(
    ms: Seq<MessageView>,
    up_to: int,
    threshold: nat,
) -> Seq<MessageView> {
    ms.map(
        |i: int, m: MessageView|
            if i < up_to {
                shortened_message(m, threshold)
            } else {
                m
            },
    )
}

/// Whether a message holds the result of a tool call of either side.
pub open spec fn carries_results(m: MessageView) -> bool {
    m.content is Blocks && exists|i: int|
        0 <= i < m.content->Blocks_content.len() && {
            let b = #[trigger] m.content->Blocks_content[i];
            b.body is ToolResult || b.body is WebSearchToolResult
        }
}

/// The last user turn at or before `i`, or the first message.
pub open spec fn back_to_user(ms: Seq<MessageView>, i: int) -> int
    decreases i,
{
    if i <= 0 || ms[i].is_user() {
        i
    } else {
        back_to_user(ms, i - 1)
    }
}

/// The last message at or before `i` that holds no tool results, or the
/// first message.
pub open spec fn back_over_results(ms: Seq<MessageView>, i: int) -> int
    decreases i,
{
    if i <= 0 || !carries_results(ms[i]) {
        i
    } else {
        back_over_results(ms, i - 1)
    }
}

/// Where the messages that a compaction keeps start.
pub open spec fn split_point(ms: Seq<MessageView>, preserve: nat) -> int {
    if ms.len() <= preserve + 5 {
        0
    } else {
        let start = if preserve == 0 {
            ms.len() - 1
        } else {
            ms.len() - preserve
        };
        back_over_results(ms, back_to_user(ms, start))
    }
}

/// A text, cut after `limit` bytes where it is longer, with three dots in
/// place of the rest.
pub open spec fn preview(s: Seq<char>, limit: nat) -> Seq<char> {
    if text::utf8_len(s) > limit {
        text::clip(s, limit) + "..."@
    } else {
        s
    }
}

/// What a block contributes to the text that a summary is made from.
pub open spec fn summary_part(b: BodyView, label: Seq<char>) -> Option<Seq<char>> {
    match b {
        BodyView::Text { text } => Some(label + ": "@ + text),
        BodyView::ToolUse { name, input, .. } => Some(
            "[Tool call: "@ + name + "("@ + preview(input, 200) + ")]"@,
        ),
        BodyView::ToolResult { content, .. } => Some(
            "[Tool result: "@ + preview(content, 300) + "]"@,
        ),
        BodyView::Image { .. } => Some("[Image attached]"@),
        _ => None,
    }
}

pub open spec fn role_label(m: MessageView) -> Seq<char> {
    if m.is_user() {
        "User"@
    } else {
        "Assistant"@
    }
}

pub open spec fn block_parts(v: Seq<BlockView>, label: Seq<char>) -> Seq<Seq<char>>
    decreases v.len(),
{
    if v.len() == 0 {
        Seq::empty()
    } else {
        let before = block_parts(v.drop_last(), label);
        match summary_part(v.last().body, label) {
            Some(p) => before.push(p),
            None => before,
        }
    }
}

pub open spec fn message_parts(m: MessageView) -> Seq<Seq<char>> {
    match m.content {
        ContentView::Text { content } => seq![role_label(m) + ": "@ + content],
        ContentView::Blocks { content } => block_parts(content, role_label(m)),
    }
}

pub open spec fn all_parts(ms: Seq<MessageView>) -> Seq<Seq<char>>
    decreases ms.len(),
{
    if ms.len() == 0 {
        Seq::empty()
    } else {
        all_parts(ms.drop_last()) + message_parts(ms.last())
    }
}

/// The message that stands for those that a summary replaced.
pub open spec fn summary_message(summary: Seq<char>) -> MessageView {
    MessageView::user(
        "[Conversation Summary]\n\nThe following is a summary of our earlier conversation:\n\n"@
            + summary,
    )
}

impl HistoryView {
    /// The history with its first `split` messages replaced by a summary.
    pub open spec fn summarized(self, summary: Seq<char>, split: int) -> HistoryView {
        if split == 0 || split > self.messages.len() {
            self
        } else {
            HistoryView {
                messages: seq![summary_message(summary)] + self.messages.skip(split),
                anchor: None,
                ..self
            }.anchored()
        }
    }
}

/// A text, cut after `limit` bytes where it is longer, with three dots in
/// place of the rest.
pub fn preview_text(s: &str, limit: usize) -> (r: String)
    ensures
        r@ == preview(s@, limit as nat),
{
    if text::byte_len(s) > limit {
        let mut r = text::truncate_at_char_boundary(s, limit);
        r.append("...");
        r
    } else {
        s.to_owned()
    }
}

/// A tool result with its middle left out, where it is longer than the
/// threshold.
pub fn shorten_text(s: &str, threshold: usize) -> (r: String)
    ensures
        r@ == shortened_text(s@, threshold as nat),
{
    let original_len = text::byte_len(s);
    if original_len > threshold {
        let third: usize = original_len / 3;
        let actual_keep: usize = if third < COMPACTION_TOOL_RESULT_KEEP_CHARS {
            third
        } else {
            COMPACTION_TOOL_RESULT_KEEP_CHARS
        };
        let mut r = text::truncate_at_char_boundary(s, actual_keep);
        r.append("\n...[truncated ");
        r.append(text::decimal(original_len as u128).as_str());
        r.append(" chars]...\n");
        r.append(text::tail_at_char_boundary(s, actual_keep).as_str());
        r
    } else {
        s.to_owned()
    }
}

fn shorten_blocks(content: &mut Vec<MessageContentBlock>, threshold: usize)
    ensures
        api::block_views(final(content)@) == shortened_blocks(
            api::block_views(old(content)@),
            threshold as nat,
        ),
{
    let ghost before = api::block_views(content@);
    let mut j: usize = 0;
    while j < content.len()
        invariant
            before == api::block_views(old(content)@),
            content@.len() == before.len(),
            j <= content@.len(),
            forall|k: int|
                0 <= k < j ==> (#[trigger] content@[k])@ == shortened_block(
                    before[k],
                    threshold as nat,
                ),
            forall|k: int| j <= k < before.len() ==> (#[trigger] content@[k])@ == before[k],
        decreases content@.len() - j,
    {
        let ghost current = content@;
        assert(current[j as int]@ == before[j as int]);
        if let MessageContentBlock::ToolResult { content: result_text, .. } = &mut content[j] {
            let short = shorten_text(result_text.as_str(), threshold);
            *result_text = short;
        }
        assert forall|k: int| 0 <= k < before.len() && k != j implies content@[k]
            == current[k] by {}
        j = j + 1;
    }
    assert(api::block_views(content@) =~= shortened_blocks(before, threshold as nat));
}

impl ConversationHistory {
    /// Whether the history is over its compaction limit.
    pub fn needs_compaction(&self) -> (r: bool)
        ensures
            r == (self@.total_tokens() > self@.config.auto_compact_token_limit),
    {
        self.estimate_total_tokens() > self.config.auto_compact_token_limit
    }

    /// Sets the limit above which the history is compacted.
    pub fn set_auto_compact_token_limit(&mut self, n: usize)
        ensures
            final(self)@ == (HistoryView {
                config: crate::config::SofosConfig {
                    auto_compact_token_limit: n,
                    ..old(self)@.config
                },
                ..old(self)@
            }),
    {
        self.config.auto_compact_token_limit = n;
    }

    /// Where the messages that a compaction keeps start: at a user turn,
    /// with at least the configured number of messages after it, and never
    /// at tool results without their call. Zero where there is too little to
    /// compact.
    pub fn compaction_split_point(&self) -> (split: usize)
        ensures
            split == split_point(
                self@.messages,
                self@.config.compaction_preserve_recent as nat,
            ),
    {
        let preserve = self.config.compaction_preserve_recent;
        let len = self.messages.len();
        if len <= preserve || len - preserve <= 5 {
            return 0;
        }
        let ghost ms = self@.messages;
        let mut split: usize = if preserve == 0 {
            len - 1
        } else {
            len - preserve
        };
        let ghost start = split as int;
        while split > 0 && !self.messages[split].is_user()
            invariant
                ms == self@.messages,
                split < ms.len(),
                back_to_user(ms, split as int) == back_to_user(ms, start),
            decreases split,
        {
            assert(ms[split as int] == self.messages@[split as int]@);
            split = split - 1;
        }
        proof {
            if split > 0 {
                assert(ms[split as int] == self.messages@[split as int]@);
            }
        }
        let ghost middle = split as int;
        while split > 0 && Self::message_carries_results(&self.messages[split])
            invariant
                ms == self@.messages,
                split < ms.len(),
                back_over_results(ms, split as int) == back_over_results(ms, middle),
            decreases split,
        {
            assert(ms[split as int] == self.messages@[split as int]@);
            split = split - 1;
        }
        proof {
            if split > 0 {
                assert(ms[split as int] == self.messages@[split as int]@);
            }
        }
        split
    }

    /// Whether a message holds the result of a tool call of either side.
    pub fn message_carries_results(msg: &Message) -> (r: bool)
        ensures
            r == carries_results(msg@),
    {
        match &msg.content {
            MessageContent::Text { .. } => false,
            MessageContent::Blocks { content } => {
                let mut i: usize = 0;
                while i < content.len()
                    invariant
                        msg@.content == (ContentView::Blocks {
                            content: api::block_views(content@),
                        }),
                        i <= content@.len(),
                        forall|k: int|
                            0 <= k < i ==> {
                                let b = #[trigger] msg@.content->Blocks_content[k];
                                !(b.body is ToolResult || b.body is WebSearchToolResult)
                            },
                    decreases content@.len() - i,
                {
                    let ghost b = msg@.content->Blocks_content[i as int];
                    assert(b == content@[i as int]@);
                    if matches!(
                        &content[i],
                        MessageContentBlock::ToolResult { .. }
                        | MessageContentBlock::WebSearchToolResult { .. }
                    ) {
                        return true;
                    }
                    i = i + 1;
                }
                false
            },
        }
    }

    /// Shortens the tool results in the first `up_to` messages. What a cache
    /// marker stands for changes with them, so the second marker goes.
    pub fn truncate_tool_results(&mut self, up_to: usize)
        requires
            up_to <= old(self)@.messages.len(),
        ensures
            final(self)@ == (HistoryView {
                messages: shortened_messages(
                    old(self)@.messages,
                    up_to as int,
                    old(self)@.config.tool_result_truncate_threshold as nat,
                ),
                anchor: None,
                ..old(self)@
            }),
    {
        self.invalidate_cache_anchor();
        let threshold = self.config.tool_result_truncate_threshold;
        let ghost before = self@.messages;
        let mut i: usize = 0;
        while i < up_to
            invariant
                up_to <= before.len(),
                i <= up_to,
                self.messages@.len() == before.len(),
                threshold == self.config.tool_result_truncate_threshold,
                self@ == (HistoryView { messages: self@.messages, anchor: None, ..old(self)@ }),
                before == old(self)@.messages,
                forall|k: int|
                    0 <= k < i ==> (#[trigger] self.messages@[k])@ == shortened_message(
                        before[k],
                        threshold as nat,
                    ),
                forall|k: int| i <= k < before.len() ==> (#[trigger] self.messages@[k])@
                    == before[k],
            decreases up_to - i,
        {
            let ghost current = self.messages@;
            assert(current[i as int]@ == before[i as int]);
            let msg = &mut self.messages[i];
            if let MessageContent::Blocks { content } = &mut msg.content {
                shorten_blocks(content, threshold);
            }
            assert forall|k: int| 0 <= k < before.len() && k != i implies self.messages@[k]
                == current[k] by {}
            i = i + 1;
        }
        assert(self@.messages =~= shortened_messages(before, up_to as int, threshold as nat));
    }

    /// The text of a conversation that a summary is made from.
    pub fn serialize_messages_for_summary(messages: &[Message]) -> (r: String)
        ensures
            r@ == text::joined(all_parts(api::message_views(messages@)), "\n\n"@),
    {
        let ghost ms = api::message_views(messages@);
        let mut parts: Vec<String> = Vec::new();
        let mut i: usize = 0;
        assert(ms.take(0) =~= Seq::<MessageView>::empty());
        assert(text::views(parts@) =~= all_parts(ms.take(0)));
        while i < messages.len()
            invariant
                ms == api::message_views(messages@),
                i <= messages@.len(),
                text::views(parts@) == all_parts(ms.take(i as int)),
            decreases messages@.len() - i,
        {
            proof {
                assert(ms.take(i + 1).drop_last() =~= ms.take(i as int));
                assert(ms.take(i + 1).last() == messages@[i as int]@);
            }
            let ghost before = parts@;
            let mut more = Self::summary_parts(&messages[i]);
            let ghost added = more@;
            parts.append(&mut more);
            assert(text::views(parts@) =~= text::views(before) + text::views(added));
            i = i + 1;
        }
        assert(ms.take(i as int) =~= ms);
        text::join(&parts, "\n\n")
    }

    fn summary_parts(msg: &Message) -> (parts: Vec<String>)
        ensures
            text::views(parts@) == message_parts(msg@),
    {
        let role_label = if msg.is_user() {
            "User"
        } else {
            "Assistant"
        };
        let mut parts: Vec<String> = Vec::new();
        match &msg.content {
            MessageContent::Text { content } => {
                let mut s = role_label.to_owned();
                s.append(": ");
                s.append(content.as_str());
                parts.push(s);
                assert(text::views(parts@) =~= message_parts(msg@));
            },
            MessageContent::Blocks { content } => {
                let ghost all = api::block_views(content@);
                let mut j: usize = 0;
                assert(all.take(0) =~= Seq::<BlockView>::empty());
                assert(text::views(parts@) =~= block_parts(all.take(0), role_label@));
                while j < content.len()
                    invariant
                        all == api::block_views(content@),
                        j <= content@.len(),
                        text::views(parts@) == block_parts(all.take(j as int), role_label@),
                    decreases content@.len() - j,
                {
                    proof {
                        assert(all.take(j + 1).drop_last() =~= all.take(j as int));
                        assert(all.take(j + 1).last() == content@[j as int]@);
                    }
                    let ghost before = parts@;
                    match Self::summary_part(&content[j], role_label) {
                        Some(p) => {
                            parts.push(p);
                            assert(text::views(parts@) =~= text::views(before).push(p@));
                        },
                        None => {},
                    }
                    j = j + 1;
                }
                assert(all.take(j as int) =~= all);
            },
        }
        parts
    }

    fn summary_part(block: &MessageContentBlock, role_label: &str) -> (r: Option<String>)
        ensures
            api::option_view(r) == summary_part(block@.body, role_label@),
    {
        match block {
            MessageContentBlock::Text { text, .. } => {
                let mut s = role_label.to_owned();
                s.append(": ");
                s.append(text.as_str());
                Some(s)
            },
            MessageContentBlock::ToolUse { name, input, .. } => {
                let mut s = "[Tool call: ".to_owned();
                s.append(name.as_str());
                s.append("(");
                s.append(preview_text(input.as_str(), 200).as_str());
                s.append(")]");
                Some(s)
            },
            MessageContentBlock::ToolResult { content, .. } => {
                let mut s = "[Tool result: ".to_owned();
                s.append(preview_text(content.as_str(), 300).as_str());
                s.append("]");
                Some(s)
            },
            MessageContentBlock::Image { .. } => Some("[Image attached]".to_owned()),
            _ => None,
        }
    }

    /// Replaces the first `split_point` messages with a summary of them.
    /// Nothing changes where there are none to replace or not that many.
    pub fn replace_with_summary(&mut self, summary: String, split_point: usize)
        ensures
            final(self)@ == old(self)@.summarized(summary@, split_point as int),
    {
        if split_point == 0 || split_point > self.messages.len() {
            return;
        }
        self.invalidate_cache_anchor();
        let ghost before = self@.messages;
        let mut rest = self.messages.split_off(split_point);
        let mut s =
            "[Conversation Summary]\n\nThe following is a summary of our earlier conversation:\n\n".to_owned();
        s.append(summary.as_str());
        rest.insert(0, Message::user(s));
        self.messages = rest;
        assert(self@.messages =~= seq![summary_message(summary@)] + before.skip(
            split_point as int,
        ));
        self.maintain_cache_anchor();
    }
}

} // verus!
