//! Estimates of how many tokens a conversation takes. They are coarse on
//! purpose: they decide when to trim and when to compact, never what is
//! billed.

use super::{ConversationHistory, HistoryView};
use crate::api;
use crate::api::{
    BodyView, ContentView, ImageSource, ImageView, Message, MessageContent, MessageContentBlock,
    MessageView, SystemView,
};
use crate::text;
use vstd::prelude::*;

verus! {

/// The number, or the largest `usize` where it is larger than that.
pub open spec fn saturated(n: nat) -> nat {
    if n <= usize::MAX {
        n
    } else {
        usize::MAX as nat
    }
}

/// One token per three and a half bytes, rounded up.
pub open spec fn text_tokens(s: Seq<char>) -> nat {
    (2 * text::utf8_len(s) + 6) / 7
}

pub open spec fn texts_tokens(v: Seq<Seq<char>>) -> nat
    decreases v.len(),
{
    if v.len() == 0 {
        0
    } else {
        texts_tokens(v.drop_last()) + text_tokens(v.last())
    }
}

/// An encoded image counts by the pixels that its bytes are likely to
/// stand for, and never less than a hundred; one behind a link counts as a
/// medium-sized image.
pub open spec fn image_tokens(source: ImageView) -> nat {
    match source {
        ImageView::Base64 { data, .. } => {
            let n = text::utf8_len(data) * 3 / 4 / 10 / 750;
            if n < 100 {
                100
            } else {
                n
            }
        },
        ImageView::Url { .. } => 1000,
    }
}

pub open spec fn body_tokens(b: BodyView) -> nat {
    match b {
        BodyView::Text { text } => text_tokens(text),
        BodyView::Thinking { thinking, signature } => text_tokens(thinking) + text_tokens(signature)
            + 10,
        BodyView::Summary { summary } => text_tokens(summary) + 10,
        BodyView::Compaction { content } => text_tokens(content) + 10,
        BodyView::Reasoning { id, summary, encrypted } => text_tokens(id) + texts_tokens(summary) + (
        match encrypted {
            Some(e) => text_tokens(e),
            None => 0,
        }) + 10,
        BodyView::ToolUse { id, name, input } => text_tokens(id) + text_tokens(name) + text_tokens(
            input,
        ) + 10,
        BodyView::ToolResult { tool_use_id, content } => text_tokens(tool_use_id) + text_tokens(
            content,
        ) + 10,
        BodyView::ServerToolUse { id, name, input } => text_tokens(id) + text_tokens(name)
            + text_tokens(input) + 10,
        BodyView::WebSearchToolResult { tool_use_id, content } => text_tokens(tool_use_id)
            + text_tokens(api::json_array(content)) + 20,
        BodyView::Image { source } => image_tokens(source),
    }
}

pub open spec fn blocks_tokens(v: Seq<api::BlockView>) -> nat
    decreases v.len(),
{
    if v.len() == 0 {
        0
    } else {
        blocks_tokens(v.drop_last()) + body_tokens(v.last().body)
    }
}

pub open spec fn message_tokens(m: MessageView) -> nat {
    match m.content {
        ContentView::Text { content } => text_tokens(content),
        ContentView::Blocks { content } => blocks_tokens(content),
    }
}

pub open spec fn messages_tokens(v: Seq<MessageView>) -> nat
    decreases v.len(),
{
    if v.len() == 0 {
        0
    } else {
        message_tokens(v.first()) + messages_tokens(v.drop_first())
    }
}

pub open spec fn system_tokens(v: Seq<SystemView>) -> nat
    decreases v.len(),
{
    if v.len() == 0 {
        0
    } else {
        system_tokens(v.drop_last()) + text_tokens(v.last().text)
    }
}

impl HistoryView {
    /// The estimate for the system prompt and all messages.
    pub open spec fn total_tokens(self) -> nat {
        saturated(system_tokens(self.system) + messages_tokens(self.messages))
    }
}

/// The estimate for one block.
pub fn estimate_block_tokens(block: &MessageContentBlock) -> (n: usize)
    ensures
        n == saturated(body_tokens(block@.body)),
{
    match block {
        MessageContentBlock::Text { text, .. } => ConversationHistory::estimate_tokens(
            text.as_str(),
        ),
        MessageContentBlock::Thinking {
            thinking,
            signature,
            ..
        } => ConversationHistory::estimate_tokens(thinking.as_str()).saturating_add(
            ConversationHistory::estimate_tokens(signature.as_str()),
        ).saturating_add(10),
        MessageContentBlock::Summary { summary, .. } => ConversationHistory::estimate_tokens(
            summary.as_str(),
        ).saturating_add(10),
        MessageContentBlock::Compaction { content, .. } => ConversationHistory::estimate_tokens(
            content.as_str(),
        ).saturating_add(10),
        MessageContentBlock::Reasoning { id, summary, encrypted_content, .. } => {
            let mut summary_tokens: usize = 0;
            let mut i: usize = 0;
            assert(text::views(summary@).take(0) =~= Seq::<Seq<char>>::empty());
            while i < summary.len()
                invariant
                    i <= summary@.len(),
                    summary_tokens == saturated(
                        texts_tokens(text::views(summary@).take(i as int)),
                    ),
                decreases summary@.len() - i,
            {
                proof {
                    let t = text::views(summary@).take(i + 1);
                    assert(t.drop_last() =~= text::views(summary@).take(i as int));
                    assert(t.last() == summary@[i as int]@);
                }
                summary_tokens = summary_tokens.saturating_add(
                    ConversationHistory::estimate_tokens(summary[i].as_str()),
                );
                i = i + 1;
            }
            assert(text::views(summary@).take(i as int) =~= text::views(summary@));
            let enc_tokens: usize = match encrypted_content {
                Some(s) => ConversationHistory::estimate_tokens(s.as_str()),
                None => 0,
            };
            ConversationHistory::estimate_tokens(id.as_str()).saturating_add(
                summary_tokens,
            ).saturating_add(enc_tokens).saturating_add(10)
        },
        MessageContentBlock::ToolUse {
            id,
            name,
            input,
            ..
        } => ConversationHistory::estimate_tokens(id.as_str()).saturating_add(
            ConversationHistory::estimate_tokens(name.as_str()),
        ).saturating_add(ConversationHistory::estimate_tokens(input.as_str())).saturating_add(10),
        MessageContentBlock::ToolResult {
            tool_use_id,
            content,
            ..
        } => ConversationHistory::estimate_tokens(tool_use_id.as_str()).saturating_add(
            ConversationHistory::estimate_tokens(content.as_str()),
        ).saturating_add(10),
        MessageContentBlock::ServerToolUse {
            id,
            name,
            input,
            ..
        } => ConversationHistory::estimate_tokens(id.as_str()).saturating_add(
            ConversationHistory::estimate_tokens(name.as_str()),
        ).saturating_add(ConversationHistory::estimate_tokens(input.as_str())).saturating_add(10),
        MessageContentBlock::WebSearchToolResult { tool_use_id, content, .. } => {
            let content_str = api::array_text(content);
            ConversationHistory::estimate_tokens(tool_use_id.as_str()).saturating_add(
                ConversationHistory::estimate_tokens(content_str.as_str()),
            ).saturating_add(20)
        },
        MessageContentBlock::Image { source, .. } => match source {
            ImageSource::Base64 { data, .. } => {
                let len: usize = text::byte_len(data.as_str());
                let estimated_bytes: usize = len / 4 * 3 + len % 4 * 3 / 4;
                assert(estimated_bytes == (len as nat) * 3 / 4);
                let estimated_pixels: usize = estimated_bytes / 10;
                let n: usize = estimated_pixels / 750;
                if n < 100 {
                    100
                } else {
                    n
                }
            },
            ImageSource::Url { .. } => 1000,
        },
    }
}

impl ConversationHistory {
    /// Sets the token budget above which old messages are dropped.
    pub fn set_max_context_tokens(&mut self, n: usize)
        ensures
            final(self)@ == (HistoryView {
                config: crate::config::SofosConfig {
                    max_context_tokens: n,
                    ..old(self)@.config
                },
                ..old(self)@
            }),
    {
        self.config.max_context_tokens = n;
    }

    /// The tokens that a text is estimated to take: one per three and a
    /// half bytes, rounded up.
    pub fn estimate_tokens(text: &str) -> (n: usize)
        ensures
            n == text_tokens(text@),
            2 * text::utf8_len(text@) <= 7 * n < 2 * text::utf8_len(text@) + 7,
    {
        let len: usize = text::byte_len(text);
        len / 7 * 2 + (len % 7 * 2 + 6) / 7
    }

    /// The estimate for the system prompt.
    pub fn estimate_system_tokens(&self) -> (n: usize)
        ensures
            n == saturated(system_tokens(self@.system)),
    {
        let mut total: usize = 0;
        let mut i: usize = 0;
        assert(self@.system.take(0) =~= Seq::<SystemView>::empty());
        while i < self.system_prompt.len()
            invariant
                i <= self.system_prompt@.len(),
                total == saturated(system_tokens(self@.system.take(i as int))),
            decreases self.system_prompt@.len() - i,
        {
            proof {
                let t = self@.system.take(i + 1);
                assert(t.drop_last() =~= self@.system.take(i as int));
                assert(t.last() == self.system_prompt@[i as int]@);
            }
            total = total.saturating_add(Self::estimate_tokens(self.system_prompt[i].text.as_str()));
            i = i + 1;
        }
        assert(self@.system.take(i as int) =~= self@.system);
        total
    }

    /// The estimate for one message.
    pub fn estimate_message_tokens(msg: &Message) -> (n: usize)
        ensures
            n == saturated(message_tokens(msg@)),
    {
        match &msg.content {
            MessageContent::Text { content } => Self::estimate_tokens(content.as_str()),
            MessageContent::Blocks { content } => {
                let ghost all = api::block_views(content@);
                let mut total: usize = 0;
                let mut i: usize = 0;
                assert(all.take(0) =~= Seq::<api::BlockView>::empty());
                while i < content.len()
                    invariant
                        i <= content@.len(),
                        all == api::block_views(content@),
                        total == saturated(blocks_tokens(all.take(i as int))),
                    decreases content@.len() - i,
                {
                    proof {
                        assert(all.take(i + 1).drop_last() =~= all.take(i as int));
                        assert(all.take(i + 1).last() == content@[i as int]@);
                    }
                    total = total.saturating_add(estimate_block_tokens(&content[i]));
                    i = i + 1;
                }
                assert(all.take(i as int) =~= all);
                total
            },
        }
    }

    /// The estimate for the system prompt and all messages.
    pub fn estimate_total_tokens(&self) -> (n: usize)
        ensures
            n == self@.total_tokens(),
    {
        let ghost all = self@.messages;
        let mut total: usize = 0;
        let mut i: usize = self.messages.len();
        assert(all.skip(i as int) =~= Seq::<MessageView>::empty());
        while i > 0
            invariant
                all == api::message_views(self.messages@),
                i <= self.messages@.len(),
                total == saturated(messages_tokens(all.skip(i as int))),
            decreases i,
        {
            i = i - 1;
            proof {
                assert(all.skip(i as int).drop_first() =~= all.skip(i + 1));
                assert(all.skip(i as int).first() == self.messages@[i as int]@);
            }
            total = total.saturating_add(Self::estimate_message_tokens(&self.messages[i]));
        }
        assert(all.skip(0) =~= all);
        self.estimate_system_tokens().saturating_add(total)
    }
}

} // verus!
