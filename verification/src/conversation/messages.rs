//! Adding to a history, reading it and replacing it. Whatever adds a
//! message brings the history back within its limits.

use super::lifecycle;
use super::{ConversationHistory, HistoryView};
use crate::api;
use crate::api::{
    BlockView, Message, MessageContent, MessageContentBlock, MessageView, SystemPrompt,
};
use vstd::prelude::*;

verus! {

impl HistoryView {
    /// The history with one more message, within its limits.
    pub open spec fn added(self, m: MessageView) -> HistoryView {
        HistoryView { messages: self.messages.push(m), ..self }.trimmed()
    }

    /// Whether the history ends with a user turn made of blocks.
    pub open spec fn ends_with_user_blocks(self) -> bool {
        self.messages.len() > 0 && self.messages.last().is_user()
            && self.messages.last().content is Blocks
    }

    /// The history with one more text block in its last turn.
    pub open spec fn extended(self, text: Seq<char>) -> HistoryView {
        let last = self.messages.last();
        HistoryView {
            messages: self.messages.update(
                self.messages.len() - 1,
                last.with_blocks(last.content->Blocks_content.push(BlockView::text(text))),
            ),
            ..self
        }
    }

    /// Another conversation in place of this one.
    pub open spec fn restored(self, messages: Seq<MessageView>) -> HistoryView {
        HistoryView {
            messages: lifecycle::strip_trailing(messages),
            anchor: None,
            ..self
        }.trimmed()
    }
}

impl ConversationHistory {
    fn add_message(&mut self, msg: Message)
        ensures
            final(self)@ == old(self)@.added(msg@),
    {
        let ghost before = self.messages@;
        self.messages.push(msg);
        assert(api::message_views(self.messages@) =~= api::message_views(before).push(msg@));
        self.trim_if_needed();
    }

    /// Adds a user turn made of one text.
    pub fn add_user_message(&mut self, content: String)
        ensures
            final(self)@ == old(self)@.added(MessageView::user(content@)),
    {
        self.add_message(Message::user(content));
    }

    /// Adds a user turn made of blocks.
    pub fn add_user_with_blocks(&mut self, blocks: Vec<MessageContentBlock>)
        ensures
            final(self)@ == old(self)@.added(
                MessageView::user_blocks(api::block_views(blocks@)),
            ),
    {
        self.add_message(Message::user_with_blocks(blocks));
    }

    /// Adds an assistant turn.
    pub fn add_assistant_with_blocks(&mut self, blocks: Vec<MessageContentBlock>)
        ensures
            final(self)@ == old(self)@.added(
                MessageView::assistant_blocks(api::block_views(blocks@)),
            ),
    {
        self.add_message(Message::assistant_with_blocks(blocks));
    }

    /// Adds the user turn that answers the assistant's tool calls.
    pub fn add_tool_results(&mut self, results: Vec<MessageContentBlock>)
        ensures
            final(self)@ == old(self)@.added(
                MessageView::user_blocks(api::block_views(results@)),
            ),
    {
        self.add_message(Message::user_with_tool_results(results));
    }

    /// Adds a text block to the last message if that is a user turn made of
    /// blocks, and says whether it did. A user turn made of one text is left
    /// alone: the caller adds a message of its own there.
    pub fn append_text_to_last_user_blocks(&mut self, text: String) -> (appended: bool)
        ensures
            appended == old(self)@.ends_with_user_blocks(),
            final(self)@ == (if appended {
                old(self)@.extended(text@)
            } else {
                old(self)@
            }),
    {
        let len = self.messages.len();
        if len == 0 {
            return false;
        }
        let ghost ms = self@.messages;
        let last = &self.messages[len - 1];
        assert(ms.last() == last@);
        if !last.is_user() {
            return false;
        }
        if let MessageContent::Text { .. } = &last.content {
            return false;
        }
        match self.messages.pop() {
            None => false,
            Some(last) => {
                let role = last.role;
                match last.content {
                    MessageContent::Text { .. } => false,
                    MessageContent::Blocks { content } => {
                        let mut content = content;
                        let ghost blocks = content@;
                        content.push(MessageContentBlock::plain_text(text));
                        assert(api::block_views(content@) =~= api::block_views(blocks).push(
                            BlockView::text(text@),
                        ));
                        self.messages.push(
                            Message { role, content: MessageContent::Blocks { content } },
                        );
                        assert(self@.messages =~= old(self)@.extended(text@).messages);
                        true
                    },
                }
            },
        }
    }

    /// The messages, oldest first.
    pub fn messages(&self) -> (r: &[Message])
        ensures
            r@ == self.messages@,
            api::message_views(r@) == self@.messages,
    {
        self.messages.as_slice()
    }

    /// The system prompt.
    pub fn system_prompt(&self) -> (r: &Vec<SystemPrompt>)
        ensures
            *r == self.system_prompt,
            api::system_views(r@) == self@.system,
    {
        &self.system_prompt
    }

    /// Replaces the system prompt. The prefix that a cache marker stands for
    /// changes with it, so the second marker goes.
    pub fn set_system_prompt(&mut self, system_prompt: Vec<SystemPrompt>)
        ensures
            final(self)@ == (HistoryView {
                system: api::system_views(system_prompt@),
                anchor: None,
                ..old(self)@
            }),
    {
        self.system_prompt = system_prompt;
        self.invalidate_cache_anchor();
    }

    /// Removes all messages.
    pub fn clear(&mut self)
        ensures
            final(self)@ == (HistoryView { messages: Seq::empty(), anchor: None, ..old(self)@ }),
    {
        self.messages.clear();
        self.invalidate_cache_anchor();
        assert(self@.messages =~= Seq::empty());
    }

    /// Replaces the messages with those of a stored conversation, without
    /// the tool calls that it ends with.
    pub fn restore_messages(&mut self, messages: Vec<Message>)
        ensures
            final(self)@ == old(self)@.restored(api::message_views(messages@)),
    {
        self.invalidate_cache_anchor();
        self.messages = messages;
        let _ = self.drop_tail_orphaned_tool_uses();
        self.trim_if_needed();
    }

    /// Removes the last message, if there is one.
    pub fn remove_last_message(&mut self)
        ensures
            final(self)@ == (HistoryView {
                messages: if old(self)@.messages.len() > 0 {
                    old(self)@.messages.drop_last()
                } else {
                    old(self)@.messages
                },
                ..old(self)@
            }),
    {
        let _ = self.messages.pop();
        assert(self@.messages =~= if old(self)@.messages.len() > 0 {
            old(self)@.messages.drop_last()
        } else {
            old(self)@.messages
        });
    }
}

impl Clone for ConversationHistory {
    fn clone(&self) -> (r: Self)
        ensures
            r@ == self@,
    {
        ConversationHistory {
            messages: api::clone_messages(self.messages.as_slice()),
            system_prompt: api::clone_system(&self.system_prompt),
            config: self.config,
            warned_at_floor: self.warned_at_floor,
            cache_anchor_message_idx: self.cache_anchor_message_idx,
        }
    }
}

} // verus!
