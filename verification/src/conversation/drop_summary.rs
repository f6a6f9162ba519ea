//! A few lines that say what a trim dropped.

use super::compaction;
use super::{ConversationHistory, HistoryView};
use crate::api;
use crate::api::{
    BlockView, BodyView, ContentView, Message, MessageContent, MessageContentBlock, MessageView,
};
use crate::text;
use vstd::prelude::*;

verus! {

/// Most user requests that are listed.
pub const MAX_TOPICS: usize = 5;

/// Most files that are listed.
pub const MAX_FILES: usize = 20;

/// What the dropped messages were about: the user's requests in order, and
/// the tools called and files named, each once and in order of first use.
pub struct DropFacts {
    pub topics: Vec<String>,
    pub tools: Vec<String>,
    pub files: Vec<String>,
}

#[verifier::ext_equal]
pub struct FactsView {
    pub topics: Seq<Seq<char>>,
    pub tools: Seq<Seq<char>>,
    pub files: Seq<Seq<char>>,
}

impl View for DropFacts {
    type V = FactsView;

    open spec fn view(&self) -> FactsView {
        FactsView {
            topics: text::views(self.topics@),
            tools: text::views(self.tools@),
            files: text::views(self.files@),
        }
    }
}

/// The list with `x` at its end, unless it holds `x` already.
pub open spec fn with_new(list: Seq<Seq<char>>, x: Seq<char>) -> Seq<Seq<char>> {
    if list.contains(x) {
        list
    } else {
        list.push(x)
    }
}

impl FactsView {
    pub open spec fn none() -> FactsView {
        FactsView { topics: Seq::empty(), tools: Seq::empty(), files: Seq::empty() }
    }

    /// A text of the user counts by its first hundred bytes, unless it is
    /// blank.
    pub open spec fn with_topic(self, s: Seq<char>) -> FactsView {
        let p = compaction::preview(s, 100);
        if text::trimmed(p).len() == 0 {
            self
        } else {
            FactsView { topics: self.topics.push(p), ..self }
        }
    }

    /// A tool call counts by its name and by the path among its arguments.
    pub open spec fn with_call(self, name: Seq<char>, path: Option<Seq<char>>) -> FactsView {
        FactsView {
            topics: self.topics,
            tools: with_new(self.tools, name),
            files: match path {
                Some(p) => with_new(self.files, p),
                None => self.files,
            },
        }
    }

    pub open spec fn with_block(self, b: BodyView, is_user: bool) -> FactsView {
        match b {
            BodyView::ToolUse { name, input, .. } => self.with_call(
                name,
                api::json_string_member(input, "path"@),
            ),
            BodyView::Text { text } => if is_user {
                self.with_topic(text)
            } else {
                self
            },
            _ => self,
        }
    }

    pub open spec fn with_blocks(self, v: Seq<BlockView>, is_user: bool) -> FactsView
        decreases v.len(),
    {
        if v.len() == 0 {
            self
        } else {
            self.with_blocks(v.drop_last(), is_user).with_block(v.last().body, is_user)
        }
    }

    pub open spec fn with_message(self, m: MessageView) -> FactsView {
        match m.content {
            ContentView::Text { content } => if m.is_user() {
                self.with_topic(content)
            } else {
                self
            },
            ContentView::Blocks { content } => self.with_blocks(content, m.is_user()),
        }
    }

    pub open spec fn of(ms: Seq<MessageView>) -> FactsView
        decreases ms.len(),
    {
        if ms.len() == 0 {
            FactsView::none()
        } else {
            FactsView::of(ms.drop_last()).with_message(ms.last())
        }
    }

    /// One line for each kind of fact that there is any of.
    pub open spec fn lines(self) -> Seq<Seq<char>> {
        let none = Seq::<Seq<char>>::empty();
        (if self.topics.len() > 0 {
            seq!["User requests: "@ + text::joined(first(self.topics, MAX_TOPICS as nat), " | "@)]
        } else {
            none
        }) + (if self.tools.len() > 0 {
            seq!["Tools used: "@ + text::joined(self.tools, ", "@)]
        } else {
            none
        }) + (if self.files.len() > 0 {
            seq!["Files: "@ + text::joined(first(self.files, MAX_FILES as nat), ", "@)]
        } else {
            none
        })
    }

    pub open spec fn rendered(self) -> Seq<char> {
        text::joined(self.lines(), "\n"@)
    }
}

/// At most the first `n` of a list.
pub open spec fn first(list: Seq<Seq<char>>, n: nat) -> Seq<Seq<char>> {
    if list.len() > n {
        list.take(n as int)
    } else {
        list
    }
}

fn first_of(list: &Vec<String>, n: usize) -> (r: Vec<String>)
    ensures
        text::views(r@) == first(text::views(list@), n as nat),
{
    let mut r = text::clone_list(list);
    let ghost all = r@;
    assert(r@.len() == text::views(r@).len() == text::views(list@).len() == list@.len());
    if r.len() > n {
        r.truncate(n);
        assert(text::views(r@) =~= text::views(all).take(n as int));
    }
    r
}

fn note(list: &mut Vec<String>, x: String)
    ensures
        text::views(final(list)@) == with_new(text::views(old(list)@), x@),
{
    if !text::list_contains(list, x.as_str()) {
        let ghost before = list@;
        list.push(x);
        assert(text::views(list@) =~= text::views(before).push(x@));
    }
}

impl DropFacts {
    pub fn new() -> (r: Self)
        ensures
            r@ == FactsView::none(),
    {
        let r = DropFacts { topics: Vec::new(), tools: Vec::new(), files: Vec::new() };
        assert(r@ =~= FactsView::none());
        r
    }

    /// Takes a text of the user into account.
    pub fn note_topic(&mut self, s: &str)
        ensures
            final(self)@ == old(self)@.with_topic(s@),
    {
        let p = compaction::preview_text(s, 100);
        if !text::is_blank(p.as_str()) {
            let ghost before = self.topics@;
            self.topics.push(p);
            assert(text::views(self.topics@) =~= text::views(before).push(p@));
        }
    }

    /// Takes a tool call into account, given the path among its arguments.
    pub fn note_call(&mut self, name: &str, path: Option<String>)
        ensures
            final(self)@ == old(self)@.with_call(name@, api::option_view(path)),
    {
        note(&mut self.tools, name.to_owned());
        if let Some(p) = path {
            note(&mut self.files, p);
        }
    }

    fn note_block(&mut self, block: &MessageContentBlock, is_user: bool)
        ensures
            final(self)@ == old(self)@.with_block(block@.body, is_user),
    {
        match block {
            MessageContentBlock::ToolUse { name, input, .. } => {
                let path = input.string_member("path");
                self.note_call(name.as_str(), path);
            },
            MessageContentBlock::Text { text, .. } => {
                if is_user {
                    self.note_topic(text.as_str());
                }
            },
            _ => {},
        }
    }

    fn note_message(&mut self, msg: &Message)
        ensures
            final(self)@ == old(self)@.with_message(msg@),
    {
        let is_user = msg.is_user();
        match &msg.content {
            MessageContent::Text { content } => {
                if is_user {
                    self.note_topic(content.as_str());
                }
            },
            MessageContent::Blocks { content } => {
                let ghost all = api::block_views(content@);
                let mut i: usize = 0;
                assert(all.take(0) =~= Seq::<BlockView>::empty());
                while i < content.len()
                    invariant
                        all == api::block_views(content@),
                        i <= content@.len(),
                        self@ == old(self)@.with_blocks(all.take(i as int), is_user),
                    decreases content@.len() - i,
                {
                    proof {
                        assert(all.take(i + 1).drop_last() =~= all.take(i as int));
                        assert(all.take(i + 1).last() == content@[i as int]@);
                    }
                    self.note_block(&content[i], is_user);
                    i = i + 1;
                }
                assert(all.take(i as int) =~= all);
            },
        }
    }

    /// One line for each kind of fact that there is any of: at most five
    /// requests, all tools, at most twenty files.
    pub fn render(&self) -> (r: String)
        ensures
            r@ == self@.rendered(),
    {
        let mut parts: Vec<String> = Vec::new();
        let ghost none = Seq::<Seq<char>>::empty();
        let ghost topic_lines = if self@.topics.len() > 0 {
            seq!["User requests: "@ + text::joined(first(self@.topics, MAX_TOPICS as nat), " | "@)]
        } else {
            none
        };
        if self.topics.len() > 0 {
            let mut s = "User requests: ".to_owned();
            s.append(text::join(&first_of(&self.topics, MAX_TOPICS), " | ").as_str());
            parts.push(s);
        }
        assert(text::views(parts@) =~= topic_lines);
        let ghost tool_lines = if self@.tools.len() > 0 {
            seq!["Tools used: "@ + text::joined(self@.tools, ", "@)]
        } else {
            none
        };
        let ghost before = parts@;
        if self.tools.len() > 0 {
            let mut s = "Tools used: ".to_owned();
            s.append(text::join(&self.tools, ", ").as_str());
            parts.push(s);
            assert(text::views(parts@) =~= text::views(before).push(s@));
        }
        assert(text::views(parts@) =~= topic_lines + tool_lines);
        let ghost before = parts@;
        if self.files.len() > 0 {
            let mut s = "Files: ".to_owned();
            s.append(text::join(&first_of(&self.files, MAX_FILES), ", ").as_str());
            parts.push(s);
            assert(text::views(parts@) =~= text::views(before).push(s@));
        }
        assert(text::views(parts@) =~= self@.lines());
        text::join(&parts, "\n")
    }
}

/// The message that stands for those that a trim dropped.
pub open spec fn trim_note(dropped: nat, summary: Seq<char>) -> MessageView {
    MessageView::user(
        "[Context trimmed — "@ + text::decimal_of(dropped) + " earlier messages dropped]\n\n"@
            + summary,
    )
}

impl HistoryView {
    /// How many messages a trim drops before it looks at tool results.
    pub open spec fn cut_count(self) -> int {
        self.messages.len() - self.cut().len()
    }

    /// The summary of what a trim drops; empty where it drops fewer than
    /// five messages.
    pub open spec fn cut_summary(self) -> Seq<char> {
        if self.messages.len() > 10 && self.cut_count() >= 5 {
            FactsView::of(self.messages.take(self.cut_count())).rendered()
        } else {
            Seq::empty()
        }
    }

    /// The history within its limits, with the given note of what was
    /// dropped at its front. The note moves every message, so the second
    /// cache marker is placed anew.
    pub open spec fn trimmed_with_note(self, summary: Seq<char>) -> HistoryView {
        let t = self.trimmed();
        if summary.len() == 0 {
            t
        } else {
            HistoryView {
                messages: seq![
                    trim_note((self.messages.len() - t.messages.len()) as nat, summary),
                ] + t.messages,
                anchor: None,
                ..t
            }.anchored()
        }
    }
}

impl ConversationHistory {
    /// What a list of messages was about, in a few lines.
    pub fn build_drop_summary(messages: &[Message]) -> (r: String)
        ensures
            r@ == FactsView::of(api::message_views(messages@)).rendered(),
    {
        Self::drop_facts(messages, messages.len()).render()
    }

    fn drop_facts(messages: &[Message], up_to: usize) -> (facts: DropFacts)
        requires
            up_to <= messages@.len(),
        ensures
            facts@ == FactsView::of(api::message_views(messages@).take(up_to as int)),
            up_to == messages@.len() ==> facts@ == FactsView::of(api::message_views(messages@)),
    {
        let ghost ms = api::message_views(messages@);
        let mut facts = DropFacts::new();
        let mut i: usize = 0;
        assert(ms.take(0) =~= Seq::<MessageView>::empty());
        while i < up_to
            invariant
                ms == api::message_views(messages@),
                i <= up_to <= messages@.len(),
                facts@ == FactsView::of(ms.take(i as int)),
            decreases up_to - i,
        {
            proof {
                assert(ms.take(i + 1).drop_last() =~= ms.take(i as int));
                assert(ms.take(i + 1).last() == messages@[i as int]@);
            }
            facts.note_message(&messages[i]);
            i = i + 1;
        }
        proof {
            if up_to == messages@.len() {
                assert(ms.take(up_to as int) =~= ms);
            }
        }
        facts
    }

    /// Brings the history within its limits where no summary can be had
    /// from the model. Where that drops five messages or more, a message
    /// that says what they were about takes their place.
    pub fn fallback_trim(&mut self)
        ensures
            final(self)@ == old(self)@.trimmed_with_note(old(self)@.cut_summary()),
    {
        let summary = if self.messages.len() > 10 {
            let total_drop = self.trim_count();
            if total_drop >= 5 {
                Self::drop_facts(self.messages.as_slice(), total_drop).render()
            } else {
                String::new()
            }
        } else {
            String::new()
        };
        assert(summary@ =~= self@.cut_summary());
        self.trim_with_note(summary);
    }

    /// Brings the history within its limits and puts the given summary of
    /// what was dropped at its front, unless the summary is empty.
    pub fn trim_with_note(&mut self, summary: String)
        ensures
            final(self)@ == old(self)@.trimmed_with_note(summary@),
    {
        let before_len = self.messages.len();
        self.trim_if_needed();
        proof {
            super::laws::trim_keeps_a_suffix(old(self)@);
        }
        if !summary.as_str().is_empty() {
            let dropped = before_len - self.messages.len();
            let mut s = "[Context trimmed — ".to_owned();
            s.append(text::decimal(dropped as u128).as_str());
            s.append(" earlier messages dropped]\n\n");
            s.append(summary.as_str());
            let ghost t = self@;
            self.messages.insert(0, Message::user(s));
            assert(self@.messages =~= seq![trim_note(dropped as nat, summary@)] + t.messages);
            self.invalidate_cache_anchor();
            self.maintain_cache_anchor();
        }
    }
}

} // verus!
