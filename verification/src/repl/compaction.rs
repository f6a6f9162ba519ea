//! Compacting the conversation of a session: first by shortening old tool
//! results, then, where that is not enough, by having the model summarize
//! old messages.

use super::{Repl, ReplView};
use crate::api;
use crate::api::{
    BodyView, CacheControl, ContentBlock, CreateMessageResponse, Message, MessageView,
    SystemPrompt, SystemView,
};
use crate::conversation::compaction;
use crate::conversation::laws;
use crate::conversation::{ConversationHistory, HistoryView};
use crate::request_builder::{CreateMessageRequest, RequestView};
use crate::session::state::StateView;
use crate::text;
use vstd::prelude::*;

verus! {

/// What the model is told before it summarizes.
pub const SUMMARY_PROMPT: &'static str =
    "You are a conversation summarizer. Produce a detailed but concise summary of the following coding assistant conversation. Preserve:\n1. All file paths mentioned or modified\n2. Key decisions made and their rationale\n3. Current state of any ongoing task\n4. Any errors encountered and how they were resolved\n\nFormat as structured sections. Do NOT include raw file contents or verbose tool output — just what was done and decided.";

/// The tokens that a summary may take.
pub const SUMMARY_MAX_TOKENS: u32 = 4096;

/// A summary of fewer bytes is not used.
pub const MIN_SUMMARY_LEN: usize = 50;

/// How a compaction goes on.
#[derive(Debug, Clone, Copy, PartialEq, Eq, Structural)]
pub enum CompactionStep {
    /// There is no need for one.
    NotNeeded,
    /// There are too few messages.
    TooShort,
    /// Shortening tool results was enough.
    Shortened { tokens_before: usize, tokens_after: usize },
    /// The model is to summarize the first messages.
    Summarize { split_point: usize, tokens_before: usize },
}

/// What came of asking for a summary.
#[derive(Debug)]
pub enum SummaryReply {
    Response(CreateMessageResponse),
    Interrupted,
    /// The request failed; the text says why.
    Failed(String),
}

/// How a compaction ended.
#[derive(Debug)]
pub enum CompactionEnd {
    /// Old messages were replaced with a summary.
    Summarized { tokens_before: usize, tokens_after: usize, saved_percent: usize },
    /// There was no usable summary, and old messages were dropped instead;
    /// the text says why.
    FellBack(String),
}

#[verifier::ext_equal]
pub enum EndView {
    Summarized { tokens_before: nat, tokens_after: nat, saved_percent: nat },
    FellBack { why: Seq<char> },
}

impl View for CompactionEnd {
    type V = EndView;

    open spec fn view(&self) -> EndView {
        match *self {
            CompactionEnd::Summarized {
                tokens_before,
                tokens_after,
                saved_percent,
            } => EndView::Summarized {
                tokens_before: tokens_before as nat,
                tokens_after: tokens_after as nat,
                saved_percent: saved_percent as nat,
            },
            CompactionEnd::FellBack(why) => EndView::FellBack { why: why@ },
        }
    }
}

/// The texts of a response.
pub open spec fn plain_texts(v: Seq<BodyView>) -> Seq<Seq<char>>
    decreases v.len(),
{
    if v.len() == 0 {
        Seq::empty()
    } else {
        let before = plain_texts(v.drop_last());
        match v.last() {
            BodyView::Text { text } => before.push(text),
            _ => before,
        }
    }
}

/// How many hundredths a conversation shrank by; none where it grew.
pub open spec fn percent_saved(before: nat, after: nat) -> nat {
    if before == 0 || after >= before {
        0
    } else {
        ((before - after) * 100 / (before as int)) as nat
    }
}

impl HistoryView {
    /// The history with the tool results before `split` shortened.
    pub open spec fn shortened(self, split: int) -> HistoryView {
        HistoryView {
            messages: compaction::shortened_messages(
                self.messages,
                split,
                self.config.tool_result_truncate_threshold as nat,
            ),
            anchor: None,
            ..self
        }
    }

    pub open spec fn over_compaction_limit(self) -> bool {
        self.total_tokens() > self.config.auto_compact_token_limit
    }

    pub open spec fn split(self) -> int {
        compaction::split_point(self.messages, self.config.compaction_preserve_recent as nat)
    }

    /// How a compaction of this history goes on, and the history then.
    pub open spec fn compaction_start(self, force: bool) -> (HistoryView, CompactionStep) {
        let short = self.shortened(self.split());
        if !force && !self.over_compaction_limit() {
            (self, CompactionStep::NotNeeded)
        } else if self.split() == 0 {
            (self, CompactionStep::TooShort)
        } else if !force && !short.over_compaction_limit() {
            (
                short,
                CompactionStep::Shortened {
                    tokens_before: self.total_tokens() as usize,
                    tokens_after: short.total_tokens() as usize,
                },
            )
        } else {
            (
                self,
                CompactionStep::Summarize {
                    split_point: self.split() as usize,
                    tokens_before: self.total_tokens() as usize,
                },
            )
        }
    }

    /// The history after a trim that stands in for a summary.
    pub open spec fn fallen_back(self) -> HistoryView {
        self.trimmed_with_note(self.cut_summary())
    }

    /// How a compaction of this history ends given a summary, and the
    /// history then.
    pub open spec fn compaction_end(
        self,
        summary: Seq<char>,
        split: int,
        tokens_before: nat,
    ) -> (HistoryView, EndView) {
        if text::utf8_len(summary) < MIN_SUMMARY_LEN {
            (
                self.fallen_back(),
                EndView::FellBack {
                    why: "Compaction produced an insufficient summary. Falling back to trimming."@,
                },
            )
        } else {
            let next = self.summarized(summary, split);
            (
                next,
                EndView::Summarized {
                    tokens_before,
                    tokens_after: next.total_tokens(),
                    saved_percent: percent_saved(tokens_before, next.total_tokens()),
                },
            )
        }
    }
}

/// The texts of a response, one per line.
pub fn summary_text(content: &Vec<ContentBlock>) -> (r: String)
    ensures
        r@ == text::joined(plain_texts(api::body_views(content@)), "\n"@),
{
    let ghost all = api::body_views(content@);
    let mut parts: Vec<String> = Vec::new();
    let mut i: usize = 0;
    assert(all.take(0) =~= Seq::<BodyView>::empty());
    assert(text::views(parts@) =~= plain_texts(all.take(0)));
    while i < content.len()
        invariant
            all == api::body_views(content@),
            i <= content@.len(),
            text::views(parts@) == plain_texts(all.take(i as int)),
        decreases content@.len() - i,
    {
        proof {
            assert(all.take(i + 1).drop_last() =~= all.take(i as int));
            assert(all.take(i + 1).last() == content@[i as int]@);
        }
        if let ContentBlock::Text { text } = &content[i] {
            let ghost before = parts@;
            parts.push(text.clone());
            assert(text::views(parts@) =~= text::views(before).push(text@));
        }
        i = i + 1;
    }
    assert(all.take(i as int) =~= all);
    text::join(&parts, "\n")
}

fn percent(before: usize, after: usize) -> (r: usize)
    ensures
        r == percent_saved(before as nat, after as nat),
{
    if before == 0 || after >= before {
        0
    } else {
        let shrunk: u128 = (before - after) as u128;
        let p: u128 = shrunk * 100 / (before as u128);
        assert(p <= 100) by (nonlinear_arith)
            requires
                p == shrunk * 100 / (before as int),
                0 < shrunk <= before,
        ;
        p as usize
    }
}

impl ReplView {
    /// The request for a summary of the first `split` messages.
    pub open spec fn summary_request(self, split: int) -> RequestView {
        RequestView {
            model: self.model,
            max_tokens: SUMMARY_MAX_TOKENS,
            messages: seq![
                MessageView::user(
                    text::joined(
                        compaction::all_parts(self.session.conversation.messages.take(split)),
                        "\n\n"@,
                    ),
                ),
            ],
            system: Some(
                seq![
                    SystemView {
                        text: SUMMARY_PROMPT@,
                        cache: Some(CacheControl { ttl: None }),
                    },
                ],
            ),
            tools: None,
            stream: None,
            thinking: None,
            output_effort: None,
            reasoning_effort: None,
            prompt_cache_key: Some(self.session.session_id + "-summary"@),
            context_edits: None,
        }
    }

    /// The session after a reply to the request for a summary, and how the
    /// compaction ended. The tokens of a response count whether or not its
    /// summary is used.
    pub open spec fn compacted(self, reply: SummaryReply, split: int, tokens_before: nat) -> (
        ReplView,
        EndView,
    ) {
        match reply {
            SummaryReply::Response(response) => {
                let (history, end) = self.session.conversation.compaction_end(
                    text::joined(plain_texts(api::body_views(response.content@)), "\n"@),
                    split,
                    tokens_before,
                );
                (
                    ReplView {
                        session: StateView {
                            conversation: history,
                            counters: self.session.counters.plus(response.usage),
                            ..self.session
                        },
                        ..self
                    },
                    end,
                )
            },
            SummaryReply::Interrupted => (
                self.with_conversation(self.session.conversation.fallen_back()),
                EndView::FellBack {
                    why: "Compaction interrupted. Falling back to trimming."@,
                },
            ),
            SummaryReply::Failed(e) => (
                self.with_conversation(self.session.conversation.fallen_back()),
                EndView::FellBack {
                    why: "Compaction failed: "@ + e@ + ". Falling back to trimming."@,
                },
            ),
        }
    }
}

impl Repl {
    /// Starts a compaction where one is needed or forced. Shortened tool
    /// results are kept only where they are enough, so that a summary that
    /// fails leaves nothing half done.
    pub fn compact_conversation(&mut self, force: bool) -> (step: CompactionStep)
        ensures
            final(self)@ == old(self)@.with_conversation(
                old(self)@.session.conversation.compaction_start(force).0,
            ),
            step == old(self)@.session.conversation.compaction_start(force).1,
    {
        if !force && !self.session_state.conversation.needs_compaction() {
            return CompactionStep::NotNeeded;
        }
        let tokens_before = self.session_state.conversation.estimate_total_tokens();
        let split_point = self.session_state.conversation.compaction_split_point();
        if split_point == 0 {
            return CompactionStep::TooShort;
        }
        proof {
            let h = self@.session.conversation;
            assert(h.messages.len() > 0);
            laws::split_point_keeps_recent(
                h.messages,
                h.config.compaction_preserve_recent as nat,
            );
        }
        if !force {
            let mut truncated = self.session_state.conversation.clone();
            truncated.truncate_tool_results(split_point);
            if !truncated.needs_compaction() {
                let tokens_after = truncated.estimate_total_tokens();
                self.session_state.conversation = truncated;
                return CompactionStep::Shortened { tokens_before, tokens_after };
            }
        }
        CompactionStep::Summarize { split_point, tokens_before }
    }

    /// The request for a summary of the first messages. It shares nothing
    /// with the requests of ordinary turns, so it has a cache key of its
    /// own.
    pub fn build_summary_request(&self, split_point: usize) -> (r: CreateMessageRequest)
        requires
            split_point <= self@.session.conversation.messages.len(),
        ensures
            r@ == self@.summary_request(split_point as int),
    {
        let all = self.session_state.conversation.messages();
        let mut older = api::clone_messages(all);
        let ghost copied = older@;
        older.truncate(split_point);
        assert(api::message_views(older@) =~= api::message_views(copied).take(split_point as int));
        let serialized = ConversationHistory::serialize_messages_for_summary(older.as_slice());
        let mut messages: Vec<Message> = Vec::new();
        messages.push(Message::user(serialized));
        let mut system: Vec<SystemPrompt> = Vec::new();
        system.push(SystemPrompt::new_cached_with_ttl(SUMMARY_PROMPT.to_owned(), None));
        let mut key = self.session_state.session_id.clone();
        key.append("-summary");
        let r = CreateMessageRequest {
            model: self.model_config.model.clone(),
            max_tokens: SUMMARY_MAX_TOKENS,
            messages,
            system: Some(system),
            tools: None,
            stream: None,
            thinking: None,
            output_config: None,
            reasoning: None,
            prompt_cache_key: Some(key),
            context_management: None,
        };
        assert(r@.messages =~= self@.summary_request(split_point as int).messages);
        assert(r@.system->0 =~= self@.summary_request(split_point as int).system->0);
        r
    }

    /// Ends a compaction. Without a usable summary, old messages are dropped
    /// instead.
    pub fn finish_compaction(
        &mut self,
        reply: SummaryReply,
        split_point: usize,
        tokens_before: usize,
    ) -> (end: CompactionEnd)
        ensures
            (final(self)@, end@) == old(self)@.compacted(
                reply,
                split_point as int,
                tokens_before as nat,
            ),
    {
        match reply {
            SummaryReply::Response(response) => {
                self.session_state.counters.accumulate_usage(&response.usage);
                let summary = summary_text(&response.content);
                if text::byte_len(summary.as_str()) < MIN_SUMMARY_LEN {
                    self.session_state.conversation.fallback_trim();
                    return CompactionEnd::FellBack(
                        "Compaction produced an insufficient summary. Falling back to trimming.".to_owned(),
                    );
                }
                self.session_state.conversation.replace_with_summary(summary, split_point);
                let tokens_after = self.session_state.conversation.estimate_total_tokens();
                let saved_percent = percent(tokens_before, tokens_after);
                CompactionEnd::Summarized { tokens_before, tokens_after, saved_percent }
            },
            SummaryReply::Interrupted => {
                self.session_state.conversation.fallback_trim();
                CompactionEnd::FellBack(
                    "Compaction interrupted. Falling back to trimming.".to_owned(),
                )
            },
            SummaryReply::Failed(e) => {
                self.session_state.conversation.fallback_trim();
                let mut s = "Compaction failed: ".to_owned();
                s.append(e.as_str());
                s.append(". Falling back to trimming.");
                CompactionEnd::FellBack(s)
            },
        }
    }
}

/// A compaction that is not forced changes nothing unless the conversation
/// is over its limit, and one that only shortens tool results ends within
/// it.
pub proof fn unforced_compaction_is_justified(h: HistoryView)
    ensures
        h.compaction_start(false).0 != h ==> h.over_compaction_limit(),
        h.compaction_start(false).1 is Shortened ==> !h.compaction_start(
            false,
        ).0.over_compaction_limit(),
        h.compaction_start(false).1 is Summarize ==> h.compaction_start(false).0 == h,
{
}

} // verus!
