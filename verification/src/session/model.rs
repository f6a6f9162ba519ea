//! What is stored of a session.

use crate::api;
use crate::api::{Json, Message, MessageView, SystemPrompt, SystemView};
use vstd::prelude::*;

verus! {

/// One entry of the conversation as the user saw it.
#[derive(Debug)]
pub enum DisplayMessage {
    UserMessage { content: String },
    AssistantMessage { content: String },
    ToolExecution { tool_name: String, tool_input: Json, tool_output: String },
}

#[verifier::ext_equal]
pub enum DisplayView {
    UserMessage { content: Seq<char> },
    AssistantMessage { content: Seq<char> },
    ToolExecution { tool_name: Seq<char>, tool_input: Seq<char>, tool_output: Seq<char> },
}

impl View for DisplayMessage {
    type V = DisplayView;

    open spec fn view(&self) -> DisplayView {
        match *self {
            DisplayMessage::UserMessage { content } => DisplayView::UserMessage {
                content: content@,
            },
            DisplayMessage::AssistantMessage { content } => DisplayView::AssistantMessage {
                content: content@,
            },
            DisplayMessage::ToolExecution {
                tool_name,
                tool_input,
                tool_output,
            } => DisplayView::ToolExecution {
                tool_name: tool_name@,
                tool_input: tool_input@,
                tool_output: tool_output@,
            },
        }
    }
}

impl Clone for DisplayMessage {
    fn clone(&self) -> (r: Self)
        ensures
            r@ == self@,
    {
        match self {
            DisplayMessage::UserMessage { content } => DisplayMessage::UserMessage {
                content: content.clone(),
            },
            DisplayMessage::AssistantMessage { content } => DisplayMessage::AssistantMessage {
                content: content.clone(),
            },
            DisplayMessage::ToolExecution {
                tool_name,
                tool_input,
                tool_output,
            } => DisplayMessage::ToolExecution {
                tool_name: tool_name.clone(),
                tool_input: tool_input.clone(),
                tool_output: tool_output.clone(),
            },
        }
    }
}

/// The views of a list of entries.
pub open spec fn display_views(v: Seq<DisplayMessage>) -> Seq<DisplayView> {
    v.map_values(|d: DisplayMessage| d@)
}

/// Adds an entry.
pub fn push_display(list: &mut Vec<DisplayMessage>, d: DisplayMessage)
    ensures
        display_views(final(list)@) == display_views(old(list)@).push(d@),
{
    let ghost before = list@;
    list.push(d);
    assert(display_views(list@) =~= display_views(before).push(d@));
}

/// A copy of a list of entries.
pub fn clone_display(v: &Vec<DisplayMessage>) -> (r: Vec<DisplayMessage>)
    ensures
        display_views(r@) == display_views(v@),
{
    let mut r: Vec<DisplayMessage> = Vec::new();
    let mut i: usize = 0;
    while i < v.len()
        invariant
            i <= v@.len(),
            display_views(r@) =~= display_views(v@).take(i as int),
        decreases v@.len() - i,
    {
        let ghost before = r@;
        r.push(v[i].clone());
        assert(display_views(r@) =~= display_views(before).push(display_views(v@)[i as int]));
        i = i + 1;
    }
    r
}

/// What the list of sessions shows of one.
#[derive(Debug)]
pub struct SessionMetadata {
    pub id: String,
    pub preview: String,
    pub created_at: u64,
    pub updated_at: u64,
    pub message_count: usize,
}

#[verifier::ext_equal]
pub struct MetadataView {
    pub id: Seq<char>,
    pub preview: Seq<char>,
    pub created_at: u64,
    pub updated_at: u64,
    pub message_count: nat,
}

impl View for SessionMetadata {
    type V = MetadataView;

    open spec fn view(&self) -> MetadataView {
        MetadataView {
            id: self.id@,
            preview: self.preview@,
            created_at: self.created_at,
            updated_at: self.updated_at,
            message_count: self.message_count as nat,
        }
    }
}

impl Clone for SessionMetadata {
    fn clone(&self) -> (r: Self)
        ensures
            r@ == self@,
    {
        SessionMetadata {
            id: self.id.clone(),
            preview: self.preview.clone(),
            created_at: self.created_at,
            updated_at: self.updated_at,
            message_count: self.message_count,
        }
    }
}

/// The views of a list of sessions.
pub open spec fn metadata_views(v: Seq<SessionMetadata>) -> Seq<MetadataView> {
    v.map_values(|m: SessionMetadata| m@)
}

/// The tokens that a session was billed for. Every counter stops at its
/// largest value.
#[derive(Debug, Clone, Copy, PartialEq, Eq, Structural)]
pub struct SessionTokenCounters {
    pub total_input_tokens: u32,
    pub total_output_tokens: u32,
    pub total_cache_read_tokens: u32,
    pub total_cache_creation_tokens: u32,
    /// The largest input of a single response.
    pub peak_single_turn_input_tokens: u32,
}

impl SessionTokenCounters {
    pub open spec fn zero() -> SessionTokenCounters {
        SessionTokenCounters {
            total_input_tokens: 0,
            total_output_tokens: 0,
            total_cache_read_tokens: 0,
            total_cache_creation_tokens: 0,
            peak_single_turn_input_tokens: 0,
        }
    }

    /// The counters with one more response.
    pub open spec fn plus(self, usage: api::Usage) -> SessionTokenCounters {
        SessionTokenCounters {
            total_input_tokens: sum(self.total_input_tokens, usage.input_tokens),
            total_output_tokens: sum(self.total_output_tokens, usage.output_tokens),
            total_cache_read_tokens: sum(
                self.total_cache_read_tokens,
                count(usage.cache_read_input_tokens),
            ),
            total_cache_creation_tokens: sum(
                self.total_cache_creation_tokens,
                count(usage.cache_creation_input_tokens),
            ),
            peak_single_turn_input_tokens: if usage.input_tokens
                > self.peak_single_turn_input_tokens {
                usage.input_tokens
            } else {
                self.peak_single_turn_input_tokens
            },
        }
    }

    /// Adds one response.
    pub fn accumulate_usage(&mut self, usage: &api::Usage)
        ensures
            *final(self) == old(self).plus(*usage),
    {
        self.total_input_tokens = self.total_input_tokens.saturating_add(usage.input_tokens);
        self.total_output_tokens = self.total_output_tokens.saturating_add(usage.output_tokens);
        self.total_cache_read_tokens = self.total_cache_read_tokens.saturating_add(
            usage.cache_read_input_tokens.unwrap_or(0),
        );
        self.total_cache_creation_tokens = self.total_cache_creation_tokens.saturating_add(
            usage.cache_creation_input_tokens.unwrap_or(0),
        );
        if usage.input_tokens > self.peak_single_turn_input_tokens {
            self.peak_single_turn_input_tokens = usage.input_tokens;
        }
    }
}

/// The sum, or the largest value where the sum is larger.
pub open spec fn sum(a: u32, b: u32) -> u32 {
    if a + b > u32::MAX {
        u32::MAX
    } else {
        (a + b) as u32
    }
}

/// A count that a provider may leave out.
pub open spec fn count(n: Option<u32>) -> u32 {
    match n {
        Some(n) => n,
        None => 0,
    }
}

impl Default for SessionTokenCounters {
    fn default() -> (r: Self)
        ensures
            r == SessionTokenCounters::zero(),
    {
        SessionTokenCounters {
            total_input_tokens: 0,
            total_output_tokens: 0,
            total_cache_read_tokens: 0,
            total_cache_creation_tokens: 0,
            peak_single_turn_input_tokens: 0,
        }
    }
}

/// No response ever lowers a counter.
pub proof fn counters_never_fall(c: SessionTokenCounters, usage: api::Usage)
    ensures
        c.total_input_tokens <= c.plus(usage).total_input_tokens,
        c.total_output_tokens <= c.plus(usage).total_output_tokens,
        c.total_cache_read_tokens <= c.plus(usage).total_cache_read_tokens,
        c.total_cache_creation_tokens <= c.plus(usage).total_cache_creation_tokens,
        c.peak_single_turn_input_tokens <= c.plus(usage).peak_single_turn_input_tokens,
        usage.input_tokens <= c.plus(usage).peak_single_turn_input_tokens,
{
}

/// A stored session. Fields that older files lack are optional.
#[derive(Debug)]
pub struct Session {
    pub id: String,
    /// The conversation as the model knows it.
    pub api_messages: Vec<Message>,
    /// The conversation as the user saw it.
    pub display_messages: Vec<DisplayMessage>,
    pub system_prompt: Vec<SystemPrompt>,
    pub created_at: u64,
    pub updated_at: u64,
    pub token_counters: SessionTokenCounters,
    pub model: Option<String>,
    pub readonly: Option<bool>,
    pub permission_preset: Option<String>,
}

#[verifier::ext_equal]
pub struct SessionView {
    pub id: Seq<char>,
    pub api_messages: Seq<MessageView>,
    pub display_messages: Seq<DisplayView>,
    pub system_prompt: Seq<SystemView>,
    pub created_at: u64,
    pub updated_at: u64,
    pub token_counters: SessionTokenCounters,
    pub model: Option<Seq<char>>,
    pub readonly: Option<bool>,
    pub permission_preset: Option<Seq<char>>,
}

impl View for Session {
    type V = SessionView;

    open spec fn view(&self) -> SessionView {
        SessionView {
            id: self.id@,
            api_messages: api::message_views(self.api_messages@),
            display_messages: display_views(self.display_messages@),
            system_prompt: api::system_views(self.system_prompt@),
            created_at: self.created_at,
            updated_at: self.updated_at,
            token_counters: self.token_counters,
            model: api::option_view(self.model),
            readonly: self.readonly,
            permission_preset: api::option_view(self.permission_preset),
        }
    }
}

} // verus!
