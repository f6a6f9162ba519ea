//! The conversation that is kept with the model.

pub mod compaction;
pub mod compaction_laws;
pub mod drop_summary;
pub mod estimate_laws;
pub mod history_laws;
pub mod laws;
pub mod lifecycle;
pub mod messages;
pub mod prompt;
pub mod prompt_laws;
pub mod tokens;

use crate::api;
use crate::api::{CacheControl, CacheTtl, Message, MessageView, SystemPrompt, SystemView};
use crate::config::SofosConfig;
use vstd::prelude::*;

verus! {

/// The messages so far, the system prompt, and what keeps them within the
/// limits of the model.
pub struct ConversationHistory {
    pub messages: Vec<Message>,
    pub system_prompt: Vec<SystemPrompt>,
    pub config: SofosConfig,
    /// Whether the history is over its token budget and too short to trim.
    pub warned_at_floor: bool,
    /// The message before the last one that carries a second cache marker.
    pub cache_anchor_message_idx: Option<usize>,
}

#[verifier::ext_equal]
pub struct HistoryView {
    pub messages: Seq<MessageView>,
    pub system: Seq<SystemView>,
    pub config: SofosConfig,
    pub warned: bool,
    pub anchor: Option<usize>,
}

impl View for ConversationHistory {
    type V = HistoryView;

    open spec fn view(&self) -> HistoryView {
        HistoryView {
            messages: api::message_views(self.messages@),
            system: api::system_views(self.system_prompt@),
            config: self.config,
            warned: self.warned_at_floor,
            anchor: self.cache_anchor_message_idx,
        }
    }
}

impl HistoryView {
    /// A history without messages.
    pub open spec fn fresh(
        has_morph: bool,
        has_code_search: bool,
        instructions: Option<Seq<char>>,
    ) -> HistoryView {
        HistoryView {
            messages: Seq::empty(),
            system: seq![
                SystemView {
                    text: prompt::system_text(has_morph, has_code_search, instructions),
                    cache: Some(CacheControl { ttl: Some(CacheTtl::OneHour) }),
                },
            ],
            config: SofosConfig::standard(),
            warned: false,
            anchor: None,
        }
    }
}

impl ConversationHistory {
    /// A history without messages, for a session without optional features.
    pub fn new() -> (r: Self)
        ensures
            r@ == HistoryView::fresh(false, false, None),
    {
        Self::with_features(false, false, None)
    }

    /// A history without messages, whose system prompt speaks of the
    /// features that the session has and ends with the user's own
    /// instructions. The prompt does not change during the session, so it
    /// is cached for an hour.
    pub fn with_features(
        has_morph: bool,
        has_code_search: bool,
        custom_instructions: Option<String>,
    ) -> (r: Self)
        ensures
            r@ == HistoryView::fresh(
                has_morph,
                has_code_search,
                api::option_view(custom_instructions),
            ),
    {
        let system_text = prompt::build_system_text(has_morph, has_code_search, custom_instructions);
        let mut system_prompt: Vec<SystemPrompt> = Vec::new();
        system_prompt.push(
            SystemPrompt::new_cached_with_ttl(system_text, Some(CacheTtl::OneHour)),
        );
        let r = ConversationHistory {
            messages: Vec::new(),
            system_prompt,
            config: SofosConfig::default(),
            warned_at_floor: false,
            cache_anchor_message_idx: None,
        };
        assert(r@ =~= HistoryView::fresh(
            has_morph,
            has_code_search,
            api::option_view(custom_instructions),
        ));
        r
    }
}

impl Default for ConversationHistory {
    fn default() -> (r: Self)
        ensures
            r@ == HistoryView::fresh(false, false, None),
    {
        Self::new()
    }
}

} // verus!
