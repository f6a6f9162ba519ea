//! The state of the running session.

use super::model;
use super::model::{DisplayMessage, DisplayView, SessionTokenCounters};
use crate::api::Usage;
use crate::conversation::{ConversationHistory, HistoryView};
use crate::model_info;
use vstd::prelude::*;

verus! {

/// The running session: its conversation, both as the model knows it and as
/// the user saw it, and the tokens that it was billed for.
pub struct SessionState {
    pub session_id: String,
    pub conversation: ConversationHistory,
    pub display_messages: Vec<DisplayMessage>,
    pub counters: SessionTokenCounters,
}

#[verifier::ext_equal]
pub struct StateView {
    pub session_id: Seq<char>,
    pub conversation: HistoryView,
    pub display_messages: Seq<DisplayView>,
    pub counters: SessionTokenCounters,
}

impl View for SessionState {
    type V = StateView;

    open spec fn view(&self) -> StateView {
        StateView {
            session_id: self.session_id@,
            conversation: self.conversation@,
            display_messages: model::display_views(self.display_messages@),
            counters: self.counters,
        }
    }
}

impl SessionState {
    /// A session that has not been used yet.
    pub fn new(session_id: String, conversation: ConversationHistory) -> (r: Self)
        ensures
            r@ == (StateView {
                session_id: session_id@,
                conversation: conversation@,
                display_messages: Seq::empty(),
                counters: SessionTokenCounters::zero(),
            }),
    {
        let r = SessionState {
            session_id,
            conversation,
            display_messages: Vec::new(),
            counters: SessionTokenCounters::default(),
        };
        assert(r@.display_messages =~= Seq::empty());
        r
    }

    /// Starts over under a new name.
    pub fn clear(&mut self, new_session_id: String)
        ensures
            final(self)@ == (StateView {
                session_id: new_session_id@,
                conversation: HistoryView {
                    messages: Seq::empty(),
                    anchor: None,
                    ..old(self)@.conversation
                },
                display_messages: Seq::empty(),
                counters: SessionTokenCounters::zero(),
            }),
    {
        self.session_id = new_session_id;
        self.conversation.clear();
        self.display_messages.clear();
        self.counters = SessionTokenCounters::default();
        assert(self@.display_messages =~= Seq::empty());
    }

    /// Adds the usage of one response to the totals, and says which model
    /// the response is priced as: the one that produced it where that one is
    /// known, and the configured one otherwise.
    pub fn add_usage(&mut self, usage: &Usage, served_by: &str, configured: &str) -> (priced_as:
        String)
        ensures
            final(self)@ == (StateView {
                counters: old(self)@.counters.plus(*usage),
                ..old(self)@
            }),
            priced_as@ == model_info::priced_as(served_by@, configured@),
    {
        self.counters.accumulate_usage(usage);
        model_info::pricing_model(served_by, configured)
    }
}

} // verus!
