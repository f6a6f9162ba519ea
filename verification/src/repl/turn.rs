//! One turn of the user: the message enters the conversation, a request is
//! sent, and where that fails on an image, the images are taken out and it
//! is sent once more.

use super::{Repl, ReplView};
use crate::api;
use crate::api::{
    BlockView, ContentView, ImageSource, ImageView, Message, MessageContent, MessageContentBlock,
    MessageView, Usage,
};
use crate::conversation::{ConversationHistory, HistoryView};
use crate::response_handler::{HandlerView, ResponseHandler};
use crate::session::model;
use crate::session::model::{DisplayMessage, DisplayView};
use crate::session::state::StateView;
use crate::text;
use crate::tool_batch;
use vstd::prelude::*;

verus! {

/// An image from the clipboard.
#[derive(Debug)]
pub struct PastedImage {
    pub media_type: String,
    pub base64_data: String,
}

impl View for PastedImage {
    type V = ImageView;

    open spec fn view(&self) -> ImageView {
        ImageView::Base64 { media_type: self.media_type@, data: self.base64_data@ }
    }
}

pub open spec fn pasted_views(v: Seq<PastedImage>) -> Seq<ImageView> {
    v.map_values(|p: PastedImage| p@)
}

/// Why a request failed.
#[derive(Debug)]
pub struct RequestError {
    /// What the provider said, where it answered with an error.
    pub api_message: Option<String>,
    /// The error as it is shown.
    pub shown: String,
}

#[verifier::ext_equal]
pub struct ErrorView {
    pub api_message: Option<Seq<char>>,
    pub shown: Seq<char>,
}

impl View for RequestError {
    type V = ErrorView;

    open spec fn view(&self) -> ErrorView {
        ErrorView { api_message: api::option_view(self.api_message), shown: self.shown@ }
    }
}

/// What a turn waits for.
#[derive(Debug, Clone, Copy, PartialEq, Eq, Structural)]
pub enum TurnPhase {
    /// The user's message.
    Idle,
    /// The end of a compaction.
    Compacting { pasted: bool },
    /// The reply to the request.
    Requesting { pasted: bool },
    /// The reply to the request without images.
    Retrying,
    /// The end of the loop that answers the turn.
    Responding,
    /// Nothing.
    Done,
}

/// What happened.
pub enum TurnEvent {
    /// The user sent a message.
    Message { input: String, images: Vec<PastedImage> },
    /// The compaction is over.
    Compacted,
    /// The provider answered.
    Response(Usage),
    /// The request failed.
    RequestFailed(RequestError),
    /// The loop ended, or was interrupted by the user.
    LoopEnded(ConversationHistory),
    /// The loop failed.
    LoopFailed { conversation: ConversationHistory, error: String },
}

#[verifier::ext_equal]
pub enum TurnEventView {
    Message { input: Seq<char>, images: Seq<ImageView> },
    Compacted,
    Response { usage: Usage },
    RequestFailed { error: ErrorView },
    LoopEnded { history: HistoryView },
    LoopFailed { conversation: HistoryView, shown: Seq<char> },
}

impl View for TurnEvent {
    type V = TurnEventView;

    open spec fn view(&self) -> TurnEventView {
        match *self {
            TurnEvent::Message { input, images } => TurnEventView::Message {
                input: input@,
                images: pasted_views(images@),
            },
            TurnEvent::Compacted => TurnEventView::Compacted,
            TurnEvent::Response(usage) => TurnEventView::Response { usage },
            TurnEvent::RequestFailed(e) => TurnEventView::RequestFailed { error: e@ },
            TurnEvent::LoopEnded(c) => TurnEventView::LoopEnded { history: c@ },
            TurnEvent::LoopFailed { conversation, error } => TurnEventView::LoopFailed {
                conversation: conversation@,
                shown: error@,
            },
        }
    }
}

/// What is to be done next.
#[derive(Debug, Clone, Copy, PartialEq, Eq, Structural)]
pub enum TurnAction {
    /// Compact the conversation.
    Compact,
    /// Send the request.
    SendRequest,
    /// Send the request again, now without images.
    RetryRequest,
    /// Run the loop that answers the turn.
    Respond,
    /// Stop: the turn is over.
    Finish,
    /// Stop: the turn failed.
    Fail,
    /// Nothing: this was not waited for.
    Ignored,
}

/// What the assistant is told where an image of this turn was taken out.
pub const OWN_IMAGE_NOTE: &'static str =
    "[SYSTEM ERROR: An image attached to your message could not be loaded and has been removed from the conversation.]";

/// What the assistant is told where an older image was taken out.
pub const OLDER_IMAGE_NOTE: &'static str =
    "[SYSTEM ERROR: An image from a previous message could not be loaded and has been removed from the conversation. You can continue normally.]";

/// The blocks of a message with images. The images come before the text.
pub open spec fn turn_blocks(input: Seq<char>, images: Seq<ImageView>) -> Seq<BlockView> {
    let blocks = tool_batch::image_blocks(images);
    if text::trimmed(input).len() > 0 {
        blocks.push(BlockView::text(input))
    } else {
        blocks
    }
}

/// The user's message as it enters the conversation.
pub open spec fn turn_message(input: Seq<char>, images: Seq<ImageView>) -> MessageView {
    if images.len() > 0 {
        MessageView::user_blocks(turn_blocks(input, images))
    } else {
        MessageView::user(input)
    }
}

pub open spec fn is_image(b: BlockView) -> bool {
    b.body is Image
}

pub open spec fn message_has_image(m: MessageView) -> bool {
    m.content is Blocks && exists|i: int|
        0 <= i < m.content->Blocks_content.len() && is_image(
            #[trigger] m.content->Blocks_content[i],
        )
}

pub open spec fn any_image(ms: Seq<MessageView>) -> bool {
    exists|i: int| 0 <= i < ms.len() && message_has_image(#[trigger] ms[i])
}

pub open spec fn without_images(blocks: Seq<BlockView>) -> Seq<BlockView> {
    blocks.filter(|b: BlockView| !is_image(b))
}

/// The messages without images. A message that holds nothing else goes.
pub open spec fn strip_images(ms: Seq<MessageView>) -> Seq<MessageView>
    decreases ms.len(),
{
    if ms.len() == 0 {
        ms
    } else {
        let before = strip_images(ms.drop_last());
        let m = ms.last();
        match m.content {
            ContentView::Text { .. } => before.push(m),
            ContentView::Blocks { content } => {
                let kept = without_images(content);
                if kept.len() == 0 {
                    before
                } else {
                    before.push(m.with_blocks(kept))
                }
            },
        }
    }
}

/// Whether a provider's error says that it could not load an image.
pub open spec fn is_image_error(message: Seq<char>) -> bool {
    text::occurs(message, "400"@) && (text::occurs(message, "Unable to download"@) || text::occurs(
        message,
        "invalid_request_error"@,
    ) || text::occurs(message, "verify the URL"@))
}

/// What the assistant is told of a request that failed.
pub open spec fn failure_note(e: ErrorView) -> Seq<char> {
    match e.api_message {
        Some(m) => "[SYSTEM ERROR: API error: "@ + m
            + ". The request did not produce a response.]"@,
        None => "[SYSTEM ERROR: "@ + e.shown + ". The request did not produce a response.]"@,
    }
}

pub open spec fn retry_note(shown: Seq<char>) -> Seq<char> {
    "[SYSTEM ERROR: Image loading failed and the retry also failed: "@ + shown + ".]"@
}

pub open spec fn loop_note(shown: Seq<char>) -> Seq<char> {
    "[System error during processing: "@ + shown + ". Previous actions are preserved above.]"@
}

impl HistoryView {
    /// The history with a note for the assistant: in the last turn where
    /// that is the user's and made of blocks, and in a turn of its own
    /// otherwise.
    pub open spec fn noted(self, note: Seq<char>) -> HistoryView {
        if self.ends_with_user_blocks() {
            self.extended(note)
        } else {
            self.added(MessageView::user(note))
        }
    }

    /// The history without images, and with a note of that.
    pub open spec fn images_removed(self, pasted: bool) -> HistoryView {
        self.restored(strip_images(self.messages)).noted(
            if pasted {
                OWN_IMAGE_NOTE@
            } else {
                OLDER_IMAGE_NOTE@
            },
        )
    }
}

impl ReplView {
    pub open spec fn began(self, input: Seq<char>, images: Seq<ImageView>) -> ReplView {
        ReplView {
            session: StateView {
                conversation: self.session.conversation.added(turn_message(input, images)),
                display_messages: self.session.display_messages.push(
                    DisplayView::UserMessage { content: input },
                ),
                ..self.session
            },
            ..self
        }
    }

    pub open spec fn noted(self, note: Seq<char>) -> ReplView {
        self.with_conversation(self.session.conversation.noted(note))
    }

    /// Whether a failed request is sent again without images.
    pub open spec fn retries(self, e: ErrorView, pasted: bool) -> bool {
        e.api_message is Some && is_image_error(e.api_message->0) && (pasted || any_image(
            self.session.conversation.messages,
        ))
    }

    /// The turn after an event: the session, what the turn waits for, and
    /// what is to be done.
    pub open spec fn turn_step(self, phase: TurnPhase, event: TurnEventView) -> (
        ReplView,
        TurnPhase,
        TurnAction,
    ) {
        match (phase, event) {
            (TurnPhase::Idle, TurnEventView::Message { input, images }) => {
                let next = self.began(input, images);
                let pasted = images.len() > 0;
                if next.session.conversation.over_compaction_limit() {
                    (next, TurnPhase::Compacting { pasted }, TurnAction::Compact)
                } else {
                    (next, TurnPhase::Requesting { pasted }, TurnAction::SendRequest)
                }
            },
            (TurnPhase::Compacting { pasted }, TurnEventView::Compacted) => (
                self,
                TurnPhase::Requesting { pasted },
                TurnAction::SendRequest,
            ),
            (TurnPhase::Requesting { .. }, TurnEventView::Response { usage }) => (
                self.billed(usage),
                TurnPhase::Responding,
                TurnAction::Respond,
            ),
            (TurnPhase::Retrying, TurnEventView::Response { usage }) => (
                self.billed(usage),
                TurnPhase::Responding,
                TurnAction::Respond,
            ),
            (TurnPhase::Requesting { pasted }, TurnEventView::RequestFailed { error }) => if self.retries(
                error,
                pasted,
            ) {
                (
                    self.with_conversation(self.session.conversation.images_removed(pasted)),
                    TurnPhase::Retrying,
                    TurnAction::RetryRequest,
                )
            } else {
                (self.noted(failure_note(error)), TurnPhase::Done, TurnAction::Fail)
            },
            (TurnPhase::Retrying, TurnEventView::RequestFailed { error }) => (
                self.with_conversation(
                    self.session.conversation.restored(
                        self.session.conversation.messages,
                    ).noted(retry_note(error.shown)),
                ),
                TurnPhase::Done,
                TurnAction::Fail,
            ),
            (TurnPhase::Responding, TurnEventView::LoopEnded { history }) => (
                self.with_conversation(history),
                TurnPhase::Done,
                TurnAction::Finish,
            ),
            (TurnPhase::Responding, TurnEventView::LoopFailed { conversation, shown }) => (
                self.with_conversation(conversation.noted(loop_note(shown))),
                TurnPhase::Done,
                TurnAction::Fail,
            ),
            _ => (self, phase, TurnAction::Ignored),
        }
    }

    pub open spec fn billed(self, usage: Usage) -> ReplView {
        ReplView {
            session: StateView { counters: self.session.counters.plus(usage), ..self.session },
            ..self
        }
    }
}

fn blocks_of_turn(user_input: &str, images: &Vec<PastedImage>) -> (r: Vec<MessageContentBlock>)
    ensures
        api::block_views(r@) == turn_blocks(user_input@, pasted_views(images@)),
{
    let ghost all = tool_batch::image_blocks(pasted_views(images@));
    let mut blocks: Vec<MessageContentBlock> = Vec::new();
    let mut i: usize = 0;
    while i < images.len()
        invariant
            all == tool_batch::image_blocks(pasted_views(images@)),
            i <= images@.len(),
            api::block_views(blocks@) =~= all.take(i as int),
        decreases images@.len() - i,
    {
        let ghost before = blocks@;
        blocks.push(
            MessageContentBlock::Image {
                source: ImageSource::Base64 {
                    media_type: images[i].media_type.clone(),
                    data: images[i].base64_data.clone(),
                },
                cache_control: None,
            },
        );
        assert(api::block_views(blocks@) =~= api::block_views(before).push(all[i as int]));
        i = i + 1;
    }
    if !text::is_blank(user_input) {
        let ghost before = blocks@;
        blocks.push(MessageContentBlock::plain_text(user_input.to_owned()));
        assert(api::block_views(blocks@) =~= api::block_views(before).push(
            BlockView::text(user_input@),
        ));
    }
    blocks
}

fn has_image(msg: &Message) -> (r: bool)
    ensures
        r == message_has_image(msg@),
{
    match &msg.content {
        MessageContent::Text { .. } => false,
        MessageContent::Blocks { content } => {
            let mut i: usize = 0;
            while i < content.len()
                invariant
                    msg@.content == (ContentView::Blocks { content: api::block_views(content@) }),
                    i <= content@.len(),
                    forall|k: int|
                        0 <= k < i ==> !is_image(#[trigger] msg@.content->Blocks_content[k]),
                decreases content@.len() - i,
            {
                let ghost b = msg@.content->Blocks_content[i as int];
                assert(b == content@[i as int]@);
                if matches!(&content[i], MessageContentBlock::Image { .. }) {
                    assert(is_image(msg@.content->Blocks_content[i as int]));
                    return true;
                }
                i = i + 1;
            }
            false
        },
    }
}

/// Whether any message holds an image.
pub fn conversation_has_images(messages: &[Message]) -> (r: bool)
    ensures
        r == any_image(api::message_views(messages@)),
{
    let ghost ms = api::message_views(messages@);
    let mut i: usize = 0;
    while i < messages.len()
        invariant
            ms == api::message_views(messages@),
            i <= messages@.len(),
            forall|k: int| 0 <= k < i ==> !message_has_image(#[trigger] ms[k]),
        decreases messages@.len() - i,
    {
        assert(ms[i as int] == messages@[i as int]@);
        if has_image(&messages[i]) {
            return true;
        }
        i = i + 1;
    }
    false
}

fn take_images_out(content: &Vec<MessageContentBlock>) -> (r: Vec<MessageContentBlock>)
    ensures
        api::block_views(r@) == without_images(api::block_views(content@)),
{
    let ghost all = api::block_views(content@);
    let mut r: Vec<MessageContentBlock> = Vec::new();
    let mut i: usize = 0;
    assert(all.take(0) =~= Seq::<BlockView>::empty());
    proof {
        reveal(Seq::filter);
    }
    while i < content.len()
        invariant
            i <= content@.len(),
            all == api::block_views(content@),
            api::block_views(r@) == without_images(all.take(i as int)),
        decreases content@.len() - i,
    {
        let ghost before = r@;
        proof {
            reveal(Seq::filter);
            assert(all.take(i + 1).drop_last() =~= all.take(i as int));
            assert(all.take(i + 1).last() == content@[i as int]@);
        }
        if !matches!(&content[i], MessageContentBlock::Image { .. }) {
            r.push(content[i].clone());
            assert(api::block_views(r@) =~= api::block_views(before).push(content@[i as int]@));
        }
        i = i + 1;
    }
    assert(all.take(i as int) =~= all);
    r
}

/// The messages without images. A message that holds nothing else goes.
pub fn messages_without_images(messages: &[Message]) -> (r: Vec<Message>)
    ensures
        api::message_views(r@) == strip_images(api::message_views(messages@)),
{
    let ghost ms = api::message_views(messages@);
    let mut r: Vec<Message> = Vec::new();
    let mut i: usize = 0;
    assert(ms.take(0) =~= Seq::<MessageView>::empty());
    assert(api::message_views(r@) =~= strip_images(ms.take(0)));
    while i < messages.len()
        invariant
            ms == api::message_views(messages@),
            i <= messages@.len(),
            api::message_views(r@) == strip_images(ms.take(i as int)),
        decreases messages@.len() - i,
    {
        let ghost before = r@;
        proof {
            assert(ms.take(i + 1).drop_last() =~= ms.take(i as int));
            assert(ms.take(i + 1).last() == messages@[i as int]@);
        }
        match &messages[i].content {
            MessageContent::Text { .. } => {
                r.push(messages[i].clone());
                assert(api::message_views(r@) =~= api::message_views(before).push(
                    messages@[i as int]@,
                ));
            },
            MessageContent::Blocks { content } => {
                let kept = take_images_out(content);
                if kept.len() > 0 {
                    let ghost m = messages@[i as int]@.with_blocks(api::block_views(kept@));
                    r.push(
                        Message {
                            role: messages[i].role.clone(),
                            content: MessageContent::Blocks { content: kept },
                        },
                    );
                    assert(api::message_views(r@) =~= api::message_views(before).push(m));
                }
            },
        }
        i = i + 1;
    }
    assert(ms.take(i as int) =~= ms);
    r
}

/// Whether a provider's error says that it could not load an image.
pub fn says_image_failed(message: &str) -> (r: bool)
    ensures
        r == is_image_error(message@),
{
    text::contains(message, "400") && (text::contains(message, "Unable to download")
        || text::contains(message, "invalid_request_error") || text::contains(
        message,
        "verify the URL",
    ))
}

impl ConversationHistory {
    /// Leaves a note for the assistant: in the last turn where that is the
    /// user's and made of blocks, and in a turn of its own otherwise. The
    /// note is never the assistant's own.
    pub fn leave_note(&mut self, note: String)
        ensures
            final(self)@ == old(self)@.noted(note@),
    {
        if !self.append_text_to_last_user_blocks(note.clone()) {
            self.add_user_message(note);
        }
    }

    fn remove_images(&mut self, pasted: bool)
        ensures
            final(self)@ == old(self)@.images_removed(pasted),
    {
        let cleaned = messages_without_images(self.messages.as_slice());
        self.restore_messages(cleaned);
        self.leave_note(
            (if pasted {
                OWN_IMAGE_NOTE
            } else {
                OLDER_IMAGE_NOTE
            }).to_owned(),
        );
    }
}

impl Repl {
    fn begin_turn(&mut self, user_input: String, images: &Vec<PastedImage>)
        ensures
            final(self)@ == old(self)@.began(user_input@, pasted_views(images@)),
    {
        if images.len() > 0 {
            let blocks = blocks_of_turn(user_input.as_str(), images);
            self.session_state.conversation.add_user_with_blocks(blocks);
        } else {
            self.session_state.conversation.add_user_message(user_input.clone());
        }
        model::push_display(
            &mut self.session_state.display_messages,
            DisplayMessage::UserMessage { content: user_input },
        );
    }

    fn request_failed(&mut self, e: RequestError, pasted: bool) -> (r: (TurnPhase, TurnAction))
        ensures
            (final(self)@, r.0, r.1) == old(self)@.turn_step(
                TurnPhase::Requesting { pasted },
                TurnEventView::RequestFailed { error: e@ },
            ),
    {
        match e.api_message {
            Some(message) => {
                if says_image_failed(message.as_str()) && (pasted || conversation_has_images(
                    self.session_state.conversation.messages(),
                )) {
                    self.session_state.conversation.remove_images(pasted);
                    return (TurnPhase::Retrying, TurnAction::RetryRequest);
                }
                let mut note = "[SYSTEM ERROR: API error: ".to_owned();
                note.append(message.as_str());
                note.append(". The request did not produce a response.]");
                self.session_state.conversation.leave_note(note);
            },
            None => {
                let mut note = "[SYSTEM ERROR: ".to_owned();
                note.append(e.shown.as_str());
                note.append(". The request did not produce a response.]");
                self.session_state.conversation.leave_note(note);
            },
        }
        (TurnPhase::Done, TurnAction::Fail)
    }

    /// Takes the next event of a turn into account and says what is to be
    /// done. What was not waited for changes nothing.
    pub fn process_message(&mut self, phase: TurnPhase, event: TurnEvent) -> (r: (
        TurnPhase,
        TurnAction,
    ))
        ensures
            (final(self)@, r.0, r.1) == old(self)@.turn_step(phase, event@),
    {
        match (phase, event) {
            (TurnPhase::Idle, TurnEvent::Message { input, images }) => {
                let pasted = images.len() > 0;
                self.begin_turn(input, &images);
                if self.session_state.conversation.needs_compaction() {
                    (TurnPhase::Compacting { pasted }, TurnAction::Compact)
                } else {
                    (TurnPhase::Requesting { pasted }, TurnAction::SendRequest)
                }
            },
            (TurnPhase::Compacting { pasted }, TurnEvent::Compacted) => (
                TurnPhase::Requesting { pasted },
                TurnAction::SendRequest,
            ),
            (TurnPhase::Requesting { .. }, TurnEvent::Response(usage)) => {
                self.session_state.counters.accumulate_usage(&usage);
                (TurnPhase::Responding, TurnAction::Respond)
            },
            (TurnPhase::Retrying, TurnEvent::Response(usage)) => {
                self.session_state.counters.accumulate_usage(&usage);
                (TurnPhase::Responding, TurnAction::Respond)
            },
            (TurnPhase::Requesting { pasted }, TurnEvent::RequestFailed(e)) => self.request_failed(
                e,
                pasted,
            ),
            (TurnPhase::Retrying, TurnEvent::RequestFailed(e)) => {
                let backup = api::clone_messages(self.session_state.conversation.messages());
                self.session_state.conversation.restore_messages(backup);
                let mut note =
                    "[SYSTEM ERROR: Image loading failed and the retry also failed: ".to_owned();
                note.append(e.shown.as_str());
                note.append(".]");
                self.session_state.conversation.leave_note(note);
                (TurnPhase::Done, TurnAction::Fail)
            },
            (TurnPhase::Responding, TurnEvent::LoopEnded(conversation)) => {
                self.session_state.conversation = conversation;
                (TurnPhase::Done, TurnAction::Finish)
            },
            (TurnPhase::Responding, TurnEvent::LoopFailed { conversation, error }) => {
                self.session_state.conversation = conversation;
                let mut note = "[System error during processing: ".to_owned();
                note.append(error.as_str());
                note.append(". Previous actions are preserved above.]");
                self.session_state.conversation.leave_note(note);
                (TurnPhase::Done, TurnAction::Fail)
            },
            (phase, _) => (phase, TurnAction::Ignored),
        }
    }

    /// The loop that answers the turn.
    pub fn response_handler(&self) -> (r: ResponseHandler)
        ensures
            r@ == (HandlerView {
                client: self@.client,
                conversation: self@.session.conversation,
                model: self@.model,
                max_tokens: self@.max_tokens,
                reasoning_effort: self@.effort,
                config: crate::config::SofosConfig::standard(),
                available_tools: self@.tools,
                session_id: self@.session.session_id,
                iteration: 0,
                phase: crate::response_handler::LoopPhase::AwaitingFirst,
                batch: tool_batch::BatchView::of(Seq::empty()),
            }),
    {
        ResponseHandler::new(
            self.client,
            self.session_state.conversation.clone(),
            self.model_config.model.clone(),
            self.model_config.max_tokens,
            self.model_config.reasoning_effort,
            api::clone_tools(&self.available_tools),
            self.session_state.session_id.clone(),
        )
    }
}

proof fn lemma_without_images(blocks: Seq<BlockView>)
    ensures
        forall|i: int|
            0 <= i < without_images(blocks).len() ==> !is_image(#[trigger] without_images(blocks)[i]),
    decreases blocks.len(),
{
    reveal(Seq::filter);
    if blocks.len() > 0 {
        lemma_without_images(blocks.drop_last());
        let before = without_images(blocks.drop_last());
        let now = without_images(blocks);
        assert forall|i: int| 0 <= i < now.len() implies !is_image(#[trigger] now[i]) by {
            if i < before.len() {
                assert(now[i] == before[i]);
            }
        }
    }
}

/// No image is left where images are taken out, and texts stay.
pub proof fn no_image_survives_the_strip(ms: Seq<MessageView>)
    ensures
        !any_image(strip_images(ms)),
        strip_images(ms).len() <= ms.len(),
    decreases ms.len(),
{
    if ms.len() > 0 {
        no_image_survives_the_strip(ms.drop_last());
        let before = strip_images(ms.drop_last());
        let now = strip_images(ms);
        let m = ms.last();
        if m.content is Blocks {
            lemma_without_images(m.content->Blocks_content);
        }
        assert forall|i: int| 0 <= i < now.len() implies !message_has_image(#[trigger] now[i]) by {
            if i < before.len() {
                assert(now[i] == before[i]);
            }
        }
    }
}

/// A request is sent at most twice in a turn: once images were taken out,
/// nothing asks for it again.
pub proof fn request_is_retried_once(r: ReplView, phase: TurnPhase, event: TurnEventView)
    ensures
        r.turn_step(phase, event).2 == TurnAction::RetryRequest ==> phase is Requesting,
        phase == TurnPhase::Retrying ==> !(r.turn_step(phase, event).1 is Requesting),
        phase == TurnPhase::Done ==> r.turn_step(phase, event) == (r, phase, TurnAction::Ignored),
{
}

/// The assistant is never made to say something that it did not: whatever
/// happens in a turn before the loop that answers it, what is added to the
/// conversation is the user's.
pub proof fn notes_are_the_users(h: HistoryView, note: Seq<char>)
    requires
        h.config.max_messages >= 1,
    ensures
        h.noted(note).messages.len() > 0,
        h.noted(note).messages.last().is_user(),
{
    if !h.ends_with_user_blocks() {
        crate::conversation::laws::added_message_comes_last(h, MessageView::user(note));
    }
}

} // verus!
