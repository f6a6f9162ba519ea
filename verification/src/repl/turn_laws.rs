//! What a turn makes of what happens in it.

use super::turn;
use super::turn::{ErrorView, TurnAction, TurnEventView, TurnPhase};
use super::ReplView;
use crate::api::{BlockView, BodyView, ContentView, ImageView, MessageView, Usage};
use crate::conversation::HistoryView;
use crate::session::model::DisplayView;
use crate::text;
use vstd::prelude::*;

verus! {

/// A message without images enters the conversation as it was typed. Images
/// come first, in the order in which they were pasted, and the text, where
/// there is one, behind them.
pub proof fn images_come_before_the_text(input: Seq<char>, images: Seq<ImageView>)
    ensures
        images.len() == 0 ==> turn::turn_message(input, images) == (MessageView {
            role: "user"@,
            content: ContentView::Text { content: input },
        }),
        images.len() > 0 ==> {
            let m = turn::turn_message(input, images);
            let blocks = m.content->Blocks_content;
            let speaks = text::trimmed(input).len() > 0;
            &&& m.role == "user"@
            &&& m.content is Blocks
            &&& blocks.len() == images.len() + (if speaks {
                1int
            } else {
                0int
            })
            &&& forall|i: int|
                0 <= i < images.len() ==> (#[trigger] blocks[i]) == (BlockView {
                    body: BodyView::Image { source: images[i] },
                    cache: None,
                })
            &&& speaks ==> blocks.last() == (BlockView {
                body: BodyView::Text { text: input },
                cache: None,
            })
        },
{
}

/// The blocks of a list that are no images, in order.
pub open spec fn other_blocks(v: Seq<BlockView>) -> Seq<BlockView>
    decreases v.len(),
{
    if v.len() == 0 {
        v
    } else if v.last().body is Image {
        other_blocks(v.drop_last())
    } else {
        other_blocks(v.drop_last()).push(v.last())
    }
}

proof fn lemma_other_blocks(v: Seq<BlockView>)
    ensures
        turn::without_images(v) == other_blocks(v),
    decreases v.len(),
{
    reveal(Seq::filter);
    if v.len() > 0 {
        lemma_other_blocks(v.drop_last());
    }
}

/// Taking images out goes message by message: a text stays, a turn made of
/// blocks keeps its other blocks, and goes where it has none.
pub proof fn only_images_are_taken_out(a: Seq<MessageView>, m: MessageView)
    ensures
        turn::strip_images(Seq::<MessageView>::empty()).len() == 0,
        m.content is Text ==> turn::strip_images(a.push(m)) == turn::strip_images(a).push(m),
        m.content is Blocks ==> {
            let kept = other_blocks(m.content->Blocks_content);
            &&& kept.len() == 0 ==> turn::strip_images(a.push(m)) == turn::strip_images(a)
            &&& kept.len() > 0 ==> turn::strip_images(a.push(m)) == turn::strip_images(a).push(
                MessageView { role: m.role, content: ContentView::Blocks { content: kept } },
            )
        },
{
    assert(a.push(m).drop_last() =~= a);
    if m.content is Blocks {
        lemma_other_blocks(m.content->Blocks_content);
    }
}

/// Whether a text holds another.
pub open spec fn holds(s: Seq<char>, p: Seq<char>) -> bool {
    exists|i: int| 0 <= i && i + p.len() <= s.len() && #[trigger] s.subrange(i, i + p.len()) == p
}

proof fn lemma_holds(s: Seq<char>, p: Seq<char>)
    ensures
        text::occurs(s, p) == holds(s, p),
{
    if text::occurs(s, p) {
        let i = choose|i: int| #[trigger] text::occurs_at(s, p, i);
        assert(s.subrange(i, i + p.len()) == p);
    }
    if holds(s, p) {
        let i = choose|i: int|
            0 <= i && i + p.len() <= s.len() && #[trigger] s.subrange(i, i + p.len()) == p;
        assert(text::occurs_at(s, p, i));
    }
}

/// An error is taken to be about an image where it is a rejection and names
/// one of three things that such a rejection says.
pub proof fn image_errors_are_rejections(message: Seq<char>)
    ensures
        turn::is_image_error(message) == (holds(message, "400"@) && (holds(
            message,
            "Unable to download"@,
        ) || holds(message, "invalid_request_error"@) || holds(message, "verify the URL"@))),
{
    lemma_holds(message, "400"@);
    lemma_holds(message, "Unable to download"@);
    lemma_holds(message, "invalid_request_error"@);
    lemma_holds(message, "verify the URL"@);
}

/// Whether some message holds an image.
pub open spec fn holds_image(ms: Seq<MessageView>) -> bool {
    exists|i: int, j: int| #[trigger] holds_image_at(ms, i, j)
}

pub open spec fn holds_image_at(ms: Seq<MessageView>, i: int, j: int) -> bool {
    0 <= i < ms.len() && ms[i].content is Blocks && 0 <= j < ms[i].content->Blocks_content.len()
        && ms[i].content->Blocks_content[j].body is Image
}

proof fn lemma_holds_image(ms: Seq<MessageView>)
    ensures
        turn::any_image(ms) == holds_image(ms),
{
    if turn::any_image(ms) {
        let i = choose|i: int| 0 <= i < ms.len() && turn::message_has_image(#[trigger] ms[i]);
        let j = choose|j: int|
            0 <= j < ms[i].content->Blocks_content.len() && turn::is_image(
                #[trigger] ms[i].content->Blocks_content[j],
            );
        assert(holds_image_at(ms, i, j));
    }
    if holds_image(ms) {
        let (i, j) = choose|i: int, j: int| #[trigger] holds_image_at(ms, i, j);
        assert(turn::is_image(ms[i].content->Blocks_content[j]));
        assert(turn::message_has_image(ms[i]));
    }
}

/// A turn starts with the user's message: it enters the conversation, the
/// user sees it as typed, and the request follows, after a compaction where
/// one is due.
pub proof fn turn_starts_with_the_message(
    r: ReplView,
    input: Seq<char>,
    images: Seq<ImageView>,
)
    ensures
        ({
            let (now, phase, action) = r.turn_step(
                TurnPhase::Idle,
                TurnEventView::Message { input, images },
            );
            let pasted = images.len() > 0;
            let conversation = r.session.conversation.added(turn::turn_message(input, images));
            let due = conversation.total_tokens() > conversation.config.auto_compact_token_limit;
            &&& now.session.conversation == conversation
            &&& now.session.display_messages == r.session.display_messages.push(
                DisplayView::UserMessage { content: input },
            )
            &&& now.session.counters == r.session.counters
            &&& now.session.session_id == r.session.session_id
            &&& due ==> phase == (TurnPhase::Compacting { pasted }) && action is Compact
            &&& !due ==> phase == (TurnPhase::Requesting { pasted }) && action is SendRequest
        }),
{
}

/// A compaction is followed by the request, with nothing else changed; a
/// response by the loop that answers the turn, and it is billed; the end of
/// the loop by the end of the turn, with the conversation that the loop
/// left.
pub proof fn turn_goes_its_way(
    r: ReplView,
    pasted: bool,
    usage: Usage,
    history: HistoryView,
)
    ensures
        r.turn_step(TurnPhase::Compacting { pasted }, TurnEventView::Compacted) == (
            r,
            TurnPhase::Requesting { pasted },
            TurnAction::SendRequest,
        ),
        ({
            let (now, phase, action) = r.turn_step(
                TurnPhase::Requesting { pasted },
                TurnEventView::Response { usage },
            );
            &&& phase is Responding && action is Respond
            &&& now.session.counters == r.session.counters.plus(usage)
            &&& now.session.conversation == r.session.conversation
            &&& now.session.display_messages == r.session.display_messages
            &&& r.turn_step(TurnPhase::Retrying, TurnEventView::Response { usage }) == (
                now,
                phase,
                action,
            )
        }),
        ({
            let (now, phase, action) = r.turn_step(
                TurnPhase::Responding,
                TurnEventView::LoopEnded { history },
            );
            &&& phase is Done && action is Finish
            &&& now.session.conversation == history
            &&& now.session.counters == r.session.counters
            &&& now.session.display_messages == r.session.display_messages
        }),
{
}

/// A request that failed is sent again exactly where the error is about an
/// image and there is one to take out: one of this turn or one in the
/// conversation. The images go, and the assistant is told which. Any other
/// failure ends the turn, and the assistant is told what it was.
pub proof fn failed_request_is_retried_without_images(
    r: ReplView,
    pasted: bool,
    error: ErrorView,
)
    ensures
        ({
            let (now, phase, action) = r.turn_step(
                TurnPhase::Requesting { pasted },
                TurnEventView::RequestFailed { error },
            );
            let h = r.session.conversation;
            let again = error.api_message is Some && turn::is_image_error(error.api_message->0) && (
            pasted || holds_image(h.messages));
            &&& (action is RetryRequest) == again
            &&& again ==> phase is Retrying && now.session.conversation == h.restored(
                turn::strip_images(h.messages),
            ).noted(
                if pasted {
                    "[SYSTEM ERROR: An image attached to your message could not be loaded and has been removed from the conversation.]"@
                } else {
                    "[SYSTEM ERROR: An image from a previous message could not be loaded and has been removed from the conversation. You can continue normally.]"@
                },
            )
            &&& !again ==> phase is Done && action is Fail
            &&& !again && error.api_message is Some ==> now.session.conversation == h.noted(
                "[SYSTEM ERROR: API error: "@ + error.api_message->0
                    + ". The request did not produce a response.]"@,
            )
            &&& !again && error.api_message is None ==> now.session.conversation == h.noted(
                "[SYSTEM ERROR: "@ + error.shown + ". The request did not produce a response.]"@,
            )
            &&& now.session.counters == r.session.counters
            &&& now.session.display_messages == r.session.display_messages
        }),
{
    lemma_holds_image(r.session.conversation.messages);
}

/// A second failure and a loop that failed end the turn; the assistant is
/// told of either.
pub proof fn later_failures_end_the_turn(
    r: ReplView,
    error: ErrorView,
    conversation: HistoryView,
    shown: Seq<char>,
)
    ensures
        ({
            let (now, phase, action) = r.turn_step(
                TurnPhase::Retrying,
                TurnEventView::RequestFailed { error },
            );
            &&& phase is Done && action is Fail
            &&& now.session.conversation == r.session.conversation.restored(
                r.session.conversation.messages,
            ).noted(
                "[SYSTEM ERROR: Image loading failed and the retry also failed: "@ + error.shown
                    + ".]"@,
            )
        }),
        ({
            let (now, phase, action) = r.turn_step(
                TurnPhase::Responding,
                TurnEventView::LoopFailed { conversation, shown },
            );
            &&& phase is Done && action is Fail
            &&& now.session.conversation == conversation.noted(
                "[System error during processing: "@ + shown
                    + ". Previous actions are preserved above.]"@,
            )
        }),
{
}

/// What a turn does not wait for changes nothing.
pub proof fn unexpected_events_change_nothing(r: ReplView, phase: TurnPhase, event: TurnEventView)
    requires
        phase is Idle ==> !(event is Message),
        phase is Compacting ==> !(event is Compacted),
        phase is Requesting ==> !(event is Response) && !(event is RequestFailed),
        phase is Retrying ==> !(event is Response) && !(event is RequestFailed),
        phase is Responding ==> !(event is LoopEnded) && !(event is LoopFailed),
    ensures
        r.turn_step(phase, event) == (r, phase, TurnAction::Ignored),
{
}

/// A note goes into the last turn where that is the user's and made of
/// blocks, behind what is there, and otherwise into a turn of its own.
pub proof fn notes_come_last(h: HistoryView, note: Seq<char>)
    ensures
        h.messages.len() > 0 && h.messages.last().role == "user"@
            && h.messages.last().content is Blocks ==> {
            let was = h.messages.last().content->Blocks_content;
            let now = h.noted(note).messages;
            &&& now.len() == h.messages.len()
            &&& now.drop_last() == h.messages.drop_last()
            &&& now.last() == (MessageView {
                role: "user"@,
                content: ContentView::Blocks {
                    content: was.push(
                        BlockView { body: BodyView::Text { text: note }, cache: None },
                    ),
                },
            })
        },
        !(h.messages.len() > 0 && h.messages.last().role == "user"@
            && h.messages.last().content is Blocks) ==> h.noted(note) == h.added(
            MessageView { role: "user"@, content: ContentView::Text { content: note } },
        ),
{
    if h.messages.len() > 0 && h.messages.last().role == "user"@
        && h.messages.last().content is Blocks {
        assert(h.noted(note).messages.drop_last() =~= h.messages.drop_last());
    }
}

} // verus!
