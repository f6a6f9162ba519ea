//! What holds of a conversation that is shortened or summarized.

use super::compaction;
use super::HistoryView;
use crate::api::{BlockView, BodyView, ContentView, MessageView};
use crate::text;
use crate::text_laws;
use vstd::prelude::*;
use vstd::utf8;

verus! {

/// How many bytes a shortened text of the given size keeps at each end.
pub open spec fn kept_at_each_end(size: nat) -> nat {
    if size < 1500 {
        size / 3
    } else {
        500
    }
}

/// Whether a text is the start of another, a line that says how long the
/// other is, and the end of the other, without an overlap. Start and end
/// have the bytes that are kept there, but for less than one character.
pub open spec fn is_cut_in_the_middle(r: Seq<char>, s: Seq<char>, head: int, tail: int) -> bool {
    let size = utf8::encode_utf8(s).len();
    let k = kept_at_each_end(size);
    &&& 0 <= head <= tail <= s.len()
    &&& r == s.take(head) + "\n...[truncated "@ + text::decimal_of(size) + " chars]...\n"@
        + s.skip(tail)
    &&& utf8::encode_utf8(s.take(head)).len() <= k < utf8::encode_utf8(s.take(head)).len() + 4
    &&& k <= utf8::encode_utf8(s.skip(tail)).len() < k + 4
}

/// A text longer than the threshold is cut in its middle: its start and its
/// end stay, and a line between them says how long it was. A text within
/// the threshold stays as it is.
pub proof fn shortening_keeps_both_ends(s: Seq<char>, threshold: nat)
    ensures
        utf8::encode_utf8(s).len() > threshold ==> exists|head: int, tail: int|
            #[trigger] is_cut_in_the_middle(
                compaction::shortened_text(s, threshold),
                s,
                head,
                tail,
            ),
        utf8::encode_utf8(s).len() <= threshold ==> compaction::shortened_text(s, threshold) == s,
{
    let size = utf8::encode_utf8(s).len();
    text::lemma_utf8_len(s);
    if size > threshold {
        let k = kept_at_each_end(size);
        text_laws::clip_is_the_longest_start(s, k);
        text_laws::tail_is_the_shortest_end(s, k);
        let head = text::clip(s, k).len() as int;
        let tail = s.len() - text::tail_of(s, k).len();
        text::lemma_utf8_len(s.take(head));
        text::lemma_utf8_len(s.skip(tail));
        if head == s.len() {
            assert(s.take(head) =~= s);
        }
        if k == 0 {
            assert(size < 3);
            if tail < s.len() {
                text::lemma_utf8_len(s.skip(tail + 1));
            }
            assert(s.skip(tail).len() == 0) by {
                if tail < s.len() {
                    text_laws::length_is_that_of_the_encoding(s.skip(tail + 1));
                }
            }
        }
        if head > tail {
            assert(s.take(head) =~= s.take(tail) + s.subrange(tail, head));
            text::lemma_utf8_len_add(s.take(tail), s.subrange(tail, head));
            assert(s.skip(tail) =~= s.subrange(tail, head) + s.skip(head));
            text::lemma_utf8_len_add(s.subrange(tail, head), s.skip(head));
            assert(s =~= s.take(tail) + s.skip(tail));
            text::lemma_utf8_len_add(s.take(tail), s.skip(tail));
            assert(s.skip(tail + 1) =~= s.subrange(tail + 1, head) + s.skip(head));
            text::lemma_utf8_len_add(s.subrange(tail + 1, head), s.skip(head));
            text::lemma_utf8_len(s.skip(tail + 1));
            let one = seq![s[tail]];
            assert(one.drop_last() =~= Seq::<char>::empty());
            assert(text::utf8_len(one.drop_last()) == 0);
            assert(s.skip(tail) =~= one + s.skip(tail + 1));
            text::lemma_utf8_len_add(one, s.skip(tail + 1));
        }
        assert(is_cut_in_the_middle(compaction::shortened_text(s, threshold), s, head, tail));
    }
}

/// A long tool result before the given place is cut in its middle and stays
/// the answer to its call; every other one stays as it is.
pub proof fn long_results_are_cut_in_the_middle(
    ms: Seq<MessageView>,
    up_to: int,
    threshold: nat,
    i: int,
    j: int,
)
    requires
        0 <= i < ms.len(),
        i < up_to,
        ms[i].content is Blocks,
        0 <= j < ms[i].content->Blocks_content.len(),
        ms[i].content->Blocks_content[j].body is ToolResult,
    ensures
        ({
            let was = ms[i].content->Blocks_content[j];
            let now = compaction::shortened_messages(ms, up_to, threshold)[i];
            let block = now.content->Blocks_content[j];
            let text = was.body->ToolResult_content;
            &&& now.role == ms[i].role
            &&& now.content is Blocks
            &&& block.cache == was.cache
            &&& block.body is ToolResult
            &&& block.body->ToolResult_tool_use_id == was.body->ToolResult_tool_use_id
            &&& utf8::encode_utf8(text).len() <= threshold ==> block == was
            &&& utf8::encode_utf8(text).len() > threshold ==> exists|head: int, tail: int|
                #[trigger] is_cut_in_the_middle(block.body->ToolResult_content, text, head, tail)
        }),
{
    let was = ms[i].content->Blocks_content[j];
    let text = was.body->ToolResult_content;
    shortening_keeps_both_ends(text, threshold);
    let now = compaction::shortened_messages(ms, up_to, threshold)[i];
    let block = now.content->Blocks_content[j];
    assert(block == compaction::shortened_block(was, threshold));
    assert(block.body->ToolResult_content == compaction::shortened_text(text, threshold));
    if utf8::encode_utf8(text).len() <= threshold {
        assert(block =~= was);
    }
}

/// A preview of a text within its limit is that text; of a longer one it is
/// the longest start that fits, with three dots behind it.
pub proof fn preview_is_the_start(s: Seq<char>, limit: nat) -> (n: int)
    ensures
        0 <= n <= s.len(),
        utf8::encode_utf8(s).len() <= limit ==> compaction::preview(s, limit) == s,
        utf8::encode_utf8(s).len() > limit ==> {
            &&& n < s.len()
            &&& compaction::preview(s, limit) == s.take(n) + "..."@
            &&& utf8::encode_utf8(s.take(n)).len() <= limit
            &&& utf8::encode_utf8(s.take(n + 1)).len() > limit
        },
{
    text::lemma_utf8_len(s);
    text_laws::clip_is_the_longest_start(s, limit);
    let n = text::clip(s, limit).len() as int;
    if n == s.len() {
        assert(s.take(n) =~= s);
    }
    n
}

/// Whether a message holds the result of a tool call of either side.
pub open spec fn holds_results(m: MessageView) -> bool {
    exists|i: int|
        m.content is Blocks && 0 <= i < m.content->Blocks_content.len() && {
            let b = #[trigger] m.content->Blocks_content[i];
            b.body is ToolResult || b.body is WebSearchToolResult
        }
}

/// A compaction starts what it keeps at the last user turn that leaves the
/// messages to preserve alone, or, where that turn holds results of tool
/// calls, at the last message before it that holds none. A conversation of
/// at most five messages more than those to preserve is kept whole.
pub proof fn split_is_at_the_last_fitting_turn(ms: Seq<MessageView>, preserve: nat) -> (turn: int)
    ensures
        ms.len() <= preserve + 5 ==> compaction::split_point(ms, preserve) == 0,
        ms.len() > preserve + 5 ==> {
            let at = compaction::split_point(ms, preserve);
            &&& 0 <= at <= turn
            &&& turn + preserve <= ms.len() && turn < ms.len()
            &&& turn == 0 || ms[turn].role == "user"@
            &&& at == 0 || !holds_results(ms[at])
            &&& forall|i: int|
                turn < i && i + preserve <= ms.len() && i < ms.len() ==> (#[trigger] ms[i]).role
                    != "user"@
            &&& forall|i: int| at < i <= turn ==> holds_results(#[trigger] ms[i])
        },
{
    if ms.len() > preserve + 5 {
        let start = if preserve == 0 {
            ms.len() - 1
        } else {
            ms.len() - preserve
        };
        lemma_turn(ms, start);
        let turn = compaction::back_to_user(ms, start);
        lemma_over(ms, turn);
        turn
    } else {
        0
    }
}

proof fn lemma_turn(ms: Seq<MessageView>, i: int)
    requires
        0 <= i < ms.len(),
    ensures
        0 <= compaction::back_to_user(ms, i) <= i,
        compaction::back_to_user(ms, i) == 0 || ms[compaction::back_to_user(ms, i)].role == "user"@,
        forall|j: int|
            compaction::back_to_user(ms, i) < j <= i ==> (#[trigger] ms[j]).role != "user"@,
    decreases i,
{
    if i > 0 && !ms[i].is_user() {
        lemma_turn(ms, i - 1);
    }
}

proof fn lemma_over(ms: Seq<MessageView>, i: int)
    requires
        0 <= i < ms.len(),
    ensures
        0 <= compaction::back_over_results(ms, i) <= i,
        compaction::back_over_results(ms, i) == 0 || !holds_results(
            ms[compaction::back_over_results(ms, i)],
        ),
        forall|j: int|
            compaction::back_over_results(ms, i) < j <= i ==> holds_results(#[trigger] ms[j]),
    decreases i,
{
    assert(forall|m: MessageView| #[trigger] compaction::carries_results(m) == holds_results(m));
    if i > 0 && compaction::carries_results(ms[i]) {
        lemma_over(ms, i - 1);
    }
}

/// The message that stands for a summary is the user's, and ends with the
/// whole summary behind one fixed line that says what it is.
pub proof fn summary_stands_first(h: HistoryView, summary: Seq<char>, split: int)
    requires
        0 < split <= h.messages.len(),
    ensures
        ({
            let now = h.summarized(summary, split);
            &&& now.messages.len() == 1 + h.messages.len() - split
            &&& now.messages[0].role == "user"@
            &&& now.messages[0].content == (ContentView::Text {
                content:
                    "[Conversation Summary]\n\nThe following is a summary of our earlier conversation:\n\n"@
                    + summary,
            })
            &&& forall|i: int| split <= i < h.messages.len() ==> now.messages[i - split + 1] == (
            #[trigger] h.messages[i])
            &&& now.system == h.system && now.config == h.config && now.warned == h.warned
        }),
{
}

/// The text that a summary is made from takes the messages in their order
/// and leaves none out.
pub proof fn summary_reads_all_messages(a: Seq<MessageView>, b: Seq<MessageView>)
    ensures
        compaction::all_parts(a + b) == compaction::all_parts(a) + compaction::all_parts(b),
    decreases b.len(),
{
    if b.len() == 0 {
        assert(a + b =~= a);
        assert(compaction::all_parts(a) + compaction::all_parts(b) =~= compaction::all_parts(a));
    } else {
        assert((a + b).drop_last() =~= a + b.drop_last());
        assert((a + b).last() == b.last());
        summary_reads_all_messages(a, b.drop_last());
        assert(compaction::all_parts(a + b) =~= compaction::all_parts(a) + compaction::all_parts(
            b,
        ));
    }
}

proof fn lemma_one_message(m: MessageView)
    ensures
        compaction::all_parts(seq![m]) == compaction::message_parts(m),
{
    assert(seq![m].drop_last() =~= Seq::<MessageView>::empty());
    assert(compaction::all_parts(seq![m].drop_last()) =~= Seq::<Seq<char>>::empty());
    assert(compaction::all_parts(seq![m]) =~= compaction::message_parts(m));
}

/// A message made of one text enters that text whole, behind the name of
/// its side.
pub proof fn plain_message_enters_whole(role: Seq<char>, content: Seq<char>)
    ensures
        compaction::all_parts(seq![MessageView { role, content: ContentView::Text { content } }])
            == seq![
            if role == "user"@ {
                "User: "@ + content
            } else {
                "Assistant: "@ + content
            },
        ],
{
    lemma_labels(content);
    lemma_one_message(MessageView { role, content: ContentView::Text { content } });
}

proof fn lemma_labels(content: Seq<char>)
    ensures
        "User"@ + ": "@ + content == "User: "@ + content,
        "Assistant"@ + ": "@ + content == "Assistant: "@ + content,
{
    reveal_strlit("User");
    reveal_strlit("User: ");
    reveal_strlit("Assistant");
    reveal_strlit("Assistant: ");
    reveal_strlit(": ");
    assert("User"@ + ": "@ =~= "User: "@);
    assert("Assistant"@ + ": "@ =~= "Assistant: "@);
}

proof fn lemma_one_block(role: Seq<char>, b: BlockView)
    ensures
        ({
            let label = if role == "user"@ {
                "User"@
            } else {
                "Assistant"@
            };
            compaction::all_parts(
                seq![MessageView { role, content: ContentView::Blocks { content: seq![b] } }],
            ) == (match compaction::summary_part(b.body, label) {
                Some(p) => seq![p],
                None => Seq::empty(),
            })
        }),
{
    let m = MessageView { role, content: ContentView::Blocks { content: seq![b] } };
    lemma_one_message(m);
    let label = compaction::role_label(m);
    assert(seq![b].drop_last() =~= Seq::<BlockView>::empty());
    assert(compaction::block_parts(seq![b].drop_last(), label) =~= Seq::<Seq<char>>::empty());
    match compaction::summary_part(b.body, label) {
        Some(p) => {
            assert(compaction::message_parts(m) =~= seq![p]);
        },
        None => {
            assert(compaction::message_parts(m) =~= Seq::<Seq<char>>::empty());
        },
    }
}

/// A block enters by its kind: a text whole, behind the name of its side; a
/// tool call by its name and the start of its arguments; a tool result by
/// the start of its content; an image by a word. Nothing else enters.
pub proof fn block_enters_by_its_kind(role: Seq<char>, b: BlockView)
    ensures
        ({
            let parts = compaction::all_parts(
                seq![MessageView { role, content: ContentView::Blocks { content: seq![b] } }],
            );
            match b.body {
                BodyView::Text { text } => parts == seq![
                    if role == "user"@ {
                        "User: "@ + text
                    } else {
                        "Assistant: "@ + text
                    },
                ],
                BodyView::ToolUse { name, input, .. } => {
                    &&& parts.len() == 1
                    &&& utf8::encode_utf8(input).len() <= 200 ==> parts[0] == "[Tool call: "@ + name
                        + "("@ + input + ")]"@
                    &&& utf8::encode_utf8(input).len() > 200 ==> exists|n: int|
                        0 <= n < input.len() && parts[0] == "[Tool call: "@ + name + "("@ + (
                        #[trigger] input.take(n) + "..."@) + ")]"@ && utf8::encode_utf8(
                            input.take(n),
                        ).len() <= 200 && utf8::encode_utf8(input.take(n + 1)).len() > 200
                },
                BodyView::ToolResult { content, .. } => {
                    &&& parts.len() == 1
                    &&& utf8::encode_utf8(content).len() <= 300 ==> parts[0] == "[Tool result: "@
                        + content + "]"@
                    &&& utf8::encode_utf8(content).len() > 300 ==> exists|n: int|
                        0 <= n < content.len() && parts[0] == "[Tool result: "@ + (
                        #[trigger] content.take(n) + "..."@) + "]"@ && utf8::encode_utf8(
                            content.take(n),
                        ).len() <= 300 && utf8::encode_utf8(content.take(n + 1)).len() > 300
                },
                BodyView::Image { .. } => parts == seq!["[Image attached]"@],
                _ => parts.len() == 0,
            }
        }),
{
    lemma_one_block(role, b);
    match b.body {
        BodyView::Text { text } => {
            lemma_labels(text);
        },
        BodyView::ToolUse { name, input, .. } => {
            let n = preview_is_the_start(input, 200);
            assert(0 <= n <= input.len());
            let _ = input.take(n);
        },
        BodyView::ToolResult { content, .. } => {
            let n = preview_is_the_start(content, 300);
            assert(0 <= n <= content.len());
            let _ = content.take(n);
        },
        _ => {},
    }
}

/// The blocks of a message enter in their order, none left out.
pub proof fn blocks_enter_in_order(role: Seq<char>, a: Seq<BlockView>, b: Seq<BlockView>)
    ensures
        compaction::all_parts(
            seq![MessageView { role, content: ContentView::Blocks { content: a + b } }],
        ) == compaction::all_parts(
            seq![MessageView { role, content: ContentView::Blocks { content: a } }],
        ) + compaction::all_parts(
            seq![MessageView { role, content: ContentView::Blocks { content: b } }],
        ),
{
    let ab = MessageView { role, content: ContentView::Blocks { content: a + b } };
    lemma_one_message(ab);
    lemma_one_message(MessageView { role, content: ContentView::Blocks { content: a } });
    lemma_one_message(MessageView { role, content: ContentView::Blocks { content: b } });
    lemma_block_parts_add(a, b, compaction::role_label(ab));
}

proof fn lemma_block_parts_add(a: Seq<BlockView>, b: Seq<BlockView>, label: Seq<char>)
    ensures
        compaction::block_parts(a + b, label) == compaction::block_parts(a, label)
            + compaction::block_parts(b, label),
    decreases b.len(),
{
    if b.len() == 0 {
        assert(a + b =~= a);
        assert(compaction::block_parts(a, label) + compaction::block_parts(b, label)
            =~= compaction::block_parts(a, label));
    } else {
        assert((a + b).drop_last() =~= a + b.drop_last());
        assert((a + b).last() == b.last());
        lemma_block_parts_add(a, b.drop_last(), label);
        assert(compaction::block_parts(a + b, label) =~= compaction::block_parts(a, label)
            + compaction::block_parts(b, label));
    }
}


/// Shortening touches nothing but tool results before the given place: not
/// the messages from there on, nor plain messages, nor other blocks.
pub proof fn only_earlier_results_are_shortened(
    ms: Seq<MessageView>,
    up_to: int,
    threshold: nat,
    i: int,
    j: int,
)
    requires
        0 <= i < ms.len(),
    ensures
        ({
            let now = compaction::shortened_messages(ms, up_to, threshold);
            &&& now.len() == ms.len()
            &&& i >= up_to ==> now[i] == ms[i]
            &&& ms[i].content is Text ==> now[i] == ms[i]
            &&& ms[i].content is Blocks ==> {
                let was = ms[i].content->Blocks_content;
                let blocks = now[i].content->Blocks_content;
                &&& now[i].content is Blocks
                &&& blocks.len() == was.len()
                &&& 0 <= j < was.len() && !(was[j].body is ToolResult) ==> blocks[j] == was[j]
            }
        }),
{
}

} // verus!
