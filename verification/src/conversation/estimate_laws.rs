//! What holds of the estimates whatever a conversation is made of.

use super::tokens;
use super::HistoryView;
use crate::api;
use crate::api::{BlockView, BodyView, ContentView, ImageView, MessageView, SystemView};
use crate::text;
use vstd::prelude::*;
use vstd::utf8;

verus! {

/// How many bytes the encoding of a text has.
pub open spec fn bytes(s: Seq<char>) -> nat {
    utf8::encode_utf8(s).len()
}

/// How many bytes the encodings of some texts have together.
pub open spec fn all_bytes(v: Seq<Seq<char>>) -> nat
    decreases v.len(),
{
    if v.len() == 0 {
        0
    } else {
        bytes(v.first()) + all_bytes(v.drop_first())
    }
}

/// Every text that a block carries. The data of an image is none.
pub open spec fn carried(b: BodyView) -> Seq<Seq<char>> {
    match b {
        BodyView::Text { text } => seq![text],
        BodyView::Thinking { thinking, signature } => seq![thinking, signature],
        BodyView::Summary { summary } => seq![summary],
        BodyView::Compaction { content } => seq![content],
        BodyView::Reasoning { id, summary, encrypted: Some(e) } => seq![id, e] + summary,
        BodyView::Reasoning { id, summary, encrypted: None } => seq![id] + summary,
        BodyView::ToolUse { id, name, input } => seq![id, name, input],
        BodyView::ToolResult { tool_use_id, content } => seq![tool_use_id, content],
        BodyView::ServerToolUse { id, name, input } => seq![id, name, input],
        BodyView::WebSearchToolResult { tool_use_id, content } => seq![
            tool_use_id,
            api::json_array(content),
        ],
        BodyView::Image { .. } => seq![],
    }
}

/// Every text that the blocks of a message carry, or its one text.
pub open spec fn carried_by(m: MessageView) -> Seq<Seq<char>> {
    match m.content {
        ContentView::Text { content } => seq![content],
        ContentView::Blocks { content } => carried_by_blocks(content),
    }
}

pub open spec fn carried_by_blocks(v: Seq<BlockView>) -> Seq<Seq<char>>
    decreases v.len(),
{
    if v.len() == 0 {
        Seq::empty()
    } else {
        carried_by_blocks(v.drop_last()) + carried(v.last().body)
    }
}

proof fn lemma_all_bytes_add(a: Seq<Seq<char>>, b: Seq<Seq<char>>)
    ensures
        all_bytes(a + b) == all_bytes(a) + all_bytes(b),
    decreases a.len(),
{
    if a.len() == 0 {
        assert(a + b =~= b);
    } else {
        assert((a + b).drop_first() =~= a.drop_first() + b);
        assert((a + b).first() == a.first());
        lemma_all_bytes_add(a.drop_first(), b);
    }
}

proof fn lemma_all_bytes_of_few(a: Seq<char>, b: Seq<char>, c: Seq<char>)
    ensures
        all_bytes(seq![a]) == bytes(a),
        all_bytes(seq![a, b]) == bytes(a) + bytes(b),
        all_bytes(seq![a, b, c]) == bytes(a) + bytes(b) + bytes(c),
{
    reveal_with_fuel(all_bytes, 4);
    assert(seq![a].drop_first() =~= Seq::<Seq<char>>::empty());
    assert(seq![a, b].drop_first() =~= seq![b]);
    assert(seq![a, b, c].drop_first() =~= seq![b, c]);
    assert(seq![b, c].drop_first() =~= seq![c]);
    assert(seq![b].drop_first() =~= Seq::<Seq<char>>::empty());
    assert(seq![c].drop_first() =~= Seq::<Seq<char>>::empty());
}

proof fn lemma_texts(v: Seq<Seq<char>>)
    ensures
        2 * all_bytes(v) <= 7 * tokens::texts_tokens(v) <= 2 * all_bytes(v) + 6 * v.len(),
    decreases v.len(),
{
    if v.len() > 0 {
        lemma_texts(v.drop_last());
        assert(v =~= v.drop_last() + seq![v.last()]);
        lemma_all_bytes_add(v.drop_last(), seq![v.last()]);
        lemma_all_bytes_of_few(v.last(), v.last(), v.last());
        text_is_paid_by_the_byte(v.last());
    }
}

/// A text takes the fewest tokens that pay for its bytes at two tokens for
/// seven bytes.
pub proof fn text_is_paid_by_the_byte(s: Seq<char>)
    ensures
        2 * bytes(s) <= 7 * tokens::text_tokens(s),
        7 * tokens::text_tokens(s) <= 2 * bytes(s) + 6,
{
    text::lemma_utf8_len(s);
}

/// No text of a block is free, and none is paid for twice: a block takes at
/// least two tokens for seven bytes of the texts that it carries, and at
/// most one token more for each text and twenty more for itself.
pub proof fn no_text_of_a_block_is_free(b: BodyView)
    requires
        !(b is Image),
    ensures
        2 * all_bytes(carried(b)) <= 7 * tokens::body_tokens(b),
        7 * tokens::body_tokens(b) <= 2 * all_bytes(carried(b)) + 6 * carried(b).len() + 140,
        !(b is Text) ==> 2 * all_bytes(carried(b)) + 70 <= 7 * tokens::body_tokens(b),
        b is WebSearchToolResult ==> 2 * all_bytes(carried(b)) + 140 <= 7 * tokens::body_tokens(b),
        b is Text ==> 7 * tokens::body_tokens(b) <= 2 * all_bytes(carried(b)) + 6,
        !(b is WebSearchToolResult) ==> 7 * tokens::body_tokens(b) <= 2 * all_bytes(carried(b)) + 6
            * carried(b).len() + 70,
{
    match b {
        BodyView::Text { text } => {
            lemma_all_bytes_of_few(text, text, text);
            text_is_paid_by_the_byte(text);
        },
        BodyView::Thinking { thinking, signature } => {
            lemma_all_bytes_of_few(thinking, signature, signature);
            text_is_paid_by_the_byte(thinking);
            text_is_paid_by_the_byte(signature);
        },
        BodyView::Summary { summary } => {
            lemma_all_bytes_of_few(summary, summary, summary);
            text_is_paid_by_the_byte(summary);
        },
        BodyView::Compaction { content } => {
            lemma_all_bytes_of_few(content, content, content);
            text_is_paid_by_the_byte(content);
        },
        BodyView::Reasoning { id, summary, encrypted } => {
            lemma_texts(summary);
            text_is_paid_by_the_byte(id);
            match encrypted {
                Some(e) => {
                    text_is_paid_by_the_byte(e);
                    lemma_all_bytes_of_few(id, e, e);
                    lemma_all_bytes_add(seq![id, e], summary);
                },
                None => {
                    lemma_all_bytes_of_few(id, id, id);
                    lemma_all_bytes_add(seq![id], summary);
                },
            }
        },
        BodyView::ToolUse { id, name, input } => {
            lemma_all_bytes_of_few(id, name, input);
            text_is_paid_by_the_byte(id);
            text_is_paid_by_the_byte(name);
            text_is_paid_by_the_byte(input);
        },
        BodyView::ToolResult { tool_use_id, content } => {
            lemma_all_bytes_of_few(tool_use_id, content, content);
            text_is_paid_by_the_byte(tool_use_id);
            text_is_paid_by_the_byte(content);
        },
        BodyView::ServerToolUse { id, name, input } => {
            lemma_all_bytes_of_few(id, name, input);
            text_is_paid_by_the_byte(id);
            text_is_paid_by_the_byte(name);
            text_is_paid_by_the_byte(input);
        },
        BodyView::WebSearchToolResult { tool_use_id, content } => {
            let all = api::json_array(content);
            lemma_all_bytes_of_few(tool_use_id, all, all);
            text_is_paid_by_the_byte(tool_use_id);
            text_is_paid_by_the_byte(all);
        },
        BodyView::Image { .. } => {},
    }
}

/// No text of a message is free: seven times its estimate is at least twice
/// the bytes of all texts that it carries.
pub proof fn no_text_of_a_message_is_free(m: MessageView)
    ensures
        2 * all_bytes(carried_by(m)) <= 7 * tokens::message_tokens(m),
{
    match m.content {
        ContentView::Text { content } => {
            lemma_all_bytes_of_few(content, content, content);
            text_is_paid_by_the_byte(content);
        },
        ContentView::Blocks { content } => {
            lemma_blocks(content);
        },
    }
}

proof fn lemma_blocks(v: Seq<BlockView>)
    ensures
        2 * all_bytes(carried_by_blocks(v)) <= 7 * tokens::blocks_tokens(v),
    decreases v.len(),
{
    if v.len() > 0 {
        lemma_blocks(v.drop_last());
        lemma_all_bytes_add(carried_by_blocks(v.drop_last()), carried(v.last().body));
        if !(v.last().body is Image) {
            no_text_of_a_block_is_free(v.last().body);
        }
    }
}

/// A tool result takes no less than its content does as a message of its
/// own, and ten tokens more than its content and its name do.
pub proof fn tool_result_costs_what_its_content_costs(
    role: Seq<char>,
    id: Seq<char>,
    content: Seq<char>,
)
    ensures
        ({
            let answer = MessageView {
                role,
                content: ContentView::Blocks {
                    content: seq![
                        BlockView {
                            body: BodyView::ToolResult { tool_use_id: id, content },
                            cache: None,
                        },
                    ],
                },
            };
            let plain = MessageView { role, content: ContentView::Text { content } };
            let name = MessageView { role, content: ContentView::Text { content: id } };
            &&& tokens::message_tokens(answer) >= tokens::message_tokens(plain)
            &&& tokens::message_tokens(answer) == tokens::message_tokens(plain)
                + tokens::message_tokens(name) + 10
        }),
{
    let block = BlockView { body: BodyView::ToolResult { tool_use_id: id, content }, cache: None };
    lemma_one_block(block);
}

proof fn lemma_one_block(b: BlockView)
    ensures
        tokens::blocks_tokens(seq![b]) == tokens::body_tokens(b.body),
{
    assert(seq![b].drop_last() =~= Seq::<BlockView>::empty());
    assert(tokens::blocks_tokens(seq![b].drop_last()) == 0);
}

proof fn lemma_seven_bytes(s: Seq<char>, more: Seq<char>)
    requires
        bytes(more) == 7,
    ensures
        tokens::text_tokens(s + more) == tokens::text_tokens(s) + 2,
{
    text::lemma_utf8_len(more);
    text::lemma_utf8_len_add(s, more);
}

/// Seven bytes more in any text of any block are two tokens more.
pub proof fn seven_bytes_more_are_two_tokens_more(
    a: Seq<char>,
    b: Seq<char>,
    c: Seq<char>,
    more: Seq<char>,
)
    requires
        bytes(more) == 7,
    ensures
        tokens::body_tokens(BodyView::Text { text: a + more }) == tokens::body_tokens(
            BodyView::Text { text: a },
        ) + 2,
        tokens::body_tokens(BodyView::Thinking { thinking: a + more, signature: b })
            == tokens::body_tokens(BodyView::Thinking { thinking: a, signature: b }) + 2,
        tokens::body_tokens(BodyView::Thinking { thinking: a, signature: b + more })
            == tokens::body_tokens(BodyView::Thinking { thinking: a, signature: b }) + 2,
        tokens::body_tokens(BodyView::Summary { summary: a + more }) == tokens::body_tokens(
            BodyView::Summary { summary: a },
        ) + 2,
        tokens::body_tokens(BodyView::Compaction { content: a + more }) == tokens::body_tokens(
            BodyView::Compaction { content: a },
        ) + 2,
        tokens::body_tokens(BodyView::ToolUse { id: a + more, name: b, input: c })
            == tokens::body_tokens(BodyView::ToolUse { id: a, name: b, input: c }) + 2,
        tokens::body_tokens(BodyView::ToolUse { id: a, name: b + more, input: c })
            == tokens::body_tokens(BodyView::ToolUse { id: a, name: b, input: c }) + 2,
        tokens::body_tokens(BodyView::ToolUse { id: a, name: b, input: c + more })
            == tokens::body_tokens(BodyView::ToolUse { id: a, name: b, input: c }) + 2,
        tokens::body_tokens(BodyView::ServerToolUse { id: a + more, name: b, input: c })
            == tokens::body_tokens(BodyView::ServerToolUse { id: a, name: b, input: c }) + 2,
        tokens::body_tokens(BodyView::ServerToolUse { id: a, name: b + more, input: c })
            == tokens::body_tokens(BodyView::ServerToolUse { id: a, name: b, input: c }) + 2,
        tokens::body_tokens(BodyView::ServerToolUse { id: a, name: b, input: c + more })
            == tokens::body_tokens(BodyView::ServerToolUse { id: a, name: b, input: c }) + 2,
        tokens::body_tokens(BodyView::ToolResult { tool_use_id: a + more, content: b })
            == tokens::body_tokens(BodyView::ToolResult { tool_use_id: a, content: b }) + 2,
        tokens::body_tokens(BodyView::ToolResult { tool_use_id: a, content: b + more })
            == tokens::body_tokens(BodyView::ToolResult { tool_use_id: a, content: b }) + 2,
{
    lemma_seven_bytes(a, more);
    lemma_seven_bytes(b, more);
    lemma_seven_bytes(c, more);
}

/// The same of a block of reasoning: its name, each part of its summary and
/// what it carries encrypted.
pub proof fn seven_bytes_more_of_reasoning(
    id: Seq<char>,
    summary: Seq<Seq<char>>,
    part: Seq<char>,
    encrypted: Seq<char>,
    more: Seq<char>,
)
    requires
        bytes(more) == 7,
    ensures
        ({
            let one = BodyView::Reasoning {
                id,
                summary: summary.push(part),
                encrypted: Some(encrypted),
            };
            &&& tokens::body_tokens(
                BodyView::Reasoning {
                    id: id + more,
                    summary: summary.push(part),
                    encrypted: Some(encrypted),
                },
            ) == tokens::body_tokens(one) + 2
            &&& tokens::body_tokens(
                BodyView::Reasoning {
                    id,
                    summary: summary.push(part + more),
                    encrypted: Some(encrypted),
                },
            ) == tokens::body_tokens(one) + 2
            &&& tokens::body_tokens(
                BodyView::Reasoning {
                    id,
                    summary: summary.push(part),
                    encrypted: Some(encrypted + more),
                },
            ) == tokens::body_tokens(one) + 2
        }),
{
    lemma_seven_bytes(id, more);
    lemma_seven_bytes(part, more);
    lemma_seven_bytes(encrypted, more);
    assert(summary.push(part).drop_last() =~= summary);
    assert(summary.push(part + more).drop_last() =~= summary);
}

/// An encoded image takes one token for ten thousand bytes of its data, and
/// a hundred where that is less; one behind a link takes a thousand,
/// whatever the link.
pub proof fn image_is_paid_by_its_data(media_type: Seq<char>, data: Seq<char>, url: Seq<char>)
    ensures
        ({
            let n = tokens::body_tokens(
                BodyView::Image { source: ImageView::Base64 { media_type, data } },
            );
            &&& n >= 100
            &&& n > 100 ==> 10000 * n <= bytes(data)
            &&& bytes(data) < 10000 * (n + 1)
        }),
        tokens::body_tokens(BodyView::Image { source: ImageView::Url { url } }) == 1000,
{
    text::lemma_utf8_len(data);
}

/// A message takes what its blocks take, each counted once, whatever their
/// order.
pub proof fn blocks_are_counted_once_each(role: Seq<char>, a: Seq<BlockView>, b: Seq<BlockView>)
    ensures
        tokens::message_tokens(MessageView { role, content: ContentView::Blocks { content: a + b } })
            == tokens::message_tokens(
            MessageView { role, content: ContentView::Blocks { content: a } },
        ) + tokens::message_tokens(
            MessageView { role, content: ContentView::Blocks { content: b } },
        ),
        b.len() == 1 ==> tokens::message_tokens(
            MessageView { role, content: ContentView::Blocks { content: b } },
        ) == tokens::body_tokens(b[0].body),
    decreases b.len(),
{
    if b.len() == 0 {
        assert(a + b =~= a);
    } else {
        blocks_are_counted_once_each(role, a, b.drop_last());
        assert((a + b).drop_last() =~= a + b.drop_last());
        if b.len() == 1 {
            lemma_one_block(b[0]);
            assert(b =~= seq![b[0]]);
        }
    }
}

proof fn lemma_messages_add(a: Seq<MessageView>, b: Seq<MessageView>)
    ensures
        tokens::messages_tokens(a + b) == tokens::messages_tokens(a) + tokens::messages_tokens(b),
    decreases a.len(),
{
    if a.len() == 0 {
        assert(a + b =~= b);
    } else {
        assert((a + b).drop_first() =~= a.drop_first() + b);
        assert((a + b).first() == a.first());
        lemma_messages_add(a.drop_first(), b);
    }
}

/// A conversation takes what its messages and the parts of its system
/// prompt take, each counted once: one more of either raises the estimate
/// by what that one takes.
pub proof fn conversation_is_counted_once(h: HistoryView, m: MessageView, p: SystemView)
    ensures
        ({
            let longer = HistoryView { messages: h.messages.push(m), ..h };
            longer.total_tokens() < usize::MAX ==> longer.total_tokens() == h.total_tokens()
                + tokens::message_tokens(m)
        }),
        ({
            let told = HistoryView { system: h.system.push(p), ..h };
            let said = MessageView { role: "user"@, content: ContentView::Text { content: p.text } };
            told.total_tokens() < usize::MAX ==> told.total_tokens() == h.total_tokens()
                + tokens::message_tokens(said)
        }),
        h.messages.len() == 0 && h.system.len() == 0 ==> h.total_tokens() == 0,
        h.total_tokens() <= usize::MAX,
{
    assert(h.messages.push(m) =~= h.messages + seq![m]);
    lemma_messages_add(h.messages, seq![m]);
    assert(seq![m].drop_first() =~= Seq::<MessageView>::empty());
    assert(tokens::messages_tokens(seq![m].drop_first()) == 0);
    assert(tokens::messages_tokens(seq![m]) == tokens::message_tokens(m));
    assert(h.system.push(p).drop_last() =~= h.system);
}


/// A list in JSON stands in brackets, and its items stand in order with a
/// comma between two of them.
pub proof fn list_stands_in_brackets(items: Seq<Seq<char>>, x: Seq<char>)
    ensures
        api::json_array(Seq::empty()) == seq!['[', ']'],
        api::json_array(seq![x]) == seq!['['] + x + seq![']'],
        items.len() > 0 ==> api::json_array(items.push(x)) == api::json_array(items).drop_last()
            + seq![','] + x + seq![']'],
{
    assert(api::json_array(Seq::empty()) =~= seq!['[', ']']);
    assert(api::json_array(seq![x]) =~= seq!['['] + x + seq![']']);
    if items.len() > 0 {
        assert(items.push(x).drop_last() =~= items);
        assert(api::json_array(items.push(x)) =~= api::json_array(items).drop_last() + seq![','] + x
            + seq![']']);
    }
}

} // verus!
