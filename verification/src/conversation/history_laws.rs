//! What a history loses when it is brought within its limits or restored,
//! and what it keeps.

use super::drop_summary;
use super::drop_summary::FactsView;
use super::laws;
use super::lifecycle;
use super::tokens;
use super::HistoryView;
use crate::api;
use crate::api::{BlockView, BodyView, ContentView, MessageView};
use crate::text;
use crate::text_laws;
use vstd::prelude::*;
use vstd::utf8;

verus! {

/// The blocks of a list that answer no tool call, in order.
pub open spec fn without_answers(v: Seq<BlockView>) -> Seq<BlockView>
    decreases v.len(),
{
    if v.len() == 0 {
        v
    } else if v.last().body is ToolResult {
        without_answers(v.drop_last())
    } else {
        without_answers(v.drop_last()).push(v.last())
    }
}

/// The blocks of a list that take no part in a tool call of the assistant's
/// side, in order.
pub open spec fn without_steps(v: Seq<BlockView>) -> Seq<BlockView>
    decreases v.len(),
{
    if v.len() == 0 {
        v
    } else {
        match v.last().body {
            BodyView::ToolUse { .. } => without_steps(v.drop_last()),
            BodyView::ServerToolUse { .. } => without_steps(v.drop_last()),
            BodyView::WebSearchToolResult { .. } => without_steps(v.drop_last()),
            _ => without_steps(v.drop_last()).push(v.last()),
        }
    }
}

pub proof fn lemma_without_answers(v: Seq<BlockView>)
    ensures
        lifecycle::without_results(v) == without_answers(v),
    decreases v.len(),
{
    reveal(Seq::filter);
    if v.len() > 0 {
        lemma_without_answers(v.drop_last());
    }
}

pub proof fn lemma_without_steps(v: Seq<BlockView>)
    ensures
        lifecycle::without_calls(v) == without_steps(v),
    decreases v.len(),
{
    reveal(Seq::filter);
    if v.len() > 0 {
        lemma_without_steps(v.drop_last());
    }
}

/// Whether a turn is the user's and answers a tool call.
pub open spec fn answers_calls(m: MessageView) -> bool {
    m.role == "user"@ && exists|i: int|
        m.content is Blocks && 0 <= i < m.content->Blocks_content.len() && (
        #[trigger] m.content->Blocks_content[i]).body is ToolResult
}

/// Whether one list of messages is another without the answers that the
/// other starts with: turns of the user made of nothing but answers are gone
/// from its front, and the first turn that is left lost its answers and
/// nothing else.
pub open spec fn lost_leading_answers(now: Seq<MessageView>, was: Seq<MessageView>) -> bool {
    let gone = was.len() - now.len();
    &&& 0 <= gone
    &&& forall|i: int|
        0 <= i < gone ==> answers_calls(#[trigger] was[i]) && without_answers(
            was[i].content->Blocks_content,
        ).len() == 0
    &&& forall|i: int| gone < i < was.len() ==> now[i - gone] == #[trigger] was[i]
    &&& now.len() > 0 && !answers_calls(was[gone]) ==> now[0] == was[gone]
    &&& now.len() > 0 && answers_calls(was[gone]) ==> {
        let kept = without_answers(was[gone].content->Blocks_content);
        &&& kept.len() > 0
        &&& now[0] == MessageView {
            role: was[gone].role,
            content: ContentView::Blocks { content: kept },
        }
    }
}

proof fn lemma_strip(ms: Seq<MessageView>)
    ensures
        lost_leading_answers(lifecycle::strip_leading(ms), ms),
    decreases ms.len(),
{
    if ms.len() > 0 {
        let m = ms[0];
        assert(answers_calls(m) == lifecycle::leading_orphan(ms));
        if lifecycle::leading_orphan(ms) {
            lemma_without_answers(m.content->Blocks_content);
            let kept = lifecycle::without_results(m.content->Blocks_content);
            if kept.len() == 0 {
                let rest = ms.drop_first();
                lemma_strip(rest);
                let now = lifecycle::strip_leading(rest);
                let gone = rest.len() - now.len();
                assert forall|i: int| 0 <= i < gone + 1 implies answers_calls(#[trigger] ms[i])
                    && without_answers(ms[i].content->Blocks_content).len() == 0 by {
                    if i > 0 {
                        assert(rest[i - 1] == ms[i]);
                    }
                }
                assert forall|i: int| gone + 1 < i < ms.len() implies now[i - (gone + 1)]
                    == #[trigger] ms[i] by {
                    assert(rest[i - 1] == ms[i]);
                }
                if now.len() > 0 {
                    assert(rest[gone] == ms[gone + 1]);
                }
            }
        }
    }
}

/// A trim loses old messages, and of those that are left only the answers
/// to calls that went: every other block of every message stays.
pub proof fn trim_loses_only_orphaned_answers(h: HistoryView)
    ensures
        h.cut() == h.messages.skip(h.messages.len() - h.cut().len()),
        lost_leading_answers(h.trimmed().messages, h.cut()),
        h.trimmed().system == h.system,
        h.trimmed().config == h.config,
{
    laws::trim_keeps_a_suffix(h);
    lemma_strip(h.cut());
}

/// A history goes over its limits by having more messages than allowed, or
/// by a higher estimate than allowed with more than ten messages. A trim
/// leaves one that does neither, and no shorter one than that takes.
pub proof fn trim_stops_at_the_first_fit(h: HistoryView, k: int)
    ensures
        h.cut().len() <= h.config.max_messages,
        h.cut().len() <= 10 || (HistoryView { messages: h.cut(), ..h }).total_tokens()
            <= h.config.max_context_tokens,
        0 <= k < h.messages.len() - h.cut().len() ==> {
            ||| h.messages.len() - k > h.config.max_messages
            ||| h.messages.len() - k > 10 && (HistoryView {
                messages: h.messages.skip(k),
                ..h
            }).total_tokens() > h.config.max_context_tokens
        },
        h.trimmed().warned == (h.trimmed().total_tokens() > h.config.max_context_tokens
            && h.trimmed().messages.len() <= 10),
{
    laws::trim_keeps_a_suffix(h);
    let max = h.config.max_messages as nat;
    let c = lifecycle::capped(h.messages, max);
    let system = tokens::system_tokens(h.system);
    let budget = h.config.max_context_tokens as nat;
    lemma_fit(c, system, budget);
    if 0 <= k < h.messages.len() - h.cut().len() {
        laws::trim_drops_no_more_than_needed(h, k);
    }
}

proof fn lemma_fit(ms: Seq<MessageView>, system: nat, budget: nat)
    ensures
        lifecycle::token_trimmed(ms, system, budget).len() <= ms.len(),
        !lifecycle::over_budget(lifecycle::token_trimmed(ms, system, budget), system, budget),
    decreases ms.len(),
{
    if lifecycle::over_budget(ms, system, budget) {
        lemma_fit(ms.drop_first(), system, budget);
    }
}

/// A message that fits is added behind all the others, which stay as they
/// are.
pub proof fn fitting_message_is_added_behind(h: HistoryView, m: MessageView)
    requires
        h.messages.len() < h.config.max_messages,
        (HistoryView { messages: h.messages.push(m), ..h }).total_tokens()
            <= h.config.max_context_tokens || h.messages.len() < 10,
        h.messages.len() > 0 ==> !answers_calls(h.messages[0]),
        h.messages.len() == 0 ==> !answers_calls(m),
    ensures
        h.added(m).messages == h.messages.push(m),
        h.added(m).system == h.system,
        h.added(m).config == h.config,
{
    let with = HistoryView { messages: h.messages.push(m), ..h };
    assert(with.cut() == with.messages);
    lemma_strip(with.cut());
    assert(answers_calls(with.messages[0]) == lifecycle::leading_orphan(with.messages));
}

/// A text added to the last turn comes behind its other blocks; no other
/// turn changes.
pub proof fn text_is_added_to_the_last_turn(h: HistoryView, said: Seq<char>)
    requires
        h.messages.len() > 0,
        h.messages.last().role == "user"@,
        h.messages.last().content is Blocks,
    ensures
        h.ends_with_user_blocks(),
        ({
            let now = h.extended(said).messages;
            let last = h.messages.last();
            &&& now.len() == h.messages.len()
            &&& now.drop_last() == h.messages.drop_last()
            &&& now.last().role == last.role
            &&& now.last().content is Blocks
            &&& now.last().content->Blocks_content.len() == last.content->Blocks_content.len() + 1
            &&& now.last().content->Blocks_content.drop_last() == last.content->Blocks_content
            &&& now.last().content->Blocks_content.last() == BlockView {
                body: BodyView::Text { text: said },
                cache: None,
            }
        }),
{
    let now = h.extended(said).messages;
    assert(now.drop_last() =~= h.messages.drop_last());
    let blocks = h.messages.last().content->Blocks_content;
    assert(now.last().content->Blocks_content.drop_last() =~= blocks);
}

/// A restored conversation that ends in the middle of a tool call loses the
/// parts of that call from its last turn and nothing else; a turn that was
/// made of them alone says that it was interrupted.
pub proof fn restoring_loses_only_the_open_call(ms: Seq<MessageView>)
    ensures
        ({
            let now = lifecycle::strip_trailing(ms);
            &&& now.len() == ms.len()
            &&& ms.len() > 0 ==> now.drop_last() == ms.drop_last()
            &&& ms.len() > 0 && !(ms.last().role == "assistant"@ && ms.last().content is Blocks)
                ==> now == ms
            &&& ms.len() > 0 && ms.last().role == "assistant"@ && ms.last().content is Blocks ==> {
                let blocks = ms.last().content->Blocks_content;
                let kept = without_steps(blocks);
                &&& now.last().role == ms.last().role
                &&& now.last().content is Blocks
                &&& kept.len() > 0 ==> now.last().content->Blocks_content == kept
                &&& kept.len() == 0 && blocks.len() > 0 ==> now.last().content->Blocks_content
                    == seq![
                    BlockView {
                        body: BodyView::Text { text: "[Tool call interrupted before execution]"@ },
                        cache: None,
                    },
                ]
            }
        }),
{
    let now = lifecycle::strip_trailing(ms);
    if ms.len() > 0 {
        assert(now.drop_last() =~= ms.drop_last());
        if ms.last().role == "assistant"@ && ms.last().content is Blocks {
            let blocks = ms.last().content->Blocks_content;
            lemma_without_steps(blocks);
            lemma_no_steps(blocks);
        }
    }
}

proof fn lemma_no_steps(v: Seq<BlockView>)
    ensures
        !lifecycle::any_call(v) ==> without_steps(v) == v,
        lifecycle::any_call(v) ==> without_steps(v).len() < v.len(),
        without_steps(v).len() <= v.len(),
    decreases v.len(),
{
    if v.len() > 0 {
        let t = v.drop_last();
        lemma_no_steps(t);
        assert(v =~= t.push(v.last()));
        if lifecycle::any_call(t) {
            let i = choose|i: int| 0 <= i < t.len() && (#[trigger] t[i]).body.is_tool_call();
            assert(v[i] == t[i]);
        }
        if v.last().body.is_tool_call() {
            assert(v[v.len() - 1].body.is_tool_call());
        } else if lifecycle::any_call(v) {
            let i = choose|i: int| 0 <= i < v.len() && (#[trigger] v[i]).body.is_tool_call();
            assert(t[i] == v[i]);
        }
    }
}

/// A conversation that is restored is the one that is given, without an open
/// call at its end, brought within the limits; what was there before is
/// gone.
pub proof fn restored_conversation_replaces_the_old(
    h: HistoryView,
    other: HistoryView,
    ms: Seq<MessageView>,
)
    requires
        other.config == h.config,
        other.system == h.system,
    ensures
        h.restored(ms).messages == other.restored(ms).messages,
        h.restored(ms).anchor == other.restored(ms).anchor,
        lost_leading_answers(
            h.restored(ms).messages,
            (HistoryView {
                messages: lifecycle::strip_trailing(ms),
                anchor: None,
                ..h
            }).cut(),
        ),
        h.restored(ms).system == h.system,
{
    let a = HistoryView { messages: lifecycle::strip_trailing(ms), anchor: None, ..h };
    let b = HistoryView { messages: lifecycle::strip_trailing(ms), anchor: None, ..other };
    assert(a.cut() == b.cut());
    trim_loses_only_orphaned_answers(a);
}

/// The distance of the second cache marker counts every block on the way
/// once; a turn made of one text counts for one.
pub proof fn distance_counts_blocks(ms: Seq<MessageView>, a: int, b: int, c: int)
    requires
        0 <= a <= b <= c <= ms.len(),
    ensures
        lifecycle::blocks_between(ms, a, c) == lifecycle::blocks_between(ms, a, b)
            + lifecycle::blocks_between(ms, b, c),
        a < ms.len() && ms[a].content is Text ==> lifecycle::blocks_between(ms, a, a + 1) == 1,
        a < ms.len() && ms[a].content is Blocks ==> lifecycle::blocks_between(ms, a, a + 1)
            == ms[a].content->Blocks_content.len(),
        lifecycle::blocks_between(ms, a, a) == 0,
    decreases b - a,
{
    if a < b {
        distance_counts_blocks(ms, a + 1, b, c);
    }
    assert(lifecycle::blocks_between(ms, a + 1, a + 1) == 0);
}

/// Wherever the second cache marker is placed, it is on a turn made of
/// blocks before the last one. Where it is more than eighteen blocks behind,
/// or cannot stay, it is placed as if there had been none.
pub proof fn far_marker_is_placed_anew(h: HistoryView)
    requires
        h.messages.len() <= usize::MAX,
    ensures
        h.anchored().anchor is Some ==> {
            let at = h.anchored().anchor->0;
            at + 1 < h.messages.len() && h.messages[at as int].content is Blocks
        },
        h.anchored().messages == h.messages,
        h.anchored().system == h.system,
        h.anchored().config == h.config,
        h.anchor is Some && h.anchor->0 + 1 < h.messages.len() && lifecycle::blocks_between(
            h.messages,
            h.anchor->0 as int,
            h.messages.len() - 1,
        ) > 18 ==> h.anchored().anchor == (HistoryView { anchor: None, ..h }).anchored().anchor,
        h.anchor is Some && (h.anchor->0 + 1 >= h.messages.len()
            || h.messages[h.anchor->0 as int].content is Text) ==> h.anchored().anchor == (
        HistoryView { anchor: None, ..h }).anchored().anchor,
        h.messages.len() < 2 ==> h.anchored().anchor is None,
{
    laws::anchored_is_valid(h);
}

/// The tool calls among some messages, by their names.
pub open spec fn calls_tool(ms: Seq<MessageView>, name: Seq<char>) -> bool {
    exists|i: int, j: int| #[trigger] calls_tool_at(ms, i, j, name)
}

pub open spec fn calls_tool_at(ms: Seq<MessageView>, i: int, j: int, name: Seq<char>) -> bool {
    0 <= i < ms.len() && ms[i].content is Blocks && 0 <= j < ms[i].content->Blocks_content.len()
        && (ms[i].content->Blocks_content[j].body matches BodyView::ToolUse { name: n, .. } && n
        == name)
}

/// Whether a tool call among some messages has the given path.
pub open spec fn names_file(ms: Seq<MessageView>, path: Seq<char>) -> bool {
    exists|i: int, j: int| #[trigger] names_file_at(ms, i, j, path)
}

pub open spec fn names_file_at(ms: Seq<MessageView>, i: int, j: int, path: Seq<char>) -> bool {
    0 <= i < ms.len() && ms[i].content is Blocks && 0 <= j < ms[i].content->Blocks_content.len()
        && (ms[i].content->Blocks_content[j].body matches BodyView::ToolUse { input, .. }
        && api::json_string_member(input, "path"@) == Some(path))
}

proof fn lemma_with_new(list: Seq<Seq<char>>, x: Seq<char>, y: Seq<char>)
    ensures
        drop_summary::with_new(list, x).contains(y) == (list.contains(y) || y == x),
        list.no_duplicates() ==> drop_summary::with_new(list, x).no_duplicates(),
        list.is_prefix_of(drop_summary::with_new(list, x)),
{
    let now = drop_summary::with_new(list, x);
    if !list.contains(x) {
        assert(now[list.len() as int] == x);
        if list.contains(y) {
            let i = choose|i: int| 0 <= i < list.len() && list[i] == y;
            assert(now[i] == y);
        }
        if now.contains(y) && y != x {
            let i = choose|i: int| 0 <= i < now.len() && now[i] == y;
            assert(list[i] == y);
        }
    }
}

/// Whether some of the first `n` blocks of a list call a tool of that name.
spec fn block_calls(v: Seq<BlockView>, n: int, name: Seq<char>) -> bool {
    exists|j: int|
        0 <= j < n && ((#[trigger] v[j]).body matches BodyView::ToolUse { name: x, .. } && x == name)
}

spec fn block_names(v: Seq<BlockView>, n: int, path: Seq<char>) -> bool {
    exists|j: int|
        0 <= j < n && ((#[trigger] v[j]).body matches BodyView::ToolUse { input, .. }
            && api::json_string_member(input, "path"@) == Some(path))
}

proof fn lemma_facts_of_blocks(f: FactsView, v: Seq<BlockView>, is_user: bool, x: Seq<char>)
    ensures
        ({
            let now = f.with_blocks(v, is_user);
            &&& now.tools.contains(x) == (f.tools.contains(x) || block_calls(v, v.len() as int, x))
            &&& now.files.contains(x) == (f.files.contains(x) || block_names(v, v.len() as int, x))
            &&& f.tools.no_duplicates() ==> now.tools.no_duplicates()
            &&& f.files.no_duplicates() ==> now.files.no_duplicates()
            &&& f.tools.is_prefix_of(now.tools)
            &&& f.files.is_prefix_of(now.files)
        }),
    decreases v.len(),
{
    if v.len() > 0 {
        let t = v.drop_last();
        let n = t.len() as int;
        lemma_facts_of_blocks(f, t, is_user, x);
        let before = f.with_blocks(t, is_user);
        if block_calls(t, n, x) {
            let j = choose|j: int|
                0 <= j < n && ((#[trigger] t[j]).body matches BodyView::ToolUse { name: y, .. } && y
                    == x);
            assert(v[j] == t[j]);
        }
        if block_names(t, n, x) {
            let j = choose|j: int|
                0 <= j < n && ((#[trigger] t[j]).body matches BodyView::ToolUse { input, .. }
                    && api::json_string_member(input, "path"@) == Some(x));
            assert(v[j] == t[j]);
        }
        if block_calls(v, n + 1, x) {
            let j = choose|j: int|
                0 <= j < n + 1 && ((#[trigger] v[j]).body matches BodyView::ToolUse { name: y, .. }
                    && y == x);
            if j < n {
                assert(v[j] == t[j]);
            }
        }
        if block_names(v, n + 1, x) {
            let j = choose|j: int|
                0 <= j < n + 1 && ((#[trigger] v[j]).body matches BodyView::ToolUse { input, .. }
                    && api::json_string_member(input, "path"@) == Some(x));
            if j < n {
                assert(v[j] == t[j]);
            }
        }
        assert(v[n] == v.last());
        match v.last().body {
            BodyView::ToolUse { name, input, .. } => {
                lemma_with_new(before.tools, name, x);
                match api::json_string_member(input, "path"@) {
                    Some(p) => {
                        lemma_with_new(before.files, p, x);
                    },
                    None => {},
                }
            },
            _ => {},
        }
    }
}

/// What is noted of dropped messages lists a tool exactly where one of them
/// called it, and a file exactly where a call named it, each once. What was
/// noted first stays first.
pub proof fn facts_list_what_was_used(ms: Seq<MessageView>, x: Seq<char>)
    ensures
        FactsView::of(ms).tools.contains(x) == calls_tool(ms, x),
        FactsView::of(ms).files.contains(x) == names_file(ms, x),
        FactsView::of(ms).tools.no_duplicates(),
        FactsView::of(ms).files.no_duplicates(),
        ms.len() > 0 ==> FactsView::of(ms.drop_last()).tools.is_prefix_of(FactsView::of(ms).tools),
        ms.len() > 0 ==> FactsView::of(ms.drop_last()).files.is_prefix_of(FactsView::of(ms).files),
    decreases ms.len(),
{
    if ms.len() > 0 {
        let t = ms.drop_last();
        let m = ms.last();
        facts_list_what_was_used(t, x);
        let before = FactsView::of(t);
        if m.content is Blocks {
            lemma_facts_of_blocks(before, m.content->Blocks_content, m.is_user(), x);
        }
        let n = t.len() as int;
        if calls_tool(t, x) {
            let (i, j) = choose|i: int, j: int| #[trigger] calls_tool_at(t, i, j, x);
            assert(calls_tool_at(ms, i, j, x));
        }
        if names_file(t, x) {
            let (i, j) = choose|i: int, j: int| #[trigger] names_file_at(t, i, j, x);
            assert(names_file_at(ms, i, j, x));
        }
        if calls_tool(ms, x) {
            let (i, j) = choose|i: int, j: int| #[trigger] calls_tool_at(ms, i, j, x);
            if i < n {
                assert(calls_tool_at(t, i, j, x));
            } else {
                assert(m.content->Blocks_content[j] == ms[i].content->Blocks_content[j]);
            }
        }
        if names_file(ms, x) {
            let (i, j) = choose|i: int, j: int| #[trigger] names_file_at(ms, i, j, x);
            if i < n {
                assert(names_file_at(t, i, j, x));
            } else {
                assert(m.content->Blocks_content[j] == ms[i].content->Blocks_content[j]);
            }
        }
        if m.content is Blocks {
            let v = m.content->Blocks_content;
            if block_calls(v, v.len() as int, x) {
                let j = choose|j: int|
                    0 <= j < v.len() && ((#[trigger] v[j]).body matches BodyView::ToolUse {
                        name: y,
                        ..
                    } && y == x);
                assert(calls_tool_at(ms, n, j, x));
            }
            if block_names(v, v.len() as int, x) {
                let j = choose|j: int|
                    0 <= j < v.len() && ((#[trigger] v[j]).body matches BodyView::ToolUse {
                        input,
                        ..
                    } && api::json_string_member(input, "path"@) == Some(x));
                assert(names_file_at(ms, n, j, x));
            }
        }
    } else {
        assert(!calls_tool(ms, x));
        assert(!names_file(ms, x));
    }
}

/// Only what the user said is listed as a request: each text that is not
/// blank, cut after a hundred bytes, in order.
pub proof fn requests_are_the_users(ms: Seq<MessageView>, role: Seq<char>, said: Seq<char>)
    ensures
        ({
            let before = FactsView::of(ms).topics;
            let plain = FactsView::of(
                ms.push(MessageView { role, content: ContentView::Text { content: said } }),
            ).topics;
            let block = FactsView::of(
                ms.push(
                    MessageView {
                        role,
                        content: ContentView::Blocks {
                            content: seq![
                                BlockView { body: BodyView::Text { text: said }, cache: None },
                            ],
                        },
                    },
                ),
            ).topics;
            &&& block == plain
            &&& role != "user"@ ==> plain == before
            &&& role == "user"@ && utf8::encode_utf8(said).len() <= 100 && text::trimmed(said).len()
                > 0 ==> plain == before.push(said)
            &&& role == "user"@ && text::trimmed(said).len() == 0 && utf8::encode_utf8(said).len()
                <= 100 ==> plain == before
            &&& role == "user"@ && utf8::encode_utf8(said).len() > 100 ==> exists|n: int|
                0 <= n < said.len() && plain == before.push(#[trigger] said.take(n) + "..."@)
                    && utf8::encode_utf8(said.take(n)).len() <= 100 && utf8::encode_utf8(
                    said.take(n + 1),
                ).len() > 100
        }),
{
    let plain = MessageView { role, content: ContentView::Text { content: said } };
    let one = BlockView { body: BodyView::Text { text: said }, cache: None };
    let block = MessageView { role, content: ContentView::Blocks { content: seq![one] } };
    let before = FactsView::of(ms);
    assert(ms.push(plain).drop_last() =~= ms);
    assert(ms.push(block).drop_last() =~= ms);
    assert(seq![one].drop_last() =~= Seq::<BlockView>::empty());
    assert(before.with_blocks(seq![one].drop_last(), block.is_user()) == before);
    assert(before.with_blocks(seq![one], block.is_user()) == before.with_block(
        one.body,
        block.is_user(),
    ));
    let n = super::compaction_laws::preview_is_the_start(said, 100);
    if utf8::encode_utf8(said).len() > 100 {
        let cut = said.take(n) + "..."@;
        reveal_strlit("...");
        let ends = text_laws::trimming_takes_only_the_margins(cut);
        assert(cut[cut.len() - 1] == '.');
        text_laws::white_space_in_ascii('.');
        assert(text::trimmed(cut).len() > 0) by {
            if text::trimmed(cut).len() == 0 {
                assert(text::is_white(cut[cut.len() - 1]));
            }
        }
    }
}

/// The summary of what was dropped lists at most the first five requests,
/// all tools and at most the first twenty files, each kind on a line of its
/// own where there is any.
pub proof fn summary_lists_each_kind_on_a_line(f: FactsView)
    ensures
        ({
            let asked = if f.topics.len() > 5 {
                f.topics.take(5)
            } else {
                f.topics
            };
            let named = if f.files.len() > 20 {
                f.files.take(20)
            } else {
                f.files
            };
            let a = "User requests: "@ + text::joined(asked, " | "@);
            let b = "Tools used: "@ + text::joined(f.tools, ", "@);
            let c = "Files: "@ + text::joined(named, ", "@);
            let x = f.topics.len() > 0;
            let y = f.tools.len() > 0;
            let z = f.files.len() > 0;
            &&& x && y && z ==> f.rendered() == a + "\n"@ + b + "\n"@ + c
            &&& x && y && !z ==> f.rendered() == a + "\n"@ + b
            &&& x && !y && z ==> f.rendered() == a + "\n"@ + c
            &&& x && !y && !z ==> f.rendered() == a
            &&& !x && y && z ==> f.rendered() == b + "\n"@ + c
            &&& !x && y && !z ==> f.rendered() == b
            &&& !x && !y && z ==> f.rendered() == c
            &&& !x && !y && !z ==> f.rendered().len() == 0
        }),
{
    reveal_with_fuel(text::joined, 4);
    let lines = f.lines();
    if lines.len() == 3 {
        assert(lines.drop_last() =~= seq![lines[0], lines[1]]);
        assert(lines.drop_last().drop_last() =~= seq![lines[0]]);
    }
    if lines.len() == 2 {
        assert(lines.drop_last() =~= seq![lines[0]]);
    }
}

/// Where a trim drops five messages or more of a history of more than ten,
/// a note of the user's takes their place: it says how many went and what
/// they were about. The messages that are left follow it.
pub proof fn note_takes_the_place_of_what_went(h: HistoryView, summary: Seq<char>)
    ensures
        summary.len() == 0 ==> h.trimmed_with_note(summary) == h.trimmed(),
        summary.len() > 0 ==> {
            let now = h.trimmed_with_note(summary).messages;
            let gone = (h.messages.len() - h.trimmed().messages.len()) as nat;
            &&& now.len() == h.trimmed().messages.len() + 1
            &&& now.drop_first() == h.trimmed().messages
            &&& now[0].role == "user"@
            &&& now[0].content == (ContentView::Text {
                content: "[Context trimmed — "@ + text::decimal_of(gone)
                    + " earlier messages dropped]\n\n"@ + summary,
            })
        },
        h.messages.len() - h.cut().len() < 5 || h.messages.len() <= 10 ==> h.cut_summary().len()
            == 0,
        h.messages.len() - h.cut().len() >= 5 && h.messages.len() > 10 ==> h.cut_summary()
            == FactsView::of(h.messages.take(h.messages.len() - h.cut().len())).rendered(),
{
    if summary.len() > 0 {
        assert(h.trimmed_with_note(summary).messages.drop_first() =~= h.trimmed().messages);
    }
}

/// A conversation is compacted where its estimate exceeds the limit, and
/// then only; one message more never takes it back below.
pub proof fn compaction_is_due_above_the_limit(h: HistoryView, m: MessageView)
    ensures
        h.over_compaction_limit() == (h.total_tokens() > h.config.auto_compact_token_limit),
        h.over_compaction_limit() ==> (HistoryView {
            messages: h.messages.push(m),
            ..h
        }).over_compaction_limit(),
{
    laws::estimate_grows_with_the_history(h, m);
}

} // verus!
