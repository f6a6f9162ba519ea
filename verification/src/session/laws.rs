//! What holds of stored sessions whatever is stored or deleted.

use super::history;
use super::model::{MetadataView, SessionTokenCounters, SessionView};
use super::selector;
use crate::api::{BlockView, BodyView, ContentView, MessageView, Usage};
use crate::text;
use crate::text_laws;
use vstd::prelude::*;

verus! {

/// Whether a list starts with the most recent entries.
pub open spec fn most_recent_first(v: Seq<MetadataView>) -> bool {
    forall|i: int, j: int|
        0 <= i < j < v.len() ==> (#[trigger] v[i]).updated_at >= (#[trigger] v[j]).updated_at
}

/// Whether no two entries have the same name.
pub open spec fn distinct_ids(v: Seq<MetadataView>) -> bool {
    forall|i: int, j: int|
        0 <= i < j < v.len() ==> (#[trigger] v[i]).id != (#[trigger] v[j]).id
}

proof fn lemma_recent_count(v: Seq<MetadataView>, time: u64)
    requires
        most_recent_first(v),
    ensures
        history::recent_count(v, time) <= v.len(),
        forall|i: int|
            0 <= i < history::recent_count(v, time) ==> (#[trigger] v[i]).updated_at >= time,
        forall|i: int|
            history::recent_count(v, time) <= i < v.len() ==> (#[trigger] v[i]).updated_at < time,
    decreases v.len(),
{
    if v.len() > 0 && v[0].updated_at >= time {
        let rest = v.drop_first();
        lemma_recent_count(rest, time);
        let n = history::recent_count(rest, time);
        assert forall|i: int| 0 <= i < n + 1 implies (#[trigger] v[i]).updated_at >= time by {
            if i > 0 {
                assert(rest[i - 1] == v[i]);
            }
        }
        assert forall|i: int| n + 1 <= i < v.len() implies (#[trigger] v[i]).updated_at < time by {
            assert(rest[i - 1] == v[i]);
        }
    }
}

/// The list of sessions starts with the most recent ones and holds exactly
/// the entries that it was made from.
pub proof fn index_is_sorted_and_complete(v: Seq<MetadataView>)
    ensures
        most_recent_first(history::by_recency(v)),
        history::by_recency(v).to_multiset() == v.to_multiset(),
        history::by_recency(v).len() == v.len(),
    decreases v.len(),
{
    broadcast use vstd::seq_lib::group_to_multiset_ensures;

    if v.len() > 0 {
        index_is_sorted_and_complete(v.drop_last());
        let before = history::by_recency(v.drop_last());
        let m = v.last();
        let at = history::recent_count(before, m.updated_at) as int;
        lemma_recent_count(before, m.updated_at);
        let now = before.insert(at, m);
        assert forall|i: int, j: int| 0 <= i < j < now.len() implies (#[trigger] now[i]).updated_at
            >= (#[trigger] now[j]).updated_at by {
            let x = if i < at {
                before[i]
            } else if i == at {
                m
            } else {
                before[i - 1]
            };
            let y = if j < at {
                before[j]
            } else if j == at {
                m
            } else {
                before[j - 1]
            };
            assert(now[i] == x && now[j] == y);
        }
        assert(v =~= v.drop_last().push(m));
        before.insert_ensures(at, m);
        vstd::seq_lib::to_multiset_insert(before, at, m);
    }
}

/// Storing a session puts it into the list once, and leaves the entries of
/// all others alone.
pub proof fn storing_touches_one_entry(v: Seq<MetadataView>, m: MetadataView)
    requires
        distinct_ids(v),
    ensures
        distinct_ids(history::upserted(v, m)),
        history::upserted(v, m).contains(m),
        forall|e: MetadataView|
            e.id != m.id ==> (#[trigger] history::upserted(v, m).contains(e) == v.contains(e)),
    decreases v.len(),
{
    let u = history::upserted(v, m);
    if v.len() == 0 {
        assert(u[0] == m);
        assert forall|e: MetadataView| e.id != m.id implies (#[trigger] u.contains(e) == v.contains(
            e,
        )) by {}
    } else if v[0].id == m.id {
        assert(u[0] == m);
        assert forall|e: MetadataView| e.id != m.id implies (#[trigger] u.contains(e) == v.contains(
            e,
        )) by {
            if v.contains(e) {
                let i = choose|i: int| 0 <= i < v.len() && v[i] == e;
                assert(u[i] == e);
            }
            if u.contains(e) {
                let i = choose|i: int| 0 <= i < u.len() && u[i] == e;
                assert(v[i] == e);
            }
        }
    } else {
        let rest = v.drop_first();
        let w = history::upserted(rest, m);
        assert forall|i: int, j: int| 0 <= i < j < rest.len() implies (#[trigger] rest[i]).id != (
        #[trigger] rest[j]).id by {
            assert(v[i + 1].id != v[j + 1].id);
        }
        storing_touches_one_entry(rest, m);
        assert(u =~= seq![v[0]] + w);
        assert forall|i: int, j: int| 0 <= i < j < u.len() implies (#[trigger] u[i]).id != (
        #[trigger] u[j]).id by {
            if i == 0 {
                let e = w[j - 1];
                assert(u[j] == e);
                assert(w.contains(e));
                if e.id == v[0].id {
                    assert(rest.contains(e));
                    let k = choose|k: int| 0 <= k < rest.len() && rest[k] == e;
                    assert(v[k + 1] == e);
                    assert(v[0].id != v[k + 1].id);
                }
            } else {
                assert(u[i] == w[i - 1] && u[j] == w[j - 1]);
            }
        }
        let k = choose|k: int| 0 <= k < w.len() && w[k] == m;
        assert(u[k + 1] == m);
        assert forall|e: MetadataView| e.id != m.id implies (#[trigger] u.contains(e) == v.contains(
            e,
        )) by {
            assert(w.contains(e) == rest.contains(e));
            if v.contains(e) {
                let i = choose|i: int| 0 <= i < v.len() && v[i] == e;
                if i == 0 {
                    assert(u[0] == e);
                } else {
                    assert(rest[i - 1] == e);
                    let j = choose|j: int| 0 <= j < w.len() && w[j] == e;
                    assert(u[j + 1] == e);
                }
            }
            if u.contains(e) {
                let i = choose|i: int| 0 <= i < u.len() && u[i] == e;
                if i == 0 {
                    assert(v[0] == e);
                } else {
                    assert(w[i - 1] == e);
                    let j = choose|j: int| 0 <= j < rest.len() && rest[j] == e;
                    assert(v[j + 1] == e);
                }
            }
        }
    }
}

/// Deleting a session takes its entry out of the list and no other.
pub proof fn deleting_removes_one_name(v: Seq<MetadataView>, id: Seq<char>, e: MetadataView)
    ensures
        history::without_id(v, id).contains(e) == (v.contains(e) && e.id != id),
    decreases v.len(),
{
    reveal(Seq::filter);
    let w = history::without_id(v, id);
    if v.len() > 0 {
        deleting_removes_one_name(v.drop_last(), id, e);
        let before = history::without_id(v.drop_last(), id);
        assert(v =~= v.drop_last().push(v.last()));
        if v.last().id != id {
            assert(w == before.push(v.last()));
            if before.contains(e) {
                let i = choose|i: int| 0 <= i < before.len() && before[i] == e;
                assert(w[i] == e);
            }
            if e == v.last() {
                assert(w[w.len() - 1] == e);
            }
            if w.contains(e) {
                let i = choose|i: int| 0 <= i < w.len() && w[i] == e;
                if i < before.len() {
                    assert(before[i] == e);
                }
            }
        }
        if v.contains(e) {
            let i = choose|i: int| 0 <= i < v.len() && v[i] == e;
            if i < v.len() - 1 {
                assert(v.drop_last()[i] == e);
            }
        }
        if v.drop_last().contains(e) {
            let i = choose|i: int| 0 <= i < v.drop_last().len() && v.drop_last()[i] == e;
            assert(v[i] == e);
        }
        if e == v.last() {
            assert(v[v.len() - 1] == e);
        }
    }
}

/// A preview is never longer than the list of sessions has room for, and
/// never empty.
pub proof fn preview_is_short(ms: Seq<MessageView>)
    ensures
        0 < history::preview_of(ms).len() <= history::MAX_PREVIEW_LENGTH + 3,
    decreases ms.len(),
{
    reveal_strlit("Empty session");
    reveal_strlit("...");
    if ms.len() > 0 {
        preview_is_short(ms.drop_first());
    }
}

proof fn lemma_decimal_has_no_separator(n: nat)
    ensures
        !text::decimal_of(n).contains('/'),
        !text::decimal_of(n).contains('\\'),
    decreases n,
{
    let s = text::decimal_of(n);
    if n >= 10 {
        lemma_decimal_has_no_separator(n / 10);
        let before = text::decimal_of(n / 10);
        assert forall|i: int| 0 <= i < s.len() implies s[i] != '/' && s[i] != '\\' by {
            if i < before.len() {
                assert(s[i] == before[i]);
                assert(before.contains(before[i]));
            }
        }
    }
}

proof fn lemma_hex_has_no_separator(n: nat, width: nat)
    ensures
        !text::hex_of(n, width).contains('/'),
        !text::hex_of(n, width).contains('\\'),
    decreases width,
{
    let s = text::hex_of(n, width);
    if width > 0 {
        lemma_hex_has_no_separator(n / 16, (width - 1) as nat);
        let before = text::hex_of(n / 16, (width - 1) as nat);
        assert forall|i: int| 0 <= i < s.len() implies s[i] != '/' && s[i] != '\\' by {
            if i < before.len() {
                assert(s[i] == before[i]);
                assert(before.contains(before[i]));
            }
        }
    }
}

/// Every name that is made for a session can name one.
pub proof fn generated_names_are_valid(id: Seq<char>)
    requires
        history::is_generated(id),
    ensures
        history::valid_id(id),
{
    let (millis, n) = choose|millis: u128, n: u32| id == #[trigger] history::session_id_of(millis, n);
    let a = text::decimal_of(millis as nat);
    let b = text::hex_of(n as nat, 8);
    lemma_decimal_has_no_separator(millis as nat);
    lemma_hex_has_no_separator(n as nat, 8);
    reveal_strlit("session_");
    reveal_strlit("_");
    reveal_strlit(".");
    reveal_strlit("..");
    assert(id.len() >= 8);
    assert forall|i: int| 0 <= i < id.len() implies id[i] != '/' && id[i] != '\\' by {
        if i < 8 {
            assert(id[i] == "session_"@[i]);
        } else if i < 8 + a.len() {
            assert(id[i] == a[i - 8]);
            assert(a.contains(a[i - 8]));
        } else if i < 9 + a.len() {
            assert(id[i] == "_"@[i - 8 - a.len()]);
        } else {
            assert(id[i] == b[i - 9 - a.len()]);
            assert(b.contains(b[i - 9 - a.len()]));
        }
    }
}

/// Whether a text is the first one that a turn holds.
pub open spec fn opens_with(m: MessageView, said: Seq<char>) -> bool {
    match m.content {
        ContentView::Text { content } => content == said,
        ContentView::Blocks { content } => exists|k: int|
            0 <= k < content.len() && (#[trigger] content[k]).body == (BodyView::Text {
                text: said,
            }) && forall|j: int| 0 <= j < k ==> !((#[trigger] content[j]).body is Text),
    }
}

/// Whether a turn says nothing: its first text is blank, or it has none.
pub open spec fn says_nothing(m: MessageView) -> bool {
    forall|said: Seq<char>| #[trigger] opens_with(m, said) ==> text::trimmed(said).len() == 0
}

/// Whether a turn does not count for the preview of its conversation.
pub open spec fn is_passed_over(m: MessageView) -> bool {
    m.role != "user"@ || says_nothing(m)
}

proof fn lemma_first_text(blocks: Seq<BlockView>)
    ensures
        (exists|k: int|
            0 <= k < blocks.len() && (#[trigger] blocks[k]).body == (BodyView::Text {
                text: history::first_text(blocks),
            }) && forall|j: int| 0 <= j < k ==> !((#[trigger] blocks[j]).body is Text)) || (
        history::first_text(blocks).len() == 0 && forall|j: int|
            0 <= j < blocks.len() ==> !((#[trigger] blocks[j]).body is Text)),
    decreases blocks.len(),
{
    if blocks.len() > 0 && !(blocks[0].body is Text) {
        let rest = blocks.drop_first();
        lemma_first_text(rest);
        if exists|k: int|
            0 <= k < rest.len() && (#[trigger] rest[k]).body == (BodyView::Text {
                text: history::first_text(rest),
            }) && forall|j: int| 0 <= j < k ==> !((#[trigger] rest[j]).body is Text) {
            let k = choose|k: int|
                0 <= k < rest.len() && (#[trigger] rest[k]).body == (BodyView::Text {
                    text: history::first_text(rest),
                }) && forall|j: int| 0 <= j < k ==> !((#[trigger] rest[j]).body is Text);
            assert(blocks[k + 1] == rest[k]);
            assert forall|j: int| 0 <= j < k + 1 implies !((#[trigger] blocks[j]).body is Text) by {
                if j > 0 {
                    assert(rest[j - 1] == blocks[j]);
                }
            }
        } else {
            assert forall|j: int| 0 <= j < blocks.len() implies !((
            #[trigger] blocks[j]).body is Text) by {
                if j > 0 {
                    assert(rest[j - 1] == blocks[j]);
                }
            }
        }
    } else if blocks.len() > 0 {
        assert(blocks[0].body == (BodyView::Text { text: history::first_text(blocks) }));
    }
}

proof fn lemma_lead(m: MessageView, said: Seq<char>)
    ensures
        opens_with(m, said) ==> history::lead_text(m) == said,
        says_nothing(m) == (text::trimmed(history::lead_text(m)).len() == 0),
{
    let lead = history::lead_text(m);
    if m.content is Blocks {
        let blocks = m.content->Blocks_content;
        lemma_first_text(blocks);
        if opens_with(m, lead) {
            let k = choose|k: int|
                0 <= k < blocks.len() && (#[trigger] blocks[k]).body == (BodyView::Text {
                    text: lead,
                }) && forall|j: int| 0 <= j < k ==> !((#[trigger] blocks[j]).body is Text);
            assert forall|other: Seq<char>| #[trigger] opens_with(m, other) implies other == lead by {
                let n = choose|n: int|
                    0 <= n < blocks.len() && (#[trigger] blocks[n]).body == (BodyView::Text {
                        text: other,
                    }) && forall|j: int| 0 <= j < n ==> !((#[trigger] blocks[j]).body is Text);
                assert(blocks[k].body is Text && blocks[n].body is Text);
                assert(n == k);
            }
        } else {
            assert(lead.len() == 0);
            assert(text::trimmed(lead).len() == 0) by {
                let ends = text_laws::trimming_takes_only_the_margins(lead);
            }
            assert forall|other: Seq<char>| !(#[trigger] opens_with(m, other)) by {}
        }
    } else {
        assert(opens_with(m, lead));
    }
}

/// The preview of a conversation is the first thing that the user said,
/// without the blanks around it: all of it up to a hundred and twenty
/// characters, and of more the first hundred and twenty with three dots
/// behind them.
pub proof fn preview_is_the_start_of_what_was_said(
    ms: Seq<MessageView>,
    i: int,
    said: Seq<char>,
)
    requires
        0 <= i < ms.len(),
        ms[i].role == "user"@,
        opens_with(ms[i], said),
        text::trimmed(said).len() > 0,
        forall|j: int| 0 <= j < i ==> is_passed_over(#[trigger] ms[j]),
    ensures
        ({
            let shown = history::preview_of(ms);
            let all = text::trimmed(said);
            &&& all.len() <= 120 ==> shown == all
            &&& all.len() > 120 ==> shown.len() == 123 && shown.take(120) == all.take(120)
                && shown.skip(120) == "..."@
        }),
    decreases i,
{
    lemma_lead(ms[0], said);
    if i == 0 {
        let all = text::trimmed(said);
        reveal_strlit("...");
        if all.len() > 120 {
            let shown = history::preview_of(ms);
            assert(shown.take(120) =~= all.take(120));
            assert(shown.skip(120) =~= "..."@);
        }
    } else {
        assert(is_passed_over(ms[0]));
        let rest = ms.drop_first();
        assert forall|j: int| 0 <= j < i - 1 implies is_passed_over(#[trigger] rest[j]) by {
            assert(is_passed_over(ms[j + 1]));
        }
        preview_is_the_start_of_what_was_said(rest, i - 1, said);
    }
}

/// A conversation in which the user said nothing is shown as empty.
pub proof fn silent_conversation_is_shown_as_empty(ms: Seq<MessageView>)
    requires
        forall|j: int| 0 <= j < ms.len() ==> is_passed_over(#[trigger] ms[j]),
    ensures
        history::preview_of(ms) == "Empty session"@,
    decreases ms.len(),
{
    if ms.len() > 0 {
        assert(is_passed_over(ms[0]));
        lemma_lead(ms[0], Seq::empty());
        let rest = ms.drop_first();
        assert forall|j: int| 0 <= j < rest.len() implies is_passed_over(#[trigger] rest[j]) by {
            assert(is_passed_over(ms[j + 1]));
        }
        silent_conversation_is_shown_as_empty(rest);
    }
}

/// The entry of a session names it, counts its messages and keeps both its
/// times apart.
pub proof fn entry_tells_of_its_session(s: SessionView)
    ensures
        history::entry_of(s).id == s.id,
        history::entry_of(s).created_at == s.created_at,
        history::entry_of(s).updated_at == s.updated_at,
        history::entry_of(s).message_count == s.api_messages.len(),
        history::entry_of(s).preview == history::preview_of(s.api_messages),
{
}

/// Storing a session moves no other entry: its own is replaced where it
/// stands, and a new one comes last.
pub proof fn storing_moves_no_entry(v: Seq<MetadataView>, m: MetadataView)
    requires
        distinct_ids(v),
    ensures
        ({
            let u = history::upserted(v, m);
            let known = exists|i: int| 0 <= i < v.len() && (#[trigger] v[i]).id == m.id;
            &&& known ==> u.len() == v.len()
            &&& !known ==> u == v.push(m)
            &&& forall|i: int|
                0 <= i < v.len() ==> (#[trigger] u[i]) == (if v[i].id == m.id {
                    m
                } else {
                    v[i]
                })
        }),
    decreases v.len(),
{
    let u = history::upserted(v, m);
    if v.len() == 0 {
        assert(u =~= v.push(m));
    } else if v[0].id == m.id {
        assert forall|i: int| 0 < i < v.len() implies (#[trigger] v[i]).id != m.id by {
            assert(v[0].id != v[i].id);
        }
    } else {
        let rest = v.drop_first();
        assert forall|i: int, j: int| 0 <= i < j < rest.len() implies (#[trigger] rest[i]).id != (
        #[trigger] rest[j]).id by {
            assert(v[i + 1].id != v[j + 1].id);
        }
        storing_moves_no_entry(rest, m);
        let w = history::upserted(rest, m);
        let rest_known = exists|i: int| 0 <= i < rest.len() && (#[trigger] rest[i]).id == m.id;
        let known = exists|i: int| 0 <= i < v.len() && (#[trigger] v[i]).id == m.id;
        if rest_known {
            let i = choose|i: int| 0 <= i < rest.len() && (#[trigger] rest[i]).id == m.id;
            assert(v[i + 1].id == m.id);
        }
        if known {
            let i = choose|i: int| 0 <= i < v.len() && (#[trigger] v[i]).id == m.id;
            assert(rest[i - 1].id == m.id);
        }
        assert(u =~= seq![v[0]] + w);
        assert forall|i: int| 0 <= i < v.len() implies (#[trigger] u[i]) == (if v[i].id == m.id {
            m
        } else {
            v[i]
        }) by {
            if i > 0 {
                assert(u[i] == w[i - 1]);
                assert(rest[i - 1] == v[i]);
            }
        }
        if !known {
            assert(u =~= v.push(m));
        }
    }
}

/// Entries of the same time keep their order.
pub proof fn entries_of_one_time_keep_their_order(v: Seq<MetadataView>, time: u64)
    ensures
        history::by_recency(v).filter(|m: MetadataView| m.updated_at == time) == v.filter(
            |m: MetadataView| m.updated_at == time,
        ),
    decreases v.len(),
{
    let of_then = |m: MetadataView| m.updated_at == time;
    if v.len() > 0 {
        entries_of_one_time_keep_their_order(v.drop_last(), time);
        index_is_sorted_and_complete(v.drop_last());
        let before = history::by_recency(v.drop_last());
        let m = v.last();
        let at = history::recent_count(before, m.updated_at) as int;
        lemma_recent_count(before, m.updated_at);
        let first = before.take(at);
        let later = before.skip(at);
        assert(before =~= first + later);
        assert(before.insert(at, m) =~= first.push(m) + later);
        Seq::filter_distributes_over_add(first, later, of_then);
        Seq::filter_distributes_over_add(first.push(m), later, of_then);
        first.lemma_filter_push(m, of_then);
        v.drop_last().lemma_filter_push(m, of_then);
        assert(v =~= v.drop_last().push(m));
        if m.updated_at == time {
            assert forall|i: int| 0 <= i < later.len() implies !of_then(#[trigger] later[i]) by {
                assert(later[i] == before[at + i]);
            }
            lemma_filter_of_none(later, of_then);
            assert(first.filter(of_then) + later.filter(of_then) =~= first.filter(of_then));
            assert(first.filter(of_then).push(m) + later.filter(of_then) =~= first.filter(
                of_then,
            ).push(m));
        }
    }
}

proof fn lemma_filter_of_none(v: Seq<MetadataView>, p: spec_fn(MetadataView) -> bool)
    requires
        forall|i: int| 0 <= i < v.len() ==> !p(#[trigger] v[i]),
    ensures
        v.filter(p) == Seq::<MetadataView>::empty(),
    decreases v.len(),
{
    reveal(Seq::filter);
    if v.len() > 0 {
        assert forall|i: int| 0 <= i < v.drop_last().len() implies !p(
            #[trigger] v.drop_last()[i],
        ) by {
            assert(v.drop_last()[i] == v[i]);
        }
        assert(!p(v[v.len() - 1]));
        lemma_filter_of_none(v.drop_last(), p);
    }
}

/// A name with a separator in it, no name, and the two names that stand for
/// directories name no session; every other text can.
pub proof fn names_stay_in_the_directory(a: Seq<char>, b: Seq<char>, id: Seq<char>)
    ensures
        !history::valid_id(a + seq!['/'] + b),
        !history::valid_id(a + seq!['\\'] + b),
        !history::valid_id(Seq::empty()),
        !history::valid_id("."@),
        !history::valid_id(".."@),
        id.len() > 0 && id != "."@ && id != ".."@ && (forall|i: int|
            0 <= i < id.len() ==> (#[trigger] id[i]) != '/' && id[i] != '\\') ==> history::valid_id(
            id,
        ),
{
    assert((a + seq!['/'] + b)[a.len() as int] == '/');
    assert((a + seq!['\\'] + b)[a.len() as int] == '\\');
}

/// The file of a session is in the directory of sessions, under the name of
/// the session; that directory is below the workspace.
pub proof fn files_are_below_the_workspace(w: Seq<char>, part: Seq<char>)
    ensures
        w.len() > 0 && w.last() != '/' ==> history::below(w, part) == w + "/"@ + part,
        w.len() > 0 && w.last() == '/' ==> history::below(w, part) == w + part,
        w.len() == 0 ==> history::below(w, part) == part,
        history::below(history::below(w, ".sofos"@), "sessions"@) == history::below(
            w,
            ".sofos/sessions"@,
        ),
{
    reveal_strlit("/");
    reveal_strlit(".sofos");
    reveal_strlit("sessions");
    reveal_strlit(".sofos/sessions");
    assert("/"@ =~= seq!['/']);
    assert(".sofos"@ + seq!['/'] + "sessions"@ =~= ".sofos/sessions"@);
    let inner = history::below(w, ".sofos"@);
    assert(inner.last() == ".sofos"@.last());
    assert(inner.last() == 's');
    if w.len() == 0 {
        assert(w + part =~= part);
        assert(w + ".sofos"@ =~= ".sofos"@);
        assert(w + ".sofos/sessions"@ =~= ".sofos/sessions"@);
    } else {
        assert(history::below(inner, "sessions"@) =~= history::below(w, ".sofos/sessions"@));
    }
}

/// A name tells when its session started and which number it drew: names of
/// other times or numbers differ.
pub proof fn names_tell_sessions_apart(a: u128, m: u32, b: u128, n: u32)
    requires
        history::session_id_of(a, m) == history::session_id_of(b, n),
    ensures
        a == b,
        m == n,
{
    let x = text::decimal_of(a as nat);
    let y = text::decimal_of(b as nat);
    let g = text::hex_of(m as nat, 8);
    let h = text::hex_of(n as nat, 8);
    text_laws::decimal_notation_stands_for_the_number(a as nat);
    text_laws::decimal_notation_stands_for_the_number(b as nat);
    text_laws::hexadecimal_notation_stands_for_the_number(m as nat, 8);
    text_laws::hexadecimal_notation_stands_for_the_number(n as nat, 8);
    reveal_strlit("session_");
    reveal_strlit("_");
    let s = history::session_id_of(a, m);
    assert(s.len() == 8 + x.len() + 1 + 8);
    assert(x.len() == y.len());
    let end = 8 + x.len() as int;
    assert(s.subrange(8, end) =~= x);
    assert(s.subrange(8, end) =~= y);
    assert(s.skip(end + 1) =~= g);
    assert(s.skip(end + 1) =~= h);
    assert(vstd::arithmetic::power::pow(16, 8) == 0x1_0000_0000) by {
        reveal_with_fuel(vstd::arithmetic::power::pow, 9);
    }
    vstd::arithmetic::div_mod::lemma_small_mod(m as nat, 0x1_0000_0000);
    vstd::arithmetic::div_mod::lemma_small_mod(n as nat, 0x1_0000_0000);
}

/// A name starts with a fixed word and ends with eight digits.
pub proof fn names_have_one_form(a: u128, m: u32)
    ensures
        text::has_prefix(history::session_id_of(a, m), "session_"@),
        ({
            let s = history::session_id_of(a, m);
            &&& s == "session_"@ + text::decimal_of(a as nat) + "_"@ + s.skip(s.len() - 8)
            &&& text_laws::hex_value(s.skip(s.len() - 8)) == m
        }),
{
    let g = text::hex_of(m as nat, 8);
    let s = history::session_id_of(a, m);
    text_laws::hexadecimal_notation_stands_for_the_number(m as nat, 8);
    assert(s.skip(s.len() - 8) =~= g);
    assert(s.take("session_"@.len() as int) =~= "session_"@);
    assert(vstd::arithmetic::power::pow(16, 8) == 0x1_0000_0000) by {
        reveal_with_fuel(vstd::arithmetic::power::pow, 9);
    }
    vstd::arithmetic::div_mod::lemma_small_mod(m as nat, 0x1_0000_0000);
}

/// The first free name of a list is taken, and the last where none is free.
pub proof fn first_free_name_is_taken(names: Seq<Seq<char>>, taken: Seq<Seq<char>>, i: int)
    requires
        0 <= i < names.len(),
        forall|j: int| 0 <= j < i ==> taken.contains(#[trigger] names[j]),
        !taken.contains(names[i]) || i == names.len() - 1,
    ensures
        history::first_free(names, taken) == names[i],
    decreases i,
{
    if i > 0 {
        assert(taken.contains(names[0]));
        let rest = names.drop_first();
        assert forall|j: int| 0 <= j < i - 1 implies taken.contains(#[trigger] rest[j]) by {
            assert(taken.contains(names[j + 1]));
        }
        first_free_name_is_taken(rest, taken, i - 1);
    }
}

/// The instructions of a project come before those of the user, with a blank
/// line between them; one of them alone stands by itself.
pub proof fn instructions_are_combined_in_order(project: Seq<char>, personal: Seq<char>)
    ensures
        project.len() > 0 ==> history::combined(Some(project), Some(personal)) == Some(
            project + "\n\n"@ + personal,
        ),
        project.len() > 0 ==> history::combined(Some(project), None) == Some(project),
        personal.len() > 0 ==> history::combined(None, Some(personal)) == Some(personal),
        personal.len() > 0 ==> history::combined(Some(Seq::empty()), Some(personal)) == Some(
            personal,
        ),
        history::combined(None, None) is None,
        history::combined(Some(Seq::empty()), Some(Seq::empty())) is None,
{
}

/// A response adds to each counter what it used, up to the largest number;
/// the peak is the larger of what it was and of the response's input.
pub proof fn counters_add_up(c: SessionTokenCounters, usage: Usage)
    ensures
        ({
            let now = c.plus(usage);
            let read = match usage.cache_read_input_tokens {
                Some(n) => n,
                None => 0,
            };
            let made = match usage.cache_creation_input_tokens {
                Some(n) => n,
                None => 0,
            };
            &&& now.total_input_tokens < u32::MAX ==> now.total_input_tokens - c.total_input_tokens
                == usage.input_tokens
            &&& now.total_output_tokens < u32::MAX ==> now.total_output_tokens
                - c.total_output_tokens == usage.output_tokens
            &&& now.total_cache_read_tokens < u32::MAX ==> now.total_cache_read_tokens
                - c.total_cache_read_tokens == read
            &&& now.total_cache_creation_tokens < u32::MAX ==> now.total_cache_creation_tokens
                - c.total_cache_creation_tokens == made
            &&& c.total_input_tokens + usage.input_tokens <= u32::MAX ==> now.total_input_tokens
                - c.total_input_tokens == usage.input_tokens
            &&& c.total_output_tokens + usage.output_tokens <= u32::MAX ==> now.total_output_tokens
                - c.total_output_tokens == usage.output_tokens
            &&& c.total_cache_read_tokens + read <= u32::MAX ==> now.total_cache_read_tokens
                - c.total_cache_read_tokens == read
            &&& c.total_cache_creation_tokens + made <= u32::MAX
                ==> now.total_cache_creation_tokens - c.total_cache_creation_tokens == made
            &&& now.peak_single_turn_input_tokens >= usage.input_tokens
            &&& now.peak_single_turn_input_tokens >= c.peak_single_turn_input_tokens
            &&& now.peak_single_turn_input_tokens == usage.input_tokens
                || now.peak_single_turn_input_tokens == c.peak_single_turn_input_tokens
        }),
{
}

/// How long ago a session was used is told in the largest unit that has
/// passed at least once, as many whole ones as have passed; after a week
/// the day is told.
pub proof fn age_is_told_in_the_largest_unit(age: nat, date: Seq<char>, n: nat)
    ensures
        age < 60 ==> selector::age_text(age, date) == "just now"@,
        age >= 7 * 24 * 60 * 60 ==> selector::age_text(age, date) == date,
        n * 60 <= age < (n + 1) * 60 && 0 < n < 60 ==> selector::age_text(age, date) == (if n == 1 {
            text::decimal_of(n) + " min ago"@
        } else {
            text::decimal_of(n) + " mins ago"@
        }),
        n * 3600 <= age < (n + 1) * 3600 && 0 < n < 24 ==> selector::age_text(age, date) == (if n
            == 1 {
            text::decimal_of(n) + " hour ago"@
        } else {
            text::decimal_of(n) + " hours ago"@
        }),
        n * 86400 <= age < (n + 1) * 86400 && 0 < n < 7 ==> selector::age_text(age, date) == (if n
            == 1 {
            text::decimal_of(n) + " day ago"@
        } else {
            text::decimal_of(n) + " days ago"@
        }),
{
    reveal_strlit("");
    reveal_strlit("s");
    reveal_strlit(" ago");
    reveal_strlit(" min");
    reveal_strlit(" min ago");
    reveal_strlit(" mins ago");
    reveal_strlit(" hour");
    reveal_strlit(" hour ago");
    reveal_strlit(" hours ago");
    reveal_strlit(" day");
    reveal_strlit(" day ago");
    reveal_strlit(" days ago");
    let d = text::decimal_of(n);
    assert(d + " min"@ + ""@ + " ago"@ =~= d + " min ago"@);
    assert(d + " min"@ + "s"@ + " ago"@ =~= d + " mins ago"@);
    assert(d + " hour"@ + ""@ + " ago"@ =~= d + " hour ago"@);
    assert(d + " hour"@ + "s"@ + " ago"@ =~= d + " hours ago"@);
    assert(d + " day"@ + ""@ + " ago"@ =~= d + " day ago"@);
    assert(d + " day"@ + "s"@ + " ago"@ =~= d + " days ago"@);
    if n * 60 <= age < (n + 1) * 60 && 0 < n < 60 {
        assert(age / 60 == n);
    }
    if n * 3600 <= age < (n + 1) * 3600 && 0 < n < 24 {
        assert(age / 3600 == n);
    }
    if n * 86400 <= age < (n + 1) * 86400 && 0 < n < 7 {
        assert(age / 86400 == n);
    }
}

proof fn lemma_digit(c: char)
    ensures
        selector::is_digit(c) == (48 <= c as u32 <= 57),
        selector::is_digit(c) ==> selector::digit_value(c) == c as u32 - 48,
{
}

proof fn lemma_digits(s: Seq<char>)
    requires
        forall|i: int| 0 <= i < s.len() ==> 48 <= (#[trigger] s[i]) as u32 <= 57,
    ensures
        selector::all_digits(s),
        selector::digits_value(s) == text_laws::decimal_value(s),
    decreases s.len(),
{
    assert forall|i: int| 0 <= i < s.len() implies selector::is_digit(#[trigger] s[i]) by {
        lemma_digit(s[i]);
    }
    if s.len() > 0 {
        let t = s.drop_last();
        assert forall|i: int| 0 <= i < t.len() implies 48 <= (#[trigger] t[i]) as u32 <= 57 by {
            assert(t[i] == s[i]);
        }
        lemma_digits(t);
        assert(48 <= s[s.len() - 1] as u32 <= 57);
        lemma_digit(s.last());
    }
}

/// A row of digits is read as the number that it stands for, with or without
/// a plus sign before it. A number too large for the machine and a text with
/// any other character in it are not read.
pub proof fn digits_are_read_as_their_number(s: Seq<char>)
    ensures
        s.len() > 0 && (forall|i: int| 0 <= i < s.len() ==> 48 <= (#[trigger] s[i]) as u32 <= 57)
            ==> {
            let n = text_laws::decimal_value(s);
            &&& n <= usize::MAX ==> selector::parsed_number(s) == Some(n)
            &&& n > usize::MAX ==> selector::parsed_number(s) is None
            &&& selector::parsed_number(seq!['+'] + s) == selector::parsed_number(s)
        },
        (exists|i: int|
            0 < i < s.len() && !(48 <= (#[trigger] s[i]) as u32 <= 57)) ==> selector::parsed_number(
            s,
        ) is None,
        s.len() > 0 && !(48 <= s[0] as u32 <= 57) && s[0] != '+' ==> selector::parsed_number(
            s,
        ) is None,
        s.len() == 0 || s == seq!['+'] ==> selector::parsed_number(s) is None,
{
    if s.len() > 0 && forall|i: int| 0 <= i < s.len() ==> 48 <= (#[trigger] s[i]) as u32 <= 57 {
        lemma_digits(s);
        assert(48 <= s[0] as u32 <= 57);
        assert(s[0] != '+');
        assert((seq!['+'] + s).drop_first() =~= s);
    }
    let w = selector::without_sign(s);
    if exists|i: int| 0 < i < s.len() && !(48 <= (#[trigger] s[i]) as u32 <= 57) {
        let i = choose|i: int| 0 < i < s.len() && !(48 <= (#[trigger] s[i]) as u32 <= 57);
        if w == s {
            lemma_digit(w[i]);
        } else {
            assert(w[i - 1] == s[i]);
            lemma_digit(w[i - 1]);
        }
    }
    if s.len() > 0 && !(48 <= s[0] as u32 <= 57) && s[0] != '+' {
        lemma_digit(w[0]);
    }
    if s == seq!['+'] {
        lemma_digit(w[0]);
    }
}

/// The number that stands before a session in the list is read as the place
/// of that session.
pub proof fn shown_number_is_read_back(n: nat)
    requires
        n <= usize::MAX,
    ensures
        selector::parsed_number(text::decimal_of(n)) == Some(n as int),
{
    text_laws::decimal_notation_stands_for_the_number(n);
    digits_are_read_as_their_number(text::decimal_of(n));
}

/// A line of the list shows the number, the preview, the age and how many
/// messages there are, in this order.
pub proof fn row_shows_the_entry(number: nat, m: MetadataView, age: Seq<char>)
    ensures
        selector::row_text(number, m, age) == "  ["@ + text::decimal_of(number) + "] "@ + m.preview
            + " ("@ + age + " • "@ + text::decimal_of(m.message_count) + " messages)"@,
{
}


/// An error about a session names it.
pub proof fn errors_name_the_session(id: String)
    ensures
        history::SessionError::InvalidId(id).message_text() == "Invalid session id '"@ + id@ + "'"@,
        history::SessionError::NotFound(id).message_text() == "Session '"@ + id@ + "' not found"@,
{
}


/// The sessions of a workspace and their index lie under their own names.
pub proof fn files_have_their_names(workspace: Seq<char>)
    requires
        workspace.len() > 0,
        workspace.last() != '/',
    ensures
        history::below(
            history::below(history::below(workspace, history::SOFOS_DIR@), history::SESSIONS_DIR@),
            history::INDEX_FILE@,
        ) == workspace + "/.sofos/sessions/index.json"@,
{
    reveal_strlit(".sofos");
    reveal_strlit("sessions");
    reveal_strlit("index.json");
    reveal_strlit("/.sofos/sessions/index.json");
    let first = history::below(workspace, ".sofos"@);
    assert(first == workspace + seq!['/'] + ".sofos"@);
    assert(first.last() == 's');
    let second = history::below(first, "sessions"@);
    assert(second == first + seq!['/'] + "sessions"@);
    assert(second.last() == 's');
    assert(history::below(second, "index.json"@) =~= workspace + "/.sofos/sessions/index.json"@);
}

} // verus!
