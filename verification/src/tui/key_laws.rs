//! What the keys do: in a question, in a list, in the list of commands and
//! in the input box.

use super::app;
use super::app::{
    AppView, ConfirmationPrompt, EffortPicker, ModePicker, ModelPicker, PermissionsPicker, Picker,
};
use super::event::{JobView, KeyCode, KeyPress};
use super::input;
use super::input::ActionView;
use super::keymap;
use super::slash_popup;
use super::slash_popup::PopupView;
use crate::commands;
use crate::commands::CommandEntry;
use crate::repl::turn::PastedImage;
use crate::text;
use crate::text_laws;
use vstd::prelude::*;

verus! {

/// A digit names the choice that it counts, from one on, where there are as
/// many; nothing else names a choice by its number.
pub proof fn digit_counts_from_one(ch: char, choices: nat, i: int)
    ensures
        0 <= i < 9 && i < choices && ch as u32 == '1' as u32 + i ==> keymap::digit_choice(
            ch,
            choices,
        ) == Some(i as usize),
        keymap::digit_choice(ch, choices) is Some ==> {
            let at = keymap::digit_choice(ch, choices)->0;
            at < choices && at < 9 && ch as u32 == '1' as u32 + at
        },
{
}

/// Whether a choice begins with a letter, in either case.
pub open spec fn begins_with(choice: Seq<char>, ch: char) -> bool {
    choice.len() > 0 && (choice[0] == ch || (0x41 <= ch as u32 <= 0x5A && choice[0] as u32
        == ch as u32 + 32) || (0x61 <= ch as u32 <= 0x7A && choice[0] as u32 + 32 == ch as u32))
}

proof fn lemma_begins(choice: Seq<char>, ch: char)
    requires
        0x41 <= ch as u32 <= 0x5A || 0x61 <= ch as u32 <= 0x7A,
    ensures
        keymap::starts_with_letter(choice, ch) == begins_with(choice, ch),
{
    if choice.len() > 0 {
        text_laws::lower_case_moves_letters_only(choice[0]);
        text_laws::lower_case_moves_letters_only(ch);
    }
}

/// A letter goes to the nearest choice behind the highlight that begins with
/// it, going round at the end, and back to the same one last of all. Where
/// no choice begins with it, it goes nowhere; and so does what is no letter.
pub proof fn letter_goes_to_the_nearest_choice(
    ch: char,
    choices: Seq<Seq<char>>,
    cursor: int,
)
    requires
        0 <= cursor < choices.len() <= usize::MAX,
    ensures
        ({
            let found = keymap::letter_choice(ch, choices, cursor);
            let letter = 0x41 <= ch as u32 <= 0x5A || 0x61 <= ch as u32 <= 0x7A;
            let n = choices.len() as int;
            let steps = |i: int|
                if i > cursor {
                    i - cursor
                } else {
                    i - cursor + n
                };
            &&& !letter ==> found is None
            &&& letter && found is None ==> forall|i: int|
                0 <= i < n ==> !begins_with(#[trigger] choices[i], ch)
            &&& found is Some ==> {
                let at = found->0 as int;
                &&& 0 <= at < n
                &&& begins_with(choices[at], ch)
                &&& forall|i: int|
                    0 <= i < n && begins_with(#[trigger] choices[i], ch) ==> steps(at) <= steps(i)
            }
        }),
{
    let letter = 0x41 <= ch as u32 <= 0x5A || 0x61 <= ch as u32 <= 0x7A;
    assert(keymap::is_letter(ch) == letter);
    if letter {
        lemma_nearest(ch, choices, cursor, 0);
    }
}

proof fn lemma_round(cursor: int, offset: int, n: int)
    requires
        0 <= cursor < n,
        0 < offset <= n,
    ensures
        keymap::around(cursor, offset, n) == (if cursor + offset < n {
            cursor + offset
        } else {
            cursor + offset - n
        }),
{
    let x = cursor + offset;
    if x < n {
        vstd::arithmetic::div_mod::lemma_small_mod(x as nat, n as nat);
    } else {
        vstd::arithmetic::div_mod::lemma_mod_sub_multiples_vanish(x, n);
        vstd::arithmetic::div_mod::lemma_small_mod((x - n) as nat, n as nat);
    }
}

proof fn lemma_nearest(ch: char, choices: Seq<Seq<char>>, cursor: int, offset: int)
    requires
        0 <= cursor < choices.len() <= usize::MAX,
        0 <= offset <= choices.len(),
        0x41 <= ch as u32 <= 0x5A || 0x61 <= ch as u32 <= 0x7A,
        forall|i: int|
            0 <= i < choices.len() && begins_with(#[trigger] choices[i], ch) ==> (if i > cursor {
                i - cursor
            } else {
                i - cursor + choices.len()
            }) > offset,
    ensures
        ({
            let found = keymap::letter_from(ch, choices, cursor, offset);
            let n = choices.len() as int;
            let steps = |i: int|
                if i > cursor {
                    i - cursor
                } else {
                    i - cursor + n
                };
            &&& found is None ==> forall|i: int|
                0 <= i < n ==> !begins_with(#[trigger] choices[i], ch)
            &&& found is Some ==> {
                let at = found->0 as int;
                &&& 0 <= at < n
                &&& begins_with(choices[at], ch)
                &&& forall|i: int|
                    0 <= i < n && begins_with(#[trigger] choices[i], ch) ==> steps(at) <= steps(i)
            }
        }),
    decreases choices.len() - offset,
{
    let n = choices.len() as int;
    if offset < n {
        let i = keymap::around(cursor, offset + 1, n);
        lemma_round(cursor, offset + 1, n);
        lemma_begins(choices[i], ch);
        if !keymap::starts_with_letter(choices[i], ch) {
            assert forall|j: int|
                0 <= j < n && begins_with(#[trigger] choices[j], ch) implies (if j > cursor {
                j - cursor
            } else {
                j - cursor + n
            }) > offset + 1 by {
                assert(j != i);
            }
            lemma_nearest(ch, choices, cursor, offset + 1);
        }
    }
}

/// In a question the arrows move the highlight by one and stop at the ends,
/// the enter key answers with what is highlighted, and a digit with what it
/// names. A letter only moves the highlight. Releasing a key does nothing.
pub proof fn question_is_answered_by_keys(c: ConfirmationPrompt, key: KeyPress)
    requires
        c.cursor < c.choices@.len(),
    ensures
        ({
            let (next, answer) = keymap::question_step(c, key);
            let n = c.choices@.len();
            &&& !key.down ==> next == Some(c) && answer is None
            &&& key.down && key.code is Enter ==> next is None && answer == Some(c.cursor)
            &&& key.down && key.code is Up ==> answer is None && next == Some(
                ConfirmationPrompt {
                    cursor: if c.cursor == 0 {
                        0
                    } else {
                        (c.cursor - 1) as usize
                    },
                    ..c
                },
            )
            &&& key.down && key.code is Down ==> answer is None && next == Some(
                ConfirmationPrompt {
                    cursor: if c.cursor + 1 == n {
                        c.cursor
                    } else {
                        (c.cursor + 1) as usize
                    },
                    ..c
                },
            )
            &&& key.down && !key.ctrl ==> (key.code matches KeyCode::Char(ch) ==> {
                let digit = keymap::digit_choice(ch, n);
                let letter = keymap::letter_choice(ch, text::views(c.choices@), c.cursor as int);
                &&& digit is Some ==> next is None && answer == digit
                &&& digit is None ==> answer is None && next is Some && next->0.choices == c.choices
                &&& digit is None && letter is Some ==> next->0.cursor == letter->0
                &&& digit is None && letter is None && ch != 'k' && ch != 'j' ==> next == Some(c)
                &&& letter is None && ch == 'k' ==> next == keymap::question_step(
                    c,
                    KeyPress { code: KeyCode::Up, ..key },
                ).0
                &&& letter is None && ch == 'j' ==> next == keymap::question_step(
                    c,
                    KeyPress { code: KeyCode::Down, ..key },
                ).0
            })
        }),
{
    if let KeyCode::Char(ch) = key.code {
        if ch == 'k' || ch == 'j' {
            digit_counts_from_one(ch, c.choices@.len(), 0);
        }
    }
}

/// In a list the arrows and the letters that stand for them move, the enter
/// key chooses, and the escape key and the interrupt cancel; nothing else
/// and no release of a key does anything.
pub proof fn list_keys_have_one_meaning(key: KeyPress)
    ensures
        !key.down ==> input::list_key(key) is Other,
        key.down && (key.code is Up || key.code == KeyCode::Char('k')) ==> input::list_key(
            key,
        ) is Up,
        key.down && (key.code is Down || key.code == KeyCode::Char('j')) ==> input::list_key(
            key,
        ) is Down,
        key.down && key.code is Enter ==> input::list_key(key) is Choose,
        key.down && (key.code is Esc || (key.code == KeyCode::Char('c') && key.ctrl))
            ==> input::list_key(key) is Cancel,
        key.code == KeyCode::Char('c') && !key.ctrl ==> input::list_key(key) is Other,
        key.code is Tab ==> input::list_key(key) is Other,
{
}

/// Choosing in the list of sessions asks for the highlighted one; cancelling
/// asks for none. Either closes the list, and nothing else does.
pub proof fn chosen_session_is_resumed(a: AppView, p: Picker, key: KeyPress)
    requires
        p.cursor < p.sessions@.len(),
        a.picker == Some(p),
    ensures
        ({
            let (now, action) = a.session_key(p, key);
            let meaning = input::list_key(key);
            &&& meaning is Choose ==> action == (ActionView::Send {
                job: JobView::ResumeSelected { id: Some(p.sessions@[p.cursor as int].id@) },
            })
            &&& meaning is Cancel ==> action == (ActionView::Send {
                job: JobView::ResumeSelected { id: None },
            })
            &&& (now.picker is None) == (meaning is Choose || meaning is Cancel)
            &&& !(meaning is Choose) && !(meaning is Cancel) ==> action is Nothing
            &&& meaning is Up ==> now.picker->0.cursor == (if p.cursor == 0 {
                0
            } else {
                p.cursor - 1
            })
            &&& meaning is Down ==> now.picker->0.cursor == (if p.cursor + 1 == p.sessions@.len() {
                p.cursor as int
            } else {
                p.cursor + 1
            })
            &&& meaning is Other ==> now == a
            &&& now.input == a.input && now.queue == a.queue
        }),
{
    assert(p.sessions@.len() == p.sessions.len());
}

/// Choosing in the list of models, of modes or of presets asks for the
/// highlighted one where it can be had, and for none otherwise; the list of
/// efforts has only what can be had. Cancelling asks for none. Either
/// closes the list.
pub proof fn chosen_setting_is_asked_for(
    a: AppView,
    m: ModelPicker,
    e: EffortPicker,
    r: ModePicker,
    p: PermissionsPicker,
    key: KeyPress,
)
    requires
        m.cursor < m.entries@.len(),
        e.cursor < e.entries@.len(),
        r.cursor < r.entries@.len(),
        p.cursor < p.entries@.len(),
    ensures
        input::list_key(key) is Choose ==> {
            let model = m.entries@[m.cursor as int];
            let mode = r.entries@[r.cursor as int];
            let preset = p.entries@[p.cursor as int];
            &&& a.model_key(m, key).1 == (ActionView::Send {
                job: JobView::ModelSelected {
                    name: if model.is_available {
                        Some(model.name)
                    } else {
                        None
                    },
                },
            })
            &&& a.mode_key(r, key).1 == (ActionView::Send {
                job: JobView::ModeSelected {
                    mode: if mode.is_available {
                        Some(mode.mode)
                    } else {
                        None
                    },
                },
            })
            &&& a.preset_key(p, key).1 == (ActionView::Send {
                job: JobView::PermissionsSelected {
                    preset: if preset.is_available {
                        Some(preset.preset)
                    } else {
                        None
                    },
                },
            })
            &&& a.effort_key(e, key).1 == (ActionView::Send {
                job: JobView::EffortSelected { effort: Some(e.entries@[e.cursor as int].effort) },
            })
        },
        input::list_key(key) is Cancel ==> {
            &&& a.model_key(m, key).1 == (ActionView::Send {
                job: JobView::ModelSelected { name: None },
            })
            &&& a.mode_key(r, key).1 == (ActionView::Send {
                job: JobView::ModeSelected { mode: None },
            })
            &&& a.preset_key(p, key).1 == (ActionView::Send {
                job: JobView::PermissionsSelected { preset: None },
            })
            &&& a.effort_key(e, key).1 == (ActionView::Send {
                job: JobView::EffortSelected { effort: None },
            })
        },
        input::list_key(key) is Choose || input::list_key(key) is Cancel ==> a.model_key(
            m,
            key,
        ).0.model_picker is None && a.mode_key(r, key).0.mode_picker is None && a.preset_key(
            p,
            key,
        ).0.permissions_picker is None && a.effort_key(e, key).0.effort_picker is None,
        !(input::list_key(key) is Choose || input::list_key(key) is Cancel) ==> a.model_key(
            m,
            key,
        ).1 is Nothing && a.mode_key(r, key).1 is Nothing && a.preset_key(p, key).1 is Nothing
            && a.effort_key(e, key).1 is Nothing,
        input::list_key(key) is Other ==> a.model_key(m, key).0 == a && a.mode_key(r, key).0 == a
            && a.preset_key(p, key).0 == a && a.effort_key(e, key).0 == a,
{
}

/// In those lists one step goes to the next entry that can be had, and stays
/// where there is none in that direction.
pub proof fn steps_pass_over_what_cannot_be_had(
    a: AppView,
    m: ModelPicker,
    e: EffortPicker,
    key: KeyPress,
    j: int,
)
    requires
        m.cursor < m.entries@.len() <= usize::MAX,
        m.entries@[m.cursor as int].is_available,
        e.cursor < e.entries@.len(),
        0 <= j < m.entries@.len(),
        m.entries@[j].is_available,
    ensures
        input::list_key(key) is Down ==> {
            let at = a.model_key(m, key).0.model_picker->0.cursor;
            &&& m.cursor <= at < m.entries@.len()
            &&& m.entries@[at as int].is_available
            &&& j > m.cursor ==> m.cursor < at <= j
        },
        input::list_key(key) is Up ==> {
            let at = a.model_key(m, key).0.model_picker->0.cursor;
            &&& at <= m.cursor
            &&& m.entries@[at as int].is_available
            &&& j < m.cursor ==> j <= at < m.cursor
        },
        input::list_key(key) is Down ==> a.effort_key(e, key).0.effort_picker->0.cursor == (
        if e.cursor + 1 == e.entries@.len() {
            e.cursor as int
        } else {
            e.cursor + 1
        }),
        input::list_key(key) is Up ==> a.effort_key(e, key).0.effort_picker->0.cursor == (
        if e.cursor == 0 {
            0
        } else {
            e.cursor - 1
        }),
{
    let flags = app::model_available(m.entries@);
    assert(e.entries@.len() == e.entries.len());
    assert(flags[j]);
    assert(flags[m.cursor as int]);
    one_step_is_the_nearest(flags, m.cursor, j);
}

/// A step down goes to the first entry below that can be had, and a step up
/// to the first above.
pub proof fn one_step_is_the_nearest(flags: Seq<bool>, cursor: usize, j: int)
    requires
        cursor < flags.len() <= usize::MAX,
        0 <= j < flags.len(),
        flags[j],
        flags[cursor as int],
    ensures
        ({
            let down = app::next_available(flags, cursor);
            let up = app::previous_available(flags, cursor);
            &&& cursor <= down < flags.len() && flags[down as int]
            &&& up <= cursor && flags[up as int]
            &&& j > cursor ==> cursor < down <= j
            &&& j < cursor ==> j <= up < cursor
        }),
{
    lemma_first(flags, cursor + 1);
    lemma_last(flags, cursor - 1);
}

proof fn lemma_first(flags: Seq<bool>, i: int)
    requires
        0 <= i,
        flags.len() <= usize::MAX,
    ensures
        match app::first_set(flags, i) {
            Some(k) => i <= k < flags.len() && flags[k as int] && forall|j: int|
                i <= j < k ==> !#[trigger] flags[j],
            None => forall|j: int| i <= j < flags.len() ==> !#[trigger] flags[j],
        },
    decreases flags.len() - i,
{
    if i < flags.len() && !flags[i] {
        lemma_first(flags, i + 1);
    }
}

proof fn lemma_last(flags: Seq<bool>, i: int)
    requires
        i < flags.len() <= usize::MAX,
    ensures
        match app::last_set(flags, i) {
            Some(k) => k <= i && flags[k as int] && forall|j: int|
                k < j <= i ==> !#[trigger] flags[j],
            None => forall|j: int| 0 <= j <= i ==> !#[trigger] flags[j],
        },
    decreases i + 1,
{
    if i >= 0 && !flags[i] {
        lemma_last(flags, i - 1);
    }
}

/// A list opens on the entry in use where that can be had, and otherwise on
/// the first that can be.
pub proof fn list_opens_on_what_is_in_use(current: Seq<bool>, available: Seq<bool>, i: int)
    requires
        current.len() == available.len() <= usize::MAX,
        0 <= i < current.len(),
    ensures
        current[i] && available[i] && (forall|j: int|
            0 <= j < current.len() && j != i ==> !#[trigger] current[j]) ==> app::start_of(
            current,
            available,
        ) == i,
        available[i] && (forall|j: int| 0 <= j < i ==> !#[trigger] available[j]) && (forall|j: int|
            0 <= j < current.len() ==> !(#[trigger] current[j] && available[j])) ==> app::start_of(
            current,
            available,
        ) == i,
{
    let both = Seq::new(current.len(), |k: int| current[k] && available[k]);
    lemma_first(both, 0);
    lemma_first(available, 0);
    if current[i] && available[i] {
        assert(both[i]);
    }
    match app::first_set(both, 0) {
        Some(k) => {
            assert(both[k as int]);
            assert(current[k as int]);
        },
        None => {
            match app::first_set(available, 0) {
                Some(k) => {
                    assert(available[k as int]);
                },
                None => {},
            }
        },
    }
}

/// The list of commands holds exactly the commands that start with what was
/// typed.
pub proof fn listed_commands_start_with_the_input(typed: Seq<char>, e: CommandEntry)
    ensures
        slash_popup::commands_with(typed).contains(e) == (commands::catalog().contains(e)
            && typed.is_prefix_of(e.name@)),
        typed.len() == 0 ==> slash_popup::commands_with(typed).len() == 8,
{
    lemma_listed(commands::catalog(), typed, e);
    text_laws::prefix_and_rest(typed, e.name@, e.name@);
    if typed.len() == 0 {
        lemma_all_listed(commands::catalog(), typed);
    }
}

proof fn lemma_listed(all: Seq<CommandEntry>, typed: Seq<char>, e: CommandEntry)
    ensures
        all.filter(|c: CommandEntry| text::has_prefix(c.name@, typed)).contains(e)
            == (all.contains(e) && text::has_prefix(e.name@, typed)),
    decreases all.len(),
{
    reveal(Seq::filter);
    let p = |c: CommandEntry| text::has_prefix(c.name@, typed);
    let kept = all.filter(p);
    if all.len() > 0 {
        let t = all.drop_last();
        lemma_listed(t, typed, e);
        let before = t.filter(p);
        assert(all =~= t.push(all.last()));
        if all.contains(e) {
            let i = choose|i: int| 0 <= i < all.len() && all[i] == e;
            if i < t.len() {
                assert(t[i] == e);
            }
        }
        if t.contains(e) {
            let i = choose|i: int| 0 <= i < t.len() && t[i] == e;
            assert(all[i] == e);
        }
        if e == all.last() {
            assert(all[all.len() - 1] == e);
        }
        if p(all.last()) {
            assert(kept == before.push(all.last()));
            if before.contains(e) {
                let i = choose|i: int| 0 <= i < before.len() && before[i] == e;
                assert(kept[i] == e);
            }
            if e == all.last() {
                assert(kept[kept.len() - 1] == e);
            }
            if kept.contains(e) {
                let i = choose|i: int| 0 <= i < kept.len() && kept[i] == e;
                if i < before.len() {
                    assert(before[i] == e);
                }
            }
        }
    }
}

proof fn lemma_all_listed(all: Seq<CommandEntry>, typed: Seq<char>)
    requires
        typed.len() == 0,
    ensures
        all.filter(|c: CommandEntry| text::has_prefix(c.name@, typed)) == all,
    decreases all.len(),
{
    reveal(Seq::filter);
    if all.len() > 0 {
        lemma_all_listed(all.drop_last(), typed);
        assert(all =~= all.drop_last().push(all.last()));
        assert(all.last().name@.take(0) =~= typed);
    }
}

/// Typing a command is typing one line that starts with a slash.
pub proof fn command_is_one_line(rest: Seq<char>, c: char)
    ensures
        slash_popup::is_slash(seq!['/'] + rest) == !rest.contains('\n'),
        c != '/' ==> !slash_popup::is_slash(seq![c] + rest),
        !slash_popup::is_slash(Seq::empty()),
{
    let s = seq!['/'] + rest;
    assert(s[0] == '/');
    if rest.contains('\n') {
        let i = choose|i: int| 0 <= i < rest.len() && rest[i] == '\n';
        assert(s[i + 1] == '\n');
    }
    if s.contains('\n') {
        let i = choose|i: int| 0 <= i < s.len() && s[i] == '\n';
        assert(rest[i - 1] == '\n');
    }
    assert((seq![c] + rest)[0] == c);
}

/// The list of commands follows the input: it is shown with the commands
/// that start with it, and the highlight stays where it is as long as there
/// is a command. It is hidden where there is none, and stays hidden while
/// the user goes on with the command for which it was closed.
pub proof fn list_follows_the_input(p: PopupView, input: Seq<char>, lower: Seq<char>)
    ensures
        ({
            let now = p.synced(input, lower);
            let found = slash_popup::commands_with(lower);
            let closed = input.len() > 0 && p.dismissed is Some && (p.dismissed->0.is_prefix_of(
                input,
            ) || input.is_prefix_of(p.dismissed->0));
            let shown = !closed && slash_popup::is_slash(input) && found.len() > 0;
            &&& closed ==> now == p
            &&& shown ==> now.visible && now.matches == found && now.dismissed is None
            &&& shown && p.cursor < found.len() ==> now.cursor == p.cursor
            &&& shown && p.cursor >= found.len() ==> now.cursor == 0
            &&& !closed && !shown ==> !now.visible && now.matches.len() == 0 && now.dismissed is None
                && now.cursor == 0
        }),
{
    if p.dismissed is Some {
        text_laws::prefix_and_rest(p.dismissed->0, input, input);
        text_laws::prefix_and_rest(input, p.dismissed->0, p.dismissed->0);
    }
}

/// A step down goes to the next command and from the last to the first, a
/// step up the other way round. At most six commands are in sight, and the
/// list scrolls no further than it takes to see the highlighted one.
pub proof fn steps_go_round_the_commands(p: PopupView)
    requires
        p.cursor < p.matches.len(),
        p.scroll_top <= p.cursor < p.scroll_top + 6,
    ensures
        p.down().cursor == (if p.cursor + 1 < p.matches.len() {
            p.cursor + 1
        } else {
            0
        }),
        p.up().cursor == (if p.cursor > 0 {
            p.cursor - 1
        } else {
            p.matches.len() - 1
        }),
        p.down().matches == p.matches && p.up().matches == p.matches,
        p.rows() <= 6,
        p.matches.len() <= 6 ==> p.rows() == p.matches.len(),
        p.matches.len() > 6 ==> p.rows() == 6,
        p.down().scroll_top <= p.down().cursor < p.down().scroll_top + 6,
        p.matches.len() > 6 && p.scroll_top <= p.down().cursor < p.scroll_top + 6
            ==> p.down().scroll_top == p.scroll_top,
        p.matches.len() > 6 && p.scroll_top <= p.up().cursor < p.scroll_top + 6
            ==> p.up().scroll_top == p.scroll_top,
        p.matches.len() > 6 && p.down().cursor >= p.scroll_top + 6 ==> p.down().scroll_top
            == p.down().cursor - 5,
        p.up().cursor < p.scroll_top ==> p.up().scroll_top == p.up().cursor,
{
}

/// In the list of commands the tab key puts the highlighted command into the
/// input box and the enter key submits it as well; the arrows move, and the
/// list is closed by the escape key, unless that interrupts a running turn,
/// and by the interrupt.
pub proof fn list_of_commands_takes_its_keys(a: AppView, key: KeyPress)
    requires
        a.popup.cursor < a.popup.matches.len(),
    ensures
        ({
            let bare = !key.shift && !key.alt && !key.ctrl;
            let name = a.popup.matches[a.popup.cursor as int].name@;
            let r = a.popup_key(key);
            &&& key.code is Up && bare ==> r is Some && (r->0).0.popup == a.popup.up() && (
            r->0).1 is Nothing
            &&& key.code is Down && bare ==> r is Some && (r->0).0.popup == a.popup.down() && (
            r->0).1 is Nothing
            &&& key.code is Tab && bare ==> r is Some && (r->0).0.input == name && (r->0).1 is Reload
            &&& key.code is Enter && bare ==> r is Some && (r->0).0.input == name && (
            r->0).1 is Submit
            &&& key.code is Esc && !a.busy ==> r is Some && (r->0).0.popup == PopupView::closed(
                Some(a.input),
            )
            &&& key.code is Esc && a.busy ==> r is None
            &&& key.code == KeyCode::Char('c') && key.ctrl ==> r is Some && (r->0).0.popup
                == PopupView::closed(Some(a.input))
            &&& key.code is Char && !key.ctrl ==> r is None
        }),
{
}

/// In the input box each key does one thing.
pub proof fn plain_keys_have_one_meaning(a: AppView, key: KeyPress, interrupted: bool)
    ensures
        ({
            let (now, action) = a.plain_key(key, interrupted);
            let bare = !key.shift && !key.alt && !key.ctrl;
            let ctrl = |c: char| key.ctrl && key.code == KeyCode::Char(c);
            &&& ctrl('c') && a.busy && !interrupted ==> action is Interrupt
            &&& ctrl('c') && (!a.busy || interrupted) ==> action is Shutdown
            &&& ctrl('d') && !a.busy && a.input.len() == 0 ==> action is Shutdown
            &&& ctrl('d') && (a.busy || a.input.len() > 0) ==> action is Edit
            &&& ctrl('v') ==> action is PasteClipboard
            &&& ctrl('u') ==> action is DeleteLineHead
            &&& ctrl('w') ==> action is DeleteWord
            &&& ctrl('k') ==> action is DeleteLineEnd
            &&& key.code is Up && key.alt && !key.ctrl ==> action is Reload && now == a.older()
            &&& key.code is Down && key.alt && !key.ctrl ==> action is Reload && now == a.newer()
            &&& key.code is Esc && a.busy ==> action is Interrupt
            &&& key.code is Esc && !a.busy ==> action is Edit
            &&& key.code is Enter && bare ==> action is Submit
            &&& key.code is Enter && !bare ==> action is Edit
            &&& key.code is Char && !key.ctrl ==> action is Edit
            &&& !(action is Reload) ==> now == a
        }),
{
}

/// Releasing a key does nothing. While the list of commands is shown it gets
/// a key first; what it does not take goes to the input box. The list is
/// brought in line at once unless the input is yet to change.
pub proof fn keys_go_to_the_list_first(a: AppView, key: KeyPress, interrupted: bool)
    ensures
        ({
            let (now, action) = a.idle_key(key, interrupted);
            let taken = a.popup.visible && a.popup_key(key) is Some;
            &&& !key.down ==> now == a && action is Nothing
            &&& key.down && taken ==> action == (a.popup_key(key)->0).1
            &&& key.down && !taken ==> action == a.plain_key(key, interrupted).1
            &&& key.down && (action is Nothing || action is Reload) ==> now == (if taken {
                (a.popup_key(key)->0).0
            } else {
                a.plain_key(key, interrupted).0
            }).synced()
            &&& key.down && (action is Submit || action is Edit) ==> now == (if taken {
                (a.popup_key(key)->0).0
            } else {
                a.plain_key(key, interrupted).0
            })
        }),
{
}

/// Going back in the history shows the inputs from the newest to the oldest
/// and stays there; going forward shows them the other way round and ends
/// with what was being typed.
pub proof fn history_is_walked_in_order(a: AppView)
    requires
        0 < a.history.len() <= usize::MAX,
        a.history_cursor is Some ==> a.history_cursor->0 < a.history.len(),
    ensures
        a.history_cursor is None ==> a.older().history_cursor == Some(
            (a.history.len() - 1) as usize,
        ) && a.older().input == a.history.last() && a.older().draft == Some(a.input),
        a.history_cursor is Some && a.history_cursor->0 > 0 ==> a.older().history_cursor == Some(
            (a.history_cursor->0 - 1) as usize,
        ) && a.older().input == a.history[a.history_cursor->0 - 1] && a.older().draft == a.draft,
        a.history_cursor == Some(0usize) ==> a.older().history_cursor == Some(0usize)
            && a.older().input == a.history[0],
        a.history_cursor is None ==> a.newer() == a,
        a.history_cursor is Some && a.history_cursor->0 + 1 < a.history.len()
            ==> a.newer().history_cursor == Some((a.history_cursor->0 + 1) as usize)
            && a.newer().input == a.history[a.history_cursor->0 + 1] && a.newer().draft == a.draft,
        a.history_cursor is Some && a.history_cursor->0 + 1 == a.history.len()
            ==> a.newer().history_cursor is None && a.newer().draft is None && (a.draft is Some
            ==> a.newer().input == a.draft->0),
{
}

/// An input is remembered behind the others; beyond a hundred the oldest one
/// goes. Nothing and what was entered last are not remembered again.
pub proof fn inputs_are_remembered_in_order(history: Seq<Seq<char>>, said: Seq<char>)
    requires
        history.len() <= 100,
    ensures
        said.len() == 0 ==> app::remembered(history, said) == history,
        history.len() > 0 && history.last() == said ==> app::remembered(history, said) == history,
        said.len() > 0 && !(history.len() > 0 && history.last() == said) && history.len() < 100
            ==> app::remembered(history, said) == history.push(said),
        said.len() > 0 && history.len() == 100 && history.last() != said ==> app::remembered(
            history,
            said,
        ) == history.drop_first().push(said),
{
    if history.len() == 100 {
        assert(history.push(said).skip(1) =~= history.drop_first().push(said));
    }
}

/// Submitting an input empties the input box, lets go of pasted images, and
/// remembers the text.
pub proof fn submitting_empties_the_box(a: AppView, said: Seq<char>)
    ensures
        a.taken(said).input.len() == 0,
        a.taken(said).pasted_images.len() == 0,
        !a.taken(said).popup.visible,
        a.taken(said).history == app::remembered(a.history, said),
        said.len() > 0 ==> a.taken(said).history_cursor is None,
        a.taken(said).queue == a.queue,
        a.taken(said).busy == a.busy,
{
}

/// The images that an input refers to are taken in the order in which it
/// does; a mark without an image is passed over.
pub proof fn images_are_picked_in_order(pool: Seq<PastedImage>, indices: Seq<usize>, i: usize)
    ensures
        input::picked(pool, Seq::empty()).len() == 0,
        i < pool.len() ==> input::picked(pool, indices.push(i)) == input::picked(
            pool,
            indices,
        ).push(pool[i as int]@),
        i >= pool.len() ==> input::picked(pool, indices.push(i)) == input::picked(pool, indices),
{
    assert(indices.push(i).drop_last() =~= indices);
}

/// The spinner goes through its ten pictures, one after the other, and no
/// two look the same.
pub proof fn spinner_goes_through_its_pictures(a: AppView)
    requires
        a.spinner_tick < 10,
    ensures
        a.spinner_tick < 9 ==> a.spun().spinner_tick == a.spinner_tick + 1,
        a.spinner_tick == 9 ==> a.spun().spinner_tick == 0,
        a.spun().input == a.input,
        app::spinner_text(a.spun().spinner_tick as nat) != app::spinner_text(
            a.spinner_tick as nat,
        ),
{
    reveal_strlit("⠋");
    reveal_strlit("⠙");
    reveal_strlit("⠹");
    reveal_strlit("⠸");
    reveal_strlit("⠼");
    reveal_strlit("⠴");
    reveal_strlit("⠦");
    reveal_strlit("⠧");
    reveal_strlit("⠇");
    reveal_strlit("⠏");
    assert("⠋"@[0] == '⠋' && "⠙"@[0] == '⠙' && "⠹"@[0] == '⠹' && "⠸"@[0] == '⠸' && "⠼"@[0] == '⠼'
        && "⠴"@[0] == '⠴' && "⠦"@[0] == '⠦' && "⠧"@[0] == '⠧' && "⠇"@[0] == '⠇' && "⠏"@[0] == '⠏');
}


/// A tab in an input that starts a command brings up the commands that it
/// can become; the only one is entered.
pub proof fn tab_enters_the_only_command(a: AppView, key: KeyPress, interrupted: bool)
    requires
        key.code is Tab,
        !key.shift && !key.alt && !key.ctrl,
        slash_popup::is_slash(a.input),
    ensures
        ({
            let (now, action) = a.plain_key(key, interrupted);
            let found = slash_popup::commands_with(text::lowercase_of(a.input));
            &&& action is Reload
            &&& found.len() == 1 ==> now.input == found[0].name@ && !now.popup.visible
            &&& found.len() > 1 ==> now.input == a.input && now.popup.visible && now.popup.matches
                == found
            &&& found.len() == 0 ==> now.input == a.input && !now.popup.visible
        }),
{
}

/// The job of a message carries its text and its images, each in its place.
pub proof fn message_carries_its_images(
    job: JobView,
    text: Seq<char>,
    images: Seq<crate::api::ImageView>,
    i: int,
)
    requires
        input::is_message_job(job, text, images),
        0 <= i < images.len(),
    ensures
        job is Message,
        job->Message_text == text,
        job->images.len() == images.len(),
        job->images[i]@ == images[i],
{
}

} // verus!
