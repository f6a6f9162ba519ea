//! Answering a question with the keyboard.

use super::app::{App, AppView, ConfirmationPrompt};
use super::app;
use super::event::{KeyCode, KeyPress};
use crate::text;
use vstd::prelude::*;

verus! {

/// The choice that a digit names, counting from one.
pub open spec fn digit_choice(ch: char, choices: nat) -> Option<usize> {
    if '1' <= ch && ch <= '9' && (ch as u8 as int - 49) < choices {
        Some((ch as u8 - 49) as usize)
    } else {
        None
    }
}

/// The choice that a digit names, counting from one.
pub fn digit_shortcut(ch: char, choices_len: usize) -> (r: Option<usize>)
    ensures
        r == digit_choice(ch, choices_len as nat),
{
    if '1' <= ch && ch <= '9' {
        let idx: usize = (ch as u8 - 49) as usize;
        if idx < choices_len {
            return Some(idx);
        }
    }
    None
}

pub open spec fn is_letter(c: char) -> bool {
    ('a' <= c && c <= 'z') || ('A' <= c && c <= 'Z')
}

/// Whether a choice starts with a letter, in whatever case either is.
pub open spec fn starts_with_letter(choice: Seq<char>, ch: char) -> bool {
    choice.len() > 0 && text::ascii_lower(choice[0]) == text::ascii_lower(ch)
}

/// The place that comes `offset` after `cursor` in a list that goes round.
pub open spec fn around(cursor: int, offset: int, n: int) -> int {
    (cursor + offset) % n
}

/// The first choice after the cursor, going round, that starts with a
/// letter; `offset` places are left out.
pub open spec fn letter_from(
    ch: char,
    choices: Seq<Seq<char>>,
    cursor: int,
    offset: int,
) -> Option<usize>
    decreases choices.len() - offset,
{
    if offset >= choices.len() {
        None
    } else {
        let i = around(cursor, offset + 1, choices.len() as int);
        if starts_with_letter(choices[i], ch) {
            Some(i as usize)
        } else {
            letter_from(ch, choices, cursor, offset + 1)
        }
    }
}

/// The choice that a letter names.
pub open spec fn letter_choice(ch: char, choices: Seq<Seq<char>>, cursor: int) -> Option<usize> {
    if is_letter(ch) {
        letter_from(ch, choices, cursor, 0)
    } else {
        None
    }
}

/// The next choice that starts with a letter. The search starts after the
/// cursor and goes round, so that the same letter steps through all choices
/// that start with it.
pub fn letter_shortcut(ch: char, choices: &Vec<String>, cursor: usize) -> (r: Option<usize>)
    ensures
        r == letter_choice(ch, text::views(choices@), cursor as int),
{
    let letter = ('a' <= ch && ch <= 'z') || ('A' <= ch && ch <= 'Z');
    if !letter {
        return None;
    }
    let n = choices.len();
    if n == 0 {
        return None;
    }
    let needle = text::lower(ch);
    let mut idx: usize = cursor % n;
    let mut offset: usize = 0;
    while offset < n
        invariant
            n == choices@.len(),
            n > 0,
            offset <= n,
            needle == text::ascii_lower(ch),
            is_letter(ch),
            idx == around(cursor as int, offset as int, n as int),
            letter_from(ch, text::views(choices@), cursor as int, 0) == letter_from(
                ch,
                text::views(choices@),
                cursor as int,
                offset as int,
            ),
        decreases n - offset,
    {
        proof {
            lemma_around(cursor as int, offset as int, n as int);
        }
        idx = if idx + 1 == n {
            0
        } else {
            idx + 1
        };
        assert(text::views(choices@)[idx as int] == choices@[idx as int]@);
        let choice = choices[idx].as_str();
        if choice.unicode_len() > 0 && text::lower(choice.get_char(0)) == needle {
            return Some(idx);
        }
        offset = offset + 1;
    }
    None
}

proof fn lemma_around(cursor: int, offset: int, n: int)
    requires
        n > 0,
        cursor >= 0,
        offset >= 0,
    ensures
        0 <= around(cursor, offset, n) < n,
        around(cursor, offset + 1, n) == (if around(cursor, offset, n) + 1 == n {
            0
        } else {
            around(cursor, offset, n) + 1
        }),
{
    let x = cursor + offset;
    vstd::arithmetic::div_mod::lemma_mod_bound(x, n);
    vstd::arithmetic::div_mod::lemma_fundamental_div_mod(x, n);
    let q = x / n;
    let m = x % n;
    if m + 1 == n {
        assert(x + 1 == (q + 1) * n + 0) by (nonlinear_arith)
            requires
                x == n * q + m,
                m + 1 == n,
        ;
        vstd::arithmetic::div_mod::lemma_fundamental_div_mod_converse(x + 1, n, q + 1, 0);
    } else {
        assert(x + 1 == q * n + (m + 1)) by (nonlinear_arith)
            requires
                x == n * q + m,
        ;
        vstd::arithmetic::div_mod::lemma_fundamental_div_mod_converse(x + 1, n, q, m + 1);
    }
}

/// A question after a key: the question, unless it was answered, and the
/// answer, if it was. Digits come before letters, and letters before the
/// keys that move the highlight.
pub open spec fn question_step(c: ConfirmationPrompt, key: KeyPress) -> (
    Option<ConfirmationPrompt>,
    Option<usize>,
) {
    let len = c.choices@.len();
    let up = Some(ConfirmationPrompt { cursor: app::one_up(c.cursor), ..c });
    let down = Some(ConfirmationPrompt { cursor: app::one_down(c.cursor, len), ..c });
    if !key.down {
        (Some(c), None)
    } else {
        match key.code {
            KeyCode::Up => (up, None),
            KeyCode::Down => (down, None),
            KeyCode::Enter => (None, Some(c.cursor)),
            KeyCode::Esc => (None, Some(c.default_index)),
            KeyCode::Char(ch) => if key.ctrl {
                if ch == 'c' {
                    (None, Some(c.default_index))
                } else {
                    (Some(c), None)
                }
            } else if digit_choice(ch, len) is Some {
                (None, digit_choice(ch, len))
            } else {
                match letter_choice(ch, text::views(c.choices@), c.cursor as int) {
                    Some(i) => (Some(ConfirmationPrompt { cursor: i, ..c }), None),
                    None => if ch == 'k' {
                        (up, None)
                    } else if ch == 'j' {
                        (down, None)
                    } else {
                        (Some(c), None)
                    },
                }
            },
            _ => (Some(c), None),
        }
    }
}

impl App {
    /// Takes a key into account while a question is open, and gives the
    /// answer if the key gave one. The question is closed then.
    pub fn handle_confirmation_key(&mut self, key: KeyPress) -> (answer: Option<usize>)
        ensures
            match old(self)@.confirmation {
                None => final(self)@ == old(self)@ && answer is None,
                Some(c) => final(self)@ == (AppView {
                    confirmation: question_step(c, key).0,
                    ..old(self)@
                }) && answer == question_step(c, key).1,
            },
    {
        let mut c = match self.confirmation.take() {
            None => {
                return None;
            },
            Some(c) => c,
        };
        let mut answer: Option<usize> = None;
        if key.down {
            match key.code {
                KeyCode::Up => {
                    c.cursor = app::step_up(c.cursor);
                },
                KeyCode::Down => {
                    c.cursor = app::step_down(c.cursor, c.choices.len());
                },
                KeyCode::Enter => {
                    answer = Some(c.cursor);
                },
                KeyCode::Esc => {
                    answer = Some(c.default_index);
                },
                KeyCode::Char(ch) => {
                    if key.ctrl {
                        if ch == 'c' {
                            answer = Some(c.default_index);
                        }
                    } else {
                        answer = digit_shortcut(ch, c.choices.len());
                        if answer.is_none() {
                            match letter_shortcut(ch, &c.choices, c.cursor) {
                                Some(i) => {
                                    c.cursor = i;
                                },
                                None => {
                                    if ch == 'k' {
                                        c.cursor = app::step_up(c.cursor);
                                    } else if ch == 'j' {
                                        c.cursor = app::step_down(c.cursor, c.choices.len());
                                    }
                                },
                            }
                        }
                    }
                },
                _ => {},
            }
        }
        if answer.is_none() {
            self.confirmation = Some(c);
        }
        answer
    }
}

proof fn lemma_letter_from(ch: char, choices: Seq<Seq<char>>, cursor: int, offset: int)
    requires
        cursor >= 0,
        0 <= offset,
        choices.len() <= usize::MAX,
    ensures
        match letter_from(ch, choices, cursor, offset) {
            Some(i) => i < choices.len() && starts_with_letter(choices[i as int], ch),
            None => true,
        },
    decreases choices.len() - offset,
{
    if offset < choices.len() {
        lemma_around(cursor, offset, choices.len() as int);
        lemma_letter_from(ch, choices, cursor, offset + 1);
    }
}

/// A question stays open exactly as long as it has no answer, and where its
/// cursor and its default name choices, so does every answer, and the
/// highlight stays on a choice.
pub proof fn answers_name_choices(c: ConfirmationPrompt, key: KeyPress)
    requires
        c.cursor < c.choices@.len() <= usize::MAX,
        c.default_index < c.choices@.len(),
    ensures
        ({
            let (next, answer) = question_step(c, key);
            &&& (next is None) == (answer is Some)
            &&& answer is Some ==> answer->0 < c.choices@.len()
            &&& next is Some ==> next->0.cursor < c.choices@.len() && next->0.choices == c.choices
                && next->0.default_index == c.default_index
        }),
{
    if let KeyCode::Char(ch) = key.code {
        lemma_letter_from(ch, text::views(c.choices@), c.cursor as int, 0);
    }
}

/// Cancelling a question gives the answer that was meant for that.
pub proof fn cancelling_gives_the_default(c: ConfirmationPrompt, key: KeyPress)
    requires
        key.down,
        key.code == KeyCode::Esc || (key.code == KeyCode::Char('c') && key.ctrl),
    ensures
        question_step(c, key) == (None::<ConfirmationPrompt>, Some(c.default_index)),
{
}

} // verus!
