//! What the interface shows.

use super::app;
use super::app::{AppView, ConfirmationPrompt, Picker};
use super::event::ConfirmationType;
use super::ui;
use super::ui::{Area, SpanView, Tone};
use crate::config::SandboxMode;
use crate::text;
use vstd::prelude::*;

verus! {

/// What is put in the middle of an area has as much room on its left as on
/// its right and as much above as below, or one less.
pub proof fn middle_leaves_equal_margins(area: Area, width: u16, height: u16)
    requires
        area.fits(),
        width <= area.width,
        height <= area.height,
    ensures
        ({
            let r = area.middle(width, height);
            let left = r.x - area.x;
            let right = area.x + area.width - r.x - width;
            let above = r.y - area.y;
            let below = area.y + area.height - r.y - height;
            &&& r.width == width && r.height == height
            &&& 0 <= left <= right <= left + 1
            &&& 0 <= above <= below <= above + 1
        }),
{
}

/// The input box has a row for each row of its text, at least one and at
/// most six, and two for its borders.
pub proof fn input_box_has_its_rows(rows: u16)
    ensures
        rows == 0 ==> ui::box_height(rows) == 3,
        1 <= rows <= 6 ==> ui::box_height(rows) == rows + 2,
        rows > 6 ==> ui::box_height(rows) == 8,
{
}

/// The interface has a row for the hint, one for the status and the rows of
/// the input box; a question has a row for each choice and six more, and a
/// list of sessions one for each up to twelve and two more. It is as high as
/// the higher of the two needs.
pub proof fn interface_has_its_rows(a: AppView, rows: u16)
    ensures
        ({
            let base = ui::box_height(rows) + 2;
            &&& a.confirmation is None && a.picker is None ==> a.height(rows) == base
            &&& a.confirmation is Some && a.confirmation->0.choices@.len() <= 65529 ==> {
                let need = a.confirmation->0.choices@.len() + 6;
                a.height(rows) == (if base < need {
                    need as int
                } else {
                    base
                })
            }
            &&& a.confirmation is None && a.picker is Some ==> {
                let n = a.picker->0.sessions@.len();
                let need = (if n > 12 {
                    12
                } else {
                    n as int
                }) + 2;
                a.height(rows) == (if base < need {
                    need
                } else {
                    base
                })
            }
        }),
{
}

/// How long the worker has been busy is told in seconds, and from a minute
/// on in minutes and seconds.
pub proof fn elapsed_time_is_told(minutes: nat, seconds: nat)
    requires
        seconds < 60,
    ensures
        ui::elapsed_text(seconds) == text::decimal_of(seconds) + "s"@,
        minutes > 0 ==> ui::elapsed_text(60 * minutes + seconds) == text::decimal_of(minutes)
            + "m "@ + text::decimal_of(seconds) + "s"@,
{
}

/// The time that has elapsed is that since the worker became busy; a clock
/// that was set back counts as none.
pub proof fn time_elapses_from_the_start(a: AppView, now: u64)
    ensures
        a.busy_since is None ==> a.elapsed(now) == 0,
        a.busy_since is Some && now >= a.busy_since->0 ==> a.busy_since->0 + a.elapsed(now) == now,
        a.busy_since is Some && now < a.busy_since->0 ==> a.elapsed(now) == 0,
{
}

/// Jobs that wait are counted in bold behind the hint; where none does,
/// nothing is said.
pub proof fn waiting_jobs_are_counted(n: nat)
    ensures
        n == 0 ==> ui::queue_note(n).len() == 0,
        n > 0 ==> ui::queue_note(n) == seq![
            SpanView { text: "  ·  "@, tone: Tone::DarkGray, bold: false },
            SpanView { text: "queued: "@ + text::decimal_of(n), tone: Tone::Queue, bold: true },
        ],
{
}

/// The hint says that an answer is awaited while a question is open, that a
/// session is to be picked while the list of sessions is, what the worker is
/// busy with and for how long, and otherwise how to send a message. But for
/// the list of sessions, what waits is counted behind it.
pub proof fn hint_says_what_can_be_done(a: AppView, now: u64)
    ensures
        ({
            let line = a.hint_line(now);
            let waits = ui::queue_note(a.queue.len());
            let label = if a.busy_label.len() == 0 {
                "working"@
            } else {
                a.busy_label
            };
            &&& a.confirmation is Some ==> line.len() == 4 + waits.len() && line.skip(4) == waits
                && line[1].text == "awaiting confirmation"@
            &&& a.confirmation is None && a.picker is Some ==> line.len() == 4 && line[1].text
                == "pick a session"@
            &&& a.confirmation is None && a.picker is None && a.busy ==> {
                &&& line.len() == 4 + waits.len() && line.skip(4) == waits
                &&& a.spinner_tick < 10 ==> line[0].text == " "@ + app::spinner_text(
                    a.spinner_tick as nat,
                ) + " "@
                &&& line[1].text == label + "… "@ + ui::elapsed_text(a.elapsed(now))
                &&& line[3].text == "esc to interrupt"@
            }
            &&& a.confirmation is None && a.picker is None && !a.busy ==> line.len() == 6
                + waits.len() && line.skip(6) == waits && line[0].text == " ⏎ "@ && line[1].text
                == "send  ·  "@
        }),
{
    let line = a.hint_line(now);
    let waits = ui::queue_note(a.queue.len());
    if a.confirmation is Some {
        assert(line.skip(4) =~= waits);
    } else if a.picker is None && a.busy {
        assert(line.skip(4) =~= waits);
    } else if a.picker is None {
        assert(line.skip(6) =~= waits);
    }
}

/// The status line names the model and the mode of the session, read-only
/// mode in bold, then how hard the model is asked to think, and, once there
/// are any, the tokens that were sent and received, in this order.
pub proof fn status_names_the_session(a: AppView)
    requires
        a.status is Some,
    ensures
        ({
            let s = a.status->0;
            let line = a.status_line();
            let thinks = s.reasoning@.len() > 0;
            let counts = s.input_tokens > 0 || s.output_tokens > 0;
            &&& line[1].text == s.model@
            &&& s.mode is ReadOnly ==> line[4].text == "safe"@ && line[4].bold
            &&& s.mode is Sandboxed ==> line[4].text == "sandboxed"@ && !line[4].bold
            &&& s.mode is Unsandboxed ==> line[4].text == "unsandboxed"@ && !line[4].bold
            &&& line.len() == 5 + (if thinks {
                2int
            } else {
                0
            }) + (if counts {
                2int
            } else {
                0
            })
            &&& thinks ==> line[6].text == s.reasoning@
            &&& counts ==> line.last().text == "tokens: "@ + text::decimal_of(
                s.input_tokens as nat,
            ) + "↑ "@ + text::decimal_of(s.output_tokens as nat) + "↓"@
        }),
{
}

/// Before a status arrives the line names the model that the session was
/// started with, and nothing of tokens.
pub proof fn status_starts_with_the_model(a: AppView)
    requires
        a.status is None,
    ensures
        a.status_line().len() == 5,
        a.status_line()[1].text == a.model_label,
        a.status_line()[4].text == "sandboxed"@,
{
}

/// A question shows the separators and the hint where all its choices and
/// four rows more fit. Otherwise it shows as many choices as fit below the
/// prompt, and at least one.
pub proof fn as_many_choices_are_shown_as_fit(interior: u16, choices: u16, cursor: u16)
    requires
        choices > 0,
        cursor < choices,
    ensures
        ({
            let l = ui::layout_of(interior, choices, cursor);
            let shown = l.window_end - l.window_start;
            &&& l.include_full_chrome == (interior >= choices + 4)
            &&& l.include_full_chrome ==> shown == choices
            &&& !l.include_full_chrome && interior <= 2 ==> shown == 1
            &&& !l.include_full_chrome && interior > 2 ==> shown == (if interior - 1 < choices {
                interior - 1
            } else {
                choices as int
            })
            &&& l.window_start > 0 && l.window_end < choices ==> cursor - l.window_start == shown
                / 2
            &&& l.window_start == 0 || cursor - l.window_start >= shown / 2
            &&& l.window_end == choices || cursor - l.window_start <= shown / 2
        }),
{
}

/// The widest of some texts is one of them, and no other is wider.
pub proof fn widest_is_one_of_them(v: Seq<Seq<char>>, i: int)
    ensures
        0 <= i < v.len() ==> v[i].len() <= ui::longest(v),
        v.len() == 0 ==> ui::longest(v) == 0,
        v.len() > 0 ==> exists|j: int|
            0 <= j < v.len() && (#[trigger] v[j]).len() == ui::longest(v),
    decreases v.len(),
{
    if v.len() > 0 {
        let t = v.drop_last();
        widest_is_one_of_them(t, i);
        if i < t.len() && 0 <= i {
            assert(t[i] == v[i]);
        }
        if ui::longest(t) > v.last().len() {
            let j = choose|j: int| 0 <= j < t.len() && (#[trigger] t[j]).len() == ui::longest(t);
            assert(v[j].len() == ui::longest(v));
        } else {
            assert(v[v.len() - 1].len() == ui::longest(v));
        }
    }
}

/// A question is shown in the middle, wide enough for its prompt, for every
/// choice with its mark and for the hint, and high enough for all its rows,
/// as far as there is room; and no wider than that takes, but for a least
/// width.
pub proof fn question_is_as_wide_as_its_lines(area: Area, c: ConfirmationPrompt, i: int)
    requires
        area.fits(),
        c.fits_rows(),
        0 <= i < c.choices@.len(),
        c.prompt@.len() < 60000,
        forall|k: int| 0 <= k < c.choices@.len() ==> (#[trigger] c.choices@[k])@.len() < 60000,
    ensures
        ({
            let r = ui::question_area(area, c);
            let hint = "  ↑↓ navigate  ·  ⏎ select  ·  esc cancel"@.len();
            &&& r.width <= area.width && r.height <= area.height
            &&& r.width < area.width ==> {
                &&& r.width >= 40
                &&& r.width >= c.prompt@.len() + 6
                &&& r.width >= c.choices@[i]@.len() + 10
                &&& r.width >= hint + 6
                &&& r.width > 40 ==> r.width == c.prompt@.len() + 6 || r.width == hint + 6
                    || exists|k: int|
                    0 <= k < c.choices@.len() && r.width == (#[trigger] c.choices@[k])@.len() + 10
            }
            &&& r.height < area.height && c.choices@.len() > 0 ==> r.height == c.choices@.len() + 6
            &&& r.x - area.x <= area.width - r.width - (r.x - area.x) <= r.x - area.x + 1
        }),
{
    let v = text::views(c.choices@);
    assert(v[i] == c.choices@[i]@);
    widest_is_one_of_them(v, i);
    let j = choose|j: int| 0 <= j < v.len() && (#[trigger] v[j]).len() == ui::longest(v);
    assert(v[j] == c.choices@[j]@);
    reveal_strlit("  ↑↓ navigate  ·  ⏎ select  ·  esc cancel");
    let r = ui::question_area(area, c);
    middle_leaves_equal_margins(area, r.width, r.height);
}

/// The title of a question tells its kind.
pub proof fn titles_tell_the_kind(kind: ConfirmationType)
    ensures
        kind is Destructive ==> ui::question_title(kind) == (
            " Confirm destructive action "@,
            Tone::Accent,
        ),
        kind is Permission ==> ui::question_title(kind) == (" Permission required "@, Tone::Yellow),
        kind is Info ==> ui::question_title(kind) == (" Confirm "@, Tone::HintKey),
{
}

/// A question shows its prompt and below it the choices of its window, in
/// order, each with its own text. The highlighted one is marked and bold, in
/// the color of the question, and no other is.
pub proof fn question_shows_its_choices(c: ConfirmationPrompt, height: u16, i: int)
    requires
        c.fits_rows(),
        c.cursor < c.choices@.len(),
        height >= 2,
        0 <= i < c.choices@.len(),
    ensures
        ({
            let lines = ui::question_lines(c, height);
            let l = ui::layout_of((height - 2) as u16, c.choices@.len() as u16, c.cursor as u16);
            let first = if l.include_full_chrome {
                2int
            } else {
                1
            };
            let at = first + i - l.window_start;
            &&& lines[0].len() == 1 && lines[0][0].text == "  "@ + c.prompt@
            &&& l.window_start <= i < l.window_end ==> {
                let line = lines[at];
                &&& line.len() == 3
                &&& line[2].text == c.choices@[i]@
                &&& (line[1].text == "❯ "@) == (i == c.cursor)
                &&& line[2].bold == (i == c.cursor) && line[1].bold == (i == c.cursor)
                &&& i == c.cursor ==> line[2].tone == ui::question_title(c.kind).1
            }
            &&& lines.len() == (l.window_end - l.window_start) + (if l.include_full_chrome {
                4int
            } else {
                1
            })
        }),
{
    ui::window_holds_the_cursor(
        (height - 2) as u16,
        c.choices@.len() as u16,
        c.cursor as u16,
    );
    reveal_strlit("❯ ");
    reveal_strlit("⇅ ");
    reveal_strlit("▴ ");
    reveal_strlit("▾ ");
    reveal_strlit("  ");
    assert("❯ "@[0] == '❯' && "⇅ "@[0] == '⇅' && "▴ "@[0] == '▴' && "▾ "@[0] == '▾' && "  "@[0]
        == ' ');
}

/// A session is shown by its preview and how many messages it has; the
/// highlighted one is marked and bold.
pub proof fn list_shows_the_sessions(p: Picker, i: int)
    requires
        0 <= i < p.sessions@.len(),
    ensures
        ui::session_lines(p).len() == p.sessions@.len(),
        ({
            let s = p.sessions@[i];
            let line = ui::session_lines(p)[i];
            &&& line.len() == 3
            &&& (line[0].text == "❯ "@) == (i == p.cursor)
            &&& line[1].text == s.preview@
            &&& line[1].bold == (i == p.cursor)
            &&& line[2].text == " ("@ + text::decimal_of(s.message_count as nat) + " msgs)"@
        }),
{
    reveal_strlit("❯ ");
    reveal_strlit("  ");
    assert("❯ "@[0] == '❯' && "  "@[0] == ' ');
}

/// The list of sessions takes four fifths of the width and three fifths of
/// the height, rounded down, in the middle.
pub proof fn list_takes_its_share(area: Area)
    requires
        area.fits(),
        area.width <= 8000,
        area.height <= 8000,
    ensures
        ({
            let r = ui::list_area(area);
            &&& 10 * r.width <= 8 * area.width < 10 * (r.width + 1)
            &&& 10 * r.height <= 6 * area.height < 10 * (r.height + 1)
            &&& r.x - area.x <= area.width - r.width - (r.x - area.x) <= r.x - area.x + 1
            &&& r.y - area.y <= area.height - r.height - (r.y - area.y) <= r.y - area.y + 1
        }),
{
    let r = ui::list_area(area);
    middle_leaves_equal_margins(area, r.width, r.height);
}

/// A mode is named in the status line by one word.
pub proof fn modes_are_named(m: SandboxMode)
    ensures
        m is ReadOnly ==> m.label_text() == "safe"@,
        m is Sandboxed ==> m.label_text() == "sandboxed"@,
        m is Unsandboxed ==> m.label_text() == "unsandboxed"@,
{
}

} // verus!
