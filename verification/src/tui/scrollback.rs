//! Output goes above the interface, into the rows that the terminal keeps
//! when they scroll off the screen.

use super::drawing;
use super::drawing::{OpView, PenView, RunView, StyledRun, TermOp};
use super::inline_terminal;
use super::inline_terminal::{Cell, CellView, RESET, Size, Terminal, TerminalView};
use super::ui::Area;
use crate::text;
use ansi_to_tui::IntoText;
use ratatui::buffer::Buffer;
use ratatui::layout::Rect;
use ratatui::text::Text;
use ratatui::widgets::{Paragraph, Widget, Wrap};
use vstd::prelude::*;

verus! {

/// Up to this width any line can be wrapped: four times the width can be
/// counted, which is as far as the wrapping adds widths up.
pub const MAX_WRAP_WIDTH: u16 = 16_384;

/// A line of at most this many characters can be wrapped at any width: with
/// three columns for each character, all of its columns can be counted.
pub const MAX_LINE_CHARS: usize = 21_845;

/// How many characters stand behind the last line break of a text.
pub open spec fn open_line_len(s: Seq<char>) -> nat
    decreases s.len(),
{
    if s.len() == 0 || s.last() == '\n' {
        0
    } else {
        1 + open_line_len(s.drop_last())
    }
}

/// Whether no line of a text has more than `n` characters.
pub open spec fn lines_within(s: Seq<char>, n: nat) -> bool
    decreases s.len(),
{
    s.len() == 0 || (open_line_len(s) <= n && lines_within(s.drop_last(), n))
}

/// Whether the widths that come up when a text is wrapped can be counted.
pub open spec fn can_be_wrapped(s: Seq<char>, width: u16) -> bool {
    width <= MAX_WRAP_WIDTH || lines_within(s, MAX_LINE_CHARS as nat)
}

/// How wide a buffer has to be so that every row of a text that is wrapped at
/// a width has room in it.
pub open spec fn row_room(width: u16) -> u16 {
    if width <= MAX_WRAP_WIDTH {
        (3 * width) as u16
    } else {
        u16::MAX
    }
}

fn has_short_lines(s: &str) -> (r: bool)
    ensures
        r == lines_within(s@, MAX_LINE_CHARS as nat),
{
    let chars = text::chars_of(s);
    let n = chars.len();
    let mut open: usize = 0;
    let mut i: usize = 0;
    assert(s@.take(0) =~= Seq::<char>::empty());
    while i < n
        invariant
            chars@ == s@,
            n == chars@.len(),
            i <= n,
            open <= i,
            open == open_line_len(s@.take(i as int)),
            lines_within(s@.take(i as int), MAX_LINE_CHARS as nat),
        decreases n - i,
    {
        assert(s@.take(i + 1).drop_last() =~= s@.take(i as int));
        assert(s@.take(i + 1).last() == s@[i as int]);
        open = if chars[i] == '\n' {
            0
        } else {
            open + 1
        };
        if open > MAX_LINE_CHARS {
            proof {
                lemma_longer_line(s@, i + 1, MAX_LINE_CHARS as nat);
            }
            return false;
        }
        i = i + 1;
    }
    assert(s@.take(i as int) =~= s@);
    true
}

proof fn lemma_longer_line(s: Seq<char>, i: int, n: nat)
    requires
        0 <= i <= s.len(),
        !lines_within(s.take(i), n),
    ensures
        !lines_within(s, n),
    decreases s.len() - i,
{
    if i == s.len() {
        assert(s.take(i) =~= s);
    } else {
        assert(s.take(i + 1).drop_last() =~= s.take(i));
        lemma_longer_line(s, i + 1, n);
    }
}

/// How many rows a text with control sequences takes up at a width.
pub uninterp spec fn styled_row_count(s: Seq<char>, width: u16) -> usize;

/// What the rows of a text with control sequences show at a width.
pub uninterp spec fn styled_cells(s: Seq<char>, width: u16, height: u16) -> Seq<Seq<CellView>>;

/// The views of some rows.
pub open spec fn rows_view(v: Seq<Vec<Cell>>) -> Seq<Seq<CellView>> {
    v.map_values(|row: Vec<Cell>| inline_terminal::cell_views(row@))
}

/// How many rows a text takes up when its lines are wrapped between words.
/// This is `Paragraph::line_count` of the crate `ratatui`, on what
/// `IntoText::into_text` of the crate `ansi-to-tui` reads from the text, or on
/// the text itself where that reads nothing. Only that the number depends on
/// the text and the width alone is used. The wrapping adds up the widths of a
/// line, a word, the space between them and a symbol in sixteen bits. Each
/// sum stays below four times the width, and within the columns of the line,
/// of which a character has three at most: one of the two has to fit.
#[verifier::external_body]
fn count_styled_rows(s: &str, width: u16) -> (r: usize)
    requires
        can_be_wrapped(s@, width),
    ensures
        r == styled_row_count(s@, width),
{
    let text = s.as_bytes().into_text().unwrap_or_else(|_| Text::from(s.to_owned()));
    Paragraph::new(text).wrap(Wrap { trim: false }).line_count(width)
}

/// The cells of a text when its lines are wrapped between words. This is how
/// a `Paragraph` of the crate `ratatui` renders what `IntoText::into_text` of
/// the crate `ansi-to-tui` reads from the text, or the text itself where that
/// reads nothing. Only that the cells depend on the text and the size alone
/// is used, and that they fill the area. The widths that come up have to fit
/// as for counting the rows. A row with wide symbols can come out wider than
/// the area, by less than twice its width, and a symbol outside the buffer is
/// a panic: so the buffer is as wide as `room`, and what stands beside the
/// area is left out.
#[allow(deprecated)]
#[verifier::external_body]
fn render_styled_rows(s: &str, width: u16, room: u16, height: u16) -> (r: Vec<Vec<Cell>>)
    requires
        width > 0,
        can_be_wrapped(s@, width),
        room == row_room(width),
    ensures
        rows_view(r@) == styled_cells(s@, width, height),
        r@.len() == height,
        forall|i: int| 0 <= i < r@.len() ==> (#[trigger] r@[i])@.len() == width,
{
    let text = s.as_bytes().into_text().unwrap_or_else(|_| Text::from(s.to_owned()));
    let mut buffer = Buffer::empty(Rect::new(0, 0, room, height));
    let area = Rect::new(0, 0, width, height);
    Paragraph::new(text).wrap(Wrap { trim: false }).render(area, &mut buffer);
    buffer.content.chunks(room as usize).map(
        |row| row[..width as usize].iter().map(|c| Cell {
            symbol: c.symbol().to_owned(),
            fg: c.fg.to_string(),
            bg: c.bg.to_string(),
            modifier: c.modifier.bits(),
            skip: c.skip,
        }).collect()
    ).collect()
}

pub open spec fn cell_pen(c: CellView) -> PenView {
    PenView { fg: c.fg, bg: c.bg, modifier: c.modifier }
}

/// The row up to the last cell that shows something.
pub open spec fn trimmed_row(row: Seq<CellView>) -> Seq<CellView>
    decreases row.len(),
{
    if row.len() == 0 || !row.last().is_blank(RESET@) {
        row
    } else {
        trimmed_row(row.drop_last())
    }
}

/// Neighbouring cells with the same look, as runs.
pub open spec fn grouped(cells: Seq<CellView>) -> Seq<RunView>
    decreases cells.len(),
{
    if cells.len() == 0 {
        Seq::empty()
    } else {
        let before = grouped(cells.drop_last());
        let c = cells.last();
        if before.len() > 0 && before.last().pen == cell_pen(c) {
            before.drop_last().push(
                RunView { text: before.last().text + c.symbol, pen: cell_pen(c) },
            )
        } else {
            before.push(RunView { text: c.symbol, pen: cell_pen(c) })
        }
    }
}

/// A row of cells as runs of text, without the blank cells at its end.
pub open spec fn row_runs(row: Seq<CellView>) -> Seq<RunView> {
    grouped(trimmed_row(row))
}

/// A row of cells as runs of text, without the blank cells at its end.
pub fn buffer_row_as_line(row: &Vec<Cell>) -> (r: Vec<StyledRun>)
    ensures
        drawing::runs(r@) == row_runs(inline_terminal::cell_views(row@)),
{
    let ghost all = inline_terminal::cell_views(row@);
    let mut end: usize = row.len();
    assert(all.take(end as int) =~= all);
    while end > 0 && row[end - 1].is_blank_on(RESET)
        invariant
            end <= row@.len(),
            all == inline_terminal::cell_views(row@),
            trimmed_row(all) == trimmed_row(all.take(end as int)),
        decreases end,
    {
        assert(all.take(end as int).last() == row@[end - 1]@);
        assert(all.take(end as int).drop_last() =~= all.take(end - 1));
        end = end - 1;
    }
    proof {
        if end > 0 {
            assert(all.take(end as int).last() == row@[end - 1]@);
        }
        assert(trimmed_row(all) == all.take(end as int));
    }
    let mut done: Vec<StyledRun> = Vec::new();
    let mut i: usize = 0;
    assert(all.take(0) =~= Seq::<CellView>::empty());
    assert(drawing::runs(done@) =~= grouped(all.take(0)));
    while i < end
        invariant
            i <= end <= row@.len(),
            all == inline_terminal::cell_views(row@),
            drawing::runs(done@) == grouped(all.take(i as int)),
        decreases end - i,
    {
        let c = &row[i];
        proof {
            assert(all.take(i + 1).drop_last() =~= all.take(i as int));
            assert(all.take(i + 1).last() == c@);
        }
        let ghost before = done@;
        let n = done.len();
        let mut joined = false;
        if n > 0 {
            assert(drawing::runs(before).last() == before[n - 1]@);
            let same = text::same(done[n - 1].fg.as_str(), c.fg.as_str()) && text::same(
                done[n - 1].bg.as_str(),
                c.bg.as_str(),
            ) && done[n - 1].modifier == c.modifier;
            if same {
                joined = true;
                if let Some(last) = done.pop() {
                    let mut longer = last.text;
                    longer.append(c.symbol.as_str());
                    done.push(
                        StyledRun {
                            text: longer,
                            fg: last.fg,
                            bg: last.bg,
                            modifier: last.modifier,
                        },
                    );
                    assert(drawing::runs(done@) =~= drawing::runs(before).drop_last().push(
                        RunView { text: before[n - 1]@.text + c@.symbol, pen: cell_pen(c@) },
                    ));
                }
            }
        }
        if !joined {
            done.push(
                StyledRun {
                    text: c.symbol.clone(),
                    fg: c.fg.clone(),
                    bg: c.bg.clone(),
                    modifier: c.modifier,
                },
            );
            assert(drawing::runs(done@) =~= drawing::runs(before).push(
                RunView { text: c@.symbol, pen: cell_pen(c@) },
            ));
        }
        i = i + 1;
    }
    done
}

/// How many columns some runs take up, as far as that can be counted.
pub open spec fn runs_width(all: Seq<RunView>) -> usize
    decreases all.len(),
{
    if all.len() == 0 {
        0
    } else {
        inline_terminal::saturated(
            runs_width(all.drop_last()) + inline_terminal::column_width(all.last().text),
        )
    }
}

fn measure_runs(line: &Vec<StyledRun>) -> (r: usize)
    ensures
        r == runs_width(drawing::runs(line@)),
{
    let ghost all = drawing::runs(line@);
    let mut r: usize = 0;
    let mut i: usize = 0;
    assert(all.take(0) =~= Seq::<RunView>::empty());
    while i < line.len()
        invariant
            i <= line@.len(),
            all == drawing::runs(line@),
            r == runs_width(all.take(i as int)),
        decreases line@.len() - i,
    {
        proof {
            assert(all.take(i + 1).drop_last() =~= all.take(i as int));
            assert(all.take(i + 1).last() == line@[i as int]@);
        }
        r = r.saturating_add(inline_terminal::columns(line[i].text.as_str()));
        i = i + 1;
    }
    assert(all.take(i as int) =~= all);
    r
}

/// How many rows of a screen some columns take up.
pub open spec fn physical_rows(width: usize, wrap_width: u16) -> u16 {
    let columns: int = if width == 0 {
        1
    } else {
        width as int
    };
    ((columns - 1) / (wrap_width as int) + 1) as u16
}

pub open spec fn repeated(op: Seq<OpView>, n: nat) -> Seq<OpView>
    decreases n,
{
    if n == 0 {
        Seq::empty()
    } else {
        repeated(op, (n - 1) as nat) + op
    }
}

/// What clears the rows that a line is continued on.
pub open spec fn clear_ahead(rows: u16) -> Seq<OpView> {
    if rows > 1 {
        seq![OpView::SavePosition] + repeated(
            seq![
                OpView::MoveDown { rows: 1 },
                OpView::MoveToColumn { column: 0 },
                OpView::ClearToLineEnd,
            ],
            (rows - 1) as nat,
        ) + seq![OpView::RestorePosition]
    } else {
        Seq::empty()
    }
}

/// What writes one line.
pub open spec fn line_ops(all: Seq<RunView>, wrap_width: u16) -> Seq<OpView> {
    seq![OpView::MoveToColumn { column: 0 }] + clear_ahead(
        physical_rows(runs_width(all), wrap_width),
    ) + seq![OpView::SetColors { fg: RESET@, bg: RESET@ }, OpView::ClearToLineEnd]
        + drawing::written(all)
}

/// Writes one line. It starts at the first column whatever the terminal
/// thinks of the line before, and what stood there is cleared.
pub fn emit_history_line(line: &Vec<StyledRun>, wrap_width: u16, out: &mut Vec<TermOp>)
    requires
        wrap_width > 0,
    ensures
        drawing::ops(final(out)@) == drawing::ops(old(out)@) + line_ops(
            drawing::runs(line@),
            wrap_width,
        ),
{
    let ghost start = drawing::ops(out@);
    drawing::add_op(out, TermOp::MoveToColumn(0));
    let width = measure_runs(line);
    let columns: usize = if width == 0 {
        1
    } else {
        width
    };
    assert((columns - 1) / (wrap_width as int) <= columns - 1) by (nonlinear_arith)
        requires
            columns >= 1,
            wrap_width >= 1,
    ;
    let rows: u16 = ((columns - 1) / (wrap_width as usize) + 1) as u16;
    let ghost first = drawing::ops(out@);
    if rows > 1 {
        drawing::add_op(out, TermOp::SavePosition);
        let ghost saved = drawing::ops(out@);
        let ghost step = seq![
            OpView::MoveDown { rows: 1 },
            OpView::MoveToColumn { column: 0 },
            OpView::ClearToLineEnd,
        ];
        let mut i: u16 = 1;
        assert(saved + repeated(step, 0) =~= saved);
        while i < rows
            invariant
                1 <= i <= rows,
                step == seq![
                    OpView::MoveDown { rows: 1 },
                    OpView::MoveToColumn { column: 0 },
                    OpView::ClearToLineEnd,
                ],
                drawing::ops(out@) == saved + repeated(step, (i - 1) as nat),
            decreases rows - i,
        {
            let ghost before = drawing::ops(out@);
            drawing::add_op(out, TermOp::MoveDown(1));
            drawing::add_op(out, TermOp::MoveToColumn(0));
            drawing::add_op(out, TermOp::ClearToLineEnd);
            assert(drawing::ops(out@) =~= before + step);
            assert(drawing::ops(out@) =~= saved + repeated(step, i as nat));
            i = i + 1;
        }
        drawing::add_op(out, TermOp::RestorePosition);
    }
    assert(drawing::ops(out@) =~= first + clear_ahead(rows));
    let ghost cleared = drawing::ops(out@);
    drawing::add_op(out, TermOp::SetColors { fg: RESET.to_owned(), bg: RESET.to_owned() });
    drawing::add_op(out, TermOp::ClearToLineEnd);
    assert(drawing::ops(out@) =~= cleared + seq![
        OpView::SetColors { fg: RESET@, bg: RESET@ },
        OpView::ClearToLineEnd,
    ]);
    drawing::emit_styled_spans(line, out);
    assert(drawing::ops(out@) =~= start + line_ops(drawing::runs(line@), wrap_width));
}

/// How many rows the interface moves down to make room for new output.
pub open spec fn room_below(area: Area, screen: Size, rows: u16) -> u16 {
    let bottom = area.y + area.height;
    if bottom >= screen.height {
        0
    } else if rows < screen.height - bottom {
        rows
    } else {
        (screen.height - bottom) as u16
    }
}

/// The area of the interface once new output is above it.
pub open spec fn pushed_down(area: Area, screen: Size, rows: u16) -> Area {
    Area { y: (area.y + room_below(area, screen, rows)) as u16, ..area }
}

/// The row that the new output starts behind.
pub open spec fn row_above(area: Area) -> u16 {
    if area.y == 0 {
        0
    } else {
        (area.y - 1) as u16
    }
}

/// What moves the interface down where there is room below it.
pub open spec fn push_down_ops(area: Area, screen: Size, rows: u16) -> Seq<OpView> {
    if area.y + area.height < screen.height {
        seq![
            OpView::SetScrollRegion { top: (area.y + 1) as u16, bottom: screen.height },
            OpView::MoveTo { x: 0, y: area.y },
        ] + repeated(seq![OpView::ReverseIndex], room_below(area, screen, rows) as nat) + seq![
            OpView::ResetScrollRegion,
        ]
    } else {
        Seq::empty()
    }
}

/// What writes the first rows, each on a new line.
pub open spec fn rows_ops(rows: Seq<Seq<CellView>>, wrap_width: u16, n: nat) -> Seq<OpView>
    decreases n,
{
    if n == 0 {
        Seq::empty()
    } else {
        rows_ops(rows, wrap_width, (n - 1) as nat) + (seq![OpView::NewLine] + line_ops(
            row_runs(rows[n - 1]),
            wrap_width,
        ))
    }
}

/// What writes rows above the interface.
pub open spec fn above_ops(top: u16, from: u16, rows: Seq<Seq<CellView>>, width: u16) -> Seq<
    OpView,
> {
    if top > 0 {
        seq![
            OpView::SetScrollRegion { top: 1, bottom: top },
            OpView::MoveTo { x: 0, y: from },
        ] + rows_ops(rows, width, rows.len()) + seq![OpView::ResetScrollRegion]
    } else {
        Seq::empty()
    }
}

/// The terminal once some rows of output are above the interface, and what
/// puts them there.
pub open spec fn scrolled(t: TerminalView, screen: Size, rows: Seq<Seq<CellView>>) -> (
    TerminalView,
    Seq<OpView>,
) {
    let area = t.area;
    let n = rows.len() as u16;
    if screen.width == 0 || screen.height == 0 || area.width == 0 {
        (t, Seq::empty())
    } else {
        let next = pushed_down(area, screen, n);
        let moved = if area.y + area.height < screen.height {
            t.moved(next)
        } else {
            t
        };
        (
            moved.recorded(n),
            push_down_ops(area, screen, n) + above_ops(
                next.y,
                row_above(area),
                rows,
                area.width,
            ) + seq![OpView::MoveTo { x: t.cursor.x, y: t.cursor.y }],
        )
    }
}

/// Puts rows of output above the interface. Where there is room below the
/// interface it moves down; otherwise what is above scrolls up.
#[verifier::spinoff_prover]
#[verifier::rlimit(40)]
pub fn scroll_text_above_viewport(
    terminal: &mut Terminal,
    screen: Size,
    rows: &Vec<Vec<Cell>>,
) -> (r: Vec<TermOp>)
    requires
        old(terminal)@.wf(),
        rows@.len() <= u16::MAX,
    ensures
        (final(terminal)@, drawing::ops(r@)) == scrolled(
            old(terminal)@,
            screen,
            rows_view(rows@),
        ),
        final(terminal)@.wf(),
{
    let mut out: Vec<TermOp> = Vec::new();
    let area = terminal.area();
    let ghost all = rows_view(rows@);
    if screen.width == 0 || screen.height == 0 || area.width == 0 {
        assert(drawing::ops(out@) =~= Seq::empty());
        return out;
    }
    let n: u16 = rows.len() as u16;
    let cursor = terminal.cursor_position();
    let bottom: u16 = area.y + area.height;
    let from = area.y.saturating_sub(1);
    let mut next = area;
    if bottom < screen.height {
        let room: u16 = screen.height - bottom;
        let amount: u16 = if n < room {
            n
        } else {
            room
        };
        drawing::add_op(&mut out, TermOp::SetScrollRegion(area.y + 1, screen.height));
        drawing::add_op(&mut out, TermOp::MoveTo(0, area.y));
        let ghost start = drawing::ops(out@);
        let ghost step = seq![OpView::ReverseIndex];
        let mut i: u16 = 0;
        assert(start + repeated(step, 0) =~= start);
        while i < amount
            invariant
                i <= amount,
                step == seq![OpView::ReverseIndex],
                drawing::ops(out@) == start + repeated(step, i as nat),
            decreases amount - i,
        {
            let ghost before = drawing::ops(out@);
            drawing::add_op(&mut out, TermOp::ReverseIndex);
            assert(drawing::ops(out@) =~= before + step);
            assert(drawing::ops(out@) =~= start + repeated(step, i as nat + 1));
            i = i + 1;
        }
        drawing::add_op(&mut out, TermOp::ResetScrollRegion);
        next = Area { x: area.x, y: area.y + amount, width: area.width, height: area.height };
    }
    assert(drawing::ops(out@) =~= push_down_ops(area, screen, n));
    assert(next == pushed_down(area, screen, n));
    let ghost pushed = drawing::ops(out@);
    if next.y > 0 {
        drawing::add_op(&mut out, TermOp::SetScrollRegion(1, next.y));
        drawing::add_op(&mut out, TermOp::MoveTo(0, from));
        let ghost start = drawing::ops(out@);
        let mut i: usize = 0;
        assert(start + rows_ops(all, area.width, 0) =~= start);
        while i < rows.len()
            invariant
                i <= rows@.len(),
                area.width > 0,
                all == rows_view(rows@),
                drawing::ops(out@) == start + rows_ops(all, area.width, i as nat),
            decreases rows@.len() - i,
        {
            let ghost before = drawing::ops(out@);
            drawing::add_op(&mut out, TermOp::NewLine);
            let line = buffer_row_as_line(&rows[i]);
            emit_history_line(&line, area.width, &mut out);
            proof {
                let here = seq![OpView::NewLine] + line_ops(row_runs(all[i as int]), area.width);
                assert(drawing::ops(out@) =~= before + here);
                assert(drawing::ops(out@) =~= start + rows_ops(all, area.width, i as nat + 1));
            }
            i = i + 1;
        }
        drawing::add_op(&mut out, TermOp::ResetScrollRegion);
    }
    assert(drawing::ops(out@) =~= pushed + above_ops(next.y, from, all, area.width));
    drawing::add_op(&mut out, TermOp::MoveTo(cursor.x, cursor.y));
    if bottom < screen.height {
        terminal.set_viewport_area(next);
    }
    terminal.record_history_rows(n);
    assert(drawing::ops(out@) =~= scrolled(old(terminal)@, screen, all).1);
    out
}

/// Some lines as one text, with a line break behind each.
pub open spec fn output_text(lines: Seq<Seq<char>>) -> Seq<char> {
    text::joined(lines, "\n"@) + "\n"@
}

/// The rows of a text that are shown: at least one, and no more than can be
/// counted.
pub open spec fn shown_rows(count: usize) -> u16 {
    if count == 0 {
        1
    } else if count > u16::MAX {
        u16::MAX
    } else {
        count as u16
    }
}

/// Whether lines of output can be put above an interface of a width. They
/// can unless the interface is wider than any screen and a line is very long.
pub fn can_scroll(captured_lines: &Vec<String>, width: u16) -> (r: bool)
    ensures
        r == can_be_wrapped(output_text(text::views(captured_lines@)), width),
{
    if width <= MAX_WRAP_WIDTH {
        return true;
    }
    let mut joined = text::join(captured_lines, "\n");
    joined.append("\n");
    has_short_lines(joined.as_str())
}

/// Puts lines of output above the interface, wrapped at its width.
pub fn scroll_strings_above_viewport(
    terminal: &mut Terminal,
    screen: Size,
    captured_lines: &Vec<String>,
) -> (r: Vec<TermOp>)
    requires
        old(terminal)@.wf(),
        can_be_wrapped(output_text(text::views(captured_lines@)), old(terminal)@.area.width),
    ensures
        final(terminal)@.wf(),
        ({
            let s = output_text(text::views(captured_lines@));
            let width = old(terminal)@.area.width;
            let height = shown_rows(styled_row_count(s, width));
            if captured_lines@.len() == 0 {
                final(terminal)@ == old(terminal)@ && r@.len() == 0
            } else {
                (final(terminal)@, drawing::ops(r@)) == scrolled(
                    old(terminal)@,
                    screen,
                    styled_cells(s, width, height),
                )
            }
        }),
{
    if captured_lines.len() == 0 {
        return Vec::new();
    }
    let width = terminal.area().width;
    if width == 0 {
        let out: Vec<TermOp> = Vec::new();
        assert(drawing::ops(out@) =~= Seq::empty());
        return out;
    }
    let mut joined = text::join(captured_lines, "\n");
    joined.append("\n");
    let count = count_styled_rows(joined.as_str(), width);
    let height: u16 = if count == 0 {
        1
    } else if count > 65535 {
        65535
    } else {
        count as u16
    };
    let room: u16 = if width <= MAX_WRAP_WIDTH {
        3 * width
    } else {
        65535
    };
    let rows = render_styled_rows(joined.as_str(), width, room, height);
    scroll_text_above_viewport(terminal, screen, &rows)
}

/// The text of a control sequence that lets only some rows scroll.
pub fn scroll_region_text(top: u16, bottom: u16) -> (r: String)
    ensures
        r@ == "\u{1b}["@ + text::decimal_of(top as nat) + ";"@ + text::decimal_of(bottom as nat)
            + "r"@,
{
    let mut s = "\u{1b}[".to_owned();
    s.append(text::decimal(top as u128).as_str());
    s.append(";");
    s.append(text::decimal(bottom as u128).as_str());
    s.append("r");
    s
}

/// The text of some cells.
pub open spec fn cells_text(cells: Seq<CellView>) -> Seq<char>
    decreases cells.len(),
{
    if cells.len() == 0 {
        Seq::empty()
    } else {
        cells_text(cells.drop_last()) + cells.last().symbol
    }
}

/// The text of some runs.
pub open spec fn runs_text(all: Seq<RunView>) -> Seq<char>
    decreases all.len(),
{
    if all.len() == 0 {
        Seq::empty()
    } else {
        runs_text(all.drop_last()) + all.last().text
    }
}

/// Runs hold the text of their cells, and no two neighbours look the same.
pub proof fn runs_keep_the_text(cells: Seq<CellView>)
    ensures
        runs_text(grouped(cells)) == cells_text(cells),
        forall|i: int|
            0 < i < grouped(cells).len() ==> (#[trigger] grouped(cells)[i]).pen != grouped(
                cells,
            )[i - 1].pen,
    decreases cells.len(),
{
    let all = grouped(cells);
    if cells.len() > 0 {
        let init = cells.drop_last();
        let before = grouped(init);
        let c = cells.last();
        runs_keep_the_text(init);
        if before.len() > 0 && before.last().pen == cell_pen(c) {
            assert(all.drop_last() =~= before.drop_last());
            assert(runs_text(all) =~= cells_text(cells));
        } else {
            assert(all.drop_last() =~= before);
            assert(runs_text(all) =~= cells_text(cells));
        }
        assert forall|i: int| 0 < i < all.len() implies (#[trigger] all[i]).pen != all[i
            - 1].pen by {
            if i < before.len() {
                assert(before[i].pen != before[i - 1].pen);
            }
        }
    }
}

/// Only blank cells at the end of a row are left out.
pub proof fn only_blanks_are_trimmed(row: Seq<CellView>)
    ensures
        trimmed_row(row).len() <= row.len(),
        trimmed_row(row) == row.take(trimmed_row(row).len() as int),
        forall|i: int|
            trimmed_row(row).len() <= i < row.len() ==> (#[trigger] row[i]).is_blank(RESET@),
        trimmed_row(row).len() > 0 ==> !trimmed_row(row).last().is_blank(RESET@),
    decreases row.len(),
{
    if row.len() == 0 || !row.last().is_blank(RESET@) {
        assert(row.take(row.len() as int) =~= row);
    } else {
        let init = row.drop_last();
        only_blanks_are_trimmed(init);
        let n = trimmed_row(init).len() as int;
        assert(row.take(n) =~= init.take(n));
        assert forall|i: int| n <= i < row.len() implies (#[trigger] row[i]).is_blank(RESET@) by {
            if i < row.len() - 1 {
                assert(init[i] == row[i]);
            }
        }
    }
}

/// Output never pushes the interface off the screen, and the interface keeps
/// its size.
pub proof fn output_leaves_room_for_the_interface(
    t: TerminalView,
    screen: Size,
    rows: Seq<Seq<CellView>>,
)
    requires
        t.wf(),
        t.area.y + t.area.height <= screen.height,
        rows.len() <= u16::MAX,
    ensures
        ({
            let next = scrolled(t, screen, rows).0;
            &&& next.area.y + next.area.height <= screen.height
            &&& next.area.height == t.area.height
            &&& next.area.width == t.area.width
            &&& next.area.y >= t.area.y
            &&& next.cursor == t.cursor
        }),
{
}

/// Whether all rows scroll after some operations, where they did before.
pub open spec fn scrolls_freely(all: Seq<OpView>) -> bool
    decreases all.len(),
{
    if all.len() == 0 {
        true
    } else {
        match all.last() {
            OpView::SetScrollRegion { top, bottom } => false,
            OpView::ResetScrollRegion => true,
            _ => scrolls_freely(all.drop_last()),
        }
    }
}

/// Output leaves no part of the screen that does not scroll, and the cursor
/// where it was.
pub proof fn output_restores_the_terminal(
    t: TerminalView,
    screen: Size,
    rows: Seq<Seq<CellView>>,
)
    ensures
        ({
            let ops = scrolled(t, screen, rows).1;
            &&& scrolls_freely(ops)
            &&& ops.len() > 0 ==> ops.last() == (OpView::MoveTo { x: t.cursor.x, y: t.cursor.y })
        }),
{
    let area = t.area;
    if !(screen.width == 0 || screen.height == 0 || area.width == 0) {
        let n = rows.len() as u16;
        let next = pushed_down(area, screen, n);
        let push = push_down_ops(area, screen, n);
        let above = above_ops(next.y, row_above(area), rows, area.width);
        let all = scrolled(t, screen, rows).1;
        assert(all.drop_last() =~= push + above);
        assert(all.last() == (OpView::MoveTo { x: t.cursor.x, y: t.cursor.y }));
        reveal_with_fuel(scrolls_freely, 2);
        if next.y > 0 {
            assert((push + above).last() == OpView::ResetScrollRegion);
        } else {
            assert(push + above =~= push);
            if push.len() > 0 {
                assert(push.last() == OpView::ResetScrollRegion);
            }
        }
    }
}

} // verus!
