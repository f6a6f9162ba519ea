//! What holds of the screen: of what is seen of a text, of rows of cells, of
//! the place of the interface and of the output above it.

use super::drawing::{OpView, PenView, RunView};
use super::inline_terminal;
use super::inline_terminal::{BufferView, CellView, CommandView, Position, Size, TerminalView};
use super::inline_tui;
use super::inline_tui::TuiView;
use super::scrollback;
use super::sgr::Modifiers;
use super::ui::Area;
use crate::input_laws;
use crate::text;
use vstd::prelude::*;

verus! {

proof fn lemma_behind_shift(a: Seq<char>, b: Seq<char>, i: int)
    requires
        0 <= i <= b.len(),
    ensures
        inline_terminal::behind_command(a + b, a.len() + i) == a.len()
            + inline_terminal::behind_command(b, i),
        i <= inline_terminal::behind_command(b, i) <= b.len(),
    decreases b.len() - i,
{
    if i < b.len() {
        assert((a + b)[a.len() + i] == b[i]);
        if b[i] != inline_terminal::BEL {
            lemma_behind_shift(a, b, i + 1);
        }
    }
}

proof fn lemma_visible_shift(a: Seq<char>, b: Seq<char>, i: int)
    requires
        0 <= i <= b.len(),
    ensures
        inline_terminal::visible_from(a + b, a.len() + i) == inline_terminal::visible_from(b, i),
    decreases b.len() - i,
{
    let s = a + b;
    let at = a.len() + i;
    if i < b.len() {
        assert(s[at] == b[i]);
        if i + 1 < b.len() {
            assert(s[at + 1] == b[i + 1]);
        }
        if b[i] == inline_terminal::ESC && i + 1 < b.len() && b[i + 1] == ']' {
            lemma_behind_shift(a, b, i + 2);
            lemma_visible_shift(a, b, inline_terminal::behind_command(b, i + 2));
        } else {
            lemma_visible_shift(a, b, i + 1);
        }
    }
}

proof fn lemma_command_end(cmd: Seq<char>, rest: Seq<char>, head: Seq<char>, i: int)
    requires
        0 <= i <= cmd.len(),
        !cmd.contains('\u{7}'),
    ensures
        inline_terminal::behind_command(head + cmd + seq!['\u{7}'] + rest, head.len() + i)
            == head.len() + cmd.len() + 1,
        inline_terminal::behind_command(head + cmd, head.len() + i) == head.len() + cmd.len(),
    decreases cmd.len() - i,
{
    let s = head + cmd + seq!['\u{7}'] + rest;
    let open = head + cmd;
    if i < cmd.len() {
        assert(s[head.len() + i] == cmd[i]);
        assert(open[head.len() + i] == cmd[i]);
        assert(cmd.contains(cmd[i]));
        lemma_command_end(cmd, rest, head, i + 1);
    } else {
        assert(s[head.len() + i as int] == '\u{7}');
    }
}

/// A command to the terminal's window, such as the target of a link, is not
/// seen, nor is one that is not finished; every other character is.
pub proof fn window_commands_are_not_seen(cmd: Seq<char>, rest: Seq<char>, c: char)
    requires
        !cmd.contains('\u{7}'),
        c != '\u{1b}',
    ensures
        inline_terminal::visible(seq!['\u{1b}', ']'] + cmd + seq!['\u{7}'] + rest)
            == inline_terminal::visible(rest),
        inline_terminal::visible(seq!['\u{1b}', ']'] + cmd).len() == 0,
        inline_terminal::visible(seq![c] + rest) == seq![c] + inline_terminal::visible(rest),
        inline_terminal::visible(Seq::empty()).len() == 0,
{
    let head = seq!['\u{1b}', ']'];
    lemma_command_end(cmd, rest, head, 0);
    let front = head + cmd + seq!['\u{7}'];
    let s = front + rest;
    assert(s[0] == '\u{1b}' && s[1] == ']');
    lemma_visible_shift(front, rest, 0);
    let open = head + cmd;
    assert(open[0] == '\u{1b}' && open[1] == ']');
    assert(inline_terminal::visible_from(open, open.len() as int).len() == 0);
    let one = seq![c];
    assert((one + rest)[0] == c);
    lemma_visible_shift(one, rest, 0);
}

/// A cell shows nothing where it holds a blank without attributes on the
/// background that is asked for, whatever the color of its letters.
pub proof fn blank_cell_shows_nothing(c: CellView, bg: Seq<char>)
    ensures
        c.is_blank(bg) == (c.symbol == " "@ && c.bg == bg && c.modifier == 0),
        CellView::empty().is_blank("Reset"@),
        c.is_blank(bg) ==> (CellView { fg: "Reset"@, ..c }).is_blank(bg),
{
}

/// A buffer has a cell for every place of its area, row by row.
pub proof fn cells_are_kept_row_by_row(b: BufferView, x: int, y: int)
    requires
        b.wf(),
        0 <= x < b.area.width,
        0 <= y < b.area.height,
    ensures
        b.cells.len() == b.area.width * b.area.height,
        b.row(y).len() == b.area.width,
        ({
            let i = y * b.area.width + x;
            &&& 0 <= i < b.cells.len()
            &&& b.row(y)[x] == b.cells[i]
            &&& b.x_of(i) == b.area.x + x
            &&& b.row_of(i) == y
        }),
{
    let w = b.area.width as int;
    let h = b.area.height as int;
    let i = y * w + x;
    assert(0 <= y * w) by (nonlinear_arith)
        requires
            y >= 0,
            w >= 0,
    ;
    assert((y + 1) * w == y * w + w) by (nonlinear_arith);
    assert((y + 1) * w <= w * h) by (nonlinear_arith)
        requires
            y + 1 <= h,
            w >= 0,
    ;
    vstd::arithmetic::div_mod::lemma_fundamental_div_mod_converse(i, w, y, x);
}

/// A buffer that is put on another area keeps its first cells and shows
/// nothing in the rest.
pub proof fn resizing_keeps_the_first_cells(b: BufferView, area: Area, i: int)
    requires
        0 <= i < area.width * area.height,
    ensures
        b.resized(area).area == area,
        b.resized(area).cells.len() == area.width * area.height,
        i < b.cells.len() ==> b.resized(area).cells[i] == b.cells[i],
        i >= b.cells.len() ==> b.resized(area).cells[i] == CellView::empty(),
        BufferView::blank(area).cells[i] == CellView::empty(),
        BufferView::blank(area).cells.len() == area.width * area.height,
{
}

proof fn lemma_last_shown(row: Seq<CellView>, bg: Seq<char>, column: int, last: usize)
    requires
        0 <= column <= row.len() <= 65535,
        last < row.len() || row.len() == 0,
        last <= column,
        forall|k: int| 0 <= k < row.len() ==> (#[trigger] row[k]).width() == 1,
        forall|k: int| last < k < column ==> (#[trigger] row[k]).is_blank(bg),
        last > 0 ==> !row[last as int].is_blank(bg),
    ensures
        ({
            let r = inline_terminal::last_shown(row, bg, column, last);
            &&& row.len() > 0 ==> r < row.len()
            &&& forall|k: int| r < k < row.len() ==> (#[trigger] row[k]).is_blank(bg)
            &&& r > 0 ==> !row[r as int].is_blank(bg)
        }),
    decreases row.len() - column,
{
    if column < row.len() {
        assert(row[column].width() == 1);
        let next: usize = if row[column].is_blank(bg) {
            last
        } else {
            column as usize
        };
        assert(inline_terminal::saturated(column + inline_terminal::less_one(1usize)) == column);
        lemma_last_shown(row, bg, column + 1, next);
    }
}

/// In a row of narrow symbols the last column that shows something is the
/// last one that is not blank on the background of the row's end, and the
/// first column where all are.
pub proof fn end_of_a_row_is_blank(b: BufferView, y: int, k: int)
    requires
        b.wf(),
        0 <= y < b.area.height,
        forall|i: int| 0 <= i < b.cells.len() ==> (#[trigger] b.cells[i]).width() == 1,
        b.area.width > 0,
        0 <= k < b.area.width,
    ensures
        ({
            let row = b.row(y);
            let bg = row.last().bg;
            let last = b.row_last(y);
            &&& last < b.area.width
            &&& k > last ==> row[k].is_blank(bg)
            &&& last > 0 ==> !row[last as int].is_blank(bg)
            &&& last + 1 < b.area.width ==> b.row_clear(y) == seq![
                CommandView::Clear {
                    x: (b.area.x + last + 1) as u16,
                    y: (b.area.y + y) as u16,
                    bg,
                },
            ]
            &&& last + 1 == b.area.width ==> b.row_clear(y).len() == 0
        }),
{
    let row = b.row(y);
    cells_are_kept_row_by_row(b, 0, y);
    assert forall|i: int| 0 <= i < row.len() implies (#[trigger] row[i]).width() == 1 by {
        cells_are_kept_row_by_row(b, i, y);
        assert(b.cells[y * b.area.width + i].width() == 1);
    }
    lemma_last_shown(row, row.last().bg, 0, 0);
}

/// Where all symbols are narrow, a cell is drawn exactly where it changed and
/// its row still shows something there; a cell that is left out by the
/// buffer is not.
pub proof fn only_changed_cells_are_drawn(a: BufferView, b: BufferView, i: int)
    requires
        0 <= i < b.cells.len(),
        a.cells.len() == b.cells.len(),
    ensures
        ({
            let put = inline_terminal::cell_put(a, b, i, 0, 0);
            let drawn = b.cells[i] != a.cells[i] && !b.cells[i].skip && b.x_of(i) <= b.row_last(
                b.row_of(i),
            ) as u16;
            &&& drawn ==> put == seq![
                CommandView::Cell {
                    x: b.x_of(i) as u16,
                    y: (b.area.y + b.row_of(i)) as u16,
                    cell: b.cells[i],
                },
            ]
            &&& !drawn ==> put.len() == 0
            &&& a.cells[i].width() <= 1 && b.cells[i].width() <= 1 ==> inline_terminal::puts(
                a,
                b,
                i,
                0,
                0,
            ) == put + inline_terminal::puts(a, b, i + 1, 0, 0)
        }),
{
}

/// A cell behind a wide symbol that is drawn is not drawn, and one behind a
/// wide symbol that was there before is drawn anew.
pub proof fn wide_symbols_cover_the_next_cell(before: CellView, next: CellView, n: usize)
    requires
        !next.skip,
    ensures
        n > 0 ==> !inline_terminal::needs_drawing(before, next, 0, n),
        n > 0 ==> inline_terminal::needs_drawing(before, next, n, 0),
        inline_terminal::needs_drawing(before, next, 0, 0) == (before != next),
        next.width() >= before.width() && next.width() >= n && next.width() > 0
            ==> inline_terminal::invalidated_behind(before, next, n) == next.width() - 1,
        before.width() >= next.width() && before.width() >= n && before.width() > 0
            ==> inline_terminal::invalidated_behind(before, next, n) == before.width() - 1,
        n >= next.width() && n >= before.width() && n > 0 ==> inline_terminal::invalidated_behind(
            before,
            next,
            n,
        ) == n - 1,
{
}

/// The last cell of some commands is where the last of them that draws one
/// draws it.
pub proof fn last_cell_is_found(all: Seq<CommandView>, x: u16, y: u16, cell: CellView, bg: Seq<char>)
    ensures
        inline_terminal::last_cell(Seq::empty()) is None,
        inline_terminal::last_cell(all.push(CommandView::Cell { x, y, cell })) == Some(
            Position { x, y },
        ),
        inline_terminal::last_cell(all.push(CommandView::Clear { x, y, bg }))
            == inline_terminal::last_cell(all),
{
    assert(all.push(CommandView::Clear { x, y, bg }).drop_last() =~= all);
}

/// Moving the interface keeps what is known of the rows of output above it,
/// as far as they fit there; more output adds to them.
pub proof fn rows_above_are_counted(t: TerminalView, area: Area, rows: u16)
    ensures
        t.moved(area).area == area,
        t.moved(area).current == t.current.resized(area),
        t.moved(area).previous == t.previous.resized(area),
        t.history_rows <= area.y ==> t.moved(area).history_rows == t.history_rows,
        t.history_rows > area.y ==> t.moved(area).history_rows == area.y,
        t.history_rows + rows <= t.area.y ==> t.recorded(rows).history_rows == t.history_rows
            + rows,
        t.history_rows + rows > t.area.y ==> t.recorded(rows).history_rows == t.area.y,
        t.swapped().previous == t.current,
        t.swapped().current == BufferView::blank(t.previous.area),
        t.invalidated().previous == BufferView::blank(t.previous.area),
        t.invalidated().current == t.current,
{
}

/// Output that comes in waits to be shown behind what waits already, and is
/// kept behind what is kept; of more than ten thousand lines the last are.
pub proof fn output_is_kept_in_order(t: TuiView, lines: Seq<Seq<char>>)
    ensures
        t.queued(lines).pending == t.pending + lines,
        t.queued(lines).terminal == t.terminal,
        t.queued(lines).replay == t.replay,
        t.log.len() + lines.len() <= 10000 ==> t.queued(lines).log == t.log + lines,
        t.log.len() + lines.len() > 10000 ==> t.queued(lines).log.len() == 10000 && t.queued(
            lines,
        ).log == (t.log + lines).skip(t.log.len() + lines.len() - 10000),
{
}

/// A frame on a screen of the same size changes nothing. On one of another
/// size the interface starts over at the top, with nothing above it, and all
/// output that is kept is shown again.
pub proof fn new_size_starts_over(t: TuiView, live: Size)
    ensures
        live == t.terminal.screen ==> t.started(live) == t,
        live != t.terminal.screen ==> {
            let now = t.started(live);
            &&& now.replay
            &&& now.pending.len() == 0
            &&& now.log == t.log
            &&& now.terminal.area == (Area { x: 0, y: 0, width: live.width, height: 0 })
            &&& now.terminal.history_rows == 0
            &&& now.terminal.cursor == (Position { x: 0, y: 0 })
        },
{
}

/// The interface is as high as it wants, or as the screen where that is
/// less. It stays at its row where it fits there, and otherwise ends at the
/// bottom of the screen.
pub proof fn interface_stays_or_ends_at_the_bottom(area: Area, screen: Size, desired: u16)
    requires
        area.y + desired <= u16::MAX,
    ensures
        ({
            let next = inline_tui::fitted_area(area, screen, desired);
            &&& desired <= screen.height ==> next.height == desired
            &&& desired > screen.height ==> next.height == screen.height
            &&& area.y + next.height <= screen.height ==> next.y == area.y
            &&& area.y + next.height > screen.height ==> next.y + next.height == screen.height
            &&& next.x == area.x && next.width == screen.width
            &&& inline_tui::overhang(area, screen, desired) == area.y - next.y
        }),
{
}

/// A line takes as many rows as its columns need, and at least one.
pub proof fn line_takes_its_rows(width: usize, wrap: u16)
    requires
        wrap > 0,
        width <= 65535,
    ensures
        ({
            let rows = scrollback::physical_rows(width, wrap);
            &&& rows >= 1
            &&& width <= rows * wrap
            &&& rows > 1 ==> (rows - 1) * wrap < width
        }),
{
    let columns: int = if width == 0 {
        1
    } else {
        width as int
    };
    let w = wrap as int;
    let q = (columns - 1) / w;
    vstd::arithmetic::div_mod::lemma_fundamental_div_mod(columns - 1, w);
    vstd::arithmetic::div_mod::lemma_mod_bound(columns - 1, w);
    assert(0 <= q <= columns - 1) by (nonlinear_arith)
        requires
            q == (columns - 1) / w,
            columns >= 1,
            w >= 1,
    ;
    let rows = scrollback::physical_rows(width, wrap);
    assert(rows == q + 1);
    assert((q + 1) * w == w * q + w) by (nonlinear_arith);
    assert(q * w == w * q) by (nonlinear_arith);
}

/// A line of output starts at the first column. The rows that it is
/// continued on are cleared first, one after the other, and then its own.
pub proof fn rows_are_cleared_before_they_are_written(all: Seq<RunView>, wrap: u16, rows: u16)
    ensures
        scrollback::line_ops(all, wrap)[0] == (OpView::MoveToColumn { column: 0 }),
        rows <= 1 ==> scrollback::clear_ahead(rows).len() == 0,
        rows > 1 ==> {
            let ops = scrollback::clear_ahead(rows);
            &&& ops.len() == 3 * (rows - 1) + 2
            &&& ops[0] is SavePosition
            &&& ops.last() is RestorePosition
        },
{
    if rows > 1 {
        let op = seq![
            OpView::MoveDown { rows: 1 },
            OpView::MoveToColumn { column: 0 },
            OpView::ClearToLineEnd,
        ];
        lemma_repeated(op, (rows - 1) as nat);
    }
}

proof fn lemma_repeated(op: Seq<OpView>, n: nat)
    requires
        op.len() == 3,
    ensures
        scrollback::repeated(op, n).len() == 3 * n,
    decreases n,
{
    if n > 0 {
        lemma_repeated(op, (n - 1) as nat);
    }
}

/// What is written n times is written once and then n minus one times.
pub proof fn operations_are_repeated(op: Seq<OpView>, n: nat)
    ensures
        scrollback::repeated(op, 0).len() == 0,
        scrollback::repeated(op, n + 1) == scrollback::repeated(op, n) + op,
        scrollback::repeated(op, n).len() == op.len() * n,
    decreases n,
{
    if n > 0 {
        operations_are_repeated(op, (n - 1) as nat);
        let k = op.len() as int;
        assert(k * (n - 1) + k == k * n) by (nonlinear_arith);
    } else {
        assert(op.len() * 0 == 0) by (nonlinear_arith);
    }
}

/// The width of some runs is the sum of their widths, as far as it can be
/// counted.
pub proof fn widths_add_up(all: Seq<RunView>, r: RunView)
    ensures
        scrollback::runs_width(Seq::empty()) == 0,
        ({
            let sum = scrollback::runs_width(all) + inline_terminal::column_width(r.text);
            &&& sum <= usize::MAX ==> scrollback::runs_width(all.push(r)) == sum
            &&& sum > usize::MAX ==> scrollback::runs_width(all.push(r)) == usize::MAX
        }),
{
    assert(all.push(r).drop_last() =~= all);
}

/// New output moves the interface down as far as there is room below it, by
/// no more rows than there are; it starts behind the row above the
/// interface.
pub proof fn interface_gives_way_to_output(area: Area, screen: Size, rows: u16)
    requires
        area.y + area.height <= screen.height,
    ensures
        ({
            let room = screen.height - area.y - area.height;
            let next = scrollback::pushed_down(area, screen, rows);
            &&& rows <= room ==> next.y == area.y + rows
            &&& rows > room ==> next.y == area.y + room
            &&& next.height == area.height && next.width == area.width && next.x == area.x
            &&& area.y > 0 ==> scrollback::row_above(area) == area.y - 1
            &&& area.y == 0 ==> scrollback::row_above(area) == 0
        }),
{
}

proof fn lemma_repeated_one(op: OpView, n: nat)
    ensures
        scrollback::repeated(seq![op], n).len() == n,
        forall|i: int| 0 <= i < n ==> #[trigger] scrollback::repeated(seq![op], n)[i] == op,
    decreases n,
{
    if n > 0 {
        lemma_repeated_one(op, (n - 1) as nat);
    }
}

/// Where there is room below the interface, the screen from the interface
/// down is moved by as many rows as the interface goes down.
pub proof fn interface_is_moved_row_by_row(
    t: TerminalView,
    screen: Size,
    rows: Seq<Seq<CellView>>,
    i: int,
)
    requires
        screen.width > 0,
        t.area.width > 0,
        t.area.y + t.area.height < screen.height,
        rows.len() <= u16::MAX,
        0 <= i < scrollback::scrolled(t, screen, rows).0.area.y - t.area.y,
    ensures
        ({
            let (now, ops) = scrollback::scrolled(t, screen, rows);
            let down = now.area.y - t.area.y;
            &&& ops.len() > down + 3
            &&& ops[0] == (OpView::SetScrollRegion {
                top: (t.area.y + 1) as u16,
                bottom: screen.height,
            })
            &&& ops[1] == (OpView::MoveTo { x: 0, y: t.area.y })
            &&& ops[2 + i] == OpView::ReverseIndex
            &&& ops[2 + down] == OpView::ResetScrollRegion
        }),
{
    let (now, ops) = scrollback::scrolled(t, screen, rows);
    let down = now.area.y - t.area.y;
    lemma_repeated_one(OpView::ReverseIndex, down as nat);
    let pushed = scrollback::push_down_ops(t.area, screen, rows.len() as u16);
    assert(pushed.len() == down + 3);
    assert(pushed[2 + i] == OpView::ReverseIndex);
    assert(pushed[2 + down] == OpView::ResetScrollRegion);
    assert(forall|k: int| 0 <= k < pushed.len() ==> ops[k] == pushed[k]);
}

/// The rows are written into the part of the screen above the place that
/// the interface then has, from the row above the place that it had. What
/// comes last puts the cursor back.
pub proof fn output_enters_above_the_interface(
    t: TerminalView,
    screen: Size,
    rows: Seq<Seq<CellView>>,
)
    requires
        screen.width > 0,
        screen.height > 0,
        t.area.width > 0,
        t.area.y + t.area.height <= screen.height,
        rows.len() <= u16::MAX,
    ensures
        ({
            let (now, ops) = scrollback::scrolled(t, screen, rows);
            let written = scrollback::rows_ops(rows, t.area.width, rows.len());
            let n = ops.len() as int;
            &&& n > 0 && ops[n - 1] == (OpView::MoveTo { x: t.cursor.x, y: t.cursor.y })
            &&& now.area.y > 0 ==> {
                let from = n - written.len() - 4;
                &&& from >= 0
                &&& ops[from] == (OpView::SetScrollRegion { top: 1, bottom: now.area.y })
                &&& t.area.y > 0 ==> ops[from + 1] == (OpView::MoveTo {
                    x: 0,
                    y: (t.area.y - 1) as u16,
                })
                &&& t.area.y == 0 ==> ops[from + 1] == (OpView::MoveTo { x: 0, y: 0 })
                &&& ops.subrange(from + 2, n - 2) == written
                &&& ops[n - 2] == OpView::ResetScrollRegion
            }
            &&& now.area.y == 0 ==> forall|k: int|
                0 <= k < n ==> !(#[trigger] ops[k] is Print)
        }),
{
    let (now, ops) = scrollback::scrolled(t, screen, rows);
    let written = scrollback::rows_ops(rows, t.area.width, rows.len());
    let count = rows.len() as u16;
    let next = scrollback::pushed_down(t.area, screen, count);
    let pushed = scrollback::push_down_ops(t.area, screen, count);
    let above = scrollback::above_ops(
        next.y,
        scrollback::row_above(t.area),
        rows,
        t.area.width,
    );
    let back = seq![OpView::MoveTo { x: t.cursor.x, y: t.cursor.y }];
    let n = ops.len() as int;
    assert(now.area.y == next.y);
    assert(ops == pushed + above + back);
    lemma_repeated_one(
        OpView::ReverseIndex,
        scrollback::room_below(t.area, screen, count) as nat,
    );
    if next.y > 0 {
        let from = n - written.len() - 4;
        assert(above.len() == written.len() + 3);
        assert(from == pushed.len());
        assert(ops[from] == above[0]);
        assert(ops[from + 1] == above[1]);
        assert(ops[n - 2] == above[above.len() - 1]);
        assert(ops.subrange(from + 2, n - 2) =~= written);
    }
}

/// Rows are written in order, each on a line of its own.
pub proof fn rows_are_written_in_order(rows: Seq<Seq<CellView>>, width: u16, n: nat)
    requires
        n < rows.len(),
    ensures
        scrollback::rows_ops(rows, width, 0).len() == 0,
        scrollback::rows_ops(rows, width, n + 1) == scrollback::rows_ops(rows, width, n) + (seq![
            OpView::NewLine,
        ] + scrollback::line_ops(scrollback::row_runs(rows[n as int]), width)),
{
}

/// Output is shown line by line, each with a line break behind it.
pub proof fn output_is_joined_line_by_line(lines: Seq<Seq<char>>)
    requires
        lines.len() > 0,
    ensures
        scrollback::output_text(lines) == input_laws::with_breaks(lines),
    decreases lines.len(),
{
    let t = lines.drop_last();
    if lines.len() == 1 {
        assert(input_laws::with_breaks(t) =~= Seq::<char>::empty());
        assert(scrollback::output_text(lines) =~= input_laws::with_breaks(lines));
    } else {
        output_is_joined_line_by_line(t);
        assert(scrollback::output_text(lines) =~= scrollback::output_text(t) + lines.last()
            + "\n"@);
    }
}

/// A text takes at least one row and no more than can be counted.
pub proof fn rows_are_counted(count: usize)
    ensures
        count == 0 ==> scrollback::shown_rows(count) == 1,
        1 <= count <= 65535 ==> scrollback::shown_rows(count) == count,
        count > 65535 ==> scrollback::shown_rows(count) == 65535,
{
}

/// A line is as long as the characters behind the last line break; the lines
/// of a text are short enough where each of them is.
pub proof fn lines_are_measured(s: Seq<char>, c: char, n: nat)
    ensures
        scrollback::open_line_len(Seq::empty()) == 0,
        c != '\n' ==> scrollback::open_line_len(s.push(c)) == scrollback::open_line_len(s) + 1,
        scrollback::open_line_len(s.push('\n')) == 0,
        scrollback::lines_within(Seq::empty(), n),
        scrollback::lines_within(s.push(c), n) == (scrollback::lines_within(s, n)
            && scrollback::open_line_len(s.push(c)) <= n),
{
    assert(s.push(c).drop_last() =~= s);
}

/// Neighbouring cells of one look are one run: a cell of the same look makes
/// the last run longer, and one of another look starts a run.
pub proof fn cells_of_one_look_are_one_run(cells: Seq<CellView>, c: CellView)
    ensures
        ({
            let before = scrollback::grouped(cells);
            let now = scrollback::grouped(cells.push(c));
            let pen = PenView { fg: c.fg, bg: c.bg, modifier: c.modifier };
            let goes_on = before.len() > 0 && before.last().pen == pen;
            &&& now.len() == before.len() + (if goes_on {
                0int
            } else {
                1
            })
            &&& now.last().pen == pen
            &&& goes_on ==> now.drop_last() == before.drop_last() && now.last().text
                == before.last().text + c.symbol
            &&& !goes_on ==> now.drop_last() == before && now.last().text == c.symbol
        }),
{
    assert(cells.push(c).drop_last() =~= cells);
    let before = scrollback::grouped(cells);
    let now = scrollback::grouped(cells.push(c));
    if before.len() > 0 && before.last().pen == scrollback::cell_pen(c) {
        assert(now.drop_last() =~= before.drop_last());
    } else {
        assert(now.drop_last() =~= before);
    }
}

/// Attributes are numbered by bits, from the lowest up: the number is the
/// sum of the bits of those that are on.
pub proof fn attributes_are_numbered_by_bits(bits: u16)
    requires
        bits < 512,
    ensures
        ({
            let m = Modifiers::of_bits(bits);
            let bit = |on: bool, n: int|
                if on {
                    n
                } else {
                    0
                };
            bits == bit(m.bold, 1) + bit(m.dim, 2) + bit(m.italic, 4) + bit(m.underlined, 8) + bit(
                m.slow_blink,
                16,
            ) + bit(m.rapid_blink, 32) + bit(m.reversed, 64) + bit(m.hidden, 128) + bit(
                m.crossed_out,
                256,
            )
        }),
{
    let b = bits as int;
    assert(b / 4 == (b / 2) / 2 && b / 8 == (b / 4) / 2 && b / 16 == (b / 8) / 2);
    assert(b / 32 == (b / 16) / 2 && b / 64 == (b / 32) / 2 && b / 128 == (b / 64) / 2);
    assert(b / 256 == (b / 128) / 2 && b / 256 < 2);
    assert(b == 2 * (b / 2) + b % 2);
    assert(b / 2 == 2 * (b / 4) + (b / 2) % 2);
    assert(b / 4 == 2 * (b / 8) + (b / 4) % 2);
    assert(b / 8 == 2 * (b / 16) + (b / 8) % 2);
    assert(b / 16 == 2 * (b / 32) + (b / 16) % 2);
    assert(b / 32 == 2 * (b / 64) + (b / 32) % 2);
    assert(b / 64 == 2 * (b / 128) + (b / 64) % 2);
    assert(b / 128 == 2 * (b / 256) + (b / 128) % 2);
}

/// What can be shown of a text at a width is bounded by the width, or by the
/// length of its lines.
pub proof fn short_lines_can_always_be_shown(s: Seq<char>, width: u16)
    ensures
        width <= 16384 ==> scrollback::can_be_wrapped(s, width),
        scrollback::lines_within(s, 21845) ==> scrollback::can_be_wrapped(s, width),
        width <= 16384 ==> scrollback::row_room(width) == 3 * width,
        width > 16384 ==> scrollback::row_room(width) == 65535,
{
}

} // verus!
