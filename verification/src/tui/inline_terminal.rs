//! The part of the screen that the interface draws in, and how a change of
//! what it shows is drawn.

use super::ui::Area;
use crate::text;
use unicode_width::UnicodeWidthStr;
use vstd::prelude::*;

verus! {

/// What an operating system command starts with, before its bracket.
pub const ESC: char = '\u{1b}';

/// What ends an operating system command.
pub const BEL: char = '\u{7}';

/// The color that a terminal has by itself.
pub const RESET: &'static str = "Reset";

/// How many columns a text takes up.
pub uninterp spec fn column_width(s: Seq<char>) -> usize;

pub open spec fn is_printable_ascii(s: Seq<char>) -> bool {
    forall|i: int| 0 <= i < s.len() ==> ' ' <= #[trigger] s[i] && s[i] <= '~'
}

/// How many columns a text takes up. This is `UnicodeWidthStr::width` of the
/// crate `unicode-width`, whose rules take pages: only that the width depends
/// on the text alone is used, and that each printable ASCII character takes
/// up one column.
#[verifier::external_body]
pub(crate) fn columns(s: &str) -> (r: usize)
    ensures
        r == column_width(s@),
        is_printable_ascii(s@) ==> r == s@.len(),
{
    s.width()
}

/// The place behind the next command end from `i` on.
pub open spec fn behind_command(s: Seq<char>, i: int) -> int
    decreases s.len() - i,
{
    if i < 0 || i >= s.len() {
        i
    } else if s[i] == BEL {
        i + 1
    } else {
        behind_command(s, i + 1)
    }
}

proof fn lemma_behind_command(s: Seq<char>, i: int)
    requires
        0 <= i <= s.len(),
    ensures
        i <= behind_command(s, i) <= s.len(),
    decreases s.len() - i,
{
    if i < s.len() && s[i] != BEL {
        lemma_behind_command(s, i + 1);
    }
}

/// What can be seen of a text from `i` on: all but the operating system
/// commands, such as the targets of links.
pub open spec fn visible_from(s: Seq<char>, i: int) -> Seq<char>
    decreases s.len() - i,
{
    if i < 0 || i >= s.len() {
        Seq::empty()
    } else if s[i] == ESC && i + 1 < s.len() && s[i + 1] == ']' {
        if i < behind_command(s, i + 2) <= s.len() {
            visible_from(s, behind_command(s, i + 2))
        } else {
            Seq::empty()
        }
    } else {
        seq![s[i]] + visible_from(s, i + 1)
    }
}

/// What can be seen of a text.
pub open spec fn visible(s: Seq<char>) -> Seq<char> {
    visible_from(s, 0)
}

/// How many columns a text takes up on the screen.
pub open spec fn shown_width(s: Seq<char>) -> usize {
    column_width(visible(s))
}

fn visible_text(s: &str) -> (r: String)
    ensures
        r@ == visible(s@),
{
    let chars = text::chars_of(s);
    let n = chars.len();
    let mut out = String::new();
    let mut i: usize = 0;
    assert(out@ + visible_from(s@, 0) =~= visible(s@));
    while i < n
        invariant
            n == chars@.len(),
            chars@ == s@,
            i <= n,
            out@ + visible_from(s@, i as int) == visible(s@),
        decreases n - i,
    {
        if chars[i] == ESC && i + 1 < n && chars[i + 1] == ']' {
            let mut j: usize = i + 2;
            proof {
                lemma_behind_command(s@, i + 2);
            }
            while j < n && chars[j] != BEL
                invariant
                    n == chars@.len(),
                    chars@ == s@,
                    i + 2 <= j <= n,
                    behind_command(s@, i + 2) == behind_command(s@, j as int),
                decreases n - j,
            {
                j = j + 1;
            }
            i = if j < n {
                j + 1
            } else {
                n
            };
        } else {
            let ghost before = out@;
            out.push(chars[i]);
            assert(out@ + visible_from(s@, i + 1) =~= before + (seq![s@[i as int]] + visible_from(
                s@,
                i + 1,
            )));
            i = i + 1;
        }
    }
    assert(out@ + visible_from(s@, i as int) =~= out@);
    out
}

/// How many columns a text takes up on the screen. Operating system commands
/// take up none.
pub fn display_width(s: &str) -> (r: usize)
    ensures
        r == shown_width(s@),
        is_printable_ascii(s@) ==> r == s@.len(),
{
    proof {
        if is_printable_ascii(s@) {
            lemma_all_visible(s@, 0);
            assert(s@.skip(0) =~= s@);
        }
    }
    let shown = visible_text(s);
    columns(shown.as_str())
}

proof fn lemma_all_visible(s: Seq<char>, i: int)
    requires
        0 <= i <= s.len(),
        is_printable_ascii(s),
    ensures
        visible_from(s, i) == s.skip(i),
    decreases s.len() - i,
{
    if i < s.len() {
        assert(' ' <= s[i]);
        lemma_all_visible(s, i + 1);
        assert(seq![s[i]] + s.skip(i + 1) =~= s.skip(i));
    } else {
        assert(s.skip(i) =~= Seq::empty());
    }
}

/// A place on the screen.
#[derive(Debug, Clone, Copy, PartialEq, Eq, Structural)]
pub struct Position {
    pub x: u16,
    pub y: u16,
}

/// The size of the screen.
#[derive(Debug, Clone, Copy, PartialEq, Eq, Structural)]
pub struct Size {
    pub width: u16,
    pub height: u16,
}

/// What one cell of the screen shows. Colors go by their names.
#[derive(Debug)]
pub struct Cell {
    pub symbol: String,
    pub fg: String,
    pub bg: String,
    /// The bits of the attributes.
    pub modifier: u16,
    /// Whether the cell is left alone.
    pub skip: bool,
}

#[verifier::ext_equal]
pub struct CellView {
    pub symbol: Seq<char>,
    pub fg: Seq<char>,
    pub bg: Seq<char>,
    pub modifier: u16,
    pub skip: bool,
}

impl View for Cell {
    type V = CellView;

    open spec fn view(&self) -> CellView {
        CellView {
            symbol: self.symbol@,
            fg: self.fg@,
            bg: self.bg@,
            modifier: self.modifier,
            skip: self.skip,
        }
    }
}

impl Clone for Cell {
    fn clone(&self) -> (r: Self)
        ensures
            r@ == self@,
    {
        Cell {
            symbol: self.symbol.clone(),
            fg: self.fg.clone(),
            bg: self.bg.clone(),
            modifier: self.modifier,
            skip: self.skip,
        }
    }
}

impl CellView {
    pub open spec fn empty() -> CellView {
        CellView { symbol: " "@, fg: RESET@, bg: RESET@, modifier: 0, skip: false }
    }

    pub open spec fn width(self) -> usize {
        shown_width(self.symbol)
    }

    /// Whether the cell shows nothing on the given background.
    pub open spec fn is_blank(self, bg: Seq<char>) -> bool {
        self.symbol == " "@ && self.bg == bg && self.modifier == 0
    }
}

impl Cell {
    /// A cell that shows nothing.
    pub fn blank() -> (r: Self)
        ensures
            r@ == CellView::empty(),
    {
        Cell {
            symbol: " ".to_owned(),
            fg: RESET.to_owned(),
            bg: RESET.to_owned(),
            modifier: 0,
            skip: false,
        }
    }

    /// Whether two cells show the same.
    pub fn same(&self, other: &Cell) -> (r: bool)
        ensures
            r == (self@ == other@),
    {
        let r = text::same(self.symbol.as_str(), other.symbol.as_str()) && text::same(
            self.fg.as_str(),
            other.fg.as_str(),
        ) && text::same(self.bg.as_str(), other.bg.as_str()) && self.modifier == other.modifier
            && self.skip == other.skip;
        r
    }

    /// Whether the cell shows nothing on the given background.
    pub fn is_blank_on(&self, bg: &str) -> (r: bool)
        ensures
            r == self@.is_blank(bg@),
    {
        text::same(self.symbol.as_str(), " ") && text::same(self.bg.as_str(), bg)
            && self.modifier == 0
    }
}

/// The views of some cells.
pub open spec fn cell_views(v: Seq<Cell>) -> Seq<CellView> {
    v.map_values(|c: Cell| c@)
}

/// What a part of the screen shows, row by row.
#[derive(Debug)]
pub struct Buffer {
    pub area: Area,
    pub content: Vec<Cell>,
}

#[verifier::ext_equal]
pub struct BufferView {
    pub area: Area,
    pub cells: Seq<CellView>,
}

impl View for Buffer {
    type V = BufferView;

    open spec fn view(&self) -> BufferView {
        BufferView { area: self.area, cells: cell_views(self.content@) }
    }
}

/// How many cells an area has.
pub open spec fn cell_count(area: Area) -> int {
    area.width * area.height
}

fn count_cells(area: Area) -> (r: usize)
    ensures
        r == cell_count(area),
{
    assert(0 <= area.width * area.height <= 65535 * 65535) by (nonlinear_arith)
        requires
            area.width <= 65535,
            area.height <= 65535,
    ;
    area.width as usize * area.height as usize
}

impl BufferView {
    pub open spec fn wf(self) -> bool {
        self.area.fits() && self.cells.len() == cell_count(self.area)
    }

    /// The row with the given number.
    pub open spec fn row(self, y: int) -> Seq<CellView> {
        self.cells.subrange(y * self.area.width, (y + 1) * self.area.width)
    }

    /// A buffer that shows nothing.
    pub open spec fn blank(area: Area) -> BufferView {
        BufferView { area, cells: Seq::new(cell_count(area) as nat, |i: int| CellView::empty()) }
    }

    /// The buffer on another area: the first cells stay, and what is added
    /// shows nothing.
    pub open spec fn resized(self, area: Area) -> BufferView {
        BufferView {
            area,
            cells: Seq::new(
                cell_count(area) as nat,
                |i: int|
                    if i < self.cells.len() {
                        self.cells[i]
                    } else {
                        CellView::empty()
                    },
            ),
        }
    }
}

impl Buffer {
    /// A buffer that shows nothing.
    pub fn empty(area: Area) -> (r: Self)
        ensures
            r@ == BufferView::blank(area),
    {
        let mut r = Buffer { area: Area { x: 0, y: 0, width: 0, height: 0 }, content: Vec::new() };
        r.resize(area);
        assert(r@ =~= BufferView::blank(area));
        r
    }

    /// Puts the buffer on another area.
    pub fn resize(&mut self, area: Area)
        ensures
            final(self)@ == old(self)@.resized(area),
    {
        let n = count_cells(area);
        let ghost before = self.content@;
        if self.content.len() > n {
            self.content.truncate(n);
        }
        while self.content.len() < n
            invariant
                n == cell_count(area),
                self.content@.len() <= n,
                self.content@.len() >= old(self).content@.len() || self.content@.len() == n,
                cell_views(self.content@) =~= old(self)@.resized(area).cells.take(
                    self.content@.len() as int,
                ),
                self.area == old(self).area,
            decreases n - self.content@.len(),
        {
            self.content.push(Cell::blank());
        }
        self.area = area;
        assert(self@ =~= old(self)@.resized(area));
    }

    /// Makes the buffer show nothing.
    pub fn reset(&mut self)
        requires
            old(self)@.wf(),
        ensures
            final(self)@ == BufferView::blank(old(self)@.area),
    {
        let area = self.area;
        self.content = Vec::new();
        self.resize(area);
        assert(self@ =~= BufferView::blank(area));
    }
}

/// One step of drawing.
#[derive(Debug)]
pub enum DrawCommand {
    Cell { x: u16, y: u16, cell: Cell },
    /// Clear the rest of a line.
    ClearTrailingCells { x: u16, y: u16, bg: String },
}

#[verifier::ext_equal]
#[allow(inconsistent_fields)]
pub enum CommandView {
    Cell { x: u16, y: u16, cell: CellView },
    Clear { x: u16, y: u16, bg: Seq<char> },
}

impl View for DrawCommand {
    type V = CommandView;

    open spec fn view(&self) -> CommandView {
        match *self {
            DrawCommand::Cell { x, y, cell } => CommandView::Cell { x, y, cell: cell@ },
            DrawCommand::ClearTrailingCells { x, y, bg } => CommandView::Clear { x, y, bg: bg@ },
        }
    }
}

pub open spec fn commands(v: Seq<DrawCommand>) -> Seq<CommandView> {
    v.map_values(|c: DrawCommand| c@)
}

pub open spec fn saturated(n: int) -> usize {
    if n > usize::MAX {
        usize::MAX
    } else {
        n as usize
    }
}

pub open spec fn less_one(n: usize) -> int {
    if n == 0 {
        0
    } else {
        n - 1
    }
}

/// The last column from `column` on that shows something, or `last` where
/// none does. A wide symbol reaches into the columns behind its own.
pub open spec fn last_shown(row: Seq<CellView>, bg: Seq<char>, column: int, last: usize) -> usize
    decreases row.len() - column,
{
    if column < 0 || column >= row.len() {
        last
    } else {
        let cell = row[column];
        let width = cell.width();
        last_shown(
            row,
            bg,
            if column + width >= row.len() {
                row.len() as int
            } else if width == 0 {
                column + 1
            } else {
                column + width
            },
            if cell.is_blank(bg) {
                last
            } else {
                saturated(column + less_one(width))
            },
        )
    }
}

/// The background of a row's end.
pub open spec fn end_bg(row: Seq<CellView>) -> Seq<char> {
    if row.len() == 0 {
        RESET@
    } else {
        row.last().bg
    }
}

impl BufferView {
    /// The last column of a row that shows something.
    pub open spec fn row_last(self, y: int) -> usize {
        last_shown(self.row(y), end_bg(self.row(y)), 0, 0)
    }

    /// What clears the end of a row, where it shows nothing.
    pub open spec fn row_clear(self, y: int) -> Seq<CommandView> {
        if self.row_last(y) + 1 < self.area.width {
            seq![
                CommandView::Clear {
                    x: (self.area.x + self.row_last(y) + 1) as u16,
                    y: (self.area.y + y) as u16,
                    bg: end_bg(self.row(y)),
                },
            ]
        } else {
            Seq::empty()
        }
    }

    /// What clears the ends of the first rows.
    pub open spec fn clears(self, rows: nat) -> Seq<CommandView>
        decreases rows,
    {
        if rows == 0 {
            Seq::empty()
        } else {
            self.clears((rows - 1) as nat) + self.row_clear(rows - 1)
        }
    }

    /// The column of a cell on the screen.
    pub open spec fn x_of(self, i: int) -> int {
        self.area.x + i % (self.area.width as int)
    }

    pub open spec fn row_of(self, i: int) -> int {
        i / (self.area.width as int)
    }
}

pub open spec fn wider(a: usize, b: usize) -> usize {
    if a < b {
        b
    } else {
        a
    }
}

/// Whether a cell is drawn anew. `invalidated` columns were covered by what
/// was shown before, and `to_skip` are covered by the symbol just drawn.
pub open spec fn needs_drawing(
    before: CellView,
    next: CellView,
    invalidated: usize,
    to_skip: usize,
) -> bool {
    !next.skip && (next != before || invalidated > 0) && to_skip == 0
}

/// How many columns behind a cell are covered by what was shown before.
pub open spec fn invalidated_behind(
    before: CellView,
    next: CellView,
    invalidated: usize,
) -> usize {
    less_one(wider(wider(next.width(), before.width()), invalidated)) as usize
}

/// What draws one cell. Its column on the screen is held against the last
/// column of its row that shows something, counted within the row, so that
/// the buffer is meant to start at the left edge of the screen.
pub open spec fn cell_put(
    a: BufferView,
    b: BufferView,
    i: int,
    invalidated: usize,
    to_skip: usize,
) -> Seq<CommandView> {
    if needs_drawing(a.cells[i], b.cells[i], invalidated, to_skip) && b.x_of(i) <= b.row_last(
        b.row_of(i),
    ) as u16 {
        seq![
            CommandView::Cell {
                x: b.x_of(i) as u16,
                y: (b.area.y + b.row_of(i)) as u16,
                cell: b.cells[i],
            },
        ]
    } else {
        Seq::empty()
    }
}

/// What draws the cells from `i` on.
pub open spec fn puts(
    a: BufferView,
    b: BufferView,
    i: int,
    invalidated: usize,
    to_skip: usize,
) -> Seq<CommandView>
    decreases b.cells.len() - i,
{
    if i < 0 || i >= b.cells.len() {
        Seq::empty()
    } else {
        cell_put(a, b, i, invalidated, to_skip) + puts(
            a,
            b,
            i + 1,
            invalidated_behind(a.cells[i], b.cells[i], invalidated),
            less_one(b.cells[i].width()) as usize,
        )
    }
}

/// What makes a screen that shows one buffer show another: first the rows'
/// ends that show nothing are cleared, then the cells that changed are drawn.
/// The buffers are meant to start at the left edge of the screen.
pub open spec fn difference(a: BufferView, b: BufferView) -> Seq<CommandView> {
    b.clears(b.area.height as nat) + puts(a, b, 0, 0, 0)
}

fn find_last_shown(b: &Buffer, row_start: usize, width: usize, bg: &str) -> (r: usize)
    requires
        row_start + width <= b.content@.len(),
    ensures
        r == last_shown(
            b@.cells.subrange(row_start as int, row_start + width),
            bg@,
            0,
            0,
        ),
{
    let ghost row = b@.cells.subrange(row_start as int, row_start + width);
    let n = b.content.len();
    let mut last: usize = 0;
    let mut column: usize = 0;
    while column < width
        invariant
            n == b.content@.len(),
            row_start + width <= n,
            row == b@.cells.subrange(row_start as int, row_start + width),
            last_shown(row, bg@, 0, 0) == last_shown(row, bg@, column as int, last),
        decreases width - column,
    {
        let cell = &b.content[row_start + column];
        assert(row[column as int] == cell@);
        let w = display_width(cell.symbol.as_str());
        if !cell.is_blank_on(bg) {
            last = column.saturating_add(w.saturating_sub(1));
        }
        let step: usize = if w == 0 {
            1
        } else {
            w
        };
        if step >= width - column {
            assert(last_shown(row, bg@, row.len() as int, last) == last);
            return last;
        }
        column = column + step;
    }
    last
}

proof fn lemma_row_bounds(width: int, height: int, y: int)
    requires
        0 <= y < height,
        0 <= width,
    ensures
        0 <= y * width <= (y + 1) * width <= width * height,
        (y + 1) * width == y * width + width,
{
    assert(0 <= y * width <= (y + 1) * width <= width * height && (y + 1) * width == y * width
        + width) by (nonlinear_arith)
        requires
            0 <= y < height,
            0 <= width,
    ;
}

pub proof fn lemma_cell_row(width: int, height: int, i: int)
    requires
        0 <= i < width * height,
        0 <= width,
        0 <= height,
    ensures
        0 < width,
        0 <= i / width < height,
        0 <= i % width < width,
{
    if width == 0 {
        assert(width * height == 0) by (nonlinear_arith)
            requires
                width == 0,
        ;
    }
    vstd::arithmetic::div_mod::lemma_fundamental_div_mod(i, width);
    vstd::arithmetic::div_mod::lemma_mod_bound(i, width);
    assert(i / width < height && 0 <= i / width) by (nonlinear_arith)
        requires
            0 <= i < width * height,
            width > 0,
            i == width * (i / width) + i % width,
            0 <= i % width < width,
    ;
}

/// What makes a screen that shows one buffer show another, where the buffers
/// start at its left edge.
pub fn diff_buffers(a: &Buffer, b: &Buffer) -> (r: Vec<DrawCommand>)
    requires
        a@.wf(),
        b@.wf(),
        a@.area == b@.area,
    ensures
        commands(r@) == difference(a@, b@),
{
    let area = b.area;
    let width = area.width as usize;
    let n = b.content.len();
    let mut updates: Vec<DrawCommand> = Vec::new();
    let mut lasts: Vec<u16> = Vec::new();
    let mut y: u16 = 0;
    let mut row_start: usize = 0;
    while y < area.height
        invariant
            b@.wf(),
            area == b@.area,
            width == area.width,
            n == b@.cells.len(),
            y <= area.height,
            row_start == y * area.width,
            lasts@.len() == y,
            forall|k: int| 0 <= k < y ==> #[trigger] lasts@[k] == b@.row_last(k) as u16,
            commands(updates@) == b@.clears(y as nat),
        decreases area.height - y,
    {
        proof {
            lemma_row_bounds(area.width as int, area.height as int, y as int);
        }
        let bg = if width == 0 {
            RESET.to_owned()
        } else {
            assert(b@.row(y as int).last() == b.content@[row_start + width - 1]@);
            b.content[row_start + width - 1].bg.clone()
        };
        assert(bg@ == end_bg(b@.row(y as int)));
        let last = find_last_shown(b, row_start, width, bg.as_str());
        let ghost before = updates@;
        if width > 0 && last < width - 1 {
            updates.push(
                DrawCommand::ClearTrailingCells {
                    x: area.x + last as u16 + 1,
                    y: area.y + y,
                    bg,
                },
            );
        }
        assert(commands(updates@) =~= commands(before) + b@.row_clear(y as int));
        lasts.push(last as u16);
        row_start = row_start + width;
        y = y + 1;
    }
    let mut invalidated: usize = 0;
    let mut to_skip: usize = 0;
    let mut i: usize = 0;
    assert(commands(updates@) + puts(a@, b@, 0, 0, 0) =~= difference(a@, b@));
    while i < n
        invariant
            a@.wf(),
            b@.wf(),
            a@.area == b@.area,
            area == b@.area,
            width == area.width,
            n == b@.cells.len(),
            i <= n,
            lasts@.len() == area.height,
            forall|k: int| 0 <= k < area.height ==> #[trigger] lasts@[k] == b@.row_last(k) as u16,
            commands(updates@) + puts(a@, b@, i as int, invalidated, to_skip) == difference(
                a@,
                b@,
            ),
        decreases n - i,
    {
        proof {
            lemma_cell_row(area.width as int, area.height as int, i as int);
        }
        let current = &b.content[i];
        let previous = &a.content[i];
        assert(b@.cells[i as int] == current@);
        assert(a@.cells[i as int] == previous@);
        let ghost before = updates@;
        if !current.skip && (!current.same(previous) || invalidated > 0) && to_skip == 0 {
            let x: u16 = area.x + (i % width) as u16;
            let row: usize = i / width;
            if x <= lasts[row] {
                updates.push(
                    DrawCommand::Cell { x, y: area.y + row as u16, cell: current.clone() },
                );
            }
        }
        assert(commands(updates@) =~= commands(before) + cell_put(
            a@,
            b@,
            i as int,
            invalidated,
            to_skip,
        ));
        let w_next = display_width(current.symbol.as_str());
        let w_before = display_width(previous.symbol.as_str());
        let affected = if w_next < w_before {
            w_before
        } else {
            w_next
        };
        let ghost put = cell_put(a@, b@, i as int, invalidated, to_skip);
        to_skip = w_next.saturating_sub(1);
        invalidated = if affected < invalidated {
            invalidated.saturating_sub(1)
        } else {
            affected.saturating_sub(1)
        };
        assert((commands(before) + put) + puts(a@, b@, i + 1, invalidated, to_skip) =~= commands(
            before,
        ) + (put + puts(a@, b@, i + 1, invalidated, to_skip)));
        i = i + 1;
    }
    assert(commands(updates@) + puts(a@, b@, i as int, invalidated, to_skip) =~= commands(
        updates@,
    ));
    updates
}

/// The terminal, as far as it is known: what it shows in the part that the
/// interface draws in, and where that is.
#[derive(Debug)]
pub struct Terminal {
    /// What is drawn next.
    pub current: Buffer,
    /// What is shown.
    pub previous: Buffer,
    pub hidden_cursor: bool,
    pub viewport_area: Area,
    pub last_known_screen_size: Size,
    pub last_known_cursor_pos: Position,
    /// How many rows above hold output.
    pub visible_history_rows: u16,
}

#[verifier::ext_equal]
pub struct TerminalView {
    pub current: BufferView,
    pub previous: BufferView,
    pub hidden_cursor: bool,
    pub area: Area,
    pub screen: Size,
    pub cursor: Position,
    pub history_rows: u16,
}

impl View for Terminal {
    type V = TerminalView;

    open spec fn view(&self) -> TerminalView {
        TerminalView {
            current: self.current@,
            previous: self.previous@,
            hidden_cursor: self.hidden_cursor,
            area: self.viewport_area,
            screen: self.last_known_screen_size,
            cursor: self.last_known_cursor_pos,
            history_rows: self.visible_history_rows,
        }
    }
}

/// Where the last cell of some commands is drawn.
pub open spec fn last_cell(all: Seq<CommandView>) -> Option<Position>
    decreases all.len(),
{
    if all.len() == 0 {
        None
    } else {
        match all.last() {
            CommandView::Cell { x, y, cell } => Some(Position { x, y }),
            _ => last_cell(all.drop_last()),
        }
    }
}

fn find_last_cell(all: &Vec<DrawCommand>) -> (r: Option<Position>)
    ensures
        r == last_cell(commands(all@)),
{
    let mut i: usize = all.len();
    assert(commands(all@).take(i as int) =~= commands(all@));
    while i > 0
        invariant
            i <= all@.len(),
            last_cell(commands(all@)) == last_cell(commands(all@).take(i as int)),
        decreases i,
    {
        proof {
            let part = commands(all@).take(i as int);
            assert(part.last() == all@[i - 1]@);
            assert(part.drop_last() =~= commands(all@).take(i - 1));
        }
        if let DrawCommand::Cell { x, y, cell: _ } = &all[i - 1] {
            return Some(Position { x: *x, y: *y });
        }
        i = i - 1;
    }
    None
}

impl TerminalView {
    /// Whether both buffers are for the same area, and no more rows hold
    /// output than there are above.
    pub open spec fn wf(self) -> bool {
        &&& self.current.wf()
        &&& self.previous.wf()
        &&& self.current.area == self.previous.area
        &&& self.history_rows <= self.area.y
        &&& self.area.fits()
    }

    /// The terminal with the interface on another area.
    pub open spec fn moved(self, area: Area) -> TerminalView {
        TerminalView {
            current: self.current.resized(area),
            previous: self.previous.resized(area),
            area,
            history_rows: if self.history_rows < area.y {
                self.history_rows
            } else {
                area.y
            },
            ..self
        }
    }

    /// The terminal with nothing known of what it shows.
    pub open spec fn invalidated(self) -> TerminalView {
        TerminalView { previous: BufferView::blank(self.previous.area), ..self }
    }

    /// The terminal after more rows of output.
    pub open spec fn recorded(self, rows: u16) -> TerminalView {
        let all = self.history_rows + rows;
        TerminalView {
            history_rows: if all < self.area.y {
                all as u16
            } else {
                self.area.y
            },
            ..self
        }
    }

    /// The terminal once what was to be drawn is shown.
    pub open spec fn swapped(self) -> TerminalView {
        TerminalView {
            current: BufferView::blank(self.previous.area),
            previous: self.current,
            ..self
        }
    }
}

impl Terminal {
    /// A terminal with the interface still to be placed, at the row of the
    /// cursor. Where the terminal does not say where its cursor is, that is
    /// the first row.
    pub fn new(screen_size: Size, cursor: Option<Position>) -> (r: Self)
        ensures
            r@.wf(),
            ({
                let at = match cursor {
                    Some(p) => p,
                    None => Position { x: 0, y: 0 },
                };
                let none = Area { x: 0, y: 0, width: 0, height: 0 };
                r@ == (TerminalView {
                    current: BufferView::blank(none),
                    previous: BufferView::blank(none),
                    hidden_cursor: false,
                    area: Area { x: 0, y: at.y, width: 0, height: 0 },
                    screen: screen_size,
                    cursor: at,
                    history_rows: 0,
                })
            }),
    {
        let at = match cursor {
            Some(p) => p,
            None => Position { x: 0, y: 0 },
        };
        let none = Area { x: 0, y: 0, width: 0, height: 0 };
        Terminal {
            current: Buffer::empty(none),
            previous: Buffer::empty(none),
            hidden_cursor: false,
            viewport_area: Area { x: 0, y: at.y, width: 0, height: 0 },
            last_known_screen_size: screen_size,
            last_known_cursor_pos: at,
            visible_history_rows: 0,
        }
    }

    /// What makes the screen show what is drawn next. The cursor is then
    /// behind the last cell that is drawn.
    pub fn flush(&mut self) -> (r: Vec<DrawCommand>)
        requires
            old(self)@.wf(),
        ensures
            commands(r@) == difference(old(self)@.previous, old(self)@.current),
            final(self)@ == (TerminalView {
                cursor: match last_cell(commands(r@)) {
                    Some(p) => p,
                    None => old(self)@.cursor,
                },
                ..old(self)@
            }),
    {
        let updates = diff_buffers(&self.previous, &self.current);
        if let Some(p) = find_last_cell(&updates) {
            self.last_known_cursor_pos = p;
        }
        updates
    }

    /// Takes note of the size of the screen. The interface stays where it
    /// is.
    pub fn resize(&mut self, screen_size: Size)
        ensures
            final(self)@ == (TerminalView { screen: screen_size, ..old(self)@ }),
    {
        self.last_known_screen_size = screen_size;
    }

    /// Puts the interface on another area.
    pub fn set_viewport_area(&mut self, area: Area)
        requires
            old(self)@.wf(),
        ensures
            final(self)@ == old(self)@.moved(area),
            area.fits() ==> final(self)@.wf(),
    {
        proof {
            assert(cell_count(area) >= 0) by (nonlinear_arith)
                requires
                    cell_count(area) == area.width * area.height,
            ;
        }
        self.current.resize(area);
        self.previous.resize(area);
        self.viewport_area = area;
        if self.visible_history_rows >= area.y {
            self.visible_history_rows = area.y;
        }
    }

    /// Takes note that the cursor is hidden.
    pub fn hide_cursor(&mut self)
        ensures
            final(self)@ == (TerminalView { hidden_cursor: true, ..old(self)@ }),
    {
        self.hidden_cursor = true;
    }

    /// Takes note that the cursor is shown.
    pub fn show_cursor(&mut self)
        ensures
            final(self)@ == (TerminalView { hidden_cursor: false, ..old(self)@ }),
    {
        self.hidden_cursor = false;
    }

    /// Takes note of where the cursor is.
    pub fn set_cursor_position(&mut self, position: Position)
        ensures
            final(self)@ == (TerminalView { cursor: position, ..old(self)@ }),
    {
        self.last_known_cursor_pos = position;
    }

    /// Clears the interface, and gives the place from which the screen is to
    /// be cleared, if there is any.
    pub fn clear(&mut self) -> (r: Option<Position>)
        requires
            old(self)@.wf(),
        ensures
            final(self)@.wf(),
            ({
                let area = old(self)@.area;
                if area.width == 0 || area.height == 0 {
                    r is None && final(self)@ == old(self)@
                } else {
                    r == Some(Position { x: area.x, y: area.y }) && final(self)@ == old(
                        self,
                    )@.invalidated()
                }
            }),
    {
        let area = self.viewport_area;
        if area.width == 0 || area.height == 0 {
            return None;
        }
        self.previous.reset();
        Some(Position { x: area.x, y: area.y })
    }

    /// Forgets what is shown, so that everything is drawn anew.
    pub fn invalidate_viewport(&mut self)
        requires
            old(self)@.wf(),
        ensures
            final(self)@ == old(self)@.invalidated(),
            final(self)@.wf(),
    {
        self.previous.reset();
    }

    /// Takes note that the whole screen was cleared and the cursor is at its
    /// start.
    pub fn clear_visible_screen(&mut self)
        requires
            old(self)@.wf(),
        ensures
            final(self)@ == (TerminalView {
                cursor: (Position { x: 0, y: 0 }),
                history_rows: 0,
                ..old(self)@.invalidated()
            }),
            final(self)@.wf(),
    {
        self.last_known_cursor_pos = Position { x: 0, y: 0 };
        self.visible_history_rows = 0;
        self.previous.reset();
    }

    /// How many rows above the interface hold output.
    pub fn visible_history_rows(&self) -> (r: u16)
        ensures
            r == self@.history_rows,
    {
        self.visible_history_rows
    }

    /// Takes note of more rows of output above the interface.
    pub fn record_history_rows(&mut self, inserted_rows: u16)
        requires
            old(self)@.wf(),
        ensures
            final(self)@ == old(self)@.recorded(inserted_rows),
            final(self)@.wf(),
    {
        let all = self.visible_history_rows.saturating_add(inserted_rows);
        self.visible_history_rows = if all < self.viewport_area.y {
            all
        } else {
            self.viewport_area.y
        };
    }

    /// Takes note that what was to be drawn is shown.
    pub fn swap_buffers(&mut self)
        requires
            old(self)@.wf(),
        ensures
            final(self)@ == old(self)@.swapped(),
            final(self)@.wf(),
    {
        self.previous.reset();
        std::mem::swap(&mut self.previous, &mut self.current);
    }

    /// The area of the interface.
    pub fn area(&self) -> (r: Area)
        ensures
            r == self@.area,
    {
        self.viewport_area
    }

    /// The size of the screen when it was last drawn.
    pub fn screen_size(&self) -> (r: Size)
        ensures
            r == self@.screen,
    {
        self.last_known_screen_size
    }

    /// Where the cursor is.
    pub fn cursor_position(&self) -> (r: Position)
        ensures
            r == self@.cursor,
    {
        self.last_known_cursor_pos
    }
}

} // verus!
