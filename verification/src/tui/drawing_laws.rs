//! What a terminal shows once it was told what to draw.

use super::drawing;
use super::drawing::{OpView, PenView, RunView};
use super::inline_terminal;
use super::inline_terminal::{BufferView, CellView, CommandView, Position, RESET};
use super::sgr;
use super::sgr::{Attribute, Modifiers};
use vstd::prelude::*;

verus! {

/// What text looks like.
#[verifier::ext_equal]
pub struct Look {
    pub fg: Seq<char>,
    pub bg: Seq<char>,
    pub attributes: Modifiers,
}

/// Where a terminal writes next, and what that looks like.
#[verifier::ext_equal]
pub struct Screen {
    pub x: int,
    pub y: int,
    pub look: Look,
}

/// A text that a terminal shows.
#[verifier::ext_equal]
pub struct Shown {
    pub x: int,
    pub y: int,
    pub look: Look,
    pub text: Seq<char>,
}

impl Look {
    pub open spec fn plain() -> Look {
        Look { fg: RESET@, bg: RESET@, attributes: Modifiers::nothing() }
    }

    pub open spec fn of(pen: PenView) -> Look {
        Look { fg: pen.fg, bg: pen.bg, attributes: Modifiers::of_bits(pen.modifier) }
    }
}

impl Screen {
    /// The terminal after one operation. Those that scroll or go by rows are
    /// not part of drawing.
    pub open spec fn told(self, op: OpView) -> Screen {
        match op {
            OpView::MoveTo { x, y } => Screen { x: x as int, y: y as int, ..self },
            OpView::SetAttribute { attribute } => Screen {
                look: Look { attributes: self.look.attributes.told(attribute), ..self.look },
                ..self
            },
            OpView::ResetAttributes => Screen { look: Look::plain(), ..self },
            OpView::SetColors { fg, bg } => Screen { look: Look { fg, bg, ..self.look }, ..self },
            OpView::SetForeground { color } => Screen {
                look: Look { fg: color, ..self.look },
                ..self
            },
            OpView::SetBackground { color } => Screen {
                look: Look { bg: color, ..self.look },
                ..self
            },
            OpView::Print { text } => Screen {
                x: self.x + inline_terminal::shown_width(text),
                ..self
            },
            OpView::MoveToColumn { column } => Screen { x: column as int, ..self },
            _ => self,
        }
    }

    /// The terminal after some operations.
    pub open spec fn told_all(self, ops: Seq<OpView>) -> Screen
        decreases ops.len(),
    {
        if ops.len() == 0 {
            self
        } else {
            self.told_all(ops.drop_last()).told(ops.last())
        }
    }

    /// What the terminal comes to show by some operations.
    pub open spec fn shows(self, ops: Seq<OpView>) -> Seq<Shown>
        decreases ops.len(),
    {
        if ops.len() == 0 {
            Seq::empty()
        } else {
            let before = self.told_all(ops.drop_last());
            match ops.last() {
                OpView::Print { text } => self.shows(ops.drop_last()).push(
                    Shown { x: before.x, y: before.y, look: before.look, text },
                ),
                _ => self.shows(ops.drop_last()),
            }
        }
    }
}

proof fn lemma_told_in_parts(s: Screen, a: Seq<OpView>, b: Seq<OpView>)
    ensures
        s.told_all(a + b) == s.told_all(a).told_all(b),
        s.shows(a + b) == s.shows(a) + s.told_all(a).shows(b),
    decreases b.len(),
{
    if b.len() == 0 {
        assert(a + b =~= a);
        assert(s.shows(a) + Seq::empty() =~= s.shows(a));
    } else {
        let init = b.drop_last();
        lemma_told_in_parts(s, a, init);
        assert((a + b).drop_last() =~= a + init);
        assert((a + b).last() == b.last());
        assert(s.shows(a + b) =~= s.shows(a) + s.told_all(a).shows(b));
    }
}

proof fn lemma_one_op(s: Screen, op: OpView)
    ensures
        s.told_all(seq![op]) == s.told(op),
        s.shows(seq![op]) == (match op {
            OpView::Print { text } => seq![Shown { x: s.x, y: s.y, look: s.look, text }],
            _ => Seq::empty(),
        }),
{
    let one = seq![op];
    assert(one.drop_last() =~= Seq::empty());
    assert(s.told_all(one.drop_last()) == s);
    assert(s.shows(one.drop_last()) =~= Seq::empty());
    assert(s.shows(one) =~= match op {
        OpView::Print { text } => seq![Shown { x: s.x, y: s.y, look: s.look, text }],
        _ => Seq::empty(),
    });
}

proof fn lemma_attributes_told(s: Screen, v: Seq<Attribute>)
    ensures
        s.told_all(drawing::attribute_ops(v)) == (Screen {
            look: Look { attributes: s.look.attributes.told_all(v), ..s.look },
            ..s
        }),
        s.shows(drawing::attribute_ops(v)) == Seq::<Shown>::empty(),
    decreases v.len(),
{
    reveal(Modifiers::told_all);
    let all = drawing::attribute_ops(v);
    if v.len() > 0 {
        lemma_attributes_told(s, v.drop_last());
        assert(all.drop_last() =~= drawing::attribute_ops(v.drop_last()));
        assert(all.last() == (OpView::SetAttribute { attribute: v.last() }));
    }
}

proof fn lemma_pen_changed(s: Screen, from: PenView, to: PenView)
    requires
        s.look == Look::of(from),
    ensures
        s.told_all(drawing::pen_ops(from, to)) == (Screen { look: Look::of(to), ..s }),
        s.shows(drawing::pen_ops(from, to)) == Seq::<Shown>::empty(),
{
    let none = Seq::<OpView>::empty();
    let a = Modifiers::of_bits(from.modifier);
    let b = Modifiers::of_bits(to.modifier);
    let attributes = if from.modifier == to.modifier {
        none
    } else {
        drawing::attribute_ops(sgr::told_between(a, b))
    };
    let colors = if from.fg == to.fg && from.bg == to.bg {
        none
    } else {
        seq![OpView::SetColors { fg: to.fg, bg: to.bg }]
    };
    let middle = Screen { look: Look { attributes: b, ..s.look }, ..s };
    if from.modifier == to.modifier {
        assert(s.told_all(none) == s);
    } else {
        lemma_attributes_told(s, sgr::told_between(a, b));
        sgr::change_reaches_its_target(a, b);
    }
    assert(s.told_all(attributes) == middle);
    assert(s.shows(attributes) =~= Seq::<Shown>::empty());
    if from.fg == to.fg && from.bg == to.bg {
        assert(middle.told_all(none) == middle);
        assert(middle.shows(none) =~= Seq::<Shown>::empty());
    } else {
        lemma_one_op(middle, OpView::SetColors { fg: to.fg, bg: to.bg });
    }
    lemma_told_in_parts(s, attributes, colors);
    assert(s.shows(attributes) + middle.shows(colors) =~= Seq::<Shown>::empty());
}

/// How many columns a command moves the terminal on.
pub open spec fn advance(c: CommandView) -> int {
    match c {
        CommandView::Cell { x, y, cell } => cell.width() as int,
        CommandView::Clear { x, y, bg } => 0,
    }
}

pub open spec fn place(c: CommandView) -> Position {
    Position { x: drawing::command_x(c), y: drawing::command_y(c) }
}

/// Whether rows are cleared before cells are drawn.
pub open spec fn clears_first(all: Seq<CommandView>) -> bool {
    forall|i: int, j: int|
        0 <= i < j < all.len() && (#[trigger] all[j] is Clear) ==> (#[trigger] all[i] is Clear)
}

/// Whether a command for the place behind another comes only where that one
/// is a cell of one column.
pub open spec fn spaced(all: Seq<CommandView>) -> bool {
    forall|i: int|
        0 < i < all.len() && drawing::follows(Some(place(all[i - 1])), #[trigger] all[i])
            ==> advance(all[i - 1]) == 1
}

pub open spec fn cell_look(cell: CellView) -> Look {
    Look { fg: cell.fg, bg: cell.bg, attributes: Modifiers::of_bits(cell.modifier) }
}

/// What the commands from `i` on are to show.
pub open spec fn meant_from(all: Seq<CommandView>, i: int) -> Seq<Shown>
    decreases all.len() - i,
{
    if i < 0 || i >= all.len() {
        Seq::empty()
    } else {
        match all[i] {
            CommandView::Cell { x, y, cell } => seq![
                Shown { x: x as int, y: y as int, look: cell_look(cell), text: cell.symbol },
            ] + meant_from(all, i + 1),
            _ => meant_from(all, i + 1),
        }
    }
}

/// Where the terminal is, and with what look, once a command at its own place
/// was carried out.
spec fn screen_behind(pen: PenView, c: CommandView) -> Screen {
    Screen {
        x: drawing::command_x(c) + advance(c),
        y: drawing::command_y(c) as int,
        look: Look::of(drawing::pen_after(pen, c)),
    }
}

/// What one command is to show.
spec fn meant_by(c: CommandView) -> Seq<Shown> {
    match c {
        CommandView::Cell { x, y, cell } => seq![
            Shown { x: x as int, y: y as int, look: cell_look(cell), text: cell.symbol },
        ],
        _ => Seq::empty(),
    }
}

proof fn lemma_body(pen: PenView, c: CommandView, here: Screen)
    requires
        here == (Screen {
            x: drawing::command_x(c) as int,
            y: drawing::command_y(c) as int,
            look: Look::of(pen),
        }),
        c is Clear ==> pen.fg == RESET@,
    ensures
        here.told_all(drawing::body_ops(pen, c)) == screen_behind(pen, c),
        here.shows(drawing::body_ops(pen, c)) == meant_by(c),
{
    let body = drawing::body_ops(pen, c);
    match c {
        CommandView::Cell { x, y, cell } => {
            let to = PenView { fg: cell.fg, bg: cell.bg, modifier: cell.modifier };
            let changes = drawing::pen_ops(pen, to);
            let print = OpView::Print { text: cell.symbol };
            lemma_pen_changed(here, pen, to);
            let ready = Screen { look: Look::of(to), ..here };
            lemma_one_op(ready, print);
            lemma_told_in_parts(here, changes, seq![print]);
            assert(body =~= changes + seq![print]);
            assert(here.shows(body) =~= meant_by(c));
        },
        CommandView::Clear { x, y, bg } => {
            let o1 = OpView::ResetAttributes;
            let o2 = OpView::SetBackground { color: bg };
            let o3 = OpView::ClearToLineEnd;
            let s1 = here.told(o1);
            let s2 = s1.told(o2);
            lemma_one_op(here, o1);
            lemma_one_op(s1, o2);
            lemma_one_op(s2, o3);
            lemma_told_in_parts(here, seq![o1], seq![o2]);
            lemma_told_in_parts(here, seq![o1] + seq![o2], seq![o3]);
            assert(body =~= seq![o1] + seq![o2] + seq![o3]);
            assert(Modifiers::of_bits(0) == Modifiers::nothing());
            assert(here.shows(body) =~= Seq::<Shown>::empty());
        },
    }
}

proof fn lemma_moved(s: Screen, last: Option<Position>, c: CommandView)
    requires
        drawing::follows(last, c) ==> s.x == drawing::command_x(c) && s.y == drawing::command_y(c),
    ensures
        s.told_all(drawing::move_ops(last, c)) == (Screen {
            x: drawing::command_x(c) as int,
            y: drawing::command_y(c) as int,
            look: s.look,
        }),
        s.shows(drawing::move_ops(last, c)) == Seq::<Shown>::empty(),
{
    if drawing::follows(last, c) {
        assert(s.told_all(Seq::<OpView>::empty()) == s);
    } else {
        lemma_one_op(s, OpView::MoveTo { x: drawing::command_x(c), y: drawing::command_y(c) });
    }
}

#[verifier::spinoff_prover]
proof fn lemma_drawn(
    all: Seq<CommandView>,
    i: int,
    pen: PenView,
    last: Option<Position>,
    s: Screen,
)
    requires
        0 <= i <= all.len(),
        clears_first(all),
        spaced(all),
        s.look == Look::of(pen),
        i > 0 && all[i - 1] is Cell || pen.fg == RESET@,
        i == 0 ==> last is None,
        i > 0 ==> last == Some(place(all[i - 1])) && s.y == drawing::command_y(all[i - 1]) && s.x
            == drawing::command_x(all[i - 1]) + advance(all[i - 1]),
    ensures
        s.shows(drawing::drawn_from(all, i, pen, last)) == meant_from(all, i),
    decreases all.len() - i,
{
    if i < all.len() {
        let c = all[i];
        let moves = drawing::move_ops(last, c);
        let body = drawing::body_ops(pen, c);
        let pen2 = drawing::pen_after(pen, c);
        let here = Screen {
            x: drawing::command_x(c) as int,
            y: drawing::command_y(c) as int,
            look: s.look,
        };
        lemma_moved(s, last, c);
        if c is Clear && i > 0 {
            assert(all[i - 1] is Clear);
        }
        lemma_body(pen, c, here);
        let behind = screen_behind(pen, c);
        lemma_told_in_parts(s, moves, body);
        lemma_drawn(all, i + 1, pen2, Some(place(c)), behind);
        let rest = drawing::drawn_from(all, i + 1, pen2, Some(place(c)));
        lemma_told_in_parts(s, moves + body, rest);
        assert(Seq::<Shown>::empty() + meant_by(c) =~= meant_by(c));
        assert(meant_by(c) + meant_from(all, i + 1) =~= meant_from(all, i));
    } else {
        assert(s.shows(Seq::<OpView>::empty()) =~= Seq::empty());
    }
}

/// A terminal that is told what draws some commands shows each cell at its
/// place and with its own look, and nothing else.
pub proof fn cells_are_shown_as_meant(all: Seq<CommandView>, s: Screen)
    requires
        clears_first(all),
        spaced(all),
        s.look == Look::plain(),
    ensures
        s.shows(drawing::drawn(all)) == meant_from(all, 0),
        s.told_all(drawing::drawn(all)).look == Look::plain(),
{
    assert(Modifiers::of_bits(0) == Modifiers::nothing());
    lemma_drawn(all, 0, PenView::plain(), None, s);
    let body = drawing::drawn_from(all, 0, PenView::plain(), None);
    let end = s.told_all(body);
    lemma_closing(end);
    lemma_told_in_parts(s, body, drawing::closing_ops());
    assert(s.shows(body) + Seq::<Shown>::empty() =~= s.shows(body));
}

proof fn lemma_closing(s: Screen)
    ensures
        s.told_all(drawing::closing_ops()) == (Screen { look: Look::plain(), ..s }),
        s.shows(drawing::closing_ops()) == Seq::<Shown>::empty(),
{
    let o1 = OpView::SetForeground { color: RESET@ };
    let o2 = OpView::SetBackground { color: RESET@ };
    let o3 = OpView::ResetAttributes;
    let s1 = s.told(o1);
    let s2 = s1.told(o2);
    lemma_one_op(s, o1);
    lemma_one_op(s1, o2);
    lemma_one_op(s2, o3);
    lemma_told_in_parts(s, seq![o1], seq![o2]);
    lemma_told_in_parts(s, seq![o1] + seq![o2], seq![o3]);
    assert(drawing::closing_ops() =~= seq![o1] + seq![o2] + seq![o3]);
    assert(s.shows(drawing::closing_ops()) =~= Seq::<Shown>::empty());
}

/// The texts and looks of what is shown.
pub open spec fn texts_and_looks(v: Seq<Shown>) -> Seq<(Seq<char>, Look)> {
    v.map_values(|t: Shown| (t.text, t.look))
}

proof fn lemma_written(all: Seq<RunView>, i: int, pen: PenView, s: Screen)
    requires
        0 <= i <= all.len(),
        s.look == Look::of(pen),
    ensures
        texts_and_looks(s.shows(drawing::written_from(all, i, pen))) == all.skip(i).map_values(
            |r: RunView| (r.text, Look::of(r.pen)),
        ),
    decreases all.len() - i,
{
    let meant = all.skip(i).map_values(|r: RunView| (r.text, Look::of(r.pen)));
    if i < all.len() {
        let run = all[i];
        let changes = drawing::pen_ops(pen, run.pen);
        let print = OpView::Print { text: run.text };
        lemma_pen_changed(s, pen, run.pen);
        let ready = Screen { look: Look::of(run.pen), ..s };
        lemma_one_op(ready, print);
        lemma_told_in_parts(s, changes, seq![print]);
        let here = changes.push(print);
        assert(here =~= changes + seq![print]);
        let next = s.told_all(here);
        assert(next.look == Look::of(run.pen));
        lemma_written(all, i + 1, run.pen, next);
        let rest = drawing::written_from(all, i + 1, run.pen);
        lemma_told_in_parts(s, here, rest);
        let rest_meant = all.skip(i + 1).map_values(|r: RunView| (r.text, Look::of(r.pen)));
        assert(meant =~= seq![(run.text, Look::of(run.pen))] + rest_meant);
        assert(s.shows(here) =~= seq![
            Shown { x: ready.x, y: ready.y, look: ready.look, text: run.text },
        ]);
        assert(texts_and_looks(s.shows(here) + next.shows(rest)) =~= texts_and_looks(s.shows(here))
            + texts_and_looks(next.shows(rest)));
        assert(texts_and_looks(s.shows(here)) =~= seq![(run.text, Look::of(run.pen))]);
    } else {
        assert(texts_and_looks(s.shows(Seq::<OpView>::empty())) =~= meant);
    }
}

/// A terminal that is told what writes some runs shows each with its own
/// look, in their order, and nothing else; and it is left with no look.
pub proof fn runs_are_shown_as_meant(all: Seq<RunView>, s: Screen)
    requires
        s.look == Look::plain(),
    ensures
        texts_and_looks(s.shows(drawing::written(all))) == all.map_values(
            |r: RunView| (r.text, Look::of(r.pen)),
        ),
        s.told_all(drawing::written(all)).look == Look::plain(),
{
    assert(Modifiers::of_bits(0) == Modifiers::nothing());
    lemma_written(all, 0, PenView::plain(), s);
    let body = drawing::written_from(all, 0, PenView::plain());
    lemma_closing(s.told_all(body));
    lemma_told_in_parts(s, body, drawing::closing_ops());
    assert(s.shows(body) + Seq::<Shown>::empty() =~= s.shows(body));
    assert(all.skip(0) =~= all);
}

/// Whether a command draws a cell of a buffer from `i` on.
spec fn is_put(b: BufferView, c: CommandView, i: int) -> bool {
    c matches CommandView::Cell { x, y, cell } && exists|k: int| #[trigger] put_at(b, c, i, k)
}

spec fn put_at(b: BufferView, c: CommandView, i: int, k: int) -> bool {
    &&& i <= k < b.cells.len()
    &&& c == (CommandView::Cell {
        x: b.x_of(k) as u16,
        y: (b.area.y + b.row_of(k)) as u16,
        cell: b.cells[k],
    })
    &&& b.x_of(k) <= b.row_last(b.row_of(k)) as u16
}

proof fn lemma_puts(a: BufferView, b: BufferView, i: int, invalidated: usize, to_skip: usize)
    requires
        b.wf(),
        0 <= i <= b.cells.len(),
        forall|k: int| 0 <= k < b.cells.len() ==> (#[trigger] b.cells[k]).width() != 0,
    ensures
        ({
            let all = inline_terminal::puts(a, b, i, invalidated, to_skip);
            &&& forall|k: int| 0 <= k < all.len() ==> is_put(b, #[trigger] all[k], i)
            &&& spaced(all)
            &&& all.len() > 0 && to_skip > 0 ==> is_put(b, all[0], i + 1)
        }),
    decreases b.cells.len() - i,
{
    let all = inline_terminal::puts(a, b, i, invalidated, to_skip);
    if i < b.cells.len() {
        let here = inline_terminal::cell_put(a, b, i, invalidated, to_skip);
        let invalidated2 = inline_terminal::invalidated_behind(
            a.cells[i],
            b.cells[i],
            invalidated,
        );
        let to_skip2 = inline_terminal::less_one(b.cells[i].width()) as usize;
        let rest = inline_terminal::puts(a, b, i + 1, invalidated2, to_skip2);
        lemma_puts(a, b, i + 1, invalidated2, to_skip2);
        assert(b.cells[i].width() != 0);
        if here.len() == 1 {
            assert(put_at(b, here[0], i, i));
        }
        assert forall|k: int| 0 <= k < all.len() implies is_put(b, #[trigger] all[k], i) by {
            if k < here.len() {
                assert(all[k] == here[0]);
            } else {
                assert(all[k] == rest[k - here.len()]);
                lemma_put_later(b, all[k], i, i + 1);
            }
        }
        assert forall|k: int|
            0 < k < all.len() && drawing::follows(
                Some(place(all[k - 1])),
                #[trigger] all[k],
            ) implies advance(all[k - 1]) == 1 by {
            if here.len() == 0 {
                assert(all =~= rest);
            } else {
                assert(all[k] == rest[k - 1]);
                if k == 1 {
                    assert(all[0] == here[0]);
                    if b.cells[i].width() != 1 {
                        assert(is_put(b, rest[0], i + 2));
                        lemma_not_behind(b, here[0], rest[0], i);
                    }
                } else {
                    assert(all[k - 1] == rest[k - 2]);
                }
            }
        }
        if all.len() > 0 && to_skip > 0 {
            assert(here.len() == 0);
            assert(all =~= rest);
        }
    }
}

proof fn lemma_put_later(b: BufferView, c: CommandView, from: int, later: int)
    requires
        from <= later,
        is_put(b, c, later),
    ensures
        is_put(b, c, from),
{
    let j = choose|j: int| put_at(b, c, later, j);
    assert(put_at(b, c, from, j));
}

proof fn lemma_place(b: BufferView, k: int)
    requires
        b.wf(),
        0 <= k < b.cells.len(),
    ensures
        0 <= b.x_of(k) < u16::MAX,
        0 <= b.row_of(k) < b.area.height,
        0 <= b.area.y + b.row_of(k) < u16::MAX,
{
    inline_terminal::lemma_cell_row(b.area.width as int, b.area.height as int, k);
}

/// The cell behind another on the screen is the next one.
proof fn lemma_not_behind(b: BufferView, c: CommandView, d: CommandView, i: int)
    requires
        b.wf(),
        0 <= i,
        put_at(b, c, i, i),
        is_put(b, d, i + 2),
    ensures
        !drawing::follows(Some(place(c)), d),
{
    let w = b.area.width as int;
    let later = i + 2;
    let j = choose|j: int| put_at(b, d, later, j);
    lemma_place(b, i);
    lemma_place(b, j);
    if drawing::follows(Some(place(c)), d) {
        assert(b.row_of(j) == b.row_of(i));
        assert(b.x_of(j) == b.x_of(i) + 1);
        inline_terminal::lemma_cell_row(w, b.area.height as int, i);
        vstd::arithmetic::div_mod::lemma_fundamental_div_mod(i, w);
        vstd::arithmetic::div_mod::lemma_fundamental_div_mod(j, w);
    }
}

proof fn lemma_clears(b: BufferView, rows: nat)
    requires
        b.wf(),
        rows <= b.area.height,
    ensures
        forall|k: int|
            0 <= k < b.clears(rows).len() ==> is_clear(b, #[trigger] b.clears(rows)[k], rows),
        spaced(b.clears(rows)),
    decreases rows,
{
    let all = b.clears(rows);
    if rows > 0 {
        let fewer = (rows - 1) as nat;
        let before = b.clears(fewer);
        let here = b.row_clear(fewer as int);
        lemma_clears(b, fewer);
        if here.len() == 1 {
            assert(clear_at(b, here[0], rows, fewer as int));
        }
        assert forall|k: int| 0 <= k < all.len() implies is_clear(b, #[trigger] all[k], rows) by {
            if k < before.len() {
                assert(all[k] == before[k]);
                let c = before[k];
                assert(is_clear(b, c, fewer));
                let y = choose|y: int| clear_at(b, c, fewer, y);
                assert(clear_at(b, c, rows, y));
            } else {
                assert(all[k] == here[0]);
            }
        }
        assert forall|k: int|
            0 < k < all.len() && drawing::follows(
                Some(place(all[k - 1])),
                #[trigger] all[k],
            ) implies advance(all[k - 1]) == 1 by {
            if k < before.len() {
                assert(all[k] == before[k]);
                assert(all[k - 1] == before[k - 1]);
            } else {
                assert(all[k] == here[0]);
                assert(all[k - 1] == before[k - 1]);
                let c = before[k - 1];
                assert(is_clear(b, c, fewer));
                let y = choose|y: int| clear_at(b, c, fewer, y);
            }
        }
    }
}

/// Whether a command clears the end of one of the first rows.
spec fn is_clear(b: BufferView, c: CommandView, rows: nat) -> bool {
    exists|y: int| #[trigger] clear_at(b, c, rows, y)
}

spec fn clear_at(b: BufferView, c: CommandView, rows: nat, y: int) -> bool {
    &&& 0 <= y < rows
    &&& b.row_last(y) + 1 < b.area.width
    &&& c matches CommandView::Clear { x, y: at, bg } && x == b.area.x + b.row_last(y) + 1 && at
        == b.area.y + y
}

/// The commands between two buffers clear rows before they draw cells, and
/// draw no cell behind another without going there, unless that one takes up
/// one column. No cell of the buffer that is to be shown may be without
/// width.
pub proof fn difference_can_be_drawn(a: BufferView, b: BufferView)
    requires
        a.wf(),
        b.wf(),
        a.area == b.area,
    ensures
        clears_first(inline_terminal::difference(a, b)),
        (forall|k: int| 0 <= k < b.cells.len() ==> (#[trigger] b.cells[k]).width() != 0) ==> spaced(
            inline_terminal::difference(a, b),
        ),
{
    let rows = b.area.height as nat;
    let clears = b.clears(rows);
    let cells = inline_terminal::puts(a, b, 0, 0, 0);
    let all = inline_terminal::difference(a, b);
    lemma_clears(b, rows);
    lemma_puts_are_cells(a, b, 0, 0, 0);
    assert forall|i: int, j: int|
        0 <= i < j < all.len() && (#[trigger] all[j] is Clear) implies (#[trigger] all[i]
        is Clear) by {
        if j >= clears.len() {
            assert(all[j] == cells[j - clears.len()]);
            assert(all[j] is Cell);
        }
        assert(all[i] == clears[i]);
        assert(is_clear(b, clears[i], rows));
    }
    if forall|k: int| 0 <= k < b.cells.len() ==> (#[trigger] b.cells[k]).width() != 0 {
        lemma_puts(a, b, 0, 0, 0);
        assert forall|k: int|
            0 < k < all.len() && drawing::follows(
                Some(place(all[k - 1])),
                #[trigger] all[k],
            ) implies advance(all[k - 1]) == 1 by {
            if k < clears.len() {
                assert(all[k] == clears[k]);
                assert(all[k - 1] == clears[k - 1]);
            } else {
                assert(all[k] == cells[k - clears.len()]);
                if k > clears.len() {
                    assert(all[k - 1] == cells[k - 1 - clears.len()]);
                } else {
                    let c = all[k - 1];
                    let d = all[k];
                    assert(c == clears[k - 1]);
                    assert(is_clear(b, c, rows));
                    assert(is_put(b, d, 0));
                    let y = choose|y: int| clear_at(b, c, rows, y);
                    let from = 0int;
                    let j = choose|j: int| put_at(b, d, from, j);
                    lemma_place(b, j);
                    assert(b.row_of(j) == y);
                }
            }
        }
    }
}

proof fn lemma_puts_are_cells(
    a: BufferView,
    b: BufferView,
    i: int,
    invalidated: usize,
    to_skip: usize,
)
    requires
        0 <= i <= b.cells.len(),
    ensures
        ({
            let all = inline_terminal::puts(a, b, i, invalidated, to_skip);
            forall|k: int| 0 <= k < all.len() ==> (#[trigger] all[k] is Cell)
        }),
    decreases b.cells.len() - i,
{
    if i < b.cells.len() {
        let here = inline_terminal::cell_put(a, b, i, invalidated, to_skip);
        let invalidated2 = inline_terminal::invalidated_behind(
            a.cells[i],
            b.cells[i],
            invalidated,
        );
        let to_skip2 = inline_terminal::less_one(b.cells[i].width()) as usize;
        lemma_puts_are_cells(a, b, i + 1, invalidated2, to_skip2);
        let rest = inline_terminal::puts(a, b, i + 1, invalidated2, to_skip2);
        let all = inline_terminal::puts(a, b, i, invalidated, to_skip);
        assert forall|k: int| 0 <= k < all.len() implies (#[trigger] all[k] is Cell) by {
            if k < here.len() {
                assert(all[k] == here[0]);
            } else {
                assert(all[k] == rest[k - here.len()]);
            }
        }
    }
}

/// Drawing a buffer that is shown already draws no cell, where no symbol
/// takes up more than two columns.
pub proof fn shown_buffer_draws_no_cell(b: BufferView)
    ensures
        (forall|k: int| 0 <= k < b.cells.len() ==> (#[trigger] b.cells[k]).width() <= 2)
            ==> inline_terminal::puts(b, b, 0, 0, 0) == Seq::<CommandView>::empty(),
{
    if forall|k: int| 0 <= k < b.cells.len() ==> (#[trigger] b.cells[k]).width() <= 2 {
        lemma_nothing_drawn(b, 0, 0, 0);
    }
}

proof fn lemma_nothing_drawn(b: BufferView, i: int, invalidated: usize, to_skip: usize)
    requires
        0 <= i <= b.cells.len(),
        invalidated <= 1,
        invalidated <= to_skip,
        forall|k: int| 0 <= k < b.cells.len() ==> (#[trigger] b.cells[k]).width() <= 2,
    ensures
        inline_terminal::puts(b, b, i, invalidated, to_skip) == Seq::<CommandView>::empty(),
    decreases b.cells.len() - i,
{
    if i < b.cells.len() {
        assert(b.cells[i].width() <= 2);
        let invalidated2 = inline_terminal::invalidated_behind(
            b.cells[i],
            b.cells[i],
            invalidated,
        );
        let to_skip2 = inline_terminal::less_one(b.cells[i].width()) as usize;
        lemma_nothing_drawn(b, i + 1, invalidated2, to_skip2);
        assert(inline_terminal::puts(b, b, i, invalidated, to_skip) =~= Seq::empty());
    }
}

spec fn put_of(b: BufferView, i: int) -> CommandView {
    CommandView::Cell {
        x: b.x_of(i) as u16,
        y: (b.area.y + b.row_of(i)) as u16,
        cell: b.cells[i],
    }
}

proof fn lemma_change_is_put(
    a: BufferView,
    b: BufferView,
    k: int,
    invalidated: usize,
    to_skip: usize,
    i: int,
)
    requires
        0 <= k <= i < b.cells.len(),
        a.cells[i] != b.cells[i],
        !b.cells[i].skip,
        i == 0 || b.cells[i - 1].width() <= 1,
        k == i ==> to_skip == 0,
        b.x_of(i) <= b.row_last(b.row_of(i)) as u16,
    ensures
        inline_terminal::puts(a, b, k, invalidated, to_skip).contains(put_of(b, i)),
    decreases i - k,
{
    let all = inline_terminal::puts(a, b, k, invalidated, to_skip);
    let here = inline_terminal::cell_put(a, b, k, invalidated, to_skip);
    if k == i {
        assert(all[0] == here[0]);
        assert(all[0] == put_of(b, i));
    } else {
        let invalidated2 = inline_terminal::invalidated_behind(
            a.cells[k],
            b.cells[k],
            invalidated,
        );
        let to_skip2 = inline_terminal::less_one(b.cells[k].width()) as usize;
        lemma_change_is_put(a, b, k + 1, invalidated2, to_skip2, i);
        let rest = inline_terminal::puts(a, b, k + 1, invalidated2, to_skip2);
        let j = choose|j: int| 0 <= j < rest.len() && rest[j] == put_of(b, i);
        assert(all[here.len() + j] == put_of(b, i));
    }
}

proof fn lemma_row_is_cleared(b: BufferView, rows: nat, y: int)
    requires
        0 <= y < rows,
        b.row_clear(y).len() == 1,
    ensures
        b.clears(rows).contains(b.row_clear(y)[0]),
    decreases rows,
{
    let fewer = (rows - 1) as nat;
    let before = b.clears(fewer);
    let all = b.clears(rows);
    if y == fewer {
        assert(all[before.len() as int] == b.row_clear(y)[0]);
    } else {
        lemma_row_is_cleared(b, fewer, y);
        let j = choose|j: int| 0 <= j < before.len() && before[j] == b.row_clear(y)[0];
        assert(all[j] == b.row_clear(y)[0]);
    }
}

/// A cell that changed is drawn, or lies behind the place from which the end
/// of its row is cleared, unless a wide symbol before it covers it. The
/// buffers start at the left edge of the screen, and no symbol reaches
/// farther than columns can be counted.
pub proof fn changed_cell_is_drawn_or_cleared(a: BufferView, b: BufferView, i: int)
    requires
        a.wf(),
        b.wf(),
        a.area == b.area,
        b.area.x == 0,
        0 <= i < b.cells.len(),
        a.cells[i] != b.cells[i],
        !b.cells[i].skip,
    ensures
        ({
            let all = inline_terminal::difference(a, b);
            let row = b.row_of(i);
            ||| i > 0 && b.cells[i - 1].width() > 1
            ||| b.row_last(row) > u16::MAX
            ||| all.contains(
                CommandView::Cell {
                    x: b.x_of(i) as u16,
                    y: (b.area.y + row) as u16,
                    cell: b.cells[i],
                },
            )
            ||| b.row_last(row) < b.x_of(i) && all.contains(
                CommandView::Clear {
                    x: (b.row_last(row) + 1) as u16,
                    y: (b.area.y + row) as u16,
                    bg: inline_terminal::end_bg(b.row(row)),
                },
            )
        }),
{
    let all = inline_terminal::difference(a, b);
    let row = b.row_of(i);
    let rows = b.area.height as nat;
    let clears = b.clears(rows);
    let cells = inline_terminal::puts(a, b, 0, 0, 0);
    lemma_place(b, i);
    inline_terminal::lemma_cell_row(b.area.width as int, b.area.height as int, i);
    if (i == 0 || b.cells[i - 1].width() <= 1) && b.row_last(row) <= u16::MAX {
        if b.x_of(i) <= b.row_last(row) {
            lemma_change_is_put(a, b, 0, 0, 0, i);
            let j = choose|j: int| 0 <= j < cells.len() && cells[j] == put_of(b, i);
            assert(all[clears.len() + j] == put_of(b, i));
        } else {
            lemma_row_is_cleared(b, rows, row);
            let c = b.row_clear(row)[0];
            let j = choose|j: int| 0 <= j < clears.len() && clears[j] == c;
            assert(all[j] == c);
        }
    }
}

} // verus!
