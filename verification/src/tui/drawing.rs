//! What a terminal is told to draw cells and runs of text.

use super::inline_terminal;
use super::inline_terminal::{CommandView, DrawCommand, Position, RESET};
use super::sgr;
use super::sgr::{Attribute, Modifiers, SgrModifierChange};
use crate::text;
use vstd::prelude::*;

verus! {

/// One thing that a terminal is told.
#[derive(Debug)]
pub enum TermOp {
    MoveTo(u16, u16),
    SetAttribute(Attribute),
    /// No attributes, and the terminal's own colors.
    ResetAttributes,
    SetColors { fg: String, bg: String },
    SetForeground(String),
    SetBackground(String),
    Print(String),
    ClearToLineEnd,
    /// Scroll only these rows, counted from one.
    SetScrollRegion(u16, u16),
    /// Scroll all rows.
    ResetScrollRegion,
    /// Go up a row, and scroll down at the top.
    ReverseIndex,
    /// Go to the start of the next row, and scroll up at the bottom.
    NewLine,
    MoveToColumn(u16),
    MoveDown(u16),
    SavePosition,
    RestorePosition,
}

#[verifier::ext_equal]
#[allow(inconsistent_fields)]
pub enum OpView {
    MoveTo { x: u16, y: u16 },
    SetAttribute { attribute: Attribute },
    ResetAttributes,
    SetColors { fg: Seq<char>, bg: Seq<char> },
    SetForeground { color: Seq<char> },
    SetBackground { color: Seq<char> },
    Print { text: Seq<char> },
    ClearToLineEnd,
    SetScrollRegion { top: u16, bottom: u16 },
    ResetScrollRegion,
    ReverseIndex,
    NewLine,
    MoveToColumn { column: u16 },
    MoveDown { rows: u16 },
    SavePosition,
    RestorePosition,
}

impl View for TermOp {
    type V = OpView;

    open spec fn view(&self) -> OpView {
        match *self {
            TermOp::MoveTo(x, y) => OpView::MoveTo { x, y },
            TermOp::SetAttribute(attribute) => OpView::SetAttribute { attribute },
            TermOp::ResetAttributes => OpView::ResetAttributes,
            TermOp::SetColors { fg, bg } => OpView::SetColors { fg: fg@, bg: bg@ },
            TermOp::SetForeground(color) => OpView::SetForeground { color: color@ },
            TermOp::SetBackground(color) => OpView::SetBackground { color: color@ },
            TermOp::Print(text) => OpView::Print { text: text@ },
            TermOp::ClearToLineEnd => OpView::ClearToLineEnd,
            TermOp::SetScrollRegion(top, bottom) => OpView::SetScrollRegion { top, bottom },
            TermOp::ResetScrollRegion => OpView::ResetScrollRegion,
            TermOp::ReverseIndex => OpView::ReverseIndex,
            TermOp::NewLine => OpView::NewLine,
            TermOp::MoveToColumn(column) => OpView::MoveToColumn { column },
            TermOp::MoveDown(rows) => OpView::MoveDown { rows },
            TermOp::SavePosition => OpView::SavePosition,
            TermOp::RestorePosition => OpView::RestorePosition,
        }
    }
}

pub open spec fn ops(v: Seq<TermOp>) -> Seq<OpView> {
    v.map_values(|o: TermOp| o@)
}

/// Adds an operation to a list.
pub fn add_op(v: &mut Vec<TermOp>, op: TermOp)
    ensures
        ops(final(v)@) == ops(old(v)@).push(op@),
{
    let ghost before = v@;
    v.push(op);
    assert(ops(v@) =~= ops(before).push(op@));
}

/// What text is drawn with.
#[derive(Debug)]
pub struct Pen {
    pub fg: String,
    pub bg: String,
    pub modifier: u16,
}

#[verifier::ext_equal]
pub struct PenView {
    pub fg: Seq<char>,
    pub bg: Seq<char>,
    pub modifier: u16,
}

impl View for Pen {
    type V = PenView;

    open spec fn view(&self) -> PenView {
        PenView { fg: self.fg@, bg: self.bg@, modifier: self.modifier }
    }
}

impl PenView {
    pub open spec fn plain() -> PenView {
        PenView { fg: RESET@, bg: RESET@, modifier: 0 }
    }
}

pub open spec fn attribute_ops(v: Seq<Attribute>) -> Seq<OpView> {
    v.map_values(|attribute: Attribute| OpView::SetAttribute { attribute })
}

/// What changes the pen: the attributes that differ, and both colors where
/// one of them does.
pub open spec fn pen_ops(from: PenView, to: PenView) -> Seq<OpView> {
    let attributes = if from.modifier == to.modifier {
        Seq::empty()
    } else {
        attribute_ops(
            sgr::told_between(Modifiers::of_bits(from.modifier), Modifiers::of_bits(to.modifier)),
        )
    };
    let colors = if from.fg == to.fg && from.bg == to.bg {
        Seq::empty()
    } else {
        seq![OpView::SetColors { fg: to.fg, bg: to.bg }]
    };
    attributes + colors
}

/// What leaves the terminal with its own colors and no attributes.
pub open spec fn closing_ops() -> Seq<OpView> {
    seq![
        OpView::SetForeground { color: RESET@ },
        OpView::SetBackground { color: RESET@ },
        OpView::ResetAttributes,
    ]
}

impl Pen {
    fn plain() -> (r: Self)
        ensures
            r@ == PenView::plain(),
    {
        Pen { fg: RESET.to_owned(), bg: RESET.to_owned(), modifier: 0 }
    }

    /// Changes the pen.
    fn change(&mut self, fg: &str, bg: &str, modifier: u16, out: &mut Vec<TermOp>)
        ensures
            final(self)@ == (PenView { fg: fg@, bg: bg@, modifier }),
            ops(final(out)@) == ops(old(out)@) + pen_ops(
                old(self)@,
                PenView { fg: fg@, bg: bg@, modifier },
            ),
    {
        let ghost start = ops(out@);
        let ghost mut attributes = Seq::<OpView>::empty();
        if self.modifier != modifier {
            let change = SgrModifierChange {
                from: Modifiers::from_bits(self.modifier),
                to: Modifiers::from_bits(modifier),
            };
            let list = change.queue();
            proof {
                attributes = attribute_ops(list@);
            }
            let mut i: usize = 0;
            assert(start + attributes.take(0) =~= start);
            while i < list.len()
                invariant
                    i <= list@.len(),
                    attributes == attribute_ops(list@),
                    ops(out@) == start + attributes.take(i as int),
                decreases list@.len() - i,
            {
                add_op(out, TermOp::SetAttribute(list[i]));
                assert((start + attributes.take(i as int)).push(attributes[i as int]) =~= start
                    + attributes.take(i + 1));
                i = i + 1;
            }
            assert(attributes.take(i as int) =~= attributes);
            self.modifier = modifier;
        } else {
            assert(start + attributes =~= start);
        }
        let same_fg = text::same(self.fg.as_str(), fg);
        let same_bg = text::same(self.bg.as_str(), bg);
        if !(same_fg && same_bg) {
            add_op(out, TermOp::SetColors { fg: fg.to_owned(), bg: bg.to_owned() });
            self.fg = fg.to_owned();
            self.bg = bg.to_owned();
        }
        assert(ops(out@) =~= start + pen_ops(old(self)@, PenView { fg: fg@, bg: bg@, modifier }));
    }
}

fn close(out: &mut Vec<TermOp>)
    ensures
        ops(final(out)@) == ops(old(out)@) + closing_ops(),
{
    let ghost start = ops(out@);
    add_op(out, TermOp::SetForeground(RESET.to_owned()));
    add_op(out, TermOp::SetBackground(RESET.to_owned()));
    add_op(out, TermOp::ResetAttributes);
    assert(ops(out@) =~= start + closing_ops());
}

pub open spec fn command_x(c: CommandView) -> u16 {
    match c {
        CommandView::Cell { x, y, cell } => x,
        CommandView::Clear { x, y, bg } => x,
    }
}

pub open spec fn command_y(c: CommandView) -> u16 {
    match c {
        CommandView::Cell { x, y, cell } => y,
        CommandView::Clear { x, y, bg } => y,
    }
}

/// Whether a command is for the place right behind the last one.
pub open spec fn follows(last: Option<Position>, c: CommandView) -> bool {
    last matches Some(p) && command_x(c) == p.x + 1 && command_y(c) == p.y
}

/// What goes to the place of a command. The terminal is there already where
/// it has just drawn the cell before.
pub open spec fn move_ops(last: Option<Position>, c: CommandView) -> Seq<OpView> {
    if follows(last, c) {
        Seq::empty()
    } else {
        seq![OpView::MoveTo { x: command_x(c), y: command_y(c) }]
    }
}

/// What carries a command out at the place of the terminal.
pub open spec fn body_ops(pen: PenView, c: CommandView) -> Seq<OpView> {
    match c {
        CommandView::Cell { x, y, cell } => pen_ops(
            pen,
            PenView { fg: cell.fg, bg: cell.bg, modifier: cell.modifier },
        ).push(OpView::Print { text: cell.symbol }),
        CommandView::Clear { x, y, bg } => seq![
            OpView::ResetAttributes,
            OpView::SetBackground { color: bg },
            OpView::ClearToLineEnd,
        ],
    }
}

/// The pen after a command.
pub open spec fn pen_after(pen: PenView, c: CommandView) -> PenView {
    match c {
        CommandView::Cell { x, y, cell } => PenView {
            fg: cell.fg,
            bg: cell.bg,
            modifier: cell.modifier,
        },
        CommandView::Clear { x, y, bg } => PenView { fg: pen.fg, bg, modifier: 0 },
    }
}

/// What carries the commands from `i` on out.
pub open spec fn drawn_from(
    commands: Seq<CommandView>,
    i: int,
    pen: PenView,
    last: Option<Position>,
) -> Seq<OpView>
    decreases commands.len() - i,
{
    if i < 0 || i >= commands.len() {
        Seq::empty()
    } else {
        let c = commands[i];
        move_ops(last, c) + body_ops(pen, c) + drawn_from(
            commands,
            i + 1,
            pen_after(pen, c),
            Some(Position { x: command_x(c), y: command_y(c) }),
        )
    }
}

/// What carries some commands out.
pub open spec fn drawn(commands: Seq<CommandView>) -> Seq<OpView> {
    drawn_from(commands, 0, PenView::plain(), None) + closing_ops()
}

/// What carries some commands out.
pub fn draw(commands: &Vec<DrawCommand>) -> (r: Vec<TermOp>)
    ensures
        ops(r@) == drawn(inline_terminal::commands(commands@)),
{
    let ghost all = inline_terminal::commands(commands@);
    let mut out: Vec<TermOp> = Vec::new();
    let mut pen = Pen::plain();
    let mut last: Option<Position> = None;
    let mut i: usize = 0;
    assert(ops(out@) + drawn_from(all, 0, pen@, last) =~= drawn_from(
        all,
        0,
        PenView::plain(),
        None,
    ));
    while i < commands.len()
        invariant
            i <= commands@.len(),
            all == inline_terminal::commands(commands@),
            ops(out@) + drawn_from(all, i as int, pen@, last) == drawn_from(
                all,
                0,
                PenView::plain(),
                None,
            ),
        decreases commands@.len() - i,
    {
        let ghost before = ops(out@);
        let ghost pen_before = pen@;
        let ghost last_before = last;
        let ghost c = all[i as int];
        assert(c == commands@[i as int]@);
        let command = &commands[i];
        let (x, y): (u16, u16) = match command {
            DrawCommand::Cell { x, y, cell: _ } => (*x, *y),
            DrawCommand::ClearTrailingCells { x, y, bg: _ } => (*x, *y),
        };
        let adjacent = match last {
            Some(p) => p.x < 65535 && x == p.x + 1 && y == p.y,
            None => false,
        };
        if !adjacent {
            add_op(&mut out, TermOp::MoveTo(x, y));
        }
        assert(ops(out@) =~= before + move_ops(last_before, c));
        last = Some(Position { x, y });
        match command {
            DrawCommand::Cell { x: _, y: _, cell } => {
                pen.change(cell.fg.as_str(), cell.bg.as_str(), cell.modifier, &mut out);
                add_op(&mut out, TermOp::Print(cell.symbol.clone()));
            },
            DrawCommand::ClearTrailingCells { x: _, y: _, bg } => {
                add_op(&mut out, TermOp::ResetAttributes);
                pen.modifier = 0;
                add_op(&mut out, TermOp::SetBackground(bg.clone()));
                pen.bg = bg.clone();
                add_op(&mut out, TermOp::ClearToLineEnd);
            },
        }
        proof {
            let here = move_ops(last_before, c) + body_ops(pen_before, c);
            assert(ops(out@) =~= before + here);
            assert(pen@ =~= pen_after(pen_before, c));
            let rest = drawn_from(all, i + 1, pen@, last);
            assert((before + here) + rest =~= before + (here + rest));
        }
        i = i + 1;
    }
    assert(ops(out@) + drawn_from(all, i as int, pen@, last) =~= ops(out@));
    close(&mut out);
    out
}

/// A run of text with one look.
#[derive(Debug)]
pub struct StyledRun {
    pub text: String,
    pub fg: String,
    pub bg: String,
    pub modifier: u16,
}

#[verifier::ext_equal]
pub struct RunView {
    pub text: Seq<char>,
    pub pen: PenView,
}

impl View for StyledRun {
    type V = RunView;

    open spec fn view(&self) -> RunView {
        RunView {
            text: self.text@,
            pen: PenView { fg: self.fg@, bg: self.bg@, modifier: self.modifier },
        }
    }
}

pub open spec fn runs(v: Seq<StyledRun>) -> Seq<RunView> {
    v.map_values(|r: StyledRun| r@)
}

/// What writes the runs from `i` on.
pub open spec fn written_from(all: Seq<RunView>, i: int, pen: PenView) -> Seq<OpView>
    decreases all.len() - i,
{
    if i < 0 || i >= all.len() {
        Seq::empty()
    } else {
        pen_ops(pen, all[i].pen).push(OpView::Print { text: all[i].text }) + written_from(
            all,
            i + 1,
            all[i].pen,
        )
    }
}

/// What writes some runs.
pub open spec fn written(all: Seq<RunView>) -> Seq<OpView> {
    written_from(all, 0, PenView::plain()) + closing_ops()
}

/// Writes some runs, with no more changes of the pen than they need.
pub fn emit_styled_spans(spans: &Vec<StyledRun>, out: &mut Vec<TermOp>)
    ensures
        ops(final(out)@) == ops(old(out)@) + written(runs(spans@)),
{
    let ghost all = runs(spans@);
    let ghost start = ops(out@);
    let mut pen = Pen::plain();
    let mut i: usize = 0;
    while i < spans.len()
        invariant
            i <= spans@.len(),
            all == runs(spans@),
            ops(out@) + written_from(all, i as int, pen@) == start + written_from(
                all,
                0,
                PenView::plain(),
            ),
        decreases spans@.len() - i,
    {
        let ghost before = ops(out@);
        let ghost pen_before = pen@;
        let span = &spans[i];
        assert(all[i as int] == span@);
        pen.change(span.fg.as_str(), span.bg.as_str(), span.modifier, out);
        add_op(out, TermOp::Print(span.text.clone()));
        proof {
            let here = pen_ops(pen_before, span@.pen).push(OpView::Print { text: span@.text });
            assert(ops(out@) =~= before + here);
            let rest = written_from(all, i + 1, pen@);
            assert((before + here) + rest =~= before + (here + rest));
        }
        i = i + 1;
    }
    assert(ops(out@) + written_from(all, i as int, pen@) =~= ops(out@));
    close(out);
    assert(ops(out@) =~= start + written(all));
}

} // verus!
