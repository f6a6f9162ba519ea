//! What the interface shows: how high it is, what its lines say, and where
//! a question or a list is put over them.

use super::app::{App, AppView, ConfirmationPrompt, Picker};
use super::app;
use super::event::ConfirmationType;
use crate::config::SandboxMode;
use crate::session::model::SessionMetadata;
use crate::text;
use vstd::prelude::*;

verus! {

/// Most rows of text that the input box shows at once.
pub const MAX_INPUT_CONTENT_ROWS: u16 = 6;

pub const INPUT_BORDER_ROWS: u16 = 2;

pub const HINT_ROW_HEIGHT: u16 = 1;

pub const STATUS_ROW_HEIGHT: u16 = 1;

/// The rows of a question besides its choices: two borders, the prompt, two
/// separators and a hint.
pub const CONFIRMATION_CHROME_ROWS: u16 = 6;

/// The borders of a list.
pub const PICKER_CHROME_ROWS: u16 = 2;

/// Most sessions that the list makes room for.
pub const PICKER_MAX_VISIBLE_ENTRIES: u16 = 12;

/// The rows inside a question besides its choices, where all of them fit.
pub const FULL_NON_CHOICE_ROWS: u16 = 4;

pub const CONFIRMATION_MIN_WIDTH: u16 = 40;

/// Two borders and the space inside them.
pub const CONFIRMATION_PADDING: u16 = 6;

/// The borders of a question, its prompt and one choice.
pub const CONFIRMATION_MIN_HEIGHT: u16 = 4;

/// The columns before a choice.
pub const CHOICE_INDENT: usize = 4;

pub const SEP: &'static str = "  ·  ";

pub const HINT_LINE: &'static str = "  ↑↓ navigate  ·  ⏎ select  ·  esc cancel";

/// A part of the screen.
#[derive(Debug, Clone, Copy, PartialEq, Eq, Structural)]
pub struct Area {
    pub x: u16,
    pub y: u16,
    pub width: u16,
    pub height: u16,
}

impl Area {
    /// Whether all of the area can be named.
    pub open spec fn fits(self) -> bool {
        self.x + self.width <= u16::MAX && self.y + self.height <= u16::MAX
    }

    /// Whether the area lies inside another.
    pub open spec fn inside(self, outer: Area) -> bool {
        &&& outer.x <= self.x
        &&& outer.y <= self.y
        &&& self.x + self.width <= outer.x + outer.width
        &&& self.y + self.height <= outer.y + outer.height
    }

    /// An area of the given size in the middle of this one.
    pub open spec fn middle(self, width: u16, height: u16) -> Area {
        Area {
            x: (self.x + (self.width - width) / 2) as u16,
            y: (self.y + (self.height - height) / 2) as u16,
            width,
            height,
        }
    }

    /// An area of the given size in the middle of this one.
    pub fn centered(self, width: u16, height: u16) -> (r: Area)
        requires
            self.fits(),
            width <= self.width,
            height <= self.height,
        ensures
            r == self.middle(width, height),
            r.inside(self),
    {
        Area {
            x: self.x + (self.width - width) / 2,
            y: self.y + (self.height - height) / 2,
            width,
            height,
        }
    }
}

/// What a piece of text is shown as.
#[derive(Debug, Clone, Copy, PartialEq, Eq, Structural)]
pub enum Tone {
    Plain,
    Accent,
    HintKey,
    Queue,
    Faint,
    StatusKey,
    StatusValue,
    ReadOnly,
    Title,
    DarkGray,
    Gray,
    White,
    Yellow,
    /// Dimmed, in whatever color the text has.
    Dim,
}

/// A piece of text with its looks.
#[derive(Debug)]
pub struct StyledSpan {
    pub text: String,
    pub tone: Tone,
    pub bold: bool,
}

#[verifier::ext_equal]
pub struct SpanView {
    pub text: Seq<char>,
    pub tone: Tone,
    pub bold: bool,
}

impl View for StyledSpan {
    type V = SpanView;

    open spec fn view(&self) -> SpanView {
        SpanView { text: self.text@, tone: self.tone, bold: self.bold }
    }
}

/// The views of a line.
pub open spec fn spans(v: Seq<StyledSpan>) -> Seq<SpanView> {
    v.map_values(|s: StyledSpan| s@)
}

/// The views of some lines.
pub open spec fn lines_of(v: Seq<Vec<StyledSpan>>) -> Seq<Seq<SpanView>> {
    v.map_values(|l: Vec<StyledSpan>| spans(l@))
}

pub open spec fn plain(text: Seq<char>, tone: Tone) -> SpanView {
    SpanView { text, tone, bold: false }
}

pub open spec fn bold(text: Seq<char>, tone: Tone) -> SpanView {
    SpanView { text, tone, bold: true }
}

fn show(text: &str, tone: Tone) -> (r: StyledSpan)
    ensures
        r@ == plain(text@, tone),
{
    StyledSpan { text: text.to_owned(), tone, bold: false }
}

fn show_bold(text: &str, tone: Tone) -> (r: StyledSpan)
    ensures
        r@ == bold(text@, tone),
{
    StyledSpan { text: text.to_owned(), tone, bold: true }
}

/// The rows of the input box, borders included, for a text of that many
/// rows.
pub open spec fn box_height(content_rows: u16) -> u16 {
    if content_rows < 1 {
        3
    } else if content_rows > MAX_INPUT_CONTENT_ROWS {
        (MAX_INPUT_CONTENT_ROWS + INPUT_BORDER_ROWS) as u16
    } else {
        (content_rows + INPUT_BORDER_ROWS) as u16
    }
}

/// The rows of the input box, borders included, for a text of that many
/// rows.
pub fn input_box_height(content_rows: u16) -> (r: u16)
    ensures
        r == box_height(content_rows),
{
    let rows: u16 = if content_rows < 1 {
        1
    } else if content_rows > MAX_INPUT_CONTENT_ROWS {
        MAX_INPUT_CONTENT_ROWS
    } else {
        content_rows
    };
    rows + INPUT_BORDER_ROWS
}

/// A number of rows, as far as rows can be counted.
pub open spec fn row_count(n: nat) -> u16 {
    if n <= u16::MAX {
        n as u16
    } else {
        u16::MAX
    }
}

fn count_rows(n: usize) -> (r: u16)
    ensures
        r == row_count(n as nat),
{
    if n <= 65535 {
        n as u16
    } else {
        65535
    }
}

impl AppView {
    /// The rows that what is open over the interface needs.
    pub open spec fn modal_height(self) -> int {
        if self.confirmation is Some {
            let all = CONFIRMATION_CHROME_ROWS + row_count(self.confirmation->0.choices@.len());
            if all > u16::MAX {
                u16::MAX as int
            } else {
                all
            }
        } else if self.picker is Some {
            let rows = row_count(self.picker->0.sessions@.len());
            PICKER_CHROME_ROWS + (if rows > PICKER_MAX_VISIBLE_ENTRIES {
                PICKER_MAX_VISIBLE_ENTRIES
            } else {
                rows
            })
        } else {
            0
        }
    }

    /// The rows of the interface, for an input of that many rows.
    pub open spec fn height(self, content_rows: u16) -> int {
        let base = HINT_ROW_HEIGHT + box_height(content_rows) + STATUS_ROW_HEIGHT;
        if base < self.modal_height() {
            self.modal_height()
        } else {
            base
        }
    }
}

impl App {
    /// The rows of the interface, for an input of that many rows: enough for
    /// the hint, the input and the status, and for what is open over them.
    pub fn desired_viewport_height(&self, content_rows: u16) -> (r: u16)
        ensures
            r == self@.height(content_rows),
    {
        let base: u16 = HINT_ROW_HEIGHT + input_box_height(content_rows) + STATUS_ROW_HEIGHT;
        let modal: u16 = match &self.confirmation {
            Some(c) => CONFIRMATION_CHROME_ROWS.saturating_add(count_rows(c.choices.len())),
            None => match &self.picker {
                Some(p) => {
                    let rows = count_rows(p.sessions.len());
                    PICKER_CHROME_ROWS + if rows > PICKER_MAX_VISIBLE_ENTRIES {
                        PICKER_MAX_VISIBLE_ENTRIES
                    } else {
                        rows
                    }
                },
                None => 0,
            },
        };
        if base < modal {
            modal
        } else {
            base
        }
    }
}

/// The title of the input box.
pub fn input_title(readonly: bool) -> (r: StyledSpan)
    ensures
        r@ == (if readonly {
            bold(" : "@, Tone::Yellow)
        } else {
            bold(" > "@, Tone::Title)
        }),
{
    if readonly {
        show_bold(" : ", Tone::Yellow)
    } else {
        show_bold(" > ", Tone::Title)
    }
}

/// How long the worker has been busy, as it is shown.
pub open spec fn elapsed_text(secs: nat) -> Seq<char> {
    if secs >= 60 {
        text::decimal_of(secs / 60) + "m "@ + text::decimal_of(secs % 60) + "s"@
    } else {
        text::decimal_of(secs) + "s"@
    }
}

/// How long the worker has been busy, as it is shown.
pub fn format_elapsed(secs: u64) -> (r: String)
    ensures
        r@ == elapsed_text(secs as nat),
{
    if secs >= 60 {
        let mut s = text::decimal((secs / 60) as u128);
        s.append("m ");
        s.append(text::decimal((secs % 60) as u128).as_str());
        s.append("s");
        s
    } else {
        let mut s = text::decimal(secs as u128);
        s.append("s");
        s
    }
}

pub open spec fn queue_note(waiting: nat) -> Seq<SpanView> {
    if waiting == 0 {
        Seq::empty()
    } else {
        seq![
            plain(SEP@, Tone::DarkGray),
            bold("queued: "@ + text::decimal_of(waiting), Tone::Queue),
        ]
    }
}

impl AppView {
    /// Seconds since the worker became busy.
    pub open spec fn elapsed(self, now: u64) -> nat {
        match self.busy_since {
            Some(t) => if now >= t {
                (now - t) as nat
            } else {
                0
            },
            None => 0,
        }
    }

    pub open spec fn shown_label(self) -> Seq<char> {
        if self.busy_label.len() == 0 {
            "working"@
        } else {
            self.busy_label
        }
    }

    /// The line above the input: what the user can do next. While a question
    /// is open the worker waits for the user, and no spinner is shown.
    pub open spec fn hint_line(self, now: u64) -> Seq<SpanView> {
        if self.confirmation is Some {
            seq![
                bold(" ⏸ "@, Tone::Accent),
                plain("awaiting confirmation"@, Tone::Accent),
                plain(SEP@, Tone::DarkGray),
                plain("↑↓ ⏎  answer  ·  esc cancel"@, Tone::DarkGray),
            ] + queue_note(self.queue.len())
        } else if self.picker is Some {
            seq![
                plain(" ❯ "@, Tone::HintKey),
                plain("pick a session"@, Tone::Gray),
                plain(SEP@, Tone::DarkGray),
                plain("↑↓ ⏎  select  ·  esc cancel"@, Tone::DarkGray),
            ]
        } else if self.busy {
            seq![
                bold(
                    " "@ + app::spinner_text((self.spinner_tick % app::SPINNER_FRAMES) as nat)
                        + " "@,
                    Tone::Accent,
                ),
                plain(
                    self.shown_label() + "… "@ + elapsed_text(self.elapsed(now)),
                    Tone::Accent,
                ),
                plain(SEP@, Tone::DarkGray),
                plain("esc to interrupt"@, Tone::DarkGray),
            ] + queue_note(self.queue.len())
        } else {
            seq![
                plain(" ⏎ "@, Tone::HintKey),
                plain("send  ·  "@, Tone::DarkGray),
                plain("shift+⏎ "@, Tone::HintKey),
                plain("newline  ·  "@, Tone::DarkGray),
                plain("/exit "@, Tone::HintKey),
                plain("quit"@, Tone::DarkGray),
            ] + queue_note(self.queue.len())
        }
    }

    /// The line below the input: the model, the mode, how hard the model is
    /// asked to think, and the tokens. Before the first status arrives, the
    /// model that the session was started with.
    pub open spec fn status_line(self) -> Seq<SpanView> {
        let (model, mode, reasoning, sent, received) = match self.status {
            Some(s) => (s.model@, s.mode, s.reasoning@, s.input_tokens, s.output_tokens),
            None => (self.model_label, SandboxMode::Sandboxed, Seq::empty(), 0u32, 0u32),
        };
        let head = seq![
            plain(" model: "@, Tone::StatusKey),
            bold(model, Tone::StatusValue),
            plain(SEP@, Tone::DarkGray),
            plain("mode: "@, Tone::StatusKey),
            if mode == SandboxMode::ReadOnly {
                bold(mode.label_text(), Tone::ReadOnly)
            } else {
                plain(mode.label_text(), Tone::StatusValue)
            },
        ];
        let thought = if reasoning.len() > 0 {
            seq![plain(SEP@, Tone::DarkGray), plain(reasoning, Tone::Faint)]
        } else {
            Seq::empty()
        };
        let tokens = if sent > 0 || received > 0 {
            seq![
                plain(SEP@, Tone::DarkGray),
                plain(
                    "tokens: "@ + text::decimal_of(sent as nat) + "↑ "@ + text::decimal_of(
                        received as nat,
                    ) + "↓"@,
                    Tone::Faint,
                ),
            ]
        } else {
            Seq::empty()
        };
        head + thought + tokens
    }
}

impl App {
    fn push_queue_note(&self, line: &mut Vec<StyledSpan>)
        ensures
            spans(final(line)@) == spans(old(line)@) + queue_note(self@.queue.len()),
    {
        let waiting = self.queue.len();
        let ghost before = line@;
        if waiting > 0 {
            line.push(show(SEP, Tone::DarkGray));
            let mut s = "queued: ".to_owned();
            s.append(text::decimal(waiting as u128).as_str());
            line.push(StyledSpan { text: s, tone: Tone::Queue, bold: true });
        }
        assert(spans(line@) =~= spans(before) + queue_note(self@.queue.len()));
    }

    /// The line above the input. `now` is the time in seconds.
    pub fn hint_spans(&self, now: u64) -> (r: Vec<StyledSpan>)
        ensures
            spans(r@) == self@.hint_line(now),
    {
        let mut line: Vec<StyledSpan> = Vec::new();
        if self.confirmation.is_some() {
            line.push(show_bold(" ⏸ ", Tone::Accent));
            line.push(show("awaiting confirmation", Tone::Accent));
            line.push(show(SEP, Tone::DarkGray));
            line.push(show("↑↓ ⏎  answer  ·  esc cancel", Tone::DarkGray));
            self.push_queue_note(&mut line);
            assert(spans(line@) =~= self@.hint_line(now));
            return line;
        }
        if self.picker.is_some() {
            line.push(show(" ❯ ", Tone::HintKey));
            line.push(show("pick a session", Tone::Gray));
            line.push(show(SEP, Tone::DarkGray));
            line.push(show("↑↓ ⏎  select  ·  esc cancel", Tone::DarkGray));
            assert(spans(line@) =~= self@.hint_line(now));
            return line;
        }
        if self.busy {
            let mut spinner = " ".to_owned();
            spinner.append(self.spinner_frame());
            spinner.append(" ");
            line.push(StyledSpan { text: spinner, tone: Tone::Accent, bold: true });
            let elapsed: u64 = match self.busy_since {
                Some(t) => now.saturating_sub(t),
                None => 0,
            };
            let mut label = if self.busy_label.as_str().is_empty() {
                "working".to_owned()
            } else {
                self.busy_label.clone()
            };
            label.append("… ");
            label.append(format_elapsed(elapsed).as_str());
            line.push(StyledSpan { text: label, tone: Tone::Accent, bold: false });
            line.push(show(SEP, Tone::DarkGray));
            line.push(show("esc to interrupt", Tone::DarkGray));
        } else {
            line.push(show(" ⏎ ", Tone::HintKey));
            line.push(show("send  ·  ", Tone::DarkGray));
            line.push(show("shift+⏎ ", Tone::HintKey));
            line.push(show("newline  ·  ", Tone::DarkGray));
            line.push(show("/exit ", Tone::HintKey));
            line.push(show("quit", Tone::DarkGray));
        }
        self.push_queue_note(&mut line);
        assert(spans(line@) =~= self@.hint_line(now));
        line
    }

    /// The line below the input.
    pub fn status_spans(&self) -> (r: Vec<StyledSpan>)
        ensures
            spans(r@) == self@.status_line(),
    {
        let nothing = String::new();
        let (model, mode, reasoning, sent, received): (&str, SandboxMode, &str, u32, u32) =
            match &self.status {
            Some(s) => (
                s.model.as_str(),
                s.mode,
                s.reasoning.as_str(),
                s.input_tokens,
                s.output_tokens,
            ),
            None => (self.model_label.as_str(), SandboxMode::Sandboxed, nothing.as_str(), 0, 0),
        };
        let mut line: Vec<StyledSpan> = Vec::new();
        line.push(show(" model: ", Tone::StatusKey));
        line.push(show_bold(model, Tone::StatusValue));
        line.push(show(SEP, Tone::DarkGray));
        line.push(show("mode: ", Tone::StatusKey));
        if mode.is_readonly() {
            line.push(show_bold(mode.label(), Tone::ReadOnly));
        } else {
            line.push(show(mode.label(), Tone::StatusValue));
        }
        if !reasoning.is_empty() {
            line.push(show(SEP, Tone::DarkGray));
            line.push(show(reasoning, Tone::Faint));
        }
        if sent > 0 || received > 0 {
            let mut s = "tokens: ".to_owned();
            s.append(text::decimal(sent as u128).as_str());
            s.append("↑ ");
            s.append(text::decimal(received as u128).as_str());
            s.append("↓");
            line.push(show(SEP, Tone::DarkGray));
            line.push(StyledSpan { text: s, tone: Tone::Faint, bold: false });
        }
        assert(spans(line@) =~= self@.status_line());
        line
    }
}

/// How a question is fitted into the rows that there are.
#[derive(Debug, Clone, Copy, PartialEq, Eq, Structural)]
pub struct ConfirmationLayout {
    /// Whether there is room for the separators and the hint.
    pub include_full_chrome: bool,
    /// The first choice that is shown.
    pub window_start: u16,
    /// The first choice after that which is not.
    pub window_end: u16,
}

/// How many choices are shown.
pub open spec fn visible_choices(interior: u16, choices: u16) -> int {
    if interior >= FULL_NON_CHOICE_ROWS + choices {
        choices as int
    } else if interior <= 2 {
        1
    } else if interior - 1 < choices {
        interior - 1
    } else {
        choices as int
    }
}

/// The first choice that is shown, where not all are: the cursor is in the
/// middle of those that are, as far as the ends allow.
pub open spec fn window_from(visible: int, choices: int, cursor: int) -> int {
    let at = if cursor >= choices {
        choices - 1
    } else {
        cursor
    };
    let from = if at - visible / 2 < 0 {
        0
    } else {
        at - visible / 2
    };
    if from > choices - visible {
        choices - visible
    } else {
        from
    }
}

/// How a question is fitted into `interior` rows. The separators and the
/// hint go first, then choices far from the cursor.
pub open spec fn layout_of(interior: u16, choices: u16, cursor: u16) -> ConfirmationLayout {
    if choices == 0 {
        ConfirmationLayout { include_full_chrome: false, window_start: 0, window_end: 0 }
    } else {
        let visible = visible_choices(interior, choices);
        let start = window_from(visible, choices as int, cursor as int);
        ConfirmationLayout {
            include_full_chrome: interior >= FULL_NON_CHOICE_ROWS + choices,
            window_start: start as u16,
            window_end: (start + visible) as u16,
        }
    }
}

/// How a question is fitted into `interior` rows.
pub fn confirmation_layout(interior: u16, choices: u16, cursor: u16) -> (r: ConfirmationLayout)
    ensures
        r == layout_of(interior, choices, cursor),
{
    if choices == 0 {
        return ConfirmationLayout {
            include_full_chrome: false,
            window_start: 0,
            window_end: 0,
        };
    }
    let full = interior >= FULL_NON_CHOICE_ROWS && interior - FULL_NON_CHOICE_ROWS >= choices;
    let budget: u16 = if full {
        interior - FULL_NON_CHOICE_ROWS
    } else {
        interior.saturating_sub(1)
    };
    let visible: u16 = if budget < 1 {
        1
    } else if budget > choices {
        choices
    } else {
        budget
    };
    let at: u16 = if cursor >= choices {
        choices - 1
    } else {
        cursor
    };
    let from = at.saturating_sub(visible / 2);
    let start: u16 = if from > choices - visible {
        choices - visible
    } else {
        from
    };
    ConfirmationLayout {
        include_full_chrome: full,
        window_start: start,
        window_end: start + visible,
    }
}

/// The length of the longest text of a list.
pub open spec fn longest(v: Seq<Seq<char>>) -> nat
    decreases v.len(),
{
    if v.len() == 0 {
        0
    } else if longest(v.drop_last()) > v.last().len() {
        longest(v.drop_last())
    } else {
        v.last().len()
    }
}

fn longest_of(v: &Vec<String>) -> (r: usize)
    ensures
        r == longest(text::views(v@)),
{
    let ghost all = text::views(v@);
    let mut r: usize = 0;
    let mut i: usize = 0;
    while i < v.len()
        invariant
            i <= v@.len(),
            all == text::views(v@),
            r == longest(all.take(i as int)),
        decreases v@.len() - i,
    {
        let len = v[i].as_str().unicode_len();
        if len >= r {
            r = len;
        }
        assert(all.take(i + 1).drop_last() =~= all.take(i as int));
        assert(all.take(i + 1).last() == all[i as int]);
        i = i + 1;
    }
    assert(all.take(i as int) =~= all);
    r
}

pub open spec fn max_of(a: int, b: int) -> int {
    if a < b {
        b
    } else {
        a
    }
}

pub open spec fn min_of(a: int, b: int) -> int {
    if a < b {
        a
    } else {
        b
    }
}

/// The columns that a question needs for its widest line.
pub open spec fn question_columns(c: ConfirmationPrompt) -> int {
    max_of(
        max_of(
            c.prompt@.len() as int,
            longest(text::views(c.choices@)) + CHOICE_INDENT,
        ),
        HINT_LINE@.len() as int,
    )
}

/// Where a question is shown: in the middle, as wide as its widest line and
/// as high as its choices need, as far as there is room.
pub open spec fn question_area(area: Area, c: ConfirmationPrompt) -> Area {
    let ideal = min_of(
        min_of(question_columns(c), u16::MAX as int) + CONFIRMATION_PADDING,
        u16::MAX as int,
    );
    let width = min_of(max_of(ideal, CONFIRMATION_MIN_WIDTH as int), area.width as int);
    let height = max_of(
        min_of(c.choices@.len() + CONFIRMATION_CHROME_ROWS, area.height as int),
        min_of(CONFIRMATION_MIN_HEIGHT as int, area.height as int),
    );
    area.middle(width as u16, height as u16)
}

/// The title of a question, and what its border and its cursor look like.
pub open spec fn question_title(kind: ConfirmationType) -> (Seq<char>, Tone) {
    match kind {
        ConfirmationType::Destructive => (" Confirm destructive action "@, Tone::Accent),
        ConfirmationType::Permission => (" Permission required "@, Tone::Yellow),
        ConfirmationType::Info => (" Confirm "@, Tone::HintKey),
    }
}

/// The title of a question, and what its border and its cursor look like.
pub fn confirmation_title(kind: ConfirmationType) -> (r: (&'static str, Tone))
    ensures
        (r.0@, r.1) == question_title(kind),
{
    match kind {
        ConfirmationType::Destructive => (" Confirm destructive action ", Tone::Accent),
        ConfirmationType::Permission => (" Permission required ", Tone::Yellow),
        ConfirmationType::Info => (" Confirm ", Tone::HintKey),
    }
}

/// The row that tells of choices above those that are shown. It is the
/// first, or the next where the cursor is on the first.
pub open spec fn top_cue(l: ConfirmationLayout, cursor: int) -> Option<int> {
    if l.window_start == 0 {
        None
    } else if cursor == l.window_start && l.window_end - l.window_start >= 2 {
        Some(l.window_start + 1)
    } else {
        Some(l.window_start as int)
    }
}

/// The row that tells of choices below those that are shown. It is the
/// last, or the one before where the cursor is on the last.
pub open spec fn bottom_cue(l: ConfirmationLayout, choices: int, cursor: int) -> Option<int> {
    if l.window_end >= choices {
        None
    } else if cursor + 1 == l.window_end && l.window_end - l.window_start >= 2 {
        Some(l.window_end - 2)
    } else {
        Some(l.window_end - 1)
    }
}

/// What stands before a choice, and what the choice looks like.
pub open spec fn choice_mark(c: ConfirmationPrompt, l: ConfirmationLayout, i: int) -> (
    Seq<char>,
    Tone,
    bool,
) {
    let top = top_cue(l, c.cursor as int) == Some(i);
    let bottom = bottom_cue(l, c.choices@.len() as int, c.cursor as int) == Some(i);
    if i == c.cursor {
        ("❯ "@, question_title(c.kind).1, true)
    } else if top && bottom {
        ("⇅ "@, Tone::DarkGray, false)
    } else if top {
        ("▴ "@, Tone::DarkGray, false)
    } else if bottom {
        ("▾ "@, Tone::DarkGray, false)
    } else {
        ("  "@, Tone::Gray, false)
    }
}

pub open spec fn choice_line(c: ConfirmationPrompt, l: ConfirmationLayout, i: int) -> Seq<
    SpanView,
> {
    let (mark, tone, is_bold) = choice_mark(c, l, i);
    seq![
        plain("  "@, Tone::Plain),
        SpanView { text: mark, tone, bold: is_bold },
        SpanView { text: c.choices@[i]@, tone, bold: is_bold },
    ]
}

pub open spec fn hint_parts() -> Seq<SpanView> {
    seq![
        plain("  "@, Tone::Plain),
        plain("↑↓"@, Tone::HintKey),
        plain(" navigate  ·  "@, Tone::DarkGray),
        plain("⏎"@, Tone::HintKey),
        plain(" select  ·  "@, Tone::DarkGray),
        plain("esc"@, Tone::HintKey),
        plain(" cancel"@, Tone::DarkGray),
    ]
}

/// The choices that are shown, from `window_start` up to `end`.
pub open spec fn choice_lines(c: ConfirmationPrompt, l: ConfirmationLayout, end: int) -> Seq<
    Seq<SpanView>,
> {
    Seq::new(
        (end - l.window_start) as nat,
        |k: int| choice_line(c, l, l.window_start + k),
    )
}

/// The lines of a question in an area of the given height.
pub open spec fn question_lines(c: ConfirmationPrompt, height: u16) -> Seq<Seq<SpanView>> {
    let interior: u16 = if height < 2 {
        0
    } else {
        (height - 2) as u16
    };
    let l = layout_of(interior, c.choices@.len() as u16, c.cursor as u16);
    let prompt = seq![seq![plain("  "@ + c.prompt@, Tone::White)]];
    let choices = choice_lines(c, l, l.window_end as int);
    if l.include_full_chrome {
        let blank = seq![seq![plain(""@, Tone::Plain)]];
        prompt + blank + choices + blank + seq![hint_parts()]
    } else {
        prompt + choices
    }
}

impl ConfirmationPrompt {
    /// Whether the choices and the cursor can be counted in rows.
    pub open spec fn fits_rows(self) -> bool {
        self.choices@.len() + CONFIRMATION_CHROME_ROWS <= u16::MAX && self.cursor < u16::MAX
    }

    /// Where the question is shown.
    pub fn popup_area(&self, area: Area) -> (r: Area)
        requires
            area.fits(),
            self.fits_rows(),
        ensures
            r == question_area(area, *self),
            r.inside(area),
    {
        let prompt_len = self.prompt.as_str().unicode_len();
        let choice_len = longest_of(&self.choices).saturating_add(CHOICE_INDENT);
        let hint_len = HINT_LINE.unicode_len();
        let widest = if prompt_len < choice_len {
            choice_len
        } else {
            prompt_len
        };
        let columns = if widest < hint_len {
            hint_len
        } else {
            widest
        };
        let ideal = count_rows(columns).saturating_add(CONFIRMATION_PADDING);
        let wide = if ideal < CONFIRMATION_MIN_WIDTH {
            CONFIRMATION_MIN_WIDTH
        } else {
            ideal
        };
        let width = if wide < area.width {
            wide
        } else {
            area.width
        };
        let full: u16 = self.choices.len() as u16 + CONFIRMATION_CHROME_ROWS;
        let fitting = if full < area.height {
            full
        } else {
            area.height
        };
        let least = if CONFIRMATION_MIN_HEIGHT < area.height {
            CONFIRMATION_MIN_HEIGHT
        } else {
            area.height
        };
        let height = if fitting < least {
            least
        } else {
            fitting
        };
        area.centered(width, height)
    }

    fn mark(&self, l: ConfirmationLayout, i: u16) -> (r: (&'static str, Tone, bool))
        requires
            self.fits_rows(),
            l.window_start <= i < l.window_end <= self.choices@.len(),
        ensures
            (r.0@, r.1, r.2) == choice_mark(*self, l, i as int),
    {
        let cursor = self.cursor as u16;
        let choices = self.choices.len() as u16;
        let rows: u16 = l.window_end - l.window_start;
        let top: Option<u16> = if l.window_start == 0 {
            None
        } else if cursor == l.window_start && rows >= 2 {
            Some(l.window_start + 1)
        } else {
            Some(l.window_start)
        };
        let bottom: Option<u16> = if l.window_end >= choices {
            None
        } else if cursor + 1 == l.window_end && rows >= 2 {
            Some(l.window_end - 2)
        } else {
            Some(l.window_end - 1)
        };
        let at_top = match top {
            Some(row) => row == i,
            None => false,
        };
        let at_bottom = match bottom {
            Some(row) => row == i,
            None => false,
        };
        if i == cursor {
            ("❯ ", confirmation_title(self.kind).1, true)
        } else if at_top && at_bottom {
            ("⇅ ", Tone::DarkGray, false)
        } else if at_top {
            ("▴ ", Tone::DarkGray, false)
        } else if at_bottom {
            ("▾ ", Tone::DarkGray, false)
        } else {
            ("  ", Tone::Gray, false)
        }
    }

    /// The lines of the question in an area of the given height.
    pub fn popup_lines(&self, height: u16) -> (r: Vec<Vec<StyledSpan>>)
        requires
            self.fits_rows(),
        ensures
            lines_of(r@) == question_lines(*self, height),
    {
        let interior = height.saturating_sub(2);
        let l = confirmation_layout(interior, self.choices.len() as u16, self.cursor as u16);
        proof {
            window_holds_the_cursor(interior, self.choices@.len() as u16, self.cursor as u16);
        }
        let mut lines: Vec<Vec<StyledSpan>> = Vec::new();
        let mut prompt = "  ".to_owned();
        prompt.append(self.prompt.as_str());
        let first = vec![StyledSpan { text: prompt, tone: Tone::White, bold: false }];
        assert(spans(first@) =~= seq![plain("  "@ + self.prompt@, Tone::White)]);
        lines.push(first);
        let ghost mut head = seq![seq![plain("  "@ + self.prompt@, Tone::White)]];
        if l.include_full_chrome {
            let blank = vec![show("", Tone::Plain)];
            assert(spans(blank@) =~= seq![plain(""@, Tone::Plain)]);
            lines.push(blank);
            proof {
                head = head + seq![seq![plain(""@, Tone::Plain)]];
            }
        }
        assert(lines_of(lines@) =~= head);
        let mut i: u16 = l.window_start;
        assert(head + choice_lines(*self, l, i as int) =~= head);
        while i < l.window_end
            invariant
                self.fits_rows(),
                l.window_start <= i <= l.window_end <= self.choices@.len(),
                lines_of(lines@) == head + choice_lines(*self, l, i as int),
            decreases l.window_end - i,
        {
            let (mark, tone, is_bold) = self.mark(l, i);
            let choice = self.choices[i as usize].clone();
            let line = vec![
                show("  ", Tone::Plain),
                StyledSpan { text: mark.to_owned(), tone, bold: is_bold },
                StyledSpan { text: choice, tone, bold: is_bold },
            ];
            assert(spans(line@) =~= choice_line(*self, l, i as int));
            let ghost before = lines@;
            lines.push(line);
            proof {
                let done = choice_lines(*self, l, i as int);
                let next = choice_line(*self, l, i as int);
                assert(lines_of(lines@) =~= lines_of(before).push(next));
                assert(done.push(next) =~= choice_lines(*self, l, i + 1));
                assert((head + done).push(next) =~= head + choice_lines(*self, l, i + 1));
            }
            i = i + 1;
        }
        if l.include_full_chrome {
            let ghost before = lines@;
            let blank = vec![show("", Tone::Plain)];
            assert(spans(blank@) =~= seq![plain(""@, Tone::Plain)]);
            lines.push(blank);
            let hint = vec![
                show("  ", Tone::Plain),
                show("↑↓", Tone::HintKey),
                show(" navigate  ·  ", Tone::DarkGray),
                show("⏎", Tone::HintKey),
                show(" select  ·  ", Tone::DarkGray),
                show("esc", Tone::HintKey),
                show(" cancel", Tone::DarkGray),
            ];
            assert(spans(hint@) =~= hint_parts());
            lines.push(hint);
            assert(lines_of(lines@) =~= lines_of(before) + seq![seq![plain(""@, Tone::Plain)]]
                + seq![hint_parts()]);
        }
        assert(lines_of(lines@) =~= question_lines(*self, height));
        lines
    }
}

/// Where the list of sessions is shown: in the middle, on eight tenths of
/// the width and six of the height.
pub open spec fn list_area(area: Area) -> Area {
    area.middle(tenths(area.width, 8), tenths(area.height, 6))
}

/// Some tenths of a length. What is divided saturates.
pub open spec fn tenths(n: u16, part: int) -> u16 {
    (min_of(n * part, u16::MAX as int) / 10) as u16
}

fn tenths_of(n: u16, part: u16) -> (r: u16)
    requires
        part <= 10,
    ensures
        r == tenths(n, part as int),
        r <= n,
{
    assert(n * part <= n * 10) by (nonlinear_arith)
        requires
            part <= 10,
    ;
    let all: u32 = n as u32 * part as u32;
    if all > 65535 {
        6553
    } else {
        (all / 10) as u16
    }
}

pub open spec fn session_line(s: SessionMetadata, selected: bool) -> Seq<SpanView> {
    seq![
        plain(
            if selected {
                "❯ "@
            } else {
                "  "@
            },
            Tone::Plain,
        ),
        if selected {
            bold(s.preview@, Tone::White)
        } else {
            plain(s.preview@, Tone::Gray)
        },
        plain(" ("@ + text::decimal_of(s.message_count as nat) + " msgs)"@, Tone::Dim),
    ]
}

/// The lines of the list of sessions.
pub open spec fn session_lines(p: Picker) -> Seq<Seq<SpanView>> {
    Seq::new(p.sessions@.len(), |i: int| session_line(p.sessions@[i], i == p.cursor))
}

impl Picker {
    /// Where the list is shown.
    pub fn popup_area(area: Area) -> (r: Area)
        requires
            area.fits(),
        ensures
            r == list_area(area),
            r.inside(area),
    {
        area.centered(tenths_of(area.width, 8), tenths_of(area.height, 6))
    }

    /// The lines of the list.
    pub fn popup_lines(&self) -> (r: Vec<Vec<StyledSpan>>)
        ensures
            lines_of(r@) == session_lines(*self),
    {
        let mut lines: Vec<Vec<StyledSpan>> = Vec::new();
        let mut i: usize = 0;
        assert(lines_of(lines@) =~= session_lines(*self).take(0));
        while i < self.sessions.len()
            invariant
                i <= self.sessions@.len(),
                lines_of(lines@) == session_lines(*self).take(i as int),
            decreases self.sessions@.len() - i,
        {
            let s = &self.sessions[i];
            let selected = i == self.cursor;
            let mut count = " (".to_owned();
            count.append(text::decimal(s.message_count as u128).as_str());
            count.append(" msgs)");
            let line = vec![
                show(
                    if selected {
                        "❯ "
                    } else {
                        "  "
                    },
                    Tone::Plain,
                ),
                StyledSpan {
                    text: s.preview.clone(),
                    tone: if selected {
                        Tone::White
                    } else {
                        Tone::Gray
                    },
                    bold: selected,
                },
                StyledSpan { text: count, tone: Tone::Dim, bold: false },
            ];
            assert(spans(line@) =~= session_line(*s, selected));
            let ghost before = lines@;
            lines.push(line);
            proof {
                let all = session_lines(*self);
                assert(lines_of(lines@) =~= lines_of(before).push(all[i as int]));
                assert(all.take(i as int).push(all[i as int]) =~= all.take(i + 1));
            }
            i = i + 1;
        }
        assert(session_lines(*self).take(i as int) =~= session_lines(*self));
        lines
    }
}

/// The choices that are shown are some of those that there are, at least
/// one where there is any, and the highlighted one among them. All are shown
/// where there is room for the separators and the hint.
pub proof fn window_holds_the_cursor(interior: u16, choices: u16, cursor: u16)
    ensures
        ({
            let l = layout_of(interior, choices, cursor);
            &&& l.window_start <= l.window_end <= choices
            &&& choices > 0 ==> l.window_start < l.window_end
            &&& cursor < choices ==> l.window_start <= cursor < l.window_end
            &&& l.include_full_chrome ==> l.window_start == 0 && l.window_end == choices
        }),
{
}

/// A question never has more lines than there is room for inside its
/// borders, where there is room for the prompt and a choice.
pub proof fn question_fits_its_area(c: ConfirmationPrompt, height: u16)
    requires
        c.fits_rows(),
        height >= CONFIRMATION_MIN_HEIGHT,
    ensures
        question_lines(c, height).len() + 2 <= height,
{
    window_holds_the_cursor((height - 2) as u16, c.choices@.len() as u16, c.cursor as u16);
}

/// Where choices above or below are not shown and at least two are, a row
/// says so.
pub proof fn hidden_choices_are_cued(c: ConfirmationPrompt, interior: u16)
    requires
        c.fits_rows(),
        c.cursor < c.choices@.len(),
    ensures
        ({
            let l = layout_of(interior, c.choices@.len() as u16, c.cursor as u16);
            &&& l.window_end - l.window_start >= 2 && l.window_start > 0 ==> {
                let i = top_cue(l, c.cursor as int)->0;
                &&& l.window_start <= i < l.window_end
                &&& choice_mark(c, l, i).0 == "▴ "@ || choice_mark(c, l, i).0 == "⇅ "@
            }
            &&& l.window_end - l.window_start >= 2 && l.window_end < c.choices@.len() ==> {
                let i = bottom_cue(l, c.choices@.len() as int, c.cursor as int)->0;
                &&& l.window_start <= i < l.window_end
                &&& choice_mark(c, l, i).0 == "▾ "@ || choice_mark(c, l, i).0 == "⇅ "@
            }
        }),
{
    window_holds_the_cursor(interior, c.choices@.len() as u16, c.cursor as u16);
}

/// The interface is high enough for every choice of a question.
pub proof fn question_gets_its_rows(a: AppView, content_rows: u16)
    requires
        a.confirmation is Some,
        a.confirmation->0.fits_rows(),
    ensures
        ({
            let c = a.confirmation->0;
            let height = a.height(content_rows) as u16;
            let l = layout_of((height - 2) as u16, c.choices@.len() as u16, c.cursor as u16);
            c.choices@.len() > 0 ==> l.include_full_chrome
        }),
{
}

/// The input box grows with its text and is never higher than its limit.
pub proof fn input_box_grows(fewer: u16, more: u16)
    requires
        fewer <= more,
    ensures
        box_height(fewer) <= box_height(more) <= MAX_INPUT_CONTENT_ROWS + INPUT_BORDER_ROWS,
        box_height(fewer) > INPUT_BORDER_ROWS,
{
}

} // verus!
