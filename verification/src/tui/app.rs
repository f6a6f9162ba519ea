//! The state of the interface: the input, what is queued, what is open over
//! it, and what it shows of the session.

use super::event;
use super::event::{
    ConfirmationType, EffortPickerEntry, ExitSummary, Job, JobView, ModelPickerEntry,
    ModePickerEntry, PermissionsPickerEntry, StatusSnapshot,
};
use super::slash_popup::{PopupView, SlashPopup};
use crate::api;
use crate::config::SandboxMode;
use crate::repl::turn::PastedImage;
use crate::session::model::SessionMetadata;
use crate::text;
use std::collections::VecDeque;
use vstd::prelude::*;

verus! {

/// How many pictures the spinner goes through.
pub const SPINNER_FRAMES: usize = 10;

/// Most inputs that are remembered.
pub const INPUT_HISTORY_CAP: usize = 100;

/// The list of stored sessions.
#[derive(Debug)]
pub struct Picker {
    pub sessions: Vec<SessionMetadata>,
    pub cursor: usize,
}

/// The list of models.
#[derive(Debug)]
pub struct ModelPicker {
    pub entries: Vec<ModelPickerEntry>,
    pub cursor: usize,
}

/// The list of efforts.
#[derive(Debug)]
pub struct EffortPicker {
    pub entries: Vec<EffortPickerEntry>,
    pub cursor: usize,
}

/// The list of presets.
#[derive(Debug)]
pub struct PermissionsPicker {
    pub entries: Vec<PermissionsPickerEntry>,
    pub cursor: usize,
}

/// The list of modes of reasoning that the user chooses from.
#[derive(Debug)]
pub struct ModePicker {
    pub entries: Vec<ModePickerEntry>,
    pub cursor: usize,
}

/// One up in a list, unless that is its end.
pub open spec fn one_up(cursor: usize) -> usize {
    if cursor > 0 {
        (cursor - 1) as usize
    } else {
        cursor
    }
}

/// One down in a list of the given length, unless that is its end.
pub open spec fn one_down(cursor: usize, len: nat) -> usize {
    if cursor + 1 < len {
        (cursor + 1) as usize
    } else {
        cursor
    }
}

pub fn step_up(cursor: usize) -> (r: usize)
    ensures
        r == one_up(cursor),
{
    if cursor > 0 {
        cursor - 1
    } else {
        cursor
    }
}

pub fn step_down(cursor: usize, len: usize) -> (r: usize)
    ensures
        r == one_down(cursor, len as nat),
{
    if len > 0 && cursor < len - 1 {
        cursor + 1
    } else {
        cursor
    }
}

/// The first of the flags from `i` on that is set.
pub open spec fn first_set(flags: Seq<bool>, i: int) -> Option<usize>
    decreases flags.len() - i,
{
    if i < 0 || i >= flags.len() {
        None
    } else if flags[i] {
        Some(i as usize)
    } else {
        first_set(flags, i + 1)
    }
}

/// The last of the flags up to `i` that is set.
pub open spec fn last_set(flags: Seq<bool>, i: int) -> Option<usize>
    decreases i + 1,
{
    if i < 0 || i >= flags.len() {
        None
    } else if flags[i] {
        Some(i as usize)
    } else {
        last_set(flags, i - 1)
    }
}

/// One down in a list, past what cannot be chosen; where nothing below can
/// be chosen the cursor stays.
pub open spec fn next_available(flags: Seq<bool>, cursor: usize) -> usize {
    if flags.len() == 0 {
        0
    } else {
        match first_set(flags, cursor + 1) {
            Some(i) => i,
            None => cursor,
        }
    }
}

/// One up in a list, past what cannot be chosen; where nothing above can be
/// chosen the cursor stays.
pub open spec fn previous_available(flags: Seq<bool>, cursor: usize) -> usize {
    if flags.len() == 0 {
        0
    } else {
        match last_set(flags, cursor - 1) {
            Some(i) => i,
            None => cursor,
        }
    }
}

/// Where the cursor of a list starts: at what is in use where that can be
/// chosen, and otherwise at the first that can be.
pub open spec fn start_of(current: Seq<bool>, available: Seq<bool>) -> usize {
    let both = Seq::new(current.len(), |i: int| current[i] && available[i]);
    match first_set(both, 0) {
        Some(i) => i,
        None => match first_set(available, 0) {
            Some(i) => i,
            None => 0,
        },
    }
}

pub fn find_next(flags: &Vec<bool>, cursor: usize) -> (r: usize)
    ensures
        r == next_available(flags@, cursor),
{
    let n = flags.len();
    if n == 0 {
        return 0;
    }
    if cursor >= n - 1 {
        return cursor;
    }
    let mut i: usize = cursor + 1;
    while i < n
        invariant
            n == flags@.len(),
            cursor < i <= n,
            first_set(flags@, cursor + 1) == first_set(flags@, i as int),
        decreases n - i,
    {
        if flags[i] {
            return i;
        }
        i = i + 1;
    }
    cursor
}

pub fn find_previous(flags: &Vec<bool>, cursor: usize) -> (r: usize)
    ensures
        r == previous_available(flags@, cursor),
{
    let n = flags.len();
    if n == 0 {
        return 0;
    }
    if cursor > n {
        return cursor;
    }
    let mut i: usize = cursor;
    while i > 0
        invariant
            n == flags@.len(),
            i <= cursor <= n,
            last_set(flags@, cursor - 1) == last_set(flags@, i - 1),
        decreases i,
    {
        if flags[i - 1] {
            return i - 1;
        }
        i = i - 1;
    }
    cursor
}

fn find_first(flags: &Vec<bool>) -> (r: Option<usize>)
    ensures
        r == first_set(flags@, 0),
{
    let mut i: usize = 0;
    while i < flags.len()
        invariant
            i <= flags@.len(),
            first_set(flags@, 0) == first_set(flags@, i as int),
        decreases flags@.len() - i,
    {
        if flags[i] {
            return Some(i);
        }
        i = i + 1;
    }
    None
}

pub open spec fn model_available(v: Seq<ModelPickerEntry>) -> Seq<bool> {
    v.map_values(|e: ModelPickerEntry| e.is_available)
}

pub open spec fn model_current(v: Seq<ModelPickerEntry>) -> Seq<bool> {
    v.map_values(|e: ModelPickerEntry| e.is_current)
}

pub open spec fn effort_current(v: Seq<EffortPickerEntry>) -> Seq<bool> {
    v.map_values(|e: EffortPickerEntry| e.is_current)
}

pub open spec fn preset_available(v: Seq<PermissionsPickerEntry>) -> Seq<bool> {
    v.map_values(|e: PermissionsPickerEntry| e.is_available)
}

pub open spec fn preset_current(v: Seq<PermissionsPickerEntry>) -> Seq<bool> {
    v.map_values(|e: PermissionsPickerEntry| e.is_current)
}

pub open spec fn mode_available(v: Seq<ModePickerEntry>) -> Seq<bool> {
    v.map_values(|e: ModePickerEntry| e.is_available)
}

pub open spec fn mode_current(v: Seq<ModePickerEntry>) -> Seq<bool> {
    v.map_values(|e: ModePickerEntry| e.is_current)
}

impl ModelPicker {
    fn available(&self) -> (r: Vec<bool>)
        ensures
            r@ == model_available(self.entries@),
    {
        let mut r: Vec<bool> = Vec::new();
        let mut i: usize = 0;
        while i < self.entries.len()
            invariant
                i <= self.entries@.len(),
                r@ =~= model_available(self.entries@).take(i as int),
            decreases self.entries@.len() - i,
        {
            r.push(self.entries[i].is_available);
            i = i + 1;
        }
        r
    }

    /// The list with the cursor on the model in use.
    pub fn new(entries: Vec<ModelPickerEntry>) -> (r: Self)
        ensures
            r.entries == entries,
            r.cursor == start_of(model_current(entries@), model_available(entries@)),
    {
        let mut both: Vec<bool> = Vec::new();
        let ghost want = Seq::new(
            entries@.len(),
            |i: int| model_current(entries@)[i] && model_available(entries@)[i],
        );
        let mut i: usize = 0;
        while i < entries.len()
            invariant
                i <= entries@.len(),
                want == Seq::new(
                    entries@.len(),
                    |i: int| model_current(entries@)[i] && model_available(entries@)[i],
                ),
                both@ =~= want.take(i as int),
            decreases entries@.len() - i,
        {
            both.push(entries[i].is_current && entries[i].is_available);
            i = i + 1;
        }
        assert(both@ =~= want);
        let mut r = ModelPicker { entries, cursor: 0 };
        let available = r.available();
        r.cursor = match find_first(&both) {
            Some(i) => i,
            None => match find_first(&available) {
                Some(i) => i,
                None => 0,
            },
        };
        r
    }

    /// One up, past models that cannot be chosen.
    pub fn move_up(&mut self)
        ensures
            *final(self) == (ModelPicker {
                cursor: previous_available(model_available(old(self).entries@), old(self).cursor),
                ..*old(self)
            }),
    {
        let available = self.available();
        self.cursor = find_previous(&available, self.cursor);
    }

    /// One down, past models that cannot be chosen.
    pub fn move_down(&mut self)
        ensures
            *final(self) == (ModelPicker {
                cursor: next_available(model_available(old(self).entries@), old(self).cursor),
                ..*old(self)
            }),
    {
        let available = self.available();
        self.cursor = find_next(&available, self.cursor);
    }

    /// The line that the cursor is on.
    pub fn selected(&self) -> (r: Option<&ModelPickerEntry>)
        ensures
            r == (if self.cursor < self.entries@.len() {
                Some(&self.entries@[self.cursor as int])
            } else {
                None
            }),
    {
        if self.cursor < self.entries.len() {
            Some(&self.entries[self.cursor])
        } else {
            None
        }
    }
}

impl EffortPicker {
    /// The list with the cursor on the effort in use.
    pub fn new(entries: Vec<EffortPickerEntry>) -> (r: Self)
        ensures
            r.entries == entries,
            r.cursor == (match first_set(effort_current(entries@), 0) {
                Some(i) => i,
                None => 0,
            }),
    {
        let mut current: Vec<bool> = Vec::new();
        let mut i: usize = 0;
        while i < entries.len()
            invariant
                i <= entries@.len(),
                current@ =~= effort_current(entries@).take(i as int),
            decreases entries@.len() - i,
        {
            current.push(entries[i].is_current);
            i = i + 1;
        }
        assert(current@ =~= effort_current(entries@));
        let cursor: usize = match find_first(&current) {
            Some(i) => i,
            None => 0,
        };
        EffortPicker { entries, cursor }
    }

    pub fn move_up(&mut self)
        ensures
            *final(self) == (EffortPicker { cursor: one_up(old(self).cursor), ..*old(self) }),
    {
        self.cursor = step_up(self.cursor);
    }

    pub fn move_down(&mut self)
        ensures
            *final(self) == (EffortPicker {
                cursor: one_down(old(self).cursor, old(self).entries@.len()),
                ..*old(self)
            }),
    {
        self.cursor = step_down(self.cursor, self.entries.len());
    }

    /// The line that the cursor is on.
    pub fn selected(&self) -> (r: Option<&EffortPickerEntry>)
        ensures
            r == (if self.cursor < self.entries@.len() {
                Some(&self.entries@[self.cursor as int])
            } else {
                None
            }),
    {
        if self.cursor < self.entries.len() {
            Some(&self.entries[self.cursor])
        } else {
            None
        }
    }
}

impl PermissionsPicker {
    fn available(&self) -> (r: Vec<bool>)
        ensures
            r@ == preset_available(self.entries@),
    {
        let mut r: Vec<bool> = Vec::new();
        let mut i: usize = 0;
        while i < self.entries.len()
            invariant
                i <= self.entries@.len(),
                r@ =~= preset_available(self.entries@).take(i as int),
            decreases self.entries@.len() - i,
        {
            r.push(self.entries[i].is_available);
            i = i + 1;
        }
        r
    }

    /// The list with the cursor on the preset in use.
    pub fn new(entries: Vec<PermissionsPickerEntry>) -> (r: Self)
        ensures
            r.entries == entries,
            r.cursor == start_of(preset_current(entries@), preset_available(entries@)),
    {
        let mut both: Vec<bool> = Vec::new();
        let ghost want = Seq::new(
            entries@.len(),
            |i: int| preset_current(entries@)[i] && preset_available(entries@)[i],
        );
        let mut i: usize = 0;
        while i < entries.len()
            invariant
                i <= entries@.len(),
                want == Seq::new(
                    entries@.len(),
                    |i: int| preset_current(entries@)[i] && preset_available(entries@)[i],
                ),
                both@ =~= want.take(i as int),
            decreases entries@.len() - i,
        {
            both.push(entries[i].is_current && entries[i].is_available);
            i = i + 1;
        }
        assert(both@ =~= want);
        let mut r = PermissionsPicker { entries, cursor: 0 };
        let available = r.available();
        r.cursor = match find_first(&both) {
            Some(i) => i,
            None => match find_first(&available) {
                Some(i) => i,
                None => 0,
            },
        };
        r
    }

    /// One up, past presets that cannot be chosen.
    pub fn move_up(&mut self)
        ensures
            *final(self) == (PermissionsPicker {
                cursor: previous_available(
                    preset_available(old(self).entries@),
                    old(self).cursor,
                ),
                ..*old(self)
            }),
    {
        let available = self.available();
        self.cursor = find_previous(&available, self.cursor);
    }

    /// One down, past presets that cannot be chosen.
    pub fn move_down(&mut self)
        ensures
            *final(self) == (PermissionsPicker {
                cursor: next_available(preset_available(old(self).entries@), old(self).cursor),
                ..*old(self)
            }),
    {
        let available = self.available();
        self.cursor = find_next(&available, self.cursor);
    }

    /// The line that the cursor is on.
    pub fn selected(&self) -> (r: Option<&PermissionsPickerEntry>)
        ensures
            r == (if self.cursor < self.entries@.len() {
                Some(&self.entries@[self.cursor as int])
            } else {
                None
            }),
    {
        if self.cursor < self.entries.len() {
            Some(&self.entries[self.cursor])
        } else {
            None
        }
    }
}

impl ModePicker {
    fn available(&self) -> (r: Vec<bool>)
        ensures
            r@ == mode_available(self.entries@),
    {
        let mut r: Vec<bool> = Vec::new();
        let mut i: usize = 0;
        while i < self.entries.len()
            invariant
                i <= self.entries@.len(),
                r@ =~= mode_available(self.entries@).take(i as int),
            decreases self.entries@.len() - i,
        {
            r.push(self.entries[i].is_available);
            i = i + 1;
        }
        r
    }

    /// The list with the cursor on the mode in use.
    pub fn new(entries: Vec<ModePickerEntry>) -> (r: Self)
        ensures
            r.entries == entries,
            r.cursor == start_of(mode_current(entries@), mode_available(entries@)),
    {
        let mut both: Vec<bool> = Vec::new();
        let ghost want = Seq::new(
            entries@.len(),
            |i: int| mode_current(entries@)[i] && mode_available(entries@)[i],
        );
        let mut i: usize = 0;
        while i < entries.len()
            invariant
                i <= entries@.len(),
                want == Seq::new(
                    entries@.len(),
                    |i: int| mode_current(entries@)[i] && mode_available(entries@)[i],
                ),
                both@ =~= want.take(i as int),
            decreases entries@.len() - i,
        {
            both.push(entries[i].is_current && entries[i].is_available);
            i = i + 1;
        }
        assert(both@ =~= want);
        let mut r = ModePicker { entries, cursor: 0 };
        let available = r.available();
        r.cursor = match find_first(&both) {
            Some(i) => i,
            None => match find_first(&available) {
                Some(i) => i,
                None => 0,
            },
        };
        r
    }

    /// One up, past modes that cannot be chosen.
    pub fn move_up(&mut self)
        ensures
            *final(self) == (ModePicker {
                cursor: previous_available(
                    mode_available(old(self).entries@),
                    old(self).cursor,
                ),
                ..*old(self)
            }),
    {
        let available = self.available();
        self.cursor = find_previous(&available, self.cursor);
    }

    /// One down, past modes that cannot be chosen.
    pub fn move_down(&mut self)
        ensures
            *final(self) == (ModePicker {
                cursor: next_available(mode_available(old(self).entries@), old(self).cursor),
                ..*old(self)
            }),
    {
        let available = self.available();
        self.cursor = find_next(&available, self.cursor);
    }

    /// The line that the cursor is on.
    pub fn selected(&self) -> (r: Option<&ModePickerEntry>)
        ensures
            r == (if self.cursor < self.entries@.len() {
                Some(&self.entries@[self.cursor as int])
            } else {
                None
            }),
    {
        if self.cursor < self.entries.len() {
            Some(&self.entries[self.cursor])
        } else {
            None
        }
    }
}

/// A question that a tool asks the user. The tool waits for the answer.
#[derive(Debug)]
pub struct ConfirmationPrompt {
    pub prompt: String,
    pub choices: Vec<String>,
    /// The highlighted choice.
    pub cursor: usize,
    /// The answer where the user gives none.
    pub default_index: usize,
    pub kind: ConfirmationType,
}

/// The state of the interface.
#[derive(Debug)]
pub struct App {
    /// The text in the input box.
    pub input: String,
    pub busy: bool,
    pub busy_label: String,
    /// The jobs that wait for the worker.
    pub queue: VecDeque<Job>,
    pub spinner_tick: usize,
    /// When the worker started its job, in seconds.
    pub busy_since: Option<u64>,
    pub picker: Option<Picker>,
    pub model_picker: Option<ModelPicker>,
    pub effort_picker: Option<EffortPicker>,
    pub permissions_picker: Option<PermissionsPicker>,
    pub mode_picker: Option<ModePicker>,
    pub confirmation: Option<ConfirmationPrompt>,
    /// The model's name until the first status arrives.
    pub model_label: String,
    pub should_quit: bool,
    pub exit_summary: Option<ExitSummary>,
    pub status: Option<StatusSnapshot>,
    /// The images that the input refers to.
    pub pasted_images: Vec<PastedImage>,
    /// The inputs that were submitted, oldest first.
    pub input_history: VecDeque<String>,
    /// What was in the input box before the user went back to older inputs.
    pub history_draft: Option<String>,
    /// Which older input is in the input box, if one is.
    pub history_cursor: Option<usize>,
    pub slash_popup: SlashPopup,
}

#[verifier::ext_equal]
pub struct AppView {
    pub input: Seq<char>,
    pub busy: bool,
    pub busy_label: Seq<char>,
    pub queue: Seq<JobView>,
    pub spinner_tick: usize,
    pub busy_since: Option<u64>,
    pub picker: Option<Picker>,
    pub model_picker: Option<ModelPicker>,
    pub effort_picker: Option<EffortPicker>,
    pub permissions_picker: Option<PermissionsPicker>,
    pub mode_picker: Option<ModePicker>,
    pub confirmation: Option<ConfirmationPrompt>,
    pub model_label: Seq<char>,
    pub should_quit: bool,
    pub exit_summary: Option<ExitSummary>,
    pub status: Option<StatusSnapshot>,
    pub pasted_images: Seq<PastedImage>,
    pub history: Seq<Seq<char>>,
    pub draft: Option<Seq<char>>,
    pub history_cursor: Option<usize>,
    pub popup: PopupView,
}

impl View for App {
    type V = AppView;

    open spec fn view(&self) -> AppView {
        AppView {
            input: self.input@,
            busy: self.busy,
            busy_label: self.busy_label@,
            queue: event::job_views(self.queue@),
            spinner_tick: self.spinner_tick,
            busy_since: self.busy_since,
            picker: self.picker,
            model_picker: self.model_picker,
            effort_picker: self.effort_picker,
            permissions_picker: self.permissions_picker,
            mode_picker: self.mode_picker,
            confirmation: self.confirmation,
            model_label: self.model_label@,
            should_quit: self.should_quit,
            exit_summary: self.exit_summary,
            status: self.status,
            pasted_images: self.pasted_images@,
            history: text::views(self.input_history@),
            draft: api::option_view(self.history_draft),
            history_cursor: self.history_cursor,
            popup: self.slash_popup@,
        }
    }
}

/// The remembered inputs with one more. Nothing is remembered of an empty
/// input, nor of one that is the same as the last.
pub open spec fn remembered(history: Seq<Seq<char>>, text: Seq<char>) -> Seq<Seq<char>> {
    if text.len() == 0 || (history.len() > 0 && history.last() == text) {
        history
    } else {
        let all = history.push(text);
        if all.len() > INPUT_HISTORY_CAP {
            all.skip(all.len() - INPUT_HISTORY_CAP)
        } else {
            all
        }
    }
}

impl AppView {
    /// The interface with another text in the input box.
    pub open spec fn with_input(self, input: Seq<char>) -> AppView {
        AppView { input, popup: PopupView::empty(), ..self }
    }

    /// The interface with an older input in the input box, if there is one
    /// at that place.
    pub open spec fn with_entry(self, i: int) -> AppView {
        if 0 <= i < self.history.len() {
            self.with_input(self.history[i])
        } else {
            self
        }
    }

    pub open spec fn older(self) -> AppView {
        if self.history.len() == 0 {
            self
        } else {
            let next: int = match self.history_cursor {
                None => self.history.len() - 1,
                Some(i) => if i == 0 {
                    0
                } else {
                    i - 1
                },
            };
            AppView {
                draft: if self.history_cursor is None {
                    Some(self.input)
                } else {
                    self.draft
                },
                history_cursor: Some(next as usize),
                ..self
            }.with_entry(next)
        }
    }

    pub open spec fn newer(self) -> AppView {
        match self.history_cursor {
            None => self,
            Some(i) => if i + 1 >= self.history.len() {
                AppView { history_cursor: None, draft: None, ..self }.with_input(
                    match self.draft {
                        Some(d) => d,
                        None => Seq::empty(),
                    },
                )
            } else {
                AppView { history_cursor: Some((i + 1) as usize), ..self }.with_entry(i + 1)
            },
        }
    }

    pub open spec fn submitted(self, text: Seq<char>) -> AppView {
        AppView {
            history: remembered(self.history, text),
            history_cursor: if text.len() == 0 {
                self.history_cursor
            } else {
                None
            },
            ..self
        }
    }

    pub open spec fn synced(self) -> AppView {
        AppView {
            popup: self.popup.synced(self.input, text::lowercase_of(self.input)),
            ..self
        }
    }

    /// The interface with the spinner one picture on.
    pub open spec fn spun(self) -> AppView {
        AppView {
            spinner_tick: ((self.spinner_tick % SPINNER_FRAMES + 1) % SPINNER_FRAMES as int)
                as usize,
            ..self
        }
    }

    /// Whether a list is open over the interface.
    pub open spec fn picking(self) -> bool {
        self.picker is Some || self.model_picker is Some || self.effort_picker is Some
            || self.permissions_picker is Some || self.mode_picker is Some
    }
}

/// The spinner's pictures.
pub open spec fn spinner_text(tick: nat) -> Seq<char> {
    if tick == 0 {
        "⠋"@
    } else if tick == 1 {
        "⠙"@
    } else if tick == 2 {
        "⠹"@
    } else if tick == 3 {
        "⠸"@
    } else if tick == 4 {
        "⠼"@
    } else if tick == 5 {
        "⠴"@
    } else if tick == 6 {
        "⠦"@
    } else if tick == 7 {
        "⠧"@
    } else if tick == 8 {
        "⠇"@
    } else {
        "⠏"@
    }
}

impl App {
    /// The interface when it starts.
    pub fn new(model_label: String) -> (r: Self)
        ensures
            r@ == (AppView {
                input: Seq::empty(),
                busy: false,
                busy_label: Seq::empty(),
                queue: Seq::empty(),
                spinner_tick: 0,
                busy_since: None,
                picker: None,
                model_picker: None,
                effort_picker: None,
                permissions_picker: None,
                mode_picker: None,
                confirmation: None,
                model_label: model_label@,
                should_quit: false,
                exit_summary: None,
                status: None,
                pasted_images: Seq::empty(),
                history: Seq::empty(),
                draft: None,
                history_cursor: None,
                popup: PopupView::empty(),
            }),
    {
        let r = App {
            input: String::new(),
            busy: false,
            busy_label: String::new(),
            queue: VecDeque::new(),
            spinner_tick: 0,
            busy_since: None,
            picker: None,
            model_picker: None,
            effort_picker: None,
            permissions_picker: None,
            mode_picker: None,
            confirmation: None,
            model_label,
            should_quit: false,
            exit_summary: None,
            status: None,
            pasted_images: Vec::new(),
            input_history: VecDeque::new(),
            history_draft: None,
            history_cursor: None,
            slash_popup: SlashPopup::new(),
        };
        assert(r@.input =~= Seq::empty());
        assert(r@.busy_label =~= Seq::empty());
        assert(r@.history =~= Seq::empty());
        assert(r@.queue =~= Seq::empty());
        r
    }

    /// Brings the list of commands in line with the input.
    pub fn sync_slash_popup(&mut self)
        ensures
            final(self)@ == old(self)@.synced(),
    {
        let input = self.input.clone();
        self.slash_popup.sync(input.as_str());
    }

    /// Whether the session changes nothing, by the latest status.
    pub fn is_safe_mode(&self) -> (r: bool)
        ensures
            r == (self@.status is Some && self@.status->0.mode == SandboxMode::ReadOnly),
    {
        match &self.status {
            Some(s) => s.mode.is_readonly(),
            None => false,
        }
    }

    /// Remembers an input that was submitted.
    pub fn remember_submitted(&mut self, text: &str)
        ensures
            final(self)@ == old(self)@.submitted(text@),
    {
        if text.is_empty() {
            return;
        }
        let len = self.input_history.len();
        let ghost before = self@.history;
        if len > 0 {
            assert(before.last() == self.input_history@[len - 1]@);
            if text::same(self.input_history[len - 1].as_str(), text) {
                self.history_cursor = None;
                return;
            }
        }
        self.input_history.push_back(text.to_owned());
        let ghost all = before.push(text@);
        assert(text::views(self.input_history@) =~= all);
        let ghost mut dropped: int = 0;
        assert(all.skip(0) =~= all);
        while self.input_history.len() > INPUT_HISTORY_CAP
            invariant
                0 <= dropped <= all.len(),
                text::views(self.input_history@) == all.skip(dropped),
                dropped > 0 ==> all.len() - dropped >= INPUT_HISTORY_CAP,
                self@ == (AppView { history: all.skip(dropped), ..old(self)@ }),
            decreases self.input_history@.len(),
        {
            let ghost was = self.input_history@;
            assert(text::views(was).len() == was.len());
            let _ = self.input_history.pop_front();
            proof {
                assert(self.input_history@ =~= was.drop_first());
                assert(text::views(self.input_history@) =~= text::views(was).drop_first());
                assert(all.skip(dropped).drop_first() =~= all.skip(dropped + 1));
                dropped = dropped + 1;
            }
        }
        self.history_cursor = None;
        assert(self@.history =~= remembered(before, text@));
    }

    /// Puts the next older input into the input box. What was there first is
    /// kept.
    pub fn history_prev(&mut self)
        ensures
            final(self)@ == old(self)@.older(),
    {
        let len = self.input_history.len();
        if len == 0 {
            return;
        }
        if self.history_cursor.is_none() {
            self.history_draft = Some(self.input.clone());
        }
        let next: usize = match self.history_cursor {
            None => len - 1,
            Some(i) => if i == 0 {
                0
            } else {
                i - 1
            },
        };
        self.history_cursor = Some(next);
        self.load_history_entry(next);
    }

    /// Puts the next newer input into the input box; past the newest, what
    /// was there first.
    pub fn history_next(&mut self)
        ensures
            final(self)@ == old(self)@.newer(),
    {
        let cursor = match self.history_cursor {
            Some(i) => i,
            None => {
                return;
            },
        };
        let len = self.input_history.len();
        if len == 0 || cursor >= len - 1 {
            self.history_cursor = None;
            let draft = match self.history_draft.take() {
                Some(d) => d,
                None => String::new(),
            };
            assert(draft@ =~= match old(self)@.draft {
                Some(d) => d,
                None => Seq::empty(),
            });
            self.clear_input();
            self.input = draft;
            return;
        }
        let next: usize = cursor + 1;
        self.history_cursor = Some(next);
        self.load_history_entry(next);
    }

    fn load_history_entry(&mut self, index: usize)
        ensures
            final(self)@ == old(self)@.with_entry(index as int),
    {
        if index < self.input_history.len() {
            assert(self@.history[index as int] == self.input_history@[index as int]@);
            let entry = self.input_history[index].clone();
            self.clear_input();
            self.input = entry;
        }
    }

    /// Takes over what the input box holds after it was edited.
    pub fn set_input(&mut self, text: String)
        ensures
            final(self)@ == (AppView { input: text@, ..old(self)@ }),
    {
        self.input = text;
    }

    /// Shows that the worker is busy.
    pub fn start_busy(&mut self, label: String, now: u64)
        ensures
            final(self)@ == (AppView {
                busy: true,
                busy_label: label@,
                busy_since: Some(now),
                spinner_tick: 0,
                ..old(self)@
            }),
    {
        self.busy = true;
        self.busy_label = label;
        self.busy_since = Some(now);
        self.spinner_tick = 0;
    }

    /// Shows that the worker is idle.
    pub fn finish_busy(&mut self)
        ensures
            final(self)@ == (AppView {
                busy: false,
                busy_label: Seq::empty(),
                busy_since: None,
                ..old(self)@
            }),
    {
        self.busy = false;
        self.busy_label = String::new();
        self.busy_since = None;
        assert(self@.busy_label =~= Seq::empty());
    }

    /// Whether the worker is busy.
    pub fn busy(&self) -> (r: bool)
        ensures
            r == self@.busy,
    {
        self.busy
    }

    /// The spinner's picture.
    pub fn spinner_frame(&self) -> (r: &'static str)
        ensures
            r@ == spinner_text((self@.spinner_tick % SPINNER_FRAMES) as nat),
    {
        let tick: usize = self.spinner_tick % SPINNER_FRAMES;
        if tick == 0 {
            "⠋"
        } else if tick == 1 {
            "⠙"
        } else if tick == 2 {
            "⠹"
        } else if tick == 3 {
            "⠸"
        } else if tick == 4 {
            "⠼"
        } else if tick == 5 {
            "⠴"
        } else if tick == 6 {
            "⠦"
        } else if tick == 7 {
            "⠧"
        } else if tick == 8 {
            "⠇"
        } else {
            "⠏"
        }
    }

    /// Turns the spinner on.
    pub fn advance_spinner(&mut self)
        ensures
            final(self)@ == old(self)@.spun(),
    {
        self.spinner_tick = (self.spinner_tick % SPINNER_FRAMES + 1) % SPINNER_FRAMES;
    }

    /// The text in the input box.
    pub fn input_text(&self) -> (r: String)
        ensures
            r@ == self@.input,
    {
        self.input.clone()
    }

    /// Empties the input box and closes the list of commands.
    pub fn clear_input(&mut self)
        ensures
            final(self)@ == old(self)@.with_input(Seq::empty()),
    {
        self.input = String::new();
        self.slash_popup.close();
        assert(self@.input =~= Seq::empty());
    }
}

/// No more inputs are remembered than there is room for, and the last one
/// submitted is the last one remembered.
pub proof fn history_is_bounded(history: Seq<Seq<char>>, text: Seq<char>)
    requires
        history.len() <= INPUT_HISTORY_CAP,
        text.len() > 0,
    ensures
        0 < remembered(history, text).len() <= INPUT_HISTORY_CAP,
        remembered(history, text).last() == text,
{
}

proof fn lemma_first_set(flags: Seq<bool>, i: int)
    requires
        0 <= i,
        flags.len() <= usize::MAX,
    ensures
        match first_set(flags, i) {
            Some(k) => i <= k < flags.len() && flags[k as int] && forall|j: int|
                i <= j < k ==> !#[trigger] flags[j],
            None => forall|j: int| i <= j < flags.len() ==> !#[trigger] flags[j],
        },
    decreases flags.len() - i,
{
    if i < flags.len() && !flags[i] {
        lemma_first_set(flags, i + 1);
    }
}

proof fn lemma_last_set(flags: Seq<bool>, i: int)
    requires
        i < flags.len() <= usize::MAX,
    ensures
        match last_set(flags, i) {
            Some(k) => k <= i && flags[k as int] && forall|j: int|
                k < j <= i ==> !#[trigger] flags[j],
            None => forall|j: int| 0 <= j <= i ==> !#[trigger] flags[j],
        },
    decreases i + 1,
{
    if i >= 0 && !flags[i] {
        lemma_last_set(flags, i - 1);
    }
}

/// The cursor of a list stays on what can be chosen, and starts on it where
/// there is anything to choose. It moves to the nearest one.
pub proof fn cursor_stays_on_what_can_be_chosen(
    current: Seq<bool>,
    available: Seq<bool>,
    cursor: usize,
)
    requires
        current.len() == available.len() <= usize::MAX,
        available.contains(true),
    ensures
        start_of(current, available) < available.len(),
        available[start_of(current, available) as int],
        cursor < available.len() && available[cursor as int] ==> {
            let down = next_available(available, cursor);
            let up = previous_available(available, cursor);
            &&& cursor <= down < available.len() && available[down as int]
            &&& up <= cursor && available[up as int]
            &&& forall|j: int| cursor < j < down ==> !#[trigger] available[j]
            &&& forall|j: int| up < j < cursor ==> !#[trigger] available[j]
        },
{
    let both = Seq::new(current.len(), |i: int| current[i] && available[i]);
    lemma_first_set(both, 0);
    lemma_first_set(available, 0);
    let k = choose|k: int| 0 <= k < available.len() && available[k] == true;
    assert(available[k]);
    if cursor < available.len() {
        lemma_first_set(available, cursor + 1);
        lemma_last_set(available, cursor - 1);
    }
}

/// Submitting the same input twice remembers it once.
pub proof fn repeated_input_is_remembered_once(history: Seq<Seq<char>>, text: Seq<char>)
    requires
        history.len() <= INPUT_HISTORY_CAP,
    ensures
        remembered(remembered(history, text), text) == remembered(history, text),
{
}

/// Going back to an older input and forward again gives back what was being
/// typed.
pub proof fn draft_survives_a_look_back(a: AppView)
    requires
        a.history.len() > 0,
        a.history.len() <= usize::MAX,
        a.history_cursor is None,
    ensures
        a.older().newer().input == a.input,
        a.older().newer().history_cursor is None,
        a.older().input == a.history.last(),
{
}

/// The interface with the spinner a number of pictures on.
pub open spec fn spun_times(a: AppView, n: nat) -> AppView
    decreases n,
{
    if n == 0 {
        a
    } else {
        spun_times(a, (n - 1) as nat).spun()
    }
}

proof fn lemma_spun_times(a: AppView, n: nat)
    requires
        a.spinner_tick < SPINNER_FRAMES,
        n <= SPINNER_FRAMES,
    ensures
        spun_times(a, n) == (AppView {
            spinner_tick: ((a.spinner_tick + n) % (SPINNER_FRAMES as int)) as usize,
            ..a
        }),
    decreases n,
{
    if n > 0 {
        lemma_spun_times(a, (n - 1) as nat);
    }
}

/// The spinner comes round after all of its pictures.
pub proof fn spinner_comes_round(a: AppView)
    requires
        a.spinner_tick < SPINNER_FRAMES,
    ensures
        spun_times(a, SPINNER_FRAMES as nat) == a,
{
    lemma_spun_times(a, SPINNER_FRAMES as nat);
}

} // verus!
