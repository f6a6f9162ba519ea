//! What keys do while no question is open, and what becomes of an input
//! that is submitted.

use super::app;
use super::app::{App, AppView, EffortPicker, ModePicker, ModelPicker, PermissionsPicker, Picker};
use super::event;
use super::event::{Job, JobView, KeyCode, KeyPress};
use super::slash_popup;
use super::slash_popup::PopupView;
use crate::api;
use crate::clipboard;
use crate::clipboard::Clip;
use crate::commands;
use crate::commands::Command;
use crate::config::SandboxMode;
use crate::repl::turn;
use crate::repl::turn::PastedImage;
use crate::text;
use vstd::prelude::*;

verus! {

/// What is to be done for a key or an event.
#[derive(Debug)]
pub enum UiAction {
    Nothing,
    /// Give the worker a job.
    Send(Job),
    /// Ask the worker to end.
    Shutdown,
    /// Interrupt the worker's job.
    Interrupt,
    /// Paste what is on the clipboard.
    PasteClipboard,
    /// Delete from the cursor to the start of the line.
    DeleteLineHead,
    /// Delete the word before the cursor.
    DeleteWord,
    /// Delete from the cursor to the end of the line.
    DeleteLineEnd,
    /// Hand the key to the input box.
    Edit,
    /// Show the input in the input box.
    Reload,
    /// Submit the input.
    Submit,
    /// Answer the question that was open.
    Answer(usize),
    /// Put a text into the input box.
    Insert(String),
    /// Show a line of output.
    Show(String),
    /// Stop, and answer the question that was open, if one was.
    Quit(Option<usize>),
}

#[verifier::ext_equal]
#[allow(inconsistent_fields)]
pub enum ActionView {
    Nothing,
    Send { job: JobView },
    Shutdown,
    Interrupt,
    PasteClipboard,
    DeleteLineHead,
    DeleteWord,
    DeleteLineEnd,
    Edit,
    Reload,
    Submit,
    Answer { choice: usize },
    Insert { text: Seq<char> },
    Show { text: Seq<char> },
    Quit { answer: Option<usize> },
}

impl View for UiAction {
    type V = ActionView;

    open spec fn view(&self) -> ActionView {
        match *self {
            UiAction::Nothing => ActionView::Nothing,
            UiAction::Send(job) => ActionView::Send { job: job@ },
            UiAction::Shutdown => ActionView::Shutdown,
            UiAction::Interrupt => ActionView::Interrupt,
            UiAction::PasteClipboard => ActionView::PasteClipboard,
            UiAction::DeleteLineHead => ActionView::DeleteLineHead,
            UiAction::DeleteWord => ActionView::DeleteWord,
            UiAction::DeleteLineEnd => ActionView::DeleteLineEnd,
            UiAction::Edit => ActionView::Edit,
            UiAction::Reload => ActionView::Reload,
            UiAction::Submit => ActionView::Submit,
            UiAction::Answer(choice) => ActionView::Answer { choice },
            UiAction::Insert(text) => ActionView::Insert { text: text@ },
            UiAction::Show(text) => ActionView::Show { text: text@ },
            UiAction::Quit(answer) => ActionView::Quit { answer },
        }
    }
}

/// Whether a key goes up in a list.
pub open spec fn goes_up(key: KeyPress) -> bool {
    key.code == KeyCode::Up || key.code == KeyCode::Char('k')
}

/// Whether a key goes down in a list.
pub open spec fn goes_down(key: KeyPress) -> bool {
    key.code == KeyCode::Down || key.code == KeyCode::Char('j')
}

/// Whether a key closes a list.
pub open spec fn cancels(key: KeyPress) -> bool {
    key.code == KeyCode::Esc || (key.code == KeyCode::Char('c') && key.ctrl)
}

/// What a key means in a list.
#[derive(Debug, Clone, Copy, PartialEq, Eq, Structural)]
pub enum ListKey {
    Up,
    Down,
    Choose,
    Cancel,
    Other,
}

/// What a key means in a list.
pub open spec fn list_key(key: KeyPress) -> ListKey {
    if !key.down {
        ListKey::Other
    } else if goes_up(key) {
        ListKey::Up
    } else if goes_down(key) {
        ListKey::Down
    } else if key.code == KeyCode::Enter {
        ListKey::Choose
    } else if cancels(key) {
        ListKey::Cancel
    } else {
        ListKey::Other
    }
}

/// What a key means in a list.
pub fn read_list_key(key: KeyPress) -> (r: ListKey)
    ensures
        r == list_key(key),
{
    if !key.down {
        return ListKey::Other;
    }
    match key.code {
        KeyCode::Up => ListKey::Up,
        KeyCode::Down => ListKey::Down,
        KeyCode::Enter => ListKey::Choose,
        KeyCode::Esc => ListKey::Cancel,
        KeyCode::Char(c) => if c == 'k' {
            ListKey::Up
        } else if c == 'j' {
            ListKey::Down
        } else if c == 'c' && key.ctrl {
            ListKey::Cancel
        } else {
            ListKey::Other
        },
        _ => ListKey::Other,
    }
}

/// What is put into the input box for what was on the clipboard.
#[derive(Debug)]
pub enum PasteOutcome {
    Insert(String),
    /// There are no marks left for another image.
    TooManyImages,
    Nothing,
}

impl AppView {
    /// The interface after a key in the list of sessions.
    pub open spec fn session_key(self, p: Picker, key: KeyPress) -> (AppView, ActionView) {
        let closed = AppView { picker: None, ..self };
        match list_key(key) {
            ListKey::Up => (
                AppView {
                    picker: Some(Picker { cursor: app::one_up(p.cursor), ..p }),
                    ..self
                },
                ActionView::Nothing,
            ),
            ListKey::Down => (
                AppView {
                    picker: Some(
                        Picker { cursor: app::one_down(p.cursor, p.sessions@.len()), ..p },
                    ),
                    ..self
                },
                ActionView::Nothing,
            ),
            ListKey::Choose => (
                closed,
                ActionView::Send {
                    job: JobView::ResumeSelected {
                        id: Some(p.sessions@[p.cursor as int].id@),
                    },
                },
            ),
            ListKey::Cancel => (
                closed,
                ActionView::Send { job: JobView::ResumeSelected { id: None } },
            ),
            ListKey::Other => (self, ActionView::Nothing),
        }
    }

    /// The interface after a key in the list of models.
    pub open spec fn model_key(self, p: ModelPicker, key: KeyPress) -> (AppView, ActionView) {
        let closed = AppView { model_picker: None, ..self };
        let available = app::model_available(p.entries@);
        match list_key(key) {
            ListKey::Up => (
                AppView {
                    model_picker: Some(
                        ModelPicker { cursor: app::previous_available(available, p.cursor), ..p },
                    ),
                    ..self
                },
                ActionView::Nothing,
            ),
            ListKey::Down => (
                AppView {
                    model_picker: Some(
                        ModelPicker { cursor: app::next_available(available, p.cursor), ..p },
                    ),
                    ..self
                },
                ActionView::Nothing,
            ),
            ListKey::Choose => (
                closed,
                ActionView::Send {
                    job: JobView::ModelSelected {
                        name: if p.cursor < p.entries@.len()
                            && p.entries@[p.cursor as int].is_available {
                            Some(p.entries@[p.cursor as int].name)
                        } else {
                            None
                        },
                    },
                },
            ),
            ListKey::Cancel => (
                closed,
                ActionView::Send { job: JobView::ModelSelected { name: None } },
            ),
            ListKey::Other => (self, ActionView::Nothing),
        }
    }

    /// The interface after a key in the list of efforts.
    pub open spec fn effort_key(self, p: EffortPicker, key: KeyPress) -> (AppView, ActionView) {
        let closed = AppView { effort_picker: None, ..self };
        match list_key(key) {
            ListKey::Up => (
                AppView {
                    effort_picker: Some(EffortPicker { cursor: app::one_up(p.cursor), ..p }),
                    ..self
                },
                ActionView::Nothing,
            ),
            ListKey::Down => (
                AppView {
                    effort_picker: Some(
                        EffortPicker {
                            cursor: app::one_down(p.cursor, p.entries@.len()),
                            ..p
                        },
                    ),
                    ..self
                },
                ActionView::Nothing,
            ),
            ListKey::Choose => (
                closed,
                ActionView::Send {
                    job: JobView::EffortSelected {
                        effort: if p.cursor < p.entries@.len() {
                            Some(p.entries@[p.cursor as int].effort)
                        } else {
                            None
                        },
                    },
                },
            ),
            ListKey::Cancel => (
                closed,
                ActionView::Send { job: JobView::EffortSelected { effort: None } },
            ),
            ListKey::Other => (self, ActionView::Nothing),
        }
    }

    /// The interface after a key in the list of presets.
    pub open spec fn preset_key(self, p: PermissionsPicker, key: KeyPress) -> (
        AppView,
        ActionView,
    ) {
        let closed = AppView { permissions_picker: None, ..self };
        let available = app::preset_available(p.entries@);
        match list_key(key) {
            ListKey::Up => (
                AppView {
                    permissions_picker: Some(
                        PermissionsPicker {
                            cursor: app::previous_available(available, p.cursor),
                            ..p
                        },
                    ),
                    ..self
                },
                ActionView::Nothing,
            ),
            ListKey::Down => (
                AppView {
                    permissions_picker: Some(
                        PermissionsPicker {
                            cursor: app::next_available(available, p.cursor),
                            ..p
                        },
                    ),
                    ..self
                },
                ActionView::Nothing,
            ),
            ListKey::Choose => (
                closed,
                ActionView::Send {
                    job: JobView::PermissionsSelected {
                        preset: if p.cursor < p.entries@.len()
                            && p.entries@[p.cursor as int].is_available {
                            Some(p.entries@[p.cursor as int].preset)
                        } else {
                            None
                        },
                    },
                },
            ),
            ListKey::Cancel => (
                closed,
                ActionView::Send { job: JobView::PermissionsSelected { preset: None } },
            ),
            ListKey::Other => (self, ActionView::Nothing),
        }
    }

    /// The interface after a key in the list of modes of reasoning.
    pub open spec fn mode_key(self, p: ModePicker, key: KeyPress) -> (
        AppView,
        ActionView,
    ) {
        let closed = AppView { mode_picker: None, ..self };
        let available = app::mode_available(p.entries@);
        match list_key(key) {
            ListKey::Up => (
                AppView {
                    mode_picker: Some(
                        ModePicker {
                            cursor: app::previous_available(available, p.cursor),
                            ..p
                        },
                    ),
                    ..self
                },
                ActionView::Nothing,
            ),
            ListKey::Down => (
                AppView {
                    mode_picker: Some(
                        ModePicker {
                            cursor: app::next_available(available, p.cursor),
                            ..p
                        },
                    ),
                    ..self
                },
                ActionView::Nothing,
            ),
            ListKey::Choose => (
                closed,
                ActionView::Send {
                    job: JobView::ModeSelected {
                        mode: if p.cursor < p.entries@.len()
                            && p.entries@[p.cursor as int].is_available {
                            Some(p.entries@[p.cursor as int].mode)
                        } else {
                            None
                        },
                    },
                },
            ),
            ListKey::Cancel => (
                closed,
                ActionView::Send { job: JobView::ModeSelected { mode: None } },
            ),
            ListKey::Other => (self, ActionView::Nothing),
        }
    }

    /// The interface with the highlighted command in the input box.
    pub open spec fn completed(self) -> AppView {
        if self.popup.cursor < self.popup.matches.len() {
            self.with_input(self.popup.matches[self.popup.cursor as int].name@)
        } else {
            self
        }
    }

    pub open spec fn dismissed(self) -> AppView {
        AppView { popup: PopupView::closed(Some(self.input)), ..self }
    }

    /// What a key does in the list of commands, if it does anything there.
    pub open spec fn popup_key(self, key: KeyPress) -> Option<(AppView, ActionView)> {
        let bare = key.is_bare();
        if key.code == KeyCode::Up && bare {
            Some((AppView { popup: self.popup.up(), ..self }, ActionView::Nothing))
        } else if key.code == KeyCode::Down && bare {
            Some((AppView { popup: self.popup.down(), ..self }, ActionView::Nothing))
        } else if (key.code == KeyCode::Esc && !self.busy) || (key.code == KeyCode::Char('c')
            && key.ctrl) {
            Some((self.dismissed(), ActionView::Nothing))
        } else if key.code == KeyCode::Tab && bare {
            Some((self.completed(), ActionView::Reload))
        } else if key.code == KeyCode::Enter && bare {
            Some((self.completed(), ActionView::Submit))
        } else {
            None
        }
    }

    /// The interface after a request to complete a command.
    pub open spec fn tabbed(self) -> AppView {
        let opened = AppView { popup: PopupView::empty(), ..self }.synced();
        if opened.popup.visible && opened.popup.matches.len() == 1 {
            opened.completed()
        } else {
            opened
        }
    }

    /// What a key does where no list takes it.
    pub open spec fn plain_key(self, key: KeyPress, interrupted: bool) -> (AppView, ActionView) {
        if key.ctrl && key.code == KeyCode::Char('c') {
            if self.busy && !interrupted {
                (self, ActionView::Interrupt)
            } else {
                (self, ActionView::Shutdown)
            }
        } else if key.ctrl && key.code == KeyCode::Char('d') && !self.busy && self.input.len() == 0 {
            (self, ActionView::Shutdown)
        } else if key.ctrl && key.code == KeyCode::Char('v') {
            (self, ActionView::PasteClipboard)
        } else if key.ctrl && key.code == KeyCode::Char('u') {
            (self, ActionView::DeleteLineHead)
        } else if key.ctrl && key.code == KeyCode::Char('w') {
            (self, ActionView::DeleteWord)
        } else if key.ctrl && key.code == KeyCode::Char('k') {
            (self, ActionView::DeleteLineEnd)
        } else if key.code == KeyCode::Up && key.alt && !key.ctrl {
            (self.older(), ActionView::Reload)
        } else if key.code == KeyCode::Down && key.alt && !key.ctrl {
            (self.newer(), ActionView::Reload)
        } else if key.code == KeyCode::Esc && self.busy {
            (self, ActionView::Interrupt)
        } else if key.code == KeyCode::Enter && key.is_bare() {
            (self, ActionView::Submit)
        } else if key.code == KeyCode::Tab && key.is_bare() && slash_popup::is_slash(self.input) {
            (self.tabbed(), ActionView::Reload)
        } else {
            (self, ActionView::Edit)
        }
    }

    /// Whether the input changes only once the action is done.
    pub open spec fn edits_later(action: ActionView) -> bool {
        action is Submit || action is Edit || action is PasteClipboard || action is DeleteLineHead
            || action is DeleteWord || action is DeleteLineEnd
    }

    /// The interface after a key while nothing is open over it. The list of
    /// commands is brought in line with the input once the input is final.
    pub open spec fn idle_key(self, key: KeyPress, interrupted: bool) -> (AppView, ActionView) {
        if !key.down {
            (self, ActionView::Nothing)
        } else {
            let (next, action) = if self.popup.visible && self.popup_key(key) is Some {
                self.popup_key(key)->0
            } else {
                self.plain_key(key, interrupted)
            };
            if AppView::edits_later(action) {
                (next, action)
            } else {
                (next.synced(), action)
            }
        }
    }
}

impl App {
    /// Takes a key into account while the list of sessions is open.
    pub fn handle_picker_key(&mut self, key: KeyPress) -> (action: UiAction)
        requires
            old(self)@.picker is Some ==> old(self)@.picker->0.cursor
                < old(self)@.picker->0.sessions@.len(),
        ensures
            match old(self)@.picker {
                None => final(self)@ == old(self)@ && action@ == ActionView::Nothing,
                Some(p) => (final(self)@, action@) == old(self)@.session_key(p, key),
            },
    {
        let mut p = match self.picker.take() {
            None => {
                return UiAction::Nothing;
            },
            Some(p) => p,
        };
        match read_list_key(key) {
            ListKey::Up => {
                p.cursor = app::step_up(p.cursor);
            },
            ListKey::Down => {
                p.cursor = app::step_down(p.cursor, p.sessions.len());
            },
            ListKey::Choose => {
                let id = p.sessions[p.cursor].id.clone();
                return UiAction::Send(Job::ResumeSelected(Some(id)));
            },
            ListKey::Cancel => {
                return UiAction::Send(Job::ResumeSelected(None));
            },
            ListKey::Other => {},
        }
        self.picker = Some(p);
        UiAction::Nothing
    }

    /// Takes a key into account while the list of models is open.
    pub fn handle_model_picker_key(&mut self, key: KeyPress) -> (action: UiAction)
        ensures
            match old(self)@.model_picker {
                None => final(self)@ == old(self)@ && action@ == ActionView::Nothing,
                Some(p) => (final(self)@, action@) == old(self)@.model_key(p, key),
            },
    {
        let mut p = match self.model_picker.take() {
            None => {
                return UiAction::Nothing;
            },
            Some(p) => p,
        };
        match read_list_key(key) {
            ListKey::Up => p.move_up(),
            ListKey::Down => p.move_down(),
            ListKey::Choose => {
                let name = match p.selected() {
                    Some(e) => if e.is_available {
                        Some(e.name)
                    } else {
                        None
                    },
                    None => None,
                };
                return UiAction::Send(Job::ModelSelected(name));
            },
            ListKey::Cancel => {
                return UiAction::Send(Job::ModelSelected(None));
            },
            ListKey::Other => {},
        }
        self.model_picker = Some(p);
        UiAction::Nothing
    }

    /// Takes a key into account while the list of efforts is open.
    pub fn handle_effort_picker_key(&mut self, key: KeyPress) -> (action: UiAction)
        ensures
            match old(self)@.effort_picker {
                None => final(self)@ == old(self)@ && action@ == ActionView::Nothing,
                Some(p) => (final(self)@, action@) == old(self)@.effort_key(p, key),
            },
    {
        let mut p = match self.effort_picker.take() {
            None => {
                return UiAction::Nothing;
            },
            Some(p) => p,
        };
        match read_list_key(key) {
            ListKey::Up => p.move_up(),
            ListKey::Down => p.move_down(),
            ListKey::Choose => {
                let effort = match p.selected() {
                    Some(e) => Some(e.effort),
                    None => None,
                };
                return UiAction::Send(Job::EffortSelected(effort));
            },
            ListKey::Cancel => {
                return UiAction::Send(Job::EffortSelected(None));
            },
            ListKey::Other => {},
        }
        self.effort_picker = Some(p);
        UiAction::Nothing
    }

    /// Takes a key into account while the list of presets is open.
    pub fn handle_permissions_picker_key(&mut self, key: KeyPress) -> (action: UiAction)
        ensures
            match old(self)@.permissions_picker {
                None => final(self)@ == old(self)@ && action@ == ActionView::Nothing,
                Some(p) => (final(self)@, action@) == old(self)@.preset_key(p, key),
            },
    {
        let mut p = match self.permissions_picker.take() {
            None => {
                return UiAction::Nothing;
            },
            Some(p) => p,
        };
        match read_list_key(key) {
            ListKey::Up => p.move_up(),
            ListKey::Down => p.move_down(),
            ListKey::Choose => {
                let preset = match p.selected() {
                    Some(e) => if e.is_available {
                        Some(e.preset)
                    } else {
                        None
                    },
                    None => None,
                };
                return UiAction::Send(Job::PermissionsSelected(preset));
            },
            ListKey::Cancel => {
                return UiAction::Send(Job::PermissionsSelected(None));
            },
            ListKey::Other => {},
        }
        self.permissions_picker = Some(p);
        UiAction::Nothing
    }

    /// Takes a key into account while the list of modes of reasoning is open.
    pub fn handle_mode_picker_key(&mut self, key: KeyPress) -> (action: UiAction)
        ensures
            match old(self)@.mode_picker {
                None => final(self)@ == old(self)@ && action@ == ActionView::Nothing,
                Some(p) => (final(self)@, action@) == old(self)@.mode_key(p, key),
            },
    {
        let mut p = match self.mode_picker.take() {
            None => {
                return UiAction::Nothing;
            },
            Some(p) => p,
        };
        match read_list_key(key) {
            ListKey::Up => p.move_up(),
            ListKey::Down => p.move_down(),
            ListKey::Choose => {
                let mode = match p.selected() {
                    Some(e) => if e.is_available {
                        Some(e.mode)
                    } else {
                        None
                    },
                    None => None,
                };
                return UiAction::Send(Job::ModeSelected(mode));
            },
            ListKey::Cancel => {
                return UiAction::Send(Job::ModeSelected(None));
            },
            ListKey::Other => {},
        }
        self.mode_picker = Some(p);
        UiAction::Nothing
    }

    /// Puts the highlighted command into the input box.
    fn apply_selected_command(&mut self)
        ensures
            final(self)@ == old(self)@.completed(),
    {
        if let Some(entry) = self.slash_popup.selected() {
            self.clear_input();
            self.input = entry.name.to_owned();
        }
    }

    fn handle_slash_popup_key(&mut self, key: KeyPress) -> (r: Option<UiAction>)
        ensures
            match r {
                None => old(self)@.popup_key(key) is None && final(self)@ == old(self)@,
                Some(a) => old(self)@.popup_key(key) == Some((final(self)@, a@)),
            },
    {
        let bare = key.bare();
        match key.code {
            KeyCode::Up => if bare {
                self.slash_popup.move_up();
                return Some(UiAction::Nothing);
            },
            KeyCode::Down => if bare {
                self.slash_popup.move_down();
                return Some(UiAction::Nothing);
            },
            KeyCode::Esc => if !self.busy {
                let snapshot = self.input_text();
                self.slash_popup.dismiss(snapshot.as_str());
                return Some(UiAction::Nothing);
            },
            KeyCode::Char(c) => if c == 'c' && key.ctrl {
                let snapshot = self.input_text();
                self.slash_popup.dismiss(snapshot.as_str());
                return Some(UiAction::Nothing);
            },
            KeyCode::Tab => if bare {
                self.apply_selected_command();
                return Some(UiAction::Reload);
            },
            KeyCode::Enter => if bare {
                self.apply_selected_command();
                return Some(UiAction::Submit);
            },
            KeyCode::Other => {},
        }
        None
    }

    fn open_slash_popup(&mut self)
        ensures
            final(self)@ == old(self)@.tabbed(),
    {
        self.slash_popup.close();
        self.sync_slash_popup();
        if self.slash_popup.is_visible() && self.slash_popup.matches().len() == 1 {
            self.apply_selected_command();
        }
    }

    fn handle_plain_key(&mut self, key: KeyPress, interrupted: bool) -> (action: UiAction)
        ensures
            (final(self)@, action@) == old(self)@.plain_key(key, interrupted),
    {
        let bare = key.bare();
        match key.code {
            KeyCode::Char(c) => {
                if key.ctrl {
                    if c == 'c' {
                        return if self.busy && !interrupted {
                            UiAction::Interrupt
                        } else {
                            UiAction::Shutdown
                        };
                    }
                    if c == 'd' && !self.busy && self.input.as_str().is_empty() {
                        return UiAction::Shutdown;
                    }
                    if c == 'v' {
                        return UiAction::PasteClipboard;
                    }
                    if c == 'u' {
                        return UiAction::DeleteLineHead;
                    }
                    if c == 'w' {
                        return UiAction::DeleteWord;
                    }
                    if c == 'k' {
                        return UiAction::DeleteLineEnd;
                    }
                }
                UiAction::Edit
            },
            KeyCode::Up => if key.alt && !key.ctrl {
                self.history_prev();
                UiAction::Reload
            } else {
                UiAction::Edit
            },
            KeyCode::Down => if key.alt && !key.ctrl {
                self.history_next();
                UiAction::Reload
            } else {
                UiAction::Edit
            },
            KeyCode::Esc => if self.busy {
                UiAction::Interrupt
            } else {
                UiAction::Edit
            },
            KeyCode::Enter => if bare {
                UiAction::Submit
            } else {
                UiAction::Edit
            },
            KeyCode::Tab => {
                let slash = !self.input.as_str().is_empty() && !text::contains_char(
                    self.input.as_str(),
                    '\n',
                ) && self.input.as_str().get_char(0) == '/';
                if bare && slash {
                    self.open_slash_popup();
                    UiAction::Reload
                } else {
                    UiAction::Edit
                }
            },
            KeyCode::Other => UiAction::Edit,
        }
    }

    /// Takes a key into account while nothing is open over the interface.
    /// The list of commands comes first. A second interrupt while the worker
    /// is still busy asks it to end.
    pub fn handle_idle_key(&mut self, key: KeyPress, interrupted: bool) -> (action: UiAction)
        ensures
            (final(self)@, action@) == old(self)@.idle_key(key, interrupted),
    {
        if !key.down {
            return UiAction::Nothing;
        }
        let consumed = if self.slash_popup.is_visible() {
            self.handle_slash_popup_key(key)
        } else {
            None
        };
        let action = match consumed {
            Some(a) => a,
            None => self.handle_plain_key(key, interrupted),
        };
        let later = matches!(
            action,
            UiAction::Submit
            | UiAction::Edit
            | UiAction::PasteClipboard
            | UiAction::DeleteLineHead
            | UiAction::DeleteWord
            | UiAction::DeleteLineEnd
        );
        if !later {
            self.sync_slash_popup();
        }
        action
    }

    /// Takes what is on the clipboard, and says what is put into the input
    /// box. An image is kept and a mark for it is put in, as long as there
    /// are marks.
    pub fn handle_clipboard_paste(&mut self, clip: Clip) -> (r: PasteOutcome)
        ensures
            match clip {
                Clip::Image(image) => {
                    let n = old(self)@.pasted_images.len();
                    if n < clipboard::MAX_PASTED_IMAGES_PER_MESSAGE {
                        &&& r matches PasteOutcome::Insert(text) && text@
                            == clipboard::marker_text(clipboard::marker(n as int))
                        &&& final(self)@ == (AppView {
                            pasted_images: old(self)@.pasted_images.push(image),
                            ..old(self)@
                        })
                    } else {
                        r == PasteOutcome::TooManyImages && final(self)@ == old(self)@
                    }
                },
                Clip::Text(text) => {
                    &&& if text@.len() > 0 {
                        r == PasteOutcome::Insert(text)
                    } else {
                        r == PasteOutcome::Nothing
                    }
                    &&& final(self)@ == old(self)@
                },
                Clip::Nothing => r == PasteOutcome::Nothing && final(self)@ == old(self)@,
            },
    {
        match clip {
            Clip::Image(image) => {
                match clipboard::marker_for_index(self.pasted_images.len()) {
                    Some(marker) => {
                        self.pasted_images.push(image);
                        PasteOutcome::Insert(clipboard::marker_string(marker))
                    },
                    None => PasteOutcome::TooManyImages,
                }
            },
            Clip::Text(text) => if text.as_str().is_empty() {
                PasteOutcome::Nothing
            } else {
                PasteOutcome::Insert(text)
            },
            Clip::Nothing => PasteOutcome::Nothing,
        }
    }

    /// Takes over what the input box holds after it was edited.
    pub fn input_edited(&mut self, text: String)
        ensures
            final(self)@ == (AppView { input: text@, ..old(self)@ }).synced(),
    {
        self.set_input(text);
        self.sync_slash_popup();
    }
}

/// The sign before an input that was submitted.
#[derive(Debug, Clone, Copy, PartialEq, Eq, Structural)]
pub enum Glyph {
    /// It reaches the model while a turn is running.
    Steer,
    ReadOnly,
    Normal,
}

/// What became of an input.
#[derive(Debug)]
pub enum SubmitOutcome {
    /// There was none.
    Nothing,
    /// It is a job for the worker.
    Send(Job),
    /// It is a job that waits for the worker.
    Queued,
    /// It reaches the model while a turn is running.
    Steered,
    /// It looks like a command and is none.
    Unknown(String),
}

#[verifier::ext_equal]
pub enum OutcomeView {
    Nothing,
    Send { job: JobView },
    Queued,
    Steered,
    Unknown { text: Seq<char> },
}

impl View for SubmitOutcome {
    type V = OutcomeView;

    open spec fn view(&self) -> OutcomeView {
        match *self {
            SubmitOutcome::Nothing => OutcomeView::Nothing,
            SubmitOutcome::Send(job) => OutcomeView::Send { job: job@ },
            SubmitOutcome::Queued => OutcomeView::Queued,
            SubmitOutcome::Steered => OutcomeView::Steered,
            SubmitOutcome::Unknown(text) => OutcomeView::Unknown { text: text@ },
        }
    }
}

/// An input that was submitted, as it is shown, and what became of it.
#[derive(Debug)]
pub struct Submission {
    /// The text without the marks of images.
    pub text: String,
    pub glyph: Glyph,
    pub images: usize,
    pub outcome: SubmitOutcome,
}

/// The images that are referred to, as far as there are any.
pub open spec fn picked(pool: Seq<PastedImage>, indices: Seq<usize>) -> Seq<api::ImageView>
    decreases indices.len(),
{
    if indices.len() == 0 {
        Seq::empty()
    } else {
        let before = picked(pool, indices.drop_last());
        if indices.last() < pool.len() {
            before.push(pool[indices.last() as int]@)
        } else {
            before
        }
    }
}

fn pick_images(pool: &Vec<PastedImage>, indices: &Vec<usize>) -> (r: Vec<PastedImage>)
    ensures
        turn::pasted_views(r@) == picked(pool@, indices@),
{
    let mut r: Vec<PastedImage> = Vec::new();
    let mut i: usize = 0;
    assert(indices@.take(0) =~= Seq::<usize>::empty());
    assert(turn::pasted_views(r@) =~= picked(pool@, indices@.take(0)));
    while i < indices.len()
        invariant
            i <= indices@.len(),
            turn::pasted_views(r@) == picked(pool@, indices@.take(i as int)),
        decreases indices@.len() - i,
    {
        proof {
            assert(indices@.take(i + 1).drop_last() =~= indices@.take(i as int));
            assert(indices@.take(i + 1).last() == indices@[i as int]);
        }
        let at: usize = indices[i];
        if at < pool.len() {
            let ghost before = r@;
            let image = PastedImage {
                media_type: pool[at].media_type.clone(),
                base64_data: pool[at].base64_data.clone(),
            };
            r.push(image);
            assert(turn::pasted_views(r@) =~= turn::pasted_views(before).push(
                pool@[at as int]@,
            ));
        }
        i = i + 1;
    }
    assert(indices@.take(i as int) =~= indices@);
    r
}

/// The job that a message with images amounts to, or one that differs from
/// it only in copies of the images.
pub open spec fn is_message_job(job: JobView, text: Seq<char>, images: Seq<api::ImageView>) -> bool {
    match job {
        JobView::Message { text: t, images: i } => t == text && turn::pasted_views(i) == images,
        _ => false,
    }
}

impl AppView {
    /// The interface once an input was taken out of the input box.
    pub open spec fn taken(self, cleaned: Seq<char>) -> AppView {
        AppView { pasted_images: Seq::empty(), ..self.with_input(Seq::empty()) }.submitted(cleaned)
    }
}

impl App {
    /// Submits the input. A command is a job of its own; what looks like one
    /// and is none goes nowhere; other text reaches a running turn where it
    /// refers to no images, and is a job otherwise. Jobs wait while the
    /// worker is busy.
    pub fn submit_input(&mut self, steer: &mut Vec<String>) -> (r: Submission)
        ensures
            ({
                let before = old(self)@;
                let cleaned = clipboard::cleaned(before.input);
                let indices = clipboard::marked(before.input);
                let taken = before.taken(cleaned);
                let images = picked(before.pasted_images, indices);
                let trimmed = text::trimmed(cleaned);
                let command = if images.len() == 0 {
                    commands::entered(trimmed)
                } else {
                    None
                };
                let steers = before.busy && command is None && images.len() == 0;
                if cleaned.len() == 0 && indices.len() == 0 {
                    &&& r.outcome@ == OutcomeView::Nothing
                    &&& final(self)@ == before.synced()
                    &&& final(steer)@ == old(steer)@
                } else {
                    &&& r.text@ == cleaned
                    &&& r.images == images.len()
                    &&& r.glyph == (if steers {
                        Glyph::Steer
                    } else if before.status is Some && before.status->0.mode
                        == SandboxMode::ReadOnly {
                        Glyph::ReadOnly
                    } else {
                        Glyph::Normal
                    })
                    &&& if command is Some {
                        let job = JobView::Command { command: command->0 };
                        &&& final(steer)@ == old(steer)@
                        &&& if before.busy {
                            r.outcome@ == OutcomeView::Queued && final(self)@ == (AppView {
                                queue: taken.queue.push(job),
                                ..taken
                            })
                        } else {
                            r.outcome@ == (OutcomeView::Send { job }) && final(self)@ == taken
                        }
                    } else if images.len() == 0 && trimmed.len() > 0 && trimmed[0] == '/' {
                        &&& r.outcome@ == (OutcomeView::Unknown { text: trimmed })
                        &&& final(self)@ == taken
                        &&& final(steer)@ == old(steer)@
                    } else if steers {
                        &&& r.outcome@ == OutcomeView::Steered
                        &&& final(self)@ == taken
                        &&& text::views(final(steer)@) == text::views(old(steer)@).push(cleaned)
                    } else if before.busy {
                        &&& r.outcome@ == OutcomeView::Queued
                        &&& final(steer)@ == old(steer)@
                        &&& final(self)@ == (AppView { queue: final(self)@.queue, ..taken })
                        &&& final(self)@.queue.len() == taken.queue.len() + 1
                        &&& final(self)@.queue.drop_last() == taken.queue
                        &&& is_message_job(final(self)@.queue.last(), cleaned, images)
                    } else {
                        &&& final(steer)@ == old(steer)@
                        &&& final(self)@ == taken
                        &&& r.outcome@ is Send
                        &&& is_message_job(r.outcome@->job, cleaned, images)
                    }
                }
            }),
    {
        let (cleaned, indices) = clipboard::strip_paste_markers(self.input.as_str());
        if cleaned.as_str().is_empty() && indices.len() == 0 {
            self.sync_slash_popup();
            return Submission {
                text: cleaned,
                glyph: Glyph::Normal,
                images: 0,
                outcome: SubmitOutcome::Nothing,
            };
        }
        let read_only = self.is_safe_mode();
        let images = pick_images(&self.pasted_images, &indices);
        assert(images@.len() == picked(self@.pasted_images, indices@).len());
        self.clear_input();
        self.pasted_images = Vec::new();
        self.remember_submitted(cleaned.as_str());
        assert(self@ =~= old(self)@.taken(cleaned@));
        let trimmed = text::trim(cleaned.as_str());
        let command = if images.len() == 0 {
            Command::from_str(trimmed.as_str())
        } else {
            None
        };
        let will_steer = self.busy && command.is_none() && images.len() == 0;
        let glyph = if will_steer {
            Glyph::Steer
        } else if read_only {
            Glyph::ReadOnly
        } else {
            Glyph::Normal
        };
        let count = images.len();
        let looks_like_command = count == 0 && trimmed.as_str().unicode_len() > 0
            && trimmed.as_str().get_char(0) == '/';
        let outcome = if let Some(cmd) = command {
            let job = Job::Command(cmd);
            if self.busy {
                self.enqueue(job);
                SubmitOutcome::Queued
            } else {
                SubmitOutcome::Send(job)
            }
        } else if looks_like_command {
            SubmitOutcome::Unknown(trimmed)
        } else if will_steer {
            let ghost before = steer@;
            steer.push(cleaned.clone());
            assert(text::views(steer@) =~= text::views(before).push(cleaned@));
            SubmitOutcome::Steered
        } else {
            let job = Job::Message { text: cleaned.clone(), images };
            if self.busy {
                let ghost before = self@.queue;
                self.enqueue(job);
                assert(self@.queue.drop_last() =~= before);
                SubmitOutcome::Queued
            } else {
                SubmitOutcome::Send(job)
            }
        };
        Submission { text: cleaned, glyph, images: count, outcome }
    }

    fn enqueue(&mut self, job: Job)
        ensures
            final(self)@ == (AppView { queue: old(self)@.queue.push(job@), ..old(self)@ }),
    {
        let ghost before = self.queue@;
        self.queue.push_back(job);
        assert(event::job_views(self.queue@) =~= event::job_views(before).push(job@));
    }
}

/// While the worker is busy, an interrupt is asked for first and an end only
/// after that, and the list of commands never lets either through.
pub proof fn interrupt_comes_before_shutdown(a: AppView, key: KeyPress, interrupted: bool)
    requires
        key.down,
        key.ctrl,
        key.code == KeyCode::Char('c'),
    ensures
        a.busy && !interrupted ==> !(a.idle_key(key, interrupted).1 is Shutdown),
        a.popup.visible ==> a.idle_key(key, interrupted).1 is Nothing,
        !a.popup.visible && a.busy && interrupted ==> a.idle_key(key, interrupted).1 is Shutdown,
{
}

/// Releasing a key does nothing.
pub proof fn key_release_does_nothing(a: AppView, key: KeyPress, interrupted: bool)
    requires
        !key.down,
    ensures
        a.idle_key(key, interrupted) == (a, ActionView::Nothing),
        list_key(key) == ListKey::Other,
{
}

} // verus!
