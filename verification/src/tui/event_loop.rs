//! What the interface does about what it learns.

use super::app::{
    App, AppView, ConfirmationPrompt, EffortPicker, ModePicker, ModelPicker,
    PermissionsPicker, Picker,
};
use super::app;
use super::event::{ConfirmationType, Job, JobView, KeyPress, UiEvent};
use super::event;
use super::input::{ActionView, UiAction};
use super::keymap;
use crate::text;
use std::collections::VecDeque;
use vstd::prelude::*;

verus! {

/// Most lines of output that are taken at once, so that keys are not kept
/// waiting behind them.
pub const MAX_OUTPUT_BATCH: usize = 256;

/// What stands between two messages that reach the model as one.
pub const STEER_SEPARATOR: &'static str = "\n\n";

/// The choice that is highlighted when a question opens. Where a permission
/// is asked for it is the first, which grants it; cancelling still gives the
/// default.
pub open spec fn opening_cursor(
    kind: ConfirmationType,
    default_index: usize,
    choices: nat,
) -> usize {
    if kind == ConfirmationType::Permission || choices == 0 {
        0
    } else if default_index < choices {
        default_index
    } else {
        (choices - 1) as usize
    }
}

/// The choice that is highlighted when a question opens.
pub fn initial_cursor(kind: ConfirmationType, default_index: usize, choices: usize) -> (r: usize)
    ensures
        r == opening_cursor(kind, default_index, choices as nat),
{
    if matches!(kind, ConfirmationType::Permission) || choices == 0 {
        0
    } else if default_index < choices {
        default_index
    } else {
        choices - 1
    }
}

impl AppView {
    /// Whether anything is open over the interface.
    pub open spec fn modal(self) -> bool {
        self.confirmation is Some || self.picking()
    }

    /// Whether the cursor of an open list of sessions is on one of them.
    pub open spec fn picker_wf(self) -> bool {
        self.picker is Some ==> self.picker->0.cursor < self.picker->0.sessions@.len()
    }

    /// The interface after a key. A question comes before any list, and a
    /// list before the input.
    pub open spec fn key_step(self, key: KeyPress, interrupted: bool) -> (AppView, ActionView) {
        if self.confirmation is Some {
            let (next, answer) = keymap::question_step(self.confirmation->0, key);
            (
                AppView { confirmation: next, ..self },
                match answer {
                    Some(choice) => ActionView::Answer { choice },
                    None => ActionView::Nothing,
                },
            )
        } else if self.picker is Some {
            self.session_key(self.picker->0, key)
        } else if self.model_picker is Some {
            self.model_key(self.model_picker->0, key)
        } else if self.effort_picker is Some {
            self.effort_key(self.effort_picker->0, key)
        } else if self.permissions_picker is Some {
            self.preset_key(self.permissions_picker->0, key)
        } else if self.mode_picker is Some {
            self.mode_key(self.mode_picker->0, key)
        } else {
            self.idle_key(key, interrupted)
        }
    }

    pub open spec fn at_rest(self) -> AppView {
        AppView { busy: false, busy_label: Seq::empty(), busy_since: None, ..self }
    }

    /// The interface once the worker finished its job, and the job that it
    /// is given next: what the user said during the last turn and the model
    /// did not hear, and otherwise the job that has waited longest. None is
    /// given while a list is open.
    pub open spec fn idle_step(self, steer: Seq<Seq<char>>) -> (
        AppView,
        ActionView,
        Seq<Seq<char>>,
    ) {
        let rest = self.at_rest();
        if self.picking() {
            (rest, ActionView::Nothing, steer)
        } else if steer.len() > 0 {
            (
                rest,
                ActionView::Send {
                    job: JobView::Message {
                        text: text::joined(steer, STEER_SEPARATOR@),
                        images: Seq::empty(),
                    },
                },
                Seq::empty(),
            )
        } else if self.queue.len() > 0 {
            (
                AppView { queue: self.queue.drop_first(), ..rest },
                ActionView::Send { job: self.queue[0] },
                steer,
            )
        } else {
            (rest, ActionView::Nothing, steer)
        }
    }

    /// The interface after an event, what is to be done about it, and what
    /// is left of what the user said during a turn.
    pub open spec fn event_step(
        self,
        event: UiEvent,
        steer: Seq<Seq<char>>,
        interrupted: bool,
        now: u64,
    ) -> (AppView, ActionView, Seq<Seq<char>>) {
        match event {
            UiEvent::Tick => if self.busy && self.confirmation is None {
                (self.spun(), ActionView::Nothing, steer)
            } else {
                (self, ActionView::Nothing, steer)
            },
            UiEvent::Output { kind, text } => (self, ActionView::Show { text: text@ }, steer),
            UiEvent::Key(key) => {
                let (next, action) = self.key_step(key, interrupted);
                (next, action, steer)
            },
            UiEvent::Paste(text) => if self.modal() {
                (self, ActionView::Nothing, steer)
            } else {
                (self, ActionView::Insert { text: text@ }, steer)
            },
            UiEvent::Resize => (self, ActionView::Nothing, steer),
            UiEvent::WorkerBusy(label) => (
                AppView {
                    busy: true,
                    busy_label: label@,
                    busy_since: Some(now),
                    spinner_tick: 0,
                    ..self
                },
                ActionView::Nothing,
                steer,
            ),
            UiEvent::WorkerIdle => self.idle_step(steer),
            UiEvent::Status(snapshot) => (
                AppView { status: Some(snapshot), ..self },
                ActionView::Nothing,
                steer,
            ),
            UiEvent::ShowResumePicker(sessions) => (
                AppView { picker: Some(Picker { sessions, cursor: 0 }), ..self },
                ActionView::Nothing,
                steer,
            ),
            UiEvent::ShowModelPicker(entries) => (
                AppView {
                    model_picker: Some(
                        ModelPicker {
                            entries,
                            cursor: app::start_of(
                                app::model_current(entries@),
                                app::model_available(entries@),
                            ),
                        },
                    ),
                    ..self
                },
                ActionView::Nothing,
                steer,
            ),
            UiEvent::ShowEffortPicker(entries) => (
                AppView {
                    effort_picker: Some(
                        EffortPicker {
                            entries,
                            cursor: match app::first_set(app::effort_current(entries@), 0) {
                                Some(i) => i,
                                None => 0,
                            },
                        },
                    ),
                    ..self
                },
                ActionView::Nothing,
                steer,
            ),
            UiEvent::ShowPermissionsPicker(entries) => (
                AppView {
                    permissions_picker: Some(
                        PermissionsPicker {
                            entries,
                            cursor: app::start_of(
                                app::preset_current(entries@),
                                app::preset_available(entries@),
                            ),
                        },
                    ),
                    ..self
                },
                ActionView::Nothing,
                steer,
            ),
            UiEvent::ShowModePicker(entries) => (
                AppView {
                    mode_picker: Some(
                        ModePicker {
                            entries,
                            cursor: app::start_of(
                                app::mode_current(entries@),
                                app::mode_available(entries@),
                            ),
                        },
                    ),
                    ..self
                },
                ActionView::Nothing,
                steer,
            ),
            UiEvent::ConfirmRequest { prompt, choices, default_index, kind } => (
                AppView {
                    confirmation: Some(
                        ConfirmationPrompt {
                            prompt,
                            choices,
                            cursor: opening_cursor(kind, default_index, choices@.len()),
                            default_index,
                            kind,
                        },
                    ),
                    ..self
                },
                ActionView::Nothing,
                steer,
            ),
            UiEvent::WorkerShutdown(summary) => (
                AppView {
                    exit_summary: Some(summary),
                    should_quit: true,
                    confirmation: None,
                    ..self
                },
                ActionView::Quit {
                    answer: match self.confirmation {
                        Some(c) => Some(c.default_index),
                        None => None,
                    },
                },
                steer,
            ),
        }
    }
}

impl App {
    fn handle_key(&mut self, key: KeyPress, interrupted: bool) -> (action: UiAction)
        requires
            old(self)@.picker_wf(),
        ensures
            (final(self)@, action@) == old(self)@.key_step(key, interrupted),
    {
        if self.confirmation.is_some() {
            match self.handle_confirmation_key(key) {
                Some(choice) => UiAction::Answer(choice),
                None => UiAction::Nothing,
            }
        } else if self.picker.is_some() {
            self.handle_picker_key(key)
        } else if self.model_picker.is_some() {
            self.handle_model_picker_key(key)
        } else if self.effort_picker.is_some() {
            self.handle_effort_picker_key(key)
        } else if self.permissions_picker.is_some() {
            self.handle_permissions_picker_key(key)
        } else if self.mode_picker.is_some() {
            self.handle_mode_picker_key(key)
        } else {
            self.handle_idle_key(key, interrupted)
        }
    }

    fn is_picking(&self) -> (r: bool)
        ensures
            r == self@.picking(),
    {
        self.picker.is_some() || self.model_picker.is_some() || self.effort_picker.is_some()
            || self.permissions_picker.is_some() || self.mode_picker.is_some()
    }

    /// Takes note that the worker finished its job, and gives it the next.
    fn worker_idle(&mut self, steer: &mut Vec<String>) -> (action: UiAction)
        ensures
            (final(self)@, action@, text::views(final(steer)@)) == old(self)@.idle_step(
                text::views(old(steer)@),
            ),
    {
        self.finish_busy();
        if self.is_picking() {
            return UiAction::Nothing;
        }
        if steer.len() > 0 {
            let message = text::join(steer, STEER_SEPARATOR);
            *steer = Vec::new();
            assert(text::views(steer@) =~= Seq::empty());
            let images = Vec::new();
            let job = Job::Message { text: message, images };
            assert(images@ =~= Seq::empty());
            return UiAction::Send(job);
        }
        if self.queue.len() > 0 {
            let ghost before = self.queue@;
            assert(event::job_views(before)[0] == before[0]@);
            if let Some(job) = self.queue.pop_front() {
                assert(event::job_views(self.queue@) =~= event::job_views(before).drop_first());
                return UiAction::Send(job);
            }
        }
        UiAction::Nothing
    }

    /// Takes an event into account. `steer` is what the user said during a
    /// turn and the model has not heard, `interrupted` whether the worker was
    /// already interrupted, and `now` the time in seconds.
    pub fn on_event(
        &mut self,
        event: UiEvent,
        steer: &mut Vec<String>,
        interrupted: bool,
        now: u64,
    ) -> (action: UiAction)
        requires
            old(self)@.picker_wf(),
            event matches UiEvent::ShowResumePicker(sessions) ==> sessions@.len() > 0,
        ensures
            (final(self)@, action@, text::views(final(steer)@)) == old(self)@.event_step(
                event,
                text::views(old(steer)@),
                interrupted,
                now,
            ),
            final(self)@.picker_wf(),
    {
        match event {
            UiEvent::Tick => {
                if self.busy && self.confirmation.is_none() {
                    self.advance_spinner();
                }
                UiAction::Nothing
            },
            UiEvent::Output { kind: _, text } => UiAction::Show(text),
            UiEvent::Key(key) => self.handle_key(key, interrupted),
            UiEvent::Paste(text) => {
                if self.confirmation.is_some() || self.is_picking() {
                    UiAction::Nothing
                } else {
                    UiAction::Insert(text)
                }
            },
            UiEvent::Resize => UiAction::Nothing,
            UiEvent::WorkerBusy(label) => {
                self.start_busy(label, now);
                UiAction::Nothing
            },
            UiEvent::WorkerIdle => self.worker_idle(steer),
            UiEvent::Status(snapshot) => {
                self.status = Some(snapshot);
                UiAction::Nothing
            },
            UiEvent::ShowResumePicker(sessions) => {
                self.picker = Some(Picker { sessions, cursor: 0 });
                UiAction::Nothing
            },
            UiEvent::ShowModelPicker(entries) => {
                self.model_picker = Some(ModelPicker::new(entries));
                UiAction::Nothing
            },
            UiEvent::ShowEffortPicker(entries) => {
                self.effort_picker = Some(EffortPicker::new(entries));
                UiAction::Nothing
            },
            UiEvent::ShowPermissionsPicker(entries) => {
                self.permissions_picker = Some(PermissionsPicker::new(entries));
                UiAction::Nothing
            },
            UiEvent::ShowModePicker(entries) => {
                self.mode_picker = Some(ModePicker::new(entries));
                UiAction::Nothing
            },
            UiEvent::ConfirmRequest { prompt, choices, default_index, kind } => {
                let cursor = initial_cursor(kind, default_index, choices.len());
                self.confirmation =
                Some(ConfirmationPrompt { prompt, choices, cursor, default_index, kind });
                UiAction::Nothing
            },
            UiEvent::WorkerShutdown(summary) => {
                self.exit_summary = Some(summary);
                self.should_quit = true;
                let answer = match self.confirmation.take() {
                    Some(c) => Some(c.default_index),
                    None => None,
                };
                UiAction::Quit(answer)
            },
        }
    }

    /// Takes note of whether the worker could be asked to end. Where it
    /// could not, it is gone and nothing will answer, so the interface ends.
    pub fn request_shutdown(&mut self, delivered: bool)
        ensures
            final(self)@ == (AppView {
                should_quit: old(self)@.should_quit || !delivered,
                ..old(self)@
            }),
    {
        if !delivered {
            self.should_quit = true;
        }
    }
}

/// Lines of output that are taken at once.
#[derive(Debug)]
pub struct OutputBatch {
    pub lines: Vec<String>,
}

/// What became of an event that was offered to a batch.
#[derive(Debug)]
pub enum Offered {
    /// It went into the batch.
    Taken,
    /// It is no output, and is to be handled after the batch.
    Forward(UiEvent),
}

impl View for OutputBatch {
    type V = Seq<Seq<char>>;

    open spec fn view(&self) -> Seq<Seq<char>> {
        text::views(self.lines@)
    }
}

/// The lines of output among some events.
pub open spec fn all_output(events: Seq<UiEvent>) -> Seq<Seq<char>>
    decreases events.len(),
{
    if events.len() == 0 {
        Seq::empty()
    } else {
        match events[0] {
            UiEvent::Output { kind, text } => seq![text@] + all_output(events.drop_first()),
            _ => all_output(events.drop_first()),
        }
    }
}

impl OutputBatch {
    /// A batch with its first line.
    pub fn new(first: String) -> (r: Self)
        ensures
            r@ == seq![first@],
    {
        let r = OutputBatch { lines: vec![first] };
        assert(r@ =~= seq![first@]);
        r
    }

    /// Whether there is room for another line.
    pub fn has_room(&self) -> (r: bool)
        ensures
            r == (self@.len() < MAX_OUTPUT_BATCH),
    {
        self.lines.len() < MAX_OUTPUT_BATCH
    }

    /// Takes the next event if it is a line of output.
    pub fn offer(&mut self, event: UiEvent) -> (r: Offered)
        ensures
            match event {
                UiEvent::Output { kind, text } => r == Offered::Taken && final(self)@ == old(
                    self,
                )@.push(text@),
                _ => r == Offered::Forward(event) && final(self)@ == old(self)@,
            },
    {
        match event {
            UiEvent::Output { kind: _, text } => {
                let ghost before = self@;
                self.lines.push(text);
                assert(self@ =~= before.push(text@));
                Offered::Taken
            },
            other => Offered::Forward(other),
        }
    }

    /// The lines of output among the events that are left when the interface
    /// ends. Nothing else is done about those events.
    pub fn last_lines(pending: VecDeque<UiEvent>) -> (r: Vec<String>)
        ensures
            text::views(r@) == all_output(pending@),
    {
        let mut r: Vec<String> = Vec::new();
        let ghost all = pending@;
        let mut pending = pending;
        assert(text::views(r@) + all_output(pending@) =~= all_output(all));
        while pending.len() > 0
            invariant
                text::views(r@) + all_output(pending@) == all_output(all),
            decreases pending@.len(),
        {
            let ghost was = pending@;
            let ghost before = r@;
            if let Some(event) = pending.pop_front() {
                assert(pending@ =~= was.drop_first());
                if let UiEvent::Output { kind: _, text } = event {
                    r.push(text);
                    assert(text::views(r@) =~= text::views(before).push(text@));
                    assert(text::views(before) + (seq![text@] + all_output(pending@)) =~= (
                    text::views(before).push(text@)) + all_output(pending@));
                }
            }
        }
        assert(text::views(r@) + all_output(pending@) =~= text::views(r@));
        r
    }
}

/// A question that was open and is closed has been answered, whatever
/// happened, unless another took its place; and nothing else answers one.
pub proof fn closed_question_was_answered(
    a: AppView,
    event: UiEvent,
    steer: Seq<Seq<char>>,
    interrupted: bool,
    now: u64,
)
    requires
        a.confirmation is Some,
    ensures
        ({
            let (next, action, _rest) = a.event_step(event, steer, interrupted, now);
            (next.confirmation is None) == (action is Answer || (action is Quit
                && action->answer is Some))
        }),
{
    if let UiEvent::Key(key) = event {
        let c = a.confirmation->0;
        assert((keymap::question_step(c, key).0 is None) == (keymap::question_step(c, key).1
            is Some));
    }
}

/// Pasted text neither answers a question nor chooses from a list: while
/// one is open it does nothing.
pub proof fn paste_never_answers(
    a: AppView,
    pasted: String,
    steer: Seq<Seq<char>>,
    interrupted: bool,
    now: u64,
)
    ensures
        ({
            let (next, action, rest) = a.event_step(
                UiEvent::Paste(pasted),
                steer,
                interrupted,
                now,
            );
            &&& next == a
            &&& rest == steer
            &&& a.modal() ==> action is Nothing
            &&& !a.modal() ==> action == (ActionView::Insert { text: pasted@ })
        }),
{
}

/// Nothing that the user said is lost when a job ends: what the model did
/// not hear is sent at once, the job that has waited longest goes next, and
/// the others keep their order.
pub proof fn nothing_said_is_lost(a: AppView, steer: Seq<Seq<char>>)
    ensures
        ({
            let (next, action, rest) = a.idle_step(steer);
            let sent: Seq<JobView> = match action {
                ActionView::Send { job } => seq![job],
                _ => Seq::empty(),
            };
            &&& !next.busy
            &&& rest == steer || (rest.len() == 0 && sent == seq![
                JobView::Message {
                    text: text::joined(steer, STEER_SEPARATOR@),
                    images: Seq::empty(),
                },
            ])
            &&& rest == steer ==> sent + next.queue == a.queue
            &&& rest != steer ==> next.queue == a.queue
            &&& !a.picking() && (steer.len() > 0 || a.queue.len() > 0) ==> sent.len() == 1
            &&& a.picking() ==> sent.len() == 0
        }),
{
    let (next, action, rest) = a.idle_step(steer);
    if !a.picking() && steer.len() == 0 && a.queue.len() > 0 {
        assert(seq![a.queue[0]] + a.queue.drop_first() =~= a.queue);
    } else {
        assert(Seq::<JobView>::empty() + next.queue =~= a.queue);
    }
}

/// The highlight of a question is on a choice when the question opens, and
/// its default names one wherever it is given one that does.
pub proof fn question_opens_on_a_choice(
    kind: ConfirmationType,
    default_index: usize,
    choices: nat,
)
    requires
        0 < choices <= usize::MAX,
    ensures
        opening_cursor(kind, default_index, choices) < choices,
        kind != ConfirmationType::Permission && default_index < choices ==> opening_cursor(
            kind,
            default_index,
            choices,
        ) == default_index,
{
}

} // verus!
