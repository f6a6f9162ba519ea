//! What the interface makes of what happens, and what the worker does for a
//! job.

use super::app::AppView;
use super::event::{
    ConfirmationType, ExitSummary, JobView, KeyPress, OutputKind, StatusSnapshot, UiEvent,
};
use super::event_loop;
use super::input::ActionView;
use super::keymap;
use super::worker;
use super::worker::WorkerStep;
use crate::session::model::SessionMetadata;
use crate::text;
use vstd::prelude::*;

verus! {

/// A question about a permission opens on its first choice. Any other opens
/// on its default, or on its last choice where the default names none.
pub proof fn permission_opens_on_the_first_choice(
    kind: ConfirmationType,
    default: usize,
    choices: nat,
)
    requires
        0 < choices <= usize::MAX,
    ensures
        kind is Permission ==> event_loop::opening_cursor(kind, default, choices) == 0,
        !(kind is Permission) && default < choices ==> event_loop::opening_cursor(
            kind,
            default,
            choices,
        ) == default,
        !(kind is Permission) && default >= choices ==> event_loop::opening_cursor(
            kind,
            default,
            choices,
        ) == choices - 1,
{
}

/// A key goes to what lies on top: a question, then a list, then the input.
pub proof fn key_goes_to_what_lies_on_top(a: AppView, key: KeyPress, interrupted: bool)
    ensures
        ({
            let r = a.key_step(key, interrupted);
            let asked = a.confirmation is Some;
            &&& asked ==> {
                let (next, answer) = keymap::question_step(a.confirmation->0, key);
                &&& r.0 == AppView { confirmation: next, ..a }
                &&& answer is Some ==> r.1 == (ActionView::Answer { choice: answer->0 })
                &&& answer is None ==> r.1 is Nothing
            }
            &&& !asked && a.picker is Some ==> r == a.session_key(a.picker->0, key)
            &&& !asked && a.picker is None && a.model_picker is Some ==> r == a.model_key(
                a.model_picker->0,
                key,
            )
            &&& !asked && a.picker is None && a.model_picker is None && a.effort_picker is Some
                ==> r == a.effort_key(a.effort_picker->0, key)
            &&& !asked && a.picker is None && a.model_picker is None && a.effort_picker is None
                && a.permissions_picker is Some ==> r == a.preset_key(a.permissions_picker->0, key)
            &&& !asked && a.picker is None && a.model_picker is None && a.effort_picker is None
                && a.permissions_picker is None && a.mode_picker is Some ==> r == a.mode_key(
                a.mode_picker->0,
                key,
            )
            &&& !asked && a.picker is None && a.model_picker is None && a.effort_picker is None
                && a.permissions_picker is None && a.mode_picker is None ==> r == a.idle_key(
                key,
                interrupted,
            )
        }),
{
}

/// A worker that is done leaves the interface at rest. What the user said to
/// it last is sent first, as one message with an empty line between its
/// parts; then the job that has waited longest. Nothing is sent while a list
/// is open.
pub proof fn idle_worker_gets_the_next_job(a: AppView, steer: Seq<Seq<char>>)
    ensures
        ({
            let (now, action, rest) = a.idle_step(steer);
            let open = a.picker is Some || a.model_picker is Some || a.effort_picker is Some
                || a.permissions_picker is Some || a.mode_picker is Some;
            &&& !now.busy && now.busy_label.len() == 0 && now.busy_since is None
            &&& open ==> action is Nothing && rest == steer && now.queue == a.queue
            &&& !open && steer.len() > 0 ==> rest.len() == 0 && now.queue == a.queue && action == (
            ActionView::Send {
                job: JobView::Message {
                    text: text::joined(steer, "\n\n"@),
                    images: Seq::empty(),
                },
            })
            &&& !open && steer.len() == 0 && a.queue.len() > 0 ==> action == (ActionView::Send {
                job: a.queue.first(),
            }) && now.queue == a.queue.drop_first() && rest == steer
            &&& !open && steer.len() == 0 && a.queue.len() == 0 ==> action is Nothing && now.queue
                == a.queue
            &&& now.input == a.input && now.history == a.history && now.confirmation
                == a.confirmation
        }),
{
}

/// The spinner moves with the clock while the worker is busy and nobody is
/// asked anything. Output is shown as it is, and a busy worker by its label,
/// from the first picture on.
pub proof fn events_do_one_thing_each(
    a: AppView,
    kind: OutputKind,
    said: String,
    steer: Seq<Seq<char>>,
    interrupted: bool,
    now: u64,
)
    ensures
        ({
            let spins = a.busy && a.confirmation is None;
            &&& spins ==> a.event_step(UiEvent::Tick, steer, interrupted, now) == (
                a.spun(),
                ActionView::Nothing,
                steer,
            )
            &&& !spins ==> a.event_step(UiEvent::Tick, steer, interrupted, now) == (
                a,
                ActionView::Nothing,
                steer,
            )
        }),
        a.event_step(UiEvent::Output { kind, text: said }, steer, interrupted, now) == (
            a,
            ActionView::Show { text: said@ },
            steer,
        ),
        a.event_step(UiEvent::Resize, steer, interrupted, now) == (a, ActionView::Nothing, steer),
        ({
            let (next, action, rest) = a.event_step(
                UiEvent::WorkerBusy(said),
                steer,
                interrupted,
                now,
            );
            &&& next.busy && next.busy_label == said@ && next.busy_since == Some(now)
                && next.spinner_tick == 0
            &&& next.input == a.input && next.queue == a.queue && next.picker == a.picker
            &&& action is Nothing && rest == steer
        }),
        a.event_step(UiEvent::WorkerIdle, steer, interrupted, now) == a.idle_step(steer),
{
}

/// What is told of the session is kept for the status line, and a list of
/// sessions opens on the first of them.
pub proof fn news_are_kept(
    a: AppView,
    snapshot: StatusSnapshot,
    sessions: Vec<SessionMetadata>,
    steer: Seq<Seq<char>>,
    interrupted: bool,
    now: u64,
)
    ensures
        a.event_step(UiEvent::Status(snapshot), steer, interrupted, now) == (
            AppView { status: Some(snapshot), ..a },
            ActionView::Nothing,
            steer,
        ),
        ({
            let (next, action, rest) = a.event_step(
                UiEvent::ShowResumePicker(sessions),
                steer,
                interrupted,
                now,
            );
            &&& next.picker is Some && next.picker->0.sessions == sessions && next.picker->0.cursor
                == 0
            &&& next == AppView { picker: next.picker, ..a }
            &&& action is Nothing && rest == steer
        }),
{
}

/// The end of the worker ends the interface. A question that is open then is
/// answered with its default.
pub proof fn end_of_the_worker_ends_the_interface(
    a: AppView,
    summary: ExitSummary,
    steer: Seq<Seq<char>>,
    interrupted: bool,
    now: u64,
)
    ensures
        ({
            let (next, action, rest) = a.event_step(
                UiEvent::WorkerShutdown(summary),
                steer,
                interrupted,
                now,
            );
            &&& next.should_quit && next.exit_summary == Some(summary) && next.confirmation is None
            &&& a.confirmation is None ==> action == (ActionView::Quit { answer: None })
            &&& a.confirmation is Some ==> action == (ActionView::Quit {
                answer: Some(a.confirmation->0.default_index),
            })
            &&& rest == steer && next.queue == a.queue
        }),
{
}

/// What is open over the interface: a question or one of the five lists.
pub proof fn modal_is_a_question_or_a_list(a: AppView)
    ensures
        a.modal() == (a.confirmation is Some || a.picker is Some || a.model_picker is Some
            || a.effort_picker is Some || a.permissions_picker is Some || a.mode_picker is Some),
{
}

/// The output that is left when the interface ends is shown in order, and
/// nothing else of what is left.
pub proof fn last_output_is_shown_in_order(a: Seq<UiEvent>, b: Seq<UiEvent>)
    ensures
        event_loop::all_output(Seq::empty()).len() == 0,
        event_loop::all_output(a + b) == event_loop::all_output(a) + event_loop::all_output(b),
        a.len() == 1 && a[0] is Output ==> event_loop::all_output(a) == seq![a[0]->Output_text@],
        a.len() == 1 && !(a[0] is Output) ==> event_loop::all_output(a).len() == 0,
    decreases a.len(),
{
    if a.len() == 0 {
        assert(a + b =~= b);
        assert(event_loop::all_output(a) + event_loop::all_output(b) =~= event_loop::all_output(
            b,
        ));
    } else {
        assert((a + b).drop_first() =~= a.drop_first() + b);
        assert((a + b)[0] == a[0]);
        last_output_is_shown_in_order(a.drop_first(), b);
        assert(event_loop::all_output(a + b) =~= event_loop::all_output(a)
            + event_loop::all_output(b));
        if a.len() == 1 {
            assert(a.drop_first() =~= Seq::<UiEvent>::empty());
            if a[0] is Output {
                assert(event_loop::all_output(a) =~= seq![a[0]->Output_text@]);
            }
        }
    }
}

/// A message is announced, worked on, stored and reported, and an empty line
/// follows it. A command is announced after an earlier interrupt is
/// forgotten; one that ends the session is stored, and the end is told in
/// place of the rest.
pub proof fn worker_reports_its_work(job: JobView)
    ensures
        job is Message ==> forall|exits: bool|
            #[trigger] worker::job_steps(job, exits) == seq![
                WorkerStep::TellBusy("processing"),
                WorkerStep::ClearInterrupt,
                WorkerStep::Work,
                WorkerStep::Save,
                WorkerStep::BlankLine,
                WorkerStep::Flush,
                WorkerStep::TellStatus,
                WorkerStep::TellIdle,
            ],
        job is Command ==> {
            let label = if job->command is Compact {
                "compacting"
            } else {
                "command"
            };
            &&& worker::job_steps(job, false) == seq![
                WorkerStep::ClearInterrupt,
                WorkerStep::TellBusy(label),
                WorkerStep::Work,
                WorkerStep::Save,
                WorkerStep::Flush,
                WorkerStep::TellStatus,
                WorkerStep::TellIdle,
            ]
            &&& worker::job_steps(job, true) == seq![
                WorkerStep::ClearInterrupt,
                WorkerStep::TellBusy(label),
                WorkerStep::Work,
                WorkerStep::Save,
                WorkerStep::Flush,
                WorkerStep::TellEnd,
            ]
        },
        job is Shutdown ==> forall|exits: bool|
            #[trigger] worker::job_steps(job, exits) == seq![
                WorkerStep::Save,
                WorkerStep::Flush,
                WorkerStep::TellEnd,
            ],
{
    if job is Message {
        assert forall|exits: bool| #[trigger] worker::job_steps(job, exits) == seq![
            WorkerStep::TellBusy("processing"),
            WorkerStep::ClearInterrupt,
            WorkerStep::Work,
            WorkerStep::Save,
            WorkerStep::BlankLine,
            WorkerStep::Flush,
            WorkerStep::TellStatus,
            WorkerStep::TellIdle,
        ] by {
            assert(worker::job_steps(job, exits) =~= seq![
                WorkerStep::TellBusy("processing"),
                WorkerStep::ClearInterrupt,
                WorkerStep::Work,
                WorkerStep::Save,
                WorkerStep::BlankLine,
                WorkerStep::Flush,
                WorkerStep::TellStatus,
                WorkerStep::TellIdle,
            ]);
        }
    }
    if job is Command {
        let label = if job->command is Compact {
            "compacting"
        } else {
            "command"
        };
        assert(worker::job_steps(job, false) =~= seq![
            WorkerStep::ClearInterrupt,
            WorkerStep::TellBusy(label),
            WorkerStep::Work,
            WorkerStep::Save,
            WorkerStep::Flush,
            WorkerStep::TellStatus,
            WorkerStep::TellIdle,
        ]);
        assert(worker::job_steps(job, true) =~= seq![
            WorkerStep::ClearInterrupt,
            WorkerStep::TellBusy(label),
            WorkerStep::Work,
            WorkerStep::Save,
            WorkerStep::Flush,
            WorkerStep::TellEnd,
        ]);
    }
    if job is Shutdown {
        assert forall|exits: bool| #[trigger] worker::job_steps(job, exits) == seq![
            WorkerStep::Save,
            WorkerStep::Flush,
            WorkerStep::TellEnd,
        ] by {
            assert(worker::job_steps(job, exits) =~= seq![
                WorkerStep::Save,
                WorkerStep::Flush,
                WorkerStep::TellEnd,
            ]);
        }
    }
}

/// A choice from a list that names something is announced, worked on and
/// reported; one of permissions, which tells the model of them, is stored as
/// well. A list that was closed without a choice takes no work.
pub proof fn worker_reports_a_choice(job: JobView, exits: bool)
    requires
        job is ResumeSelected || job is ModelSelected || job is EffortSelected
            || job is ModeSelected || job is PermissionsSelected,
    ensures
        ({
            let nothing = match job {
                JobView::ResumeSelected { id } => id is None,
                JobView::ModelSelected { name } => name is None,
                JobView::EffortSelected { effort } => effort is None,
                JobView::ModeSelected { mode } => mode is None,
                JobView::PermissionsSelected { preset } => preset is None,
                _ => true,
            };
            let label = match job {
                JobView::ResumeSelected { .. } => "loading",
                JobView::ModelSelected { .. } => "switching model",
                JobView::EffortSelected { .. } => "switching effort",
                JobView::ModeSelected { .. } => "switching mode",
                _ => "switching permissions",
            };
            let steps = worker::job_steps(job, exits);
            &&& nothing ==> steps == seq![WorkerStep::Flush, WorkerStep::TellIdle]
            &&& !nothing && job is PermissionsSelected ==> steps == seq![
                WorkerStep::ClearInterrupt,
                WorkerStep::TellBusy(label),
                WorkerStep::Work,
                WorkerStep::Save,
                WorkerStep::Flush,
                WorkerStep::TellStatus,
                WorkerStep::TellIdle,
            ]
            &&& !nothing && !(job is PermissionsSelected) ==> steps == seq![
                WorkerStep::ClearInterrupt,
                WorkerStep::TellBusy(label),
                WorkerStep::Work,
                WorkerStep::Flush,
                WorkerStep::TellStatus,
                WorkerStep::TellIdle,
            ]
        }),
{
    let steps = worker::job_steps(job, exits);
    if steps.len() == 2 {
        assert(steps =~= seq![WorkerStep::Flush, WorkerStep::TellIdle]);
    } else if steps.len() == 7 {
        assert(steps =~= seq![
            steps[0],
            steps[1],
            steps[2],
            steps[3],
            steps[4],
            steps[5],
            steps[6],
        ]);
    } else {
        assert(steps =~= seq![steps[0], steps[1], steps[2], steps[3], steps[4], steps[5]]);
    }
}

} // verus!
