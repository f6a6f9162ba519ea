//! What the worker does for each job, and what it tells the interface.

use super::event::{ExitSummary, Job, JobView, UiEvent};
use crate::commands::{Command, CommandView};
use crate::repl::menus;
use crate::repl::{Repl, ReplView};
use crate::session::model::{SessionMetadata, SessionTokenCounters};
use vstd::prelude::*;

verus! {

pub const NO_SESSIONS: &'static str = "No saved sessions found.";

/// One thing that the worker does.
#[derive(Debug, Clone, Copy)]
pub enum WorkerStep {
    /// Forget an interrupt that came before the job.
    ClearInterrupt,
    /// Tell the interface that the worker is busy, and with what.
    TellBusy(&'static str),
    /// Do what the job asks for.
    Work,
    /// Store the session.
    Save,
    /// Print an empty line.
    BlankLine,
    /// Hand on all output.
    Flush,
    /// Tell the interface what the status line shows.
    TellStatus,
    /// Tell the interface that the worker is idle.
    TellIdle,
    /// Tell the interface that the worker ended.
    TellEnd,
}

/// What the interface shows while the worker does a job, if the job takes
/// any work.
pub open spec fn busy_label(job: JobView) -> Option<&'static str> {
    match job {
        JobView::Message { .. } => Some("processing"),
        JobView::Command { command } => if command == CommandView::Compact {
            Some("compacting")
        } else {
            Some("command")
        },
        JobView::ResumeSelected { id } => if id is Some {
            Some("loading")
        } else {
            None
        },
        JobView::ModelSelected { name } => if name is Some {
            Some("switching model")
        } else {
            None
        },
        JobView::EffortSelected { effort } => if effort is Some {
            Some("switching effort")
        } else {
            None
        },
        JobView::ModeSelected { mode } => if mode is Some {
            Some("switching mode")
        } else {
            None
        },
        JobView::PermissionsSelected { preset } => if preset is Some {
            Some("switching permissions")
        } else {
            None
        },
        JobView::Shutdown => None,
    }
}

/// Whether a job may change the conversation. The choice of a model or an
/// effort does not, and a session that was loaded is stored as it is.
pub open spec fn changes_conversation(job: JobView) -> bool {
    match job {
        JobView::Message { .. } => true,
        JobView::Command { .. } => true,
        JobView::PermissionsSelected { preset } => preset is Some,
        _ => false,
    }
}

/// What comes before the work. For a message the interface learns first
/// that the worker is busy, so that an early interrupt is one.
pub open spec fn opening_steps(job: JobView) -> Seq<WorkerStep> {
    match busy_label(job) {
        None => Seq::empty(),
        Some(label) => if job is Message {
            seq![WorkerStep::TellBusy(label), WorkerStep::ClearInterrupt]
        } else {
            seq![WorkerStep::ClearInterrupt, WorkerStep::TellBusy(label)]
        },
    }
}

/// What comes after the work of a job that does not end the worker.
pub open spec fn closing_steps(job: JobView) -> Seq<WorkerStep> {
    let save = if changes_conversation(job) {
        seq![WorkerStep::Save]
    } else {
        Seq::empty()
    };
    let blank = if job is Message {
        seq![WorkerStep::BlankLine]
    } else {
        Seq::empty()
    };
    let status = if busy_label(job) is Some {
        seq![WorkerStep::TellStatus]
    } else {
        Seq::empty()
    };
    save + blank + seq![WorkerStep::Flush] + status + seq![WorkerStep::TellIdle]
}

/// What the worker does when it ends.
pub open spec fn ending_steps() -> Seq<WorkerStep> {
    seq![WorkerStep::Save, WorkerStep::Flush, WorkerStep::TellEnd]
}

/// Whether the worker ends with a job. That it is idle is not told then:
/// the interface would send a job that nobody reads.
pub open spec fn ends(job: JobView, exits: bool) -> bool {
    job is Shutdown || (job is Command && exits)
}

/// All that the worker does for a job. `exits` is whether the job is a
/// command that turned out to end the session.
pub open spec fn job_steps(job: JobView, exits: bool) -> Seq<WorkerStep> {
    let work = if busy_label(job) is Some {
        seq![WorkerStep::Work]
    } else {
        Seq::empty()
    };
    opening_steps(job) + work + (if ends(job, exits) {
        ending_steps()
    } else {
        closing_steps(job)
    })
}

impl Job {
    /// What the interface shows while the worker does the job.
    pub fn label(&self) -> (r: Option<&'static str>)
        ensures
            r == busy_label(self@),
    {
        match self {
            Job::Message { text: _, images: _ } => Some("processing"),
            Job::Command(c) => if matches!(c, Command::Compact) {
                Some("compacting")
            } else {
                Some("command")
            },
            Job::ResumeSelected(id) => if id.is_some() {
                Some("loading")
            } else {
                None
            },
            Job::ModelSelected(name) => if name.is_some() {
                Some("switching model")
            } else {
                None
            },
            Job::EffortSelected(effort) => if effort.is_some() {
                Some("switching effort")
            } else {
                None
            },
            Job::ModeSelected(mode) => if mode.is_some() {
                Some("switching mode")
            } else {
                None
            },
            Job::PermissionsSelected(preset) => if preset.is_some() {
                Some("switching permissions")
            } else {
                None
            },
            Job::Shutdown => None,
        }
    }

    /// What comes before the work of the job.
    pub fn before(&self) -> (r: Vec<WorkerStep>)
        ensures
            r@ == opening_steps(self@),
    {
        let r = match self.label() {
            None => Vec::new(),
            Some(label) => if matches!(self, Job::Message { .. }) {
                vec![WorkerStep::TellBusy(label), WorkerStep::ClearInterrupt]
            } else {
                vec![WorkerStep::ClearInterrupt, WorkerStep::TellBusy(label)]
            },
        };
        assert(r@ =~= opening_steps(self@));
        r
    }

    /// What comes after the work of the job. `exits` is whether the job is a
    /// command that turned out to end the session.
    pub fn after(&self, exits: bool) -> (r: Vec<WorkerStep>)
        ensures
            r@ == (if ends(self@, exits) {
                ending_steps()
            } else {
                closing_steps(self@)
            }),
    {
        let is_command = matches!(self, Job::Command(_));
        if matches!(self, Job::Shutdown) || (is_command && exits) {
            let r = vec![WorkerStep::Save, WorkerStep::Flush, WorkerStep::TellEnd];
            assert(r@ =~= ending_steps());
            return r;
        }
        let is_message = matches!(self, Job::Message { .. });
        let changes = is_message || is_command || matches!(self, Job::PermissionsSelected(Some(_)));
        let mut r: Vec<WorkerStep> = Vec::new();
        if changes {
            r.push(WorkerStep::Save);
        }
        if is_message {
            r.push(WorkerStep::BlankLine);
        }
        r.push(WorkerStep::Flush);
        if self.label().is_some() {
            r.push(WorkerStep::TellStatus);
        }
        r.push(WorkerStep::TellIdle);
        assert(r@ =~= closing_steps(self@));
        r
    }

    /// Whether the worker ends with the job.
    pub fn ends_worker(&self, exits: bool) -> (r: bool)
        ensures
            r == ends(self@, exits),
    {
        matches!(self, Job::Shutdown) || (matches!(self, Job::Command(_)) && exits)
    }
}

/// What is done about a command.
#[derive(Debug)]
pub enum CommandPlan {
    /// Have the interface show a list.
    Show(UiEvent),
    /// Print a line.
    Print(&'static str),
    /// Do what the command asks for.
    Execute,
}

/// What is done about a command: those that ask for a list open one, and the
/// others are done.
pub open spec fn is_plan(
    plan: CommandPlan,
    command: CommandView,
    r: ReplView,
    sessions: Seq<SessionMetadata>,
    available: bool,
) -> bool {
    match command {
        CommandView::Resume => if sessions.len() == 0 {
            plan == CommandPlan::Print(NO_SESSIONS)
        } else {
            plan matches CommandPlan::Show(UiEvent::ShowResumePicker(shown)) && shown@ == sessions
        },
        CommandView::ModelPicker => plan matches CommandPlan::Show(
            UiEvent::ShowModelPicker(entries),
        ) && entries@ == menus::model_entries(r),
        CommandView::EffortPicker => plan matches CommandPlan::Show(
            UiEvent::ShowEffortPicker(entries),
        ) && entries@ == menus::effort_entries(r),
        CommandView::ModePicker => plan matches CommandPlan::Show(
            UiEvent::ShowModePicker(entries),
        ) && entries@ == menus::mode_entries(r),
        CommandView::PermissionsPicker => plan matches CommandPlan::Show(
            UiEvent::ShowPermissionsPicker(entries),
        ) && entries@ == menus::preset_entries(r, available),
        _ => plan == CommandPlan::Execute,
    }
}

impl Repl {
    /// What is done about a command. `sessions` are the stored sessions.
    pub fn run_command(
        &self,
        command: &Command,
        sessions: Vec<SessionMetadata>,
        sandbox_available: bool,
    ) -> (plan: CommandPlan)
        ensures
            is_plan(plan, command@, self@, sessions@, sandbox_available),
    {
        match command {
            Command::Resume => if sessions.len() == 0 {
                CommandPlan::Print(NO_SESSIONS)
            } else {
                CommandPlan::Show(UiEvent::ShowResumePicker(sessions))
            },
            Command::ModelPicker => CommandPlan::Show(
                UiEvent::ShowModelPicker(self.build_model_picker_entries()),
            ),
            Command::EffortPicker => CommandPlan::Show(
                UiEvent::ShowEffortPicker(self.build_effort_picker_entries()),
            ),
            Command::ModePicker => CommandPlan::Show(
                UiEvent::ShowModePicker(self.build_mode_picker_entries()),
            ),
            Command::PermissionsPicker => CommandPlan::Show(
                UiEvent::ShowPermissionsPicker(
                    self.build_permissions_picker_entries(sandbox_available),
                ),
            ),
            _ => CommandPlan::Execute,
        }
    }
}

/// What tells the interface that the worker ended, once and no more often.
#[derive(Debug)]
pub struct ShutdownSender {
    pub summary: Option<ExitSummary>,
    pub sent: bool,
}

impl ShutdownSender {
    /// What would be told of the end now: whether it was unexpected, unless
    /// the end has been told already.
    pub open spec fn outcome(self) -> Option<bool> {
        if self.sent {
            None
        } else {
            match self.summary {
                Some(s) => Some(s.panicked),
                None => Some(true),
            }
        }
    }

    /// One that has told nothing and has no summary.
    pub fn new() -> (r: Self)
        ensures
            r == (ShutdownSender { summary: None, sent: false }),
    {
        ShutdownSender { summary: None, sent: false }
    }

    /// Keeps the summary that will be told.
    pub fn set_summary(&mut self, summary: ExitSummary)
        ensures
            *final(self) == (ShutdownSender { summary: Some(summary), ..*old(self) }),
    {
        self.summary = Some(summary);
    }

    /// What is to be told, unless it has been. Where no summary was set the
    /// worker ended unexpectedly, and that is told.
    pub fn send_now(&mut self) -> (r: Option<UiEvent>)
        ensures
            final(self).sent,
            old(self).sent ==> r is None && *final(self) == *old(self),
            !old(self).sent ==> {
                &&& final(self).summary is None
                &&& r matches Some(UiEvent::WorkerShutdown(told)) && old(self).outcome() == Some(
                    told.panicked,
                ) && match old(self).summary {
                    Some(s) => told == s,
                    None => told.panicked && told.model@.len() == 0 && told.counters
                        == SessionTokenCounters::zero(),
                }
            },
    {
        if self.sent {
            return None;
        }
        let summary = match self.summary.take() {
            Some(s) => s,
            None => ExitSummary::unexpected(),
        };
        self.sent = true;
        Some(UiEvent::WorkerShutdown(summary))
    }
}

/// The interface learns after every job either that the worker is idle or
/// that it ended, once and last, so that it never waits in vain and never
/// sends a job that nobody reads.
pub proof fn every_job_is_reported(job: JobView, exits: bool)
    ensures
        job_steps(job, exits).len() > 0,
        job_steps(job, exits).last() == (if ends(job, exits) {
            WorkerStep::TellEnd
        } else {
            WorkerStep::TellIdle
        }),
        forall|i: int|
            0 <= i < job_steps(job, exits).len() - 1 ==> {
                let step = #[trigger] job_steps(job, exits)[i];
                !(step is TellIdle) && !(step is TellEnd)
            },
{
}

/// What the interface learns from the worker.
#[derive(Debug, Clone, Copy, PartialEq, Eq, Structural)]
pub enum Told {
    Busy,
    Status,
    Idle,
    /// The worker ended, as it should or unexpectedly.
    End { panicked: bool },
}

/// The end of the worker, if it is told now.
pub open spec fn end_told(sender: ShutdownSender) -> Seq<Told> {
    match sender.outcome() {
        Some(panicked) => seq![Told::End { panicked }],
        None => Seq::empty(),
    }
}

/// What the interface learns from one step. For the end the summary of the
/// session is set, and what there is to tell is told.
pub open spec fn step_told(step: WorkerStep, sender: ShutdownSender, summary: ExitSummary) -> Seq<
    Told,
> {
    match step {
        WorkerStep::TellBusy(_) => seq![Told::Busy],
        WorkerStep::TellStatus => seq![Told::Status],
        WorkerStep::TellIdle => seq![Told::Idle],
        WorkerStep::TellEnd => end_told(
            ShutdownSender { summary: Some(summary), ..sender },
        ),
        _ => Seq::empty(),
    }
}

/// What is known of the end after one step.
pub open spec fn sender_after(step: WorkerStep, sender: ShutdownSender) -> ShutdownSender {
    if step is TellEnd {
        ShutdownSender { summary: None, sent: true }
    } else {
        sender
    }
}

/// What the interface learns from some steps, and from the worker's being
/// gone after them, for whatever reason.
pub open spec fn told_by(
    steps: Seq<WorkerStep>,
    sender: ShutdownSender,
    summary: ExitSummary,
) -> Seq<Told>
    decreases steps.len(),
{
    if steps.len() == 0 {
        end_told(sender)
    } else {
        step_told(steps[0], sender, summary) + told_by(
            steps.drop_first(),
            sender_after(steps[0], sender),
            summary,
        )
    }
}

/// All that the worker does in a run: the jobs one after the other until one
/// ends it, or until no more can come. Beside each job stands whether it is a
/// command that turns out to end the session.
pub open spec fn run_steps(jobs: Seq<(JobView, bool)>) -> Seq<WorkerStep>
    decreases jobs.len(),
{
    if jobs.len() == 0 {
        ending_steps()
    } else if ends(jobs[0].0, jobs[0].1) {
        job_steps(jobs[0].0, jobs[0].1)
    } else {
        job_steps(jobs[0].0, jobs[0].1) + run_steps(jobs.drop_first())
    }
}

/// How many jobs that do not end the worker are done after `n` steps.
pub open spec fn jobs_done(jobs: Seq<(JobView, bool)>, n: int) -> nat
    decreases jobs.len(),
{
    if jobs.len() == 0 || ends(jobs[0].0, jobs[0].1) {
        0
    } else {
        let first = job_steps(jobs[0].0, jobs[0].1).len();
        if n < first {
            0
        } else {
            1 + jobs_done(jobs.drop_first(), n - first)
        }
    }
}

/// How often the interface learns that the worker is idle.
pub open spec fn idles(told: Seq<Told>) -> nat
    decreases told.len(),
{
    if told.len() == 0 {
        0
    } else {
        idles(told.drop_first()) + (if told[0] == Told::Idle {
            1nat
        } else {
            0
        })
    }
}

proof fn lemma_idles_both(a: Seq<Told>, b: Seq<Told>)
    ensures
        idles(a + b) == idles(a) + idles(b),
    decreases a.len(),
{
    if a.len() == 0 {
        assert(a + b =~= b);
    } else {
        lemma_idles_both(a.drop_first(), b);
        assert((a + b).drop_first() =~= a.drop_first() + b);
    }
}

/// Whether the interface learns of the end once, and of nothing after it.
pub open spec fn ends_once(told: Seq<Told>, panicked: bool) -> bool {
    &&& told.len() > 0
    &&& told.last() == Told::End { panicked }
    &&& forall|i: int| 0 <= i < told.len() - 1 ==> !(#[trigger] told[i] is End)
}

/// Steps of which none tells the end, or only the last one.
proof fn lemma_told_once(steps: Seq<WorkerStep>, sender: ShutdownSender, summary: ExitSummary)
    requires
        !sender.sent,
        sender.summary is None,
        !summary.panicked,
        forall|i: int| 0 <= i < steps.len() - 1 ==> !(#[trigger] steps[i] is TellEnd),
    ensures
        ends_once(
            told_by(steps, sender, summary),
            !(steps.len() > 0 && steps.last() is TellEnd),
        ),
    decreases steps.len(),
{
    if steps.len() > 0 {
        let rest = steps.drop_first();
        let here = step_told(steps[0], sender, summary);
        let behind = told_by(rest, sender_after(steps[0], sender), summary);
        let all = told_by(steps, sender, summary);
        if steps[0] is TellEnd {
            assert(rest.len() == 0);
            assert(behind =~= Seq::empty());
            assert(all =~= seq![Told::End { panicked: false }]);
        } else {
            assert forall|i: int| 0 <= i < rest.len() - 1 implies !(#[trigger] rest[i]
                is TellEnd) by {
                assert(rest[i] == steps[i + 1]);
            }
            lemma_told_once(rest, sender, summary);
            if rest.len() > 0 {
                assert(rest.last() == steps.last());
            }
            assert forall|i: int| 0 <= i < all.len() - 1 implies !(#[trigger] all[i] is End) by {
                if i >= here.len() {
                    assert(all[i] == behind[i - here.len()]);
                } else {
                    assert(all[i] == here[i]);
                }
            }
        }
    }
}

proof fn lemma_run_ends_last(jobs: Seq<(JobView, bool)>)
    ensures
        run_steps(jobs).len() > 0,
        run_steps(jobs).last() is TellEnd,
        forall|i: int|
            0 <= i < run_steps(jobs).len() - 1 ==> !(#[trigger] run_steps(jobs)[i] is TellEnd),
    decreases jobs.len(),
{
    if jobs.len() > 0 {
        let (job, exits) = jobs[0];
        let first = job_steps(job, exits);
        every_job_is_reported(job, exits);
        if !ends(job, exits) {
            lemma_run_ends_last(jobs.drop_first());
            let rest = run_steps(jobs.drop_first());
            let all = run_steps(jobs);
            assert forall|i: int| 0 <= i < all.len() - 1 implies !(#[trigger] all[i]
                is TellEnd) by {
                if i < first.len() {
                    assert(all[i] == first[i]);
                } else {
                    assert(all[i] == rest[i - first.len()]);
                }
            }
        }
    }
}

/// Steps that tell neither the end nor that the worker is idle say nothing of
/// either.
proof fn lemma_quiet(
    steps: Seq<WorkerStep>,
    behind: Seq<WorkerStep>,
    sender: ShutdownSender,
    summary: ExitSummary,
)
    requires
        forall|i: int|
            0 <= i < steps.len() ==> !(#[trigger] steps[i] is TellEnd) && !(steps[i] is TellIdle),
    ensures
        idles(told_by(steps + behind, sender, summary)) == idles(
            told_by(behind, sender, summary),
        ),
    decreases steps.len(),
{
    if steps.len() == 0 {
        assert(steps + behind =~= behind);
    } else {
        let rest = steps.drop_first();
        assert forall|i: int| 0 <= i < rest.len() implies !(#[trigger] rest[i] is TellEnd) && !(
        rest[i] is TellIdle) by {
            assert(rest[i] == steps[i + 1]);
        }
        lemma_quiet(rest, behind, sender, summary);
        assert((steps + behind).drop_first() =~= rest + behind);
        assert(!(steps[0] is TellEnd) && !(steps[0] is TellIdle));
        let here = step_told(steps[0], sender, summary);
        lemma_idles_both(here, told_by(rest + behind, sender, summary));
        reveal_with_fuel(idles, 2);
    }
}

proof fn lemma_idles_of_a_run(
    jobs: Seq<(JobView, bool)>,
    n: int,
    sender: ShutdownSender,
    summary: ExitSummary,
)
    requires
        0 <= n <= run_steps(jobs).len(),
    ensures
        idles(told_by(run_steps(jobs).take(n), sender, summary)) == jobs_done(jobs, n),
    decreases jobs.len(),
{
    reveal_with_fuel(idles, 2);
    let all = run_steps(jobs);
    let none = Seq::<WorkerStep>::empty();
    assert(idles(told_by(none, sender, summary)) == 0);
    let ended = ShutdownSender { summary: None, sent: true };
    assert(told_by(none, ended, summary) =~= Seq::empty());
    let first = if jobs.len() == 0 {
        ending_steps()
    } else {
        job_steps(jobs[0].0, jobs[0].1)
    };
    if jobs.len() > 0 {
        every_job_is_reported(jobs[0].0, jobs[0].1);
    }
    let quiet = first.drop_last();
    assert(first =~= quiet.push(first.last()));
    if n < first.len() {
        let part = all.take(n);
        assert(part =~= first.take(n));
        assert forall|i: int| 0 <= i < part.len() implies !(#[trigger] part[i] is TellEnd) && !(
        part[i] is TellIdle) by {
            assert(part[i] == first[i]);
        }
        lemma_quiet(part, none, sender, summary);
        assert(part + none =~= part);
    } else {
        let last = seq![first.last()];
        assert forall|i: int| 0 <= i < quiet.len() implies !(#[trigger] quiet[i] is TellEnd) && !(
        quiet[i] is TellIdle) by {
            assert(quiet[i] == first[i]);
        }
        if jobs.len() == 0 || ends(jobs[0].0, jobs[0].1) {
            assert(all.take(n) =~= quiet + last);
            lemma_quiet(quiet, last, sender, summary);
            assert(last.drop_first() =~= none);
            let here = step_told(last[0], sender, summary);
            assert(told_by(last, sender, summary) =~= here);
        } else {
            let rest = run_steps(jobs.drop_first());
            let behind = rest.take(n - first.len());
            lemma_idles_of_a_run(jobs.drop_first(), n - first.len(), sender, summary);
            assert(all.take(n) =~= quiet + (last + behind));
            lemma_quiet(quiet, last + behind, sender, summary);
            assert((last + behind).drop_first() =~= behind);
            assert((last + behind)[0] == first.last());
            lemma_idles_both(seq![Told::Idle], told_by(behind, sender, summary));
        }
    }
}

/// In a run of the worker the interface learns of its end exactly once, and
/// of nothing after it, whether the worker was asked to end, a command ended
/// it, no more jobs could come, or it stopped in the middle of some step: `n`
/// steps are done, and then it is gone. That the end was unexpected is told
/// exactly where steps are missing. For every job that is done and does not
/// end the worker the interface learns once that the worker is idle, and for
/// no other.
pub proof fn run_is_reported(jobs: Seq<(JobView, bool)>, n: int, summary: ExitSummary)
    requires
        0 <= n <= run_steps(jobs).len(),
        !summary.panicked,
    ensures
        ({
            let sender = ShutdownSender { summary: None, sent: false };
            let told = told_by(run_steps(jobs).take(n), sender, summary);
            &&& ends_once(told, n < run_steps(jobs).len())
            &&& idles(told) == jobs_done(jobs, n)
        }),
{
    let sender = ShutdownSender { summary: None, sent: false };
    let all = run_steps(jobs);
    let part = all.take(n);
    lemma_run_ends_last(jobs);
    assert forall|i: int| 0 <= i < part.len() - 1 implies !(#[trigger] part[i] is TellEnd) by {
        assert(part[i] == all[i]);
    }
    if n < all.len() && n > 0 {
        assert(part.last() == all[n - 1]);
    } else if n > 0 {
        assert(part =~= all);
    }
    lemma_told_once(part, sender, summary);
    lemma_idles_of_a_run(jobs, n, sender, summary);
}

/// What changes the conversation is stored as soon as the work is done, and
/// before the interface learns of it.
pub proof fn changes_are_stored(job: JobView, exits: bool)
    requires
        changes_conversation(job),
    ensures
        job_steps(job, exits).len() > 4,
        job_steps(job, exits)[2] == WorkerStep::Work,
        job_steps(job, exits)[3] == WorkerStep::Save,
{
}

/// No job is worked on before an interrupt that was meant for an earlier one
/// is forgotten and the interface knows that the worker is busy.
pub proof fn work_starts_uninterrupted(job: JobView, exits: bool)
    requires
        busy_label(job) is Some,
    ensures
        job_steps(job, exits)[2] == WorkerStep::Work,
        job_steps(job, exits).take(2).contains(WorkerStep::ClearInterrupt),
        job_steps(job, exits).take(2).contains(WorkerStep::TellBusy(busy_label(job)->0)),
        job is Message ==> job_steps(job, exits)[0] == WorkerStep::TellBusy(busy_label(job)->0),
{
    let steps = job_steps(job, exits).take(2);
    assert(steps[0] == opening_steps(job)[0]);
    assert(steps[1] == opening_steps(job)[1]);
}


/// A command that asks for a list shows just that list, with all its
/// entries in order; where no session is stored the user is told. Every
/// other command is done.
pub proof fn commands_show_their_lists(
    plan: CommandPlan,
    command: CommandView,
    r: ReplView,
    sessions: Seq<SessionMetadata>,
    available: bool,
)
    requires
        is_plan(plan, command, r, sessions, available),
    ensures
        (plan is Show) == (command is ModelPicker || command is EffortPicker
            || command is ModePicker || command is PermissionsPicker || (command is Resume
            && sessions.len() > 0)),
        (plan is Print) == (command is Resume && sessions.len() == 0),
        plan is Print ==> plan == CommandPlan::Print("No saved sessions found."),
        command is Resume && sessions.len() > 0 ==> {
            &&& plan->Show_0 is ShowResumePicker
            &&& plan->Show_0->ShowResumePicker_0@ == sessions
        },
        command is ModelPicker ==> plan->Show_0 is ShowModelPicker
            && plan->Show_0->ShowModelPicker_0@ == menus::model_entries(r),
        command is EffortPicker ==> plan->Show_0 is ShowEffortPicker
            && plan->Show_0->ShowEffortPicker_0@ == menus::effort_entries(r),
        command is ModePicker ==> plan->Show_0 is ShowModePicker
            && plan->Show_0->ShowModePicker_0@ == menus::mode_entries(r),
        command is PermissionsPicker ==> plan->Show_0 is ShowPermissionsPicker
            && plan->Show_0->ShowPermissionsPicker_0@ == menus::preset_entries(r, available),
{
}

} // verus!
