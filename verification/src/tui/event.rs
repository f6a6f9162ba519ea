//! What the interface and the worker tell each other.

use crate::api;
use crate::commands::{Command, CommandView};
use crate::config::{ApprovalPolicy, PermissionPreset, SandboxMode};
use crate::model_info::{ReasoningEffort, ReasoningMode};
use crate::repl::turn::PastedImage;
use crate::session::model::{SessionMetadata, SessionTokenCounters};
use vstd::prelude::*;

verus! {

/// What is shown of a session when it ends.
#[derive(Debug)]
pub struct ExitSummary {
    pub model: String,
    pub counters: SessionTokenCounters,
    /// Whether the worker ended unexpectedly.
    pub panicked: bool,
}

impl ExitSummary {
    /// What is shown of a session whose worker ended unexpectedly.
    pub fn unexpected() -> (r: Self)
        ensures
            r.model@.len() == 0,
            r.counters == SessionTokenCounters::zero(),
            r.panicked,
    {
        ExitSummary {
            model: String::new(),
            counters: SessionTokenCounters::default(),
            panicked: true,
        }
    }
}

/// What the status line shows.
#[derive(Debug)]
pub struct StatusSnapshot {
    pub model: String,
    pub mode: SandboxMode,
    pub approval: ApprovalPolicy,
    /// How hard the model is asked to think. Nothing is shown where this is
    /// empty.
    pub reasoning: String,
    pub input_tokens: u32,
    pub output_tokens: u32,
    pub cache_read_tokens: u32,
    pub cache_creation_tokens: u32,
}

/// Where a line of output came from.
#[derive(Debug, Clone, Copy, PartialEq, Eq, Structural)]
pub enum OutputKind {
    Stdout,
    Stderr,
}

/// What the interface asks the worker to do.
#[derive(Debug)]
pub enum Job {
    Message { text: String, images: Vec<PastedImage> },
    Command(Command),
    /// The session that was chosen, if one was.
    ResumeSelected(Option<String>),
    /// The model that was chosen, if one was.
    ModelSelected(Option<&'static str>),
    /// The effort that was chosen, if one was.
    EffortSelected(Option<ReasoningEffort>),
    /// The mode of reasoning that was chosen, if one was.
    ModeSelected(Option<ReasoningMode>),
    /// The preset that was chosen, if one was.
    PermissionsSelected(Option<PermissionPreset>),
    Shutdown,
}

#[verifier::ext_equal]
pub enum JobView {
    Message { text: Seq<char>, images: Seq<PastedImage> },
    Command { command: CommandView },
    ResumeSelected { id: Option<Seq<char>> },
    ModelSelected { name: Option<&'static str> },
    EffortSelected { effort: Option<ReasoningEffort> },
    ModeSelected { mode: Option<ReasoningMode> },
    PermissionsSelected { preset: Option<PermissionPreset> },
    Shutdown,
}

impl View for Job {
    type V = JobView;

    open spec fn view(&self) -> JobView {
        match *self {
            Job::Message { text, images } => JobView::Message { text: text@, images: images@ },
            Job::Command(c) => JobView::Command { command: c@ },
            Job::ResumeSelected(id) => JobView::ResumeSelected { id: api::option_view(id) },
            Job::ModelSelected(name) => JobView::ModelSelected { name },
            Job::EffortSelected(effort) => JobView::EffortSelected { effort },
            Job::ModeSelected(mode) => JobView::ModeSelected { mode },
            Job::PermissionsSelected(preset) => JobView::PermissionsSelected { preset },
            Job::Shutdown => JobView::Shutdown,
        }
    }
}

/// The views of a list of jobs.
pub open spec fn job_views(v: Seq<Job>) -> Seq<JobView> {
    v.map_values(|j: Job| j@)
}

/// One line of the list of models.
#[derive(Debug, Clone, Copy)]
pub struct ModelPickerEntry {
    pub name: &'static str,
    pub description: &'static str,
    pub is_current: bool,
    /// Whether the session can switch to the model.
    pub is_available: bool,
}

/// One line of the list of efforts.
#[derive(Debug, Clone, Copy)]
pub struct EffortPickerEntry {
    pub effort: ReasoningEffort,
    pub is_current: bool,
}

/// One line of the list of modes of reasoning.
#[derive(Debug, Clone, Copy)]
pub struct ModePickerEntry {
    pub mode: ReasoningMode,
    pub is_current: bool,
    /// Whether the model has the mode.
    pub is_available: bool,
}

/// One line of the list of presets.
#[derive(Debug, Clone, Copy)]
pub struct PermissionsPickerEntry {
    pub preset: PermissionPreset,
    pub is_current: bool,
    /// Whether the preset can take effect on this machine.
    pub is_available: bool,
}

/// What a question is about.
#[derive(Debug, Clone, Copy, PartialEq, Eq, Structural)]
pub enum ConfirmationType {
    Destructive,
    Permission,
    Info,
}

/// A key, as far as the interface tells keys apart.
#[derive(Debug, Clone, Copy, PartialEq, Eq, Structural)]
pub enum KeyCode {
    Char(char),
    Enter,
    Esc,
    Up,
    Down,
    Tab,
    Other,
}

/// A key that was pressed.
#[derive(Debug, Clone, Copy, PartialEq, Eq, Structural)]
pub struct KeyPress {
    pub code: KeyCode,
    pub shift: bool,
    pub alt: bool,
    pub ctrl: bool,
    /// Whether the key went down, or was held; not that it was released.
    pub down: bool,
}

impl KeyPress {
    pub open spec fn is_bare(self) -> bool {
        !self.shift && !self.alt && !self.ctrl
    }

    /// Whether no modifier is held.
    pub fn bare(&self) -> (r: bool)
        ensures
            r == self.is_bare(),
    {
        !self.shift && !self.alt && !self.ctrl
    }
}

/// What the interface learns.
#[derive(Debug)]
#[allow(inconsistent_fields)]
pub enum UiEvent {
    /// A line of output.
    Output { kind: OutputKind, text: String },
    Key(KeyPress),
    /// Text that was pasted at once.
    Paste(String),
    Resize,
    Tick,
    /// The worker started a job.
    WorkerBusy(String),
    /// The worker finished its job.
    WorkerIdle,
    ShowResumePicker(Vec<SessionMetadata>),
    ShowModelPicker(Vec<ModelPickerEntry>),
    ShowEffortPicker(Vec<EffortPickerEntry>),
    ShowModePicker(Vec<ModePickerEntry>),
    ShowPermissionsPicker(Vec<PermissionsPickerEntry>),
    Status(StatusSnapshot),
    /// A tool asks the user something.
    ConfirmRequest {
        prompt: String,
        choices: Vec<String>,
        default_index: usize,
        kind: ConfirmationType,
    },
    /// The worker ended.
    WorkerShutdown(ExitSummary),
}

} // verus!
