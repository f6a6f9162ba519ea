//! Limits and permission settings.

use crate::model_info::ReasoningEffort;
use crate::text;
use vstd::prelude::*;

verus! {

/// Limits on the conversation that is kept and on the tool loop.
#[derive(Debug, Clone, Copy, PartialEq, Eq, Structural)]
pub struct SofosConfig {
    /// Most messages that are kept.
    pub max_messages: usize,
    /// Estimated tokens above which old messages are dropped.
    pub max_context_tokens: usize,
    /// Estimated tokens above which the conversation is compacted.
    pub auto_compact_token_limit: usize,
    /// Messages at the end that a compaction leaves alone.
    pub compaction_preserve_recent: usize,
    /// Bytes above which an old tool result is shortened.
    pub tool_result_truncate_threshold: usize,
    /// Rounds of tool calls after which a turn is stopped.
    pub max_tool_iterations: u32,
}

impl SofosConfig {
    pub open spec fn standard() -> SofosConfig {
        SofosConfig {
            max_messages: 500,
            max_context_tokens: 165_000,
            auto_compact_token_limit: 132_000,
            compaction_preserve_recent: 20,
            tool_result_truncate_threshold: 2_000,
            max_tool_iterations: 200,
        }
    }
}

impl Default for SofosConfig {
    fn default() -> (r: Self)
        ensures
            r == SofosConfig::standard(),
    {
        SofosConfig {
            max_messages: 500,
            max_context_tokens: 165_000,
            auto_compact_token_limit: 132_000,
            compaction_preserve_recent: 20,
            tool_result_truncate_threshold: 2_000,
            max_tool_iterations: 200,
        }
    }
}

/// What shell commands and file tools may touch.
#[derive(Debug, Clone, Copy, PartialEq, Eq, Structural)]
pub enum SandboxMode {
    /// Nothing may be changed.
    ReadOnly,
    /// Commands run inside the operating system's sandbox.
    Sandboxed,
    /// Commands run unconfined.
    Unsandboxed,
}

impl SandboxMode {
    pub open spec fn label_text(self) -> Seq<char> {
        match self {
            SandboxMode::ReadOnly => "safe"@,
            SandboxMode::Sandboxed => "sandboxed"@,
            SandboxMode::Unsandboxed => "unsandboxed"@,
        }
    }

    /// The mode's name in the status line.
    pub fn label(self) -> (r: &'static str)
        ensures
            r@ == self.label_text(),
    {
        match self {
            SandboxMode::ReadOnly => "safe",
            SandboxMode::Sandboxed => "sandboxed",
            SandboxMode::Unsandboxed => "unsandboxed",
        }
    }

    pub fn is_readonly(self) -> (r: bool)
        ensures
            r == (self == SandboxMode::ReadOnly),
    {
        matches!(self, SandboxMode::ReadOnly)
    }

    pub open spec fn of_flags(readonly: bool, unsandboxed: bool, available: bool) -> SandboxMode {
        if readonly {
            SandboxMode::ReadOnly
        } else if unsandboxed || !available {
            SandboxMode::Unsandboxed
        } else {
            SandboxMode::Sandboxed
        }
    }

    /// The mode that the start-up flags ask for. Without a sandbox on the
    /// machine commands run unconfined.
    pub fn from_flags(readonly: bool, unsandboxed: bool, sandbox_available: bool) -> (r: Self)
        ensures
            r == SandboxMode::of_flags(readonly, unsandboxed, sandbox_available),
    {
        if readonly {
            SandboxMode::ReadOnly
        } else if unsandboxed || !sandbox_available {
            SandboxMode::Unsandboxed
        } else {
            SandboxMode::Sandboxed
        }
    }
}

/// What happens to a command that the sandbox stopped.
#[derive(Debug, Clone, Copy, PartialEq, Eq, Structural)]
pub enum ApprovalPolicy {
    /// It fails.
    Strict,
    /// The user is asked whether to run it unconfined.
    Ask,
    /// It is run again unconfined.
    Retry,
}

impl Default for ApprovalPolicy {
    fn default() -> (r: Self)
        ensures
            r == ApprovalPolicy::Ask,
    {
        ApprovalPolicy::Ask
    }
}

/// A named combination of access mode and approval policy.
#[derive(Debug, Clone, Copy, PartialEq, Eq, Structural)]
pub enum PermissionPreset {
    ReadOnly,
    SandboxedStrict,
    SandboxedAsk,
    SandboxedRetry,
    Unsandboxed,
}

/// The presets, from the strictest to the most permissive.
pub open spec fn all_presets() -> Seq<PermissionPreset> {
    seq![
        PermissionPreset::ReadOnly,
        PermissionPreset::SandboxedStrict,
        PermissionPreset::SandboxedAsk,
        PermissionPreset::SandboxedRetry,
        PermissionPreset::Unsandboxed,
    ]
}

/// The presets, from the strictest to the most permissive.
pub fn permission_presets() -> (r: Vec<PermissionPreset>)
    ensures
        r@ == all_presets(),
{
    let r = vec![
        PermissionPreset::ReadOnly,
        PermissionPreset::SandboxedStrict,
        PermissionPreset::SandboxedAsk,
        PermissionPreset::SandboxedRetry,
        PermissionPreset::Unsandboxed,
    ];
    assert(r@ =~= all_presets());
    r
}

impl PermissionPreset {
    pub open spec fn label_text(self) -> Seq<char> {
        match self {
            PermissionPreset::ReadOnly => "read-only"@,
            PermissionPreset::SandboxedStrict => "sandboxed-strict"@,
            PermissionPreset::SandboxedAsk => "sandboxed-ask"@,
            PermissionPreset::SandboxedRetry => "sandboxed-retry"@,
            PermissionPreset::Unsandboxed => "unsandboxed"@,
        }
    }

    pub open spec fn description_text(self) -> Seq<char> {
        match self {
            PermissionPreset::ReadOnly => "nothing may be changed"@,
            PermissionPreset::SandboxedStrict => "confined; a blocked command fails"@,
            PermissionPreset::SandboxedAsk => "confined; a blocked command asks first"@,
            PermissionPreset::SandboxedRetry => "confined; a blocked command runs again unconfined"@,
            PermissionPreset::Unsandboxed => "commands run unconfined"@,
        }
    }

    pub open spec fn mode_of(self) -> SandboxMode {
        match self {
            PermissionPreset::ReadOnly => SandboxMode::ReadOnly,
            PermissionPreset::Unsandboxed => SandboxMode::Unsandboxed,
            _ => SandboxMode::Sandboxed,
        }
    }

    pub open spec fn policy_of(self) -> Option<ApprovalPolicy> {
        match self {
            PermissionPreset::SandboxedStrict => Some(ApprovalPolicy::Strict),
            PermissionPreset::SandboxedAsk => Some(ApprovalPolicy::Ask),
            PermissionPreset::SandboxedRetry => Some(ApprovalPolicy::Retry),
            _ => None,
        }
    }

    /// The preset that a mode and a policy amount to.
    pub open spec fn of(mode: SandboxMode, policy: ApprovalPolicy) -> PermissionPreset {
        match mode {
            SandboxMode::ReadOnly => PermissionPreset::ReadOnly,
            SandboxMode::Unsandboxed => PermissionPreset::Unsandboxed,
            SandboxMode::Sandboxed => match policy {
                ApprovalPolicy::Strict => PermissionPreset::SandboxedStrict,
                ApprovalPolicy::Ask => PermissionPreset::SandboxedAsk,
                ApprovalPolicy::Retry => PermissionPreset::SandboxedRetry,
            },
        }
    }

    /// Whether the preset can take effect on this machine.
    pub open spec fn runs(self, sandbox_available: bool) -> bool {
        self.mode_of() != SandboxMode::Sandboxed || sandbox_available
    }

    /// How much the preset permits.
    pub open spec fn rank_of(self) -> nat {
        match self {
            PermissionPreset::ReadOnly => 0,
            PermissionPreset::SandboxedStrict => 1,
            PermissionPreset::SandboxedAsk => 2,
            PermissionPreset::SandboxedRetry => 3,
            PermissionPreset::Unsandboxed => 4,
        }
    }

    /// The preset's name.
    pub fn label(self) -> (r: &'static str)
        ensures
            r@ == self.label_text(),
    {
        match self {
            PermissionPreset::ReadOnly => "read-only",
            PermissionPreset::SandboxedStrict => "sandboxed-strict",
            PermissionPreset::SandboxedAsk => "sandboxed-ask",
            PermissionPreset::SandboxedRetry => "sandboxed-retry",
            PermissionPreset::Unsandboxed => "unsandboxed",
        }
    }

    /// What the preset means, in a few words.
    pub fn description(self) -> (r: &'static str)
        ensures
            r@ == self.description_text(),
    {
        match self {
            PermissionPreset::ReadOnly => "nothing may be changed",
            PermissionPreset::SandboxedStrict => "confined; a blocked command fails",
            PermissionPreset::SandboxedAsk => "confined; a blocked command asks first",
            PermissionPreset::SandboxedRetry => "confined; a blocked command runs again unconfined",
            PermissionPreset::Unsandboxed => "commands run unconfined",
        }
    }

    /// The preset with the given name.
    pub open spec fn named(label: Seq<char>) -> Option<PermissionPreset> {
        if label == PermissionPreset::ReadOnly.label_text() {
            Some(PermissionPreset::ReadOnly)
        } else if label == PermissionPreset::SandboxedStrict.label_text() {
            Some(PermissionPreset::SandboxedStrict)
        } else if label == PermissionPreset::SandboxedAsk.label_text() {
            Some(PermissionPreset::SandboxedAsk)
        } else if label == PermissionPreset::SandboxedRetry.label_text() {
            Some(PermissionPreset::SandboxedRetry)
        } else if label == PermissionPreset::Unsandboxed.label_text() {
            Some(PermissionPreset::Unsandboxed)
        } else {
            None
        }
    }

    /// The preset with the given name.
    pub fn parse(label: &str) -> (r: Option<Self>)
        ensures
            r == PermissionPreset::named(label@),
    {
        if text::same(label, "read-only") {
            Some(PermissionPreset::ReadOnly)
        } else if text::same(label, "sandboxed-strict") {
            Some(PermissionPreset::SandboxedStrict)
        } else if text::same(label, "sandboxed-ask") {
            Some(PermissionPreset::SandboxedAsk)
        } else if text::same(label, "sandboxed-retry") {
            Some(PermissionPreset::SandboxedRetry)
        } else if text::same(label, "unsandboxed") {
            Some(PermissionPreset::Unsandboxed)
        } else {
            None
        }
    }

    /// The access mode that the preset sets.
    pub fn mode(self) -> (r: SandboxMode)
        ensures
            r == self.mode_of(),
    {
        match self {
            PermissionPreset::ReadOnly => SandboxMode::ReadOnly,
            PermissionPreset::Unsandboxed => SandboxMode::Unsandboxed,
            _ => SandboxMode::Sandboxed,
        }
    }

    /// The approval policy that the preset sets, if it sets one.
    pub fn escalation(self) -> (r: Option<ApprovalPolicy>)
        ensures
            r == self.policy_of(),
    {
        match self {
            PermissionPreset::SandboxedStrict => Some(ApprovalPolicy::Strict),
            PermissionPreset::SandboxedAsk => Some(ApprovalPolicy::Ask),
            PermissionPreset::SandboxedRetry => Some(ApprovalPolicy::Retry),
            _ => None,
        }
    }

    /// The preset that a mode and a policy amount to.
    pub fn current(mode: SandboxMode, policy: ApprovalPolicy) -> (r: Self)
        ensures
            r == PermissionPreset::of(mode, policy),
    {
        match mode {
            SandboxMode::ReadOnly => PermissionPreset::ReadOnly,
            SandboxMode::Unsandboxed => PermissionPreset::Unsandboxed,
            SandboxMode::Sandboxed => match policy {
                ApprovalPolicy::Strict => PermissionPreset::SandboxedStrict,
                ApprovalPolicy::Ask => PermissionPreset::SandboxedAsk,
                ApprovalPolicy::Retry => PermissionPreset::SandboxedRetry,
            },
        }
    }

    /// Whether the preset can take effect on this machine.
    pub fn is_available(self, sandbox_available: bool) -> (r: bool)
        ensures
            r == self.runs(sandbox_available),
    {
        !matches!(self.mode(), SandboxMode::Sandboxed) || sandbox_available
    }

    fn rank(self) -> (r: u8)
        ensures
            r == self.rank_of(),
    {
        match self {
            PermissionPreset::ReadOnly => 0,
            PermissionPreset::SandboxedStrict => 1,
            PermissionPreset::SandboxedAsk => 2,
            PermissionPreset::SandboxedRetry => 3,
            PermissionPreset::Unsandboxed => 4,
        }
    }

    /// Whether the preset permits more than another.
    pub fn is_more_permissive_than(self, other: PermissionPreset) -> (r: bool)
        ensures
            r == (self.rank_of() > other.rank_of()),
    {
        self.rank() > other.rank()
    }
}

/// Every preset is found again under its own name, and no two share one.
pub proof fn preset_labels_are_distinct(a: PermissionPreset, b: PermissionPreset)
    ensures
        a.label_text() == b.label_text() ==> a == b,
        PermissionPreset::named(a.label_text()) == Some(a),
{
    reveal_strlit("read-only");
    reveal_strlit("sandboxed-strict");
    reveal_strlit("sandboxed-ask");
    reveal_strlit("sandboxed-retry");
    reveal_strlit("unsandboxed");
    assert(a.label_text().len() != b.label_text().len() || a == b);
}

/// Putting a preset into effect and reading it back gives the same preset,
/// whatever policy was in effect before.
pub proof fn preset_survives_mode_and_policy(p: PermissionPreset, before: ApprovalPolicy)
    ensures
        PermissionPreset::of(
            p.mode_of(),
            match p.policy_of() {
                Some(policy) => policy,
                None => before,
            },
        ) == p,
{
}

/// The model that answers and how it is asked.
pub struct ModelConfig {
    pub model: String,
    pub max_tokens: u32,
    pub reasoning_effort: ReasoningEffort,
}

impl ModelConfig {
    pub fn new(model: String, max_tokens: u32, reasoning_effort: ReasoningEffort) -> (r: Self)
        ensures
            r.model@ == model@,
            r.max_tokens == max_tokens,
            r.reasoning_effort == reasoning_effort,
    {
        ModelConfig { model, max_tokens, reasoning_effort }
    }

    pub fn set_reasoning_effort(&mut self, effort: ReasoningEffort)
        ensures
            *final(self) == (ModelConfig { reasoning_effort: effort, ..*old(self) }),
    {
        self.reasoning_effort = effort;
    }
}

pub const READONLY_MODE_MESSAGE: &'static str =
    "[Permissions: read-only] Only tools that change nothing are available. Describe changes instead of making them.";

pub const SANDBOX_OFF_MESSAGE: &'static str =
    "[Permissions: unsandboxed] Shell commands run without confinement, under the tier rules alone.";

pub const SANDBOX_STRICT_MESSAGE: &'static str =
    "[Permissions: sandboxed-strict] Shell commands run in a sandbox. A command that the sandbox stops fails.";

pub const SANDBOX_ASK_MESSAGE: &'static str =
    "[Permissions: sandboxed-ask] Shell commands run in a sandbox. The user is asked before a command that the sandbox stops runs without it.";

pub const SANDBOX_RETRY_MESSAGE: &'static str =
    "[Permissions: sandboxed-retry] Shell commands run in a sandbox. A command that the sandbox stops runs again without it.";

/// What the assistant is told about the permissions in effect.
pub open spec fn preamble(mode: SandboxMode, policy: ApprovalPolicy) -> Seq<char> {
    match mode {
        SandboxMode::ReadOnly => READONLY_MODE_MESSAGE@,
        SandboxMode::Unsandboxed => SANDBOX_OFF_MESSAGE@,
        SandboxMode::Sandboxed => match policy {
            ApprovalPolicy::Strict => SANDBOX_STRICT_MESSAGE@,
            ApprovalPolicy::Ask => SANDBOX_ASK_MESSAGE@,
            ApprovalPolicy::Retry => SANDBOX_RETRY_MESSAGE@,
        },
    }
}

/// What the assistant is told about the permissions in effect. The same
/// text is used at start-up, on a switch and after the history is cleared.
pub fn mode_preamble_for(mode: SandboxMode, policy: ApprovalPolicy) -> (r: String)
    ensures
        r@ == preamble(mode, policy),
{
    let s = match mode {
        SandboxMode::ReadOnly => READONLY_MODE_MESSAGE,
        SandboxMode::Unsandboxed => SANDBOX_OFF_MESSAGE,
        SandboxMode::Sandboxed => match policy {
            ApprovalPolicy::Strict => SANDBOX_STRICT_MESSAGE,
            ApprovalPolicy::Ask => SANDBOX_ASK_MESSAGE,
            ApprovalPolicy::Retry => SANDBOX_RETRY_MESSAGE,
        },
    };
    s.to_owned()
}

} // verus!
