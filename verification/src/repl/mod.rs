//! A session as the user drives it: its model, its permissions and its
//! conversation, and the commands that change them.

pub mod compaction;
pub mod menus;
pub mod sessions;
pub mod settings_view_laws;
pub mod turn;
pub mod turn_laws;

use crate::api;
use crate::api::{MessageView, Tool, ToolView};
use crate::config;
use crate::config::{ApprovalPolicy, ModelConfig, PermissionPreset, SandboxMode, SofosConfig};
use crate::conversation::{ConversationHistory, HistoryView};
use crate::model_info;
use crate::model_info::{Model, Provider, ReasoningEffort, ReasoningMode};
use crate::request_builder;
use crate::request_builder::{CreateMessageRequest, RequestBuilder};
use crate::session::model::SessionTokenCounters;
use crate::session::state::{SessionState, StateView};
use crate::text;
use crate::tui::event::{ExitSummary, StatusSnapshot};
use vstd::prelude::*;

verus! {

/// How a session starts.
pub struct ReplConfig {
    pub model: String,
    pub max_tokens: u32,
    pub reasoning_effort: ReasoningEffort,
    pub mode: SandboxMode,
    pub approval_policy: ApprovalPolicy,
}

impl ReplConfig {
    pub fn new(
        model: String,
        max_tokens: u32,
        reasoning_effort: ReasoningEffort,
        mode: SandboxMode,
        approval_policy: ApprovalPolicy,
    ) -> (r: Self)
        ensures
            r.model@ == model@,
            r.max_tokens == max_tokens,
            r.reasoning_effort == reasoning_effort,
            r.mode == mode,
            r.approval_policy == approval_policy,
    {
        ReplConfig { model, max_tokens, reasoning_effort, mode, approval_policy }
    }
}

/// A running session.
pub struct Repl {
    pub client: Provider,
    pub model_config: ModelConfig,
    pub session_state: SessionState,
    pub mode: SandboxMode,
    pub approval_policy: ApprovalPolicy,
    pub available_tools: Vec<Tool>,
    pub reasoning_mode: ReasoningMode,
    /// Shown above the interface when it starts.
    pub startup_banner: String,
    /// What the tool servers said when they started.
    pub mcp_init_lines: String,
}

#[verifier::ext_equal]
pub struct ReplView {
    pub client: Provider,
    pub model: Seq<char>,
    pub max_tokens: u32,
    pub effort: ReasoningEffort,
    pub session: StateView,
    pub mode: SandboxMode,
    pub policy: ApprovalPolicy,
    pub tools: Seq<ToolView>,
    pub thinking: ReasoningMode,
    pub banner: Seq<char>,
    pub mcp_lines: Seq<char>,
}

impl View for Repl {
    type V = ReplView;

    open spec fn view(&self) -> ReplView {
        ReplView {
            client: self.client,
            model: self.model_config.model@,
            max_tokens: self.model_config.max_tokens,
            effort: self.model_config.reasoning_effort,
            session: self.session_state@,
            mode: self.mode,
            policy: self.approval_policy,
            tools: api::tool_views(self.available_tools@),
            thinking: self.reasoning_mode,
            banner: self.startup_banner@,
            mcp_lines: self.mcp_init_lines@,
        }
    }
}

impl ReplView {
    /// The session with another conversation.
    pub open spec fn with_conversation(self, conversation: HistoryView) -> ReplView {
        ReplView { session: StateView { conversation, ..self.session }, ..self }
    }

    /// The session with one more message of the user.
    pub open spec fn with_note(self, note: Seq<char>) -> ReplView {
        self.with_conversation(self.session.conversation.added(MessageView::user(note)))
    }

    /// Whether the model picks its own thinking budget.
    pub open spec fn adaptive(self) -> bool {
        self.client == Provider::Anthropic && model_info::model_of(self.model).adaptive_thinking
    }

    /// How hard the model is asked to think, for the status line.
    pub open spec fn reasoning_label(self) -> Seq<char> {
        if self.adaptive() {
            "effort: "@ + model_info::adaptive_effort(self.effort)
        } else if self.client == Provider::Anthropic {
            if self.effort != ReasoningEffort::Off {
                "thinking: "@ + text::decimal_of(model_info::thinking_budget(self.effort) as nat)
                    + " tok"@
            } else {
                "thinking: off"@
            }
        } else {
            "effort: "@ + self.effort.label_text()
        }
    }

    /// How hard the model is asked to think, as a sentence.
    pub open spec fn reasoning_state(self) -> Seq<char> {
        if self.adaptive() {
            "Adaptive thinking effort: "@ + model_info::adaptive_effort(self.effort)
        } else if self.client == Provider::Anthropic {
            if self.effort != ReasoningEffort::Off {
                "Extended thinking: enabled (budget: "@ + text::decimal_of(
                    model_info::thinking_budget(self.effort) as nat,
                ) + " tokens)"@
            } else {
                "Extended thinking: disabled"@
            }
        } else {
            "Reasoning effort: "@ + self.effort.label_text()
        }
    }

    /// Why an effort is refused, if it is.
    pub open spec fn effort_error(self, effort: ReasoningEffort) -> Option<Seq<char>> {
        if !model_info::model_of(self.model).accepts(effort) {
            Some(model_info::unsupported_effort_text(self.model, effort))
        } else if self.client == Provider::Anthropic && !self.adaptive() && effort
            != ReasoningEffort::Off && self.max_tokens <= model_info::LEGACY_THINKING_BUDGET_HIGH {
            Some(
                "Cannot enable extended thinking on the legacy budget — max_tokens ("@
                    + text::decimal_of(self.max_tokens as nat) + ") must exceed "@
                    + text::decimal_of(model_info::LEGACY_THINKING_BUDGET_HIGH as nat)
                    + ". Relaunch with a higher --max-tokens or pick a lower effort."@,
            )
        } else {
            None
        }
    }

    /// Why a mode of reasoning is refused, if it is.
    pub open spec fn mode_error(self, mode: ReasoningMode) -> Option<Seq<char>> {
        if mode == ReasoningMode::Pro && !model_info::model_of(self.model).pro_mode {
            Some("Model `"@ + self.model + "` has no pro mode."@)
        } else {
            None
        }
    }

    /// The session with the limits of a model.
    pub open spec fn on_model(self, m: Model) -> ReplView {
        ReplView { model: m.name@, ..self.with_conversation(limits_of(self.session.conversation, m)) }
    }

    /// What comes of switching to the model of the given name.
    pub open spec fn model_switch(self, name: Seq<char>) -> (ReplView, ModelSwitchView) {
        match model_info::find(model_info::registry(), name) {
            None => (
                self,
                ModelSwitchView::Refused { why: model_info::unsupported_model_text(name) },
            ),
            Some(m) => if m.name@ == self.model {
                (self, ModelSwitchView::AlreadyActive { name: m.name@ })
            } else if m.provider != model_info::model_of(self.model).provider {
                (
                    self,
                    ModelSwitchView::Refused {
                        why: other_provider_text(m, model_info::model_of(self.model).provider),
                    },
                )
            } else if !m.accepts(self.effort) {
                (
                    self,
                    ModelSwitchView::Refused {
                        why: model_info::unsupported_effort_text(m.name@, self.effort)
                            + " Run `/effort <level>` to pick a supported level before switching."@,
                    },
                )
            } else {
                (self.on_model(m), ModelSwitchView::Switched { name: m.name@ })
            },
        }
    }

    /// The session under a preset.
    pub open spec fn under(self, preset: PermissionPreset) -> ReplView {
        ReplView {
            mode: preset.mode_of(),
            policy: match preset.policy_of() {
                Some(p) => p,
                None => self.policy,
            },
            ..self
        }
    }

    pub open spec fn preset(self) -> PermissionPreset {
        PermissionPreset::of(self.mode, self.policy)
    }

    /// What comes of asking for a preset.
    pub open spec fn preset_switch(self, preset: PermissionPreset, available: bool) -> (
        ReplView,
        PresetSwitchView,
    ) {
        if !preset.runs(available) {
            (
                self,
                PresetSwitchView::Unavailable {
                    why: preset.label_text()
                        + " is unavailable here: this platform has no operating-system sandbox. Staying in "@
                        + self.preset().label_text() + "."@,
                },
            )
        } else if self.under(preset).mode == self.mode && self.under(preset).policy == self.policy {
            (
                self,
                PresetSwitchView::AlreadySet { notice: "Already set to "@ + preset.label_text() },
            )
        } else {
            let next = self.under(preset);
            (
                next.with_note(config::preamble(next.mode, next.policy)),
                PresetSwitchView::Applied {
                    notice: preset_notice(preset),
                    mode_changed: next.mode != self.mode,
                },
            )
        }
    }
}

/// A history with the limits of a model.
pub open spec fn limits_of(h: HistoryView, m: Model) -> HistoryView {
    HistoryView {
        config: SofosConfig {
            max_context_tokens: m.context_window as usize,
            auto_compact_token_limit: m.compact_at() as usize,
            ..h.config
        },
        ..h
    }
}

pub open spec fn other_provider_text(m: Model, current: Provider) -> Seq<char> {
    "Cannot switch to `"@ + m.name@ + "` ("@ + m.provider.label_text() + ") from the current "@
        + current.label_text() + " session. Re-launch with `--model "@ + m.name@ + "` to use it."@
}

pub open spec fn preset_notice(preset: PermissionPreset) -> Seq<char> {
    "Permissions: "@ + preset.label_text() + " — "@ + preset.description_text()
}

/// What came of switching to a model.
#[derive(Debug)]
pub enum ModelSwitch {
    Refused(String),
    AlreadyActive(String),
    Switched(String),
}

#[verifier::ext_equal]
pub enum ModelSwitchView {
    Refused { why: Seq<char> },
    AlreadyActive { name: Seq<char> },
    Switched { name: Seq<char> },
}

impl View for ModelSwitch {
    type V = ModelSwitchView;

    open spec fn view(&self) -> ModelSwitchView {
        match *self {
            ModelSwitch::Refused(s) => ModelSwitchView::Refused { why: s@ },
            ModelSwitch::AlreadyActive(s) => ModelSwitchView::AlreadyActive { name: s@ },
            ModelSwitch::Switched(s) => ModelSwitchView::Switched { name: s@ },
        }
    }
}

/// What came of asking for a preset.
#[derive(Debug)]
pub enum PresetSwitch {
    Unavailable(String),
    AlreadySet(String),
    Applied { notice: String, mode_changed: bool },
}

#[verifier::ext_equal]
#[allow(inconsistent_fields)]
pub enum PresetSwitchView {
    Unavailable { why: Seq<char> },
    AlreadySet { notice: Seq<char> },
    Applied { notice: Seq<char>, mode_changed: bool },
}

impl View for PresetSwitch {
    type V = PresetSwitchView;

    open spec fn view(&self) -> PresetSwitchView {
        match *self {
            PresetSwitch::Unavailable(s) => PresetSwitchView::Unavailable { why: s@ },
            PresetSwitch::AlreadySet(s) => PresetSwitchView::AlreadySet { notice: s@ },
            PresetSwitch::Applied { notice, mode_changed } => PresetSwitchView::Applied {
                notice: notice@,
                mode_changed,
            },
        }
    }
}

/// What the user is told when a preset takes effect.
pub fn permission_preset_notice(preset: PermissionPreset) -> (r: String)
    ensures
        r@ == preset_notice(preset),
{
    let mut s = "Permissions: ".to_owned();
    s.append(preset.label());
    s.append(" — ");
    s.append(preset.description());
    s
}

/// A bullet before tool servers that are hidden: yellow where there is color.
pub open spec fn hidden_mark(color: bool) -> Seq<char> {
    if color {
        "\u{1b}[93m•\u{1b}[0m"@
    } else {
        "•"@
    }
}

/// A bullet before tool servers that are kept: green where there is color.
pub open spec fn kept_mark(color: bool) -> Seq<char> {
    if color {
        "\u{1b}[92m•\u{1b}[0m"@
    } else {
        "•"@
    }
}

/// What is said of the tool servers in read-only mode.
pub open spec fn readonly_summary(
    excluded: Seq<Seq<char>>,
    included: Seq<Seq<char>>,
    color: bool,
) -> Seq<char> {
    let hidden = if excluded.len() > 0 {
        "  "@ + hidden_mark(color) + " Read-only mode hides MCP servers: "@ + text::joined(
            excluded,
            ", "@,
        ) + "\n"@
            + "    Set `readonly = \"read_only\"` on a server to make its tools available.\n"@
    } else {
        Seq::empty()
    };
    let allowed = if included.len() > 0 {
        "  "@ + kept_mark(color) + " Read-only mode allows MCP servers: "@ + text::joined(
            included,
            ", "@,
        ) + "\n"@
    } else {
        Seq::empty()
    };
    hidden + allowed
}

/// What is said of the tool servers in read-only mode: which ones are
/// hidden and which are not, with or without color.
pub fn format_mcp_readonly_summary(
    excluded: &Vec<String>,
    included: &Vec<String>,
    color: bool,
) -> (r: String)
    ensures
        r@ == readonly_summary(text::views(excluded@), text::views(included@), color),
{
    let mut out = String::new();
    if excluded.len() > 0 {
        out.append("  ");
        out.append(
            if color {
                "\u{1b}[93m•\u{1b}[0m"
            } else {
                "•"
            },
        );
        out.append(" Read-only mode hides MCP servers: ");
        out.append(text::join(excluded, ", ").as_str());
        out.append("\n");
        out.append(
            "    Set `readonly = \"read_only\"` on a server to make its tools available.\n",
        );
    }
    if included.len() > 0 {
        out.append("  ");
        out.append(
            if color {
                "\u{1b}[92m•\u{1b}[0m"
            } else {
                "•"
            },
        );
        out.append(" Read-only mode allows MCP servers: ");
        out.append(text::join(included, ", ").as_str());
        out.append("\n");
    }
    assert(out@ =~= readonly_summary(text::views(excluded@), text::views(included@), color));
    out
}

/// Why a session cannot start as configured, if it cannot.
pub open spec fn startup_error(
    model: Seq<char>,
    max_tokens: u32,
    effort: ReasoningEffort,
) -> Option<Seq<char>> {
    if effort != ReasoningEffort::Off && max_tokens <= model_info::LEGACY_THINKING_BUDGET_HIGH {
        Some(
            "max_tokens ("@ + text::decimal_of(max_tokens as nat)
                + ") must exceed the legacy thinking-budget ceiling ("@ + text::decimal_of(
                model_info::LEGACY_THINKING_BUDGET_HIGH as nat,
            ) + "). Use a higher --max-tokens or set --reasoning-effort off."@,
        )
    } else if !model_info::model_of(model).accepts(effort) {
        Some(model_info::unsupported_effort_text(model, effort))
    } else {
        None
    }
}

/// What a tool set-up contributes to a session.
pub struct ToolSetup {
    pub has_morph: bool,
    pub has_code_search: bool,
    /// What the tool servers said when they started.
    pub mcp_init_lines: String,
    /// The tool servers that read-only mode hides.
    pub excluded_from_readonly: Vec<String>,
    /// The tool servers that read-only mode keeps.
    pub included_in_readonly: Vec<String>,
    /// Whether what is said of the tool servers is colored.
    pub color: bool,
    pub available_tools: Vec<Tool>,
}

impl Repl {
    /// Starts a session, unless the configuration asks for an effort that
    /// the model or the token limit does not allow. The conversation starts
    /// with a note of the permissions in effect.
    pub fn new(
        client: Provider,
        config: ReplConfig,
        setup: ToolSetup,
        custom_instructions: Option<String>,
        session_id: String,
    ) -> (r: Result<Repl, String>)
        ensures
            match r {
                Err(e) => startup_error(config.model@, config.max_tokens, config.reasoning_effort)
                    == Some(e@),
                Ok(repl) => startup_error(
                    config.model@,
                    config.max_tokens,
                    config.reasoning_effort,
                ) is None && repl@ == (ReplView {
                    client,
                    model: config.model@,
                    max_tokens: config.max_tokens,
                    effort: config.reasoning_effort,
                    session: StateView {
                        session_id: session_id@,
                        conversation: limits_of(
                            HistoryView::fresh(
                                setup.has_morph,
                                setup.has_code_search,
                                api::option_view(custom_instructions),
                            ),
                            model_info::model_of(config.model@),
                        ).added(
                            MessageView::user(
                                config::preamble(config.mode, config.approval_policy),
                            ),
                        ),
                        display_messages: Seq::empty(),
                        counters: SessionTokenCounters::zero(),
                    },
                    mode: config.mode,
                    policy: config.approval_policy,
                    tools: api::tool_views(setup.available_tools@),
                    thinking: ReasoningMode::Standard,
                    banner: Seq::empty(),
                    mcp_lines: setup.mcp_init_lines@ + (if config.mode == SandboxMode::ReadOnly {
                        readonly_summary(
                            text::views(setup.excluded_from_readonly@),
                            text::views(setup.included_in_readonly@),
                            setup.color,
                        )
                    } else {
                        Seq::empty()
                    }),
                }),
            },
    {
        if config.reasoning_effort.is_enabled() && config.max_tokens
            <= model_info::LEGACY_THINKING_BUDGET_HIGH {
            let mut s = "max_tokens (".to_owned();
            s.append(text::decimal(config.max_tokens as u128).as_str());
            s.append(") must exceed the legacy thinking-budget ceiling (");
            s.append(text::decimal(model_info::LEGACY_THINKING_BUDGET_HIGH as u128).as_str());
            s.append("). Use a higher --max-tokens or set --reasoning-effort off.");
            return Err(s);
        }
        if let Some(msg) = model_info::effort_support_error(
            config.model.as_str(),
            config.reasoning_effort,
        ) {
            return Err(msg);
        }
        let mut conversation = ConversationHistory::with_features(
            setup.has_morph,
            setup.has_code_search,
            custom_instructions,
        );
        conversation.set_max_context_tokens(
            model_info::max_context_tokens_for(config.model.as_str()),
        );
        conversation.set_auto_compact_token_limit(
            model_info::auto_compact_token_limit_for(config.model.as_str()),
        );
        conversation.add_user_message(
            config::mode_preamble_for(config.mode, config.approval_policy),
        );
        let mut mcp_init_lines = setup.mcp_init_lines;
        let ghost lines = mcp_init_lines@;
        if config.mode.is_readonly() {
            let note = format_mcp_readonly_summary(
                &setup.excluded_from_readonly,
                &setup.included_in_readonly,
                setup.color,
            );
            mcp_init_lines.append(note.as_str());
        } else {
            assert(lines + Seq::empty() =~= lines);
        }
        let session_state = SessionState::new(session_id, conversation);
        let r = Repl {
            client,
            model_config: ModelConfig::new(
                config.model,
                config.max_tokens,
                config.reasoning_effort,
            ),
            session_state,
            mode: config.mode,
            approval_policy: config.approval_policy,
            available_tools: setup.available_tools,
            reasoning_mode: ReasoningMode::Standard,
            startup_banner: String::new(),
            mcp_init_lines,
        };
        assert(r@.banner =~= Seq::empty());
        Ok(r)
    }

    /// Sets what is shown above the interface when it starts.
    pub fn set_startup_banner(&mut self, text: String)
        ensures
            final(self)@ == (ReplView { banner: text@, ..old(self)@ }),
    {
        self.startup_banner = text;
    }

    /// Takes what is shown above the interface when it starts.
    pub fn take_startup_banner(&mut self) -> (r: String)
        ensures
            r@ == old(self)@.banner,
            final(self)@ == (ReplView { banner: Seq::empty(), ..old(self)@ }),
    {
        let r = self.startup_banner.clone();
        self.startup_banner = String::new();
        assert(self@.banner =~= Seq::empty());
        r
    }

    /// Takes what the tool servers said when they started.
    pub fn take_mcp_init_lines(&mut self) -> (r: String)
        ensures
            r@ == old(self)@.mcp_lines,
            final(self)@ == (ReplView { mcp_lines: Seq::empty(), ..old(self)@ }),
    {
        let r = self.mcp_init_lines.clone();
        self.mcp_init_lines = String::new();
        assert(self@.mcp_lines =~= Seq::empty());
        r
    }

    /// The model in use.
    pub fn model_label(&self) -> (r: String)
        ensures
            r@ == self@.model,
    {
        self.model_config.model.clone()
    }

    /// The effort in use.
    pub fn current_reasoning_effort(&self) -> (r: ReasoningEffort)
        ensures
            r == self@.effort,
    {
        self.model_config.reasoning_effort
    }

    /// The mode of reasoning in use.
    pub fn current_reasoning_mode(&self) -> (r: ReasoningMode)
        ensures
            r == self@.thinking,
    {
        self.reasoning_mode
    }

    /// Whether the model picks its own thinking budget.
    pub fn uses_adaptive_thinking(&self) -> (r: bool)
        ensures
            r == self@.adaptive(),
    {
        matches!(self.client, Provider::Anthropic) && model_info::requires_adaptive_thinking(
            self.model_config.model.as_str(),
        )
    }

    /// What the status line shows.
    pub fn status_snapshot(&self) -> (r: StatusSnapshot)
        ensures
            r.model@ == self@.model,
            r.mode == self@.mode,
            r.approval == self@.policy,
            r.reasoning@ == self@.reasoning_label(),
            r.input_tokens == self@.session.counters.total_input_tokens,
            r.output_tokens == self@.session.counters.total_output_tokens,
            r.cache_read_tokens == self@.session.counters.total_cache_read_tokens,
            r.cache_creation_tokens == self@.session.counters.total_cache_creation_tokens,
    {
        let effort = self.model_config.reasoning_effort;
        let reasoning = if self.uses_adaptive_thinking() {
            let mut s = "effort: ".to_owned();
            s.append(model_info::effort_label(effort));
            s
        } else if matches!(self.client, Provider::Anthropic) {
            if effort.is_enabled() {
                let budget = model_info::legacy_thinking_budget(effort);
                let mut s = "thinking: ".to_owned();
                s.append(text::decimal(budget as u128).as_str());
                s.append(" tok");
                s
            } else {
                "thinking: off".to_owned()
            }
        } else {
            let mut s = "effort: ".to_owned();
            s.append(effort.as_label());
            s
        };
        let counters = self.session_state.counters;
        StatusSnapshot {
            model: self.model_config.model.clone(),
            mode: self.mode,
            approval: self.approval_policy,
            reasoning,
            input_tokens: counters.total_input_tokens,
            output_tokens: counters.total_output_tokens,
            cache_read_tokens: counters.total_cache_read_tokens,
            cache_creation_tokens: counters.total_cache_creation_tokens,
        }
    }

    /// The request that starts a turn.
    pub fn build_initial_request(&self) -> (r: CreateMessageRequest)
        ensures
            r@ == request_builder::request_for(
                self@.client,
                self@.model,
                self@.max_tokens,
                self@.session.conversation,
                self@.tools,
                self@.effort,
                self@.session.session_id,
            ),
    {
        RequestBuilder::new(
            self.client,
            self.model_config.model.as_str(),
            self.model_config.max_tokens,
            &self.session_state.conversation,
            api::clone_tools(&self.available_tools),
            self.model_config.reasoning_effort,
            self.session_state.session_id.as_str(),
        ).build()
    }

    /// The sign before a prompt, by access mode.
    pub fn prompt_symbol(&self) -> (r: &'static str)
        ensures
            r@ == (match self@.mode {
                SandboxMode::ReadOnly => ":"@,
                SandboxMode::Sandboxed => ">"@,
                SandboxMode::Unsandboxed => "#"@,
            }),
    {
        match self.mode {
            SandboxMode::ReadOnly => ":",
            SandboxMode::Sandboxed => ">",
            SandboxMode::Unsandboxed => "#",
        }
    }

    /// What is shown of the session when it ends.
    pub fn get_session_summary(&self) -> (r: ExitSummary)
        ensures
            r.model@ == self@.model,
            r.counters == self@.session.counters,
            !r.panicked,
    {
        ExitSummary {
            model: self.model_config.model.clone(),
            counters: self.session_state.counters,
            panicked: false,
        }
    }

    /// Starts over under a new name. The permissions stay in effect, so the
    /// new conversation starts with a note of them.
    pub fn handle_clear_command(&mut self, new_session_id: String)
        ensures
            final(self)@ == (ReplView {
                session: StateView {
                    session_id: new_session_id@,
                    conversation: HistoryView {
                        messages: Seq::empty(),
                        anchor: None,
                        ..old(self)@.session.conversation
                    },
                    display_messages: Seq::empty(),
                    counters: SessionTokenCounters::zero(),
                },
                ..old(self)@
            }).with_note(config::preamble(old(self)@.mode, old(self)@.policy)).with_note(
                "The session history has been cleared"@,
            ),
    {
        self.session_state.clear(new_session_id);
        self.session_state.conversation.add_user_message(
            config::mode_preamble_for(self.mode, self.approval_policy),
        );
        self.session_state.conversation.add_user_message(
            "The session history has been cleared".to_owned(),
        );
    }

    fn reasoning_state_text(&self) -> (r: String)
        ensures
            r@ == self@.reasoning_state(),
    {
        let effort = self.model_config.reasoning_effort;
        if self.uses_adaptive_thinking() {
            let mut s = "Adaptive thinking effort: ".to_owned();
            s.append(model_info::effort_label(effort));
            s
        } else if matches!(self.client, Provider::Anthropic) {
            if effort.is_enabled() {
                let budget = model_info::legacy_thinking_budget(effort);
                let mut s = "Extended thinking: enabled (budget: ".to_owned();
                s.append(text::decimal(budget as u128).as_str());
                s.append(" tokens)");
                s
            } else {
                "Extended thinking: disabled".to_owned()
            }
        } else {
            let mut s = "Reasoning effort: ".to_owned();
            s.append(effort.as_label());
            s
        }
    }

    /// Asks the model to think harder or less hard, where it and the token
    /// limit allow that, and says what is in effect.
    pub fn handle_effort_set(&mut self, effort: ReasoningEffort) -> (r: Result<String, String>)
        ensures
            match r {
                Err(e) => old(self)@.effort_error(effort) == Some(e@) && final(self)@ == old(
                    self,
                )@,
                Ok(s) => old(self)@.effort_error(effort) is None && final(self)@ == (ReplView {
                    effort,
                    ..old(self)@
                }) && s@ == final(self)@.reasoning_state(),
            },
    {
        if let Some(msg) = model_info::effort_support_error(
            self.model_config.model.as_str(),
            effort,
        ) {
            return Err(msg);
        }
        if matches!(self.client, Provider::Anthropic) && !self.uses_adaptive_thinking()
            && effort.is_enabled() && self.model_config.max_tokens
            <= model_info::LEGACY_THINKING_BUDGET_HIGH {
            let mut s =
                "Cannot enable extended thinking on the legacy budget — max_tokens (".to_owned();
            s.append(text::decimal(self.model_config.max_tokens as u128).as_str());
            s.append(") must exceed ");
            s.append(text::decimal(model_info::LEGACY_THINKING_BUDGET_HIGH as u128).as_str());
            s.append(". Relaunch with a higher --max-tokens or pick a lower effort.");
            return Err(s);
        }
        self.model_config.set_reasoning_effort(effort);
        Ok(self.reasoning_state_text())
    }

    /// Changes the mode of reasoning, where the model has it, and says what
    /// is in effect.
    pub fn handle_mode_set(&mut self, mode: ReasoningMode) -> (r: Result<String, String>)
        ensures
            match r {
                Err(e) => old(self)@.mode_error(mode) == Some(e@) && final(self)@ == old(self)@,
                Ok(s) => old(self)@.mode_error(mode) is None && final(self)@ == (ReplView {
                    thinking: mode,
                    ..old(self)@
                }) && s@ == "Reasoning mode: "@ + mode.label_text(),
            },
    {
        if matches!(mode, ReasoningMode::Pro) && !model_info::supports_pro_mode(
            self.model_config.model.as_str(),
        ) {
            let mut s = "Model `".to_owned();
            s.append(self.model_config.model.as_str());
            s.append("` has no pro mode.");
            return Err(s);
        }
        self.reasoning_mode = mode;
        let mut s = "Reasoning mode: ".to_owned();
        s.append(mode.as_label());
        Ok(s)
    }

    /// Switches to another model of the same provider that accepts the
    /// current effort, and takes over its limits.
    pub fn handle_model_set(&mut self, name: &str) -> (r: ModelSwitch)
        ensures
            (final(self)@, r@) == old(self)@.model_switch(name@),
    {
        let choice = match model_info::canonical_model(name) {
            Some(m) => m,
            None => {
                return match model_info::model_support_error(name) {
                    Some(msg) => ModelSwitch::Refused(msg),
                    None => ModelSwitch::Refused(String::new()),
                };
            },
        };
        if text::same(choice.name, self.model_config.model.as_str()) {
            return ModelSwitch::AlreadyActive(choice.name.to_owned());
        }
        let current_provider = model_info::provider_for(self.model_config.model.as_str());
        if choice.provider != current_provider {
            let mut s = "Cannot switch to `".to_owned();
            s.append(choice.name);
            s.append("` (");
            s.append(choice.provider.label());
            s.append(") from the current ");
            s.append(current_provider.label());
            s.append(" session. Re-launch with `--model ");
            s.append(choice.name);
            s.append("` to use it.");
            return ModelSwitch::Refused(s);
        }
        proof {
            model_info::found_name_is_canonical(name@);
        }
        if let Some(msg) = model_info::effort_support_error(
            choice.name,
            self.model_config.reasoning_effort,
        ) {
            let mut s = msg;
            s.append(" Run `/effort <level>` to pick a supported level before switching.");
            return ModelSwitch::Refused(s);
        }
        self.model_config.model = choice.name.to_owned();
        self.session_state.conversation.set_max_context_tokens(
            model_info::max_context_tokens_for(choice.name),
        );
        self.session_state.conversation.set_auto_compact_token_limit(
            model_info::auto_compact_token_limit_for(choice.name),
        );
        ModelSwitch::Switched(choice.name.to_owned())
    }

    /// Puts a preset into effect where the machine allows it, and tells the
    /// assistant. A change of the policy alone is told as well.
    pub fn apply_permission_preset(
        &mut self,
        preset: PermissionPreset,
        sandbox_available: bool,
    ) -> (r: PresetSwitch)
        ensures
            (final(self)@, r@) == old(self)@.preset_switch(preset, sandbox_available),
    {
        if !preset.is_available(sandbox_available) {
            let current = PermissionPreset::current(self.mode, self.approval_policy);
            let mut s = preset.label().to_owned();
            s.append(
                " is unavailable here: this platform has no operating-system sandbox. Staying in ",
            );
            s.append(current.label());
            s.append(".");
            return PresetSwitch::Unavailable(s);
        }
        let mode = preset.mode();
        let target_policy = preset.escalation();
        let mode_changed = self.mode != mode;
        let policy_changed = match target_policy {
            Some(p) => p != self.approval_policy,
            None => false,
        };
        if !mode_changed && !policy_changed {
            let mut s = "Already set to ".to_owned();
            s.append(preset.label());
            return PresetSwitch::AlreadySet(s);
        }
        self.restore_permission_preset(preset);
        self.session_state.conversation.add_user_message(
            config::mode_preamble_for(self.mode, self.approval_policy),
        );
        PresetSwitch::Applied { notice: permission_preset_notice(preset), mode_changed }
    }

    /// Puts a preset into effect without telling anybody.
    fn restore_permission_preset(&mut self, preset: PermissionPreset)
        ensures
            final(self)@ == old(self)@.under(preset),
    {
        self.mode = preset.mode();
        if let Some(policy) = preset.escalation() {
            self.approval_policy = policy;
        }
    }
}

} // verus!
