//! The models that can be chosen and what each of them accepts.

use crate::text;
use vstd::prelude::*;

verus! {

/// Who serves a model.
#[derive(Debug, Clone, Copy, PartialEq, Eq, Structural)]
pub enum Provider {
    Anthropic,
    OpenAI,
}

impl Provider {
    pub open spec fn label_text(self) -> Seq<char> {
        match self {
            Provider::Anthropic => "Anthropic"@,
            Provider::OpenAI => "OpenAI"@,
        }
    }

    pub fn label(self) -> (r: &'static str)
        ensures
            r@ == self.label_text(),
    {
        match self {
            Provider::Anthropic => "Anthropic",
            Provider::OpenAI => "OpenAI",
        }
    }
}

/// How a model goes about its reasoning.
#[derive(Debug, Clone, Copy, PartialEq, Eq, Structural)]
pub enum ReasoningMode {
    Standard,
    /// Slower and more thorough.
    Pro,
}

impl ReasoningMode {
    pub open spec fn label_text(self) -> Seq<char> {
        match self {
            ReasoningMode::Standard => "standard"@,
            ReasoningMode::Pro => "pro"@,
        }
    }

    pub fn as_label(self) -> (r: &'static str)
        ensures
            r@ == self.label_text(),
    {
        match self {
            ReasoningMode::Standard => "standard",
            ReasoningMode::Pro => "pro",
        }
    }
}

/// How hard a model is asked to think.
#[derive(Debug, Clone, Copy, PartialEq, Eq, Structural)]
pub enum ReasoningEffort {
    Off,
    Low,
    Medium,
    High,
    XHigh,
    Max,
}

/// All levels, from the lowest to the highest.
pub open spec fn all_efforts() -> Seq<ReasoningEffort> {
    seq![
        ReasoningEffort::Off,
        ReasoningEffort::Low,
        ReasoningEffort::Medium,
        ReasoningEffort::High,
        ReasoningEffort::XHigh,
        ReasoningEffort::Max,
    ]
}

impl ReasoningEffort {
    pub open spec fn level_of(self) -> nat {
        match self {
            ReasoningEffort::Off => 0,
            ReasoningEffort::Low => 1,
            ReasoningEffort::Medium => 2,
            ReasoningEffort::High => 3,
            ReasoningEffort::XHigh => 4,
            ReasoningEffort::Max => 5,
        }
    }

    pub open spec fn label_text(self) -> Seq<char> {
        match self {
            ReasoningEffort::Off => "off"@,
            ReasoningEffort::Low => "low"@,
            ReasoningEffort::Medium => "medium"@,
            ReasoningEffort::High => "high"@,
            ReasoningEffort::XHigh => "xhigh"@,
            ReasoningEffort::Max => "max"@,
        }
    }

    pub fn as_label(self) -> (r: &'static str)
        ensures
            r@ == self.label_text(),
    {
        match self {
            ReasoningEffort::Off => "off",
            ReasoningEffort::Low => "low",
            ReasoningEffort::Medium => "medium",
            ReasoningEffort::High => "high",
            ReasoningEffort::XHigh => "xhigh",
            ReasoningEffort::Max => "max",
        }
    }

    pub fn is_enabled(self) -> (r: bool)
        ensures
            r == (self != ReasoningEffort::Off),
    {
        !matches!(self, ReasoningEffort::Off)
    }

    pub fn level(self) -> (r: u8)
        ensures
            r == self.level_of(),
    {
        match self {
            ReasoningEffort::Off => 0,
            ReasoningEffort::Low => 1,
            ReasoningEffort::Medium => 2,
            ReasoningEffort::High => 3,
            ReasoningEffort::XHigh => 4,
            ReasoningEffort::Max => 5,
        }
    }
}

/// The effort that a model with adaptive thinking is asked for. Such a
/// model cannot be asked not to think: the lowest level stands for that.
pub open spec fn adaptive_effort(effort: ReasoningEffort) -> Seq<char> {
    match effort {
        ReasoningEffort::Off => "low"@,
        _ => effort.label_text(),
    }
}

/// The effort that a model with adaptive thinking is asked for.
pub fn effort_label(effort: ReasoningEffort) -> (r: &'static str)
    ensures
        r@ == adaptive_effort(effort),
{
    match effort {
        ReasoningEffort::Off => "low",
        _ => effort.as_label(),
    }
}

pub const LEGACY_THINKING_BUDGET_LOW: u32 = 1_024;

pub const LEGACY_THINKING_BUDGET_MEDIUM: u32 = 5_120;

pub const LEGACY_THINKING_BUDGET_HIGH: u32 = 16_384;

/// The lowest trigger that the provider accepts for its own compaction.
pub const COMPACTION_TRIGGER_FLOOR: u32 = 50_000;

/// The tokens that a model without adaptive thinking may think for.
pub open spec fn thinking_budget(effort: ReasoningEffort) -> u32 {
    match effort {
        ReasoningEffort::Off => 0,
        ReasoningEffort::Low => LEGACY_THINKING_BUDGET_LOW,
        ReasoningEffort::Medium => LEGACY_THINKING_BUDGET_MEDIUM,
        _ => LEGACY_THINKING_BUDGET_HIGH,
    }
}

/// The tokens that a model without adaptive thinking may think for.
pub fn legacy_thinking_budget(effort: ReasoningEffort) -> (r: u32)
    ensures
        r == thinking_budget(effort),
{
    match effort {
        ReasoningEffort::Off => 0,
        ReasoningEffort::Low => LEGACY_THINKING_BUDGET_LOW,
        ReasoningEffort::Medium => LEGACY_THINKING_BUDGET_MEDIUM,
        _ => LEGACY_THINKING_BUDGET_HIGH,
    }
}

/// Up to the highest tier, more effort means a larger budget; no budget
/// exceeds that of the highest tier.
pub proof fn budget_grows_with_effort(a: ReasoningEffort, b: ReasoningEffort)
    ensures
        a.level_of() < b.level_of() <= 3 ==> thinking_budget(a) < thinking_budget(b),
        thinking_budget(a) <= LEGACY_THINKING_BUDGET_HIGH,
{
}

/// What is known of a model.
#[derive(Debug, Clone, Copy)]
pub struct Model {
    pub name: &'static str,
    pub description: &'static str,
    pub provider: Provider,
    /// The most tokens that a request may hold.
    pub context_window: u32,
    /// The tokens above which a conversation is compacted.
    pub compact_trigger: u32,
    /// Whether the provider compacts conversations itself.
    pub supports_server_compaction: bool,
    /// Whether the model picks its own thinking budget.
    pub adaptive_thinking: bool,
    /// Whether the model has a pro mode.
    pub pro_mode: bool,
    /// The highest effort that the model accepts.
    pub max_effort: ReasoningEffort,
}

pub const CLAUDE_OPUS: &'static str = "opus-4-7";

pub const CLAUDE_SONNET: &'static str = "sonnet-4-6";

pub const CLAUDE_HAIKU: &'static str = "haiku-4-5";

pub const GPT_FLAGSHIP: &'static str = "gpt-5.5";

pub open spec fn sonnet() -> Model {
    Model {
        name: CLAUDE_SONNET,
        description: "balanced, for everyday work",
        provider: Provider::Anthropic,
        context_window: 1_000_000,
        compact_trigger: 200_000,
        supports_server_compaction: true,
        adaptive_thinking: true,
        pro_mode: false,
        max_effort: ReasoningEffort::High,
    }
}

pub open spec fn opus() -> Model {
    Model {
        name: CLAUDE_OPUS,
        description: "most capable, for hard problems",
        provider: Provider::Anthropic,
        context_window: 1_000_000,
        compact_trigger: 200_000,
        supports_server_compaction: true,
        adaptive_thinking: true,
        pro_mode: false,
        max_effort: ReasoningEffort::Max,
    }
}

pub open spec fn haiku() -> Model {
    Model {
        name: CLAUDE_HAIKU,
        description: "fastest, for small tasks",
        provider: Provider::Anthropic,
        context_window: 200_000,
        compact_trigger: 170_000,
        supports_server_compaction: false,
        adaptive_thinking: false,
        pro_mode: false,
        max_effort: ReasoningEffort::High,
    }
}

pub open spec fn gpt_flagship() -> Model {
    Model {
        name: GPT_FLAGSHIP,
        description: "general-purpose flagship",
        provider: Provider::OpenAI,
        context_window: 400_000,
        compact_trigger: 240_000,
        supports_server_compaction: false,
        adaptive_thinking: false,
        pro_mode: true,
        max_effort: ReasoningEffort::XHigh,
    }
}

/// The models that can be chosen. The first is the default.
pub open spec fn registry() -> Seq<Model> {
    seq![sonnet(), opus(), haiku(), gpt_flagship()]
}

fn sonnet_info() -> (r: Model)
    ensures
        r == sonnet(),
{
    Model {
        name: CLAUDE_SONNET,
        description: "balanced, for everyday work",
        provider: Provider::Anthropic,
        context_window: 1_000_000,
        compact_trigger: 200_000,
        supports_server_compaction: true,
        adaptive_thinking: true,
        pro_mode: false,
        max_effort: ReasoningEffort::High,
    }
}

/// The models that can be chosen. The first is the default.
pub fn supported_models() -> (r: Vec<Model>)
    ensures
        r@ == registry(),
{
    let r = vec![
        sonnet_info(),
        Model {
            name: CLAUDE_OPUS,
            description: "most capable, for hard problems",
            provider: Provider::Anthropic,
            context_window: 1_000_000,
            compact_trigger: 200_000,
            supports_server_compaction: true,
            adaptive_thinking: true,
            pro_mode: false,
            max_effort: ReasoningEffort::Max,
        },
        Model {
            name: CLAUDE_HAIKU,
            description: "fastest, for small tasks",
            provider: Provider::Anthropic,
            context_window: 200_000,
            compact_trigger: 170_000,
            supports_server_compaction: false,
            adaptive_thinking: false,
            pro_mode: false,
            max_effort: ReasoningEffort::High,
        },
        Model {
            name: GPT_FLAGSHIP,
            description: "general-purpose flagship",
            provider: Provider::OpenAI,
            context_window: 400_000,
            compact_trigger: 240_000,
            supports_server_compaction: false,
            adaptive_thinking: false,
            pro_mode: true,
            max_effort: ReasoningEffort::XHigh,
        },
    ];
    assert(r@ =~= registry());
    r
}

impl Model {
    /// The tokens above which a conversation is compacted: the model's own
    /// trigger, and never more than nine tenths of its window.
    pub open spec fn compact_at(self) -> u32 {
        let cap = (self.context_window as nat * 9 / 10) as u32;
        if self.compact_trigger < cap {
            self.compact_trigger
        } else {
            cap
        }
    }

    /// The tokens above which a conversation is compacted.
    pub fn auto_compact_at(&self) -> (r: u32)
        ensures
            r == self.compact_at(),
    {
        let cap: u32 = (self.context_window as u64 * 9 / 10) as u32;
        if self.compact_trigger < cap {
            self.compact_trigger
        } else {
            cap
        }
    }

    /// Whether the model accepts an effort.
    pub open spec fn accepts(self, effort: ReasoningEffort) -> bool {
        effort.level_of() <= self.max_effort.level_of()
    }

    /// The levels that the model accepts, from the lowest to the highest.
    pub open spec fn efforts(self) -> Seq<ReasoningEffort> {
        all_efforts().take(self.max_effort.level_of() as int + 1)
    }

    /// The levels that the model accepts, from the lowest to the highest.
    pub fn supported_efforts(&self) -> (r: Vec<ReasoningEffort>)
        ensures
            r@ == self.efforts(),
    {
        let mut r = vec![
            ReasoningEffort::Off,
            ReasoningEffort::Low,
            ReasoningEffort::Medium,
            ReasoningEffort::High,
            ReasoningEffort::XHigh,
            ReasoningEffort::Max,
        ];
        assert(r@ =~= all_efforts());
        r.truncate(self.max_effort.level() as usize + 1);
        r
    }

    /// The levels that the model accepts, as a list.
    fn efforts_label(&self) -> (r: String)
        ensures
            r@ == effort_list(*self),
    {
        let efforts = self.supported_efforts();
        let mut labels: Vec<String> = Vec::new();
        let mut i: usize = 0;
        while i < efforts.len()
            invariant
                efforts@ == self.efforts(),
                i <= efforts@.len(),
                text::views(labels@) =~= effort_labels(self.efforts().take(i as int)),
            decreases efforts@.len() - i,
        {
            let ghost before = labels@;
            labels.push(efforts[i].as_label().to_owned());
            assert(text::views(labels@) =~= text::views(before).push(
                self.efforts()[i as int].label_text(),
            ));
            assert(effort_labels(self.efforts().take(i + 1)) =~= effort_labels(
                self.efforts().take(i as int),
            ).push(self.efforts()[i as int].label_text()));
            i = i + 1;
        }
        assert(self.efforts().take(i as int) =~= self.efforts());
        text::join(&labels, ", ")
    }
}

pub open spec fn effort_labels(v: Seq<ReasoningEffort>) -> Seq<Seq<char>> {
    v.map_values(|e: ReasoningEffort| e.label_text())
}

pub open spec fn effort_list(m: Model) -> Seq<char> {
    text::joined(effort_labels(m.efforts()), ", "@)
}

/// The first model of a list that goes by the given name, in whatever case
/// its letters are.
pub open spec fn find(models: Seq<Model>, name: Seq<char>) -> Option<Model>
    decreases models.len(),
{
    if models.len() == 0 {
        None
    } else if text::same_letters(models[0].name@, name) {
        Some(models[0])
    } else {
        find(models.drop_first(), name)
    }
}

/// The model of that name, or the default where there is none.
pub open spec fn model_of(name: Seq<char>) -> Model {
    match find(registry(), name) {
        Some(m) => m,
        None => sonnet(),
    }
}

/// The model that goes by the given name, in whatever case its letters are.
pub fn canonical_model(name: &str) -> (r: Option<Model>)
    ensures
        r == find(registry(), name@),
{
    let models = supported_models();
    let mut i: usize = 0;
    assert(registry().skip(0) =~= registry());
    while i < models.len()
        invariant
            models@ == registry(),
            i <= models@.len(),
            find(registry(), name@) == find(registry().skip(i as int), name@),
        decreases models@.len() - i,
    {
        assert(registry().skip(i as int).drop_first() =~= registry().skip(i + 1));
        if text::same_ignoring_case(models[i].name, name) {
            return Some(models[i]);
        }
        i = i + 1;
    }
    None
}

/// The model of that name, or the default where there is none.
pub fn lookup(name: &str) -> (r: Model)
    ensures
        r == model_of(name@),
{
    match canonical_model(name) {
        Some(m) => m,
        None => sonnet_info(),
    }
}

/// Who serves the model of that name. One that is not known goes to the
/// default model's provider.
pub fn provider_for(name: &str) -> (r: Provider)
    ensures
        r == model_of(name@).provider,
{
    lookup(name).provider
}

/// Whether the model of that name thinks adaptively.
pub fn requires_adaptive_thinking(name: &str) -> (r: bool)
    ensures
        r == model_of(name@).adaptive_thinking,
{
    lookup(name).adaptive_thinking
}

/// Whether the model of that name has a pro mode.
pub fn supports_pro_mode(name: &str) -> (r: bool)
    ensures
        r == model_of(name@).pro_mode,
{
    lookup(name).pro_mode
}

/// The tokens that a request to the model of that name may hold.
pub fn max_context_tokens_for(name: &str) -> (r: usize)
    ensures
        r == model_of(name@).context_window,
{
    lookup(name).context_window as usize
}

/// The tokens above which a conversation with the model of that name is
/// compacted.
pub fn auto_compact_token_limit_for(name: &str) -> (r: usize)
    ensures
        r == model_of(name@).compact_at(),
{
    lookup(name).auto_compact_at() as usize
}

/// The model that a response is priced as: the one that produced it where
/// that one is known, and the configured one otherwise.
pub open spec fn priced_as(served_by: Seq<char>, configured: Seq<char>) -> Seq<char> {
    if find(registry(), served_by) is Some {
        served_by
    } else {
        configured
    }
}

/// The model that a response is priced as.
pub fn pricing_model(served_by: &str, configured: &str) -> (r: String)
    ensures
        r@ == priced_as(served_by@, configured@),
{
    if canonical_model(served_by).is_some() {
        served_by.to_owned()
    } else {
        configured.to_owned()
    }
}

pub open spec fn model_names(models: Seq<Model>) -> Seq<Seq<char>> {
    models.map_values(|m: Model| m.name@)
}

pub open spec fn supported_list() -> Seq<char> {
    text::joined(model_names(registry()), ", "@)
}

/// The names of the models that can be chosen, as a list.
pub fn supported_models_label() -> (r: String)
    ensures
        r@ == supported_list(),
{
    let models = supported_models();
    let mut names: Vec<String> = Vec::new();
    let mut i: usize = 0;
    while i < models.len()
        invariant
            models@ == registry(),
            i <= models@.len(),
            text::views(names@) =~= model_names(registry().take(i as int)),
        decreases models@.len() - i,
    {
        let ghost before = names@;
        names.push(models[i].name.to_owned());
        assert(text::views(names@) =~= text::views(before).push(registry()[i as int].name@));
        assert(model_names(registry().take(i + 1)) =~= model_names(
            registry().take(i as int),
        ).push(registry()[i as int].name@));
        i = i + 1;
    }
    assert(registry().take(i as int) =~= registry());
    text::join(&names, ", ")
}

pub open spec fn unsupported_model_text(name: Seq<char>) -> Seq<char> {
    "Model `"@ + name + "` is not supported. Supported models: "@ + supported_list() + "."@
}

/// What is said of a name that no model goes by.
pub fn model_support_error(name: &str) -> (r: Option<String>)
    ensures
        match r {
            Some(s) => find(registry(), name@) is None && s@ == unsupported_model_text(name@),
            None => find(registry(), name@) is Some,
        },
{
    if canonical_model(name).is_some() {
        None
    } else {
        let mut s = "Model `".to_owned();
        s.append(name);
        s.append("` is not supported. Supported models: ");
        s.append(supported_models_label().as_str());
        s.append(".");
        Some(s)
    }
}

pub open spec fn unsupported_effort_text(name: Seq<char>, effort: ReasoningEffort) -> Seq<char> {
    "Model `"@ + name + "` does not accept reasoning effort `"@ + effort.label_text()
        + "`. Supported levels: "@ + effort_list(model_of(name)) + "."@
}

/// What is said of an effort that the model of that name does not accept.
pub fn effort_support_error(name: &str, effort: ReasoningEffort) -> (r: Option<String>)
    ensures
        match r {
            Some(s) => !model_of(name@).accepts(effort) && s@ == unsupported_effort_text(
                name@,
                effort,
            ),
            None => model_of(name@).accepts(effort),
        },
{
    let m = lookup(name);
    if effort.level() <= m.max_effort.level() {
        None
    } else {
        let mut s = "Model `".to_owned();
        s.append(name);
        s.append("` does not accept reasoning effort `");
        s.append(effort.as_label());
        s.append("`. Supported levels: ");
        s.append(m.efforts_label().as_str());
        s.append(".");
        Some(s)
    }
}

/// A model accepts exactly the levels that it lists.
pub proof fn accepted_efforts_are_listed(m: Model, effort: ReasoningEffort)
    ensures
        m.accepts(effort) == m.efforts().contains(effort),
{
    let e = m.efforts();
    assert(all_efforts()[effort.level_of() as int] == effort);
    if m.accepts(effort) {
        assert(e[effort.level_of() as int] == effort);
    } else {
        assert forall|i: int| 0 <= i < e.len() implies e[i] != effort by {
            assert(e[i] == all_efforts()[i]);
        }
    }
}

/// The trigger that is sent to a provider that compacts by itself is never
/// below the lowest one that it accepts.
pub proof fn server_triggers_are_accepted(i: int)
    requires
        0 <= i < registry().len(),
    ensures
        registry()[i].supports_server_compaction ==> registry()[i].compact_at()
            >= COMPACTION_TRIGGER_FLOOR,
{
}

/// The name of a model that was found is found again, and leads to the same
/// model.
pub proof fn found_name_is_canonical(name: Seq<char>)
    ensures
        find(registry(), name) is Some ==> model_of(
            find(registry(), name)->0.name@,
        ) == find(registry(), name)->0,
{
    reveal_strlit("sonnet-4-6");
    reveal_strlit("opus-4-7");
    reveal_strlit("haiku-4-5");
    reveal_strlit("gpt-5.5");
    let r = registry();
    reveal_with_fuel(find, 5);
    assert(r.drop_first().drop_first()[0] == r[2]);
    assert(r.drop_first().drop_first().drop_first()[0] == r[3]);
    let a = CLAUDE_SONNET@;
    let b = CLAUDE_OPUS@;
    let c = CLAUDE_HAIKU@;
    let d = GPT_FLAGSHIP@;
    assert(a.len() == 10 && b.len() == 8 && c.len() == 9 && d.len() == 7);
}

} // verus!
