use sofos::commands::{command_catalog, known_commands, parse_effort, Command};
use sofos::config::{
    mode_preamble_for, permission_presets, ApprovalPolicy, ModelConfig, PermissionPreset,
    SandboxMode,
};
use sofos::model_info::{
    auto_compact_token_limit_for, canonical_model, effort_label, effort_support_error,
    legacy_thinking_budget, lookup, max_context_tokens_for, model_support_error, pricing_model,
    provider_for, requires_adaptive_thinking, supported_models, supported_models_label,
    supports_pro_mode, Provider, ReasoningEffort, CLAUDE_HAIKU, CLAUDE_OPUS, CLAUDE_SONNET,
    GPT_FLAGSHIP,
};

#[test]
fn a_found_name_is_found_again() {
    for m in supported_models() {
        let shouted = m.name.to_uppercase();
        let found = canonical_model(&shouted).expect("names ignore case");
        assert_eq!(found.name, m.name);
        assert_eq!(canonical_model(found.name).unwrap().name, m.name);
    }
    assert!(canonical_model("nothing").is_none());
    assert_eq!(lookup("nothing").name, CLAUDE_SONNET);
}

#[test]
fn models_have_their_limits() {
    assert_eq!(provider_for(GPT_FLAGSHIP), Provider::OpenAI);
    assert_eq!(provider_for(CLAUDE_OPUS), Provider::Anthropic);
    assert!(requires_adaptive_thinking(CLAUDE_OPUS));
    assert!(!requires_adaptive_thinking(CLAUDE_HAIKU));
    assert!(supports_pro_mode(GPT_FLAGSHIP));
    assert_eq!(max_context_tokens_for(CLAUDE_HAIKU), 200_000);
    for m in supported_models() {
        assert!(auto_compact_token_limit_for(m.name) < max_context_tokens_for(m.name));
        if m.supports_server_compaction {
            assert!(m.auto_compact_at() >= 50_000);
        }
    }
}

#[test]
fn unlisted_models_are_priced_as_configured() {
    assert_eq!(pricing_model(CLAUDE_HAIKU, CLAUDE_OPUS), CLAUDE_HAIKU);
    assert_eq!(pricing_model("some-unlisted-model", CLAUDE_OPUS), CLAUDE_OPUS);
}

#[test]
fn a_budget_grows_with_the_effort() {
    let low = legacy_thinking_budget(ReasoningEffort::Low);
    let medium = legacy_thinking_budget(ReasoningEffort::Medium);
    let high = legacy_thinking_budget(ReasoningEffort::High);
    assert!(low < medium && medium < high);
}

#[test]
fn models_accept_the_efforts_they_list() {
    for m in supported_models() {
        let listed = m.supported_efforts();
        for e in [
            ReasoningEffort::Off,
            ReasoningEffort::Low,
            ReasoningEffort::Medium,
            ReasoningEffort::High,
            ReasoningEffort::XHigh,
            ReasoningEffort::Max,
        ] {
            assert_eq!(effort_support_error(m.name, e).is_none(), listed.contains(&e));
        }
    }
    let refused = effort_support_error(CLAUDE_HAIKU, ReasoningEffort::Max).unwrap();
    assert!(refused.contains(CLAUDE_HAIKU) && refused.contains("high"));
}

#[test]
fn unknown_models_are_refused_with_a_list() {
    assert!(model_support_error(CLAUDE_OPUS).is_none());
    let refused = model_support_error("nothing").unwrap();
    assert_eq!(
        refused,
        format!(
            "Model `nothing` is not supported. Supported models: {}.",
            supported_models_label()
        )
    );
}

#[test]
fn efforts_are_read_back_from_their_labels() {
    for e in [
        ReasoningEffort::Off,
        ReasoningEffort::Low,
        ReasoningEffort::Medium,
        ReasoningEffort::High,
        ReasoningEffort::XHigh,
        ReasoningEffort::Max,
    ] {
        assert_eq!(parse_effort(e.as_label()), Some(e));
        assert_eq!(e.is_enabled(), e != ReasoningEffort::Off);
    }
    assert_eq!(parse_effort("extreme"), None);
    assert!(!effort_label(ReasoningEffort::Off).is_empty());
}

#[test]
fn presets_are_read_back_from_their_labels() {
    for p in permission_presets() {
        assert_eq!(PermissionPreset::parse(p.label()), Some(p));
        assert!(!p.description().is_empty());
        let policy = p.escalation().unwrap_or(ApprovalPolicy::Strict);
        assert_eq!(PermissionPreset::current(p.mode(), policy), p);
    }
    assert_eq!(PermissionPreset::parse("bogus"), None);
}

#[test]
fn only_sandboxed_presets_need_a_sandbox() {
    for p in permission_presets() {
        assert!(p.is_available(true));
        assert_eq!(p.is_available(false), p.mode() != SandboxMode::Sandboxed);
        assert!(!p.is_more_permissive_than(p));
        if p != PermissionPreset::ReadOnly {
            assert!(p.is_more_permissive_than(PermissionPreset::ReadOnly));
        }
    }
}

#[test]
fn flags_choose_the_mode() {
    assert_eq!(SandboxMode::from_flags(true, true, true), SandboxMode::ReadOnly);
    assert_eq!(SandboxMode::from_flags(false, true, true), SandboxMode::Unsandboxed);
    assert_eq!(SandboxMode::from_flags(false, false, false), SandboxMode::Unsandboxed);
    assert_eq!(SandboxMode::from_flags(false, false, true), SandboxMode::Sandboxed);
    assert!(SandboxMode::ReadOnly.is_readonly());
    assert_ne!(
        mode_preamble_for(SandboxMode::Sandboxed, ApprovalPolicy::Ask),
        mode_preamble_for(SandboxMode::Sandboxed, ApprovalPolicy::Retry)
    );
}

#[test]
fn model_settings_can_change() {
    let mut c = ModelConfig::new("m".to_string(), 5, ReasoningEffort::Low);
    c.set_reasoning_effort(ReasoningEffort::High);
    assert_eq!(c.reasoning_effort, ReasoningEffort::High);
    assert_eq!(c.max_tokens, 5);
}

#[test]
fn every_listed_command_is_understood() {
    for entry in command_catalog() {
        assert!(Command::from_str(entry.name).is_some(), "{}", entry.name);
        assert!(known_commands().contains(entry.name));
    }
    assert!(Command::from_str("/nothing").is_none());
    assert!(Command::from_str("hello").is_none());
    assert!(matches!(
        Command::from_str("/effort high"),
        Some(Command::EffortSet(ReasoningEffort::High))
    ));
    assert!(matches!(Command::from_str("/model x"), Some(Command::ModelSet(m)) if m == "x"));
}
