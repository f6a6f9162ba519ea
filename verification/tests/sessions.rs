use sofos::config::PermissionPreset;
use sofos::repl::sessions::{preset_to_restore, provider_of};

#[test]
fn provider_of_matches_build_llm_client_routing() {
    for m in sofos::model_info::supported_models() {
        assert_eq!(
            provider_of(m.name),
            m.provider.label(),
            "{} should route to {}",
            m.name,
            m.provider.label()
        );
    }
    assert_eq!(provider_of("unknown-model"), "Anthropic");
}

#[test]
fn preset_to_restore_keeps_a_saved_sandboxed_preset_when_it_can_run() {
    assert_eq!(
        preset_to_restore(
            Some(PermissionPreset::SandboxedStrict.label()),
            Some(false),
            true
        ),
        Some(PermissionPreset::SandboxedStrict)
    );
    assert_eq!(
        preset_to_restore(
            Some(PermissionPreset::SandboxedRetry.label()),
            Some(false),
            true
        ),
        Some(PermissionPreset::SandboxedRetry)
    );
}

#[test]
fn preset_to_restore_coerces_a_sandboxed_preset_where_no_sandbox_runs() {
    assert_eq!(
        preset_to_restore(
            Some(PermissionPreset::SandboxedStrict.label()),
            Some(false),
            false
        ),
        Some(PermissionPreset::Unsandboxed)
    );
    assert_eq!(
        preset_to_restore(Some(PermissionPreset::ReadOnly.label()), None, false),
        Some(PermissionPreset::ReadOnly)
    );
}

#[test]
fn preset_to_restore_falls_back_to_the_legacy_readonly_flag() {
    assert_eq!(
        preset_to_restore(None, Some(true), true),
        Some(PermissionPreset::ReadOnly)
    );
    assert_eq!(
        preset_to_restore(None, Some(false), true),
        Some(PermissionPreset::SandboxedAsk)
    );
    assert_eq!(
        preset_to_restore(None, Some(false), false),
        Some(PermissionPreset::Unsandboxed)
    );
}

#[test]
fn preset_to_restore_keeps_startup_choice_for_pre_persistence_files() {
    assert_eq!(preset_to_restore(None, None, true), None);
    assert_eq!(preset_to_restore(Some("bogus"), None, true), None);
}
