//! Storing the running session and going on with a stored one.

use super::{Repl, ReplView};
use crate::api;
use crate::config;
use crate::config::{ApprovalPolicy, PermissionPreset, SandboxMode};
use crate::conversation::lifecycle;
use crate::conversation::HistoryView;
use crate::model_info;
use crate::session::history::{HistoryManager, SessionError};
use crate::session::history;
use crate::session::model;
use crate::session::model::{Session, SessionView};
use crate::session::state::StateView;
use crate::text;
use vstd::prelude::*;

verus! {

/// The name of the provider that serves a model.
pub fn provider_of(model: &str) -> (r: &'static str)
    ensures
        r@ == model_info::model_of(model@).provider.label_text(),
{
    model_info::provider_for(model).label()
}

/// The preset that holds where nothing else was said.
pub open spec fn host_default(sandbox_available: bool) -> PermissionPreset {
    if sandbox_available {
        PermissionPreset::SandboxedAsk
    } else {
        PermissionPreset::Unsandboxed
    }
}

/// The preset that a stored session goes on with, if it says anything of
/// one.
pub open spec fn restored_preset(
    saved_preset: Option<Seq<char>>,
    saved_readonly: Option<bool>,
    sandbox_available: bool,
) -> Option<PermissionPreset> {
    let named = match saved_preset {
        Some(label) => PermissionPreset::named(label),
        None => None,
    };
    let wanted = match named {
        Some(p) => Some(p),
        None => match saved_readonly {
            Some(true) => Some(PermissionPreset::ReadOnly),
            Some(false) => Some(host_default(sandbox_available)),
            None => None,
        },
    };
    match wanted {
        None => None,
        Some(p) => Some(
            if p.runs(sandbox_available) {
                p
            } else {
                host_default(sandbox_available)
            },
        ),
    }
}

/// The preset that a stored session goes on with: the one that was stored,
/// or what an older file says of read-only mode. One that cannot take effect
/// on this machine gives way to the default here.
pub fn preset_to_restore(
    saved_preset: Option<&str>,
    saved_readonly: Option<bool>,
    sandbox_available: bool,
) -> (r: Option<PermissionPreset>)
    ensures
        r == restored_preset(
            match saved_preset {
                Some(s) => Some(s@),
                None => None,
            },
            saved_readonly,
            sandbox_available,
        ),
{
    let fallback = PermissionPreset::current(
        SandboxMode::from_flags(false, false, sandbox_available),
        ApprovalPolicy::default(),
    );
    let named = match saved_preset {
        Some(label) => PermissionPreset::parse(label),
        None => None,
    };
    let preset = match named {
        Some(p) => p,
        None => match saved_readonly {
            Some(true) => PermissionPreset::ReadOnly,
            Some(false) => fallback,
            None => {
                return None;
            },
        },
    };
    if preset.is_available(sandbox_available) {
        Some(preset)
    } else {
        Some(fallback)
    }
}

/// Whatever a file says, the preset that is restored can take effect on
/// this machine; and one that can is restored as it is.
pub proof fn restored_preset_takes_effect(
    saved_preset: PermissionPreset,
    saved_readonly: Option<bool>,
    sandbox_available: bool,
)
    ensures
        ({
            let r = restored_preset(
                Some(saved_preset.label_text()),
                saved_readonly,
                sandbox_available,
            );
            &&& r is Some
            &&& r->0.runs(sandbox_available)
            &&& saved_preset.runs(sandbox_available) ==> r == Some(saved_preset)
        }),
{
    config::preset_labels_are_distinct(saved_preset, saved_preset);
}

/// What the user is told when a session goes on.
#[derive(Debug)]
pub struct ResumeReport {
    /// That another model answers from now on.
    pub model_note: Option<String>,
    /// That more is permitted than before.
    pub relaxed_note: Option<String>,
    /// What was loaded.
    pub loaded: String,
    /// Whether the access mode is another one than before.
    pub mode_changed: bool,
}

#[verifier::ext_equal]
pub struct ReportView {
    pub model_note: Option<Seq<char>>,
    pub relaxed_note: Option<Seq<char>>,
    pub loaded: Seq<char>,
    pub mode_changed: bool,
}

impl View for ResumeReport {
    type V = ReportView;

    open spec fn view(&self) -> ReportView {
        ReportView {
            model_note: api::option_view(self.model_note),
            relaxed_note: api::option_view(self.relaxed_note),
            loaded: self.loaded@,
            mode_changed: self.mode_changed,
        }
    }
}

/// The model that a session was stored under, if its file says so.
pub open spec fn saved_model(s: SessionView) -> Option<Seq<char>> {
    if s.model is Some && s.model->0.len() > 0 {
        s.model
    } else {
        None
    }
}

/// The proper spelling of a model's name.
pub open spec fn canonical_name(name: Seq<char>) -> Seq<char> {
    match model_info::find(model_info::registry(), name) {
        Some(m) => m.name@,
        None => name,
    }
}

impl ReplView {
    /// Why a stored session cannot go on here, if it cannot.
    pub open spec fn resume_error(self, s: SessionView) -> Option<Seq<char>> {
        match saved_model(s) {
            None => None,
            Some(m) => {
                let saved = model_info::model_of(m).provider;
                if saved != self.client {
                    Some(
                        "Session was saved under model '"@ + m + "' ("@ + saved.label_text()
                            + "), but the current client is "@ + self.client.label_text()
                            + ". Re-launch with `--model "@ + m + "` to resume."@,
                    )
                } else if model_info::find(model_info::registry(), m) is None {
                    Some(
                        "Session was saved under model '"@ + m
                            + "', which is no longer supported. Supported models: "@
                            + model_info::supported_list() + "."@,
                    )
                } else if m != self.model && !model_info::model_of(m).accepts(self.effort) {
                    Some(
                        model_info::unsupported_effort_text(m, self.effort)
                            + " Re-launch with `--reasoning-effort` set to a level the saved model accepts."@,
                    )
                } else {
                    None
                }
            },
        }
    }

    /// The conversation of a stored session, within the limits of this one.
    pub open spec fn resumed_conversation(self, s: SessionView) -> HistoryView {
        let restored = self.session.conversation.restored(s.api_messages);
        if s.system_prompt.len() > 0 {
            HistoryView { system: s.system_prompt, anchor: None, ..restored }
        } else {
            restored
        }
    }

    /// The session with what a stored one holds, apart from permissions.
    pub open spec fn with_session(self, s: SessionView) -> ReplView {
        ReplView {
            session: StateView {
                session_id: s.id,
                conversation: self.resumed_conversation(s),
                display_messages: s.display_messages,
                counters: s.token_counters,
            },
            model: match saved_model(s) {
                Some(m) => canonical_name(m),
                None => self.model,
            },
            ..self
        }
    }

    /// The stored session, going on. Where its preset cannot take effect
    /// here, the assistant is told what holds instead.
    pub open spec fn resumed(self, s: SessionView, available: bool) -> ReplView {
        let base = self.with_session(s);
        match restored_preset(s.permission_preset, s.readonly, available) {
            None => base,
            Some(preset) => {
                let next = base.under(preset);
                let saved = match s.permission_preset {
                    Some(label) => PermissionPreset::named(label),
                    None => None,
                };
                if saved is Some && saved->0.mode_of() != preset.mode_of() {
                    next.with_note(config::preamble(next.mode, next.policy))
                } else {
                    next
                }
            },
        }
    }

    /// What the user is told when the stored session goes on.
    pub open spec fn resume_report(self, s: SessionView, available: bool) -> ReportView {
        let next = self.resumed(s, available);
        ReportView {
            model_note: if next.model != self.model {
                Some(
                    "Note: session was saved under model '"@ + next.model
                        + "'; continuing with that instead of '"@ + self.model + "'"@,
                )
            } else {
                None
            },
            relaxed_note: if next.preset().rank_of() > self.preset().rank_of() {
                Some(
                    "Note: resuming this session relaxed permissions from "@
                        + self.preset().label_text() + " to "@ + next.preset().label_text()
                        + ". Commands now run with fewer restrictions; use /permissions to change it."@,
                )
            } else {
                None
            },
            loaded: "Loaded session: "@ + s.id + " ("@ + text::decimal_of(s.api_messages.len())
                + " messages)"@,
            mode_changed: next.mode != self.mode,
        }
    }
}

impl Repl {
    /// The session as it is stored, given when it was first stored. There is
    /// nothing to store of a conversation without messages.
    pub fn save_current_session(&self, saved_before: Option<u64>, now: u64) -> (r: Option<
        Result<Session, SessionError>,
    >)
        ensures
            (r is None) == (self@.session.conversation.messages.len() == 0),
            r is Some ==> match r->0 {
                Ok(s) => history::valid_id(self@.session.session_id) && s@ == (SessionView {
                    id: self@.session.session_id,
                    api_messages: self@.session.conversation.messages,
                    display_messages: self@.session.display_messages,
                    system_prompt: self@.session.conversation.system,
                    created_at: match saved_before {
                        Some(t) => t,
                        None => now,
                    },
                    updated_at: now,
                    token_counters: self@.session.counters,
                    model: Some(self@.model),
                    readonly: Some(self@.mode == SandboxMode::ReadOnly),
                    permission_preset: Some(self@.preset().label_text()),
                }),
                Err(e) => !history::valid_id(self@.session.session_id) && e is InvalidId
                    && e->InvalidId_0@ == self@.session.session_id,
            },
    {
        if self.session_state.conversation.messages().len() == 0 {
            return None;
        }
        let preset = PermissionPreset::current(self.mode, self.approval_policy);
        Some(
            HistoryManager::build_session(
                self.session_state.session_id.as_str(),
                self.session_state.conversation.messages(),
                &self.session_state.display_messages,
                self.session_state.conversation.system_prompt(),
                self.session_state.counters,
                self.model_config.model.as_str(),
                self.mode.is_readonly(),
                Some(preset.label().to_owned()),
                saved_before,
                now,
            ),
        )
    }

    fn resume_refusal(&self, saved_model: &str) -> (r: Option<String>)
        requires
            saved_model@.len() > 0,
        ensures
            forall|s: SessionView|
                s.model == Some(saved_model@) ==> #[trigger] self@.resume_error(s)
                    == api::option_view(r),
    {
        let saved_provider = model_info::provider_for(saved_model);
        if saved_provider != self.client {
            let mut s = "Session was saved under model '".to_owned();
            s.append(saved_model);
            s.append("' (");
            s.append(provider_of(saved_model));
            s.append("), but the current client is ");
            s.append(self.client.label());
            s.append(". Re-launch with `--model ");
            s.append(saved_model);
            s.append("` to resume.");
            return Some(s);
        }
        if model_info::canonical_model(saved_model).is_none() {
            let mut s = "Session was saved under model '".to_owned();
            s.append(saved_model);
            s.append("', which is no longer supported. Supported models: ");
            s.append(model_info::supported_models_label().as_str());
            s.append(".");
            return Some(s);
        }
        if !text::same(saved_model, self.model_config.model.as_str()) {
            if let Some(msg) = model_info::effort_support_error(
                saved_model,
                self.model_config.reasoning_effort,
            ) {
                let mut s = msg;
                s.append(
                    " Re-launch with `--reasoning-effort` set to a level the saved model accepts.",
                );
                return Some(s);
            }
        }
        None
    }

    /// Goes on with a stored session. One that was held with another
    /// provider, with a model that is no longer known, or with one that does
    /// not accept the current effort is refused, and nothing changes then.
    pub fn load_session(&mut self, session: &Session, sandbox_available: bool) -> (r: Result<
        ResumeReport,
        String,
    >)
        ensures
            match r {
                Err(e) => old(self)@.resume_error(session@) == Some(e@) && final(self)@ == old(
                    self,
                )@,
                Ok(report) => old(self)@.resume_error(session@) is None && final(self)@ == old(
                    self,
                )@.resumed(session@, sandbox_available) && report@ == old(self)@.resume_report(
                    session@,
                    sandbox_available,
                ),
            },
    {
        let saved: Option<String> = match &session.model {
            Some(m) => if m.as_str().is_empty() {
                None
            } else {
                Some(m.clone())
            },
            None => None,
        };
        assert(api::option_view(saved) == saved_model(session@));
        if let Some(m) = &saved {
            let refusal = self.resume_refusal(m.as_str());
            assert(self@.resume_error(session@) == api::option_view(refusal));
            if let Some(msg) = refusal {
                return Err(msg);
            }
        }
        let preset_before = PermissionPreset::current(self.mode, self.approval_policy);
        let mode_before = self.mode;
        self.session_state.session_id = session.id.clone();
        self.session_state.conversation.restore_messages(
            api::clone_messages(session.api_messages.as_slice()),
        );
        if session.system_prompt.len() > 0 {
            self.session_state.conversation.set_system_prompt(
                api::clone_system(&session.system_prompt),
            );
        }
        self.session_state.display_messages = model::clone_display(&session.display_messages);
        self.session_state.counters = session.token_counters;
        let mut model_note: Option<String> = None;
        if let Some(m) = &saved {
            let canonical = match model_info::canonical_model(m.as_str()) {
                Some(c) => c.name.to_owned(),
                None => m.clone(),
            };
            if !text::same(canonical.as_str(), self.model_config.model.as_str()) {
                let mut s = "Note: session was saved under model '".to_owned();
                s.append(canonical.as_str());
                s.append("'; continuing with that instead of '");
                s.append(self.model_config.model.as_str());
                s.append("'");
                model_note = Some(s);
                self.model_config.model = canonical;
            }
        }
        assert(self@ =~= old(self)@.with_session(session@));
        let saved_label: Option<&str> = match &session.permission_preset {
            Some(s) => Some(s.as_str()),
            None => None,
        };
        let mut relaxed_note: Option<String> = None;
        if let Some(preset) = preset_to_restore(saved_label, session.readonly, sandbox_available) {
            let saved_preset = match saved_label {
                Some(label) => PermissionPreset::parse(label),
                None => None,
            };
            self.restore_permission_preset(preset);
            let coerced = match saved_preset {
                Some(p) => p.mode() != preset.mode(),
                None => false,
            };
            if coerced {
                self.session_state.conversation.add_user_message(
                    config::mode_preamble_for(self.mode, self.approval_policy),
                );
            }
        }
        let preset_after = PermissionPreset::current(self.mode, self.approval_policy);
        if preset_after.is_more_permissive_than(preset_before) {
            let mut s = "Note: resuming this session relaxed permissions from ".to_owned();
            s.append(preset_before.label());
            s.append(" to ");
            s.append(preset_after.label());
            s.append(
                ". Commands now run with fewer restrictions; use /permissions to change it.",
            );
            relaxed_note = Some(s);
        }
        let mut loaded = "Loaded session: ".to_owned();
        loaded.append(session.id.as_str());
        loaded.append(" (");
        loaded.append(text::decimal(session.api_messages.len() as u128).as_str());
        loaded.append(" messages)");
        Ok(
            ResumeReport {
                model_note,
                relaxed_note,
                loaded,
                mode_changed: self.mode != mode_before,
            },
        )
    }
}

/// A session that is stored and loaded again into the session that stored
/// it, on the same machine, is accepted and goes on under the same name,
/// with the same counters, the same text on the screen and the same
/// permissions. Where its conversation was within its limits and did not
/// end in the middle of a tool call, the conversation is the same. Its model
/// must be one that is known under its proper name.
pub proof fn stored_session_goes_on(
    r: ReplView,
    created_at: u64,
    updated_at: u64,
    available: bool,
)
    requires
        r.preset().runs(available),
        model_info::find(model_info::registry(), r.model) is Some,
        model_info::find(model_info::registry(), r.model)->0.name@ == r.model,
        model_info::model_of(r.model).provider == r.client,
    ensures
        ({
            let s = SessionView {
                id: r.session.session_id,
                api_messages: r.session.conversation.messages,
                display_messages: r.session.display_messages,
                system_prompt: r.session.conversation.system,
                created_at,
                updated_at,
                token_counters: r.session.counters,
                model: Some(r.model),
                readonly: Some(r.mode == SandboxMode::ReadOnly),
                permission_preset: Some(r.preset().label_text()),
            };
            let next = r.resumed(s, available);
            &&& r.resume_error(s) is None
            &&& next.session.session_id == r.session.session_id
            &&& next.session.display_messages == r.session.display_messages
            &&& next.session.counters == r.session.counters
            &&& next.model == r.model
            &&& next.mode == r.mode
            &&& next.policy == r.policy
            &&& next.session.conversation.system == r.session.conversation.system
            &&& lifecycle::at_rest(r.session.conversation)
                ==> next.session.conversation.messages == r.session.conversation.messages
        }),
{
    config::preset_labels_are_distinct(r.preset(), r.preset());
    config::preset_survives_mode_and_policy(r.preset(), r.policy);
}

} // verus!
