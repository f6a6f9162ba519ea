//! What holds of models, efforts and permissions, and of switching between
//! them.

use crate::config;
use crate::config::{ApprovalPolicy, PermissionPreset, SandboxMode};
use crate::model_info;
use crate::model_info::{Model, Provider, ReasoningEffort, ReasoningMode};
use crate::repl;
use crate::repl::compaction::EndView;
use crate::repl::{ModelSwitchView, PresetSwitchView, ReplView};
use crate::request_builder;
use crate::text;
use crate::text_laws;
use vstd::prelude::*;

verus! {

/// Efforts go up level by level from none, and each has a name of its own.
pub proof fn efforts_go_up_level_by_level(a: ReasoningEffort, b: ReasoningEffort)
    ensures
        a is Off ==> a.level_of() == 0,
        request_builder::next_effort(a, b) ==> b.level_of() == a.level_of() + 1,
        a.label_text() == b.label_text() ==> a == b,
        a is Off ==> a.label_text() == "off"@,
        a is Low ==> a.label_text() == "low"@,
        a is Medium ==> a.label_text() == "medium"@,
        a is High ==> a.label_text() == "high"@,
        a is XHigh ==> a.label_text() == "xhigh"@,
        a is Max ==> a.label_text() == "max"@,
{
    reveal_strlit("off");
    reveal_strlit("low");
    reveal_strlit("medium");
    reveal_strlit("high");
    reveal_strlit("xhigh");
    reveal_strlit("max");
    assert("off"@[0] == 'o' && "low"@[0] == 'l' && "medium"@[0] == 'm' && "high"@[0] == 'h'
        && "xhigh"@[0] == 'x' && "max"@[0] == 'm');
    assert("medium"@.len() == 6 && "max"@.len() == 3);
}

/// A model lists its efforts from none to the highest that it accepts, one
/// level after the other, and accepts no other.
pub proof fn efforts_are_listed_in_order(m: Model, e: ReasoningEffort, i: int)
    ensures
        m.efforts().len() == m.max_effort.level_of() + 1,
        m.efforts()[0] is Off,
        m.efforts().last() == m.max_effort,
        0 <= i < m.efforts().len() - 1 ==> request_builder::next_effort(
            m.efforts()[i],
            m.efforts()[i + 1],
        ),
        m.accepts(e) == m.efforts().contains(e),
        m.accepts(m.max_effort),
        m.accepts(ReasoningEffort::Off),
        request_builder::next_effort(m.max_effort, e) ==> !m.accepts(e),
{
    model_info::accepted_efforts_are_listed(m, e);
}

/// A conversation is compacted at the model's own trigger, or at nine tenths
/// of its window where that is less.
pub proof fn compaction_leaves_a_tenth(m: Model)
    ensures
        m.compact_at() <= m.compact_trigger,
        10 * m.compact_at() <= 9 * m.context_window,
        m.compact_at() == m.compact_trigger || 10 * (m.compact_at() + 1) > 9 * m.context_window,
{
}

/// A model is found by its name, in whatever case that is written: the first
/// of the list that has it. Nothing is found under a name that none has.
pub proof fn model_is_found_by_its_name(models: Seq<Model>, name: Seq<char>, i: int)
    ensures
        0 <= i < models.len() && text::same_letters(models[i].name@, name) && (forall|j: int|
            0 <= j < i ==> !text::same_letters((#[trigger] models[j]).name@, name))
            ==> model_info::find(models, name) == Some(models[i]),
        (forall|j: int|
            0 <= j < models.len() ==> !text::same_letters((#[trigger] models[j]).name@, name))
            ==> model_info::find(models, name) is None,
    decreases models.len(),
{
    if models.len() > 0 && !text::same_letters(models[0].name@, name) {
        let rest = models.drop_first();
        model_is_found_by_its_name(rest, name, i - 1);
        if 0 <= i < models.len() && text::same_letters(models[i].name@, name) && (forall|j: int|
            0 <= j < i ==> !text::same_letters((#[trigger] models[j]).name@, name)) {
            assert(i > 0);
            assert(rest[i - 1] == models[i]);
            assert forall|j: int| 0 <= j < i - 1 implies !text::same_letters(
                (#[trigger] rest[j]).name@,
                name,
            ) by {
                assert(rest[j] == models[j + 1]);
            }
        }
        if forall|j: int|
            0 <= j < models.len() ==> !text::same_letters((#[trigger] models[j]).name@, name) {
            assert forall|j: int| 0 <= j < rest.len() implies !text::same_letters(
                (#[trigger] rest[j]).name@,
                name,
            ) by {
                assert(rest[j] == models[j + 1]);
            }
        }
    }
}

/// Names are the same where they differ in the case of letters only: each
/// character is the same, or the other case of the same letter.
pub proof fn names_are_compared_letter_by_letter(a: Seq<char>, b: Seq<char>, i: int)
    ensures
        text::same_letters(a, a),
        text::same_letters(a, b) == text::same_letters(b, a),
        text::same_letters(a, b) ==> a.len() == b.len(),
        text::same_letters(a, b) && 0 <= i < a.len() ==> a[i] == b[i] || (0x41 <= a[i] as u32
            <= 0x5A && b[i] as u32 == a[i] as u32 + 32) || (0x41 <= b[i] as u32 <= 0x5A
            && a[i] as u32 == b[i] as u32 + 32),
{
    if text::same_letters(a, b) && 0 <= i < a.len() {
        assert(text::ascii_lower(a[i]) == text::ascii_lower(b[i]));
        text_laws::lower_case_moves_letters_only(a[i]);
        text_laws::lower_case_moves_letters_only(b[i]);
    }
}

/// A response is priced as the model that served it where that one is known,
/// and as the configured one otherwise.
pub proof fn known_model_is_priced(served: Seq<char>, configured: Seq<char>)
    ensures
        model_info::find(model_info::registry(), served) is Some ==> model_info::priced_as(
            served,
            configured,
        ) == served,
        model_info::find(model_info::registry(), served) is None ==> model_info::priced_as(
            served,
            configured,
        ) == configured,
        model_info::find(model_info::registry(), served) is None ==> model_info::model_of(served)
            == model_info::registry()[0],
        model_info::find(model_info::registry(), served) is Some ==> Some(
            model_info::model_of(served),
        ) == model_info::find(model_info::registry(), served),
{
}

/// The start-up flags ask for a sandbox only by asking for nothing else, and
/// get one only where the machine has it; read-only mode comes before all.
pub proof fn sandbox_is_the_rule(readonly: bool, unsandboxed: bool, available: bool)
    ensures
        (SandboxMode::of_flags(readonly, unsandboxed, available) is ReadOnly) == readonly,
        (SandboxMode::of_flags(readonly, unsandboxed, available) is Sandboxed) == (!readonly
            && !unsandboxed && available),
{
}

/// The name of a preset tells its mode and its policy: one that is confined
/// starts with that word and ends with what happens to a blocked command.
pub proof fn preset_names_tell_what_they_set(p: PermissionPreset)
    ensures
        text::has_prefix(p.label_text(), "sandboxed-"@) == (p.mode_of() is Sandboxed),
        (p.policy_of() is Some) == (p.mode_of() is Sandboxed),
        p.policy_of() == Some(ApprovalPolicy::Strict) ==> p.label_text() == "sandboxed-"@
            + "strict"@,
        p.policy_of() == Some(ApprovalPolicy::Ask) ==> p.label_text() == "sandboxed-"@ + "ask"@,
        p.policy_of() == Some(ApprovalPolicy::Retry) ==> p.label_text() == "sandboxed-"@ + "retry"@,
        (p.mode_of() is ReadOnly) == (p.label_text() == "read-only"@),
        (p.mode_of() is Unsandboxed) == (p.label_text() == "unsandboxed"@),
        p is ReadOnly ==> p.mode_of() is ReadOnly,
        p is Unsandboxed ==> p.mode_of() is Unsandboxed,
        p is SandboxedStrict ==> p.policy_of() == Some(ApprovalPolicy::Strict),
        p is SandboxedAsk ==> p.policy_of() == Some(ApprovalPolicy::Ask),
        p is SandboxedRetry ==> p.policy_of() == Some(ApprovalPolicy::Retry),
{
    reveal_strlit("sandboxed-");
    reveal_strlit("strict");
    reveal_strlit("ask");
    reveal_strlit("retry");
    reveal_strlit("read-only");
    reveal_strlit("unsandboxed");
    reveal_strlit("sandboxed-strict");
    reveal_strlit("sandboxed-ask");
    reveal_strlit("sandboxed-retry");
    assert("sandboxed-"@ + "strict"@ =~= "sandboxed-strict"@);
    assert("sandboxed-"@ + "ask"@ =~= "sandboxed-ask"@);
    assert("sandboxed-"@ + "retry"@ =~= "sandboxed-retry"@);
    text_laws::prefix_and_rest("sandboxed-"@, "strict"@, p.label_text());
    text_laws::prefix_and_rest("sandboxed-"@, "ask"@, p.label_text());
    text_laws::prefix_and_rest("sandboxed-"@, "retry"@, p.label_text());
    let l = p.label_text();
    assert("read-only"@[0] == 'r' && "unsandboxed"@[0] == 'u' && "sandboxed-"@[0] == 's');
    if text::has_prefix(l, "sandboxed-"@) {
        assert(l[0] == "sandboxed-"@[0]);
    }
}

/// Presets are listed from the strictest to the most permissive. One that
/// confines permits less than one that does not, and more than read-only
/// mode; asking permits more than failing, and running again more than
/// asking.
pub proof fn presets_are_ordered(i: int, j: int)
    requires
        0 <= i < j < config::all_presets().len(),
    ensures
        config::all_presets().len() == 5,
        ({
            let a = config::all_presets()[i];
            let b = config::all_presets()[j];
            &&& a.rank_of() < b.rank_of()
            &&& !(b.mode_of() is ReadOnly)
            &&& !(a.mode_of() is Unsandboxed)
            &&& a.policy_of() is Some && b.policy_of() is Some ==> !(
            a.policy_of()->0 is Retry) && !(b.policy_of()->0 is Strict)
        }),
{
}

/// A preset that confines takes effect only where the machine has a sandbox;
/// every other one always does.
pub proof fn only_confinement_needs_a_sandbox(p: PermissionPreset, available: bool)
    ensures
        p.runs(true),
        p.runs(false) == !text::has_prefix(p.label_text(), "sandboxed-"@),
        available ==> p.runs(available),
{
    preset_names_tell_what_they_set(p);
}

/// What the assistant is told of the permissions starts with the name of the
/// preset that is in effect.
pub proof fn assistant_is_told_the_preset(mode: SandboxMode, policy: ApprovalPolicy)
    ensures
        text::has_prefix(
            config::preamble(mode, policy),
            "[Permissions: "@ + PermissionPreset::of(mode, policy).label_text() + "] "@,
        ),
{
    reveal_strlit("[Permissions: ");
    reveal_strlit("] ");
    reveal_strlit("read-only");
    reveal_strlit("unsandboxed");
    reveal_strlit("sandboxed-strict");
    reveal_strlit("sandboxed-ask");
    reveal_strlit("sandboxed-retry");
    reveal_strlit(
        "[Permissions: read-only] Only tools that change nothing are available. Describe changes instead of making them.",
    );
    reveal_strlit(
        "[Permissions: unsandboxed] Shell commands run without confinement, under the tier rules alone.",
    );
    reveal_strlit(
        "[Permissions: sandboxed-strict] Shell commands run in a sandbox. A command that the sandbox stops fails.",
    );
    reveal_strlit(
        "[Permissions: sandboxed-ask] Shell commands run in a sandbox. The user is asked before a command that the sandbox stops runs without it.",
    );
    reveal_strlit(
        "[Permissions: sandboxed-retry] Shell commands run in a sandbox. A command that the sandbox stops runs again without it.",
    );
    let start = "[Permissions: "@ + PermissionPreset::of(mode, policy).label_text() + "] "@;
    let all = config::preamble(mode, policy);
    assert(all.take(start.len() as int) =~= start);
}

/// A switch to another model keeps the provider and the effort, and takes
/// over the limits of the model and nothing else. A refused one changes
/// nothing.
pub proof fn model_switch_keeps_the_rest(r: ReplView, name: Seq<char>)
    ensures
        ({
            let (now, what) = r.model_switch(name);
            let found = model_info::find(model_info::registry(), name);
            let old = model_info::model_of(r.model);
            &&& !(what is Switched) ==> now == r
            &&& (what is AlreadyActive) == (found is Some && found->0.name@ == r.model)
            &&& (what is Switched) == (found is Some && found->0.name@ != r.model
                && found->0.provider == old.provider && found->0.accepts(r.effort))
            &&& what is Switched ==> {
                &&& what == (ModelSwitchView::Switched { name: found->0.name@ })
                &&& now.model == found->0.name@
                &&& now.effort == r.effort && now.client == r.client && now.mode == r.mode
                    && now.policy == r.policy && now.tools == r.tools && now.max_tokens
                    == r.max_tokens && now.thinking == r.thinking
                &&& now.session.conversation.messages == r.session.conversation.messages
                &&& now.session.conversation.config.max_context_tokens == found->0.context_window
                &&& now.session.conversation.config.auto_compact_token_limit
                    == found->0.compact_at()
                &&& now.session.conversation.config.max_messages
                    == r.session.conversation.config.max_messages
                &&& now.session.session_id == r.session.session_id && now.session.counters
                    == r.session.counters && now.session.display_messages
                    == r.session.display_messages
            }
            &&& what is Refused && found is None ==> what == (ModelSwitchView::Refused {
                why: "Model `"@ + name + "` is not supported. Supported models: "@
                    + model_info::supported_list() + "."@,
            })
            &&& what is Refused && found is Some && found->0.provider != old.provider ==> what == (
            ModelSwitchView::Refused {
                why: "Cannot switch to `"@ + found->0.name@ + "` ("@
                    + found->0.provider.label_text() + ") from the current "@
                    + old.provider.label_text() + " session. Re-launch with `--model "@
                    + found->0.name@ + "` to use it."@,
            })
        }),
{
}

/// A switch to another preset is told to the assistant once, and a switch to
/// the one in effect changes nothing. One that the machine cannot give is
/// refused, and the user told which one stays.
pub proof fn preset_switch_is_told(r: ReplView, p: PermissionPreset, available: bool)
    ensures
        ({
            let (now, what) = r.preset_switch(p, available);
            &&& (what is Unavailable) == !p.runs(available)
            &&& (what is AlreadySet) == (p.runs(available) && p == r.preset())
            &&& !(what is Applied) ==> now == r
            &&& what is Unavailable ==> what == (PresetSwitchView::Unavailable {
                why: p.label_text()
                    + " is unavailable here: this platform has no operating-system sandbox. Staying in "@
                    + r.preset().label_text() + "."@,
            })
            &&& what is AlreadySet ==> what == (PresetSwitchView::AlreadySet {
                notice: "Already set to "@ + p.label_text(),
            })
            &&& what is Applied ==> {
                &&& now.preset() == p
                &&& what == (PresetSwitchView::Applied {
                    notice: "Permissions: "@ + p.label_text() + " — "@ + p.description_text(),
                    mode_changed: now.mode != r.mode,
                })
                &&& now.session.conversation == r.session.conversation.added(
                    crate::api::MessageView {
                        role: "user"@,
                        content: crate::api::ContentView::Text {
                            content: config::preamble(now.mode, now.policy),
                        },
                    },
                )
                &&& now.model == r.model && now.effort == r.effort && now.client == r.client
            }
        }),
{
    config::preset_survives_mode_and_policy(p, r.policy);
}

/// An effort is refused where the model does not accept it, and where the
/// token limit leaves no room for the largest budget of a model that thinks
/// within one; otherwise it is not.
pub proof fn effort_is_refused_for_a_reason(r: ReplView, e: ReasoningEffort)
    ensures
        ({
            let m = model_info::model_of(r.model);
            let no_room = r.client is Anthropic && !m.adaptive_thinking && !(e is Off)
                && r.max_tokens <= 16384;
            &&& (r.effort_error(e) is None) == (m.accepts(e) && !no_room)
            &&& !m.accepts(e) ==> r.effort_error(e) == Some(
                "Model `"@ + r.model + "` does not accept reasoning effort `"@ + e.label_text()
                    + "`. Supported levels: "@ + model_info::effort_list(m) + "."@,
            )
            &&& m.accepts(e) && no_room ==> r.effort_error(e) == Some(
                "Cannot enable extended thinking on the legacy budget — max_tokens ("@
                    + text::decimal_of(r.max_tokens as nat) + ") must exceed "@ + text::decimal_of(
                    16384,
                ) + ". Relaunch with a higher --max-tokens or pick a lower effort."@,
            )
        }),
{
}

/// A session does not start with an effort that the token limit has no room
/// for or the model does not accept; every other start succeeds.
pub proof fn session_starts_unless_refused(model: Seq<char>, max_tokens: u32, e: ReasoningEffort)
    ensures
        (repl::startup_error(model, max_tokens, e) is None) == ((e is Off || max_tokens > 16384)
            && model_info::model_of(model).accepts(e)),
        repl::startup_error(model, max_tokens, ReasoningEffort::Off) is None,
{
}

/// The mode of reasoning can be changed to the slow one exactly where the
/// model has it, and back always.
pub proof fn pro_mode_needs_the_model(r: ReplView)
    ensures
        r.mode_error(ReasoningMode::Standard) is None,
        (r.mode_error(ReasoningMode::Pro) is None) == model_info::model_of(r.model).pro_mode,
{
}

/// What the user is told of the effort is what the request asks for: a
/// model that thinks adaptively and one of the other provider by a level,
/// any other by its budget.
pub proof fn user_is_told_what_is_asked(r: ReplView)
    ensures
        ({
            let asked = request_builder::request_for(
                r.client,
                r.model,
                r.max_tokens,
                r.session.conversation,
                r.tools,
                r.effort,
                r.session.session_id,
            );
            &&& asked.output_effort is Some ==> r.reasoning_label() == "effort: "@
                + asked.output_effort->0 && r.reasoning_state() == "Adaptive thinking effort: "@
                + asked.output_effort->0
            &&& r.client is OpenAI ==> r.reasoning_label() == "effort: "@ + r.effort.label_text()
                && r.reasoning_state() == "Reasoning effort: "@ + r.effort.label_text()
            &&& r.client is Anthropic && asked.thinking is None ==> r.reasoning_label()
                == "thinking: off"@ && r.reasoning_state() == "Extended thinking: disabled"@
            &&& asked.thinking is Some && asked.thinking->0.budget_tokens is Some
                ==> r.reasoning_label() == "thinking: "@ + text::decimal_of(
                asked.thinking->0.budget_tokens->0 as nat,
            ) + " tok"@ && r.reasoning_state() == "Extended thinking: enabled (budget: "@
                + text::decimal_of(asked.thinking->0.budget_tokens->0 as nat) + " tokens)"@
        }),
{
}

/// The preset that was stored is restored where it can take effect, and one
/// that cannot gives way to running without a sandbox. A file without a name
/// that is known goes by what it says of read-only mode, and one that says
/// nothing restores nothing.
pub proof fn stored_permissions_are_restored(
    named: Option<PermissionPreset>,
    other: Seq<char>,
    readonly: Option<bool>,
    available: bool,
)
    requires
        PermissionPreset::named(other) is None,
    ensures
        ({
            let restored = |label: Option<Seq<char>>|
                repl::sessions::restored_preset(label, readonly, available);
            let default = if available {
                PermissionPreset::SandboxedAsk
            } else {
                PermissionPreset::Unsandboxed
            };
            &&& named is Some && named->0.runs(available) ==> restored(
                Some(named->0.label_text()),
            ) == named
            &&& named is Some && !named->0.runs(available) ==> restored(
                Some(named->0.label_text()),
            ) == Some(PermissionPreset::Unsandboxed)
            &&& restored(Some(other)) == restored(None)
            &&& readonly == Some(true) ==> restored(None) == Some(PermissionPreset::ReadOnly)
            &&& readonly == Some(false) ==> restored(None) == Some(default)
            &&& readonly is None ==> restored(None) is None
        }),
{
    if named is Some {
        config::preset_labels_are_distinct(named->0, named->0);
    }
}

/// Only the five names of presets name one.
pub proof fn presets_are_found_by_name(label: Seq<char>)
    ensures
        PermissionPreset::named(label) is Some ==> PermissionPreset::named(label)->0.label_text()
            == label,
        PermissionPreset::named(label) is None ==> label != "read-only"@ && label
            != "sandboxed-strict"@ && label != "sandboxed-ask"@ && label != "sandboxed-retry"@
            && label != "unsandboxed"@,
{
}

/// How much a compaction saved is told in whole hundredths, rounded down,
/// and as nothing where it saved nothing.
pub proof fn saving_is_told_in_hundredths(before: nat, after: nat)
    ensures
        after >= before ==> repl::compaction::percent_saved(before, after) == 0,
        after < before ==> {
            let p = repl::compaction::percent_saved(before, after);
            &&& p <= 100
            &&& p * before <= 100 * (before - after)
            &&& 100 * (before - after) < (p + 1) * before
        },
{
    if after < before {
        let saved = (before - after) * 100;
        let b = before as int;
        vstd::arithmetic::div_mod::lemma_fundamental_div_mod(saved, b);
        vstd::arithmetic::div_mod::lemma_mod_bound(saved, b);
        let p = saved / b;
        assert(p >= 0) by (nonlinear_arith)
            requires
                p == saved / b,
                saved >= 0,
                b > 0,
        ;
        assert(b * p == p * b) by (nonlinear_arith);
        assert((p + 1) * b == p * b + b) by (nonlinear_arith);
        assert(p <= 100) by (nonlinear_arith)
            requires
                p * b <= saved,
                saved <= 100 * b,
                b > 0,
        ;
    }
}

/// A summary shorter than fifty bytes is not used: old messages are dropped
/// instead. Any other takes the place of the first messages, and the user is
/// told what that saved.
pub proof fn short_summary_is_not_used(
    h: crate::conversation::HistoryView,
    summary: Seq<char>,
    split: int,
    before: nat,
)
    ensures
        vstd::utf8::encode_utf8(summary).len() < 50 ==> h.compaction_end(summary, split, before)
            == (
            h.trimmed_with_note(h.cut_summary()),
            EndView::FellBack {
                why: "Compaction produced an insufficient summary. Falling back to trimming."@,
            },
        ),
        vstd::utf8::encode_utf8(summary).len() >= 50 ==> h.compaction_end(summary, split, before)
            == (
            h.summarized(summary, split),
            EndView::Summarized {
                tokens_before: before,
                tokens_after: h.summarized(summary, split).total_tokens(),
                saved_percent: repl::compaction::percent_saved(
                    before,
                    h.summarized(summary, split).total_tokens(),
                ),
            },
        ),
{
    text::lemma_utf8_len(summary);
}

/// A compaction that nobody asked for happens only above the limit. It tries
/// to shorten tool results first, and asks for a summary only where that is
/// not enough; one that was asked for goes to the summary at once. A
/// conversation that is too short to be split is left alone.
pub proof fn compaction_goes_step_by_step(h: crate::conversation::HistoryView, force: bool)
    ensures
        ({
            let (now, step) = h.compaction_start(force);
            let short = h.shortened(h.split());
            let due = force || h.total_tokens() > h.config.auto_compact_token_limit;
            let enough = !force && short.total_tokens() <= h.config.auto_compact_token_limit;
            &&& (step is NotNeeded) == !due
            &&& (step is TooShort) == (due && h.split() == 0)
            &&& (step is Shortened) == (due && h.split() != 0 && enough)
            &&& (step is Summarize) == (due && h.split() != 0 && !enough)
            &&& step is Shortened ==> now == short
            &&& !(step is Shortened) ==> now == h
            &&& h.split() == crate::conversation::compaction::split_point(
                h.messages,
                h.config.compaction_preserve_recent as nat,
            )
            &&& short.messages == crate::conversation::compaction::shortened_messages(
                h.messages,
                h.split(),
                h.config.tool_result_truncate_threshold as nat,
            )
        }),
{
}

/// The request for a summary holds the conversation up to the split as one
/// text of the user, and neither tools nor anything that makes the model
/// think; its cache is kept apart from that of the session.
pub proof fn summary_request_is_plain(r: ReplView, split: int)
    ensures
        ({
            let q = r.summary_request(split);
            &&& q.model == r.model
            &&& q.max_tokens == 4096
            &&& q.messages.len() == 1
            &&& q.messages[0] == (crate::api::MessageView {
                role: "user"@,
                content: crate::api::ContentView::Text {
                    content: text::joined(
                        crate::conversation::compaction::all_parts(
                            r.session.conversation.messages.take(split),
                        ),
                        "\n\n"@,
                    ),
                },
            })
            &&& q.system is Some && q.system->0.len() == 1
            &&& q.tools is None && q.thinking is None && q.output_effort is None
                && q.reasoning_effort is None && q.context_edits is None && q.stream is None
            &&& q.prompt_cache_key == Some(r.session.session_id + "-summary"@)
        }),
{
}

/// A summary is read from all texts of a response, in order.
pub proof fn summary_is_read_from_all_texts(
    a: Seq<crate::api::BodyView>,
    b: crate::api::BodyView,
)
    ensures
        repl::compaction::plain_texts(Seq::empty()).len() == 0,
        b is Text ==> repl::compaction::plain_texts(a.push(b)) == repl::compaction::plain_texts(
            a,
        ).push(b->Text_text),
        !(b is Text) ==> repl::compaction::plain_texts(a.push(b)) == repl::compaction::plain_texts(
            a,
        ),
{
    assert(a.push(b).drop_last() =~= a);
}

/// The providers have the names that they go by.
pub proof fn providers_are_named(p: Provider)
    ensures
        p is Anthropic ==> p.label_text() == "Anthropic"@,
        p is OpenAI ==> p.label_text() == "OpenAI"@,
{
}


/// A request for a summary is paid for whatever comes of it. One that was
/// interrupted or failed costs nothing; the conversation is trimmed and the
/// user is told why.
pub proof fn summary_is_paid_for(
    r: ReplView,
    reply: repl::compaction::SummaryReply,
    split: int,
    before: nat,
)
    ensures
        ({
            let (now, end) = r.compacted(reply, split, before);
            let h = r.session.conversation;
            &&& match reply {
                repl::compaction::SummaryReply::Response(response) => {
                    &&& now.session.counters == r.session.counters.plus(response.usage)
                    &&& now.session.conversation == h.compaction_end(
                        text::joined(
                            repl::compaction::plain_texts(
                                crate::api::body_views(response.content@),
                            ),
                            "\n"@,
                        ),
                        split,
                        before,
                    ).0
                },
                repl::compaction::SummaryReply::Interrupted => {
                    &&& now.session.counters == r.session.counters
                    &&& now.session.conversation == h.trimmed_with_note(h.cut_summary())
                    &&& end == (EndView::FellBack {
                        why: "Compaction interrupted. Falling back to trimming."@,
                    })
                },
                repl::compaction::SummaryReply::Failed(e) => {
                    &&& now.session.counters == r.session.counters
                    &&& now.session.conversation == h.trimmed_with_note(h.cut_summary())
                    &&& end == (EndView::FellBack {
                        why: "Compaction failed: "@ + e@ + ". Falling back to trimming."@,
                    })
                },
            }
            &&& now.session.session_id == r.session.session_id
            &&& now.session.display_messages == r.session.display_messages
            &&& now.model == r.model && now.effort == r.effort && now.mode == r.mode
        }),
{
}

/// What a preset does is told differently for each.
pub proof fn presets_are_told_apart(a: PermissionPreset, b: PermissionPreset)
    ensures
        a.description_text() == b.description_text() ==> a == b,
        a is ReadOnly ==> a.description_text() == "nothing may be changed"@,
        a is Unsandboxed ==> a.description_text() == "commands run unconfined"@,
        a.mode_of() is Sandboxed ==> text::has_prefix(
            a.description_text(),
            "confined; a blocked command "@,
        ),
{
    reveal_strlit("nothing may be changed");
    reveal_strlit("confined; a blocked command fails");
    reveal_strlit("confined; a blocked command asks first");
    reveal_strlit("confined; a blocked command runs again unconfined");
    reveal_strlit("commands run unconfined");
    reveal_strlit("confined; a blocked command ");
    assert("nothing may be changed"@.len() == 22);
    assert("confined; a blocked command fails"@.len() == 33);
    assert("confined; a blocked command asks first"@.len() == 38);
    assert("confined; a blocked command runs again unconfined"@.len() == 49);
    assert("commands run unconfined"@.len() == 23);
    let p = "confined; a blocked command "@;
    assert("confined; a blocked command fails"@.take(28) =~= p);
    assert("confined; a blocked command asks first"@.take(28) =~= p);
    assert("confined; a blocked command runs again unconfined"@.take(28) =~= p);
}

} // verus!
