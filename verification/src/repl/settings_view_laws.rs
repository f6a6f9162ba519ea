//! What the user is shown of the settings, and what a stored session brings
//! with it.

use super::menus;
use super::ReplView;
use crate::api::{ContentView, MessageView};
use crate::config;
use crate::config::PermissionPreset;
use crate::model_info;
use crate::session::model::SessionView;
use crate::text;
use crate::tui::event::{EffortPickerEntry, ModelPickerEntry, PermissionsPickerEntry};
use vstd::prelude::*;

verus! {

/// A text is padded with blanks behind it up to the width; a longer one is
/// left as it is.
pub proof fn padding_goes_behind(s: Seq<char>, width: int, i: int)
    ensures
        ({
            let p = menus::padded(s, width);
            &&& width <= s.len() ==> p == s
            &&& width > s.len() ==> p.len() == width
            &&& p.take(s.len() as int) == s
            &&& s.len() <= i < p.len() ==> p[i] == ' '
        }),
{
    let p = menus::padded(s, width);
    assert(p.take(s.len() as int) =~= s);
    if width <= s.len() {
        assert(p =~= s);
    }
}

/// The list of models has every model, in order, with its description. The
/// one in use is marked, and those of the provider that the session talks to
/// can be chosen.
pub proof fn models_are_listed(r: ReplView, i: int)
    requires
        0 <= i < model_info::registry().len(),
    ensures
        menus::model_entries(r).len() == model_info::registry().len(),
        ({
            let m = model_info::registry()[i];
            let e = menus::model_entries(r)[i];
            &&& e.name == m.name && e.description == m.description
            &&& e.is_current == (m.name@ == r.model)
            &&& e.is_available == (m.provider == model_info::model_of(r.model).provider)
        }),
{
}

/// The list of efforts has exactly those that the model accepts, in order,
/// and marks the one in use.
pub proof fn efforts_are_listed(r: ReplView, i: int)
    requires
        0 <= i < menus::effort_entries(r).len(),
    ensures
        menus::effort_entries(r).len() == model_info::model_of(r.model).efforts().len(),
        menus::effort_entries(r)[i].effort == model_info::model_of(r.model).efforts()[i],
        menus::effort_entries(r)[i].is_current == (menus::effort_entries(r)[i].effort == r.effort),
        model_info::model_of(r.model).accepts(menus::effort_entries(r)[i].effort),
{
    let m = model_info::model_of(r.model);
    let e = menus::effort_entries(r)[i].effort;
    model_info::accepted_efforts_are_listed(m, e);
    assert(m.efforts()[i] == e);
}

/// The list of modes has both, and of presets all five, in order; those that
/// cannot take effect cannot be chosen.
pub proof fn modes_and_presets_are_listed(r: ReplView, available: bool, i: int)
    requires
        0 <= i < 5,
    ensures
        menus::mode_entries(r).len() == 2,
        menus::mode_entries(r)[0].mode is Standard && menus::mode_entries(r)[0].is_available,
        menus::mode_entries(r)[1].mode is Pro,
        menus::mode_entries(r)[1].is_available == model_info::model_of(r.model).pro_mode,
        menus::mode_entries(r)[0].is_current == (r.thinking is Standard),
        menus::mode_entries(r)[1].is_current == (r.thinking is Pro),
        menus::preset_entries(r, available).len() == 5,
        ({
            let e = menus::preset_entries(r, available)[i];
            &&& e.preset == config::all_presets()[i]
            &&& e.is_available == e.preset.runs(available)
            &&& e.is_current == (e.preset == PermissionPreset::of(r.mode, r.policy))
        }),
{
}

/// Every line of a list starts with the mark of the entry in use or with a
/// blank in its place, and names the entry; a preset that cannot be chosen
/// says so.
pub proof fn lines_name_their_entries(
    m: ModelPickerEntry,
    e: EffortPickerEntry,
    p: PermissionsPickerEntry,
)
    ensures
        menus::marker(true) == "❯"@,
        menus::marker(false) == " "@,
        menus::model_line(m) == "  "@ + menus::marker(m.is_current) + " "@ + menus::padded(
            m.name@,
            20,
        ) + " "@ + m.description@,
        menus::effort_line(e) == "  "@ + menus::marker(e.is_current) + " "@ + e.effort.label_text(),
        p.is_available ==> menus::preset_line(p) == "  "@ + menus::marker(p.is_current) + " "@
            + p.preset.label_text(),
        !p.is_available ==> menus::preset_line(p) == "  "@ + menus::marker(p.is_current) + " "@
            + p.preset.label_text() + "  (unavailable on this platform)"@,
{
    reveal_strlit("");
    let line = "  "@ + menus::marker(p.is_current) + " "@ + p.preset.label_text();
    assert(line + ""@ =~= line);
}

/// A list starts with what is in use and its title, goes on with its entries
/// in order, and ends with an empty line and a hint.
pub proof fn lists_have_one_form(
    current: Seq<char>,
    title: Seq<char>,
    entries: Seq<Seq<char>>,
    hint: Seq<char>,
    i: int,
)
    requires
        0 <= i < entries.len(),
    ensures
        ({
            let lines = menus::menu(current, title, entries, hint);
            &&& lines.len() == entries.len() + 4
            &&& lines[0] == current && lines[1] == title
            &&& lines[i + 2] == entries[i]
            &&& lines[lines.len() - 2].len() == 0
            &&& lines.last() == hint
        }),
{
    reveal_strlit("");
}

/// The three lists say first what is in use.
pub proof fn lists_say_what_is_in_use(r: ReplView, available: bool)
    ensures
        menus::model_menu(r)[0] == "Current model: "@ + r.model,
        menus::model_menu(r).len() == model_info::registry().len() + 4,
        menus::effort_menu(r)[0] == "Current effort: "@ + r.effort.label_text(),
        menus::effort_menu(r).len() == menus::effort_entries(r).len() + 4,
        menus::preset_menu(r, available)[0] == "Current permissions: "@ + r.preset().label_text(),
        menus::preset_menu(r, available).len() == 9,
{
}

/// In read-only mode the user is told which tool servers are hidden and
/// which are not, the hidden ones first, and nothing where there are none.
/// In color the first bullet is yellow and the second green.
pub proof fn tool_servers_are_named(
    excluded: Seq<Seq<char>>,
    included: Seq<Seq<char>>,
    color: bool,
)
    ensures
        ({
            let none = Seq::<Seq<char>>::empty();
            let hidden = super::readonly_summary(excluded, none, color);
            let kept = super::readonly_summary(none, included, color);
            &&& super::readonly_summary(excluded, included, color) == hidden + kept
            &&& super::readonly_summary(none, none, color).len() == 0
            &&& excluded.len() > 0 && color ==> text::has_prefix(
                hidden,
                "  "@ + "\u{1b}[93m•\u{1b}[0m"@,
            )
            &&& included.len() > 0 && color ==> text::has_prefix(
                kept,
                "  "@ + "\u{1b}[92m•\u{1b}[0m"@,
            )
            &&& excluded.len() > 0 && !color ==> text::has_prefix(hidden, "  "@ + "•"@)
            &&& included.len() > 0 && !color ==> text::has_prefix(kept, "  "@ + "•"@)
            &&& excluded.len() > 0 ==> text::occurs(
                hidden,
                " Read-only mode hides MCP servers: "@ + text::joined(excluded, ", "@) + "\n"@,
            )
            &&& included.len() > 0 ==> text::occurs(
                kept,
                " Read-only mode allows MCP servers: "@ + text::joined(included, ", "@) + "\n"@,
            )
        }),
{
    let none = Seq::<Seq<char>>::empty();
    let hidden = super::readonly_summary(excluded, none, color);
    let kept = super::readonly_summary(none, included, color);
    assert(super::readonly_summary(excluded, included, color) =~= hidden + kept);
    assert(super::readonly_summary(none, none, color) =~= Seq::<char>::empty());
    if excluded.len() > 0 {
        let said = " Read-only mode hides MCP servers: "@ + text::joined(excluded, ", "@) + "\n"@;
        let head = "  "@ + super::hidden_mark(color);
        let tail =
            "    Set `readonly = \"read_only\"` on a server to make its tools available.\n"@;
        assert(hidden =~= head + said + tail);
        assert(hidden.take(head.len() as int) =~= head);
        crate::text_laws::occurrence_has_two_sides(head, said, tail, hidden);
    }
    if included.len() > 0 {
        let said = " Read-only mode allows MCP servers: "@ + text::joined(included, ", "@) + "\n"@;
        let head = "  "@ + super::kept_mark(color);
        assert(kept =~= head + said + Seq::<char>::empty());
        assert(kept.take(head.len() as int) =~= head);
        crate::text_laws::occurrence_has_two_sides(head, said, Seq::empty(), kept);
    }
}

/// A stored session goes on here unless it was stored under a model of
/// another provider, under one that is not known, or under another one that
/// does not accept the effort in use. One that names no model always does.
pub proof fn stored_session_is_refused_for_a_reason(r: ReplView, s: SessionView)
    ensures
        s.model is None || s.model->0.len() == 0 ==> r.resume_error(s) is None,
        s.model is Some && s.model->0.len() > 0 ==> {
            let name = s.model->0;
            let m = model_info::model_of(name);
            let known = model_info::find(model_info::registry(), name) is Some;
            let fits = name == r.model || m.accepts(r.effort);
            &&& (r.resume_error(s) is None) == (m.provider == r.client && known && fits)
            &&& m.provider != r.client ==> r.resume_error(s) == Some(
                "Session was saved under model '"@ + name + "' ("@ + m.provider.label_text()
                    + "), but the current client is "@ + r.client.label_text()
                    + ". Re-launch with `--model "@ + name + "` to resume."@,
            )
            &&& m.provider == r.client && !known ==> r.resume_error(s) == Some(
                "Session was saved under model '"@ + name
                    + "', which is no longer supported. Supported models: "@
                    + model_info::supported_list() + "."@,
            )
        },
{
}

/// A stored session brings its name, its conversation, what the user saw,
/// its counters, its system prompt and its model with it, whatever the
/// running session was.
pub proof fn stored_session_brings_all_it_has(r: ReplView, s: SessionView, available: bool)
    ensures
        ({
            let now = r.with_session(s);
            &&& now.session.session_id == s.id
            &&& now.session.display_messages == s.display_messages
            &&& now.session.counters == s.token_counters
            &&& now.session.conversation.messages == r.session.conversation.restored(
                s.api_messages,
            ).messages
            &&& s.system_prompt.len() > 0 ==> now.session.conversation.system == s.system_prompt
            &&& s.system_prompt.len() == 0 ==> now.session.conversation.system
                == r.session.conversation.restored(s.api_messages).system
            &&& s.model is None ==> now.model == r.model
            &&& s.model is Some && model_info::find(model_info::registry(), s.model->0) is Some
                && s.model->0.len() > 0 ==> now.model == model_info::find(
                model_info::registry(),
                s.model->0,
            )->0.name@
            &&& now.client == r.client && now.effort == r.effort && now.mode == r.mode
                && now.policy == r.policy && now.tools == r.tools
            &&& s.permission_preset is None && s.readonly is None ==> r.resumed(s, available) == now
        }),
{
}

/// A stored session goes on under its own preset where that can take effect,
/// and the assistant is told of the permissions only where another mode
/// holds than the one that was stored.
pub proof fn stored_preset_takes_effect(
    r: ReplView,
    s: SessionView,
    p: PermissionPreset,
    available: bool,
)
    requires
        s.permission_preset == Some(p.label_text()),
    ensures
        ({
            let base = r.with_session(s);
            let now = r.resumed(s, available);
            &&& p.runs(available) ==> now.preset() == p && now.session == base.session
            &&& !p.runs(available) ==> now.preset() == PermissionPreset::Unsandboxed
                && now.session.conversation == base.session.conversation.added(
                MessageView {
                    role: "user"@,
                    content: ContentView::Text {
                        content: config::preamble(now.mode, now.policy),
                    },
                },
            )
        }),
{
    config::preset_labels_are_distinct(p, p);
    config::preset_survives_mode_and_policy(p, r.policy);
    config::preset_survives_mode_and_policy(PermissionPreset::Unsandboxed, r.policy);
}

/// The user is told what was loaded, that another model answers where one
/// does, and that more is permitted than before where more is.
pub proof fn user_is_told_what_was_loaded(r: ReplView, s: SessionView, available: bool)
    ensures
        ({
            let now = r.resumed(s, available);
            let told = r.resume_report(s, available);
            &&& told.loaded == "Loaded session: "@ + s.id + " ("@ + text::decimal_of(
                s.api_messages.len(),
            ) + " messages)"@
            &&& (told.model_note is Some) == (now.model != r.model)
            &&& told.model_note is Some ==> told.model_note->0
                == "Note: session was saved under model '"@ + now.model
                + "'; continuing with that instead of '"@ + r.model + "'"@
            &&& (told.relaxed_note is Some) == (now.preset().rank_of() > r.preset().rank_of())
            &&& told.relaxed_note is Some ==> told.relaxed_note->0
                == "Note: resuming this session relaxed permissions from "@
                + r.preset().label_text() + " to "@ + now.preset().label_text()
                + ". Commands now run with fewer restrictions; use /permissions to change it."@
            &&& told.mode_changed == (now.mode != r.mode)
        }),
{
}

} // verus!
