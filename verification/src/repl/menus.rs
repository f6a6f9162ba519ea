//! The lists that the user chooses a model, an effort or a preset from: as
//! entries for the interface, and as lines where there is none.

use super::{Repl, ReplView};
use crate::config;
use crate::config::PermissionPreset;
use crate::model_info;
use crate::model_info::{Model, ReasoningEffort, ReasoningMode};
use crate::text;
use crate::tui::event::{
    EffortPickerEntry, ModePickerEntry, ModelPickerEntry, PermissionsPickerEntry,
};
use vstd::prelude::*;

verus! {

/// The column at which the descriptions of the models start.
pub const MODEL_NAME_WIDTH: usize = 20;

pub const CHOSEN_MARKER: &'static str = "❯";

pub const EFFORT_HINT: &'static str =
    "Use `/effort <level>` to switch, or open an interactive session for the picker.";

pub const MODEL_HINT: &'static str =
    "Use `/model <name>` to switch, or open an interactive session for the picker.";

pub const PERMISSIONS_HINT: &'static str =
    "Use `/permissions <preset>` to switch, or open an interactive session for the picker.";

pub const UNAVAILABLE_NOTE: &'static str = "  (unavailable on this platform)";

pub open spec fn spaces(n: int) -> Seq<char> {
    Seq::new(
        if n > 0 {
            n as nat
        } else {
            0
        },
        |i: int| ' ',
    )
}

/// A text with spaces after it where it is shorter than the given width.
pub open spec fn padded(s: Seq<char>, width: int) -> Seq<char> {
    s + spaces(width - s.len())
}

/// A text with spaces after it where it is shorter than the given width.
pub fn pad_right(s: &str, width: usize) -> (r: String)
    ensures
        r@ == padded(s@, width as int),
{
    let mut r = s.to_owned();
    let len = s.unicode_len();
    let mut i: usize = len;
    assert(r@ =~= s@ + spaces(0));
    while i < width
        invariant
            len == s@.len(),
            len <= i,
            i <= width || i == len,
            r@ == s@ + spaces(i - len),
        decreases width - i,
    {
        r.append(" ");
        proof {
            reveal_strlit(" ");
            assert(s@ + spaces(i - len) + " "@ =~= s@ + spaces(i + 1 - len));
        }
        i = i + 1;
    }
    assert(r@ =~= padded(s@, width as int));
    r
}

pub open spec fn model_entry(m: Model, r: ReplView) -> ModelPickerEntry {
    ModelPickerEntry {
        name: m.name,
        description: m.description,
        is_current: m.name@ == r.model,
        is_available: m.provider == model_info::model_of(r.model).provider,
    }
}

/// The list of models. Those of another provider cannot be switched to.
pub open spec fn model_entries(r: ReplView) -> Seq<ModelPickerEntry> {
    model_info::registry().map_values(|m: Model| model_entry(m, r))
}

pub open spec fn effort_entry(e: ReasoningEffort, r: ReplView) -> EffortPickerEntry {
    EffortPickerEntry { effort: e, is_current: e == r.effort }
}

/// The list of efforts: those that the model accepts.
pub open spec fn effort_entries(r: ReplView) -> Seq<EffortPickerEntry> {
    model_info::model_of(r.model).efforts().map_values(|e: ReasoningEffort| effort_entry(e, r))
}

pub open spec fn mode_entry(mode: ReasoningMode, r: ReplView) -> ModePickerEntry {
    ModePickerEntry {
        mode,
        is_current: mode == r.thinking,
        is_available: mode == ReasoningMode::Standard || model_info::model_of(r.model).pro_mode,
    }
}

/// The list of modes of reasoning. Not every model has them all.
pub open spec fn mode_entries(r: ReplView) -> Seq<ModePickerEntry> {
    seq![mode_entry(ReasoningMode::Standard, r), mode_entry(ReasoningMode::Pro, r)]
}

pub open spec fn preset_entry(
    p: PermissionPreset,
    r: ReplView,
    available: bool,
) -> PermissionsPickerEntry {
    PermissionsPickerEntry {
        preset: p,
        is_current: p == r.preset(),
        is_available: p.runs(available),
    }
}

/// The list of presets. Those that need a sandbox can be chosen only where
/// one runs.
pub open spec fn preset_entries(r: ReplView, available: bool) -> Seq<PermissionsPickerEntry> {
    config::all_presets().map_values(|p: PermissionPreset| preset_entry(p, r, available))
}

pub open spec fn marker(current: bool) -> Seq<char> {
    if current {
        CHOSEN_MARKER@
    } else {
        " "@
    }
}

pub open spec fn model_line(e: ModelPickerEntry) -> Seq<char> {
    "  "@ + marker(e.is_current) + " "@ + padded(e.name@, MODEL_NAME_WIDTH as int) + " "@
        + e.description@
}

pub open spec fn effort_line(e: EffortPickerEntry) -> Seq<char> {
    "  "@ + marker(e.is_current) + " "@ + e.effort.label_text()
}

pub open spec fn preset_line(e: PermissionsPickerEntry) -> Seq<char> {
    "  "@ + marker(e.is_current) + " "@ + e.preset.label_text() + (if e.is_available {
        ""@
    } else {
        UNAVAILABLE_NOTE@
    })
}

/// The lines of a list: what is in use, a title, the entries and a hint.
pub open spec fn menu(
    current: Seq<char>,
    title: Seq<char>,
    entries: Seq<Seq<char>>,
    hint: Seq<char>,
) -> Seq<Seq<char>> {
    seq![current, title] + entries + seq![""@, hint]
}

pub open spec fn model_menu(r: ReplView) -> Seq<Seq<char>> {
    menu(
        "Current model: "@ + r.model,
        "Available models:"@,
        model_entries(r).map_values(|e: ModelPickerEntry| model_line(e)),
        MODEL_HINT@,
    )
}

pub open spec fn effort_menu(r: ReplView) -> Seq<Seq<char>> {
    menu(
        "Current effort: "@ + r.effort.label_text(),
        "Supported levels:"@,
        effort_entries(r).map_values(|e: EffortPickerEntry| effort_line(e)),
        EFFORT_HINT@,
    )
}

pub open spec fn preset_menu(r: ReplView, available: bool) -> Seq<Seq<char>> {
    menu(
        "Current permissions: "@ + r.preset().label_text(),
        "Available presets:"@,
        preset_entries(r, available).map_values(|e: PermissionsPickerEntry| preset_line(e)),
        PERMISSIONS_HINT@,
    )
}

fn marked(current: bool) -> (r: String)
    ensures
        r@ == "  "@ + marker(current) + " "@,
{
    let mut s = "  ".to_owned();
    if current {
        s.append(CHOSEN_MARKER);
    } else {
        s.append(" ");
    }
    s.append(" ");
    s
}

/// The lines of a list: what is in use, a title, the entries and a hint.
fn menu_lines(current: String, title: &str, entries: &Vec<String>, hint: &str) -> (r: Vec<String>)
    ensures
        text::views(r@) == menu(current@, title@, text::views(entries@), hint@),
{
    let mut r: Vec<String> = Vec::new();
    r.push(current);
    r.push(title.to_owned());
    let ghost head = seq![current@, title@];
    assert(text::views(r@) =~= head);
    let ghost all = text::views(entries@);
    let mut i: usize = 0;
    assert(text::views(r@) =~= head + all.take(0));
    while i < entries.len()
        invariant
            i <= entries@.len(),
            all == text::views(entries@),
            text::views(r@) == head + all.take(i as int),
        decreases entries@.len() - i,
    {
        let ghost before = r@;
        r.push(entries[i].clone());
        assert(text::views(r@) =~= text::views(before).push(all[i as int]));
        assert(head + all.take(i as int).push(all[i as int]) =~= head + all.take(i + 1));
        assert(text::views(r@) =~= head + all.take(i + 1));
        i = i + 1;
    }
    assert(all.take(i as int) =~= all);
    let ghost before = r@;
    r.push("".to_owned());
    r.push(hint.to_owned());
    proof {
        assert(text::views(r@) =~= text::views(before) + seq![""@, hint@]);
    }
    r
}

impl Repl {
    /// The list of models.
    pub fn build_model_picker_entries(&self) -> (r: Vec<ModelPickerEntry>)
        ensures
            r@ == model_entries(self@),
    {
        let models = model_info::supported_models();
        let provider = model_info::provider_for(self.model_config.model.as_str());
        let mut r: Vec<ModelPickerEntry> = Vec::new();
        let mut i: usize = 0;
        while i < models.len()
            invariant
                i <= models@.len(),
                models@ == model_info::registry(),
                provider == model_info::model_of(self@.model).provider,
                r@ =~= model_entries(self@).take(i as int),
            decreases models@.len() - i,
        {
            let m = models[i];
            r.push(
                ModelPickerEntry {
                    name: m.name,
                    description: m.description,
                    is_current: text::same(m.name, self.model_config.model.as_str()),
                    is_available: m.provider == provider,
                },
            );
            i = i + 1;
        }
        r
    }

    /// The list of efforts.
    pub fn build_effort_picker_entries(&self) -> (r: Vec<EffortPickerEntry>)
        ensures
            r@ == effort_entries(self@),
    {
        let efforts = model_info::lookup(self.model_config.model.as_str()).supported_efforts();
        let current = self.current_reasoning_effort();
        let mut r: Vec<EffortPickerEntry> = Vec::new();
        let mut i: usize = 0;
        while i < efforts.len()
            invariant
                i <= efforts@.len(),
                efforts@ == model_info::model_of(self@.model).efforts(),
                current == self@.effort,
                r@ =~= effort_entries(self@).take(i as int),
            decreases efforts@.len() - i,
        {
            r.push(EffortPickerEntry { effort: efforts[i], is_current: efforts[i] == current });
            i = i + 1;
        }
        r
    }

    /// The list of modes of reasoning.
    pub fn build_mode_picker_entries(&self) -> (r: Vec<ModePickerEntry>)
        ensures
            r@ == mode_entries(self@),
    {
        let current = self.current_reasoning_mode();
        let pro_available = model_info::supports_pro_mode(self.model_config.model.as_str());
        let r = vec![
            ModePickerEntry {
                mode: ReasoningMode::Standard,
                is_current: current == ReasoningMode::Standard,
                is_available: true,
            },
            ModePickerEntry {
                mode: ReasoningMode::Pro,
                is_current: current == ReasoningMode::Pro,
                is_available: pro_available,
            },
        ];
        assert(r@ =~= mode_entries(self@));
        r
    }

    /// The list of presets.
    pub fn build_permissions_picker_entries(&self, sandbox_available: bool) -> (r: Vec<
        PermissionsPickerEntry,
    >)
        ensures
            r@ == preset_entries(self@, sandbox_available),
    {
        let presets = config::permission_presets();
        let current = PermissionPreset::current(self.mode, self.approval_policy);
        let mut r: Vec<PermissionsPickerEntry> = Vec::new();
        let mut i: usize = 0;
        while i < presets.len()
            invariant
                i <= presets@.len(),
                presets@ == config::all_presets(),
                current == self@.preset(),
                r@ =~= preset_entries(self@, sandbox_available).take(i as int),
            decreases presets@.len() - i,
        {
            r.push(
                PermissionsPickerEntry {
                    preset: presets[i],
                    is_current: presets[i] == current,
                    is_available: presets[i].is_available(sandbox_available),
                },
            );
            i = i + 1;
        }
        r
    }

    /// The list of models as lines.
    pub fn handle_model_picker_fallback(&self) -> (r: Vec<String>)
        ensures
            text::views(r@) == model_menu(self@),
    {
        let entries = self.build_model_picker_entries();
        let mut lines: Vec<String> = Vec::new();
        let ghost want = model_entries(self@).map_values(|e: ModelPickerEntry| model_line(e));
        let mut i: usize = 0;
        assert(text::views(lines@) =~= want.take(0));
        while i < entries.len()
            invariant
                i <= entries@.len(),
                want == entries@.map_values(|e: ModelPickerEntry| model_line(e)),
                text::views(lines@) == want.take(i as int),
            decreases entries@.len() - i,
        {
            let e = entries[i];
            let mut line = marked(e.is_current);
            line.append(pad_right(e.name, MODEL_NAME_WIDTH).as_str());
            line.append(" ");
            line.append(e.description);
            let ghost before = lines@;
            assert(line@ =~= model_line(e));
            lines.push(line);
            assert(text::views(lines@) =~= text::views(before).push(want[i as int]));
            assert(want.take(i as int).push(want[i as int]) =~= want.take(i + 1));
            i = i + 1;
        }
        assert(want.take(i as int) =~= want);
        let mut current = "Current model: ".to_owned();
        current.append(self.model_config.model.as_str());
        menu_lines(current, "Available models:", &lines, MODEL_HINT)
    }

    /// The list of efforts as lines.
    pub fn handle_effort_picker_fallback(&self) -> (r: Vec<String>)
        ensures
            text::views(r@) == effort_menu(self@),
    {
        let entries = self.build_effort_picker_entries();
        let mut lines: Vec<String> = Vec::new();
        let ghost want = effort_entries(self@).map_values(|e: EffortPickerEntry| effort_line(e));
        let mut i: usize = 0;
        assert(text::views(lines@) =~= want.take(0));
        while i < entries.len()
            invariant
                i <= entries@.len(),
                want == entries@.map_values(|e: EffortPickerEntry| effort_line(e)),
                text::views(lines@) == want.take(i as int),
            decreases entries@.len() - i,
        {
            let e = entries[i];
            let mut line = marked(e.is_current);
            line.append(e.effort.as_label());
            let ghost before = lines@;
            lines.push(line);
            assert(text::views(lines@) =~= text::views(before).push(want[i as int]));
            assert(want.take(i as int).push(want[i as int]) =~= want.take(i + 1));
            i = i + 1;
        }
        assert(want.take(i as int) =~= want);
        let mut current = "Current effort: ".to_owned();
        current.append(self.current_reasoning_effort().as_label());
        menu_lines(current, "Supported levels:", &lines, EFFORT_HINT)
    }

    /// The list of presets as lines.
    pub fn handle_permissions_picker_fallback(&self, sandbox_available: bool) -> (r: Vec<String>)
        ensures
            text::views(r@) == preset_menu(self@, sandbox_available),
    {
        let entries = self.build_permissions_picker_entries(sandbox_available);
        let mut lines: Vec<String> = Vec::new();
        let ghost want = preset_entries(self@, sandbox_available).map_values(
            |e: PermissionsPickerEntry| preset_line(e),
        );
        let mut i: usize = 0;
        assert(text::views(lines@) =~= want.take(0));
        while i < entries.len()
            invariant
                i <= entries@.len(),
                want == entries@.map_values(|e: PermissionsPickerEntry| preset_line(e)),
                text::views(lines@) == want.take(i as int),
            decreases entries@.len() - i,
        {
            let e = entries[i];
            let mut line = marked(e.is_current);
            line.append(e.preset.label());
            line.append(
                if e.is_available {
                    ""
                } else {
                    UNAVAILABLE_NOTE
                },
            );
            let ghost before = lines@;
            lines.push(line);
            assert(text::views(lines@) =~= text::views(before).push(want[i as int]));
            assert(want.take(i as int).push(want[i as int]) =~= want.take(i + 1));
            i = i + 1;
        }
        assert(want.take(i as int) =~= want);
        let mut current = "Current permissions: ".to_owned();
        current.append(PermissionPreset::current(self.mode, self.approval_policy).label());
        menu_lines(current, "Available presets:", &lines, PERMISSIONS_HINT)
    }
}

/// A list of presets shows one of them as the one in use, and no other.
pub proof fn one_preset_is_in_use(r: ReplView, available: bool) -> (at: int)
    ensures
        0 <= at < preset_entries(r, available).len(),
        preset_entries(r, available)[at].preset == r.preset(),
        forall|i: int|
            0 <= i < preset_entries(r, available).len() ==> (#[trigger] preset_entries(
                r,
                available,
            )[i].is_current) == (i == at),
{
    let all = config::all_presets();
    let at: int = if all[0] == r.preset() {
        0
    } else if all[1] == r.preset() {
        1
    } else if all[2] == r.preset() {
        2
    } else if all[3] == r.preset() {
        3
    } else {
        4
    };
    at
}

/// A list of modes shows the one in use, and it can be chosen exactly where
/// a change to it would be accepted.
pub proof fn listed_modes_are_accepted(r: ReplView, i: int)
    requires
        0 <= i < mode_entries(r).len(),
    ensures
        mode_entries(r)[i].is_available == (r.mode_error(mode_entries(r)[i].mode) is None),
        mode_entries(r)[i].is_current == (mode_entries(r)[i].mode == r.thinking),
{
}

/// A model of the list can be switched to exactly where it is served by the
/// provider that the session talks to.
pub proof fn available_models_share_the_provider(r: ReplView, i: int)
    requires
        0 <= i < model_entries(r).len(),
    ensures
        model_entries(r)[i].is_available == (model_info::registry()[i].provider
            == model_info::model_of(r.model).provider),
        model_entries(r)[i].name == model_info::registry()[i].name,
{
}

} // verus!
