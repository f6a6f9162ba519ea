//! The commands that start with a slash.

use crate::config::PermissionPreset;
use crate::model_info::ReasoningEffort;
use crate::text;
use vstd::prelude::*;

verus! {

/// A command as it is listed.
#[derive(Debug, Clone, Copy)]
pub struct CommandEntry {
    pub name: &'static str,
    pub description: &'static str,
}

/// The commands, in the order in which they are listed.
pub open spec fn catalog() -> Seq<CommandEntry> {
    seq![
        CommandEntry { name: "/resume", description: "Resume a previous session" },
        CommandEntry { name: "/clear", description: "Clear the conversation history" },
        CommandEntry { name: "/compact", description: "Summarize older messages" },
        CommandEntry { name: "/model", description: "Choose the model" },
        CommandEntry { name: "/effort", description: "Choose the reasoning effort" },
        CommandEntry { name: "/mode", description: "Choose the reasoning mode" },
        CommandEntry { name: "/permissions", description: "Choose what commands may touch" },
        CommandEntry { name: "/exit", description: "Save the session and quit" },
    ]
}

/// The commands, in the order in which they are listed.
pub fn command_catalog() -> (r: Vec<CommandEntry>)
    ensures
        r@ == catalog(),
{
    let r = vec![
        CommandEntry { name: "/resume", description: "Resume a previous session" },
        CommandEntry { name: "/clear", description: "Clear the conversation history" },
        CommandEntry { name: "/compact", description: "Summarize older messages" },
        CommandEntry { name: "/model", description: "Choose the model" },
        CommandEntry { name: "/effort", description: "Choose the reasoning effort" },
        CommandEntry { name: "/mode", description: "Choose the reasoning mode" },
        CommandEntry { name: "/permissions", description: "Choose what commands may touch" },
        CommandEntry { name: "/exit", description: "Save the session and quit" },
    ];
    assert(r@ =~= catalog());
    r
}

/// The names of the commands.
pub open spec fn names(v: Seq<CommandEntry>) -> Seq<Seq<char>> {
    v.map_values(|e: CommandEntry| e.name@)
}

/// The names of all commands, for a user who entered none of them.
pub fn known_commands() -> (r: String)
    ensures
        r@ == text::joined(names(catalog()), " "@),
{
    let entries = command_catalog();
    let mut list: Vec<String> = Vec::new();
    let ghost all = names(catalog());
    let mut i: usize = 0;
    assert(text::views(list@) =~= all.take(0));
    while i < entries.len()
        invariant
            i <= entries@.len(),
            entries@ == catalog(),
            all == names(catalog()),
            text::views(list@) == all.take(i as int),
        decreases entries@.len() - i,
    {
        let ghost before = list@;
        list.push(entries[i].name.to_owned());
        assert(text::views(list@) =~= text::views(before).push(all[i as int]));
        assert(all.take(i as int).push(all[i as int]) =~= all.take(i + 1));
        i = i + 1;
    }
    assert(all.take(i as int) =~= all);
    text::join(&list, " ")
}

/// A command that was entered.
#[derive(Debug)]
pub enum Command {
    Exit,
    Clear,
    Resume,
    Compact,
    ModelPicker,
    ModelSet(String),
    EffortPicker,
    EffortSet(ReasoningEffort),
    ModePicker,
    PermissionsPicker,
    PermissionsSet(PermissionPreset),
}

#[verifier::ext_equal]
pub enum CommandView {
    Exit,
    Clear,
    Resume,
    Compact,
    ModelPicker,
    ModelSet { name: Seq<char> },
    EffortPicker,
    EffortSet { effort: ReasoningEffort },
    ModePicker,
    PermissionsPicker,
    PermissionsSet { preset: PermissionPreset },
}

impl View for Command {
    type V = CommandView;

    open spec fn view(&self) -> CommandView {
        match *self {
            Command::Exit => CommandView::Exit,
            Command::Clear => CommandView::Clear,
            Command::Resume => CommandView::Resume,
            Command::Compact => CommandView::Compact,
            Command::ModelPicker => CommandView::ModelPicker,
            Command::ModelSet(name) => CommandView::ModelSet { name: name@ },
            Command::EffortPicker => CommandView::EffortPicker,
            Command::EffortSet(effort) => CommandView::EffortSet { effort },
            Command::ModePicker => CommandView::ModePicker,
            Command::PermissionsPicker => CommandView::PermissionsPicker,
            Command::PermissionsSet(preset) => CommandView::PermissionsSet { preset },
        }
    }
}

/// What follows a command's name and a space.
pub open spec fn argument(s: Seq<char>, name: Seq<char>) -> Option<Seq<char>> {
    if text::has_prefix(s, name) {
        Some(text::trimmed(s.skip(name.len() as int)))
    } else {
        None
    }
}

fn argument_of(s: &str, name: &str) -> (r: Option<String>)
    ensures
        crate::api::option_view(r) == argument(s@, name@),
{
    if text::starts_with(s, name) {
        let from = name.unicode_len();
        let to = s.unicode_len();
        let rest = s.substring_char(from, to);
        assert(rest@ =~= s@.skip(name@.len() as int));
        Some(text::trim(rest))
    } else {
        None
    }
}

/// The effort of that name.
pub open spec fn effort_named(s: Seq<char>) -> Option<ReasoningEffort> {
    if s == "off"@ {
        Some(ReasoningEffort::Off)
    } else if s == "low"@ {
        Some(ReasoningEffort::Low)
    } else if s == "medium"@ {
        Some(ReasoningEffort::Medium)
    } else if s == "high"@ {
        Some(ReasoningEffort::High)
    } else if s == "xhigh"@ {
        Some(ReasoningEffort::XHigh)
    } else if s == "max"@ {
        Some(ReasoningEffort::Max)
    } else {
        None
    }
}

/// The effort of that name.
pub fn parse_effort(s: &str) -> (r: Option<ReasoningEffort>)
    ensures
        r == effort_named(s@),
{
    if text::same(s, "off") {
        Some(ReasoningEffort::Off)
    } else if text::same(s, "low") {
        Some(ReasoningEffort::Low)
    } else if text::same(s, "medium") {
        Some(ReasoningEffort::Medium)
    } else if text::same(s, "high") {
        Some(ReasoningEffort::High)
    } else if text::same(s, "xhigh") {
        Some(ReasoningEffort::XHigh)
    } else if text::same(s, "max") {
        Some(ReasoningEffort::Max)
    } else {
        None
    }
}

/// The command that a text enters, if it enters one.
pub open spec fn entered(s: Seq<char>) -> Option<CommandView> {
    if s == "/exit"@ {
        Some(CommandView::Exit)
    } else if s == "/clear"@ {
        Some(CommandView::Clear)
    } else if s == "/resume"@ {
        Some(CommandView::Resume)
    } else if s == "/compact"@ {
        Some(CommandView::Compact)
    } else if s == "/model"@ {
        Some(CommandView::ModelPicker)
    } else if s == "/effort"@ {
        Some(CommandView::EffortPicker)
    } else if s == "/mode"@ {
        Some(CommandView::ModePicker)
    } else if s == "/permissions"@ {
        Some(CommandView::PermissionsPicker)
    } else if argument(s, "/model "@) is Some {
        Some(CommandView::ModelSet { name: argument(s, "/model "@)->0 })
    } else if argument(s, "/effort "@) is Some && effort_named(argument(s, "/effort "@)->0) is Some {
        Some(CommandView::EffortSet { effort: effort_named(argument(s, "/effort "@)->0)->0 })
    } else if argument(s, "/permissions "@) is Some && PermissionPreset::named(
        argument(s, "/permissions "@)->0,
    ) is Some {
        Some(
            CommandView::PermissionsSet {
                preset: PermissionPreset::named(argument(s, "/permissions "@)->0)->0,
            },
        )
    } else {
        None
    }
}

/// The view of an optional command.
pub open spec fn command_view(c: Option<Command>) -> Option<CommandView> {
    match c {
        Some(c) => Some(c@),
        None => None,
    }
}

impl Command {
    /// The command that a text enters, if it enters one.
    pub fn from_str(s: &str) -> (r: Option<Command>)
        ensures
            command_view(r) == entered(s@),
    {
        if text::same(s, "/exit") {
            return Some(Command::Exit);
        }
        if text::same(s, "/clear") {
            return Some(Command::Clear);
        }
        if text::same(s, "/resume") {
            return Some(Command::Resume);
        }
        if text::same(s, "/compact") {
            return Some(Command::Compact);
        }
        if text::same(s, "/model") {
            return Some(Command::ModelPicker);
        }
        if text::same(s, "/effort") {
            return Some(Command::EffortPicker);
        }
        if text::same(s, "/mode") {
            return Some(Command::ModePicker);
        }
        if text::same(s, "/permissions") {
            return Some(Command::PermissionsPicker);
        }
        if let Some(name) = argument_of(s, "/model ") {
            return Some(Command::ModelSet(name));
        }
        let effort = match argument_of(s, "/effort ") {
            Some(label) => parse_effort(label.as_str()),
            None => None,
        };
        if let Some(effort) = effort {
            return Some(Command::EffortSet(effort));
        }
        let preset = match argument_of(s, "/permissions ") {
            Some(label) => PermissionPreset::parse(label.as_str()),
            None => None,
        };
        match preset {
            Some(preset) => Some(Command::PermissionsSet(preset)),
            None => None,
        }
    }
}

} // verus!
