//! What holds of what the user enters: commands, marks of pasted images and
//! code in a text.

use crate::clipboard;
use crate::commands;
use crate::commands::CommandView;
use crate::config;
use crate::config::PermissionPreset;
use crate::model_info::ReasoningEffort;
use crate::syntax;
use crate::syntax::{Reading, SegmentView, SyntaxHighlighter};
use crate::text;
use crate::text_laws;
use vstd::prelude::*;

verus! {

proof fn lemma_trimmed_word(s: Seq<char>)
    requires
        s.len() > 0,
        !text::is_white(s.first()),
        !text::is_white(s.last()),
    ensures
        text::trimmed(s) == s,
{
    let none = Seq::<char>::empty();
    text_laws::text_without_margins_is_kept(none, s, none);
    assert(none + s + none =~= s);
}

proof fn lemma_no_bare_command(s: Seq<char>, name: Seq<char>)
    requires
        s == "/model "@ + name || s == "/effort "@ + name || s == "/permissions "@ + name,
    ensures
        s != "/exit"@,
        s != "/clear"@,
        s != "/resume"@,
        s != "/compact"@,
        s != "/model"@,
        s != "/effort"@,
        s != "/mode"@,
        s != "/permissions"@,
        s == "/model "@ + name ==> text::has_prefix(s, "/model "@) && s.skip(7) == name,
        s == "/effort "@ + name ==> text::has_prefix(s, "/effort "@) && s.skip(8) == name,
        s == "/permissions "@ + name ==> text::has_prefix(s, "/permissions "@) && s.skip(13)
            == name,
        s != "/model "@ + name ==> !text::has_prefix(s, "/model "@),
        s == "/permissions "@ + name ==> !text::has_prefix(s, "/effort "@),
{
    reveal_strlit("/model ");
    reveal_strlit("/effort ");
    reveal_strlit("/permissions ");
    reveal_strlit("/exit");
    reveal_strlit("/clear");
    reveal_strlit("/resume");
    reveal_strlit("/compact");
    reveal_strlit("/model");
    reveal_strlit("/effort");
    reveal_strlit("/mode");
    reveal_strlit("/permissions");
    if s == "/model "@ + name {
        assert(s[6] == ' ' && s[1] == 'm');
        assert(s.skip(7) =~= name);
        assert(s.take(7) =~= "/model "@);
        assert("/resume"@[6] == 'e' && "/compact"@[6] == 'c' && "/effort"@[6] == 't'
            && "/permissions"@[6] == 's');
    } else if s == "/effort "@ + name {
        assert(s[7] == ' ' && s[1] == 'e');
        assert(s.skip(8) =~= name);
        assert(s.take(8) =~= "/effort "@);
        assert("/compact"@[7] == 't' && "/permissions"@[7] == 's');
    } else {
        assert(s[12] == ' ' && s[1] == 'p');
        assert(s.skip(13) =~= name);
        assert(s.take(13) =~= "/permissions "@);
    }
    if text::has_prefix(s, "/model "@) {
        assert(s[1] == "/model "@[1]);
        assert(s[1] == 'm');
    }
    if text::has_prefix(s, "/effort "@) {
        assert(s[1] == "/effort "@[1]);
        assert(s[1] == 'e');
    }
}

/// Entering a command's name alone opens what belongs to it.
pub proof fn bare_commands_are_entered()
    ensures
        commands::entered("/exit"@) == Some(CommandView::Exit),
        commands::entered("/clear"@) == Some(CommandView::Clear),
        commands::entered("/resume"@) == Some(CommandView::Resume),
        commands::entered("/compact"@) == Some(CommandView::Compact),
        commands::entered("/model"@) == Some(CommandView::ModelPicker),
        commands::entered("/effort"@) == Some(CommandView::EffortPicker),
        commands::entered("/mode"@) == Some(CommandView::ModePicker),
        commands::entered("/permissions"@) == Some(CommandView::PermissionsPicker),
        forall|i: int|
            0 <= i < commands::catalog().len() ==> commands::entered(
                (#[trigger] commands::catalog()[i]).name@,
            ) is Some,
{
    reveal_strlit("/exit");
    reveal_strlit("/clear");
    reveal_strlit("/resume");
    reveal_strlit("/compact");
    reveal_strlit("/model");
    reveal_strlit("/effort");
    reveal_strlit("/mode");
    reveal_strlit("/permissions");
    assert("/exit"@.len() == 5 && "/mode"@.len() == 5 && "/exit"@[1] == 'e' && "/mode"@[1] == 'm');
    assert("/clear"@.len() == 6 && "/model"@.len() == 6 && "/clear"@[1] == 'c' && "/model"@[1]
        == 'm');
    assert("/resume"@.len() == 7 && "/effort"@.len() == 7 && "/resume"@[1] == 'r' && "/effort"@[1]
        == 'e');
    assert("/compact"@.len() == 8 && "/permissions"@.len() == 12);
}

/// A setting is entered by its own name behind the command: the model by
/// whatever name is given, an effort and a preset by the name that they go
/// by.
pub proof fn settings_are_entered_by_name(
    name: Seq<char>,
    effort: ReasoningEffort,
    preset: PermissionPreset,
)
    ensures
        commands::entered("/model "@ + name) == Some(
            CommandView::ModelSet { name: text::trimmed(name) },
        ),
        commands::entered("/effort "@ + effort.label_text()) == Some(
            CommandView::EffortSet { effort },
        ),
        commands::entered("/permissions "@ + preset.label_text()) == Some(
            CommandView::PermissionsSet { preset },
        ),
{
    lemma_no_bare_command("/model "@ + name, name);
    reveal_strlit("/model ");
    reveal_strlit("/effort ");
    reveal_strlit("/permissions ");
    let e = effort.label_text();
    lemma_no_bare_command("/effort "@ + e, e);
    reveal_strlit("off");
    reveal_strlit("low");
    reveal_strlit("medium");
    reveal_strlit("high");
    reveal_strlit("xhigh");
    reveal_strlit("max");
    assert("off"@[0] == 'o' && "low"@[0] == 'l' && "medium"@[0] == 'm' && "high"@[0] == 'h'
        && "xhigh"@[0] == 'x' && "max"@[0] == 'm');
    assert("off"@.len() == 3 && "low"@.len() == 3 && "medium"@.len() == 6 && "high"@.len() == 4
        && "xhigh"@.len() == 5 && "max"@.len() == 3);
    assert("off"@[2] == 'f' && "low"@[2] == 'w' && "medium"@[5] == 'm' && "high"@[3] == 'h'
        && "xhigh"@[4] == 'h' && "max"@[2] == 'x');
    lemma_trimmed_word(e);
    assert(commands::effort_named(e) == Some(effort));
    let p = preset.label_text();
    lemma_no_bare_command("/permissions "@ + p, p);
    reveal_strlit("read-only");
    reveal_strlit("unsandboxed");
    reveal_strlit("sandboxed-strict");
    reveal_strlit("sandboxed-ask");
    reveal_strlit("sandboxed-retry");
    assert("read-only"@[8] == 'y' && "unsandboxed"@[10] == 'd' && "sandboxed-strict"@[15] == 't'
        && "sandboxed-ask"@[12] == 'k' && "sandboxed-retry"@[14] == 'y');
    assert("read-only"@[0] == 'r' && "unsandboxed"@[0] == 'u' && "sandboxed-strict"@[0] == 's'
        && "sandboxed-ask"@[0] == 's' && "sandboxed-retry"@[0] == 's');
    lemma_trimmed_word(p);
    config::preset_labels_are_distinct(preset, preset);
}

/// What does not start with a slash is no command.
pub proof fn other_text_is_no_command(s: Seq<char>)
    requires
        s.len() == 0 || s[0] != '/',
    ensures
        commands::entered(s) is None,
{
    reveal_strlit("/exit");
    reveal_strlit("/clear");
    reveal_strlit("/resume");
    reveal_strlit("/compact");
    reveal_strlit("/model");
    reveal_strlit("/effort");
    reveal_strlit("/mode");
    reveal_strlit("/permissions");
    reveal_strlit("/model ");
    reveal_strlit("/effort ");
    reveal_strlit("/permissions ");
    if text::has_prefix(s, "/model "@) {
        assert(s[0] == "/model "@[0]);
    }
    if text::has_prefix(s, "/effort "@) {
        assert(s[0] == "/effort "@[0]);
    }
    if text::has_prefix(s, "/permissions "@) {
        assert(s[0] == "/permissions "@[0]);
    }
}

/// Only the six names of efforts name one.
pub proof fn efforts_are_found_by_name(s: Seq<char>)
    ensures
        commands::effort_named(s) is Some ==> commands::effort_named(s)->0.label_text() == s,
        commands::effort_named(s) is None ==> s != "off"@ && s != "low"@ && s != "medium"@ && s
            != "high"@ && s != "xhigh"@ && s != "max"@,
{
}

/// The marks are the circled numbers from one on.
pub proof fn marks_are_circled_numbers(i: int, c: char)
    requires
        0 <= i < 20,
    ensures
        clipboard::marker(i) as u32 == '①' as u32 + i,
        clipboard::is_marker(c) == ('①' as u32 <= c as u32 <= '⑳' as u32),
{
}

/// An input is read character by character: a mark refers to its image and
/// is not text, and everything else is text.
pub proof fn marks_are_read_in_order(a: Seq<char>, b: Seq<char>, c: char)
    ensures
        clipboard::marked(a + b) == clipboard::marked(a) + clipboard::marked(b),
        clipboard::unmarked(a + b) == clipboard::unmarked(a) + clipboard::unmarked(b),
        '①' as u32 <= c as u32 <= '⑳' as u32 ==> clipboard::marked(seq![c]) == seq![
            (c as u32 - '①' as u32) as usize,
        ] && clipboard::unmarked(seq![c]).len() == 0,
        !('①' as u32 <= c as u32 <= '⑳' as u32) ==> clipboard::marked(seq![c]).len() == 0
            && clipboard::unmarked(seq![c]) == seq![c],
    decreases b.len(),
{
    assert(seq![c].drop_last() =~= Seq::<char>::empty());
    assert(clipboard::marked(Seq::empty()) =~= Seq::<usize>::empty());
    assert(clipboard::unmarked(Seq::empty()) =~= Seq::<char>::empty());
    if clipboard::is_marker(c) {
        assert(clipboard::marked(seq![c]) =~= seq![(c as u32 - '①' as u32) as usize]);
    } else {
        assert(clipboard::unmarked(seq![c]) =~= seq![c]);
    }
    if b.len() == 0 {
        assert(a + b =~= a);
        assert(clipboard::marked(a) + clipboard::marked(b) =~= clipboard::marked(a));
        assert(clipboard::unmarked(a) + clipboard::unmarked(b) =~= clipboard::unmarked(a));
    } else {
        marks_are_read_in_order(a, b.drop_last(), c);
        assert((a + b).drop_last() =~= a + b.drop_last());
        assert((a + b).last() == b.last());
        assert(clipboard::marked(a + b) =~= clipboard::marked(a) + clipboard::marked(b));
        assert(clipboard::unmarked(a + b) =~= clipboard::unmarked(a) + clipboard::unmarked(b));
    }
}

/// The text of an input is what is left without marks, without the white
/// space around it; what is put in for an image is its mark and a blank.
pub proof fn input_is_cleaned_of_marks(s: Seq<char>, c: char)
    ensures
        clipboard::cleaned(s) == text::trimmed(clipboard::unmarked(s)),
        clipboard::marker_text(c).len() == 2,
        clipboard::marker_text(c)[0] == c,
        clipboard::marker_text(c)[1] == ' ',
{
}

/// Lines with a line break behind each.
pub open spec fn with_breaks(v: Seq<Seq<char>>) -> Seq<char>
    decreases v.len(),
{
    if v.len() == 0 {
        Seq::empty()
    } else {
        with_breaks(v.drop_last()) + v.last() + "\n"@
    }
}

/// Whether none of some lines starts with three backticks.
pub open spec fn fence_free(v: Seq<Seq<char>>) -> bool {
    forall|i: int| 0 <= i < v.len() ==> !"```"@.is_prefix_of(#[trigger] v[i])
}

proof fn lemma_fence(s: Seq<char>)
    ensures
        text::has_prefix(s, syntax::FENCE@) == "```"@.is_prefix_of(s),
{
    text_laws::prefix_and_rest("```"@, s, s);
}

proof fn lemma_outside(before: Seq<Seq<char>>, v: Seq<Seq<char>>)
    requires
        fence_free(v),
        Reading::with_lines(before).open is None,
    ensures
        ({
            let now = Reading::with_lines(before + v);
            &&& now.open is None
            &&& now.done == Reading::with_lines(before).done + v.map_values(
                |line: Seq<char>| SegmentView::Line { line },
            )
        }),
    decreases v.len(),
{
    let was = Reading::with_lines(before);
    if v.len() == 0 {
        assert(before + v =~= before);
        assert(was.done + v.map_values(|line: Seq<char>| SegmentView::Line { line }) =~= was.done);
    } else {
        let t = v.drop_last();
        assert forall|i: int| 0 <= i < t.len() implies !"```"@.is_prefix_of(#[trigger] t[i]) by {
            assert(t[i] == v[i]);
        }
        lemma_outside(before, t);
        assert((before + v).drop_last() =~= before + t);
        lemma_fence(v.last());
        assert(!"```"@.is_prefix_of(v[v.len() - 1]));
        assert(was.done + v.map_values(|line: Seq<char>| SegmentView::Line { line }) =~= (was.done
            + t.map_values(|line: Seq<char>| SegmentView::Line { line })).push(
            SegmentView::Line { line: v.last() },
        ));
    }
}

proof fn lemma_inside(before: Seq<Seq<char>>, v: Seq<Seq<char>>)
    requires
        fence_free(v),
        Reading::with_lines(before).open is Some,
    ensures
        ({
            let was = Reading::with_lines(before);
            let now = Reading::with_lines(before + v);
            let block = was.open->0;
            &&& now.done == was.done
            &&& now.open == Some((block.0, block.1 + with_breaks(v)))
        }),
    decreases v.len(),
{
    let was = Reading::with_lines(before);
    let block = was.open->0;
    if v.len() == 0 {
        assert(before + v =~= before);
        assert(block.1 + with_breaks(v) =~= block.1);
    } else {
        let t = v.drop_last();
        assert forall|i: int| 0 <= i < t.len() implies !"```"@.is_prefix_of(#[trigger] t[i]) by {
            assert(t[i] == v[i]);
        }
        lemma_inside(before, t);
        assert((before + v).drop_last() =~= before + t);
        lemma_fence(v.last());
        assert(!"```"@.is_prefix_of(v[v.len() - 1]));
        assert(block.1 + with_breaks(v) =~= block.1 + with_breaks(t) + v.last()
            + "\n"@);
    }
}

/// Lines between two fences are one block of code, in the language that the
/// first fence names, line by line as they are; the lines before them are
/// lines of text. A block without a second fence ends with the text.
pub proof fn code_stands_between_fences(
    before: Seq<Seq<char>>,
    opening: Seq<char>,
    code: Seq<Seq<char>>,
    closing: Seq<char>,
)
    requires
        fence_free(before),
        fence_free(code),
        "```"@.is_prefix_of(opening),
        "```"@.is_prefix_of(closing),
    ensures
        ({
            let open = before + seq![opening] + code;
            let language = text::trimmed(syntax::without_ticks(opening));
            let lines = before.map_values(|line: Seq<char>| SegmentView::Line { line });
            &&& Reading::with_lines(open).ended() == lines.push(
                SegmentView::Code { language, code: with_breaks(code), closed: false },
            )
            &&& Reading::with_lines(open.push(closing)).ended() == lines.push(
                SegmentView::Code { language, code: with_breaks(code), closed: true },
            )
        }),
{
    let none = Seq::<Seq<char>>::empty();
    lemma_outside(none, before);
    assert(none + before =~= before);
    let lines = before.map_values(|line: Seq<char>| SegmentView::Line { line });
    assert(Reading::with_lines(none).done + lines =~= lines);
    lemma_fence(opening);
    lemma_fence(closing);
    let started = before + seq![opening];
    assert(started.drop_last() =~= before);
    assert(started.last() == opening);
    lemma_inside(started, code);
    assert(Seq::<char>::empty() + with_breaks(code) =~= with_breaks(code));
    let open = started + code;
    assert(open.push(closing).drop_last() =~= open);
}

/// The language of a fence is what stands behind all its backticks.
pub proof fn ticks_are_skipped(s: Seq<char>)
    ensures
        ({
            let rest = syntax::without_ticks(s);
            let n = s.len() - rest.len();
            &&& 0 <= n
            &&& rest == s.skip(n)
            &&& forall|i: int| 0 <= i < n ==> (#[trigger] s[i]) == '`'
            &&& rest.len() > 0 ==> rest[0] != '`'
        }),
    decreases s.len(),
{
    if s.len() > 0 && s[0] == '`' {
        let t = s.drop_first();
        ticks_are_skipped(t);
        let rest = syntax::without_ticks(t);
        let n = t.len() - rest.len();
        assert(t.skip(n) =~= s.skip(n + 1));
        assert forall|i: int| 0 <= i < n + 1 implies (#[trigger] s[i]) == '`' by {
            if i > 0 {
                assert(t[i - 1] == s[i]);
            }
        }
    } else {
        assert(s.skip(0) =~= s);
    }
}

/// A block of code is shown line by line behind the side of its frame,
/// between the top and the bottom.
pub proof fn code_is_framed_line_by_line(
    h: SyntaxHighlighter,
    lines: Seq<Seq<char>>,
    line: Seq<char>,
)
    ensures
        h.framed(Seq::empty()) == h.top@ + "\n"@ + h.bottom@,
        ({
            let shown = h.framed(lines);
            let body = shown.take(shown.len() - h.bottom@.len());
            &&& shown == body + h.bottom@
            &&& h.framed(lines.push(line)) == body + h.side@ + "  "@ + line + "\n"@ + h.bottom@
        }),
{
    assert(h.framed(Seq::empty()) =~= h.top@ + "\n"@ + h.bottom@);
    let shown = h.framed(lines);
    let body = h.top@ + "\n"@ + syntax::framed_lines(h.side@, lines);
    assert(shown.take(shown.len() - h.bottom@.len()) =~= body);
    assert(lines.push(line).drop_last() =~= lines);
    assert(h.framed(lines.push(line)) =~= body + h.side@ + "  "@ + line + "\n"@ + h.bottom@);
}

/// The parts of a text are shown one after the other: a line with a line
/// break, a block of code in its frame, with a line break behind it where
/// it is closed.
pub proof fn parts_are_shown_in_order(
    h: SyntaxHighlighter,
    parts: Seq<SegmentView>,
    line: Seq<char>,
    language: Seq<char>,
    code: Seq<char>,
)
    ensures
        h.shown(Seq::empty()).len() == 0,
        h.shown(parts.push(SegmentView::Line { line })) == h.shown(parts) + line + "\n"@,
        h.shown(parts.push(SegmentView::Code { language, code, closed: true })) == h.shown(parts)
            + h.code_block(code, language) + "\n"@,
        h.shown(parts.push(SegmentView::Code { language, code, closed: false })) == h.shown(parts)
            + h.code_block(code, language),
{
    assert(parts.push(SegmentView::Line { line }).drop_last() =~= parts);
    assert(parts.push(SegmentView::Code { language, code, closed: true }).drop_last() =~= parts);
    assert(parts.push(SegmentView::Code { language, code, closed: false }).drop_last() =~= parts);
}

/// A language is looked up by its name and then by its ending; code in none
/// and in one that is not known is shown as plain text.
pub proof fn language_is_looked_up(
    language: Seq<char>,
    token: Option<Seq<char>>,
    ending: Option<Seq<char>>,
)
    ensures
        language.len() == 0 ==> syntax::chosen_syntax(language, token, ending) == "Plain Text"@,
        language.len() > 0 && token is Some ==> syntax::chosen_syntax(language, token, ending)
            == token->0,
        language.len() > 0 && token is None && ending is Some ==> syntax::chosen_syntax(
            language,
            token,
            ending,
        ) == ending->0,
        token is None && ending is None ==> syntax::chosen_syntax(language, token, ending)
            == "Plain Text"@,
{
}


/// Code is shown in color wherever it can be: in the colors of its language,
/// else in those of plain text, else as it is.
pub proof fn code_is_colored_where_it_can_be(
    lines: Seq<Seq<char>>,
    colored: Seq<Seq<char>>,
    plain: Option<Seq<Seq<char>>>,
)
    ensures
        syntax::shown_code(lines, Some(colored), plain) == colored,
        plain is Some ==> syntax::shown_code(lines, None, plain) == plain->0,
        plain is None ==> syntax::shown_code(lines, None, plain) == lines,
{
}


/// A block of code in a language of a known name is shown in its colors. One
/// that has no language is shown in those of plain text, and so is one whose
/// own colors cannot be had.
pub proof fn block_is_shown_in_its_colors(
    h: SyntaxHighlighter,
    code: Seq<char>,
    language: Seq<char>,
    name: Seq<char>,
    colored: Seq<Seq<char>>,
)
    ensures
        ({
            let lines = text::lines_in(code);
            let by_name = syntax::colored_lines("base16-ocean.dark"@, name, lines);
            let by_none = syntax::colored_lines("base16-ocean.dark"@, "Plain Text"@, lines);
            let known = language.len() > 0 && syntax::token_syntax(language) == Some(name);
            &&& known && by_name == Some(colored) ==> h.code_block(code, language) == h.framed(
                colored,
            )
            &&& known && by_name is None && by_none == Some(colored) ==> h.code_block(
                code,
                language,
            ) == h.framed(colored)
            &&& language.len() == 0 && by_none == Some(colored) ==> h.code_block(code, language)
                == h.framed(colored)
            &&& language.len() == 0 && by_none is None ==> h.code_block(code, language)
                == h.framed(lines)
        }),
{
}

} // verus!
