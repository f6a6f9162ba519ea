//! Code blocks in a text are set off from it and highlighted.

use crate::text;
use syntect::easy::HighlightLines;
use syntect::highlighting::ThemeSet;
use syntect::parsing::SyntaxSet;
use syntect::util::as_24_bit_terminal_escaped;
use vstd::prelude::*;

verus! {

/// What a code block starts and ends with.
pub const FENCE: &'static str = "```";

/// The syntax of text that is no code.
pub const PLAIN_SYNTAX: &'static str = "Plain Text";

/// The theme that code is colored with.
pub const THEME: &'static str = "base16-ocean.dark";

/// The name of the syntax that goes by a token, such as a language.
pub uninterp spec fn token_syntax(token: Seq<char>) -> Option<Seq<char>>;

/// The name of the syntax of files with an extension.
pub uninterp spec fn extension_syntax(extension: Seq<char>) -> Option<Seq<char>>;

/// Lines of code with the control sequences that color them, if the syntax
/// and the theme are known.
pub uninterp spec fn colored_lines(
    theme: Seq<char>,
    syntax: Seq<char>,
    lines: Seq<Seq<char>>,
) -> Option<Seq<Seq<char>>>;

pub open spec fn name_view(name: Option<String>) -> Option<Seq<char>> {
    match name {
        Some(s) => Some(s@),
        None => None,
    }
}

/// The name of the syntax that goes by a token. This is
/// `SyntaxSet::find_syntax_by_token` of the crate `syntect`, on the syntaxes
/// that come with it. Only that the name depends on the token alone is used.
#[verifier::external_body]
fn find_by_token(token: &str) -> (r: Option<String>)
    ensures
        name_view(r) == token_syntax(token@),
{
    SyntaxSet::load_defaults_newlines().find_syntax_by_token(token).map(|s| s.name.clone())
}

/// The name of the syntax of files with an extension. This is
/// `SyntaxSet::find_syntax_by_extension` of the crate `syntect`, on the
/// syntaxes that come with it. Only that the name depends on the extension
/// alone is used.
#[verifier::external_body]
fn find_by_extension(extension: &str) -> (r: Option<String>)
    ensures
        name_view(r) == extension_syntax(extension@),
{
    SyntaxSet::load_defaults_newlines().find_syntax_by_extension(extension).map(|s| s.name.clone())
}

pub open spec fn lines_view(lines: Option<Vec<String>>) -> Option<Seq<Seq<char>>> {
    match lines {
        Some(v) => Some(text::views(v@)),
        None => None,
    }
}

/// Lines of code with the control sequences that color them, one for one.
/// This is `HighlightLines::highlight_line` of the crate `syntect`, with the
/// syntax and the theme of those names that come with it, written out by
/// `as_24_bit_terminal_escaped`. There is no result where no syntax or no
/// theme goes by the name. How a line is colored depends on the lines before
/// it, so all of them are handed over at once. A line that cannot be read is
/// left empty. Only that the lines depend on the arguments alone is used, and
/// that there are as many.
#[verifier::external_body]
fn color_lines(theme: &str, syntax: &str, lines: &Vec<String>) -> (r: Option<Vec<String>>)
    ensures
        lines_view(r) == colored_lines(theme@, syntax@, text::views(lines@)),
        r is Some ==> r->0@.len() == lines@.len(),
{
    let set = SyntaxSet::load_defaults_newlines();
    let themes = ThemeSet::load_defaults();
    let mut h = HighlightLines::new(set.find_syntax_by_name(syntax)?, themes.themes.get(theme)?);
    Some(lines.iter().map(|line| {
        as_24_bit_terminal_escaped(&h.highlight_line(line, &set).unwrap_or_default()[..], false)
    }).collect())
}

/// A part of a text.
#[derive(Debug)]
pub enum Segment {
    /// A line outside of code blocks.
    Line(String),
    Code {
        language: String,
        code: String,
        /// Whether the block ends before the text does.
        closed: bool,
    },
}

#[verifier::ext_equal]
#[allow(inconsistent_fields)]
pub enum SegmentView {
    Line { line: Seq<char> },
    Code { language: Seq<char>, code: Seq<char>, closed: bool },
}

impl View for Segment {
    type V = SegmentView;

    open spec fn view(&self) -> SegmentView {
        match *self {
            Segment::Line(line) => SegmentView::Line { line: line@ },
            Segment::Code { language, code, closed } => SegmentView::Code {
                language: language@,
                code: code@,
                closed,
            },
        }
    }
}

pub open spec fn segment_views(v: Seq<Segment>) -> Seq<SegmentView> {
    v.map_values(|s: Segment| s@)
}

/// A text without the backticks that it starts with.
pub open spec fn without_ticks(s: Seq<char>) -> Seq<char>
    decreases s.len(),
{
    if s.len() > 0 && s[0] == '`' {
        without_ticks(s.drop_first())
    } else {
        s
    }
}

fn skip_ticks(s: &str) -> (r: String)
    ensures
        r@ == without_ticks(s@),
{
    let chars = text::chars_of(s);
    let mut i: usize = 0;
    assert(s@.skip(0) =~= s@);
    while i < chars.len() && chars[i] == '`'
        invariant
            chars@ == s@,
            i <= s@.len(),
            without_ticks(s@) == without_ticks(s@.skip(i as int)),
        decreases s@.len() - i,
    {
        assert(s@.skip(i as int).drop_first() =~= s@.skip(i + 1));
        i = i + 1;
    }
    let r = text::text_of(&chars, i, chars.len());
    assert(r@ =~= s@.skip(i as int));
    r
}

/// What was read of a text: the parts that are done, and the language and the
/// code of the block that is open, if one is.
#[verifier::ext_equal]
pub struct Reading {
    pub done: Seq<SegmentView>,
    pub open: Option<(Seq<char>, Seq<char>)>,
}

impl Reading {
    pub open spec fn start() -> Reading {
        Reading { done: Seq::empty(), open: None }
    }

    /// One more line was read.
    pub open spec fn with_line(self, line: Seq<char>) -> Reading {
        if text::has_prefix(line, FENCE@) {
            match self.open {
                Some((language, code)) => Reading {
                    done: self.done.push(SegmentView::Code { language, code, closed: true }),
                    open: None,
                },
                None => Reading {
                    open: Some((text::trimmed(without_ticks(line)), Seq::empty())),
                    ..self
                },
            }
        } else {
            match self.open {
                Some((language, code)) => Reading {
                    open: Some((language, code + line + "\n"@)),
                    ..self
                },
                None => Reading { done: self.done.push(SegmentView::Line { line }), ..self },
            }
        }
    }

    /// Some lines were read.
    pub open spec fn with_lines(lines: Seq<Seq<char>>) -> Reading
        decreases lines.len(),
    {
        if lines.len() == 0 {
            Reading::start()
        } else {
            Reading::with_lines(lines.drop_last()).with_line(lines.last())
        }
    }

    /// The text ended.
    pub open spec fn ended(self) -> Seq<SegmentView> {
        match self.open {
            Some((language, code)) => self.done.push(
                SegmentView::Code { language, code, closed: false },
            ),
            None => self.done,
        }
    }
}

/// The parts of a text: its lines, and the blocks of code between fences.
pub open spec fn segments_of(s: Seq<char>) -> Seq<SegmentView> {
    Reading::with_lines(text::lines_in(s)).ended()
}

/// The parts of a text: its lines, and the blocks of code between fences. A
/// block that is not closed ends with the text.
pub fn segments(s: &str) -> (r: Vec<Segment>)
    ensures
        segment_views(r@) == segments_of(s@),
{
    let lines = text::lines(s);
    let ghost all = text::lines_in(s@);
    let mut done: Vec<Segment> = Vec::new();
    let mut in_block = false;
    let mut language = String::new();
    let mut code = String::new();
    let mut i: usize = 0;
    assert(all.take(0) =~= Seq::<Seq<char>>::empty());
    assert(segment_views(done@) =~= Reading::start().done);
    while i < lines.len()
        invariant
            i <= lines@.len(),
            text::views(lines@) == all,
            Reading::with_lines(all.take(i as int)) == (Reading {
                done: segment_views(done@),
                open: if in_block {
                    Some((language@, code@))
                } else {
                    None
                },
            }),
        decreases lines@.len() - i,
    {
        let line = lines[i].as_str();
        let ghost before = done@;
        proof {
            assert(all.take(i + 1).drop_last() =~= all.take(i as int));
            assert(all.take(i + 1).last() == line@);
        }
        if text::starts_with(line, FENCE) {
            if in_block {
                done.push(Segment::Code { language, code, closed: true });
                assert(segment_views(done@) =~= segment_views(before).push(
                    SegmentView::Code { language: language@, code: code@, closed: true },
                ));
                language = String::new();
                code = String::new();
                in_block = false;
            } else {
                language = text::trim(skip_ticks(line).as_str());
                code = String::new();
                assert(code@ =~= Seq::empty());
                in_block = true;
            }
        } else if in_block {
            code.append(line);
            code.append("\n");
        } else {
            done.push(Segment::Line(line.to_owned()));
            assert(segment_views(done@) =~= segment_views(before).push(
                SegmentView::Line { line: line@ },
            ));
        }
        i = i + 1;
    }
    assert(all.take(i as int) =~= all);
    if in_block {
        let ghost before = done@;
        done.push(Segment::Code { language, code, closed: false });
        assert(segment_views(done@) =~= segment_views(before).push(
            SegmentView::Code { language: language@, code: code@, closed: false },
        ));
    }
    done
}

/// The syntax that a language is highlighted with.
pub open spec fn chosen_syntax(
    language: Seq<char>,
    by_token: Option<Seq<char>>,
    by_extension: Option<Seq<char>>,
) -> Seq<char> {
    if language.len() == 0 {
        PLAIN_SYNTAX@
    } else if by_token is Some {
        by_token->0
    } else if by_extension is Some {
        by_extension->0
    } else {
        PLAIN_SYNTAX@
    }
}

/// The lines that are shown of some code: highlighted with its syntax, or
/// else as text that is no code, or else as they are.
pub open spec fn shown_code(
    lines: Seq<Seq<char>>,
    colored: Option<Seq<Seq<char>>>,
    plain: Option<Seq<Seq<char>>>,
) -> Seq<Seq<char>> {
    if colored is Some {
        colored->0
    } else if plain is Some {
        plain->0
    } else {
        lines
    }
}

/// What sets code off from the text around it.
#[derive(Debug)]
pub struct SyntaxHighlighter {
    pub top: String,
    pub side: String,
    pub bottom: String,
}

/// The lines of a block, each behind the side of its frame.
pub open spec fn framed_lines(side: Seq<char>, lines: Seq<Seq<char>>) -> Seq<char>
    decreases lines.len(),
{
    if lines.len() == 0 {
        Seq::empty()
    } else {
        framed_lines(side, lines.drop_last()) + side + "  "@ + lines.last() + "\n"@
    }
}

impl SyntaxHighlighter {
    /// A block in its frame.
    pub open spec fn framed(&self, lines: Seq<Seq<char>>) -> Seq<char> {
        self.top@ + "\n"@ + framed_lines(self.side@, lines) + self.bottom@
    }

    /// A block of code, highlighted and in its frame.
    pub open spec fn code_block(&self, code: Seq<char>, language: Seq<char>) -> Seq<char> {
        let syntax = chosen_syntax(language, token_syntax(language), extension_syntax(language));
        let lines = text::lines_in(code);
        self.framed(
            shown_code(
                lines,
                colored_lines(THEME@, syntax, lines),
                colored_lines(THEME@, PLAIN_SYNTAX@, lines),
            ),
        )
    }

    /// What is shown of some parts of a text.
    pub open spec fn shown(&self, parts: Seq<SegmentView>) -> Seq<char>
        decreases parts.len(),
    {
        if parts.len() == 0 {
            Seq::empty()
        } else {
            let before = self.shown(parts.drop_last());
            match parts.last() {
                SegmentView::Line { line } => before + line + "\n"@,
                SegmentView::Code { language, code, closed } => if closed {
                    before + self.code_block(code, language) + "\n"@
                } else {
                    before + self.code_block(code, language)
                },
            }
        }
    }
}

impl Default for SyntaxHighlighter {
    fn default() -> (r: Self)
        ensures
            r.top@ == "┌─────"@,
            r.side@ == "│"@,
            r.bottom@ == "└─────"@,
    {
        SyntaxHighlighter {
            top: "┌─────".to_owned(),
            side: "│".to_owned(),
            bottom: "└─────".to_owned(),
        }
    }
}

impl SyntaxHighlighter {
    /// A highlighter with a plain frame.
    pub fn new() -> (r: Self)
        ensures
            r.top@ == "┌─────"@,
            r.side@ == "│"@,
            r.bottom@ == "└─────"@,
    {
        SyntaxHighlighter::default()
    }

    /// A highlighter with a dimmed frame, for a terminal with color.
    pub fn dimmed() -> (r: Self)
        ensures
            r.top@ == "\u{1b}[2m┌─────\u{1b}[0m"@,
            r.side@ == "\u{1b}[2m│\u{1b}[0m"@,
            r.bottom@ == "\u{1b}[2m└─────\u{1b}[0m"@,
    {
        SyntaxHighlighter {
            top: "\u{1b}[2m┌─────\u{1b}[0m".to_owned(),
            side: "\u{1b}[2m│\u{1b}[0m".to_owned(),
            bottom: "\u{1b}[2m└─────\u{1b}[0m".to_owned(),
        }
    }

    /// A block in its frame, from lines that are highlighted already.
    pub fn frame_lines(&self, lines: &Vec<String>) -> (r: String)
        ensures
            r@ == self.framed(text::views(lines@)),
    {
        let ghost all = text::views(lines@);
        let mut r = self.top.clone();
        r.append("\n");
        let ghost head = r@;
        let mut i: usize = 0;
        assert(all.take(0) =~= Seq::<Seq<char>>::empty());
        assert(r@ =~= head + framed_lines(self.side@, all.take(0)));
        while i < lines.len()
            invariant
                i <= lines@.len(),
                all == text::views(lines@),
                r@ == head + framed_lines(self.side@, all.take(i as int)),
            decreases lines@.len() - i,
        {
            proof {
                assert(all.take(i + 1).drop_last() =~= all.take(i as int));
                assert(all.take(i + 1).last() == lines@[i as int]@);
            }
            r.append(self.side.as_str());
            r.append("  ");
            r.append(lines[i].as_str());
            r.append("\n");
            assert(r@ =~= head + framed_lines(self.side@, all.take(i + 1)));
            i = i + 1;
        }
        assert(all.take(i as int) =~= all);
        r.append(self.bottom.as_str());
        r
    }

    /// A block of code, highlighted and in its frame.
    pub fn highlight_code(&self, code: &str, language: &str) -> (r: String)
        ensures
            r@ == self.code_block(code@, language@),
    {
        let plain = PLAIN_SYNTAX.to_owned();
        let syntax = if language.is_empty() {
            plain
        } else {
            match find_by_token(language) {
                Some(name) => name,
                None => match find_by_extension(language) {
                    Some(name) => name,
                    None => plain,
                },
            }
        };
        let lines = text::lines(code);
        let shown = match color_lines(THEME, syntax.as_str(), &lines) {
            Some(colored) => colored,
            None => match color_lines(THEME, PLAIN_SYNTAX, &lines) {
                Some(plain) => plain,
                None => lines,
            },
        };
        self.frame_lines(&shown)
    }

    /// A text with its code blocks highlighted, without white space at its
    /// end.
    pub fn highlight_text(&self, s: &str) -> (r: String)
        ensures
            r@ == text::trim_end(self.shown(segments_of(s@))),
    {
        let parts = segments(s);
        let ghost all = segments_of(s@);
        let mut out = String::new();
        let mut i: usize = 0;
        assert(all.take(0) =~= Seq::<SegmentView>::empty());
        assert(out@ =~= self.shown(all.take(0)));
        while i < parts.len()
            invariant
                i <= parts@.len(),
                segment_views(parts@) == all,
                out@ == self.shown(all.take(i as int)),
            decreases parts@.len() - i,
        {
            proof {
                assert(all.take(i + 1).drop_last() =~= all.take(i as int));
                assert(all.take(i + 1).last() == parts@[i as int]@);
            }
            match &parts[i] {
                Segment::Line(line) => {
                    out.append(line.as_str());
                    out.append("\n");
                },
                Segment::Code { language, code, closed } => {
                    let block = self.highlight_code(code.as_str(), language.as_str());
                    out.append(block.as_str());
                    if *closed {
                        out.append("\n");
                    }
                },
            }
            i = i + 1;
        }
        assert(all.take(i as int) =~= all);
        text::trim_end_text(out.as_str())
    }
}

/// A text without fences is left as it is, but for its line breaks and the
/// white space at its end: each of its lines is a part by itself.
pub proof fn text_without_fences_is_kept(lines: Seq<Seq<char>>)
    requires
        forall|i: int| 0 <= i < lines.len() ==> !text::has_prefix(#[trigger] lines[i], FENCE@),
    ensures
        Reading::with_lines(lines).ended() == lines.map_values(
            |line: Seq<char>| SegmentView::Line { line },
        ),
        Reading::with_lines(lines).open is None,
    decreases lines.len(),
{
    let meant = lines.map_values(|line: Seq<char>| SegmentView::Line { line });
    if lines.len() > 0 {
        let init = lines.drop_last();
        assert forall|i: int| 0 <= i < init.len() implies !text::has_prefix(
            #[trigger] init[i],
            FENCE@,
        ) by {
            assert(!text::has_prefix(lines[i], FENCE@));
        }
        text_without_fences_is_kept(init);
        assert(!text::has_prefix(lines[lines.len() - 1], FENCE@));
        let before = init.map_values(|line: Seq<char>| SegmentView::Line { line });
        assert(before.push(SegmentView::Line { line: lines.last() }) =~= meant);
    } else {
        assert(Reading::with_lines(lines).ended() =~= meant);
    }
}

/// At most one block is left open, and it comes last.
pub proof fn only_the_last_block_is_open(lines: Seq<Seq<char>>)
    ensures
        forall|i: int|
            0 <= i < Reading::with_lines(lines).done.len() ==> match #[trigger] Reading::with_lines(
                lines,
            ).done[i] {
                SegmentView::Code { language, code, closed } => closed,
                _ => true,
            },
    decreases lines.len(),
{
    if lines.len() > 0 {
        only_the_last_block_is_open(lines.drop_last());
    }
}

} // verus!
