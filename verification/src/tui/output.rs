//! Lines of output on their way to the screen. Each is shown by itself, so
//! the style that the lines before left switched on is put before it.

use super::event::OutputKind;
use crate::session::selector;
use crate::text;
use vstd::prelude::*;

verus! {

/// What a control sequence starts with, before its bracket.
pub const ESC: char = '\u{1b}';

/// How letters look, besides their color.
#[derive(Debug, Clone, Copy, PartialEq, Eq, Structural)]
pub struct SgrAttrs {
    pub bold: bool,
    pub dim: bool,
    pub italic: bool,
    pub underline: bool,
    pub slow_blink: bool,
    pub rapid_blink: bool,
    pub reverse: bool,
    pub conceal: bool,
    pub strike: bool,
}

/// A color.
#[derive(Debug, Clone, Copy, PartialEq, Eq, Structural)]
pub enum SgrColor {
    /// Whatever the terminal has.
    Default,
    /// One of the sixteen, by the parameter that switches it on.
    Basic(u16),
    /// One of the palette.
    Indexed(u8),
    Rgb(u8, u8, u8),
}

/// The style that control sequences have switched on.
#[derive(Debug, Clone, Copy, PartialEq, Eq, Structural)]
pub struct SgrState {
    pub attrs: SgrAttrs,
    pub fg: SgrColor,
    pub bg: SgrColor,
}

impl SgrAttrs {
    pub open spec fn none() -> SgrAttrs {
        SgrAttrs {
            bold: false,
            dim: false,
            italic: false,
            underline: false,
            slow_blink: false,
            rapid_blink: false,
            reverse: false,
            conceal: false,
            strike: false,
        }
    }
}

impl Default for SgrAttrs {
    fn default() -> (r: Self)
        ensures
            r == SgrAttrs::none(),
    {
        SgrAttrs {
            bold: false,
            dim: false,
            italic: false,
            underline: false,
            slow_blink: false,
            rapid_blink: false,
            reverse: false,
            conceal: false,
            strike: false,
        }
    }
}

impl SgrState {
    /// The style of a terminal that nothing was switched on in.
    pub open spec fn plain() -> SgrState {
        SgrState { attrs: SgrAttrs::none(), fg: SgrColor::Default, bg: SgrColor::Default }
    }
}

impl Default for SgrState {
    fn default() -> (r: Self)
        ensures
            r == SgrState::plain(),
    {
        SgrState { attrs: SgrAttrs::default(), fg: SgrColor::Default, bg: SgrColor::Default }
    }
}

pub open spec fn is_param(c: char) -> bool {
    ('0' <= c && c <= '9') || c == ';' || c == ':'
}

pub open spec fn is_private(c: char) -> bool {
    c == '?' || c == '<' || c == '=' || c == '>'
}

pub open spec fn is_intermediate(c: char) -> bool {
    ' ' <= c && c <= '/'
}

/// The characters that may follow one another inside a control sequence.
#[derive(Debug, Clone, Copy, PartialEq, Eq, Structural)]
pub enum Run {
    Params,
    ParamsOrPrivate,
    Intermediates,
}

impl Run {
    pub open spec fn holds(self, c: char) -> bool {
        match self {
            Run::Params => is_param(c),
            Run::ParamsOrPrivate => is_param(c) || is_private(c),
            Run::Intermediates => is_intermediate(c),
        }
    }

    fn has(self, c: char) -> (r: bool)
        ensures
            r == self.holds(c),
    {
        let param = ('0' <= c && c <= '9') || c == ';' || c == ':';
        match self {
            Run::Params => param,
            Run::ParamsOrPrivate => param || c == '?' || c == '<' || c == '=' || c == '>',
            Run::Intermediates => ' ' <= c && c <= '/',
        }
    }

    /// The first place from `i` on that does not belong to the run.
    pub open spec fn end(self, s: Seq<char>, i: int) -> int
        decreases s.len() - i,
    {
        if 0 <= i < s.len() && self.holds(s[i]) {
            self.end(s, i + 1)
        } else {
            i
        }
    }

    fn skip(self, s: &Vec<char>, from: usize) -> (r: usize)
        requires
            from <= s@.len(),
        ensures
            r == self.end(s@, from as int),
            from <= r <= s@.len(),
    {
        let mut i = from;
        while i < s.len() && self.has(s[i])
            invariant
                from <= i <= s@.len(),
                self.end(s@, from as int) == self.end(s@, i as int),
            decreases s@.len() - i,
        {
            i = i + 1;
        }
        i
    }
}

/// Whether a control sequence starts at `i`.
pub open spec fn starts_sequence(s: Seq<char>, i: int) -> bool {
    0 <= i && i + 1 < s.len() && s[i] == ESC && s[i + 1] == '['
}

/// Whether the control sequence at `i` is a private one.
pub open spec fn private_at(s: Seq<char>, i: int) -> bool {
    i + 2 < s.len() && is_private(s[i + 2])
}

/// Where the parameters of the control sequence at `i` start.
pub open spec fn params_start(s: Seq<char>, i: int) -> int {
    if private_at(s, i) {
        i + 3
    } else {
        i + 2
    }
}

/// Where the parameters of the control sequence at `i` end.
pub open spec fn params_end(s: Seq<char>, i: int) -> int {
    Run::Params.end(s, params_start(s, i))
}

/// The place of the character that ends the control sequence at `i`.
pub open spec fn final_at(s: Seq<char>, i: int) -> int {
    Run::Intermediates.end(s, params_end(s, i))
}

pub proof fn lemma_run_end(run: Run, s: Seq<char>, i: int)
    requires
        0 <= i <= s.len(),
    ensures
        i <= run.end(s, i) <= s.len(),
        forall|k: int| i <= k < run.end(s, i) ==> run.holds(#[trigger] s[k]),
        run.end(s, i) < s.len() ==> !run.holds(s[run.end(s, i)]),
    decreases s.len() - i,
{
    if i < s.len() && run.holds(s[i]) {
        lemma_run_end(run, s, i + 1);
    }
}

pub proof fn lemma_sequence_shape(s: Seq<char>, i: int)
    requires
        starts_sequence(s, i),
    ensures
        i + 2 <= params_start(s, i) <= params_end(s, i) <= final_at(s, i) <= s.len(),
{
    lemma_run_end(Run::Params, s, params_start(s, i));
    lemma_run_end(Run::Intermediates, s, params_end(s, i));
}

impl SgrState {
    /// The style after one parameter, unless it starts a color.
    pub open spec fn after(self, n: u16) -> SgrState {
        let a = self.attrs;
        if n == 0 {
            SgrState::plain()
        } else if n == 1 {
            SgrState { attrs: SgrAttrs { bold: true, ..a }, ..self }
        } else if n == 2 {
            SgrState { attrs: SgrAttrs { dim: true, ..a }, ..self }
        } else if n == 3 {
            SgrState { attrs: SgrAttrs { italic: true, ..a }, ..self }
        } else if n == 4 {
            SgrState { attrs: SgrAttrs { underline: true, ..a }, ..self }
        } else if n == 5 {
            SgrState { attrs: SgrAttrs { slow_blink: true, ..a }, ..self }
        } else if n == 6 {
            SgrState { attrs: SgrAttrs { rapid_blink: true, ..a }, ..self }
        } else if n == 7 {
            SgrState { attrs: SgrAttrs { reverse: true, ..a }, ..self }
        } else if n == 8 {
            SgrState { attrs: SgrAttrs { conceal: true, ..a }, ..self }
        } else if n == 9 {
            SgrState { attrs: SgrAttrs { strike: true, ..a }, ..self }
        } else if n == 22 {
            SgrState { attrs: SgrAttrs { bold: false, dim: false, ..a }, ..self }
        } else if n == 23 {
            SgrState { attrs: SgrAttrs { italic: false, ..a }, ..self }
        } else if n == 24 {
            SgrState { attrs: SgrAttrs { underline: false, ..a }, ..self }
        } else if n == 25 {
            SgrState { attrs: SgrAttrs { slow_blink: false, rapid_blink: false, ..a }, ..self }
        } else if n == 27 {
            SgrState { attrs: SgrAttrs { reverse: false, ..a }, ..self }
        } else if n == 28 {
            SgrState { attrs: SgrAttrs { conceal: false, ..a }, ..self }
        } else if n == 29 {
            SgrState { attrs: SgrAttrs { strike: false, ..a }, ..self }
        } else if is_basic_fg(n) {
            SgrState { fg: SgrColor::Basic(n), ..self }
        } else if n == 39 {
            SgrState { fg: SgrColor::Default, ..self }
        } else if is_basic_bg(n) {
            SgrState { bg: SgrColor::Basic(n), ..self }
        } else if n == 49 {
            SgrState { bg: SgrColor::Default, ..self }
        } else {
            self
        }
    }

    /// The style after the parameters from `k` on.
    pub open spec fn after_all(self, nums: Seq<u16>, k: int) -> SgrState
        decreases nums.len() - k,
    {
        if k < 0 || k >= nums.len() {
            self
        } else if nums[k] == 38 || nums[k] == 48 {
            match extended(nums, k) {
                Some((color, used)) => if nums[k] == 38 {
                    SgrState { fg: color, ..self }.after_all(nums, k + used)
                } else {
                    SgrState { bg: color, ..self }.after_all(nums, k + used)
                },
                None => self.after_all(nums, k + 1),
            }
        } else {
            self.after(nums[k]).after_all(nums, k + 1)
        }
    }

    /// The style after a control sequence with the given parameters. Without
    /// any, everything is switched off.
    pub open spec fn after_params(self, params: Seq<char>) -> SgrState {
        if params.len() == 0 {
            SgrState::plain()
        } else {
            self.after_all(numbers(text::fields(params, ';')), 0)
        }
    }

    /// The style after the text from `i` on.
    pub open spec fn after_text(self, s: Seq<char>, i: int) -> SgrState
        decreases s.len() - i,
    {
        if i < 0 || i >= s.len() {
            self
        } else if !starts_sequence(s, i) {
            self.after_text(s, i + 1)
        } else if i < final_at(s, i) < s.len() {
            if private_at(s, i) || s[final_at(s, i)] != 'm' {
                self.after_text(s, final_at(s, i) + 1)
            } else {
                self.after_params(s.subrange(params_start(s, i), params_end(s, i))).after_text(
                    s,
                    final_at(s, i) + 1,
                )
            }
        } else {
            self
        }
    }
}

pub open spec fn is_basic_fg(n: u16) -> bool {
    30 <= n <= 37 || 90 <= n <= 97
}

pub open spec fn is_basic_bg(n: u16) -> bool {
    40 <= n <= 47 || 100 <= n <= 107
}

/// The color that the parameters from `k` on give, and how many of them do.
pub open spec fn extended(nums: Seq<u16>, k: int) -> Option<(SgrColor, int)> {
    if k + 2 < nums.len() && nums[k + 1] == 5 && nums[k + 2] <= 255 {
        Some((SgrColor::Indexed(nums[k + 2] as u8), 3))
    } else if k + 4 < nums.len() && nums[k + 1] == 2 && nums[k + 2] <= 255 && nums[k + 3] <= 255
        && nums[k + 4] <= 255 {
        Some((SgrColor::Rgb(nums[k + 2] as u8, nums[k + 3] as u8, nums[k + 4] as u8), 5))
    } else {
        None
    }
}

/// The number that a parameter denotes, if it denotes one.
pub open spec fn param_number(s: Seq<char>) -> Option<u16> {
    match selector::parsed_number(s) {
        Some(n) => if n <= u16::MAX {
            Some(n as u16)
        } else {
            None
        },
        None => None,
    }
}

/// The numbers among some parameters.
pub open spec fn numbers(parts: Seq<Seq<char>>) -> Seq<u16>
    decreases parts.len(),
{
    if parts.len() == 0 {
        Seq::empty()
    } else {
        let before = numbers(parts.drop_last());
        match param_number(parts.last()) {
            Some(n) => before.push(n),
            None => before,
        }
    }
}

/// The parameters that switch some attributes on.
pub open spec fn attr_params(a: SgrAttrs) -> Seq<u16> {
    on(a.bold, 1) + on(a.dim, 2) + on(a.italic, 3) + on(a.underline, 4) + on(a.slow_blink, 5)
        + on(a.rapid_blink, 6) + on(a.reverse, 7) + on(a.conceal, 8) + on(a.strike, 9)
}

pub open spec fn on(is_on: bool, n: u16) -> Seq<u16> {
    if is_on {
        seq![n]
    } else {
        Seq::empty()
    }
}

pub open spec fn decimals(nums: Seq<u16>) -> Seq<Seq<char>> {
    nums.map_values(|n: u16| text::decimal_of(n as nat))
}

/// The control sequence with the given parameters, if there are any.
pub open spec fn sequence_of(nums: Seq<u16>) -> Seq<char> {
    if nums.len() == 0 {
        Seq::empty()
    } else {
        seq![ESC, '['] + text::joined(decimals(nums), seq![';']) + seq!['m']
    }
}

/// The parameters that switch a color on; `slot` is the one that starts it.
pub open spec fn color_params(color: SgrColor, slot: u16) -> Seq<u16> {
    match color {
        SgrColor::Default => Seq::empty(),
        SgrColor::Basic(n) => seq![n],
        SgrColor::Indexed(i) => seq![slot, 5, i as u16],
        SgrColor::Rgb(r, g, b) => seq![slot, 2, r as u16, g as u16, b as u16],
    }
}

impl SgrState {
    /// The control sequences that switch the style on.
    pub open spec fn prefix(self) -> Seq<char> {
        sequence_of(attr_params(self.attrs)) + sequence_of(color_params(self.fg, 38))
            + sequence_of(color_params(self.bg, 48))
    }

    /// Whether the colors are ones that a control sequence can switch on.
    pub open spec fn wf(self) -> bool {
        &&& self.fg matches SgrColor::Basic(n) ==> is_basic_fg(n)
        &&& self.bg matches SgrColor::Basic(n) ==> is_basic_bg(n)
    }
}

fn push_sequence(out: &mut String, nums: &Vec<u16>)
    ensures
        final(out)@ == old(out)@ + sequence_of(nums@),
{
    let ghost before = out@;
    if nums.len() == 0 {
        assert(before + Seq::empty() =~= before);
        return;
    }
    let mut parts: Vec<String> = Vec::new();
    let mut i: usize = 0;
    assert(text::views(parts@) =~= decimals(nums@).take(0));
    while i < nums.len()
        invariant
            i <= nums@.len(),
            text::views(parts@) == decimals(nums@).take(i as int),
        decreases nums@.len() - i,
    {
        let ghost was = parts@;
        parts.push(text::decimal(nums[i] as u128));
        proof {
            let all = decimals(nums@);
            assert(text::views(parts@) =~= text::views(was).push(all[i as int]));
            assert(all.take(i as int).push(all[i as int]) =~= all.take(i + 1));
        }
        i = i + 1;
    }
    assert(decimals(nums@).take(i as int) =~= decimals(nums@));
    out.push(ESC);
    out.push('[');
    let list = text::join(&parts, ";");
    proof {
        reveal_strlit(";");
        assert(";"@ =~= seq![';']);
    }
    out.append(list.as_str());
    out.push('m');
    assert(out@ =~= before + sequence_of(nums@));
}

fn push_on(params: &mut Vec<u16>, is_on: bool, n: u16)
    ensures
        final(params)@ == old(params)@ + on(is_on, n),
{
    let ghost before = params@;
    if is_on {
        params.push(n);
    }
    assert(params@ =~= before + on(is_on, n));
}

/// Writes the control sequence that switches a color on.
fn push_color_ansi(out: &mut String, color: SgrColor, slot: u16)
    ensures
        final(out)@ == old(out)@ + sequence_of(color_params(color, slot)),
{
    let nums: Vec<u16> = match color {
        SgrColor::Default => Vec::new(),
        SgrColor::Basic(n) => vec![n],
        SgrColor::Indexed(i) => vec![slot, 5, i as u16],
        SgrColor::Rgb(r, g, b) => vec![slot, 2, r as u16, g as u16, b as u16],
    };
    assert(nums@ =~= color_params(color, slot));
    push_sequence(out, &nums);
}

/// The color that the parameters from `cursor` on give, and how many of
/// them do. The parameter at `cursor` only says where the color goes.
pub fn parse_extended_color(nums: &Vec<u16>, cursor: usize) -> (r: Option<(SgrColor, usize)>)
    requires
        cursor < nums@.len(),
    ensures
        match r {
            Some((color, used)) => extended(nums@, cursor as int) == Some((color, used as int)),
            None => extended(nums@, cursor as int) is None,
        },
{
    let left: usize = nums.len() - cursor;
    if left > 2 && nums[cursor + 1] == 5 && nums[cursor + 2] <= 255 {
        return Some((SgrColor::Indexed(nums[cursor + 2] as u8), 3));
    }
    if left > 4 && nums[cursor + 1] == 2 && nums[cursor + 2] <= 255 && nums[cursor + 3] <= 255
        && nums[cursor + 4] <= 255 {
        return Some(
            (
                SgrColor::Rgb(
                    nums[cursor + 2] as u8,
                    nums[cursor + 3] as u8,
                    nums[cursor + 4] as u8,
                ),
                5,
            ),
        );
    }
    None
}

fn read_numbers(parts: &Vec<String>) -> (r: Vec<u16>)
    ensures
        r@ == numbers(text::views(parts@)),
{
    let ghost all = text::views(parts@);
    let mut r: Vec<u16> = Vec::new();
    let mut i: usize = 0;
    assert(all.take(0) =~= Seq::<Seq<char>>::empty());
    while i < parts.len()
        invariant
            i <= parts@.len(),
            all == text::views(parts@),
            r@ == numbers(all.take(i as int)),
        decreases parts@.len() - i,
    {
        proof {
            assert(all.take(i + 1).drop_last() =~= all.take(i as int));
            assert(all.take(i + 1).last() == parts@[i as int]@);
        }
        if let Some(n) = selector::parse_number(parts[i].as_str()) {
            if n <= 65535 {
                r.push(n as u16);
            }
        }
        i = i + 1;
    }
    assert(all.take(i as int) =~= all);
    r
}

impl SgrState {
    /// Switches everything off.
    pub fn reset(&mut self)
        ensures
            *final(self) == SgrState::plain(),
    {
        self.attrs = SgrAttrs::default();
        self.fg = SgrColor::Default;
        self.bg = SgrColor::Default;
    }

    /// The control sequences that switch the style on.
    pub fn to_ansi_prefix(&self) -> (r: String)
        ensures
            r@ == self.prefix(),
    {
        let a = self.attrs;
        let mut params: Vec<u16> = Vec::new();
        push_on(&mut params, a.bold, 1);
        assert(params@ =~= on(a.bold, 1));
        push_on(&mut params, a.dim, 2);
        push_on(&mut params, a.italic, 3);
        push_on(&mut params, a.underline, 4);
        push_on(&mut params, a.slow_blink, 5);
        push_on(&mut params, a.rapid_blink, 6);
        push_on(&mut params, a.reverse, 7);
        push_on(&mut params, a.conceal, 8);
        push_on(&mut params, a.strike, 9);
        let mut out = String::new();
        push_sequence(&mut out, &params);
        push_color_ansi(&mut out, self.fg, 38);
        push_color_ansi(&mut out, self.bg, 48);
        assert(out@ =~= self.prefix());
        out
    }

    fn apply_one(&mut self, n: u16)
        ensures
            *final(self) == old(self).after(n),
    {
        if n == 0 {
            self.reset();
        } else if n == 1 {
            self.attrs.bold = true;
        } else if n == 2 {
            self.attrs.dim = true;
        } else if n == 3 {
            self.attrs.italic = true;
        } else if n == 4 {
            self.attrs.underline = true;
        } else if n == 5 {
            self.attrs.slow_blink = true;
        } else if n == 6 {
            self.attrs.rapid_blink = true;
        } else if n == 7 {
            self.attrs.reverse = true;
        } else if n == 8 {
            self.attrs.conceal = true;
        } else if n == 9 {
            self.attrs.strike = true;
        } else if n == 22 {
            self.attrs.bold = false;
            self.attrs.dim = false;
        } else if n == 23 {
            self.attrs.italic = false;
        } else if n == 24 {
            self.attrs.underline = false;
        } else if n == 25 {
            self.attrs.slow_blink = false;
            self.attrs.rapid_blink = false;
        } else if n == 27 {
            self.attrs.reverse = false;
        } else if n == 28 {
            self.attrs.conceal = false;
        } else if n == 29 {
            self.attrs.strike = false;
        } else if (30 <= n && n <= 37) || (90 <= n && n <= 97) {
            self.fg = SgrColor::Basic(n);
        } else if n == 39 {
            self.fg = SgrColor::Default;
        } else if (40 <= n && n <= 47) || (100 <= n && n <= 107) {
            self.bg = SgrColor::Basic(n);
        } else if n == 49 {
            self.bg = SgrColor::Default;
        }
    }

    /// Takes the parameters of a control sequence into account.
    pub fn apply_sgr_params(&mut self, params: &str)
        ensures
            *final(self) == old(self).after_params(params@),
    {
        if params.is_empty() {
            self.reset();
            return;
        }
        let parts = text::split(params, ';');
        let nums = read_numbers(&parts);
        let mut k: usize = 0;
        while k < nums.len()
            invariant
                k <= nums@.len(),
                old(self).after_all(nums@, 0) == self.after_all(nums@, k as int),
            decreases nums@.len() - k,
        {
            let n = nums[k];
            if n == 38 || n == 48 {
                match parse_extended_color(&nums, k) {
                    Some((color, used)) => {
                        if n == 38 {
                            self.fg = color;
                        } else {
                            self.bg = color;
                        }
                        k = k + used;
                    },
                    None => {
                        k = k + 1;
                    },
                }
            } else {
                self.apply_one(n);
                k = k + 1;
            }
        }
    }

    /// Takes the control sequences of a text into account. Those that do not
    /// set a style change nothing, and one that is cut off ends the text.
    pub fn apply(&mut self, text: &str)
        ensures
            *final(self) == old(self).after_text(text@, 0),
    {
        let chars = text::chars_of(text);
        let n = chars.len();
        let mut i: usize = 0;
        while i < n
            invariant
                n == chars@.len(),
                chars@ == text@,
                i <= n,
                old(self).after_text(text@, 0) == self.after_text(text@, i as int),
            decreases n - i,
        {
            if chars[i] != ESC || i + 1 >= n || chars[i + 1] != '[' {
                i = i + 1;
                continue;
            }
            proof {
                lemma_sequence_shape(text@, i as int);
            }
            let private = i + 2 < n && (chars[i + 2] == '?' || chars[i + 2] == '<' || chars[i + 2]
                == '=' || chars[i + 2] == '>');
            let start: usize = if private {
                i + 3
            } else {
                i + 2
            };
            let end = Run::Params.skip(&chars, start);
            let last = Run::Intermediates.skip(&chars, end);
            if last >= n {
                return;
            }
            if !private && chars[last] == 'm' {
                let params = text::text_of(&chars, start, end);
                self.apply_sgr_params(params.as_str());
            }
            i = last + 1;
        }
    }
}

/// Where the last control sequence of a text before `i` starts.
pub open spec fn last_sequence(s: Seq<char>, i: int) -> Option<int>
    decreases i,
{
    if i <= 0 {
        None
    } else if starts_sequence(s, i - 1) {
        Some(i - 1)
    } else {
        last_sequence(s, i - 1)
    }
}

/// Whether the control sequence at `i` is cut off by the end of the text.
pub open spec fn cut_off(s: Seq<char>, i: int) -> bool {
    Run::Intermediates.end(s, Run::ParamsOrPrivate.end(s, i + 2)) >= s.len()
}

pub proof fn lemma_last_sequence(s: Seq<char>, n: int)
    requires
        0 <= n <= s.len(),
    ensures
        match last_sequence(s, n) {
            Some(i) => 0 <= i < n && starts_sequence(s, i) && forall|k: int|
                i < k < n ==> !#[trigger] starts_sequence(s, k),
            None => forall|k: int| 0 <= k < n ==> !#[trigger] starts_sequence(s, k),
        },
    decreases n,
{
    if n > 0 && !starts_sequence(s, n - 1) {
        lemma_last_sequence(s, n - 1);
    }
}

/// Where the control sequence starts that the end of a text cuts off, if it
/// cuts one off.
pub open spec fn open_end(s: Seq<char>) -> Option<int> {
    match last_sequence(s, s.len() as int) {
        Some(i) => if cut_off(s, i) {
            Some(i)
        } else {
            None
        },
        None => None,
    }
}

/// A text without the control sequences at its end that were never finished:
/// what is left does not end in one.
pub open spec fn without_cut_off(s: Seq<char>) -> Seq<char>
    decreases s.len(),
{
    match open_end(s) {
        Some(i) => if 0 <= i < s.len() {
            without_cut_off(s.take(i))
        } else {
            s
        },
        None => s,
    }
}

pub proof fn lemma_without_cut_off(s: Seq<char>)
    ensures
        open_end(without_cut_off(s)) is None,
        open_end(s) is Some ==> 0 <= open_end(s)->0 < s.len() && without_cut_off(s)
            == without_cut_off(s.take(open_end(s)->0)),
        without_cut_off(without_cut_off(s)) == without_cut_off(s),
    decreases s.len(),
{
    lemma_last_sequence(s, s.len() as int);
    if let Some(i) = open_end(s) {
        lemma_without_cut_off(s.take(i));
    }
}

fn find_open_end(chars: &Vec<char>) -> (r: Option<usize>)
    ensures
        match r {
            Some(at) => at < chars@.len() && open_end(chars@) == Some(at as int),
            None => open_end(chars@) is None,
        },
{
    let n = chars.len();
    let mut i: usize = n;
    while i > 0
        invariant
            n == chars@.len(),
            i <= n,
            last_sequence(chars@, n as int) == last_sequence(chars@, i as int),
        decreases i,
    {
        let at: usize = i - 1;
        if chars[at] == ESC && at + 1 < n && chars[at + 1] == '[' {
            let end = Run::ParamsOrPrivate.skip(chars, at + 2);
            let last = Run::Intermediates.skip(chars, end);
            return if last >= n {
                Some(at)
            } else {
                None
            };
        }
        i = at;
    }
    None
}

/// Takes off the control sequences that the end of a text leaves unfinished.
/// Shown by itself the rest of one would be read as text. The text does not
/// end in one afterwards, so that doing it again changes nothing.
pub fn strip_trailing_incomplete_csi(text: &mut String)
    ensures
        final(text)@ == without_cut_off(old(text)@),
        open_end(final(text)@) is None,
        without_cut_off(final(text)@) == final(text)@,
{
    let mut chars = text::chars_of(text.as_str());
    let mut open = find_open_end(&chars);
    while open.is_some()
        invariant
            without_cut_off(chars@) == without_cut_off(old(text)@),
            match open {
                Some(at) => at < chars@.len() && open_end(chars@) == Some(at as int),
                None => open_end(chars@) is None,
            },
        decreases chars@.len(),
    {
        proof {
            lemma_without_cut_off(chars@);
        }
        if let Some(at) = open {
            let ghost before = chars@;
            chars.truncate(at);
            assert(chars@ =~= before.take(at as int));
        }
        open = find_open_end(&chars);
    }
    *text = text::text_of(&chars, 0, chars.len());
    assert(text@ =~= chars@);
    proof {
        lemma_without_cut_off(old(text)@);
    }
}

/// The text that some bytes stand for, with a replacement character for
/// what stands for none.
pub uninterp spec fn lossy_text(bytes: Seq<u8>) -> Seq<char>;

/// The text that some bytes stand for. This is the standard library's
/// `String::from_utf8_lossy`: bytes that are valid UTF-8 give the text that
/// they encode; of others only that equal bytes give equal texts is used.
#[verifier::external_body]
fn decode_lossy(bytes: &Vec<u8>) -> (r: String)
    ensures
        r@ == lossy_text(bytes@),
        vstd::utf8::valid_utf8(bytes@) ==> r@ == vstd::utf8::decode_utf8(bytes@),
{
    String::from_utf8_lossy(bytes).into_owned()
}

/// Some bytes without the line breaks at their end.
pub open spec fn without_line_end(bytes: Seq<u8>) -> Seq<u8>
    decreases bytes.len(),
{
    if bytes.len() > 0 && (bytes.last() == 10 || bytes.last() == 13) {
        without_line_end(bytes.drop_last())
    } else {
        bytes
    }
}

/// What is shown of a line that was read while the given style was on, and
/// the style after it.
pub open spec fn shown_line(state: SgrState, line: Seq<char>) -> (Seq<char>, SgrState) {
    let text = without_cut_off(line);
    (state.prefix() + text, state.after_text(text, 0))
}

impl SgrState {
    /// A line as it is shown by itself: with the style that was on when it
    /// started before it, and without control sequences that it leaves unfinished.
    pub fn restyle_line(&mut self, line: String) -> (r: String)
        ensures
            (r@, *final(self)) == shown_line(*old(self), line@),
    {
        let mut text = line;
        strip_trailing_incomplete_csi(&mut text);
        let mut out = self.to_ansi_prefix();
        self.apply(text.as_str());
        out.append(text.as_str());
        out
    }

    /// A line as it is shown by itself, from the bytes that were read.
    pub fn read_line(&mut self, bytes: Vec<u8>) -> (r: String)
        ensures
            (r@, *final(self)) == shown_line(*old(self), lossy_text(without_line_end(bytes@))),
    {
        let mut line = bytes;
        while line.len() > 0 && (line[line.len() - 1] == 10 || line[line.len() - 1] == 13)
            invariant
                without_line_end(bytes@) == without_line_end(line@),
                *self == *old(self),
            decreases line@.len(),
        {
            let _ = line.pop();
        }
        let text = decode_lossy(&line);
        self.restyle_line(text)
    }
}

/// The character of a hexadecimal digit, in upper case.
pub open spec fn upper_hex(d: int) -> char {
    if d < 10 {
        (d + 48) as u8 as char
    } else {
        (d + 55) as u8 as char
    }
}

pub open spec fn is_plain_byte(b: u8) -> bool {
    0x20 <= b <= 0x7e && b != 92
}

/// A byte as it is written to the log: itself where it can be read, and its
/// number otherwise.
pub open spec fn logged_byte(b: u8) -> Seq<char> {
    if is_plain_byte(b) {
        seq![b as char]
    } else {
        seq!['\\', 'x', upper_hex(b as int / 16), upper_hex(b as int % 16)]
    }
}

pub open spec fn logged_bytes(bytes: Seq<u8>) -> Seq<char>
    decreases bytes.len(),
{
    if bytes.len() == 0 {
        Seq::empty()
    } else {
        logged_bytes(bytes.drop_last()) + logged_byte(bytes.last())
    }
}

pub open spec fn kind_tag(kind: OutputKind) -> Seq<char> {
    match kind {
        OutputKind::Stdout => "[Stdout] "@,
        OutputKind::Stderr => "[Stderr] "@,
    }
}

fn hex_digit(d: u8) -> (r: char)
    requires
        d < 16,
    ensures
        r == upper_hex(d as int),
{
    if d < 10 {
        (d + 48) as char
    } else {
        (d + 55) as char
    }
}

/// The line of the log for some bytes that were read.
pub fn render_raw_log(kind: OutputKind, bytes: &Vec<u8>) -> (r: String)
    ensures
        r@ == kind_tag(kind) + logged_bytes(bytes@) + seq!['\n'],
{
    let tag = match kind {
        OutputKind::Stdout => "[Stdout] ",
        OutputKind::Stderr => "[Stderr] ",
    };
    let mut r = tag.to_owned();
    let mut i: usize = 0;
    assert(bytes@.take(0) =~= Seq::<u8>::empty());
    assert(r@ =~= kind_tag(kind) + logged_bytes(bytes@.take(0)));
    while i < bytes.len()
        invariant
            i <= bytes@.len(),
            r@ == kind_tag(kind) + logged_bytes(bytes@.take(i as int)),
        decreases bytes@.len() - i,
    {
        let b = bytes[i];
        let ghost before = r@;
        if 0x20 <= b && b <= 0x7e && b != 92 {
            r.push(b as char);
        } else {
            r.push('\\');
            r.push('x');
            r.push(hex_digit(b / 16));
            r.push(hex_digit(b % 16));
        }
        proof {
            assert(r@ =~= before + logged_byte(b));
            assert(bytes@.take(i + 1).drop_last() =~= bytes@.take(i as int));
            assert(r@ =~= kind_tag(kind) + logged_bytes(bytes@.take(i + 1)));
        }
        i = i + 1;
    }
    assert(bytes@.take(i as int) =~= bytes@);
    r.push('\n');
    r
}

} // verus!
