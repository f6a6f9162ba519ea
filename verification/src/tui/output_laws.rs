//! What holds of lines of output, whatever styles they switch on and off.

use super::event::OutputKind;
use super::output;
use super::output::{Run, SgrAttrs, SgrColor, SgrState};
use crate::session::selector;
use crate::text;
use vstd::prelude::*;

verus! {

proof fn lemma_run_end_is(run: Run, s: Seq<char>, i: int, j: int)
    requires
        0 <= i <= j < s.len(),
        forall|k: int| i <= k < j ==> run.holds(#[trigger] s[k]),
        !run.holds(s[j]),
    ensures
        run.end(s, i) == j,
    decreases j - i,
{
    if i < j {
        assert(run.holds(s[i]));
        lemma_run_end_is(run, s, i + 1, j);
    }
}

proof fn lemma_run_end_shift(run: Run, a: Seq<char>, b: Seq<char>, i: int)
    requires
        0 <= i <= b.len(),
    ensures
        run.end(a + b, a.len() + i) == a.len() + run.end(b, i),
    decreases b.len() - i,
{
    if i < b.len() {
        assert((a + b)[a.len() + i] == b[i]);
        if run.holds(b[i]) {
            lemma_run_end_shift(run, a, b, i + 1);
        }
    }
}

proof fn lemma_text_shift(st: SgrState, a: Seq<char>, b: Seq<char>, i: int)
    requires
        0 <= i <= b.len(),
    ensures
        st.after_text(a + b, a.len() + i) == st.after_text(b, i),
    decreases b.len() - i,
{
    let s = a + b;
    let at = a.len() + i;
    if i < b.len() {
        assert(s[at] == b[i]);
        if i + 1 < b.len() {
            assert(s[at + 1] == b[i + 1]);
        }
        assert(output::starts_sequence(s, at) == output::starts_sequence(b, i));
        if !output::starts_sequence(b, i) {
            lemma_text_shift(st, a, b, i + 1);
        } else {
            if i + 2 < b.len() {
                assert(s[at + 2] == b[i + 2]);
            }
            output::lemma_sequence_shape(b, i);
            let start = output::params_start(b, i);
            let end = output::params_end(b, i);
            lemma_run_end_shift(Run::Params, a, b, start);
            lemma_run_end_shift(Run::Intermediates, a, b, end);
            let last = output::final_at(b, i);
            if last < b.len() {
                assert(s[a.len() + last] == b[last]);
                assert(s.subrange(a.len() + start, a.len() + end) =~= b.subrange(start, end));
                lemma_text_shift(st, a, b, last + 1);
                lemma_text_shift(st.after_params(b.subrange(start, end)), a, b, last + 1);
            }
        }
    }
}

proof fn lemma_digits(n: nat)
    ensures
        text::decimal_of(n).len() > 0,
        selector::all_digits(text::decimal_of(n)),
        selector::digits_value(text::decimal_of(n)) == n,
    decreases n,
{
    let s = text::decimal_of(n);
    if n < 10 {
        assert(s.drop_last() =~= Seq::<char>::empty());
        assert(selector::digits_value(s.drop_last()) == 0);
    } else {
        lemma_digits(n / 10);
        assert(s.drop_last() =~= text::decimal_of(n / 10));
        assert forall|k: int| 0 <= k < s.len() implies selector::is_digit(#[trigger] s[k]) by {
            if k < s.len() - 1 {
                assert(selector::is_digit(text::decimal_of(n / 10)[k]));
            }
        }
    }
}

proof fn lemma_number_reads_back(n: u16)
    ensures
        output::param_number(text::decimal_of(n as nat)) == Some(n),
        !text::decimal_of(n as nat).contains(';'),
{
    let s = text::decimal_of(n as nat);
    lemma_digits(n as nat);
    assert(selector::is_digit(s[0]));
    assert(selector::without_sign(s) == s);
    assert forall|k: int| 0 <= k < s.len() implies s[k] != ';' by {
        assert(selector::is_digit(s[k]));
    }
}

proof fn lemma_numbers_read_back(nums: Seq<u16>)
    ensures
        output::numbers(output::decimals(nums)) == nums,
    decreases nums.len(),
{
    if nums.len() == 0 {
        assert(output::decimals(nums) =~= Seq::empty());
    } else {
        let init = nums.drop_last();
        lemma_numbers_read_back(init);
        lemma_number_reads_back(nums.last());
        assert(output::decimals(nums).drop_last() =~= output::decimals(init));
        assert(init.push(nums.last()) =~= nums);
    }
}

proof fn lemma_joined_is_params(parts: Seq<Seq<char>>)
    requires
        parts.len() > 0,
        forall|i: int|
            0 <= i < parts.len() ==> (#[trigger] parts[i]).len() > 0 && selector::all_digits(
                parts[i],
            ),
    ensures
        text::joined(parts, seq![';']).len() > 0,
        forall|k: int|
            0 <= k < text::joined(parts, seq![';']).len() ==> output::is_param(
                #[trigger] text::joined(parts, seq![';'])[k],
            ),
    decreases parts.len(),
{
    let all = text::joined(parts, seq![';']);
    assert(parts[0].len() > 0);
    assert(parts[parts.len() - 1].len() > 0);
    if parts.len() == 1 {
        assert forall|k: int| 0 <= k < all.len() implies output::is_param(#[trigger] all[k]) by {
            assert(selector::is_digit(parts[0][k]));
        }
    } else {
        let init = parts.drop_last();
        assert forall|i: int| 0 <= i < init.len() implies (#[trigger] init[i]).len() > 0
            && selector::all_digits(init[i]) by {
            assert(parts[i].len() > 0);
        }
        lemma_joined_is_params(init);
        let before = text::joined(init, seq![';']);
        assert forall|k: int| 0 <= k < all.len() implies output::is_param(#[trigger] all[k]) by {
            if k < before.len() {
                assert(all[k] == before[k]);
            } else if k > before.len() {
                assert(all[k] == parts.last()[k - before.len() - 1]);
                assert(selector::is_digit(parts.last()[k - before.len() - 1]));
            }
        }
    }
}

/// What a control sequence that was written for some parameters does is what
/// the parameters do.
proof fn lemma_sequence_is_read(st: SgrState, nums: Seq<u16>, rest: Seq<char>)
    ensures
        st.after_text(output::sequence_of(nums) + rest, 0) == st.after_all(nums, 0).after_text(
            rest,
            0,
        ),
{
    let head = output::sequence_of(nums);
    let s = head + rest;
    if nums.len() == 0 {
        assert(s =~= rest);
    } else {
        let parts = output::decimals(nums);
        let list = text::joined(parts, seq![';']);
        assert forall|i: int| 0 <= i < parts.len() implies (#[trigger] parts[i]).len() > 0
            && selector::all_digits(parts[i]) && !parts[i].contains(';') by {
            lemma_digits(nums[i] as nat);
            lemma_number_reads_back(nums[i]);
        }
        lemma_joined_is_params(parts);
        text::joined_parts_split_back(parts, ';');
        lemma_numbers_read_back(nums);
        let end: int = 2 + list.len() as int;
        assert(s[0] == output::ESC);
        assert(s[1] == '[');
        assert(s[end] == 'm');
        assert forall|k: int| 2 <= k < end implies Run::Params.holds(#[trigger] s[k]) by {
            assert(s[k] == list[k - 2]);
        }
        assert(output::is_param(s[2]));
        assert(!output::private_at(s, 0));
        lemma_run_end_is(Run::Params, s, 2, end);
        assert(output::params_end(s, 0) == end);
        lemma_run_end_is(Run::Intermediates, s, end, end);
        assert(output::final_at(s, 0) == end);
        assert(s.subrange(2, end) =~= list);
        assert(head.len() == end + 1);
        assert(st.after_params(list) == st.after_all(nums, 0));
        lemma_text_shift(st.after_all(nums, 0), head, rest, 0);
    }
}

spec fn all_small(nums: Seq<u16>) -> bool {
    forall|k: int| 0 <= k < nums.len() ==> 1 <= #[trigger] nums[k] <= 9
}

proof fn lemma_push_small(st: SgrState, nums: Seq<u16>, n: u16, k: int)
    requires
        all_small(nums),
        1 <= n <= 9,
        0 <= k <= nums.len(),
    ensures
        st.after_all(nums.push(n), k) == st.after_all(nums, k).after(n),
    decreases nums.len() - k,
{
    let more = nums.push(n);
    if k < nums.len() {
        assert(1 <= nums[k] <= 9);
        assert(more[k] == nums[k]);
        lemma_push_small(st.after(nums[k]), nums, n, k + 1);
    } else {
        assert(more[k] == n);
        assert(st.after(n).after_all(more, k + 1) == st.after(n));
    }
}

proof fn lemma_switch_on(st: SgrState, nums: Seq<u16>, is_on: bool, n: u16)
    requires
        all_small(nums),
        1 <= n <= 9,
    ensures
        all_small(nums + output::on(is_on, n)),
        st.after_all(nums + output::on(is_on, n), 0) == (if is_on {
            st.after_all(nums, 0).after(n)
        } else {
            st.after_all(nums, 0)
        }),
{
    let more = nums + output::on(is_on, n);
    if is_on {
        assert(more =~= nums.push(n));
        lemma_push_small(st, nums, n, 0);
    } else {
        assert(more =~= nums);
    }
}

#[verifier::spinoff_prover]
proof fn lemma_attrs_restored(a: SgrAttrs)
    ensures
        SgrState::plain().after_all(output::attr_params(a), 0) == (SgrState {
            attrs: a,
            ..SgrState::plain()
        }),
{
    let p = SgrState::plain();
    let none = Seq::<u16>::empty();
    let n1 = output::on(a.bold, 1);
    assert(none + n1 =~= n1);
    lemma_switch_on(p, none, a.bold, 1);
    let n2 = n1 + output::on(a.dim, 2);
    lemma_switch_on(p, n1, a.dim, 2);
    let n3 = n2 + output::on(a.italic, 3);
    lemma_switch_on(p, n2, a.italic, 3);
    let n4 = n3 + output::on(a.underline, 4);
    lemma_switch_on(p, n3, a.underline, 4);
    let n5 = n4 + output::on(a.slow_blink, 5);
    lemma_switch_on(p, n4, a.slow_blink, 5);
    let n6 = n5 + output::on(a.rapid_blink, 6);
    lemma_switch_on(p, n5, a.rapid_blink, 6);
    let n7 = n6 + output::on(a.reverse, 7);
    lemma_switch_on(p, n6, a.reverse, 7);
    let n8 = n7 + output::on(a.conceal, 8);
    lemma_switch_on(p, n7, a.conceal, 8);
    lemma_switch_on(p, n8, a.strike, 9);
    assert(p.after_all(none, 0) == p);
}

proof fn lemma_fg_restored(st: SgrState, color: SgrColor)
    requires
        st.fg == SgrColor::Default,
        color matches SgrColor::Basic(n) ==> output::is_basic_fg(n),
    ensures
        st.after_all(output::color_params(color, 38), 0) == (SgrState { fg: color, ..st }),
{
    let nums = output::color_params(color, 38);
    let next = SgrState { fg: color, ..st };
    match color {
        SgrColor::Default => {},
        SgrColor::Basic(n) => {
            assert(next.after_all(nums, 1) == next);
        },
        SgrColor::Indexed(i) => {
            assert(output::extended(nums, 0) == Some((color, 3int)));
            assert(next.after_all(nums, 3) == next);
        },
        SgrColor::Rgb(r, g, b) => {
            assert(output::extended(nums, 0) == Some((color, 5int)));
            assert(next.after_all(nums, 5) == next);
        },
    }
}

proof fn lemma_bg_restored(st: SgrState, color: SgrColor)
    requires
        st.bg == SgrColor::Default,
        color matches SgrColor::Basic(n) ==> output::is_basic_bg(n),
    ensures
        st.after_all(output::color_params(color, 48), 0) == (SgrState { bg: color, ..st }),
{
    let nums = output::color_params(color, 48);
    let next = SgrState { bg: color, ..st };
    match color {
        SgrColor::Default => {},
        SgrColor::Basic(n) => {
            assert(next.after_all(nums, 1) == next);
        },
        SgrColor::Indexed(i) => {
            assert(output::extended(nums, 0) == Some((color, 3int)));
            assert(next.after_all(nums, 3) == next);
        },
        SgrColor::Rgb(r, g, b) => {
            assert(output::extended(nums, 0) == Some((color, 5int)));
            assert(next.after_all(nums, 5) == next);
        },
    }
}

/// The control sequences of a style switch it on: a text behind them does on
/// a plain terminal what it does by itself where the style is on.
pub proof fn prefix_restores_the_style(st: SgrState, s: Seq<char>)
    requires
        st.wf(),
    ensures
        SgrState::plain().after_text(st.prefix() + s, 0) == st.after_text(s, 0),
        SgrState::plain().after_text(st.prefix(), 0) == st,
{
    let attrs = output::attr_params(st.attrs);
    let fg = output::color_params(st.fg, 38);
    let bg = output::color_params(st.bg, 48);
    let p = SgrState::plain();
    let with_attrs = SgrState { attrs: st.attrs, ..p };
    let with_fg = SgrState { fg: st.fg, ..with_attrs };
    let a = output::sequence_of(attrs);
    let f = output::sequence_of(fg);
    let b = output::sequence_of(bg);
    lemma_attrs_restored(st.attrs);
    lemma_fg_restored(with_attrs, st.fg);
    lemma_bg_restored(with_fg, st.bg);
    assert(st.prefix() + s =~= a + (f + (b + s)));
    lemma_sequence_is_read(p, attrs, f + (b + s));
    lemma_sequence_is_read(with_attrs, fg, b + s);
    lemma_sequence_is_read(with_fg, bg, s);
    let none = Seq::<char>::empty();
    assert(st.prefix() =~= a + (f + (b + none)));
    lemma_sequence_is_read(p, attrs, f + (b + none));
    lemma_sequence_is_read(with_attrs, fg, b + none);
    lemma_sequence_is_read(with_fg, bg, none);
}

/// A line that is shown by itself leaves the same style switched on as all
/// the lines up to it together.
pub proof fn shown_line_stands_by_itself(st: SgrState, line: Seq<char>)
    requires
        st.wf(),
    ensures
        ({
            let (shown, after) = output::shown_line(st, line);
            &&& SgrState::plain().after_text(shown, 0) == after
            &&& after == st.after_text(line, 0)
            &&& after.wf()
        }),
{
    prefix_restores_the_style(st, output::without_cut_off(line));
    cut_off_changes_no_style(st, line);
    lemma_text_keeps_wf(st, line, 0);
}

proof fn lemma_params_keep_wf(st: SgrState, nums: Seq<u16>, k: int)
    requires
        st.wf(),
        0 <= k,
    ensures
        st.after_all(nums, k).wf(),
    decreases nums.len() - k,
{
    if k < nums.len() {
        if nums[k] == 38 || nums[k] == 48 {
            match output::extended(nums, k) {
                Some((color, used)) => {
                    lemma_params_keep_wf(SgrState { fg: color, ..st }, nums, k + used);
                    lemma_params_keep_wf(SgrState { bg: color, ..st }, nums, k + used);
                },
                None => {
                    lemma_params_keep_wf(st, nums, k + 1);
                },
            }
        } else {
            lemma_params_keep_wf(st.after(nums[k]), nums, k + 1);
        }
    }
}

proof fn lemma_text_keeps_wf(st: SgrState, s: Seq<char>, i: int)
    requires
        st.wf(),
        0 <= i,
    ensures
        st.after_text(s, i).wf(),
    decreases s.len() - i,
{
    if i < s.len() {
        if !output::starts_sequence(s, i) {
            lemma_text_keeps_wf(st, s, i + 1);
        } else if i < output::final_at(s, i) < s.len() {
            let last = output::final_at(s, i);
            let params = s.subrange(output::params_start(s, i), output::params_end(s, i));
            lemma_params_keep_wf(st, output::numbers(text::fields(params, ';')), 0);
            lemma_text_keeps_wf(st, s, last + 1);
            lemma_text_keeps_wf(st.after_params(params), s, last + 1);
        }
    }
}

proof fn lemma_no_sequence(st: SgrState, s: Seq<char>, i: int)
    requires
        0 <= i,
        forall|k: int| i <= k < s.len() ==> !#[trigger] output::starts_sequence(s, k),
    ensures
        st.after_text(s, i) == st,
    decreases s.len() - i,
{
    if i < s.len() {
        assert(!output::starts_sequence(s, i));
        lemma_no_sequence(st, s, i + 1);
    }
}

proof fn lemma_run_end_take(run: Run, s: Seq<char>, at: int, j: int)
    requires
        0 <= j <= at < s.len(),
        s[at] == output::ESC,
    ensures
        run.end(s.take(at), j) == run.end(s, j),
        run.end(s, j) <= at,
    decreases at - j,
{
    assert(!run.holds(output::ESC));
    if j < at {
        assert(s.take(at)[j] == s[j]);
        if run.holds(s[j]) {
            lemma_run_end_take(run, s, at, j + 1);
        }
    }
}

proof fn lemma_cut_off(st: SgrState, s: Seq<char>, at: int, i: int)
    requires
        0 <= i <= at,
        output::starts_sequence(s, at),
        output::cut_off(s, at),
        forall|k: int| at < k < s.len() ==> !#[trigger] output::starts_sequence(s, k),
    ensures
        st.after_text(s, i) == st.after_text(s.take(at), i),
    decreases at - i,
{
    let a = s.take(at);
    if i == at {
        let middle = Run::ParamsOrPrivate.end(s, at + 2);
        output::lemma_run_end(Run::ParamsOrPrivate, s, at + 2);
        output::lemma_run_end(Run::Intermediates, s, middle);
        output::lemma_sequence_shape(s, at);
        let last = output::final_at(s, at);
        if last < s.len() {
            assert(s[last] != 'm') by {
                if last < middle {
                    assert(Run::ParamsOrPrivate.holds(s[last]));
                } else {
                    assert(Run::Intermediates.holds(s[last]));
                }
            }
            lemma_no_sequence(st, s, last + 1);
        }
    } else {
        assert(a[i] == s[i]);
        if i + 1 < at {
            assert(a[i + 1] == s[i + 1]);
        }
        if !output::starts_sequence(s, i) {
            assert(!output::starts_sequence(a, i));
            lemma_cut_off(st, s, at, i + 1);
        } else {
            assert(i + 1 != at);
            assert(output::starts_sequence(a, i));
            if i + 2 < at {
                assert(a[i + 2] == s[i + 2]);
            }
            assert(!output::is_private(output::ESC));
            assert(output::private_at(a, i) == output::private_at(s, i));
            let start = output::params_start(s, i);
            assert(start <= at);
            lemma_run_end_take(Run::Params, s, at, start);
            let end = output::params_end(s, i);
            output::lemma_sequence_shape(s, i);
            lemma_run_end_take(Run::Intermediates, s, at, end);
            let last = output::final_at(s, i);
            assert(output::final_at(a, i) == last);
            if last == at {
                lemma_no_sequence(st, s, at + 1);
            } else {
                assert(a[last] == s[last]);
                assert(a.subrange(start, end) =~= s.subrange(start, end));
                lemma_cut_off(st, s, at, last + 1);
                lemma_cut_off(st.after_params(s.subrange(start, end)), s, at, last + 1);
            }
        }
    }
}

/// Taking unfinished control sequences off the end of a text changes no
/// style.
pub proof fn cut_off_changes_no_style(st: SgrState, s: Seq<char>)
    ensures
        st.after_text(output::without_cut_off(s), 0) == st.after_text(s, 0),
    decreases s.len(),
{
    output::lemma_last_sequence(s, s.len() as int);
    if let Some(at) = output::open_end(s) {
        lemma_cut_off(st, s, at, 0);
        cut_off_changes_no_style(st, s.take(at));
    }
}

/// What is left of a text when unfinished control sequences are taken off
/// its end is the start of the text, it ends in none, and a text without
/// control sequences is left as it is.
pub proof fn only_the_end_is_taken_off(s: Seq<char>)
    ensures
        text::has_prefix(s, output::without_cut_off(s)),
        output::open_end(output::without_cut_off(s)) is None,
        !s.contains(output::ESC) ==> output::without_cut_off(s) == s,
    decreases s.len(),
{
    output::lemma_last_sequence(s, s.len() as int);
    match output::open_end(s) {
        Some(at) => {
            assert(s[at] == output::ESC);
            let rest = s.take(at);
            only_the_end_is_taken_off(rest);
            let left = output::without_cut_off(rest);
            assert(s.take(left.len() as int) =~= rest.take(left.len() as int));
        },
        None => {
            assert(s.take(s.len() as int) =~= s);
        },
    }
}

proof fn lemma_logged_front(b: u8, rest: Seq<u8>)
    ensures
        output::logged_bytes(seq![b] + rest) == output::logged_byte(b) + output::logged_bytes(rest),
    decreases rest.len(),
{
    let all = seq![b] + rest;
    if rest.len() == 0 {
        assert(all.drop_last() =~= Seq::<u8>::empty());
        assert(all.last() == b);
        assert(output::logged_bytes(all.drop_last()) =~= Seq::empty());
        assert(output::logged_bytes(all) =~= output::logged_byte(b));
        assert(output::logged_byte(b) + output::logged_bytes(rest) =~= output::logged_byte(b));
    } else {
        let init = rest.drop_last();
        lemma_logged_front(b, init);
        assert(all.drop_last() =~= seq![b] + init);
        assert(all.last() == rest.last());
        assert(output::logged_bytes(all) =~= output::logged_byte(b) + output::logged_bytes(rest));
    }
}

proof fn lemma_logged_byte(a: u8, b: u8)
    requires
        output::logged_byte(a) == output::logged_byte(b),
    ensures
        a == b,
{
    let x = output::logged_byte(a);
    let y = output::logged_byte(b);
    assert(x.len() == y.len());
    if output::is_plain_byte(a) {
        assert(x[0] == a as char);
        assert(y[0] == b as char);
    } else {
        assert(x[2] == y[2]);
        assert(x[3] == y[3]);
        assert(a / 16 == b / 16);
        assert(a % 16 == b % 16);
    }
}

/// The log tells all bytes apart: different bytes give different lines.
pub proof fn log_tells_bytes_apart(a: Seq<u8>, b: Seq<u8>)
    requires
        output::logged_bytes(a) == output::logged_bytes(b),
    ensures
        a == b,
    decreases a.len(),
{
    let line = output::logged_bytes(a);
    if a.len() == 0 {
        if b.len() > 0 {
            assert(b =~= seq![b[0]] + b.drop_first());
            lemma_logged_front(b[0], b.drop_first());
        }
        assert(a =~= b);
    } else {
        assert(a =~= seq![a[0]] + a.drop_first());
        lemma_logged_front(a[0], a.drop_first());
        if b.len() == 0 {
            assert(false);
        }
        assert(b =~= seq![b[0]] + b.drop_first());
        lemma_logged_front(b[0], b.drop_first());
        let x = output::logged_byte(a[0]);
        let y = output::logged_byte(b[0]);
        assert(line[0] == x[0]);
        assert(line[0] == y[0]);
        assert(output::is_plain_byte(a[0]) == output::is_plain_byte(b[0])) by {
            assert(92u8 as char == '\\');
        }
        assert(x.len() == y.len());
        assert(x =~= line.take(x.len() as int));
        assert(y =~= line.take(y.len() as int));
        lemma_logged_byte(a[0], b[0]);
        assert(output::logged_bytes(a.drop_first()) =~= line.skip(x.len() as int));
        assert(output::logged_bytes(b.drop_first()) =~= line.skip(x.len() as int));
        log_tells_bytes_apart(a.drop_first(), b.drop_first());
    }
}

/// Whether the attribute that the parameter `k` switches on is on.
pub open spec fn lit(st: SgrState, k: int) -> bool {
    if k == 1 {
        st.attrs.bold
    } else if k == 2 {
        st.attrs.dim
    } else if k == 3 {
        st.attrs.italic
    } else if k == 4 {
        st.attrs.underline
    } else if k == 5 {
        st.attrs.slow_blink
    } else if k == 6 {
        st.attrs.rapid_blink
    } else if k == 7 {
        st.attrs.reverse
    } else if k == 8 {
        st.attrs.conceal
    } else {
        st.attrs.strike
    }
}

/// The parameter that switches the attribute `k` off: twenty more than the
/// one that switches it on, with one of the two in common for the two
/// intensities and for the two ways to blink.
pub open spec fn off_code(k: int) -> int {
    if k == 1 {
        22
    } else if k == 6 {
        25
    } else {
        20 + k
    }
}

/// A parameter from one to nine switches one attribute on, and the one that
/// belongs to it switches it off again; nothing else changes, and no other
/// parameter touches an attribute, but for zero, which switches all off.
pub proof fn parameters_switch_attributes(st: SgrState, n: u16, k: int)
    requires
        1 <= k <= 9,
    ensures
        n == k ==> lit(st.after(n), k),
        n == off_code(k) ==> !lit(st.after(n), k),
        n == 0 ==> !lit(st.after(n), k),
        n != 0 && n != k && n != off_code(k) ==> lit(st.after(n), k) == lit(st, k),
        1 <= n <= 29 ==> st.after(n).fg == st.fg && st.after(n).bg == st.bg,
        n == 0 ==> st.after(n).fg is Default && st.after(n).bg is Default,
{
}

/// The parameters of the sixteen colors set the foreground or the
/// background, and one for each takes it back; nothing else changes a color.
pub proof fn parameters_set_colors(st: SgrState, n: u16)
    ensures
        ({
            let now = st.after(n);
            let fg = 30 <= n <= 37 || 90 <= n <= 97;
            let bg = 40 <= n <= 47 || 100 <= n <= 107;
            &&& fg ==> now == SgrState { fg: SgrColor::Basic(n), ..st }
            &&& bg ==> now == SgrState { bg: SgrColor::Basic(n), ..st }
            &&& n == 39 ==> now == SgrState { fg: SgrColor::Default, ..st }
            &&& n == 49 ==> now == SgrState { bg: SgrColor::Default, ..st }
            &&& n != 0 && !fg && n != 39 ==> now.fg == st.fg
            &&& n != 0 && !bg && n != 49 ==> now.bg == st.bg
        }),
{
}

proof fn lemma_after_all_shift(st: SgrState, head: Seq<u16>, nums: Seq<u16>, k: int)
    requires
        0 <= k <= nums.len(),
    ensures
        st.after_all(head + nums, head.len() + k) == st.after_all(nums, k),
    decreases nums.len() - k,
{
    let all = head + nums;
    let at = head.len() + k;
    if k < nums.len() {
        assert(all[at] == nums[k]);
        if nums[k] == 38 || nums[k] == 48 {
            if k + 1 < nums.len() {
                assert(all[at + 1] == nums[k + 1]);
            }
            if k + 2 < nums.len() {
                assert(all[at + 2] == nums[k + 2]);
            }
            if k + 3 < nums.len() {
                assert(all[at + 3] == nums[k + 3]);
            }
            if k + 4 < nums.len() {
                assert(all[at + 4] == nums[k + 4]);
            }
            assert(output::extended(all, at) == output::extended(nums, k));
            match output::extended(nums, k) {
                Some((color, used)) => {
                    lemma_after_all_shift(SgrState { fg: color, ..st }, head, nums, k + used);
                    lemma_after_all_shift(SgrState { bg: color, ..st }, head, nums, k + used);
                },
                None => {
                    lemma_after_all_shift(st, head, nums, k + 1);
                },
            }
        } else {
            lemma_after_all_shift(st.after(nums[k]), head, nums, k + 1);
        }
    }
}

/// Parameters are read from left to right, each by itself, but for those of
/// the larger palettes: a number behind five, and three behind two.
pub proof fn parameters_are_read_in_order(
    st: SgrState,
    n: u16,
    i: u8,
    r: u8,
    g: u8,
    b: u8,
    rest: Seq<u16>,
)
    ensures
        st.after_all(Seq::empty(), 0) == st,
        n != 38 && n != 48 ==> st.after_all(seq![n] + rest, 0) == st.after(n).after_all(rest, 0),
        st.after_all(seq![38u16, 5, i as u16] + rest, 0) == (SgrState {
            fg: SgrColor::Indexed(i),
            ..st
        }).after_all(rest, 0),
        st.after_all(seq![48u16, 5, i as u16] + rest, 0) == (SgrState {
            bg: SgrColor::Indexed(i),
            ..st
        }).after_all(rest, 0),
        st.after_all(seq![38u16, 2, r as u16, g as u16, b as u16] + rest, 0) == (SgrState {
            fg: SgrColor::Rgb(r, g, b),
            ..st
        }).after_all(rest, 0),
        st.after_all(seq![48u16, 2, r as u16, g as u16, b as u16] + rest, 0) == (SgrState {
            bg: SgrColor::Rgb(r, g, b),
            ..st
        }).after_all(rest, 0),
{
    let one = seq![n];
    lemma_after_all_shift(st.after(n), one, rest, 0);
    assert((one + rest)[0] == n);
    let a = seq![38u16, 5, i as u16];
    let b5 = seq![48u16, 5, i as u16];
    lemma_after_all_shift(SgrState { fg: SgrColor::Indexed(i), ..st }, a, rest, 0);
    lemma_after_all_shift(SgrState { bg: SgrColor::Indexed(i), ..st }, b5, rest, 0);
    assert((a + rest)[0] == 38 && (a + rest)[1] == 5 && (a + rest)[2] == i);
    assert((b5 + rest)[0] == 48 && (b5 + rest)[1] == 5 && (b5 + rest)[2] == i);
    let c = seq![38u16, 2, r as u16, g as u16, b as u16];
    let d = seq![48u16, 2, r as u16, g as u16, b as u16];
    lemma_after_all_shift(SgrState { fg: SgrColor::Rgb(r, g, b), ..st }, c, rest, 0);
    lemma_after_all_shift(SgrState { bg: SgrColor::Rgb(r, g, b), ..st }, d, rest, 0);
    assert((c + rest)[0] == 38 && (c + rest)[1] == 2 && (c + rest)[2] == r && (c + rest)[3] == g
        && (c + rest)[4] == b);
    assert((d + rest)[0] == 48 && (d + rest)[1] == 2 && (d + rest)[2] == r && (d + rest)[3] == g
        && (d + rest)[4] == b);
}

/// Whether a text is made of what may stand between the start of a control
/// sequence and its last character.
pub open spec fn is_made_of_parameters(p: Seq<char>) -> bool {
    forall|i: int|
        0 <= i < p.len() ==> 0x30 <= (#[trigger] p[i]) as u32 <= 0x3B
}

/// A control sequence for the style changes it by its parameters, and the
/// text behind it goes on from there. One that ends with another letter and
/// one that is private change nothing, and neither does text.
pub proof fn control_sequences_are_read(
    st: SgrState,
    p: Seq<char>,
    last: char,
    rest: Seq<char>,
)
    requires
        is_made_of_parameters(p),
        0x40 <= last as u32 <= 0x7E,
    ensures
        last == 'm' ==> st.after_text(seq!['\u{1b}', '['] + p + seq![last] + rest, 0)
            == st.after_params(p).after_text(rest, 0),
        last != 'm' ==> st.after_text(seq!['\u{1b}', '['] + p + seq![last] + rest, 0)
            == st.after_text(rest, 0),
        st.after_text(seq!['\u{1b}', '[', '?'] + p + seq![last] + rest, 0) == st.after_text(
            rest,
            0,
        ),
        st.after_text(seq![last] + rest, 0) == st.after_text(rest, 0),
        st.after_params(Seq::empty()) == SgrState::plain(),
        p.len() > 0 ==> st.after_params(p) == st.after_all(
            output::numbers(text::fields(p, ';')),
            0,
        ),
{
    lemma_plain_sequence(st, p, last, rest);
    lemma_private_sequence(st, p, last, rest);
    let one = seq![last];
    assert((one + rest)[0] == last);
    lemma_text_shift(st, one, rest, 0);
}

proof fn lemma_plain_sequence(st: SgrState, p: Seq<char>, last: char, rest: Seq<char>)
    requires
        is_made_of_parameters(p),
        0x40 <= last as u32 <= 0x7E,
    ensures
        ({
            let s = seq!['\u{1b}', '['] + p + seq![last] + rest;
            st.after_text(s, 0) == (if last == 'm' {
                st.after_params(p).after_text(rest, 0)
            } else {
                st.after_text(rest, 0)
            })
        }),
{
    let head = seq!['\u{1b}', '['] + p + seq![last];
    let s = head + rest;
    let end = 2 + p.len() as int;
    assert(s[0] == '\u{1b}' && s[1] == '[');
    assert(s[end] == last);
    assert forall|k: int| 2 <= k < end implies Run::Params.holds(#[trigger] s[k]) by {
        assert(s[k] == p[k - 2]);
        lemma_param_char(p[k - 2]);
    }
    if p.len() > 0 {
        assert(s[2] == p[0]);
        lemma_param_char(p[0]);
    }
    lemma_final_char(last);
    lemma_run_end_is(Run::Params, s, 2, end);
    lemma_run_end_is(Run::Intermediates, s, end, end);
    assert(s.subrange(2, end) =~= p);
    lemma_text_shift(st, head, rest, 0);
    lemma_text_shift(st.after_params(p), head, rest, 0);
}

proof fn lemma_private_sequence(st: SgrState, p: Seq<char>, last: char, rest: Seq<char>)
    requires
        is_made_of_parameters(p),
        0x40 <= last as u32 <= 0x7E,
    ensures
        st.after_text(seq!['\u{1b}', '[', '?'] + p + seq![last] + rest, 0) == st.after_text(
            rest,
            0,
        ),
{
    let head = seq!['\u{1b}', '[', '?'] + p + seq![last];
    let s = head + rest;
    let end = 3 + p.len() as int;
    assert(s[0] == '\u{1b}' && s[1] == '[' && s[2] == '?');
    assert(s[end] == last);
    assert forall|k: int| 3 <= k < end implies Run::Params.holds(#[trigger] s[k]) by {
        assert(s[k] == p[k - 3]);
        lemma_param_char(p[k - 3]);
    }
    lemma_final_char(last);
    lemma_run_end_is(Run::Params, s, 3, end);
    lemma_run_end_is(Run::Intermediates, s, end, end);
    lemma_text_shift(st, head, rest, 0);
}

proof fn lemma_param_char(c: char)
    requires
        0x30 <= c as u32 <= 0x3B,
    ensures
        output::is_param(c),
        !output::is_private(c),
        c != '\u{1b}',
{
}

proof fn lemma_final_char(c: char)
    requires
        0x40 <= c as u32 <= 0x7E,
    ensures
        !output::is_param(c),
        !output::is_private(c),
        !output::is_intermediate(c),
        c != '\u{1b}',
{
}

/// The numbers of a control sequence stand between semicolons; a part that
/// is no number of the machine's width is passed over.
pub proof fn numbers_are_read_part_by_part(parts: Seq<Seq<char>>, part: Seq<char>)
    ensures
        output::numbers(Seq::empty()).len() == 0,
        ({
            let n = selector::parsed_number(part);
            let before = output::numbers(parts);
            let now = output::numbers(parts.push(part));
            &&& n is Some && n->0 <= 65535 ==> now == before.push(n->0 as u16)
            &&& n is Some && n->0 > 65535 ==> now == before
            &&& n is None ==> now == before
        }),
{
    assert(parts.push(part).drop_last() =~= parts);
}

/// A control sequence that the end of a text cuts off is taken off; one that
/// is finished stays, with all that is before it.
pub proof fn unfinished_sequence_is_taken_off(s: Seq<char>, p: Seq<char>, last: char)
    requires
        is_made_of_parameters(p),
        0x40 <= last as u32 <= 0x7E,
    ensures
        output::without_cut_off(s + (seq!['\u{1b}', '['] + p)) == output::without_cut_off(s),
        output::without_cut_off(s + (seq!['\u{1b}', '['] + p + seq![last])) == s + (
        seq!['\u{1b}', '['] + p + seq![last]),
{
    let at = s.len() as int;
    let open = s + (seq!['\u{1b}', '['] + p);
    assert(open[at] == '\u{1b}' && open[at + 1] == '[');
    assert forall|k: int| at < k < open.len() implies !#[trigger] output::starts_sequence(open, k) by {
        if k >= at + 2 {
            assert(open[k] == p[k - at - 2]);
            lemma_param_char(p[k - at - 2]);
        }
    }
    assert(output::starts_sequence(open, at));
    output::lemma_last_sequence(open, open.len() as int);
    assert(output::last_sequence(open, open.len() as int) == Some(at)) by {
        match output::last_sequence(open, open.len() as int) {
            Some(i) => {
                if i < at {
                    assert(!output::starts_sequence(open, at));
                }
            },
            None => {
                assert(!output::starts_sequence(open, at));
            },
        }
    }
    assert forall|k: int| at + 2 <= k < open.len() implies Run::ParamsOrPrivate.holds(
        #[trigger] open[k],
    ) by {
        assert(open[k] == p[k - at - 2]);
        lemma_param_char(p[k - at - 2]);
    }
    lemma_run_to_end(Run::ParamsOrPrivate, open, at + 2);
    output::lemma_run_end(Run::Intermediates, open, open.len() as int);
    assert(output::cut_off(open, at));
    assert(open.take(at) =~= s);
    let done = s + (seq!['\u{1b}', '['] + p + seq![last]);
    let end = done.len() - 1;
    assert(done[at] == '\u{1b}' && done[at + 1] == '[' && done[end] == last);
    lemma_final_char(last);
    assert forall|k: int| at < k < done.len() implies !#[trigger] output::starts_sequence(done, k) by {
        if at + 2 <= k < end {
            assert(done[k] == p[k - at - 2]);
            lemma_param_char(p[k - at - 2]);
        }
    }
    assert(output::starts_sequence(done, at));
    output::lemma_last_sequence(done, done.len() as int);
    assert(output::last_sequence(done, done.len() as int) == Some(at)) by {
        match output::last_sequence(done, done.len() as int) {
            Some(i) => {
                if i < at {
                    assert(!output::starts_sequence(done, at));
                }
            },
            None => {
                assert(!output::starts_sequence(done, at));
            },
        }
    }
    assert forall|k: int| at + 2 <= k < end implies Run::ParamsOrPrivate.holds(
        #[trigger] done[k],
    ) by {
        assert(done[k] == p[k - at - 2]);
        lemma_param_char(p[k - at - 2]);
    }
    lemma_run_end_is(Run::ParamsOrPrivate, done, at + 2, end);
    lemma_run_end_is(Run::Intermediates, done, end, end);
    assert(!output::cut_off(done, at));
}

proof fn lemma_run_to_end(run: Run, s: Seq<char>, i: int)
    requires
        0 <= i <= s.len(),
        forall|k: int| i <= k < s.len() ==> run.holds(#[trigger] s[k]),
    ensures
        run.end(s, i) == s.len(),
    decreases s.len() - i,
{
    if i < s.len() {
        assert(run.holds(s[i]));
        lemma_run_to_end(run, s, i + 1);
    }
}

/// The line breaks at the end of some bytes are taken off, all of them and
/// nothing else.
pub proof fn line_breaks_at_the_end_are_taken_off(bytes: Seq<u8>)
    ensures
        ({
            let kept = output::without_line_end(bytes);
            &&& kept.len() <= bytes.len()
            &&& kept == bytes.take(kept.len() as int)
            &&& forall|i: int|
                kept.len() <= i < bytes.len() ==> (#[trigger] bytes[i]) == 10 || bytes[i] == 13
            &&& kept.len() > 0 ==> kept.last() != 10 && kept.last() != 13
        }),
    decreases bytes.len(),
{
    if bytes.len() > 0 && (bytes.last() == 10 || bytes.last() == 13) {
        let t = bytes.drop_last();
        line_breaks_at_the_end_are_taken_off(t);
        let kept = output::without_line_end(t);
        assert(t.take(kept.len() as int) =~= bytes.take(kept.len() as int));
        assert forall|i: int| kept.len() <= i < bytes.len() implies (#[trigger] bytes[i]) == 10
            || bytes[i] == 13 by {
            if i < t.len() {
                assert(t[i] == bytes[i]);
            }
        }
    } else {
        assert(bytes.take(bytes.len() as int) =~= bytes);
    }
}

/// A line is shown behind the style that was on, without what its end leaves
/// unfinished.
pub proof fn line_is_shown_behind_its_style(st: SgrState, line: Seq<char>)
    ensures
        output::shown_line(st, line).0 == st.prefix() + output::without_cut_off(line),
        st == SgrState::plain() ==> output::shown_line(st, line).0 == output::without_cut_off(line),
{
    if st == SgrState::plain() {
        let none = Seq::<u16>::empty();
        assert(output::attr_params(st.attrs) =~= none);
        assert(st.prefix() =~= Seq::<char>::empty());
        assert(st.prefix() + output::without_cut_off(line) =~= output::without_cut_off(line));
    }
}

/// The log takes byte after byte: one that can be read as it is, any other
/// as a backslash, the letter x and its two hexadecimal digits.
pub proof fn bytes_are_logged_one_by_one(a: Seq<u8>, b: u8)
    ensures
        output::logged_bytes(Seq::empty()).len() == 0,
        ({
            let now = output::logged_bytes(a.push(b));
            let before = output::logged_bytes(a);
            let digit = |c: char|
                if c as u32 <= 57 {
                    c as u32 - 48
                } else {
                    c as u32 - 55
                };
            &&& 32 <= b <= 126 && b != 92 ==> now == before.push(b as char)
            &&& !(32 <= b <= 126 && b != 92) ==> {
                let n = before.len() as int;
                &&& now.len() == n + 4
                &&& now.take(n) == before
                &&& now[n] == '\\'
                &&& now[n + 1] == 'x'
                &&& 16 * digit(now[n + 2]) + digit(now[n + 3]) == b
            }
        }),
        output::kind_tag(OutputKind::Stdout) == "[Stdout] "@,
        output::kind_tag(OutputKind::Stderr) == "[Stderr] "@,
{
    assert(a.push(b).drop_last() =~= a);
    let before = output::logged_bytes(a);
    let now = output::logged_bytes(a.push(b));
    if 32 <= b <= 126 && b != 92 {
        assert(now =~= before.push(b as char));
    } else {
        assert(now.take(before.len() as int) =~= before);
        lemma_upper_hex(b as int / 16);
        lemma_upper_hex(b as int % 16);
    }
}

proof fn lemma_upper_hex(d: int)
    requires
        0 <= d < 16,
    ensures
        d < 10 ==> output::upper_hex(d) as u32 == d + 48,
        d >= 10 ==> output::upper_hex(d) as u32 == d + 55,
{
    let u: u8 = if d < 10 {
        (d + 48) as u8
    } else {
        (d + 55) as u8
    };
    assert(u as char as u32 == u as u32);
}

} // verus!
