//! What holds of texts and their parts.

use crate::text;
use vstd::prelude::*;
use vstd::utf8;

verus! {

/// How many bytes a text takes: as many as its encoding has.
pub proof fn length_is_that_of_the_encoding(s: Seq<char>)
    ensures
        text::utf8_len(s) == utf8::encode_utf8(s).len(),
        s.len() <= text::utf8_len(s) <= 4 * s.len(),
    decreases s.len(),
{
    text::lemma_utf8_len(s);
    if s.len() > 0 {
        length_is_that_of_the_encoding(s.drop_last());
        text::lemma_utf8_len(s.drop_last());
    }
}

proof fn lemma_take_step(s: Seq<char>, n: int)
    requires
        0 <= n < s.len(),
    ensures
        text::utf8_len(s.take(n)) < text::utf8_len(s.take(n + 1)) <= text::utf8_len(s.take(n)) + 4,
{
    assert(s.take(n + 1).drop_last() =~= s.take(n));
}

proof fn lemma_skip_step(s: Seq<char>, n: int)
    requires
        0 <= n < s.len(),
    ensures
        text::utf8_len(s.skip(n + 1)) < text::utf8_len(s.skip(n)) <= text::utf8_len(s.skip(n + 1)) + 4,
{
    assert(s.skip(n) =~= seq![s[n]] + s.skip(n + 1));
    text::lemma_utf8_len_add(seq![s[n]], s.skip(n + 1));
    let one = seq![s[n]];
    assert(one.drop_last() =~= Seq::<char>::empty());
    assert(text::utf8_len(one.drop_last()) == 0);
}

/// A text cut to some bytes is the start of that text. It fits, and one
/// character more does not.
pub proof fn clip_is_the_longest_start(s: Seq<char>, limit: nat)
    ensures
        ({
            let n = text::clip(s, limit).len() as int;
            &&& 0 <= n <= s.len()
            &&& text::clip(s, limit) == s.take(n)
            &&& utf8::encode_utf8(s.take(n)).len() <= limit
            &&& n < s.len() ==> utf8::encode_utf8(s.take(n + 1)).len() > limit
            &&& n < s.len() ==> utf8::encode_utf8(s.take(n)).len() + 4 > limit
        }),
    decreases s.len(),
{
    text::lemma_clip_fits(s, limit);
    let n = text::clip(s, limit).len() as int;
    text::lemma_utf8_len(s.take(n));
    if n < s.len() {
        text::lemma_utf8_len(s.take(n + 1));
        lemma_clip_is_tight(s, limit);
        lemma_take_step(s, n);
    }
}

proof fn lemma_clip_is_tight(s: Seq<char>, limit: nat)
    ensures
        text::clip(s, limit).len() < s.len() ==> text::utf8_len(
            s.take(text::clip(s, limit).len() as int + 1),
        ) > limit,
    decreases s.len(),
{
    if !(text::utf8_len(s) <= limit || s.len() == 0) {
        let t = s.drop_last();
        lemma_clip_is_tight(t, limit);
        text::lemma_clip_fits(t, limit);
        let n = text::clip(t, limit).len() as int;
        if n < t.len() {
            assert(t.take(n + 1) =~= s.take(n + 1));
        } else {
            assert(s.take(n + 1) =~= s);
        }
    }
}

/// The tail of a text is its end. It has at least the asked bytes where the
/// text has them, and one character less would not.
pub proof fn tail_is_the_shortest_end(s: Seq<char>, size: nat)
    ensures
        ({
            let k = s.len() - text::tail_of(s, size).len();
            &&& 0 <= k <= s.len()
            &&& text::tail_of(s, size) == s.skip(k)
            &&& utf8::encode_utf8(s).len() >= size ==> utf8::encode_utf8(s.skip(k)).len() >= size
            &&& utf8::encode_utf8(s).len() < size ==> k == 0
            &&& k < s.len() ==> utf8::encode_utf8(s.skip(k + 1)).len() < size
            &&& k < s.len() && size > 0 ==> utf8::encode_utf8(s.skip(k)).len() < size + 4
        }),
    decreases s.len(),
{
    lemma_tail(s, size);
    let k = s.len() - text::tail_of(s, size).len();
    text::lemma_utf8_len(s);
    text::lemma_utf8_len(s.skip(k));
    if k < s.len() {
        text::lemma_utf8_len(s.skip(k + 1));
        lemma_skip_step(s, k);
    }
}

proof fn lemma_tail(s: Seq<char>, size: nat)
    ensures
        ({
            let k = s.len() - text::tail_of(s, size).len();
            &&& 0 <= k <= s.len()
            &&& text::tail_of(s, size) == s.skip(k)
            &&& text::utf8_len(s) >= size ==> text::utf8_len(s.skip(k)) >= size
            &&& text::utf8_len(s) < size ==> k == 0
            &&& k < s.len() ==> text::utf8_len(s.skip(k + 1)) < size
        }),
    decreases s.len(),
{
    assert(s.skip(0) =~= s);
    if s.len() == 0 || text::utf8_len(s.drop_first()) < size {
        if s.len() > 0 {
            assert(s.skip(1) =~= s.drop_first());
        }
    } else {
        let t = s.drop_first();
        lemma_tail(t, size);
        lemma_skip_step(s, 0);
        assert(s.skip(1) =~= t);
        let k = t.len() - text::tail_of(t, size).len();
        assert(t.skip(k) =~= s.skip(k + 1));
        if k < t.len() {
            assert(t.skip(k + 1) =~= s.skip(k + 2));
        }
    }
}

/// Trimming takes white space from both ends and nothing else: what is left
/// neither starts nor ends with it.
pub proof fn trimming_takes_only_the_margins(s: Seq<char>) -> (r: (int, int))
    ensures
        0 <= r.0 <= r.1 <= s.len(),
        text::trimmed(s) == s.subrange(r.0, r.1),
        forall|i: int| 0 <= i < r.0 ==> text::is_white(#[trigger] s[i]),
        forall|i: int| r.1 <= i < s.len() ==> text::is_white(#[trigger] s[i]),
        text::trimmed(s).len() > 0 ==> !text::is_white(text::trimmed(s).first())
            && !text::is_white(text::trimmed(s).last()),
        (text::trimmed(s).len() == 0) == (forall|i: int|
            0 <= i < s.len() ==> text::is_white(#[trigger] s[i])),
{
    let a = lemma_trim_start_skips(s);
    let t = s.skip(a);
    let b = lemma_trim_end_takes(t);
    assert(t.take(b) =~= s.subrange(a, a + b));
    assert forall|i: int| a + b <= i < s.len() implies text::is_white(#[trigger] s[i]) by {
        assert(t[i - a] == s[i]);
    }
    if b > 0 {
        assert(!text::is_white(t.first()));
        assert(s[a] == t.first());
    }
    (a, a + b)
}

proof fn lemma_trim_start_skips(s: Seq<char>) -> (a: int)
    ensures
        0 <= a <= s.len(),
        text::trim_start(s) == s.skip(a),
        forall|i: int| 0 <= i < a ==> text::is_white(#[trigger] s[i]),
        a < s.len() ==> !text::is_white(s[a]),
    decreases s.len(),
{
    if s.len() > 0 && text::is_white(s.first()) {
        let a = lemma_trim_start_skips(s.drop_first());
        assert(s.drop_first().skip(a) =~= s.skip(a + 1));
        assert forall|i: int| 0 <= i < a + 1 implies text::is_white(#[trigger] s[i]) by {
            if i > 0 {
                assert(s.drop_first()[i - 1] == s[i]);
            }
        }
        a + 1
    } else {
        assert(s.skip(0) =~= s);
        0
    }
}

proof fn lemma_trim_end_takes(s: Seq<char>) -> (b: int)
    ensures
        0 <= b <= s.len(),
        text::trim_end(s) == s.take(b),
        forall|i: int| b <= i < s.len() ==> text::is_white(#[trigger] s[i]),
        b > 0 ==> !text::is_white(s[b - 1]),
    decreases s.len(),
{
    if s.len() > 0 && text::is_white(s.last()) {
        let b = lemma_trim_end_takes(s.drop_last());
        assert(s.drop_last().take(b) =~= s.take(b));
        assert forall|i: int| b <= i < s.len() implies text::is_white(#[trigger] s[i]) by {
            if i < s.len() - 1 {
                assert(s.drop_last()[i] == s[i]);
            }
        }
        b
    } else {
        assert(s.take(s.len() as int) =~= s);
        s.len() as int
    }
}

/// Among the ASCII characters, white space is what sets text apart: the
/// blank and the five controls from the tab to the carriage return.
pub proof fn white_space_in_ascii(c: char)
    requires
        c as u32 <= 0x7F,
    ensures
        text::is_white(c) == (c == ' ' || c == '\n' || c == '\t' || c == '\r' || c as u32 == 11
            || c as u32 == 12),
{
}

/// Beyond the ASCII characters, white space is the next line, the blanks that
/// do not break, the blanks of other scripts and of all widths, and the ends
/// of lines and paragraphs.
pub proof fn white_space_beyond_ascii(c: char)
    requires
        c as u32 > 0x7F,
    ensures
        text::is_white(c) == (c == '\u{85}' || c == '\u{a0}' || c == '\u{202f}' || c == '\u{1680}'
            || c == '\u{205f}' || c == '\u{3000}' || ('\u{2000}' <= c && c <= '\u{200a}') || c
            == '\u{2028}' || c == '\u{2029}'),
{
}

/// A text starts with another exactly where it is that other and something
/// behind it.
pub proof fn prefix_and_rest(p: Seq<char>, rest: Seq<char>, s: Seq<char>)
    ensures
        text::has_prefix(p + rest, p),
        text::has_prefix(s, p) ==> s == p + s.skip(p.len() as int),
        text::has_prefix(s, p) == p.is_prefix_of(s),
{
    assert((p + rest).take(p.len() as int) =~= p);
    if text::has_prefix(s, p) {
        assert(s =~= s.take(p.len() as int) + s.skip(p.len() as int));
    }
    if p.is_prefix_of(s) {
        assert(s.take(p.len() as int) =~= p);
    }
}

/// A text occurs in another exactly where the other is something, that text
/// and something.
pub proof fn occurrence_has_two_sides(a: Seq<char>, p: Seq<char>, b: Seq<char>, s: Seq<char>)
    ensures
        text::occurs(a + p + b, p),
        text::occurs(s, p) ==> exists|x: Seq<char>, y: Seq<char>| s == #[trigger] (x + p + y),
{
    let all = a + p + b;
    assert(all.subrange(a.len() as int, (a.len() + p.len()) as int) =~= p);
    assert(text::occurs_at(all, p, a.len() as int));
    if text::occurs(s, p) {
        let i = choose|i: int| #[trigger] text::occurs_at(s, p, i);
        assert(s =~= s.take(i) + p + s.skip(i + p.len()));
    }
}

/// Lower case moves the twenty-six letters of ASCII and nothing else.
pub proof fn lower_case_moves_letters_only(c: char)
    ensures
        0x41 <= c as u32 <= 0x5A ==> text::ascii_lower(c) as u32 == c as u32 + 32,
        !(0x41 <= c as u32 <= 0x5A) ==> text::ascii_lower(c) == c,
        text::ascii_lower(text::ascii_lower(c)) == text::ascii_lower(c),
{
    if 0x41 <= c as u32 && c as u32 <= 0x5A {
        let low: u8 = (c as u8 + 32) as u8;
        assert(c as u8 as u32 == c as u32);
        assert(low as u32 == c as u32 + 32);
        assert(low as char as u32 == low as u32);
    }
}

/// The number that a row of decimal digits stands for.
pub open spec fn decimal_value(s: Seq<char>) -> int
    decreases s.len(),
{
    if s.len() == 0 {
        0
    } else {
        10 * decimal_value(s.drop_last()) + (s.last() as u32 - 48)
    }
}

/// Decimal notation is made of decimal digits, starts with a zero only for
/// zero, and stands for the number.
pub proof fn decimal_notation_stands_for_the_number(n: nat)
    ensures
        text::decimal_of(n).len() > 0,
        decimal_value(text::decimal_of(n)) == n,
        forall|i: int|
            0 <= i < text::decimal_of(n).len() ==> 48 <= #[trigger] text::decimal_of(n)[i] as u32 <= 57,
        n > 0 ==> text::decimal_of(n)[0] != '0',
    decreases n,
{
    let s = text::decimal_of(n);
    lemma_digit(n % 10);
    if n < 10 {
        assert(s.drop_last() =~= Seq::<char>::empty());
        assert(decimal_value(s.drop_last()) == 0);
    } else {
        decimal_notation_stands_for_the_number(n / 10);
        let t = text::decimal_of(n / 10);
        assert(s.drop_last() =~= t);
        assert forall|i: int| 0 <= i < s.len() implies 48 <= #[trigger] s[i] as u32 <= 57 by {
            if i < t.len() {
                assert(s[i] == t[i]);
            }
        }
        assert(s[0] == t[0]);
    }
}

proof fn lemma_digit(d: nat)
    requires
        d < 10,
    ensures
        text::digit_char(d) as u32 == d + 48,
{
    let u: u8 = (d + 48) as u8;
    assert(u as char as u32 == u as u32);
}

/// The number that a row of hexadecimal digits stands for.
pub open spec fn hex_value(s: Seq<char>) -> int
    decreases s.len(),
{
    if s.len() == 0 {
        0
    } else {
        let c = s.last() as u32;
        16 * hex_value(s.drop_last()) + (if c < 58 {
            c - 48
        } else {
            c - 87
        })
    }
}

/// Hexadecimal notation has as many digits as asked for, all of them digits
/// or lower-case letters, and stands for the number where it has room.
pub proof fn hexadecimal_notation_stands_for_the_number(n: nat, width: nat)
    ensures
        text::hex_of(n, width).len() == width,
        hex_value(text::hex_of(n, width)) == n % (vstd::arithmetic::power::pow(16, width) as nat),
        forall|i: int|
            0 <= i < width ==> {
                let c = #[trigger] text::hex_of(n, width)[i] as u32;
                48 <= c <= 57 || 97 <= c <= 102
            },
    decreases width,
{
    vstd::arithmetic::power::lemma_pow_positive(16, width);
    if width == 0 {
        vstd::arithmetic::power::lemma_pow0(16);
    } else {
        let s = text::hex_of(n, width);
        let less = (width - 1) as nat;
        hexadecimal_notation_stands_for_the_number(n / 16, less);
        let t = text::hex_of(n / 16, less);
        lemma_hex_digit(n % 16);
        assert(s.drop_last() =~= t);
        assert forall|i: int| 0 <= i < width implies ({
            let c = #[trigger] s[i] as u32;
            48 <= c <= 57 || 97 <= c <= 102
        }) by {
            if i < less {
                assert(s[i] == t[i]);
            }
        }
        let p = vstd::arithmetic::power::pow(16, less);
        vstd::arithmetic::power::lemma_pow_positive(16, less);
        assert(vstd::arithmetic::power::pow(16, width) == 16 * p) by {
            reveal(vstd::arithmetic::power::pow);
        }
        vstd::arithmetic::div_mod::lemma_mod_breakdown(n as int, 16, p);
        assert(hex_value(s) == 16 * ((n / 16) as int % p) + n % 16);
    }
}

proof fn lemma_hex_digit(d: nat)
    requires
        d < 16,
    ensures
        d < 10 ==> text::hex_char(d) as u32 == d + 48,
        d >= 10 ==> text::hex_char(d) as u32 == d + 87,
{
    let u: u8 = if d < 10 {
        (d + 48) as u8
    } else {
        (d + 87) as u8
    };
    assert(u as char as u32 == u as u32);
}

/// Parts joined end with the last part, behind the separator and all the
/// parts before; a part alone is itself.
pub proof fn parts_are_joined_in_order(parts: Seq<Seq<char>>, last: Seq<char>, sep: Seq<char>)
    ensures
        text::joined(Seq::<Seq<char>>::empty(), sep) == Seq::<char>::empty(),
        text::joined(seq![last], sep) == last,
        parts.len() > 0 ==> text::joined(parts.push(last), sep) == text::joined(parts, sep) + sep
            + last,
{
    assert(parts.push(last).drop_last() =~= parts);
}

/// A text that neither starts nor ends with white space is kept by trimming,
/// and so is its middle when white space is put around it.
pub proof fn text_without_margins_is_kept(a: Seq<char>, s: Seq<char>, b: Seq<char>)
    requires
        s.len() > 0,
        !text::is_white(s.first()),
        !text::is_white(s.last()),
        forall|i: int| 0 <= i < a.len() ==> text::is_white(#[trigger] a[i]),
        forall|i: int| 0 <= i < b.len() ==> text::is_white(#[trigger] b[i]),
    ensures
        text::trimmed(a + s + b) == s,
{
    let all = a + s + b;
    let (x, y) = trimming_takes_only_the_margins(all);
    assert(all[a.len() as int] == s[0]);
    assert(all[a.len() + s.len() - 1] == s.last());
    if text::trimmed(all).len() == 0 {
        assert(text::is_white(all[a.len() as int]));
    }
    assert(text::trimmed(all).first() == all[x]);
    assert(text::trimmed(all).last() == all[y - 1]);
    if x < a.len() {
        assert(all[x] == a[x]);
    }
    if x > a.len() {
        assert(text::is_white(all[a.len() as int]));
    }
    if y > a.len() + s.len() {
        assert(all[y - 1] == b[y - 1 - a.len() - s.len()]);
    }
    if y < a.len() + s.len() {
        assert(text::is_white(all[a.len() + s.len() - 1]));
    }
    assert(text::trimmed(all) =~= s);
}

/// The lines of a text are what lies between its line breaks: a text made of
/// lines that hold none, each with a line break behind it, has those lines,
/// without the carriage returns that they end with; what comes behind the
/// last line break is one more line where there is anything.
pub proof fn lines_lie_between_line_breaks(parts: Seq<Seq<char>>)
    requires
        parts.len() > 0,
        forall|i: int| 0 <= i < parts.len() ==> !(#[trigger] parts[i]).contains('\n'),
    ensures
        ({
            let lines = text::lines_in(text::joined(parts, seq!['\n']));
            let last = parts.len() - 1;
            &&& parts[last].len() == 0 ==> lines.len() == last
            &&& parts[last].len() > 0 ==> lines.len() == last + 1 && lines[last] == parts[last]
            &&& forall|i: int|
                0 <= i < last ==> (#[trigger] lines[i]) == (if parts[i].len() > 0 && parts[i].last()
                    == '\r' {
                    parts[i].drop_last()
                } else {
                    parts[i]
                })
        }),
{
    text::joined_parts_split_back(parts, '\n');
}

} // verus!
