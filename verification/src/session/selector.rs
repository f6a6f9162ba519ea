//! Choosing a stored session.

use super::model;
use super::model::{MetadataView, SessionMetadata};
use crate::text;
use vstd::prelude::*;

verus! {

/// The last second that a calendar date can be given for.
pub const LAST_DATED_SECOND: u64 = 8_210_266_876_799;

/// The calendar date in UTC of a number of seconds since 1970.
pub uninterp spec fn utc_date(timestamp: u64) -> Seq<char>;

/// The calendar date of a number of seconds since 1970, by
/// `DateTime::from_timestamp` and `DateTime::format` of the crate `chrono`
/// with `%Y-%m-%d`. It depends on the number alone. Up to the last second of
/// the year 262142 there is one.
#[verifier::external_body]
fn format_date(timestamp: u64) -> (r: String)
    requires
        timestamp <= LAST_DATED_SECOND,
    ensures
        r@ == utc_date(timestamp),
{
    let time = chrono::DateTime::from_timestamp(timestamp as i64, 0);
    time.expect("date out of range").format("%Y-%m-%d").to_string()
}

/// A number of units of time ago.
pub open spec fn ago(n: nat, unit: Seq<char>) -> Seq<char> {
    text::decimal_of(n) + unit + (if n == 1 {
        ""@
    } else {
        "s"@
    }) + " ago"@
}

/// How long ago a session was used, or on which day where that is more than
/// a week.
pub open spec fn age_text(age: nat, date: Seq<char>) -> Seq<char> {
    if age < 60 {
        "just now"@
    } else if age < 3600 {
        ago(age / 60, " min"@)
    } else if age < 86400 {
        ago(age / 3600, " hour"@)
    } else if age < 604800 {
        ago(age / 86400, " day"@)
    } else {
        date
    }
}

fn ago_text(n: u64, unit: &str) -> (r: String)
    ensures
        r@ == ago(n as nat, unit@),
{
    let mut s = text::decimal(n as u128);
    s.append(unit);
    s.append(
        if n == 1 {
            ""
        } else {
            "s"
        },
    );
    s.append(" ago");
    s
}

/// How long ago something was, given the day that it was on.
pub fn format_age(age: u64, date: String) -> (r: String)
    ensures
        r@ == age_text(age as nat, date@),
{
    if age < 60 {
        "just now".to_owned()
    } else if age < 3600 {
        ago_text(age / 60, " min")
    } else if age < 86400 {
        ago_text(age / 3600, " hour")
    } else if age < 604800 {
        ago_text(age / 86400, " day")
    } else {
        date
    }
}

/// How long before `now` a session was used, or on which day where that is
/// more than a week.
pub fn format_timestamp(timestamp: u64, now: u64) -> (r: String)
    requires
        timestamp <= now,
        now - timestamp >= 604800 ==> timestamp <= LAST_DATED_SECOND,
    ensures
        r@ == age_text((now - timestamp) as nat, utc_date(timestamp)),
{
    let age: u64 = now - timestamp;
    if age < 604800 {
        format_age(age, String::new())
    } else {
        format_age(age, format_date(timestamp))
    }
}

/// One line of the list to choose from.
pub open spec fn row_text(number: nat, m: MetadataView, age: Seq<char>) -> Seq<char> {
    "  ["@ + text::decimal_of(number) + "] "@ + m.preview + " ("@ + age + " • "@ + text::decimal_of(
        m.message_count,
    ) + " messages)"@
}

/// One line of the list to choose from, given how long ago the session was
/// used.
pub fn format_row(index: usize, m: &SessionMetadata, age: &str) -> (r: String)
    ensures
        r@ == row_text(index as nat + 1, m@, age@),
{
    let mut s = "  [".to_owned();
    s.append(text::decimal(index as u128 + 1).as_str());
    s.append("] ");
    s.append(m.preview.as_str());
    s.append(" (");
    s.append(age);
    s.append(" • ");
    s.append(text::decimal(m.message_count as u128).as_str());
    s.append(" messages)");
    s
}

/// What the user answered.
#[derive(Debug)]
pub enum Selection {
    /// No session.
    Cancelled,
    /// Something that names no session.
    Invalid,
    /// The session of that name.
    Chosen(String),
}

pub open spec fn is_digit(c: char) -> bool {
    '0' <= c && c <= '9'
}

pub open spec fn digit_value(c: char) -> int {
    c as u8 as int - 48
}

/// The number that a text of digits denotes.
pub open spec fn digits_value(s: Seq<char>) -> int
    decreases s.len(),
{
    if s.len() == 0 {
        0
    } else {
        digits_value(s.drop_last()) * 10 + digit_value(s.last())
    }
}

pub open spec fn all_digits(s: Seq<char>) -> bool {
    forall|i: int| 0 <= i < s.len() ==> is_digit(#[trigger] s[i])
}

/// A text without the plus sign that it may start with.
pub open spec fn without_sign(s: Seq<char>) -> Seq<char> {
    if s.len() > 1 && s[0] == '+' {
        s.drop_first()
    } else {
        s
    }
}

/// The number that a text of digits denotes, where it fits `usize`.
pub open spec fn number_of(digits: Seq<char>) -> Option<int> {
    if digits.len() > 0 && all_digits(digits) && digits_value(digits) <= usize::MAX {
        Some(digits_value(digits))
    } else {
        None
    }
}

/// The number that a text denotes: digits, with a plus sign before them if
/// one likes.
pub open spec fn parsed_number(s: Seq<char>) -> Option<int> {
    number_of(without_sign(s))
}

proof fn lemma_digits_value(s: Seq<char>, i: int)
    requires
        0 <= i <= s.len(),
        all_digits(s),
    ensures
        0 <= digits_value(s.take(i)) <= digits_value(s),
    decreases s.len() - i,
{
    if i == s.len() {
        assert(s.take(i) =~= s);
        lemma_digits_nonneg(s);
    } else {
        lemma_digits_value(s, i + 1);
        assert(s.take(i + 1).drop_last() =~= s.take(i));
        assert(is_digit(s[i]));
        lemma_digits_nonneg(s.take(i));
    }
}

proof fn lemma_digits_nonneg(s: Seq<char>)
    requires
        all_digits(s),
    ensures
        digits_value(s) >= 0,
    decreases s.len(),
{
    if s.len() > 0 {
        assert(is_digit(s[s.len() - 1]));
        assert forall|k: int| 0 <= k < s.drop_last().len() implies is_digit(
            #[trigger] s.drop_last()[k],
        ) by {
            assert(is_digit(s[k]));
        }
        lemma_digits_nonneg(s.drop_last());
    }
}

/// The number that a text denotes.
pub fn parse_number(s: &str) -> (r: Option<usize>)
    ensures
        match r {
            Some(n) => parsed_number(s@) == Some(n as int),
            None => parsed_number(s@) is None,
        },
{
    let all = text::chars_of(s);
    let start: usize = if all.len() > 1 && all[0] == '+' {
        1
    } else {
        0
    };
    let ghost digits = s@.skip(start as int);
    assert(digits =~= without_sign(s@));
    if start >= all.len() {
        return None;
    }
    let mut value: usize = 0;
    let mut i: usize = start;
    assert(digits.take(0) =~= Seq::<char>::empty());
    while i < all.len()
        invariant
            all@ == s@,
            start <= i <= all@.len(),
            digits == s@.skip(start as int),
            parsed_number(s@) == number_of(digits),
            forall|k: int| 0 <= k < i - start ==> is_digit(#[trigger] digits[k]),
            value == digits_value(digits.take(i - start)),
        decreases all@.len() - i,
    {
        let c = all[i];
        assert(digits[i - start] == c);
        if !('0' <= c && c <= '9') {
            assert(!is_digit(digits[i - start]));
            return None;
        }
        let d: usize = (c as u8 - 48) as usize;
        proof {
            assert(digits.take(i - start + 1).drop_last() =~= digits.take(i - start));
            assert(digits_value(digits.take(i - start + 1)) == value * 10 + d);
        }
        if value > (usize::MAX - d) / 10 {
            proof {
                if all_digits(digits) {
                    lemma_digits_value(digits, i - start + 1);
                    assert(value * 10 + d > usize::MAX);
                }
            }
            return None;
        }
        value = value * 10 + d;
        i = i + 1;
    }
    assert(digits.take(i - start) =~= digits);
    Some(value)
}

/// The session that an answer names. Nothing, `q` and `quit` cancel.
pub fn select_session(sessions: &Vec<SessionMetadata>, input: &str) -> (r: Selection)
    ensures
        ({
            let answer = text::trimmed(input@);
            let n = parsed_number(answer);
            if sessions@.len() == 0 || answer.len() == 0 || answer == "q"@ || answer == "quit"@ {
                r is Cancelled
            } else if n is Some && 0 < n->0 <= sessions@.len() {
                r is Chosen && r->Chosen_0@ == sessions@[n->0 - 1].id@
            } else {
                r is Invalid
            }
        }),
{
    let answer = text::trim(input);
    if sessions.len() == 0 || answer.as_str().unicode_len() == 0 || text::same(
        answer.as_str(),
        "q",
    ) || text::same(answer.as_str(), "quit") {
        return Selection::Cancelled;
    }
    match parse_number(answer.as_str()) {
        Some(n) => {
            if n > 0 && n <= sessions.len() {
                Selection::Chosen(sessions[n - 1].id.clone())
            } else {
                Selection::Invalid
            }
        },
        None => Selection::Invalid,
    }
}

} // verus!
