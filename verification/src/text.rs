//! Text helpers. A string is the sequence of its characters; sizes that
//! matter to a byte budget are counted over its UTF-8 encoding.

use vstd::prelude::*;
use vstd::utf8;

verus! {

/// Bytes that one character takes in UTF-8.
pub open spec fn utf8_width(c: char) -> nat {
    if c as u32 <= 0x7F {
        1
    } else if c as u32 <= 0x7FF {
        2
    } else if c as u32 <= 0xFFFF {
        3
    } else {
        4
    }
}

/// Bytes that a text takes in UTF-8.
pub open spec fn utf8_len(s: Seq<char>) -> nat
    decreases s.len(),
{
    if s.len() == 0 {
        0
    } else {
        utf8_len(s.drop_last()) + utf8_width(s.last())
    }
}

/// The longest prefix of `s` that takes at most `limit` bytes.
pub open spec fn clip(s: Seq<char>, limit: nat) -> Seq<char>
    decreases s.len(),
{
    if utf8_len(s) <= limit || s.len() == 0 {
        s
    } else {
        clip(s.drop_last(), limit)
    }
}

/// The shortest suffix of `s` that takes at least `size` bytes, or all of
/// `s` where it takes fewer.
pub open spec fn tail_of(s: Seq<char>, size: nat) -> Seq<char>
    decreases s.len(),
{
    if s.len() == 0 || utf8_len(s.drop_first()) < size {
        s
    } else {
        tail_of(s.drop_first(), size)
    }
}

pub proof fn lemma_utf8_len_add(a: Seq<char>, b: Seq<char>)
    ensures
        utf8_len(a + b) == utf8_len(a) + utf8_len(b),
    decreases b.len(),
{
    if b.len() == 0 {
        assert(a + b =~= a);
    } else {
        assert((a + b).drop_last() =~= a + b.drop_last());
        lemma_utf8_len_add(a, b.drop_last());
    }
}

proof fn lemma_encode_len_step(s: Seq<char>)
    requires
        s.len() > 0,
    ensures
        utf8::encode_utf8(s).len() == utf8_width(s.first()) + utf8::encode_utf8(s.drop_first()).len(),
{
    utf8::char_is_scalar(s[0]);
    reveal_with_fuel(utf8::encode_utf8, 2);
}

/// `utf8_len` counts the bytes of the UTF-8 encoding.
pub proof fn lemma_utf8_len(s: Seq<char>)
    ensures
        utf8_len(s) == utf8::encode_utf8(s).len(),
    decreases s.len(),
{
    if s.len() == 0 {
    } else {
        lemma_encode_len_step(s);
        lemma_utf8_len(s.drop_first());
        let head = seq![s.first()];
        assert(head + s.drop_first() =~= s);
        lemma_utf8_len_add(head, s.drop_first());
        assert(head.drop_last() =~= Seq::<char>::empty());
        assert(utf8_len(head.drop_last()) == 0);
        assert(utf8_len(head) == utf8_width(s.first()));
    }
}

/// The byte length of a text.
pub fn byte_len(s: &str) -> (n: usize)
    ensures
        n == utf8_len(s@),
{
    proof {
        lemma_utf8_len(s@);
    }
    s.as_bytes().len()
}

/// Whether two texts are the same.
pub fn same(a: &str, b: &str) -> (r: bool)
    ensures
        r == (a@ == b@),
{
    let x = a.as_bytes();
    let y = b.as_bytes();
    proof {
        utf8::encode_utf8_decode_utf8(a@);
        utf8::encode_utf8_decode_utf8(b@);
    }
    if x.len() != y.len() {
        return false;
    }
    let mut i: usize = 0;
    while i < x.len()
        invariant
            x@ == utf8::encode_utf8(a@),
            y@ == utf8::encode_utf8(b@),
            x@.len() == y@.len(),
            i <= x@.len(),
            x@.take(i as int) =~= y@.take(i as int),
        decreases x@.len() - i,
    {
        if x[i] != y[i] {
            assert(x@ != y@);
            return false;
        }
        i = i + 1;
    }
    assert(x@ =~= x@.take(i as int));
    assert(y@ =~= y@.take(i as int));
    true
}

/// `String::push` appends the given character to the end of the string.
pub assume_specification[ String::push ](s: &mut String, c: char)
    ensures
        final(s)@ == old(s)@.push(c),
;

/// The texts of a list of strings.
pub open spec fn views(v: Seq<String>) -> Seq<Seq<char>> {
    v.map_values(|s: String| s@)
}

/// The parts one after the other, with `sep` between neighbours.
pub open spec fn joined(parts: Seq<Seq<char>>, sep: Seq<char>) -> Seq<char>
    decreases parts.len(),
{
    if parts.len() == 0 {
        Seq::empty()
    } else if parts.len() == 1 {
        parts[0]
    } else {
        joined(parts.drop_last(), sep) + sep + parts.last()
    }
}

/// The characters of a text.
pub fn chars_of(s: &str) -> (v: Vec<char>)
    ensures
        v@ == s@,
{
    let mut v: Vec<char> = Vec::new();
    for c in it: s.chars()
        invariant
            v@ == it.seq().take(it.index()),
            it.seq() == s@,
    {
        proof {
            assert(it.seq().take(it.index() + 1) =~= it.seq().take(it.index()).push(c));
        }
        v.push(c);
    }
    assert(s@.take(s@.len() as int) =~= s@);
    v
}

/// The text made of the characters `from..to`.
pub fn text_of(chars: &Vec<char>, from: usize, to: usize) -> (s: String)
    requires
        from <= to <= chars@.len(),
    ensures
        s@ == chars@.subrange(from as int, to as int),
{
    let mut s = String::new();
    let mut i: usize = from;
    while i < to
        invariant
            from <= i <= to <= chars@.len(),
            s@ =~= chars@.subrange(from as int, i as int),
        decreases to - i,
    {
        s.push(chars[i]);
        i = i + 1;
    }
    s
}

/// Bytes that one character takes in UTF-8.
pub fn char_width(c: char) -> (n: usize)
    ensures
        n == utf8_width(c),
{
    let code: u32 = c as u32;
    if code <= 0x7F {
        1
    } else if code <= 0x7FF {
        2
    } else if code <= 0xFFFF {
        3
    } else {
        4
    }
}

pub proof fn lemma_utf8_len_take(s: Seq<char>, i: int, j: int)
    requires
        0 <= i <= j <= s.len(),
    ensures
        utf8_len(s.take(i)) <= utf8_len(s.take(j)),
        utf8_len(s.take(j)) == utf8_len(s.take(i)) + utf8_len(s.subrange(i, j)),
{
    assert(s.take(j) =~= s.take(i) + s.subrange(i, j));
    lemma_utf8_len_add(s.take(i), s.subrange(i, j));
}

pub proof fn lemma_utf8_len_push(s: Seq<char>, c: char)
    ensures
        utf8_len(s.push(c)) == utf8_len(s) + utf8_width(c),
{
    assert(s.push(c).drop_last() =~= s);
}

/// `clip` is determined by the prefix that fits and the one that does not.
pub proof fn lemma_clip(s: Seq<char>, limit: nat, i: int)
    requires
        0 <= i <= s.len(),
        utf8_len(s.take(i)) <= limit,
        i < s.len() ==> utf8_len(s.take(i + 1)) > limit,
    ensures
        clip(s, limit) == s.take(i),
    decreases s.len(),
{
    if i == s.len() {
        assert(s.take(i) =~= s);
    } else {
        lemma_utf8_len_take(s, i + 1, s.len() as int);
        assert(s.take(s.len() as int) =~= s);
        let t = s.drop_last();
        assert(t.take(i) =~= s.take(i));
        if i < t.len() {
            assert(t.take(i + 1) =~= s.take(i + 1));
        }
        lemma_clip(t, limit, i);
    }
}

/// What `clip` gives is a prefix, fits, and is all of a text that fits.
pub proof fn lemma_clip_fits(s: Seq<char>, limit: nat)
    ensures
        clip(s, limit).len() <= s.len(),
        clip(s, limit) == s.take(clip(s, limit).len() as int),
        utf8_len(clip(s, limit)) <= limit,
    decreases s.len(),
{
    if utf8_len(s) <= limit || s.len() == 0 {
        assert(s.take(s.len() as int) =~= s);
    } else {
        lemma_clip_fits(s.drop_last(), limit);
        let n = clip(s, limit).len() as int;
        assert(s.drop_last().take(n) =~= s.take(n));
    }
}

/// The longest prefix of `s` that takes at most `limit` bytes.
pub fn truncate_at_char_boundary(s: &str, limit: usize) -> (r: String)
    ensures
        r@ == clip(s@, limit as nat),
{
    let chars = chars_of(s);
    let mut used: usize = 0;
    let mut i: usize = 0;
    assert(s@.take(0) =~= Seq::<char>::empty());
    while i < chars.len()
        invariant
            chars@ == s@,
            i <= chars@.len(),
            used == utf8_len(s@.take(i as int)),
            used <= limit,
        ensures
            i <= chars@.len(),
            utf8_len(s@.take(i as int)) <= limit,
            i < s@.len() ==> utf8_len(s@.take(i + 1)) > limit,
        decreases chars@.len() - i,
    {
        let w: usize = char_width(chars[i]);
        proof {
            assert(s@.take(i + 1) =~= s@.take(i as int).push(s@[i as int]));
            lemma_utf8_len_push(s@.take(i as int), s@[i as int]);
        }
        if w > limit - used {
            break;
        }
        used = used + w;
        i = i + 1;
    }
    proof {
        lemma_clip(s@, limit as nat, i as int);
    }
    let r = text_of(&chars, 0, i);
    assert(r@ =~= s@.take(i as int));
    r
}

/// `tail_of` is determined by a suffix that is long enough where the next
/// shorter one is not.
proof fn lemma_tail_of(s: Seq<char>, size: nat, i: int)
    requires
        0 <= i <= s.len(),
        utf8_len(s.skip(i)) >= size || i == 0,
        i < s.len() ==> utf8_len(s.skip(i + 1)) < size,
    ensures
        tail_of(s, size) == s.skip(i),
    decreases s.len(),
{
    if i == 0 {
        assert(s.skip(0) =~= s);
        if s.len() > 0 {
            assert(s.skip(1) =~= s.drop_first());
        }
    } else {
        let t = s.drop_first();
        assert(t.skip(i - 1) =~= s.skip(i));
        if i < s.len() {
            assert(t.skip(i) =~= s.skip(i + 1));
        }
        assert(t.take(i - 1) + t.skip(i - 1) =~= t);
        lemma_utf8_len_add(t.take(i - 1), t.skip(i - 1));
        lemma_tail_of(t, size, i - 1);
    }
}

/// The shortest suffix of `s` that takes at least `size` bytes, or all of
/// `s` where it takes fewer.
pub fn tail_at_char_boundary(s: &str, size: usize) -> (r: String)
    ensures
        r@ == tail_of(s@, size as nat),
{
    let chars = chars_of(s);
    let n = chars.len();
    let total = byte_len(s);
    let mut used: usize = 0;
    let mut i: usize = n;
    assert(s@.skip(n as int) =~= Seq::<char>::empty());
    while i > 0 && used < size
        invariant
            chars@ == s@,
            n == chars@.len(),
            total == utf8_len(s@),
            i <= n,
            utf8_len(s@.skip(i as int)) == used,
            i < n ==> utf8_len(s@.skip(i + 1)) < size,
        decreases i,
    {
        let w: usize = char_width(chars[i - 1]);
        proof {
            let one = seq![s@[i - 1]];
            assert(s@.skip(i - 1) =~= one + s@.skip(i as int));
            lemma_utf8_len_add(one, s@.skip(i as int));
            assert(one =~= Seq::<char>::empty().push(s@[i - 1]));
            lemma_utf8_len_push(Seq::<char>::empty(), s@[i - 1]);
            assert(s@.take(i - 1) + s@.skip(i - 1) =~= s@);
            lemma_utf8_len_add(s@.take(i - 1), s@.skip(i - 1));
        }
        used = used + w;
        i = i - 1;
    }
    proof {
        lemma_tail_of(s@, size as nat, i as int);
    }
    let r = text_of(&chars, i, n);
    assert(r@ =~= s@.skip(i as int));
    r
}

/// The parts one after the other, with `sep` between neighbours.
pub fn join(parts: &Vec<String>, sep: &str) -> (r: String)
    ensures
        r@ == joined(views(parts@), sep@),
{
    let mut r = String::new();
    let mut i: usize = 0;
    assert(views(parts@).take(0) =~= Seq::<Seq<char>>::empty());
    while i < parts.len()
        invariant
            i <= parts@.len(),
            r@ == joined(views(parts@).take(i as int), sep@),
        decreases parts@.len() - i,
    {
        proof {
            let t = views(parts@).take(i + 1);
            assert(t.drop_last() =~= views(parts@).take(i as int));
            assert(t.last() == parts@[i as int]@);
            if i == 0 {
                assert(t.len() == 1);
            }
        }
        let ghost before = r@;
        if i > 0 {
            r.append(sep);
        }
        r.append(parts[i].as_str());
        proof {
            if i == 0 {
                assert(r@ =~= parts@[0]@);
            }
        }
        i = i + 1;
    }
    assert(views(parts@).take(i as int) =~= views(parts@));
    r
}

/// The Unicode `White_Space` characters.
pub open spec fn is_white(c: char) -> bool {
    let u = c as u32;
    ||| 0x09 <= u <= 0x0D
    ||| u == 0x20
    ||| u == 0x85
    ||| u == 0xA0
    ||| u == 0x1680
    ||| 0x2000 <= u <= 0x200A
    ||| u == 0x2028
    ||| u == 0x2029
    ||| u == 0x202F
    ||| u == 0x205F
    ||| u == 0x3000
}

/// A text without the white space that it starts with.
pub open spec fn trim_start(s: Seq<char>) -> Seq<char>
    decreases s.len(),
{
    if s.len() > 0 && is_white(s.first()) {
        trim_start(s.drop_first())
    } else {
        s
    }
}

/// A text without the white space that it ends with.
pub open spec fn trim_end(s: Seq<char>) -> Seq<char>
    decreases s.len(),
{
    if s.len() > 0 && is_white(s.last()) {
        trim_end(s.drop_last())
    } else {
        s
    }
}

/// A text without the white space at its two ends.
pub open spec fn trimmed(s: Seq<char>) -> Seq<char> {
    trim_end(trim_start(s))
}

pub fn is_whitespace(c: char) -> (r: bool)
    ensures
        r == is_white(c),
{
    let u: u32 = c as u32;
    (0x09 <= u && u <= 0x0D) || u == 0x20 || u == 0x85 || u == 0xA0 || u == 0x1680 || (0x2000 <= u
        && u <= 0x200A) || u == 0x2028 || u == 0x2029 || u == 0x202F || u == 0x205F || u == 0x3000
}

proof fn lemma_trim_start(s: Seq<char>, i: int)
    requires
        0 <= i <= s.len(),
        forall|k: int| 0 <= k < i ==> is_white(#[trigger] s[k]),
        i < s.len() ==> !is_white(s[i]),
    ensures
        trim_start(s) == s.skip(i),
    decreases i,
{
    if i == 0 {
        assert(s.skip(0) =~= s);
    } else {
        assert(is_white(s[0]));
        assert forall|k: int| 0 <= k < i - 1 implies is_white(#[trigger] s.drop_first()[k]) by {
            assert(is_white(s[k + 1]));
        }
        lemma_trim_start(s.drop_first(), i - 1);
        assert(s.drop_first().skip(i - 1) =~= s.skip(i));
    }
}

proof fn lemma_trim_end(s: Seq<char>, j: int)
    requires
        0 <= j <= s.len(),
        forall|k: int| j <= k < s.len() ==> is_white(#[trigger] s[k]),
        j > 0 ==> !is_white(s[j - 1]),
    ensures
        trim_end(s) == s.take(j),
    decreases s.len() - j,
{
    if j == s.len() {
        assert(s.take(j) =~= s);
    } else {
        assert(is_white(s[s.len() - 1]));
        lemma_trim_end(s.drop_last(), j);
        assert(s.drop_last().take(j) =~= s.take(j));
    }
}

/// A text without the white space that it ends with.
pub fn trim_end_text(s: &str) -> (r: String)
    ensures
        r@ == trim_end(s@),
{
    let chars = chars_of(s);
    let mut j: usize = chars.len();
    while j > 0 && is_whitespace(chars[j - 1])
        invariant
            j <= chars@.len(),
            forall|k: int| j <= k < chars@.len() ==> is_white(#[trigger] chars@[k]),
        decreases j,
    {
        j = j - 1;
    }
    proof {
        lemma_trim_end(s@, j as int);
    }
    let r = text_of(&chars, 0, j);
    assert(r@ =~= s@.take(j as int));
    r
}

/// A text without the white space at its two ends.
pub fn trim(s: &str) -> (r: String)
    ensures
        r@ == trimmed(s@),
{
    let chars = chars_of(s);
    let mut i: usize = 0;
    while i < chars.len() && is_whitespace(chars[i])
        invariant
            i <= chars@.len(),
            forall|k: int| 0 <= k < i ==> is_white(#[trigger] chars@[k]),
        decreases chars@.len() - i,
    {
        i = i + 1;
    }
    proof {
        lemma_trim_start(s@, i as int);
    }
    let mut j: usize = chars.len();
    while j > i && is_whitespace(chars[j - 1])
        invariant
            i <= j <= chars@.len(),
            forall|k: int| j <= k < chars@.len() ==> is_white(#[trigger] chars@[k]),
        decreases j,
    {
        j = j - 1;
    }
    proof {
        let t = s@.skip(i as int);
        assert forall|k: int| j - i <= k < t.len() implies is_white(#[trigger] t[k]) by {
            assert(is_white(s@[k + i]));
        }
        lemma_trim_end(t, j - i);
        assert(t.take(j - i) =~= s@.subrange(i as int, j as int));
    }
    text_of(&chars, i, j)
}

/// Whether a text holds nothing but white space.
pub fn is_blank(s: &str) -> (r: bool)
    ensures
        r == (trimmed(s@).len() == 0),
{
    let t = trim(s);
    t.as_str().unicode_len() == 0
}

/// Whether `s` starts with `p`.
pub open spec fn has_prefix(s: Seq<char>, p: Seq<char>) -> bool {
    p.len() <= s.len() && s.take(p.len() as int) == p
}

/// Whether `p` occurs in `s` at position `i`.
pub open spec fn occurs_at(s: Seq<char>, p: Seq<char>, i: int) -> bool {
    0 <= i && i + p.len() <= s.len() && s.subrange(i, i + p.len()) == p
}

/// Whether `p` occurs in `s`.
pub open spec fn occurs(s: Seq<char>, p: Seq<char>) -> bool {
    exists|i: int| #[trigger] occurs_at(s, p, i)
}

fn matches_at(chars: &Vec<char>, p: &Vec<char>, at: usize) -> (r: bool)
    requires
        at <= chars@.len(),
    ensures
        r == occurs_at(chars@, p@, at as int),
{
    if p.len() > chars.len() - at {
        return false;
    }
    let mut k: usize = 0;
    let total = chars.len();
    while k < p.len()
        invariant
            at + p@.len() <= chars@.len(),
            total == chars@.len(),
            k <= p@.len(),
            chars@.subrange(at as int, at + k) =~= p@.take(k as int),
        decreases p@.len() - k,
    {
        if chars[at + k] != p[k] {
            assert(chars@.subrange(at as int, at + p@.len())[k as int] != p@[k as int]);
            return false;
        }
        k = k + 1;
    }
    assert(p@.take(k as int) =~= p@);
    true
}

/// Whether `s` starts with `p`.
pub fn starts_with(s: &str, p: &str) -> (r: bool)
    ensures
        r == has_prefix(s@, p@),
{
    let r = matches_at(&chars_of(s), &chars_of(p), 0);
    proof {
        if p@.len() <= s@.len() {
            assert(s@.subrange(0, p@.len() as int) =~= s@.take(p@.len() as int));
        }
    }
    r
}

/// Whether `p` occurs in `s`.
pub fn contains(s: &str, p: &str) -> (r: bool)
    ensures
        r == occurs(s@, p@),
{
    let chars = chars_of(s);
    let pat = chars_of(p);
    let mut i: usize = 0;
    while i < chars.len()
        invariant
            chars@ == s@,
            pat@ == p@,
            i <= chars@.len(),
            forall|k: int| 0 <= k < i ==> !#[trigger] occurs_at(s@, p@, k),
        decreases chars@.len() - i,
    {
        if matches_at(&chars, &pat, i) {
            return true;
        }
        i = i + 1;
    }
    let last = matches_at(&chars, &pat, i);
    last
}

/// Whether the character `c` occurs in `s`.
pub fn contains_char(s: &str, c: char) -> (r: bool)
    ensures
        r == s@.contains(c),
{
    let chars = chars_of(s);
    let mut i: usize = 0;
    while i < chars.len()
        invariant
            chars@ == s@,
            i <= chars@.len(),
            forall|k: int| 0 <= k < i ==> s@[k] != c,
        decreases chars@.len() - i,
    {
        if chars[i] == c {
            assert(s@[i as int] == c);
            return true;
        }
        i = i + 1;
    }
    false
}

/// The character with an upper-case ASCII letter in lower case.
pub open spec fn ascii_lower(c: char) -> char {
    if 'A' <= c && c <= 'Z' {
        (c as u8 + 32) as u8 as char
    } else {
        c
    }
}

/// Whether two texts differ at most in the case of ASCII letters.
pub open spec fn same_letters(a: Seq<char>, b: Seq<char>) -> bool {
    a.len() == b.len() && forall|i: int|
        0 <= i < a.len() ==> ascii_lower(#[trigger] a[i]) == ascii_lower(b[i])
}

/// The character with an upper-case ASCII letter in lower case.
pub fn lower(c: char) -> (r: char)
    ensures
        r == ascii_lower(c),
{
    if 'A' <= c && c <= 'Z' {
        (c as u8 + 32) as char
    } else {
        c
    }
}

/// Whether two texts differ at most in the case of ASCII letters.
pub fn same_ignoring_case(a: &str, b: &str) -> (r: bool)
    ensures
        r == same_letters(a@, b@),
{
    let x = chars_of(a);
    let y = chars_of(b);
    if x.len() != y.len() {
        return false;
    }
    let mut i: usize = 0;
    while i < x.len()
        invariant
            x@ == a@,
            y@ == b@,
            x@.len() == y@.len(),
            i <= x@.len(),
            forall|k: int| 0 <= k < i ==> ascii_lower(#[trigger] a@[k]) == ascii_lower(b@[k]),
        decreases x@.len() - i,
    {
        if lower(x[i]) != lower(y[i]) {
            assert(ascii_lower(a@[i as int]) != ascii_lower(b@[i as int]));
            return false;
        }
        i = i + 1;
    }
    true
}

/// A text in lower case, as Unicode defines it.
pub uninterp spec fn lowercase_of(s: Seq<char>) -> Seq<char>;

/// Whether a text is made of ASCII characters.
pub open spec fn is_ascii(s: Seq<char>) -> bool {
    forall|i: int| 0 <= i < s.len() ==> (#[trigger] s[i]) as u32 <= 0x7F
}

/// A text with upper-case ASCII letters in lower case.
pub open spec fn ascii_lowered(s: Seq<char>) -> Seq<char> {
    s.map_values(|c: char| ascii_lower(c))
}

/// A text in lower case, by `str::to_lowercase`, which follows Unicode and
/// depends on the text alone. In a text of ASCII characters it changes the
/// upper-case letters and nothing else.
#[verifier::external_body]
pub(crate) fn to_lowercase(s: &str) -> (r: String)
    ensures
        r@ == lowercase_of(s@),
        is_ascii(s@) ==> r@ == ascii_lowered(s@),
{
    s.to_lowercase()
}

/// Whether a list of texts holds `x`.
pub fn list_contains(list: &Vec<String>, x: &str) -> (r: bool)
    ensures
        r == views(list@).contains(x@),
{
    let mut i: usize = 0;
    while i < list.len()
        invariant
            i <= list@.len(),
            forall|k: int| 0 <= k < i ==> list@[k]@ != x@,
        decreases list@.len() - i,
    {
        if same(list[i].as_str(), x) {
            assert(views(list@)[i as int] == x@);
            return true;
        }
        i = i + 1;
    }
    assert forall|k: int| 0 <= k < views(list@).len() implies views(list@)[k] != x@ by {
        assert(list@[k]@ != x@);
    }
    false
}

/// The character of a decimal digit.
pub open spec fn digit_char(d: nat) -> char {
    (d + 48) as u8 as char
}

/// A number in decimal notation.
pub open spec fn decimal_of(n: nat) -> Seq<char>
    decreases n,
{
    if n < 10 {
        seq![digit_char(n)]
    } else {
        decimal_of(n / 10).push(digit_char(n % 10))
    }
}

/// A number in decimal notation.
pub fn decimal(n: u128) -> (s: String)
    ensures
        s@ == decimal_of(n as nat),
    decreases n,
{
    if n < 10 {
        let mut s = String::new();
        s.push((n as u8 + 48) as char);
        assert(s@ =~= seq![digit_char(n as nat)]);
        s
    } else {
        let mut s = decimal(n / 10);
        s.push(((n % 10) as u8 + 48) as char);
        s
    }
}

/// The character of a hexadecimal digit, in lower case.
pub open spec fn hex_char(d: nat) -> char {
    if d < 10 {
        (d + 48) as u8 as char
    } else {
        (d + 87) as u8 as char
    }
}

/// The lowest `width` hexadecimal digits of `n`, with leading zeros.
pub open spec fn hex_of(n: nat, width: nat) -> Seq<char>
    decreases width,
{
    if width == 0 {
        Seq::empty()
    } else {
        hex_of(n / 16, (width - 1) as nat).push(hex_char(n % 16))
    }
}

/// The lowest `width` hexadecimal digits of `n`, with leading zeros.
pub fn hex(n: u32, width: u32) -> (s: String)
    ensures
        s@ == hex_of(n as nat, width as nat),
    decreases width,
{
    if width == 0 {
        String::new()
    } else {
        let mut s = hex(n / 16, width - 1);
        let d: u8 = (n % 16) as u8;
        if d < 10 {
            s.push((d + 48) as char);
        } else {
            s.push((d + 87) as char);
        }
        s
    }
}

/// A copy of a list of texts.
pub fn clone_list(list: &Vec<String>) -> (r: Vec<String>)
    ensures
        views(r@) == views(list@),
{
    let mut r: Vec<String> = Vec::new();
    let mut i: usize = 0;
    while i < list.len()
        invariant
            i <= list@.len(),
            views(r@) =~= views(list@).take(i as int),
        decreases list@.len() - i,
    {
        let ghost before = r@;
        r.push(list[i].clone());
        assert(views(r@) =~= views(before).push(views(list@)[i as int]));
        i = i + 1;
    }
    r
}

/// The parts of a text that stand between the given characters.
pub open spec fn fields(s: Seq<char>, sep: char) -> Seq<Seq<char>>
    decreases s.len(),
{
    if s.len() == 0 {
        seq![Seq::empty()]
    } else {
        let before = fields(s.drop_last(), sep);
        if s.last() == sep {
            before.push(Seq::empty())
        } else {
            before.drop_last().push(before.last().push(s.last()))
        }
    }
}

/// The parts of a text that stand between the given characters.
pub fn split(s: &str, sep: char) -> (r: Vec<String>)
    ensures
        views(r@) == fields(s@, sep),
{
    let chars = chars_of(s);
    let mut done: Vec<String> = Vec::new();
    let mut current = String::new();
    let mut i: usize = 0;
    assert(s@.take(0) =~= Seq::<char>::empty());
    assert(views(done@).push(current@) =~= fields(s@.take(0), sep));
    while i < chars.len()
        invariant
            chars@ == s@,
            i <= s@.len(),
            views(done@).push(current@) == fields(s@.take(i as int), sep),
        decreases s@.len() - i,
    {
        let c = chars[i];
        let ghost before = done@;
        let ghost so_far = fields(s@.take(i as int), sep);
        proof {
            assert(s@.take(i + 1).drop_last() =~= s@.take(i as int));
            assert(s@.take(i + 1).last() == c);
            assert(so_far.last() == current@);
            assert(so_far.drop_last() =~= views(before));
        }
        if c == sep {
            done.push(current);
            current = String::new();
            assert(views(done@) =~= so_far);
            assert(current@ =~= Seq::empty());
        } else {
            current.push(c);
        }
        i = i + 1;
    }
    assert(s@.take(i as int) =~= s@);
    let ghost before = done@;
    done.push(current);
    assert(views(done@) =~= views(before).push(current@));
    done
}

/// A text that is split has at least one part, no part holds the character
/// that it was split at, and the parts with that character between them are
/// the text.
pub proof fn split_text_joins_back(s: Seq<char>, sep: char)
    ensures
        fields(s, sep).len() > 0,
        joined(fields(s, sep), seq![sep]) == s,
        forall|i: int| 0 <= i < fields(s, sep).len() ==> !(#[trigger] fields(s, sep)[i]).contains(
            sep,
        ),
    decreases s.len(),
{
    let all = fields(s, sep);
    if s.len() > 0 {
        let init = s.drop_last();
        let before = fields(init, sep);
        split_text_joins_back(init, sep);
        assert(init.push(s.last()) =~= s);
        if s.last() == sep {
            assert(all.drop_last() =~= before);
            assert(joined(all, seq![sep]) =~= s);
            assert forall|i: int| 0 <= i < all.len() implies !(#[trigger] all[i]).contains(sep) by {
                if i < before.len() {
                    assert(all[i] == before[i]);
                }
            }
        } else {
            assert(all.drop_last() =~= before.drop_last());
            assert(all.last() == before.last().push(s.last()));
            assert(joined(all, seq![sep]) =~= s);
            assert forall|i: int| 0 <= i < all.len() implies !(#[trigger] all[i]).contains(sep) by {
                assert(!before[i].contains(sep));
                if i == all.len() - 1 {
                    let part = all[i];
                    if part.contains(sep) {
                        let k = choose|k: int| 0 <= k < part.len() && part[k] == sep;
                        assert(k < before.last().len());
                        assert(before.last()[k] == sep);
                    }
                }
            }
        }
    }
}

proof fn lemma_fields_of_part(part: Seq<char>, sep: char)
    requires
        !part.contains(sep),
    ensures
        fields(part, sep) == seq![part],
    decreases part.len(),
{
    if part.len() == 0 {
        assert(part =~= Seq::empty());
    } else {
        let init = part.drop_last();
        assert(part.last() == part[part.len() - 1]);
        assert forall|k: int| 0 <= k < init.len() implies init[k] != sep by {
            assert(part[k] == init[k]);
        }
        lemma_fields_of_part(init, sep);
        assert(init.push(part.last()) =~= part);
        assert(fields(part, sep) =~= seq![part]);
    }
}

proof fn lemma_fields_append(s: Seq<char>, part: Seq<char>, sep: char)
    requires
        !part.contains(sep),
    ensures
        fields(s + seq![sep] + part, sep) == fields(s, sep).push(part),
    decreases part.len(),
{
    let all = s + seq![sep] + part;
    if part.len() == 0 {
        assert(all.drop_last() =~= s);
        assert(all.last() == sep);
        assert(part =~= Seq::empty());
    } else {
        let init = part.drop_last();
        assert(part.last() == part[part.len() - 1]);
        assert forall|k: int| 0 <= k < init.len() implies init[k] != sep by {
            assert(part[k] == init[k]);
        }
        lemma_fields_append(s, init, sep);
        assert(all.drop_last() =~= s + seq![sep] + init);
        assert(all.last() == part.last());
        assert(fields(s, sep).push(init).drop_last() =~= fields(s, sep));
        assert(init.push(part.last()) =~= part);
    }
}

/// Parts that do not hold a character come back when the text made of them,
/// with that character between them, is split.
pub proof fn joined_parts_split_back(parts: Seq<Seq<char>>, sep: char)
    requires
        parts.len() > 0,
        forall|i: int| 0 <= i < parts.len() ==> !(#[trigger] parts[i]).contains(sep),
    ensures
        fields(joined(parts, seq![sep]), sep) == parts,
    decreases parts.len(),
{
    assert(!parts[parts.len() - 1].contains(sep));
    if parts.len() == 1 {
        lemma_fields_of_part(parts[0], sep);
        assert(parts =~= seq![parts[0]]);
    } else {
        let init = parts.drop_last();
        assert forall|i: int| 0 <= i < init.len() implies !(#[trigger] init[i]).contains(sep) by {
            assert(!parts[i].contains(sep));
        }
        joined_parts_split_back(init, sep);
        lemma_fields_append(joined(init, seq![sep]), parts.last(), sep);
        assert(init.push(parts.last()) =~= parts);
    }
}

/// A line without the carriage return that it ends with.
pub open spec fn without_return(s: Seq<char>) -> Seq<char> {
    if s.len() > 0 && s.last() == '\r' {
        s.drop_last()
    } else {
        s
    }
}

/// The lines of a text. What is behind the last line break is one only where
/// it is not empty, and keeps a carriage return at its end.
pub open spec fn lines_in(s: Seq<char>) -> Seq<Seq<char>> {
    let parts = fields(s, '\n');
    let full = parts.drop_last().map_values(|l: Seq<char>| without_return(l));
    if parts.last().len() == 0 {
        full
    } else {
        full.push(parts.last())
    }
}

/// The lines of a text.
pub fn lines(s: &str) -> (r: Vec<String>)
    ensures
        views(r@) == lines_in(s@),
{
    let parts = split(s, '\n');
    let ghost all = fields(s@, '\n');
    proof {
        split_text_joins_back(s@, '\n');
    }
    let n = parts.len();
    let ghost full = all.drop_last().map_values(|l: Seq<char>| without_return(l));
    let mut r: Vec<String> = Vec::new();
    let mut i: usize = 0;
    assert(views(r@) =~= full.take(0));
    while i < n - 1
        invariant
            n == parts@.len(),
            n > 0,
            i <= n - 1,
            views(parts@) == all,
            full == all.drop_last().map_values(|l: Seq<char>| without_return(l)),
            views(r@) == full.take(i as int),
        decreases n - i,
    {
        assert(all[i as int] == parts@[i as int]@);
        let chars = chars_of(parts[i].as_str());
        let len = chars.len();
        let end: usize = if len > 0 && chars[len - 1] == '\r' {
            len - 1
        } else {
            len
        };
        let line = text_of(&chars, 0, end);
        assert(line@ =~= without_return(all[i as int]));
        let ghost before = r@;
        r.push(line);
        assert(views(r@) =~= views(before).push(full[i as int]));
        assert(full.take(i as int).push(full[i as int]) =~= full.take(i + 1));
        i = i + 1;
    }
    assert(full.take(i as int) =~= full);
    assert(all.last() == parts@[n - 1]@);
    if parts[n - 1].as_str().unicode_len() > 0 {
        let ghost before = r@;
        r.push(parts[n - 1].clone());
        assert(views(r@) =~= views(before).push(all.last()));
    }
    r
}

} // verus!
