//! Going from one set of text attributes to another with as few changes as
//! possible.

use vstd::prelude::*;

verus! {

/// How letters look, besides their color.
#[derive(Debug, Clone, Copy, PartialEq, Eq, Structural)]
pub struct Modifiers {
    pub bold: bool,
    pub dim: bool,
    pub italic: bool,
    pub underlined: bool,
    pub slow_blink: bool,
    pub rapid_blink: bool,
    pub reversed: bool,
    pub hidden: bool,
    pub crossed_out: bool,
}

impl Modifiers {
    pub open spec fn nothing() -> Modifiers {
        Modifiers {
            bold: false,
            dim: false,
            italic: false,
            underlined: false,
            slow_blink: false,
            rapid_blink: false,
            reversed: false,
            hidden: false,
            crossed_out: false,
        }
    }

    /// The attributes whose bits are set, from the lowest bit up.
    pub open spec fn of_bits(bits: u16) -> Modifiers {
        Modifiers {
            bold: bits % 2 == 1,
            dim: bits / 2 % 2 == 1,
            italic: bits / 4 % 2 == 1,
            underlined: bits / 8 % 2 == 1,
            slow_blink: bits / 16 % 2 == 1,
            rapid_blink: bits / 32 % 2 == 1,
            reversed: bits / 64 % 2 == 1,
            hidden: bits / 128 % 2 == 1,
            crossed_out: bits / 256 % 2 == 1,
        }
    }

    /// The attributes whose bits are set, from the lowest bit up.
    pub fn from_bits(bits: u16) -> (r: Self)
        ensures
            r == Modifiers::of_bits(bits),
    {
        Modifiers {
            bold: bits % 2 == 1,
            dim: bits / 2 % 2 == 1,
            italic: bits / 4 % 2 == 1,
            underlined: bits / 8 % 2 == 1,
            slow_blink: bits / 16 % 2 == 1,
            rapid_blink: bits / 32 % 2 == 1,
            reversed: bits / 64 % 2 == 1,
            hidden: bits / 128 % 2 == 1,
            crossed_out: bits / 256 % 2 == 1,
        }
    }

    /// Letters as they are.
    pub fn none() -> (r: Self)
        ensures
            r == Modifiers::nothing(),
    {
        Modifiers {
            bold: false,
            dim: false,
            italic: false,
            underlined: false,
            slow_blink: false,
            rapid_blink: false,
            reversed: false,
            hidden: false,
            crossed_out: false,
        }
    }
}

/// What a terminal can be told about attributes.
#[derive(Debug, Clone, Copy, PartialEq, Eq, Structural)]
pub enum Attribute {
    Reverse,
    NoReverse,
    Bold,
    Dim,
    /// Neither bold nor dim.
    NormalIntensity,
    Italic,
    NoItalic,
    Underlined,
    NoUnderline,
    CrossedOut,
    NotCrossedOut,
    SlowBlink,
    RapidBlink,
    NoBlink,
    Hidden,
    NoHidden,
}

impl Modifiers {
    /// How letters look once the terminal was told about one attribute.
    pub open spec fn told(self, a: Attribute) -> Modifiers {
        match a {
            Attribute::Reverse => Modifiers { reversed: true, ..self },
            Attribute::NoReverse => Modifiers { reversed: false, ..self },
            Attribute::Bold => Modifiers { bold: true, ..self },
            Attribute::Dim => Modifiers { dim: true, ..self },
            Attribute::NormalIntensity => Modifiers { bold: false, dim: false, ..self },
            Attribute::Italic => Modifiers { italic: true, ..self },
            Attribute::NoItalic => Modifiers { italic: false, ..self },
            Attribute::Underlined => Modifiers { underlined: true, ..self },
            Attribute::NoUnderline => Modifiers { underlined: false, ..self },
            Attribute::CrossedOut => Modifiers { crossed_out: true, ..self },
            Attribute::NotCrossedOut => Modifiers { crossed_out: false, ..self },
            Attribute::SlowBlink => Modifiers { slow_blink: true, ..self },
            Attribute::RapidBlink => Modifiers { rapid_blink: true, ..self },
            Attribute::NoBlink => Modifiers { slow_blink: false, rapid_blink: false, ..self },
            Attribute::Hidden => Modifiers { hidden: true, ..self },
            Attribute::NoHidden => Modifiers { hidden: false, ..self },
        }
    }

    /// How letters look once the terminal was told about some attributes.
    #[verifier::opaque]
    pub open spec fn told_all(self, attributes: Seq<Attribute>) -> Modifiers
        decreases attributes.len(),
    {
        if attributes.len() == 0 {
            self
        } else {
            self.told_all(attributes.drop_last()).told(attributes.last())
        }
    }
}

#[verifier::opaque]
pub open spec fn one(is_needed: bool, a: Attribute) -> Seq<Attribute> {
    if is_needed {
        seq![a]
    } else {
        Seq::empty()
    }
}

/// Whether one of the two ways to blink goes. Both are switched off together.
pub open spec fn a_blink_goes(from: Modifiers, to: Modifiers) -> bool {
    (from.slow_blink && !to.slow_blink) || (from.rapid_blink && !to.rapid_blink)
}

/// The attributes that are switched off, on the way between two sets. What
/// is switched off together with one that goes, and stays, is said again.
pub open spec fn switched_off(from: Modifiers, to: Modifiers) -> Seq<Attribute> {
    one(from.reversed && !to.reversed, Attribute::NoReverse) + one(
        from.bold && !to.bold,
        Attribute::NormalIntensity,
    ) + one(from.bold && !to.bold && to.dim, Attribute::Dim) + one(
        from.italic && !to.italic,
        Attribute::NoItalic,
    ) + one(from.underlined && !to.underlined, Attribute::NoUnderline) + one(
        from.dim && !to.dim,
        Attribute::NormalIntensity,
    ) + one(from.dim && !to.dim && from.bold && to.bold, Attribute::Bold) + one(
        from.crossed_out && !to.crossed_out,
        Attribute::NotCrossedOut,
    ) + one(a_blink_goes(from, to), Attribute::NoBlink) + one(
        a_blink_goes(from, to) && from.slow_blink && to.slow_blink,
        Attribute::SlowBlink,
    ) + one(
        a_blink_goes(from, to) && from.rapid_blink && to.rapid_blink,
        Attribute::RapidBlink,
    ) + one(from.hidden && !to.hidden, Attribute::NoHidden)
}

/// All that the terminal is told, on the way between two sets: first what is
/// switched off, then what is switched on.
pub open spec fn told_between(from: Modifiers, to: Modifiers) -> Seq<Attribute> {
    switched_off(from, to) + one(to.reversed && !from.reversed, Attribute::Reverse) + one(
        to.bold && !from.bold,
        Attribute::Bold,
    ) + one(to.italic && !from.italic, Attribute::Italic) + one(
        to.underlined && !from.underlined,
        Attribute::Underlined,
    ) + one(to.dim && !from.dim, Attribute::Dim) + one(
        to.crossed_out && !from.crossed_out,
        Attribute::CrossedOut,
    ) + one(to.slow_blink && !from.slow_blink, Attribute::SlowBlink) + one(
        to.rapid_blink && !from.rapid_blink,
        Attribute::RapidBlink,
    ) + one(to.hidden && !from.hidden, Attribute::Hidden)
}

fn add_one(v: &mut Vec<Attribute>, is_needed: bool, a: Attribute)
    ensures
        final(v)@ == old(v)@ + one(is_needed, a),
{
    let ghost before = v@;
    reveal(one);
    if is_needed {
        v.push(a);
    }
    assert(v@ =~= before + one(is_needed, a));
}

/// The way from one set of attributes to another.
#[derive(Debug, Clone, Copy)]
pub struct SgrModifierChange {
    pub from: Modifiers,
    pub to: Modifiers,
}

impl SgrModifierChange {
    /// What the terminal is told.
    pub fn queue(self) -> (r: Vec<Attribute>)
        ensures
            r@ == told_between(self.from, self.to),
    {
        let from = self.from;
        let to = self.to;
        let mut v: Vec<Attribute> = Vec::new();
        add_one(&mut v, from.reversed && !to.reversed, Attribute::NoReverse);
        proof {
            lemma_nothing_before(from, v@);
            lemma_nothing_before(from, one(from.reversed && !to.reversed, Attribute::NoReverse));
        }
        add_one(&mut v, from.bold && !to.bold, Attribute::NormalIntensity);
        add_one(&mut v, from.bold && !to.bold && to.dim, Attribute::Dim);
        add_one(&mut v, from.italic && !to.italic, Attribute::NoItalic);
        add_one(&mut v, from.underlined && !to.underlined, Attribute::NoUnderline);
        add_one(&mut v, from.dim && !to.dim, Attribute::NormalIntensity);
        add_one(&mut v, from.dim && !to.dim && from.bold && to.bold, Attribute::Bold);
        add_one(&mut v, from.crossed_out && !to.crossed_out, Attribute::NotCrossedOut);
        let blink_goes = (from.slow_blink && !to.slow_blink) || (from.rapid_blink
            && !to.rapid_blink);
        add_one(&mut v, blink_goes, Attribute::NoBlink);
        add_one(&mut v, blink_goes && from.slow_blink && to.slow_blink, Attribute::SlowBlink);
        add_one(&mut v, blink_goes && from.rapid_blink && to.rapid_blink, Attribute::RapidBlink);
        add_one(&mut v, from.hidden && !to.hidden, Attribute::NoHidden);
        add_one(&mut v, to.reversed && !from.reversed, Attribute::Reverse);
        add_one(&mut v, to.bold && !from.bold, Attribute::Bold);
        add_one(&mut v, to.italic && !from.italic, Attribute::Italic);
        add_one(&mut v, to.underlined && !from.underlined, Attribute::Underlined);
        add_one(&mut v, to.dim && !from.dim, Attribute::Dim);
        add_one(&mut v, to.crossed_out && !from.crossed_out, Attribute::CrossedOut);
        add_one(&mut v, to.slow_blink && !from.slow_blink, Attribute::SlowBlink);
        add_one(&mut v, to.rapid_blink && !from.rapid_blink, Attribute::RapidBlink);
        add_one(&mut v, to.hidden && !from.hidden, Attribute::Hidden);
        v
    }
}

proof fn lemma_told_one(m: Modifiers, v: Seq<Attribute>, is_needed: bool, a: Attribute)
    ensures
        m.told_all(v + one(is_needed, a)) == (if is_needed {
            m.told_all(v).told(a)
        } else {
            m.told_all(v)
        }),
{
    reveal(one);
    reveal_with_fuel(Modifiers::told_all, 2);
    let more = v + one(is_needed, a);
    if is_needed {
        assert(more.drop_last() =~= v);
        assert(more.last() == a);
    } else {
        assert(more =~= v);
    }
}

proof fn lemma_nothing_before(m: Modifiers, v: Seq<Attribute>)
    ensures
        Seq::<Attribute>::empty() + v == v,
        m.told_all(Seq::empty()) == m,
{
    reveal(Modifiers::told_all);
    assert(Seq::<Attribute>::empty() + v =~= v);
}

/// How letters look once everything that goes is switched off.
spec fn after_off(from: Modifiers, to: Modifiers) -> Modifiers {
    Modifiers {
        bold: from.bold && to.bold,
        dim: to.dim && (from.dim || from.bold && !to.bold),
        italic: from.italic && to.italic,
        underlined: from.underlined && to.underlined,
        slow_blink: from.slow_blink && to.slow_blink,
        rapid_blink: from.rapid_blink && to.rapid_blink,
        reversed: from.reversed && to.reversed,
        hidden: from.hidden && to.hidden,
        crossed_out: from.crossed_out && to.crossed_out,
    }
}

#[verifier::spinoff_prover]
proof fn lemma_switched_off(from: Modifiers, to: Modifiers)
    ensures
        from.told_all(switched_off(from, to)) == after_off(from, to),
{
    let none = Seq::<Attribute>::empty();
    let o1 = from.reversed && !to.reversed;
    let o2 = from.bold && !to.bold;
    let o3 = from.bold && !to.bold && to.dim;
    let o4 = from.italic && !to.italic;
    let o5 = from.underlined && !to.underlined;
    let o6 = from.dim && !to.dim;
    let o7 = from.dim && !to.dim && from.bold && to.bold;
    let o8 = from.crossed_out && !to.crossed_out;
    let o9 = a_blink_goes(from, to);
    let o10 = a_blink_goes(from, to) && from.slow_blink && to.slow_blink;
    let o11 = a_blink_goes(from, to) && from.rapid_blink && to.rapid_blink;
    let o12 = from.hidden && !to.hidden;
    let v1 = one(o1, Attribute::NoReverse);
    lemma_told_one(from, none, o1, Attribute::NoReverse);
    lemma_nothing_before(from, v1);
    let v2 = v1 + one(o2, Attribute::NormalIntensity);
    lemma_told_one(from, v1, o2, Attribute::NormalIntensity);
    let v3 = v2 + one(o3, Attribute::Dim);
    lemma_told_one(from, v2, o3, Attribute::Dim);
    let v4 = v3 + one(o4, Attribute::NoItalic);
    lemma_told_one(from, v3, o4, Attribute::NoItalic);
    let v5 = v4 + one(o5, Attribute::NoUnderline);
    lemma_told_one(from, v4, o5, Attribute::NoUnderline);
    let v6 = v5 + one(o6, Attribute::NormalIntensity);
    lemma_told_one(from, v5, o6, Attribute::NormalIntensity);
    let v7 = v6 + one(o7, Attribute::Bold);
    lemma_told_one(from, v6, o7, Attribute::Bold);
    let v8 = v7 + one(o8, Attribute::NotCrossedOut);
    lemma_told_one(from, v7, o8, Attribute::NotCrossedOut);
    let v9 = v8 + one(o9, Attribute::NoBlink);
    lemma_told_one(from, v8, o9, Attribute::NoBlink);
    let v10 = v9 + one(o10, Attribute::SlowBlink);
    lemma_told_one(from, v9, o10, Attribute::SlowBlink);
    let v11 = v10 + one(o11, Attribute::RapidBlink);
    lemma_told_one(from, v10, o11, Attribute::RapidBlink);
    lemma_told_one(from, v11, o12, Attribute::NoHidden);
}

/// A terminal that shows letters one way and is told what lies between that
/// and another shows them the other way.
#[verifier::spinoff_prover]
pub proof fn change_reaches_its_target(from: Modifiers, to: Modifiers)
    ensures
        from.told_all(told_between(from, to)) == to,
{
    lemma_switched_off(from, to);
    let v = switched_off(from, to);
    let a1 = to.reversed && !from.reversed;
    let a2 = to.bold && !from.bold;
    let a3 = to.italic && !from.italic;
    let a4 = to.underlined && !from.underlined;
    let a5 = to.dim && !from.dim;
    let a6 = to.crossed_out && !from.crossed_out;
    let a7 = to.slow_blink && !from.slow_blink;
    let a8 = to.rapid_blink && !from.rapid_blink;
    let w1 = v + one(a1, Attribute::Reverse);
    lemma_told_one(from, v, a1, Attribute::Reverse);
    let w2 = w1 + one(a2, Attribute::Bold);
    lemma_told_one(from, w1, a2, Attribute::Bold);
    let w3 = w2 + one(a3, Attribute::Italic);
    lemma_told_one(from, w2, a3, Attribute::Italic);
    let w4 = w3 + one(a4, Attribute::Underlined);
    lemma_told_one(from, w3, a4, Attribute::Underlined);
    let w5 = w4 + one(a5, Attribute::Dim);
    lemma_told_one(from, w4, a5, Attribute::Dim);
    let w6 = w5 + one(a6, Attribute::CrossedOut);
    lemma_told_one(from, w5, a6, Attribute::CrossedOut);
    let w7 = w6 + one(a7, Attribute::SlowBlink);
    lemma_told_one(from, w6, a7, Attribute::SlowBlink);
    let w8 = w7 + one(a8, Attribute::RapidBlink);
    lemma_told_one(from, w7, a8, Attribute::RapidBlink);
    lemma_told_one(from, w8, to.hidden && !from.hidden, Attribute::Hidden);
}

/// Nothing is told where nothing changes.
pub proof fn no_change_tells_nothing(m: Modifiers)
    ensures
        told_between(m, m).len() == 0,
{
    reveal(one);
}

} // verus!
