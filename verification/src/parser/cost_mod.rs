//! CR 601.2e + CR 107.4f: cost-modification statics of Oracle text.

use vstd::prelude::*;

use crate::game::state::{StaticDefinition, StaticMode};
use crate::parser::cursor::{match_prefix, rest_after, starts_with};
use crate::text::{
    char_lower_code, digits_value, eq_ignore_ascii_case, is_digit, lower_code, str_chars, string_of, trim,
    trim_bounds,
};
use crate::types::ability::TargetFilter;
use crate::types::mana::ManaColor;

verus! {

/// The text without its trailing periods.
pub open spec fn strip_dots(s: Seq<char>) -> Seq<char>
    decreases s.len(),
{
    if s.len() > 0 && s.last() == '.' {
        strip_dots(s.drop_last())
    } else {
        s
    }
}

/// `s` begins with `p`, up to ASCII case.
pub open spec fn ci_prefix(s: Seq<char>, p: Seq<char>) -> bool {
    p.len() <= s.len() && eq_ignore_ascii_case(s.take(p.len() as int), p)
}

/// The colored mana symbol at the front ("{W}", "{U}", "{B}", "{R}",
/// "{G}", in either case).
pub open spec fn symbol_color(s: Seq<char>) -> Option<ManaColor> {
    if ci_prefix(s, "{w}"@) {
        Some(ManaColor::White)
    } else if ci_prefix(s, "{u}"@) {
        Some(ManaColor::Blue)
    } else if ci_prefix(s, "{b}"@) {
        Some(ManaColor::Black)
    } else if ci_prefix(s, "{r}"@) {
        Some(ManaColor::Red)
    } else if ci_prefix(s, "{g}"@) {
        Some(ManaColor::Green)
    } else {
        None
    }
}

/// How many decimal digits `s` begins with.
pub open spec fn lead_digits(s: Seq<char>) -> nat
    decreases s.len(),
{
    if s.len() > 0 && is_digit(s[0]) {
        1 + lead_digits(s.drop_first())
    } else {
        0
    }
}

/// CR 107.4f: the color of "For each {C} in a cost, you may pay 2 life
/// rather than pay that mana", matched up to ASCII case on the text without
/// surrounding whitespace and trailing periods; the number is a decimal
/// numeral of value 2, and nothing may follow.
pub open spec fn pay_life_color(text: Seq<char>) -> Option<ManaColor> {
    pay_life_core(strip_dots(trim(text)))
}

/// The color of the K'rrik phrase in a text already trimmed of whitespace
/// and trailing periods.
pub open spec fn pay_life_core(t: Seq<char>) -> Option<ManaColor> {
    let a = "for each "@;
    let b = " in a cost, you may pay "@;
    let c = " life rather than pay that mana"@;
    if !ci_prefix(t, a) {
        None
    } else {
        let r1 = t.skip(a.len() as int);
        match symbol_color(r1) {
            None => None,
            Some(color) => {
                let r2 = r1.skip(3);
                if !ci_prefix(r2, b) {
                    None
                } else {
                    let r3 = r2.skip(b.len() as int);
                    let d = lead_digits(r3);
                    if d == 0 || digits_value(r3.take(d as int)) != 2 {
                        None
                    } else {
                        let r4 = r3.skip(d as int);
                        if ci_prefix(r4, c) && r4.len() == c.len() {
                            Some(color)
                        } else {
                            None
                        }
                    }
                }
            },
        }
    }
}

/// Whether `cs` from `pos` begins with `word`, up to ASCII case.
fn ci_match_at(cs: &Vec<char>, pos: usize, word: &str) -> (r: Option<usize>)
    requires
        pos <= cs@.len(),
    ensures
        r is Some <==> ci_prefix(cs@.skip(pos as int), word@),
        r matches Some(n) ==> n == word@.len() && pos + n <= cs@.len(),
{
    let w = str_chars(word);
    let n = w.len();
    let total = cs.len();
    if n > cs.len() - pos {
        return None;
    }
    let mut i: usize = 0;
    while i < n
        invariant
            pos + n <= cs@.len(),
            total == cs@.len(),
            n == w@.len(),
            w@ == word@,
            i <= n,
            forall|j: int| 0 <= j < i ==> lower_code(#[trigger] cs@.skip(pos as int).take(n as int)[j]) == lower_code(
                w@[j],
            ),
        decreases n - i,
    {
        if char_lower_code(cs[pos + i]) != char_lower_code(w[i]) {
            assert(cs@.skip(pos as int).take(n as int)[i as int] == cs@[pos + i]);
            return None;
        }
        assert(cs@.skip(pos as int).take(n as int)[i as int] == cs@[pos + i]);
        i = i + 1;
    }
    Some(n)
}

fn symbol_at(cs: &Vec<char>, pos: usize) -> (r: Option<ManaColor>)
    requires
        pos <= cs@.len(),
    ensures
        r == symbol_color(cs@.skip(pos as int)),
        r is Some ==> pos + 3 <= cs@.len(),
{
    proof {
        reveal_strlit("{w}");
        reveal_strlit("{u}");
        reveal_strlit("{b}");
        reveal_strlit("{r}");
        reveal_strlit("{g}");
    }
    if ci_match_at(cs, pos, "{w}").is_some() {
        return Some(ManaColor::White);
    }
    if ci_match_at(cs, pos, "{u}").is_some() {
        return Some(ManaColor::Blue);
    }
    if ci_match_at(cs, pos, "{b}").is_some() {
        return Some(ManaColor::Black);
    }
    if ci_match_at(cs, pos, "{r}").is_some() {
        return Some(ManaColor::Red);
    }
    if ci_match_at(cs, pos, "{g}").is_some() {
        return Some(ManaColor::Green);
    }
    None
}

/// The number of leading digits from `pos`, and whether their value is 2.
fn digits_at(cs: &Vec<char>, pos: usize) -> (r: (usize, bool))
    requires
        pos <= cs@.len(),
    ensures
        r.0 == lead_digits(cs@.skip(pos as int)),
        pos + r.0 <= cs@.len(),
        r.1 == (digits_value(cs@.skip(pos as int).take(r.0 as int)) == 2),
{
    let ghost s = cs@.skip(pos as int);
    let mut i: usize = pos;
    let mut value: u32 = 0;
    let mut big = false;
    while i < cs.len() && (cs[i] as u32) >= 48 && (cs[i] as u32) <= 57
        invariant
            pos <= i <= cs@.len(),
            s == cs@.skip(pos as int),
            lead_digits(s) == (i - pos) + lead_digits(cs@.skip(i as int)),
            all_digits_between(cs@, pos as int, i as int),
            !big ==> value == digits_value(s.take(i - pos)),
            big ==> digits_value(s.take(i - pos)) > 2,
        decreases cs@.len() - i,
    {
        proof {
            assert(cs@.skip(i as int).drop_first() =~= cs@.skip(i + 1));
            assert(s.take(i + 1 - pos).drop_last() =~= s.take(i - pos));
            assert(s.take(i + 1 - pos).last() == cs@[i as int]);
            lemma_digits_grow(s.take(i - pos), cs@[i as int]);
            assert(s.take(i + 1 - pos) =~= s.take(i - pos).push(cs@[i as int]));
        }
        let d = (cs[i] as u32) - 48;
        if !big {
            if value > 2 {
                big = true;
            } else {
                value = value * 10 + d;
            }
        }
        i = i + 1;
    }
    proof {
        if i < cs@.len() {
            assert(!is_digit(cs@.skip(i as int)[0]));
        }
    }
    (i - pos, !big && value == 2)
}

/// The characters from `a` to `b` are decimal digits.
pub open spec fn all_digits_between(s: Seq<char>, a: int, b: int) -> bool {
    forall|j: int| a <= j < b ==> is_digit(#[trigger] s[j])
}

proof fn lemma_digits_grow(s: Seq<char>, c: char)
    requires
        is_digit(c),
    ensures
        digits_value(s.push(c)) == digits_value(s) * 10 + (c as u32 - 48),
        digits_value(s) > 2 ==> digits_value(s.push(c)) > 2,
{
    assert(s.push(c).drop_last() =~= s);
}

/// The characters of the text without surrounding whitespace and trailing
/// periods.
fn stripped_chars(text: &str) -> (cs: Vec<char>)
    ensures
        cs@ == strip_dots(trim(text@)),
{
    let cs0 = str_chars(text);
    let (a0, b0) = trim_bounds(cs0.as_slice());
    let mut end = b0;
    while end > a0 && cs0[end - 1] == '.'
        invariant
            a0 <= end <= b0 <= cs0@.len(),
            cs0@.subrange(a0 as int, b0 as int) == trim(text@),
            strip_dots(trim(text@)) == strip_dots(cs0@.subrange(a0 as int, end as int)),
        decreases end - a0,
    {
        assert(cs0@.subrange(a0 as int, end as int).drop_last() =~= cs0@.subrange(a0 as int, end - 1));
        end = end - 1;
    }
    let mut cs: Vec<char> = Vec::new();
    let mut k: usize = a0;
    while k < end
        invariant
            a0 <= k <= end <= cs0@.len(),
            cs@ == cs0@.subrange(a0 as int, k as int),
        decreases end - k,
    {
        cs.push(cs0[k]);
        k = k + 1;
    }
    proof {
        let t = cs0@.subrange(a0 as int, end as int);
        assert(cs@ == t);
        if t.len() > 0 {
            assert(t.last() != '.');
        }
        assert(strip_dots(t) == t);
    }
    cs
}

/// The color the K'rrik phrase names in the characters, where they hold it.
fn pay_life_match(cs: &Vec<char>) -> (r: Option<ManaColor>)
    ensures
        r == pay_life_core(cs@),
{
    let n = cs.len();
    assert(cs@.skip(0) =~= cs@);
    let p1 = match ci_match_at(cs, 0, "for each ") {
        Some(x) => x,
        None => return None,
    };
    let color = match symbol_at(cs, p1) {
        Some(c) => c,
        None => return None,
    };
    let p2 = p1 + 3;
    assert(cs@.skip(p1 as int).skip(3) =~= cs@.skip(p2 as int));
    let p3 = match ci_match_at(cs, p2, " in a cost, you may pay ") {
        Some(x) => p2 + x,
        None => return None,
    };
    assert(cs@.skip(p2 as int).skip((p3 - p2) as int) =~= cs@.skip(p3 as int));
    let (d, two) = digits_at(cs, p3);
    if d == 0 || !two {
        return None;
    }
    let p4 = p3 + d;
    assert(cs@.skip(p3 as int).skip(d as int) =~= cs@.skip(p4 as int));
    let tail = match ci_match_at(cs, p4, " life rather than pay that mana") {
        Some(x) => x,
        None => return None,
    };
    if p4 + tail != n {
        return None;
    }
    Some(color)
}

/// CR 107.4f: parse "For each {C} in a cost, you may pay 2 life rather than
/// pay that mana" (K'rrik) into a static that lets its controller pay 2
/// life in place of each mana symbol of that color. Any other life amount
/// is not read.
pub fn parse_pay_life_as_colored_mana(text: &str) -> (r: Option<StaticDefinition>)
    ensures
        match pay_life_color(text@) {
            Some(color) => (r matches Some(d) && d.mode == StaticMode::PayLifeAsColoredMana { color } && d.affected
                == Some(TargetFilter::Controller) && (d.description matches Some(t) && t@ == text@)),
            None => r is None,
        },
{
    let cs = stripped_chars(text);
    match pay_life_match(&cs) {
        Some(color) => Some(
            StaticDefinition {
                mode: StaticMode::PayLifeAsColoredMana { color },
                affected: Some(TargetFilter::Controller),
                description: Some(string_of(text)),
            },
        ),
        None => None,
    }
}

/// The phrase that bounds a cost reduction from below.
pub open spec fn floor_phrase() -> Seq<char> {
    "this effect can't reduce the mana in that cost to less than "@
}

/// The first position, from `i` on, where the phrase begins.
pub open spec fn first_phrase_from(s: Seq<char>, i: int) -> Option<int>
    decreases s.len() + 1 - i,
{
    if i < 0 || i > s.len() {
        None
    } else if starts_with(s.skip(i), floor_phrase()) {
        Some(i)
    } else {
        first_phrase_from(s, i + 1)
    }
}

/// The least mana a reduction leaves, after the phrase: "one mana" is 1,
/// else a decimal numeral that fits in 32 bits.
pub open spec fn floor_amount(r: Seq<char>) -> Option<u32> {
    if starts_with(r, "one mana"@) {
        Some(1)
    } else {
        let d = lead_digits(r);
        if d > 0 && digits_value(r.take(d as int)) <= u32::MAX {
            Some(digits_value(r.take(d as int)) as u32)
        } else {
            None
        }
    }
}

/// CR 601.2f: the minimum a cost reduction leaves, read after the first
/// "this effect can't reduce the mana in that cost to less than " of the
/// text.
pub open spec fn reduction_floor(s: Seq<char>) -> Option<u32> {
    match first_phrase_from(s, 0) {
        Some(i) => floor_amount(s.skip(i + floor_phrase().len())),
        None => None,
    }
}

/// The value of the leading decimal numeral, where it fits in 32 bits.
fn numeral_at(cs: &Vec<char>, pos: usize) -> (r: Option<u32>)
    requires
        pos <= cs@.len(),
    ensures
        ({
            let s = cs@.skip(pos as int);
            let d = lead_digits(s);
            r == (if d > 0 && digits_value(s.take(d as int)) <= u32::MAX {
                Some(digits_value(s.take(d as int)) as u32)
            } else {
                None
            })
        }),
{
    let ghost s = cs@.skip(pos as int);
    let mut i: usize = pos;
    let mut value: u64 = 0;
    let mut big = false;
    while i < cs.len() && (cs[i] as u32) >= 48 && (cs[i] as u32) <= 57
        invariant
            pos <= i <= cs@.len(),
            s == cs@.skip(pos as int),
            lead_digits(s) == (i - pos) + lead_digits(cs@.skip(i as int)),
            !big ==> value == digits_value(s.take(i - pos)) && value <= u32::MAX,
            big ==> digits_value(s.take(i - pos)) > u32::MAX,
        decreases cs@.len() - i,
    {
        proof {
            assert(cs@.skip(i as int).drop_first() =~= cs@.skip(i + 1));
            assert(s.take(i + 1 - pos) =~= s.take(i - pos).push(cs@[i as int]));
            assert(s.take(i + 1 - pos).drop_last() =~= s.take(i - pos));
            lemma_digits_step(s.take(i - pos), cs@[i as int]);
        }
        let d = (cs[i] as u32 - 48) as u64;
        if !big {
            let v = value * 10 + d;
            if v > 0xFFFF_FFFF {
                big = true;
            } else {
                value = v;
            }
        }
        i = i + 1;
    }
    proof {
        if i < cs@.len() {
            assert(!is_digit(cs@.skip(i as int)[0]));
        }
    }
    if i == pos || big {
        None
    } else {
        Some(value as u32)
    }
}

proof fn lemma_digits_step(s: Seq<char>, c: char)
    requires
        is_digit(c),
    ensures
        digits_value(s.push(c)) == digits_value(s) * 10 + (c as u32 - 48),
        digits_value(s) > u32::MAX ==> digits_value(s.push(c)) > u32::MAX,
{
    assert(s.push(c).drop_last() =~= s);
}

/// CR 601.2f: read the least mana a cost reduction may leave ("this effect
/// can't reduce the mana in that cost to less than one mana" gives 1);
/// `None` where the text has no such bound.
pub fn parse_activated_cost_reduction_minimum_mana(lower: &str) -> (r: Option<u32>)
    ensures
        r == reduction_floor(lower@),
{
    let cs = str_chars(lower);
    let n = cs.len();
    let mut i: usize = 0;
    loop
        invariant
            i <= n,
            n == cs@.len(),
            cs@ == lower@,
            first_phrase_from(cs@, 0) == first_phrase_from(cs@, i as int),
        decreases n - i,
    {
        let rest = rest_after(lower, i);
        if let Some(k) = match_prefix(rest, "this effect can't reduce the mana in that cost to less than ") {
            assert(rest@ == cs@.skip(i as int));
            let p = i + k;
            assert(cs@.skip(i as int).skip(k as int) =~= cs@.skip(p as int));
            if let Some(_) = match_prefix(rest_after(lower, p), "one mana") {
                return Some(1);
            }
            return numeral_at(&cs, p);
        }
        assert(rest@ == cs@.skip(i as int));
        if i == n {
            return None;
        }
        i = i + 1;
    }
}

} // verus!
