//! Duration phrases of Oracle text: "until end of turn", "until the end of
//! your next turn", "until your next turn", "until end of combat", "for as
//! long as [condition]", "this turn"; and the cast-time snapshot suffix.

use vstd::prelude::*;

use crate::parser::cursor::{match_prefix, rest_after, starts_with, OracleError};
use crate::types::ability::{Duration, PlayerScope, StaticCondition};

verus! {

/// The pronoun before "next turn": "your" or "their" (both are bound to the
/// controller by the caller), with the number of characters it takes.
pub open spec fn pronoun_match(s: Seq<char>) -> Option<nat> {
    if starts_with(s, "your"@) {
        Some("your"@.len())
    } else if starts_with(s, "their"@) {
        Some("their"@.len())
    } else {
        None
    }
}

/// "<lead><pronoun> next turn": the characters taken, if it matches.
pub open spec fn pronoun_next_turn_match(s: Seq<char>, lead: Seq<char>) -> Option<nat> {
    if !starts_with(s, lead) {
        None
    } else {
        let r = s.skip(lead.len() as int);
        match pronoun_match(r) {
            None => None,
            Some(k) => {
                let r2 = r.skip(k as int);
                if starts_with(r2, " next turn"@) {
                    Some(lead.len() + k + " next turn"@.len())
                } else {
                    None
                }
            },
        }
    }
}

/// The conditions a "for as long as" duration can name here.
pub open spec fn condition_match(s: Seq<char>) -> Option<(nat, StaticCondition)> {
    if starts_with(s, "~ is tapped"@) {
        Some(("~ is tapped"@.len(), StaticCondition::SourceIsTapped))
    } else {
        None
    }
}

/// The duration phrase at the front of `s`, with the characters it takes;
/// the alternatives are tried in this order.
pub open spec fn duration_match(s: Seq<char>) -> Option<(nat, Duration)> {
    if starts_with(s, "until end of turn"@) {
        Some(("until end of turn"@.len(), Duration::UntilEndOfTurn))
    } else if starts_with(s, "until end of combat"@) {
        Some(("until end of combat"@.len(), Duration::UntilEndOfCombat))
    } else if pronoun_next_turn_match(s, "until the end of "@) is Some {
        Some(
            (
                pronoun_next_turn_match(s, "until the end of "@)->Some_0,
                Duration::UntilEndOfNextTurnOf { player: PlayerScope::Controller },
            ),
        )
    } else if pronoun_next_turn_match(s, "until "@) is Some {
        Some(
            (
                pronoun_next_turn_match(s, "until "@)->Some_0,
                Duration::UntilNextTurnOf { player: PlayerScope::Controller },
            ),
        )
    } else if starts_with(s, "this turn"@) {
        Some(("this turn"@.len(), Duration::UntilEndOfTurn))
    } else if starts_with(s, "for as long as "@) && condition_match(
        s.skip("for as long as "@.len() as int),
    ) is Some {
        let c = condition_match(s.skip("for as long as "@.len() as int))->Some_0;
        Some(("for as long as "@.len() + c.0, Duration::ForAsLongAs { condition: c.1 }))
    } else {
        None
    }
}

/// The cast-time snapshot suffix, after an optional space: the characters
/// it takes.
pub open spec fn snapshot_suffix_match(s: Seq<char>) -> Option<nat> {
    let k: nat = if starts_with(s, " "@) {
        1
    } else {
        0
    };
    let r = s.skip(k as int);
    if starts_with(r, "as you cast this spell"@) {
        Some(k + "as you cast this spell"@.len())
    } else if starts_with(r, "as you cast it"@) {
        Some(k + "as you cast it"@.len())
    } else if starts_with(r, "as you activate this ability"@) {
        Some(k + "as you activate this ability"@.len())
    } else {
        None
    }
}

fn parse_next_turn_pronoun(input: &str) -> (r: Option<(usize, PlayerScope)>)
    ensures
        match pronoun_match(input@) {
            Some(k) => r == Some((k as usize, PlayerScope::Controller)),
            None => r is None,
        },
{
    if let Some(k) = match_prefix(input, "your") {
        return Some((k, PlayerScope::Controller));
    }
    if let Some(k) = match_prefix(input, "their") {
        return Some((k, PlayerScope::Controller));
    }
    None
}

fn parse_pronoun_next_turn(input: &str, lead: &str) -> (r: Option<usize>)
    ensures
        match pronoun_next_turn_match(input@, lead@) {
            Some(k) => r == Some(k as usize),
            None => r is None,
        },
        r matches Some(k) ==> k <= input@.len(),
{
    let a = match match_prefix(input, lead) {
        Some(a) => a,
        None => return None,
    };
    let rest = rest_after(input, a);
    let (b, _player) = match parse_next_turn_pronoun(rest) {
        Some(p) => p,
        None => return None,
    };
    let rest2 = rest_after(rest, b);
    assert(rest2@ == input@.skip(lead@.len() as int).skip(b as int));
    match match_prefix(rest2, " next turn") {
        Some(c) => {
            assert(a + b + c <= input@.len()) by {
                assert(rest2@.len() == input@.len() - a - b);
            }
            Some(a + b + c)
        },
        None => None,
    }
}

fn parse_inner_condition(input: &str) -> (r: Option<(usize, StaticCondition)>)
    ensures
        match condition_match(input@) {
            Some(m) => r == Some((m.0 as usize, m.1)),
            None => r is None,
        },
        r matches Some(m) ==> m.0 <= input@.len(),
{
    match match_prefix(input, "~ is tapped") {
        Some(k) => Some((k, StaticCondition::SourceIsTapped)),
        None => None,
    }
}

/// The duration phrase at the front of `input` and the characters it takes.
fn duration_prefix(input: &str) -> (r: Option<(usize, Duration)>)
    ensures
        match duration_match(input@) {
            Some(m) => r == Some((m.0 as usize, m.1)) && m.0 <= input@.len(),
            None => r is None,
        },
{
    if let Some(k) = match_prefix(input, "until end of turn") {
        return Some((k, Duration::UntilEndOfTurn));
    }
    if let Some(k) = match_prefix(input, "until end of combat") {
        return Some((k, Duration::UntilEndOfCombat));
    }
    if let Some(k) = parse_pronoun_next_turn(input, "until the end of ") {
        return Some((k, Duration::UntilEndOfNextTurnOf { player: PlayerScope::Controller }));
    }
    if let Some(k) = parse_pronoun_next_turn(input, "until ") {
        return Some((k, Duration::UntilNextTurnOf { player: PlayerScope::Controller }));
    }
    if let Some(k) = match_prefix(input, "this turn") {
        return Some((k, Duration::UntilEndOfTurn));
    }
    if let Some(k) = match_prefix(input, "for as long as ") {
        let rest = rest_after(input, k);
        if let Some((c, condition)) = parse_inner_condition(rest) {
            assert(k + c <= input@.len()) by {
                assert(rest@.len() == input@.len() - k);
            }
            return Some((k + c, Duration::ForAsLongAs { condition }));
        }
    }
    None
}

/// Parse a duration phrase from Oracle text: "until end of turn", "until
/// end of combat", "until the end of your/their next turn", "until
/// your/their next turn", "this turn", "for as long as [condition]". Hands
/// back the text after the phrase.
pub fn parse_duration<'a>(input: &'a str) -> (r: Result<(&'a str, Duration), OracleError>)
    ensures
        match duration_match(input@) {
            Some(m) => r matches Ok((rest, d)) && d == m.1 && rest@ == input@.skip(m.0 as int),
            None => r == Err::<(&str, Duration), OracleError>(OracleError::NoMatch),
        },
{
    match duration_prefix(input) {
        Some((k, d)) => Ok((rest_after(input, k), d)),
        None => Err(OracleError::NoMatch),
    }
}

/// Parse an optional duration phrase: `Some` and the text after it where one
/// is at the front of `input`, else `None` and `input` unchanged. Never
/// fails.
pub fn parse_optional_duration<'a>(input: &'a str) -> (r: Result<
    (&'a str, Option<Duration>),
    OracleError,
>)
    ensures
        r matches Ok((rest, od)) && match duration_match(input@) {
            Some(m) => od == Some(m.1) && rest@ == input@.skip(m.0 as int),
            None => od is None && rest@ == input@,
        },
{
    match parse_duration(input) {
        Ok((rest, d)) => Ok((rest, Some(d))),
        Err(_) => Ok((input, None)),
    }
}

/// Parse the cast/activation-time snapshot suffix (CR 608.2h): an optional
/// space, then "as you cast this spell", "as you cast it" or "as you
/// activate this ability".
pub fn parse_cast_snapshot_suffix<'a>(input: &'a str) -> (r: Result<(&'a str, ()), OracleError>)
    ensures
        match snapshot_suffix_match(input@) {
            Some(k) => r matches Ok((rest, _u)) && rest@ == input@.skip(k as int),
            None => r == Err::<(&str, ()), OracleError>(OracleError::NoMatch),
        },
{
    let k: usize = match match_prefix(input, " ") {
        Some(n) => n,
        None => 0,
    };
    proof {
        reveal_strlit(" ");
    }
    let rest = rest_after(input, k);
    let m = if let Some(m) = match_prefix(rest, "as you cast this spell") {
        m
    } else if let Some(m) = match_prefix(rest, "as you cast it") {
        m
    } else if let Some(m) = match_prefix(rest, "as you activate this ability") {
        m
    } else {
        return Err(OracleError::NoMatch);
    };
    assert(k + m <= input@.len()) by {
        assert(rest@.len() == input@.len() - k);
    }
    assert(rest@.skip(m as int) =~= input@.skip((k + m) as int));
    Ok((rest_after(input, k + m), ()))
}

} // verus!
