//! CR 606.3: the static that lets a planeswalker's loyalty abilities be
//! activated any time its controller could cast an instant.

use vstd::prelude::*;

use crate::parser::cursor::{match_prefix, rest_after, starts_with, OracleError};

verus! {

/// The possessive before "loyalty abilities", where there is one.
pub open spec fn possessive_len(s: Seq<char>) -> nat {
    if starts_with(s, "her "@) {
        "her "@.len()
    } else if starts_with(s, "his "@) {
        "his "@.len()
    } else if starts_with(s, "its "@) {
        "its "@.len()
    } else if starts_with(s, "their "@) {
        "their "@.len()
    } else if starts_with(s, "~'s "@) {
        "~'s "@.len()
    } else {
        0
    }
}

/// "you may activate [her/his/its/their/~'s ]loyalty abilities any time you
/// could cast an instant" at the front: the characters it takes.
pub open spec fn loyalty_permission_match(s: Seq<char>) -> Option<nat> {
    let lead = "you may activate "@;
    if !starts_with(s, lead) {
        None
    } else {
        let r1 = s.skip(lead.len() as int);
        let p = possessive_len(r1);
        let tail = "loyalty abilities any time you could cast an instant"@;
        if starts_with(r1.skip(p as int), tail) {
            Some(lead.len() + p + tail.len())
        } else {
            None
        }
    }
}

fn possessive(input: &str) -> (r: usize)
    ensures
        r == possessive_len(input@),
        r <= input@.len(),
{
    if let Some(k) = match_prefix(input, "her ") {
        return k;
    }
    if let Some(k) = match_prefix(input, "his ") {
        return k;
    }
    if let Some(k) = match_prefix(input, "its ") {
        return k;
    }
    if let Some(k) = match_prefix(input, "their ") {
        return k;
    }
    if let Some(k) = match_prefix(input, "~'s ") {
        return k;
    }
    0
}

/// CR 606.3: parse "you may activate [its] loyalty abilities any time you
/// could cast an instant". Hands back the text after it.
pub fn parse_self_loyalty_activation_permission<'a>(input: &'a str) -> (r: Result<(&'a str, ()), OracleError>)
    ensures
        match loyalty_permission_match(input@) {
            Some(k) => r matches Ok((rest, _)) && rest@ == input@.skip(k as int),
            None => r == Err::<(&str, ()), OracleError>(OracleError::NoMatch),
        },
{
    let l = match match_prefix(input, "you may activate ") {
        Some(l) => l,
        None => return Err(OracleError::NoMatch),
    };
    let r1 = rest_after(input, l);
    let p = possessive(r1);
    let r2 = rest_after(r1, p);
    let t = match match_prefix(r2, "loyalty abilities any time you could cast an instant") {
        Some(t) => t,
        None => return Err(OracleError::NoMatch),
    };
    proof {
        assert(r2@.skip(t as int) =~= input@.skip((l + p + t) as int));
    }
    Ok((rest_after(r2, t), ()))
}

} // verus!
