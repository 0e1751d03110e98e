//! CR 702.5a: the "Enchant <object or player>" phrase of an Aura: which
//! types it may enchant, whose, and what must already be attached.

use vstd::prelude::*;

use crate::parser::cursor::{match_prefix, rest_after, starts_with, OracleError};
use crate::parser::target::{typed_view, TypedFilterView};
use crate::text::string_of;
use crate::types::ability::{
    tfv, tfvs, AttachmentKind, ControllerRef, FilterProp, TargetFilter, TypeFilter, TypeFilterView, TypedFilter,
};

verus! {

/// One enchantable type at the front: the characters it takes and the test
/// it names. CR 205.3i: the basic land types name subtypes. The
/// alternatives are tried in this order.
pub open spec fn enchant_leg_match(s: Seq<char>) -> Option<(nat, TypeFilterView)> {
    if starts_with(s, "creature"@) {
        Some(("creature"@.len(), TypeFilterView::Creature))
    } else if starts_with(s, "land"@) {
        Some(("land"@.len(), TypeFilterView::Land))
    } else if starts_with(s, "artifact"@) {
        Some(("artifact"@.len(), TypeFilterView::Artifact))
    } else if starts_with(s, "enchantment"@) {
        Some(("enchantment"@.len(), TypeFilterView::Enchantment))
    } else if starts_with(s, "planeswalker"@) {
        Some(("planeswalker"@.len(), TypeFilterView::Planeswalker))
    } else if starts_with(s, "permanent"@) {
        Some(("permanent"@.len(), TypeFilterView::Permanent))
    } else if starts_with(s, "instant"@) {
        Some(("instant"@.len(), TypeFilterView::Instant))
    } else if starts_with(s, "sorcery"@) {
        Some(("sorcery"@.len(), TypeFilterView::Sorcery))
    } else if starts_with(s, "forest"@) {
        Some(("forest"@.len(), TypeFilterView::Subtype("Forest"@)))
    } else if starts_with(s, "plains"@) {
        Some(("plains"@.len(), TypeFilterView::Subtype("Plains"@)))
    } else if starts_with(s, "island"@) {
        Some(("island"@.len(), TypeFilterView::Subtype("Island"@)))
    } else if starts_with(s, "swamp"@) {
        Some(("swamp"@.len(), TypeFilterView::Subtype("Swamp"@)))
    } else if starts_with(s, "mountain"@) {
        Some(("mountain"@.len(), TypeFilterView::Subtype("Mountain"@)))
    } else {
        None
    }
}

/// The separator between enchantable types at the front: ", or ",
/// ", and ", ", ", " or " or " and "; the characters it takes.
pub open spec fn enchant_sep_match(s: Seq<char>) -> Option<nat> {
    if starts_with(s, ", or "@) {
        Some(", or "@.len())
    } else if starts_with(s, ", and "@) {
        Some(", and "@.len())
    } else if starts_with(s, ", "@) {
        Some(", "@.len())
    } else if starts_with(s, " or "@) {
        Some(" or "@.len())
    } else if starts_with(s, " and "@) {
        Some(" and "@.len())
    } else {
        None
    }
}

/// A separator takes at least one character.
pub proof fn lemma_sep_takes_some(s: Seq<char>)
    ensures
        enchant_sep_match(s) matches Some(k) ==> 0 < k <= s.len(),
{
    reveal_strlit(", or ");
    reveal_strlit(", and ");
    reveal_strlit(", ");
    reveal_strlit(" or ");
    reveal_strlit(" and ");
}

/// Further enchantable types, each after a separator; a separator that is
/// not followed by a type is left in place. The characters taken and the
/// tests named.
pub open spec fn more_legs(s: Seq<char>) -> (nat, Seq<TypeFilterView>)
    decreases s.len(),
{
    match enchant_sep_match(s) {
        Some(k) => match enchant_leg_match(s.skip(k as int)) {
            Some((m, t)) => if k + m <= s.len() {
                proof {
                    lemma_sep_takes_some(s);
                }
                let (k2, ts) = more_legs(s.skip((k + m) as int));
                (k + m + k2, seq![t] + ts)
            } else {
                (0, Seq::empty())
            },
            None => (0, Seq::empty()),
        },
        None => (0, Seq::empty()),
    }
}

/// A list of one or more enchantable types, in the order written.
pub open spec fn enchant_list_match(s: Seq<char>) -> Option<(nat, Seq<TypeFilterView>)> {
    match enchant_leg_match(s) {
        Some((k, t)) => {
            let (k2, ts) = more_legs(s.skip(k as int));
            Some((k + k2, seq![t] + ts))
        },
        None => None,
    }
}

/// CR 109.4: the controller clause after the types: " you control",
/// " an opponent controls" or " opponent controls".
pub open spec fn enchant_controller_match(s: Seq<char>) -> Option<(nat, ControllerRef)> {
    if starts_with(s, " you control"@) {
        Some((" you control"@.len(), ControllerRef::You))
    } else if starts_with(s, " an opponent controls"@) {
        Some((" an opponent controls"@.len(), ControllerRef::Opponent))
    } else if starts_with(s, " opponent controls"@) {
        Some((" opponent controls"@.len(), ControllerRef::Opponent))
    } else {
        None
    }
}

/// The article before the attachment: "another " excludes the Aura itself;
/// "an " and "a " do not.
pub open spec fn article_match(s: Seq<char>) -> Option<(nat, bool)> {
    if starts_with(s, "another "@) {
        Some(("another "@.len(), true))
    } else if starts_with(s, "an "@) {
        Some(("an "@.len(), false))
    } else if starts_with(s, "a "@) {
        Some(("a "@.len(), false))
    } else {
        None
    }
}

/// The kind of attachment named: "aura" or "equipment".
pub open spec fn attachment_kind_match(s: Seq<char>) -> Option<(nat, AttachmentKind)> {
    if starts_with(s, "aura"@) {
        Some(("aura"@.len(), AttachmentKind::Aura))
    } else if starts_with(s, "equipment"@) {
        Some(("equipment"@.len(), AttachmentKind::Equipment))
    } else {
        None
    }
}

/// CR 303.4 + CR 301.5: " with <article> <kind> attached to it": the
/// characters it takes and the property it names.
pub open spec fn attachment_qualifier_match(s: Seq<char>) -> Option<(nat, FilterProp)> {
    let w = " with "@.len();
    if !starts_with(s, " with "@) {
        None
    } else {
        let r1 = s.skip(w as int);
        match article_match(r1) {
            None => None,
            Some((a, exclude)) => {
                let r2 = r1.skip(a as int);
                match attachment_kind_match(r2) {
                    None => None,
                    Some((k, kind)) => {
                        let r3 = r2.skip(k as int);
                        if starts_with(r3, " attached to it"@) {
                            Some(
                                (
                                    w + a + k + " attached to it"@.len(),
                                    FilterProp::HasAttachment { kind, controller: None, exclude_source: exclude },
                                ),
                            )
                        } else {
                            None
                        }
                    },
                }
            },
        }
    }
}

/// The player an Aura that enchants a player may enchant (CR 702.5d).
pub enum PlayerBase {
    AnyPlayer,
    Opponent,
}

/// "player" or "opponent" at the front.
pub open spec fn player_base_match(s: Seq<char>) -> Option<(nat, PlayerBase)> {
    if starts_with(s, "player"@) {
        Some(("player"@.len(), PlayerBase::AnyPlayer))
    } else if starts_with(s, "opponent"@) {
        Some(("opponent"@.len(), PlayerBase::Opponent))
    } else {
        None
    }
}

/// The filter stands for the player base: any player, or a typed filter
/// with nothing but the opponent controller.
pub open spec fn player_filter_is(f: TargetFilter, b: PlayerBase) -> bool {
    match b {
        PlayerBase::AnyPlayer => f == TargetFilter::Player,
        PlayerBase::Opponent => f matches TargetFilter::Typed(tf) && typed_view(tf) == (TypedFilterView {
            type_filters: Seq::empty(),
            controller: Some(ControllerRef::Opponent),
            properties: Seq::empty(),
        }),
    }
}

/// The whole enchant phrase: the types, then an optional controller
/// clause, then an optional attachment qualifier, as one typed filter.
pub open spec fn enchant_target_match(s: Seq<char>) -> Option<(nat, TypedFilterView)> {
    match enchant_list_match(s) {
        None => None,
        Some((k, legs)) => {
            let r1 = s.skip(k as int);
            let (c, controller) = match enchant_controller_match(r1) {
                Some((c, who)) => (c, Some(who)),
                None => (0nat, None),
            };
            let r2 = r1.skip(c as int);
            let (a, props) = match attachment_qualifier_match(r2) {
                Some((a, p)) => (a, seq![p]),
                None => (0nat, Seq::empty()),
            };
            Some((k + c + a, TypedFilterView { type_filters: legs, controller, properties: props }))
        },
    }
}

fn enchant_leg(input: &str) -> (r: Option<(usize, TypeFilter)>)
    ensures
        match enchant_leg_match(input@) {
            Some((k, t)) => (r matches Some((k2, f)) && k2 == k && tfv(f) == t) && k <= input@.len(),
            None => r is None,
        },
{
    if let Some(k) = match_prefix(input, "creature") {
        return Some((k, TypeFilter::Creature));
    }
    if let Some(k) = match_prefix(input, "land") {
        return Some((k, TypeFilter::Land));
    }
    if let Some(k) = match_prefix(input, "artifact") {
        return Some((k, TypeFilter::Artifact));
    }
    if let Some(k) = match_prefix(input, "enchantment") {
        return Some((k, TypeFilter::Enchantment));
    }
    if let Some(k) = match_prefix(input, "planeswalker") {
        return Some((k, TypeFilter::Planeswalker));
    }
    if let Some(k) = match_prefix(input, "permanent") {
        return Some((k, TypeFilter::Permanent));
    }
    if let Some(k) = match_prefix(input, "instant") {
        return Some((k, TypeFilter::Instant));
    }
    if let Some(k) = match_prefix(input, "sorcery") {
        return Some((k, TypeFilter::Sorcery));
    }
    if let Some(k) = match_prefix(input, "forest") {
        return Some((k, TypeFilter::Subtype(string_of("Forest"))));
    }
    if let Some(k) = match_prefix(input, "plains") {
        return Some((k, TypeFilter::Subtype(string_of("Plains"))));
    }
    if let Some(k) = match_prefix(input, "island") {
        return Some((k, TypeFilter::Subtype(string_of("Island"))));
    }
    if let Some(k) = match_prefix(input, "swamp") {
        return Some((k, TypeFilter::Subtype(string_of("Swamp"))));
    }
    if let Some(k) = match_prefix(input, "mountain") {
        return Some((k, TypeFilter::Subtype(string_of("Mountain"))));
    }
    None
}

/// CR 702.5a: parse one enchantable type ("creature", "land", "artifact",
/// "enchantment", "planeswalker", "permanent", "instant", "sorcery", or a
/// basic land type). Hands back the text after it.
pub fn parse_enchant_type_leg<'a>(input: &'a str) -> (r: Result<(&'a str, TypeFilter), OracleError>)
    ensures
        match enchant_leg_match(input@) {
            Some((k, t)) => r matches Ok((rest, f)) && tfv(f) == t && rest@ == input@.skip(k as int),
            None => r == Err::<(&str, TypeFilter), OracleError>(OracleError::NoMatch),
        },
{
    match enchant_leg(input) {
        Some((k, t)) => Ok((rest_after(input, k), t)),
        None => Err(OracleError::NoMatch),
    }
}

fn enchant_sep(input: &str) -> (r: Option<usize>)
    ensures
        match enchant_sep_match(input@) {
            Some(k) => r == Some(k as usize) && k <= input@.len(),
            None => r is None,
        },
{
    if let Some(k) = match_prefix(input, ", or ") {
        return Some(k);
    }
    if let Some(k) = match_prefix(input, ", and ") {
        return Some(k);
    }
    if let Some(k) = match_prefix(input, ", ") {
        return Some(k);
    }
    if let Some(k) = match_prefix(input, " or ") {
        return Some(k);
    }
    if let Some(k) = match_prefix(input, " and ") {
        return Some(k);
    }
    None
}

/// Parse the separator between enchantable types (", or ", ", and ", ", ",
/// " or ", " and "). Hands back the text after it.
pub fn parse_enchant_list_sep<'a>(input: &'a str) -> (r: Result<(&'a str, ()), OracleError>)
    ensures
        match enchant_sep_match(input@) {
            Some(k) => r matches Ok((rest, _)) && rest@ == input@.skip(k as int),
            None => r == Err::<(&str, ()), OracleError>(OracleError::NoMatch),
        },
{
    match enchant_sep(input) {
        Some(k) => Ok((rest_after(input, k), ())),
        None => Err(OracleError::NoMatch),
    }
}

fn enchant_list(input: &str) -> (r: Option<(usize, Vec<TypeFilter>)>)
    ensures
        match enchant_list_match(input@) {
            Some((k, ts)) => (r matches Some((k2, v)) && k2 == k && tfvs(v@) == ts) && k <= input@.len(),
            None => r is None,
        },
{
    let (k1, first) = match enchant_leg(input) {
        Some(x) => x,
        None => return None,
    };
    let ghost m0 = more_legs(input@.skip(k1 as int));
    let ghost mut acc: Seq<TypeFilterView> = Seq::empty();
    let ghost t1v = tfv(first);
    let mut legs: Vec<TypeFilter> = Vec::new();
    legs.push(first);
    assert(tfvs(legs@) =~= seq![t1v] + acc) by {
        assert(legs@.drop_last() =~= Seq::<TypeFilter>::empty());
        assert(tfvs(legs@.drop_last()) =~= Seq::<TypeFilterView>::empty());
    }
    let mut pos = k1;
    let len = input.unicode_len();
    loop
        invariant
            k1 <= pos <= len,
            len == input@.len(),
            tfvs(legs@) == seq![t1v] + acc,
            m0.0 == (pos - k1) + more_legs(input@.skip(pos as int)).0,
            m0.1 == acc + more_legs(input@.skip(pos as int)).1,
        ensures
            k1 <= pos <= len,
            tfvs(legs@) == seq![t1v] + acc,
            m0.0 == pos - k1,
            m0.1 == acc,
        decreases len - pos,
    {
        let cur = rest_after(input, pos);
        let k = match enchant_sep(cur) {
            Some(k) => k,
            None => {
                assert(more_legs(cur@) == (0nat, Seq::<TypeFilterView>::empty()));
                assert(acc + Seq::<TypeFilterView>::empty() =~= acc);
                break ;
            },
        };
        let after = rest_after(cur, k);
        let (m, t) = match enchant_leg(after) {
            Some(x) => x,
            None => {
                assert(after@ == cur@.skip(k as int));
                assert(more_legs(cur@) == (0nat, Seq::<TypeFilterView>::empty()));
                assert(acc + Seq::<TypeFilterView>::empty() =~= acc);
                break ;
            },
        };
        proof {
            lemma_sep_takes_some(cur@);
            assert(after@ == cur@.skip(k as int));
            assert(k + m <= cur@.len());
            assert(cur@.skip((k + m) as int) =~= input@.skip((pos + k + m) as int));
            assert(more_legs(cur@) == ((k + m + more_legs(cur@.skip((k + m) as int)).0) as nat, seq![tfv(t)]
                + more_legs(cur@.skip((k + m) as int)).1));
            assert(legs@.push(t).drop_last() =~= legs@);
            assert(tfvs(legs@.push(t)) =~= seq![t1v] + acc.push(tfv(t)));
            assert(acc + (seq![tfv(t)] + more_legs(cur@.skip((k + m) as int)).1) =~= acc.push(tfv(t)) + more_legs(
                cur@.skip((k + m) as int),
            ).1);
            acc = acc.push(tfv(t));
        }
        legs.push(t);
        pos = pos + k + m;
    }
    Some((pos, legs))
}

/// CR 702.5a: parse one or more enchantable types joined by separators, in
/// the order written. Hands back the text after them.
pub fn parse_enchant_type_list<'a>(input: &'a str) -> (r: Result<(&'a str, Vec<TypeFilter>), OracleError>)
    ensures
        match enchant_list_match(input@) {
            Some((k, ts)) => r matches Ok((rest, v)) && tfvs(v@) == ts && rest@ == input@.skip(k as int),
            None => r == Err::<(&str, Vec<TypeFilter>), OracleError>(OracleError::NoMatch),
        },
{
    match enchant_list(input) {
        Some((k, v)) => Ok((rest_after(input, k), v)),
        None => Err(OracleError::NoMatch),
    }
}

fn enchant_controller(input: &str) -> (r: Option<(usize, ControllerRef)>)
    ensures
        match enchant_controller_match(input@) {
            Some((k, c)) => r == Some((k as usize, c)) && k <= input@.len(),
            None => r is None,
        },
{
    if let Some(k) = match_prefix(input, " you control") {
        return Some((k, ControllerRef::You));
    }
    if let Some(k) = match_prefix(input, " an opponent controls") {
        return Some((k, ControllerRef::Opponent));
    }
    if let Some(k) = match_prefix(input, " opponent controls") {
        return Some((k, ControllerRef::Opponent));
    }
    None
}

/// CR 109.4: parse the controller clause after the enchantable types
/// (" you control", " an opponent controls", " opponent controls"). Hands
/// back the text after it.
pub fn parse_enchant_controller_suffix<'a>(input: &'a str) -> (r: Result<(&'a str, ControllerRef), OracleError>)
    ensures
        match enchant_controller_match(input@) {
            Some((k, c)) => r matches Ok((rest, c2)) && c2 == c && rest@ == input@.skip(k as int),
            None => r == Err::<(&str, ControllerRef), OracleError>(OracleError::NoMatch),
        },
{
    match enchant_controller(input) {
        Some((k, c)) => Ok((rest_after(input, k), c)),
        None => Err(OracleError::NoMatch),
    }
}

fn article(input: &str) -> (r: Option<(usize, bool)>)
    ensures
        match article_match(input@) {
            Some((k, b)) => r == Some((k as usize, b)) && k <= input@.len(),
            None => r is None,
        },
{
    if let Some(k) = match_prefix(input, "another ") {
        return Some((k, true));
    }
    if let Some(k) = match_prefix(input, "an ") {
        return Some((k, false));
    }
    if let Some(k) = match_prefix(input, "a ") {
        return Some((k, false));
    }
    None
}

fn attachment_kind(input: &str) -> (r: Option<(usize, AttachmentKind)>)
    ensures
        match attachment_kind_match(input@) {
            Some((k, a)) => r == Some((k as usize, a)) && k <= input@.len(),
            None => r is None,
        },
{
    if let Some(k) = match_prefix(input, "aura") {
        return Some((k, AttachmentKind::Aura));
    }
    if let Some(k) = match_prefix(input, "equipment") {
        return Some((k, AttachmentKind::Equipment));
    }
    None
}

fn attachment_qualifier(input: &str) -> (r: Option<(usize, FilterProp)>)
    ensures
        match attachment_qualifier_match(input@) {
            Some((k, p)) => r == Some((k as usize, p)) && k <= input@.len(),
            None => r is None,
        },
{
    let w = match match_prefix(input, " with ") {
        Some(w) => w,
        None => return None,
    };
    let r1 = rest_after(input, w);
    let (a, exclude) = match article(r1) {
        Some(x) => x,
        None => return None,
    };
    let r2 = rest_after(r1, a);
    let (k, kind) = match attachment_kind(r2) {
        Some(x) => x,
        None => return None,
    };
    let r3 = rest_after(r2, k);
    let t = match match_prefix(r3, " attached to it") {
        Some(t) => t,
        None => return None,
    };
    Some((w + a + k + t, FilterProp::HasAttachment { kind, controller: None, exclude_source: exclude }))
}

/// CR 303.4 + CR 301.5: parse " with another Aura attached to it" and its
/// like ("an"/"a" in place of "another"; "equipment" in place of "aura")
/// into the property it names. Hands back the text after it.
pub fn parse_enchant_attachment_qualifier<'a>(input: &'a str) -> (r: Result<(&'a str, FilterProp), OracleError>)
    ensures
        match attachment_qualifier_match(input@) {
            Some((k, p)) => r matches Ok((rest, p2)) && p2 == p && rest@ == input@.skip(k as int),
            None => r == Err::<(&str, FilterProp), OracleError>(OracleError::NoMatch),
        },
{
    match attachment_qualifier(input) {
        Some((k, p)) => Ok((rest_after(input, k), p)),
        None => Err(OracleError::NoMatch),
    }
}

/// CR 702.5d: parse "player" (any player) or "opponent" (a player's
/// opponent). Hands back the text after it.
pub fn parse_enchant_player_base<'a>(input: &'a str) -> (r: Result<(&'a str, TargetFilter), OracleError>)
    ensures
        match player_base_match(input@) {
            Some((k, b)) => r matches Ok((rest, f)) && player_filter_is(f, b) && rest@ == input@.skip(k as int),
            None => r == Err::<(&str, TargetFilter), OracleError>(OracleError::NoMatch),
        },
{
    if let Some(k) = match_prefix(input, "player") {
        return Ok((rest_after(input, k), TargetFilter::Player));
    }
    if let Some(k) = match_prefix(input, "opponent") {
        let tf = TypedFilter { type_filters: Vec::new(), controller: Some(ControllerRef::Opponent), properties: Vec::new() };
        assert(tfvs(tf.type_filters@) =~= Seq::<TypeFilterView>::empty());
        assert(tf.properties@ =~= Seq::<FilterProp>::empty());
        return Ok((rest_after(input, k), TargetFilter::Typed(tf)));
    }
    Err(OracleError::NoMatch)
}

/// CR 702.5a + CR 109.4: parse a whole enchant phrase ("creature",
/// "artifact, creature, or land you control", "creature with another aura
/// attached to it") into one typed filter. Hands back the text after it.
pub fn parse_enchant_target_full<'a>(input: &'a str) -> (r: Result<(&'a str, TargetFilter), OracleError>)
    ensures
        match enchant_target_match(input@) {
            Some((k, tv)) => r matches Ok((rest, f)) && (f matches TargetFilter::Typed(tf) && typed_view(tf) == tv)
                && rest@ == input@.skip(k as int),
            None => r == Err::<(&str, TargetFilter), OracleError>(OracleError::NoMatch),
        },
{
    let (k, legs) = match enchant_list(input) {
        Some(x) => x,
        None => return Err(OracleError::NoMatch),
    };
    let r1 = rest_after(input, k);
    let (c, controller) = match enchant_controller(r1) {
        Some((c, who)) => (c, Some(who)),
        None => (0, None),
    };
    let r2 = rest_after(r1, c);
    let mut props: Vec<FilterProp> = Vec::new();
    let a = match attachment_qualifier(r2) {
        Some((a, p)) => {
            props.push(p);
            assert(props@ =~= seq![p]);
            a
        },
        None => {
            assert(props@ =~= Seq::<FilterProp>::empty());
            0
        },
    };
    proof {
        assert(r2@ == input@.skip((k + c) as int));
        assert(r2@.skip(a as int) =~= input@.skip((k + c + a) as int));
    }
    let tf = TypedFilter { type_filters: legs, controller, properties: props };
    Ok((rest_after(r2, a), TargetFilter::Typed(tf)))
}

} // verus!
