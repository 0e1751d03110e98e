//! Encore (CR 702.141): the graveyard-activated, per-opponent token-copy
//! keyword, as an ability on the card face.

use vstd::prelude::*;

use crate::types::ability::{AbilityCost, AbilityKind, Effect, FaceAbility, TargetFilter};
use crate::types::card::CardFace;
use crate::types::keywords::Keyword;
use crate::types::mana::{ManaCost, ManaCostView};
use crate::types::zones::Zone;

verus! {

/// The mana costs of the face's encore keywords, in order.
pub open spec fn encore_costs(ks: Seq<Keyword>) -> Seq<ManaCostView>
    decreases ks.len(),
{
    if ks.len() == 0 {
        Seq::empty()
    } else {
        encore_costs(ks.drop_last()) + match ks.last() {
            Keyword::Encore(c) => seq![c@],
            _ => Seq::empty(),
        }
    }
}

/// CR 702.141a, CR 602.1a: "[cost], Exile this card from your graveyard:
/// For each opponent, create a token that's a copy of this card ...
/// Activate only as a sorcery": an activated ability, activated from the
/// graveyard, whose cost is the mana cost and exiling the card itself from
/// the graveyard.
pub open spec fn is_encore_ability(a: FaceAbility, c: ManaCostView) -> bool {
    &&& a.kind == AbilityKind::Activated
    &&& a.effect == Effect::Encore
    &&& a.cost matches Some(AbilityCost::Composite { costs })
    &&& costs@.len() == 2
    &&& costs@[0] matches AbilityCost::Mana { cost }
    &&& cost@ == c
    &&& costs@[1] == (AbilityCost::Exile { count: 1, zone: Some(Zone::Graveyard), filter: Some(TargetFilter::SelfRef) })
    &&& a.sorcery_speed
    &&& a.activation_zone == Some(Zone::Graveyard)
}

fn encore_ability(mana_cost: ManaCost) -> (a: FaceAbility)
    ensures
        is_encore_ability(a, mana_cost@),
{
    let mut costs: Vec<AbilityCost> = Vec::new();
    costs.push(AbilityCost::Mana { cost: mana_cost });
    costs.push(AbilityCost::Exile { count: 1, zone: Some(Zone::Graveyard), filter: Some(TargetFilter::SelfRef) });
    FaceAbility {
        kind: AbilityKind::Activated,
        effect: Effect::Encore,
        cost: Some(AbilityCost::Composite { costs }),
        sorcery_speed: true,
        activation_zone: Some(Zone::Graveyard),
    }
}

/// CR 702.141a, CR 113.2c: give the face one encore ability per encore
/// keyword it has, in keyword order, after its other abilities; a face
/// without encore is left as it is.
pub fn synthesize_encore(face: &mut CardFace)
    ensures
        final(face).name == old(face).name,
        final(face).mana_cost == old(face).mana_cost,
        final(face).card_type == old(face).card_type,
        final(face).color_identity == old(face).color_identity,
        final(face).keywords == old(face).keywords,
        ({
            let a0 = old(face).abilities@;
            let cs = encore_costs(old(face).keywords@);
            &&& final(face).abilities@.len() == a0.len() + cs.len()
            &&& final(face).abilities@.take(a0.len() as int) == a0
            &&& forall|k: int|
                0 <= k < cs.len() ==> is_encore_ability(#[trigger] final(face).abilities@[a0.len() + k], cs[k])
        }),
{
    let ghost a0 = face.abilities@;
    let ghost ks = face.keywords@;
    let mut i: usize = 0;
    assert(face.abilities@.take(a0.len() as int) =~= a0);
    while i < face.keywords.len()
        invariant
            i <= ks.len(),
            ks == face.keywords@,
            face.name == old(face).name,
            face.mana_cost == old(face).mana_cost,
            face.card_type == old(face).card_type,
            face.color_identity == old(face).color_identity,
            face.keywords == old(face).keywords,
            face.abilities@.len() == a0.len() + encore_costs(ks.take(i as int)).len(),
            face.abilities@.take(a0.len() as int) == a0,
            forall|k: int|
                0 <= k < encore_costs(ks.take(i as int)).len() ==> is_encore_ability(
                    #[trigger] face.abilities@[a0.len() + k],
                    encore_costs(ks.take(i as int))[k],
                ),
        decreases ks.len() - i,
    {
        assert(ks.take(i + 1).drop_last() =~= ks.take(i as int));
        let ghost before = face.abilities@;
        let ghost cs0 = encore_costs(ks.take(i as int));
        let mc = match &face.keywords[i] {
            Keyword::Encore(c) => Some(c.copy()),
            _ => None,
        };
        match mc {
            Some(c) => {
                let a = encore_ability(c);
                face.abilities.push(a);
                proof {
                    let cs1 = encore_costs(ks.take(i + 1));
                    assert(cs1 =~= cs0.push(ks[i as int]->Encore_0@));
                    assert(face.abilities@.take(a0.len() as int) =~= before.take(a0.len() as int));
                    assert forall|k: int| 0 <= k < cs1.len() implies is_encore_ability(
                        #[trigger] face.abilities@[a0.len() + k],
                        cs1[k],
                    ) by {
                        if k < cs0.len() {
                            assert(face.abilities@[a0.len() + k] == before[a0.len() + k]);
                        }
                    }
                }
            },
            None => {
                assert(encore_costs(ks.take(i + 1)) =~= cs0);
            },
        }
        i = i + 1;
    }
    assert(ks.take(i as int) =~= ks);
}

} // verus!
