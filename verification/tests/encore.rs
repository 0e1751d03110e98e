use forge_rules::database::encore::synthesize_encore;
use forge_rules::types::ability::{AbilityCost, AbilityKind, Effect, FaceAbility, TargetFilter};
use forge_rules::types::card::{CardFace, CardType};
use forge_rules::types::keywords::Keyword;
use forge_rules::types::mana::{ManaCost, ManaCostShard};
use forge_rules::types::zones::Zone;

fn face(keywords: Vec<Keyword>) -> CardFace {
    CardFace {
        name: "Phantom Steed".to_string(),
        mana_cost: ManaCost::generic(4),
        card_type: CardType { supertypes: vec![], core_types: vec![], subtypes: vec![] },
        color_identity: vec![],
        keywords,
        abilities: vec![],
    }
}

#[test]
fn encore_keyword_becomes_graveyard_sorcery_speed_ability() {
    let cost = ManaCost::Cost { shards: vec![ManaCostShard::Black], generic: 3 };
    let mut f = face(vec![Keyword::Encore(cost.clone())]);
    synthesize_encore(&mut f);
    assert_eq!(f.abilities.len(), 1);
    let a: &FaceAbility = &f.abilities[0];
    assert_eq!(a.kind, AbilityKind::Activated);
    assert!(matches!(a.effect, Effect::Encore));
    assert!(a.sorcery_speed);
    assert_eq!(a.activation_zone, Some(Zone::Graveyard));
    match &a.cost {
        Some(AbilityCost::Composite { costs }) => {
            assert_eq!(costs.len(), 2);
            assert!(matches!(&costs[0], AbilityCost::Mana { cost: c } if *c == cost));
            assert!(matches!(
                &costs[1],
                AbilityCost::Exile { count: 1, zone: Some(Zone::Graveyard), filter: Some(TargetFilter::SelfRef) }
            ));
        }
        other => panic!("unexpected cost {other:?}"),
    }
}

#[test]
fn face_without_encore_is_unchanged() {
    let mut f = face(vec![Keyword::Epic]);
    synthesize_encore(&mut f);
    assert!(f.abilities.is_empty());
}

#[test]
fn each_encore_keyword_gets_its_own_ability() {
    let mut f = face(vec![Keyword::Encore(ManaCost::generic(2)), Keyword::Epic, Keyword::Encore(ManaCost::generic(5))]);
    synthesize_encore(&mut f);
    assert_eq!(f.abilities.len(), 2);
}
