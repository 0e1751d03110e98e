use std::collections::HashSet;

use forge_rules::database::CardDatabase;
use forge_rules::draft::cube::{
    parse_cube_list, resolve_addable_cards, CubeImportError, CubePackSource, DeckAddableCardPolicy,
    DeckAddableCards, DraftCardInstance, DraftConfig, DraftError,
};
use rand::SeedableRng;
use rand_chacha::ChaCha8Rng;

fn card(i: usize) -> DraftCardInstance {
    DraftCardInstance {
        instance_id: format!("source-{i}"),
        name: format!("Card {i}"),
        set_code: "CUBE".to_string(),
        collector_number: format!("{i}"),
        rarity: "cube".to_string(),
        colors: Vec::new(),
        cmc: 0,
        type_line: String::new(),
    }
}

#[test]
fn parses_counted_cube_list() {
    let entries = parse_cube_list("1 Lightning Bolt\n2 Island\n").unwrap();
    assert_eq!(entries[0].name, "Lightning Bolt");
    assert_eq!(entries[0].count, 1);
    assert_eq!(entries[1].name, "Island");
    assert_eq!(entries[1].count, 2);
}

#[test]
fn cube_pack_source_deals_without_replacement() {
    let cards: Vec<DraftCardInstance> = (0..8).map(card).collect();
    let source = CubePackSource::new(cards);
    let config = DraftConfig { pack_count: 2, cards_per_pack: 2 };
    let mut rng = ChaCha8Rng::seed_from_u64(1);
    let packs = source.generate_packs(&mut rng, &config, 2).unwrap();
    let names: Vec<String> = packs
        .iter()
        .flat_map(|seat| seat.iter())
        .flat_map(|pack| pack.0.iter())
        .map(|card| card.name.clone())
        .collect();
    let unique: HashSet<String> = names.iter().cloned().collect();
    assert_eq!(names.len(), 8);
    assert_eq!(unique.len(), 8);
}

#[test]
fn resolve_addable_cards_reports_unknown_custom_card() {
    let db = CardDatabase { faces: Vec::new() };
    let addable = DeckAddableCards {
        policy: DeckAddableCardPolicy::CustomOnly,
        custom: vec!["Not A Card".to_string()],
    };
    let errors = resolve_addable_cards(&addable, &db).unwrap_err();
    assert!(matches!(
        &errors[0],
        CubeImportError::UnknownCard { name } if name == "Not A Card"
    ));
}

#[test]
fn cube_pack_source_refuses_too_few_cards() {
    let cards: Vec<DraftCardInstance> = (0..7).map(card).collect();
    let source = CubePackSource::new(cards);
    let config = DraftConfig { pack_count: 2, cards_per_pack: 2 };
    let mut rng = ChaCha8Rng::seed_from_u64(1);
    let r = source.generate_packs(&mut rng, &config, 2);
    assert_eq!(r.unwrap_err(), DraftError::InsufficientCards { available: 7, required: 8 });
}

#[test]
fn cube_list_rejects_line_without_count() {
    let errors = parse_cube_list("Lightning Bolt\n").unwrap_err();
    assert_eq!(errors[0], CubeImportError::InvalidLine { line: 1 });
}

fn island_face() -> forge_rules::types::card::CardFace {
    forge_rules::types::card::CardFace {
        name: "Island".to_string(),
        mana_cost: forge_rules::types::mana::ManaCost::zero(),
        card_type: forge_rules::types::card::CardType {
            supertypes: vec!["Basic".to_string()],
            core_types: vec![forge_rules::types::card_type::CoreType::Land],
            subtypes: vec!["Island".to_string()],
        },
        color_identity: vec![],
        keywords: vec![],
        abilities: vec![],
    }
}

#[test]
fn cube_cards_are_numbered_copies_of_known_faces() {
    let db = CardDatabase { faces: vec![island_face()] };
    let entries = parse_cube_list("2 Island\n").unwrap();
    let cards = forge_rules::draft::cube::cube_cards_from_entries(&entries, &db).unwrap();
    assert_eq!(cards.len(), 2);
    assert_eq!(cards[0].name, "Island");
    assert_eq!(cards[0].instance_id, "cube-source-0-0");
    assert_eq!(cards[1].instance_id, "cube-source-1-1");
    assert_eq!(cards[1].collector_number, "2");
    assert_eq!(cards[0].set_code, "CUBE");
    assert_eq!(cards[0].rarity, "cube");
    assert_eq!(cards[0].type_line, "Land \u{2014} Island");
}

#[test]
fn cube_cards_report_every_unknown_name() {
    let db = CardDatabase { faces: vec![island_face()] };
    let entries = parse_cube_list("1 Island\n1 Bolt\n3 Swamp\n").unwrap();
    let errors = forge_rules::draft::cube::cube_cards_from_entries(&entries, &db).unwrap_err();
    assert_eq!(
        errors,
        vec![
            CubeImportError::UnknownCard { name: "Bolt".to_string() },
            CubeImportError::UnknownCard { name: "Swamp".to_string() }
        ]
    );
}
