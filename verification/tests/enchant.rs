use forge_rules::game::filter::{matches_target_filter, FilterContext};
use forge_rules::game::state::{AttachTarget, GameState};
use forge_rules::game::zones::create_object;
use forge_rules::parser::enchant::{
    parse_enchant_attachment_qualifier, parse_enchant_controller_suffix, parse_enchant_list_sep,
    parse_enchant_player_base, parse_enchant_target_full, parse_enchant_type_leg, parse_enchant_type_list,
};
use forge_rules::parser::loyalty::parse_self_loyalty_activation_permission;
use forge_rules::types::ability::{AttachmentKind, ControllerRef, FilterProp, TargetFilter, TypeFilter};
use forge_rules::types::card_type::CoreType;
use forge_rules::types::identifiers::{CardId, PlayerId};
use forge_rules::types::zones::Zone;

#[test]
fn enchant_leg_reads_core_types_and_basic_land_types() {
    assert_eq!(parse_enchant_type_leg("creature you control").unwrap(), (" you control", TypeFilter::Creature));
    assert_eq!(parse_enchant_type_leg("forest").unwrap(), ("", TypeFilter::Subtype("Forest".to_string())));
    assert_eq!(parse_enchant_type_leg("sorcery card").unwrap(), (" card", TypeFilter::Sorcery));
    assert!(parse_enchant_type_leg("goblin").is_err());
}

#[test]
fn enchant_separators_prefer_serial_comma() {
    assert_eq!(parse_enchant_list_sep(", or land").unwrap(), ("land", ()));
    assert_eq!(parse_enchant_list_sep(", land").unwrap(), ("land", ()));
    assert_eq!(parse_enchant_list_sep(" and land").unwrap(), ("land", ()));
    assert!(parse_enchant_list_sep("land").is_err());
}

#[test]
fn enchant_type_list_keeps_source_order() {
    let (rest, legs) = parse_enchant_type_list("artifact, creature, or land you control").unwrap();
    assert_eq!(rest, " you control");
    assert_eq!(legs, vec![TypeFilter::Artifact, TypeFilter::Creature, TypeFilter::Land]);
}

#[test]
fn enchant_type_list_leaves_dangling_separator() {
    let (rest, legs) = parse_enchant_type_list("creature or goblin").unwrap();
    assert_eq!(rest, " or goblin");
    assert_eq!(legs, vec![TypeFilter::Creature]);
}

#[test]
fn enchant_controller_suffix_longest_first() {
    assert_eq!(parse_enchant_controller_suffix(" an opponent controls").unwrap(), ("", ControllerRef::Opponent));
    assert_eq!(parse_enchant_controller_suffix(" opponent controls.").unwrap(), (".", ControllerRef::Opponent));
    assert_eq!(parse_enchant_controller_suffix(" you control").unwrap(), ("", ControllerRef::You));
    assert!(parse_enchant_controller_suffix(" they control").is_err());
}

#[test]
fn enchant_attachment_qualifier_marks_another() {
    let (rest, prop) = parse_enchant_attachment_qualifier(" with another aura attached to it").unwrap();
    assert_eq!(rest, "");
    assert_eq!(prop, FilterProp::HasAttachment { kind: AttachmentKind::Aura, controller: None, exclude_source: true });
    let (_, prop2) = parse_enchant_attachment_qualifier(" with an equipment attached to it").unwrap();
    assert_eq!(
        prop2,
        FilterProp::HasAttachment { kind: AttachmentKind::Equipment, controller: None, exclude_source: false }
    );
    assert!(parse_enchant_attachment_qualifier("with an aura attached to it").is_err());
}

#[test]
fn enchant_player_base_reads_player_and_opponent() {
    assert_eq!(parse_enchant_player_base("player").unwrap(), ("", TargetFilter::Player));
    match parse_enchant_player_base("opponent").unwrap() {
        ("", TargetFilter::Typed(tf)) => {
            assert!(tf.type_filters.is_empty());
            assert_eq!(tf.controller, Some(ControllerRef::Opponent));
            assert!(tf.properties.is_empty());
        }
        other => panic!("unexpected {other:?}"),
    }
}

#[test]
fn enchant_target_full_composes_all_parts() {
    let (rest, f) = parse_enchant_target_full("forest you control").unwrap();
    assert_eq!(rest, "");
    match f {
        TargetFilter::Typed(tf) => {
            assert_eq!(tf.type_filters, vec![TypeFilter::Subtype("Forest".to_string())]);
            assert_eq!(tf.controller, Some(ControllerRef::You));
            assert!(tf.properties.is_empty());
        }
        other => panic!("unexpected {other:?}"),
    }
    let (_, f2) = parse_enchant_target_full("creature with another aura attached to it").unwrap();
    match f2 {
        TargetFilter::Typed(tf) => {
            assert_eq!(tf.controller, None);
            assert_eq!(
                tf.properties,
                vec![FilterProp::HasAttachment { kind: AttachmentKind::Aura, controller: None, exclude_source: true }]
            );
        }
        other => panic!("unexpected {other:?}"),
    }
}

#[test]
fn has_attachment_filter_needs_another_aura() {
    let mut state = GameState::new_two_player(42);
    let host = create_object(&mut state, CardId(1), PlayerId(0), "Bear".to_string(), Zone::Battlefield);
    state.objects[host.0 as usize].card_types.core_types.push(CoreType::Creature);
    let coronet = create_object(&mut state, CardId(2), PlayerId(0), "Daybreak Coronet".to_string(), Zone::Battlefield);
    let (_, f) = parse_enchant_target_full("creature with another aura attached to it").unwrap();
    let ctx = FilterContext { source_id: coronet, controller: PlayerId(0) };
    assert!(!matches_target_filter(&state, host, &f, ctx));
    let aura = create_object(&mut state, CardId(3), PlayerId(0), "Rancor".to_string(), Zone::Battlefield);
    state.objects[aura.0 as usize].card_types.subtypes.push("Aura".to_string());
    state.objects[aura.0 as usize].attached_to = Some(AttachTarget::Object(host));
    assert!(matches_target_filter(&state, host, &f, ctx));
}

#[test]
fn loyalty_permission_accepts_possessives() {
    assert_eq!(
        parse_self_loyalty_activation_permission(
            "you may activate ~'s loyalty abilities any time you could cast an instant."
        )
        .unwrap(),
        (".", ())
    );
    assert_eq!(
        parse_self_loyalty_activation_permission("you may activate loyalty abilities any time you could cast an instant")
            .unwrap(),
        ("", ())
    );
    assert!(parse_self_loyalty_activation_permission("you may activate abilities any time").is_err());
}
