use forge_rules::parser::duration::{parse_cast_snapshot_suffix, parse_duration, parse_optional_duration};
use forge_rules::types::ability::{Duration, PlayerScope, StaticCondition};

#[test]
fn test_parse_duration_end_of_turn() {
    let (rest, d) = parse_duration("until end of turn.").unwrap();
    assert_eq!(d, Duration::UntilEndOfTurn);
    assert_eq!(rest, ".");
}

#[test]
fn test_parse_duration_end_of_combat() {
    let (rest, d) = parse_duration("until end of combat").unwrap();
    assert_eq!(d, Duration::UntilEndOfCombat);
    assert_eq!(rest, "");
}

#[test]
fn test_parse_duration_next_turn() {
    let (rest, d) = parse_duration("until your next turn and").unwrap();
    assert_eq!(
        d,
        Duration::UntilNextTurnOf {
            player: PlayerScope::Controller,
        }
    );
    assert_eq!(rest, " and");
}

#[test]
fn test_parse_duration_until_end_of_next_turn() {
    let (rest, d) = parse_duration("until the end of their next turn.").unwrap();
    assert_eq!(
        d,
        Duration::UntilEndOfNextTurnOf {
            player: PlayerScope::Controller,
        }
    );
    assert_eq!(rest, ".");
}

#[test]
fn test_parse_duration_their_next_turn() {
    let (rest, d) = parse_duration("until their next turn.").unwrap();
    assert_eq!(
        d,
        Duration::UntilNextTurnOf {
            player: PlayerScope::Controller,
        }
    );
    assert_eq!(rest, ".");
}

#[test]
fn test_parse_duration_this_turn() {
    let (rest, d) = parse_duration("this turn.").unwrap();
    assert_eq!(d, Duration::UntilEndOfTurn);
    assert_eq!(rest, ".");
}

#[test]
fn test_parse_duration_for_as_long_as() {
    let (rest, d) = parse_duration("for as long as ~ is tapped").unwrap();
    assert_eq!(rest, "");
    match d {
        Duration::ForAsLongAs { condition } => {
            assert!(matches!(condition, StaticCondition::SourceIsTapped));
        }
        _ => panic!("expected ForAsLongAs"),
    }
}

#[test]
fn test_parse_optional_duration_present() {
    let (rest, d) = parse_optional_duration("until end of turn.").unwrap();
    assert_eq!(d, Some(Duration::UntilEndOfTurn));
    assert_eq!(rest, ".");
}

#[test]
fn test_parse_optional_duration_absent() {
    let (rest, d) = parse_optional_duration("and draws a card").unwrap();
    assert_eq!(d, None);
    assert_eq!(rest, "and draws a card");
}

#[test]
fn test_parse_duration_failure() {
    assert!(parse_duration("permanently").is_err());
}

#[test]
fn test_cast_snapshot_suffix_cast_this_spell_leading_space() {
    assert_eq!(
        parse_cast_snapshot_suffix(" as you cast this spell"),
        Ok(("", ()))
    );
}

#[test]
fn test_cast_snapshot_suffix_cast_it_leading_space() {
    assert_eq!(parse_cast_snapshot_suffix(" as you cast it"), Ok(("", ())));
}

#[test]
fn test_cast_snapshot_suffix_activate_ability_leading_space() {
    assert_eq!(
        parse_cast_snapshot_suffix(" as you activate this ability"),
        Ok(("", ()))
    );
}

#[test]
fn test_cast_snapshot_suffix_no_leading_space() {
    assert_eq!(
        parse_cast_snapshot_suffix("as you cast this spell"),
        Ok(("", ()))
    );
}

#[test]
fn test_cast_snapshot_suffix_rejects_duration() {
    assert!(parse_cast_snapshot_suffix(" until end of turn").is_err());
}

#[test]
fn test_cast_snapshot_suffix_rejects_empty() {
    assert!(parse_cast_snapshot_suffix("").is_err());
}

#[test]
fn test_cast_snapshot_suffix_trailing_period() {
    assert_eq!(
        parse_cast_snapshot_suffix(" as you cast this spell."),
        Ok((".", ()))
    );
}
