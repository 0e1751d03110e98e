pub mod ability;
pub mod card;
pub mod copies;
pub mod card_type;
pub mod events;
pub mod identifiers;
pub mod keywords;
pub mod mana;
pub mod mana_laws;
pub mod zones;
