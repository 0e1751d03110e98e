use vstd::prelude::*;

use crate::types::ability::FaceAbility;
use crate::types::card_type::CoreType;
use crate::types::keywords::Keyword;
use crate::types::mana::{ManaColor, ManaCost};

verus! {

/// The type line of a card: supertypes, card types and subtypes (CR 205).
#[derive(Debug, Clone, Default)]
pub struct CardType {
    pub supertypes: Vec<String>,
    pub core_types: Vec<CoreType>,
    pub subtypes: Vec<String>,
}

/// The printed characteristics of one face of a card.
#[derive(Debug, Clone)]
pub struct CardFace {
    pub name: String,
    pub mana_cost: ManaCost,
    pub card_type: CardType,
    pub color_identity: Vec<ManaColor>,
    pub keywords: Vec<Keyword>,
    /// The abilities of the face.
    pub abilities: Vec<FaceAbility>,
}

} // verus!
