use vstd::prelude::*;

verus! {

/// Card types (CR 205.2a), including the nontraditional ones.
#[derive(Debug, Clone, Copy, PartialEq, Eq, Hash, Structural)]
pub enum CoreType {
    Artifact,
    Battle,
    Creature,
    Dungeon,
    Enchantment,
    Instant,
    Kindred,
    Land,
    Plane,
    Phenomenon,
    Scheme,
    Planeswalker,
    Sorcery,
    Tribal,
    Conspiracy,
}

/// Supertypes (CR 205.4a).
#[derive(Debug, Clone, Copy, PartialEq, Eq, Hash, Structural)]
pub enum Supertype {
    Basic,
    Legendary,
    Snow,
    World,
}

/// The printed name of a supertype.
pub open spec fn supertype_text(t: Supertype) -> Seq<char> {
    match t {
        Supertype::Basic => "Basic"@,
        Supertype::Legendary => "Legendary"@,
        Supertype::Snow => "Snow"@,
        Supertype::World => "World"@,
    }
}

impl Supertype {
    /// The printed name of this supertype.
    pub fn name(&self) -> (r: &'static str)
        ensures
            r@ == supertype_text(*self),
    {
        match self {
            Supertype::Basic => "Basic",
            Supertype::Legendary => "Legendary",
            Supertype::Snow => "Snow",
            Supertype::World => "World",
        }
    }
}

/// The printed name of a card type.
pub open spec fn core_type_text(t: CoreType) -> Seq<char> {
    match t {
        CoreType::Artifact => "Artifact"@,
        CoreType::Battle => "Battle"@,
        CoreType::Creature => "Creature"@,
        CoreType::Dungeon => "Dungeon"@,
        CoreType::Enchantment => "Enchantment"@,
        CoreType::Instant => "Instant"@,
        CoreType::Kindred => "Kindred"@,
        CoreType::Land => "Land"@,
        CoreType::Plane => "Plane"@,
        CoreType::Phenomenon => "Phenomenon"@,
        CoreType::Scheme => "Scheme"@,
        CoreType::Planeswalker => "Planeswalker"@,
        CoreType::Sorcery => "Sorcery"@,
        CoreType::Tribal => "Tribal"@,
        CoreType::Conspiracy => "Conspiracy"@,
    }
}

/// CR 110.4: the card types whose objects can be permanents.
pub open spec fn is_permanent_type(t: CoreType) -> bool {
    match t {
        CoreType::Artifact | CoreType::Battle | CoreType::Creature | CoreType::Enchantment
        | CoreType::Land | CoreType::Planeswalker => true,
        _ => false,
    }
}

impl CoreType {
    /// The printed name of this card type.
    pub fn name(&self) -> (r: &'static str)
        ensures
            r@ == core_type_text(*self),
    {
        match self {
            CoreType::Artifact => "Artifact",
            CoreType::Battle => "Battle",
            CoreType::Creature => "Creature",
            CoreType::Dungeon => "Dungeon",
            CoreType::Enchantment => "Enchantment",
            CoreType::Instant => "Instant",
            CoreType::Kindred => "Kindred",
            CoreType::Land => "Land",
            CoreType::Plane => "Plane",
            CoreType::Phenomenon => "Phenomenon",
            CoreType::Scheme => "Scheme",
            CoreType::Planeswalker => "Planeswalker",
            CoreType::Sorcery => "Sorcery",
            CoreType::Tribal => "Tribal",
            CoreType::Conspiracy => "Conspiracy",
        }
    }

    /// CR 110.4: whether objects of this card type can be permanents.
    pub fn is_permanent_type(&self) -> (r: bool)
        ensures
            r == is_permanent_type(*self),
    {
        match self {
            CoreType::Artifact | CoreType::Battle | CoreType::Creature | CoreType::Enchantment
            | CoreType::Land | CoreType::Planeswalker => true,
            _ => false,
        }
    }
}

} // verus!
