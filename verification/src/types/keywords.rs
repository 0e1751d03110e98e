use vstd::prelude::*;

use crate::types::mana::ManaCost;

verus! {

/// The cost of a ward ability (CR 702.21a).
#[derive(Debug, Clone, PartialEq, Eq)]
pub enum WardCost {
    Mana(ManaCost),
    PayLife(u32),
}

/// Keyword abilities an object can have (CR 702).
#[derive(Debug, Clone, PartialEq, Eq)]
pub enum Keyword {
    Flying,
    Haste,
    Vigilance,
    Trample,
    Deathtouch,
    Lifelink,
    Flash,
    Defender,
    Reach,
    Menace,
    Epic,
    Flashback(ManaCost),
    Encore(ManaCost),
    Ward(WardCost),
}

/// Keyword classes, without their parameters.
#[derive(Debug, Clone, Copy, PartialEq, Eq, Hash, Structural)]
pub enum KeywordKind {
    Flying,
    Haste,
    Vigilance,
    Trample,
    Deathtouch,
    Lifelink,
    Flash,
    Defender,
    Reach,
    Menace,
    Epic,
    Flashback,
    Encore,
    Ward,
}

pub open spec fn keyword_kind(k: Keyword) -> KeywordKind {
    match k {
        Keyword::Flying => KeywordKind::Flying,
        Keyword::Haste => KeywordKind::Haste,
        Keyword::Vigilance => KeywordKind::Vigilance,
        Keyword::Trample => KeywordKind::Trample,
        Keyword::Deathtouch => KeywordKind::Deathtouch,
        Keyword::Lifelink => KeywordKind::Lifelink,
        Keyword::Flash => KeywordKind::Flash,
        Keyword::Defender => KeywordKind::Defender,
        Keyword::Reach => KeywordKind::Reach,
        Keyword::Menace => KeywordKind::Menace,
        Keyword::Epic => KeywordKind::Epic,
        Keyword::Flashback(_) => KeywordKind::Flashback,
        Keyword::Encore(_) => KeywordKind::Encore,
        Keyword::Ward(_) => KeywordKind::Ward,
    }
}

impl Keyword {
    /// The class of this keyword, without its parameter.
    pub fn kind(&self) -> (r: KeywordKind)
        ensures
            r == keyword_kind(*self),
    {
        match self {
            Keyword::Flying => KeywordKind::Flying,
            Keyword::Haste => KeywordKind::Haste,
            Keyword::Vigilance => KeywordKind::Vigilance,
            Keyword::Trample => KeywordKind::Trample,
            Keyword::Deathtouch => KeywordKind::Deathtouch,
            Keyword::Lifelink => KeywordKind::Lifelink,
            Keyword::Flash => KeywordKind::Flash,
            Keyword::Defender => KeywordKind::Defender,
            Keyword::Reach => KeywordKind::Reach,
            Keyword::Menace => KeywordKind::Menace,
            Keyword::Epic => KeywordKind::Epic,
            Keyword::Flashback(_) => KeywordKind::Flashback,
            Keyword::Encore(_) => KeywordKind::Encore,
            Keyword::Ward(_) => KeywordKind::Ward,
        }
    }
}

} // verus!
