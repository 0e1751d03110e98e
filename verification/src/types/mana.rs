//! Mana: colors and types, spending restrictions, mana units and the mana
//! pool, cost symbols and mana costs, and per-color tallies.

use vstd::prelude::*;

use crate::seqs::{
    count_where, first_index, lemma_first_index_found, lemma_first_index_none,
    lemma_first_index_spec,
};
use crate::text::{
    append_str, chars_eq_ignore_ascii_case, eq_ignore_ascii_case, or_pieces, split_or,
    split_words, str_chars, str_eq, string_of, texts, words,
};
use crate::types::identifiers::ObjectId;
use crate::types::keywords::{Keyword, KeywordKind};
use crate::types::zones::Zone;

verus! {

// ---------------------------------------------------------------------------
// Colors and types of mana
// ---------------------------------------------------------------------------
/// The five colors (CR 105.1).
#[derive(Debug, Clone, Copy, PartialEq, Eq, Hash, Structural)]
pub enum ManaColor {
    White,
    Blue,
    Black,
    Red,
    Green,
}

/// The name of a color, as `ManaColor::from_str` reads it.
pub open spec fn color_name(c: ManaColor) -> Seq<char> {
    match c {
        ManaColor::White => "White"@,
        ManaColor::Blue => "Blue"@,
        ManaColor::Black => "Black"@,
        ManaColor::Red => "Red"@,
        ManaColor::Green => "Green"@,
    }
}

/// All five colors in canonical WUBRG order.
pub fn all_mana_colors() -> (r: [ManaColor; 5])
    ensures
        r@ == seq![
            ManaColor::White,
            ManaColor::Blue,
            ManaColor::Black,
            ManaColor::Red,
            ManaColor::Green,
        ],
{
    let r = [ManaColor::White, ManaColor::Blue, ManaColor::Black, ManaColor::Red, ManaColor::Green];
    assert(r@ =~= seq![
        ManaColor::White,
        ManaColor::Blue,
        ManaColor::Black,
        ManaColor::Red,
        ManaColor::Green,
    ]);
    r
}

impl ManaColor {
    /// Reads a color from its name ("White", "Blue", "Black", "Red", "Green").
    pub fn from_name(s: &str) -> (r: Result<ManaColor, ()>)
        ensures
            match r {
                Ok(c) => color_name(c) == s@,
                Err(_) => forall|c: ManaColor| color_name(c) != s@,
            },
    {
        if str_eq(s, "White") {
            Ok(ManaColor::White)
        } else if str_eq(s, "Blue") {
            Ok(ManaColor::Blue)
        } else if str_eq(s, "Black") {
            Ok(ManaColor::Black)
        } else if str_eq(s, "Red") {
            Ok(ManaColor::Red)
        } else if str_eq(s, "Green") {
            Ok(ManaColor::Green)
        } else {
            Err(())
        }
    }
}

impl std::str::FromStr for ManaColor {
    type Err = ();

    fn from_str(s: &str) -> (r: Result<Self, ()>)
        ensures
            match r {
                Ok(c) => color_name(c) == s@,
                Err(_) => forall|c: ManaColor| color_name(c) != s@,
            },
    {
        ManaColor::from_name(s)
    }
}

/// The six types of mana (CR 106.1): the five colors and colorless.
#[derive(Debug, Clone, Copy, PartialEq, Eq, Hash, Structural)]
pub enum ManaType {
    White,
    Blue,
    Black,
    Red,
    Green,
    Colorless,
}

/// The type of mana of a color.
pub open spec fn mana_type_of(c: ManaColor) -> ManaType {
    match c {
        ManaColor::White => ManaType::White,
        ManaColor::Blue => ManaType::Blue,
        ManaColor::Black => ManaType::Black,
        ManaColor::Red => ManaType::Red,
        ManaColor::Green => ManaType::Green,
    }
}

/// The color of a type of mana, if it has one.
pub open spec fn color_of_type(t: ManaType) -> Option<ManaColor> {
    match t {
        ManaType::White => Some(ManaColor::White),
        ManaType::Blue => Some(ManaColor::Blue),
        ManaType::Black => Some(ManaColor::Black),
        ManaType::Red => Some(ManaColor::Red),
        ManaType::Green => Some(ManaColor::Green),
        ManaType::Colorless => None,
    }
}

pub fn mana_type_from_color(color: ManaColor) -> (r: ManaType)
    ensures
        r == mana_type_of(color),
{
    match color {
        ManaColor::White => ManaType::White,
        ManaColor::Blue => ManaType::Blue,
        ManaColor::Black => ManaType::Black,
        ManaColor::Red => ManaType::Red,
        ManaColor::Green => ManaType::Green,
    }
}

impl From<ManaColor> for ManaType {
    fn from(color: ManaColor) -> (r: ManaType) {
        mana_type_from_color(color)
    }
}

impl vstd::std_specs::convert::FromSpecImpl<ManaColor> for ManaType {
    open spec fn obeys_from_spec() -> bool {
        true
    }

    open spec fn from_spec(v: ManaColor) -> ManaType {
        mana_type_of(v)
    }
}

/// The Debug name of a type of mana.
pub open spec fn mana_type_name(t: ManaType) -> Seq<char> {
    match t {
        ManaType::White => "White"@,
        ManaType::Blue => "Blue"@,
        ManaType::Black => "Black"@,
        ManaType::Red => "Red"@,
        ManaType::Green => "Green"@,
        ManaType::Colorless => "Colorless"@,
    }
}

pub fn mana_type_label(t: ManaType) -> (r: &'static str)
    ensures
        r@ == mana_type_name(t),
{
    match t {
        ManaType::White => "White",
        ManaType::Blue => "Blue",
        ManaType::Black => "Black",
        ManaType::Red => "Red",
        ManaType::Green => "Green",
        ManaType::Colorless => "Colorless",
    }
}

/// CR 614.1a + CR 703.4q: what happens to an unspent unit of mana when the
/// pool would empty at the end of a step: it stays (`Retain`) or it becomes
/// another type of mana (`Transform`).
#[derive(Debug, Clone, Copy, PartialEq, Eq, Hash, Structural)]
pub enum StepEndManaAction {
    Retain,
    Transform(ManaType),
}

/// The display text of a step-end action: `Retain` or `Transform(<type>)`.
pub open spec fn step_end_action_text(a: StepEndManaAction) -> Seq<char> {
    match a {
        StepEndManaAction::Retain => "Retain"@,
        StepEndManaAction::Transform(t) => "Transform("@ + mana_type_name(t) + ")"@,
    }
}

impl StepEndManaAction {
    /// The display text of this action.
    pub fn label(&self) -> (r: String)
        ensures
            r@ == step_end_action_text(*self),
    {
        match self {
            StepEndManaAction::Retain => string_of("Retain"),
            StepEndManaAction::Transform(t) => {
                let mut s = string_of("Transform(");
                append_str(&mut s, mana_type_label(*t));
                append_str(&mut s, ")");
                s
            },
        }
    }
}

/// CR 703.4q: one step-end mana handler that applies to a player. `filter`
/// names the color it reacts to; `None` reacts to every unit.
#[derive(Debug, Clone, Copy, PartialEq, Eq, Structural)]
pub struct StepEndManaHandler {
    pub filter: Option<ManaColor>,
    pub action: StepEndManaAction,
}

/// Display projection of what a mana ability can produce.
#[derive(Debug, Clone, PartialEq, Eq)]
pub enum ManaPip {
    /// CR 106.1a: one specific color.
    Color(ManaColor),
    /// CR 106.1b: colorless mana.
    Colorless,
    /// CR 106.4: one color chosen from the set, for all units.
    OneOfColors(Vec<ManaColor>),
    /// CR 106.4: a color chosen from the set for each unit.
    CombinationOfColors(Vec<ManaColor>),
    /// CR 903.4: any color in the commander's color identity.
    AnyInCommandersIdentity,
}

// ---------------------------------------------------------------------------
// Spending restrictions
// ---------------------------------------------------------------------------
/// What a restriction reads of the spell being paid for.
#[derive(Debug, Clone)]
pub struct SpellMeta {
    /// Supertype and card type names ("Legendary", "Creature", ...).
    pub types: Vec<String>,
    /// Subtypes ("Elf", "Goblin", ...).
    pub subtypes: Vec<String>,
    /// Keyword classes the spell has while being cast.
    pub keyword_kinds: Vec<KeywordKind>,
    /// The zone the spell is cast from.
    pub cast_from_zone: Option<Zone>,
}

impl Default for SpellMeta {
    fn default() -> (r: SpellMeta)
        ensures
            r.types@.len() == 0,
            r.subtypes@.len() == 0,
            r.keyword_kinds@.len() == 0,
            r.cast_from_zone is None,
    {
        SpellMeta {
            types: Vec::new(),
            subtypes: Vec::new(),
            keyword_kinds: Vec::new(),
            cast_from_zone: None,
        }
    }
}

/// CR 106.6: what a payment is for.
#[derive(Debug, Clone, Copy)]
pub enum PaymentContext<'a> {
    /// Casting a spell.
    Spell(&'a SpellMeta),
    /// Activating an ability of a permanent with these types and subtypes.
    Activation { source_types: &'a [String], source_subtypes: &'a [String] },
    /// A cost paid while a spell or ability resolves.
    Effect,
}

/// CR 106.6: a restriction on what a unit of mana may be spent on.
#[derive(Debug, Clone, PartialEq, Eq)]
pub enum ManaRestriction {
    /// "Spend this mana only to cast [quality] spells."
    OnlyForSpellType(String),
    /// "Spend this mana only to cast a creature spell of the chosen type."
    OnlyForCreatureType(String),
    /// "Spend this mana only to cast [quality] spells or activate abilities
    /// of [quality] sources."
    OnlyForTypeSpellsOrAbilities(String),
    /// "Spend this mana only to activate abilities."
    OnlyForActivation,
    /// "Spend this mana only on costs that include {X}."
    OnlyForXCosts,
    /// "Spend this mana only to cast spells with [keyword]."
    OnlyForSpellWithKeywordKind(KeywordKind),
    /// "Spend this mana only to cast spells with [keyword] from [zone]."
    OnlyForSpellWithKeywordKindFromZone(KeywordKind, Zone),
    /// CR 702.51a: marker on a convoke tap that stands in for mana.
    ConvokePayment,
}

/// The texts of a sequence of strings.
pub open spec fn string_views(v: Seq<String>) -> Seq<Seq<char>> {
    v.map_values(|s: String| s@)
}

/// Some quality in the list equals `part` up to ASCII case.
pub open spec fn has_quality(qualities: Seq<Seq<char>>, part: Seq<char>) -> bool {
    exists|k: int| 0 <= k < qualities.len() && eq_ignore_ascii_case(#[trigger] qualities[k], part)
}

/// Every word of the alternative is one of the qualities.
pub open spec fn alternative_met(alt: Seq<char>, qualities: Seq<Seq<char>>) -> bool {
    forall|p: int| 0 <= p < words(alt).len() ==> has_quality(qualities, #[trigger] words(alt)[p])
}

/// CR 105.2c + CR 106.6: a requirement such as "Colorless Eldrazi or
/// Artifact" is met when, for one of its " or " alternatives, every word of
/// that alternative names a quality the object has (ignoring ASCII case).
pub open spec fn quality_requirement_met(required: Seq<char>, qualities: Seq<Seq<char>>) -> bool {
    exists|a: int|
        0 <= a < or_pieces(required).len() && alternative_met(
            #[trigger] or_pieces(required)[a],
            qualities,
        )
}

/// Some text of the list equals `target` up to ASCII case.
pub open spec fn any_eq_ignore_case(list: Seq<Seq<char>>, target: Seq<char>) -> bool {
    exists|k: int| 0 <= k < list.len() && eq_ignore_ascii_case(#[trigger] list[k], target)
}

/// CR 106.6: whether a restriction lets its mana be spent to cast a spell.
pub open spec fn allows_spell_spec(r: ManaRestriction, meta: SpellMeta) -> bool {
    match r {
        ManaRestriction::OnlyForSpellType(t) => quality_requirement_met(
            t@,
            string_views(meta.types@),
        ),
        ManaRestriction::OnlyForCreatureType(st) => any_eq_ignore_case(
            string_views(meta.types@),
            "Creature"@,
        ) && any_eq_ignore_case(string_views(meta.subtypes@), st@),
        ManaRestriction::OnlyForTypeSpellsOrAbilities(t) => quality_requirement_met(
            t@,
            string_views(meta.types@) + string_views(meta.subtypes@),
        ),
        ManaRestriction::OnlyForActivation => false,
        ManaRestriction::OnlyForXCosts => false,
        ManaRestriction::OnlyForSpellWithKeywordKind(k) => meta.keyword_kinds@.contains(k),
        ManaRestriction::OnlyForSpellWithKeywordKindFromZone(k, z) => meta.keyword_kinds@.contains(
            k,
        ) && meta.cast_from_zone == Some(z),
        ManaRestriction::ConvokePayment => true,
    }
}

/// CR 106.6: whether a restriction lets its mana be spent to activate an
/// ability of a source with these types and subtypes.
pub open spec fn allows_activation_spec(
    r: ManaRestriction,
    source_types: Seq<String>,
    source_subtypes: Seq<String>,
) -> bool {
    match r {
        ManaRestriction::OnlyForTypeSpellsOrAbilities(t) => quality_requirement_met(
            t@,
            string_views(source_types) + string_views(source_subtypes),
        ),
        ManaRestriction::OnlyForActivation => true,
        _ => false,
    }
}

/// CR 106.6: whether a restriction lets its mana be spent on a payment.
pub open spec fn allows_spec(r: ManaRestriction, ctx: PaymentContext) -> bool {
    match ctx {
        PaymentContext::Spell(meta) => allows_spell_spec(r, *meta),
        PaymentContext::Activation { source_types, source_subtypes } => allows_activation_spec(
            r,
            source_types@,
            source_subtypes@,
        ),
        PaymentContext::Effect => false,
    }
}

/// The character texts of a list of strings.
fn string_texts(v: &[String]) -> (r: Vec<Vec<char>>)
    ensures
        texts(r@) == string_views(v@),
{
    let mut r: Vec<Vec<char>> = Vec::new();
    let mut i: usize = 0;
    while i < v.len()
        invariant
            i <= v@.len(),
            texts(r@) == string_views(v@.subrange(0, i as int)),
        decreases v@.len() - i,
    {
        let cs = str_chars(v[i].as_str());
        let ghost old_r = r@;
        r.push(cs);
        assert(texts(r@) =~= texts(old_r).push(v@[i as int]@));
        assert(string_views(v@.subrange(0, i + 1)) =~= string_views(v@.subrange(0, i as int)).push(
            v@[i as int]@,
        ));
        i = i + 1;
    }
    assert(v@.subrange(0, v@.len() as int) =~= v@);
    r
}

/// Some text of the list equals `target` up to ASCII case.
fn any_text_eq_ignore_case(list: &Vec<Vec<char>>, target: &[char]) -> (r: bool)
    ensures
        r == any_eq_ignore_case(texts(list@), target@),
{
    let mut k: usize = 0;
    while k < list.len()
        invariant
            k <= list@.len(),
            forall|j: int| 0 <= j < k ==> !eq_ignore_ascii_case(#[trigger] texts(list@)[j], target@),
        decreases list@.len() - k,
    {
        if chars_eq_ignore_ascii_case(list[k].as_slice(), target) {
            assert(texts(list@)[k as int] == list@[k as int]@);
            return true;
        }
        assert(texts(list@)[k as int] == list@[k as int]@);
        k = k + 1;
    }
    false
}

/// Whether every word of `alt` names one of the qualities.
fn alternative_holds(alt: &[char], qualities: &Vec<Vec<char>>) -> (r: bool)
    ensures
        r == alternative_met(alt@, texts(qualities@)),
{
    let parts = split_words(alt);
    let mut p: usize = 0;
    while p < parts.len()
        invariant
            texts(parts@) == words(alt@),
            p <= parts@.len(),
            forall|j: int|
                0 <= j < p ==> has_quality(texts(qualities@), #[trigger] words(alt@)[j]),
        decreases parts@.len() - p,
    {
        assert(texts(parts@)[p as int] == parts@[p as int]@);
        if !any_text_eq_ignore_case(qualities, parts[p].as_slice()) {
            return false;
        }
        p = p + 1;
    }
    true
}

/// CR 105.2c + CR 106.6: whether a quality requirement is met.
fn matches_required_quality(required: &[char], qualities: &Vec<Vec<char>>) -> (r: bool)
    ensures
        r == quality_requirement_met(required@, texts(qualities@)),
{
    let alts = split_or(required);
    let mut a: usize = 0;
    while a < alts.len()
        invariant
            texts(alts@) == or_pieces(required@),
            a <= alts@.len(),
            forall|j: int|
                0 <= j < a ==> !alternative_met(
                    #[trigger] or_pieces(required@)[j],
                    texts(qualities@),
                ),
        decreases alts@.len() - a,
    {
        assert(texts(alts@)[a as int] == alts@[a as int]@);
        if alternative_holds(alts[a].as_slice(), qualities) {
            return true;
        }
        a = a + 1;
    }
    false
}

/// Whether a list of keyword classes holds `k`.
fn has_keyword_kind(list: &Vec<KeywordKind>, k: KeywordKind) -> (r: bool)
    ensures
        r == list@.contains(k),
{
    let mut i: usize = 0;
    while i < list.len()
        invariant
            i <= list@.len(),
            forall|j: int| 0 <= j < i ==> list@[j] != k,
        decreases list@.len() - i,
    {
        if list[i] == k {
            return true;
        }
        i = i + 1;
    }
    false
}

/// Concatenation of two lists of texts, consuming both.
fn concat_texts(a: Vec<Vec<char>>, b: Vec<Vec<char>>) -> (r: Vec<Vec<char>>)
    ensures
        texts(r@) == texts(a@) + texts(b@),
{
    let mut a = a;
    let mut b = b;
    let ghost a0 = a@;
    let ghost b0 = b@;
    a.append(&mut b);
    assert(texts(a@) =~= texts(a0) + texts(b0));
    a
}

impl ManaRestriction {
    /// Whether this restriction permits spending its mana on the spell.
    pub fn allows_spell(&self, meta: &SpellMeta) -> (r: bool)
        ensures
            r == allows_spell_spec(*self, *meta),
    {
        match self {
            ManaRestriction::OnlyForSpellType(required_type) => {
                let q = string_texts(meta.types.as_slice());
                let req = str_chars(required_type.as_str());
                matches_required_quality(req.as_slice(), &q)
            },
            ManaRestriction::OnlyForCreatureType(required_subtype) => {
                let types = string_texts(meta.types.as_slice());
                let subtypes = string_texts(meta.subtypes.as_slice());
                let creature = str_chars("Creature");
                let sub = str_chars(required_subtype.as_str());
                let is_creature = any_text_eq_ignore_case(&types, creature.as_slice());
                let has_subtype = any_text_eq_ignore_case(&subtypes, sub.as_slice());
                is_creature && has_subtype
            },
            ManaRestriction::OnlyForTypeSpellsOrAbilities(required_type) => {
                let types = string_texts(meta.types.as_slice());
                let subtypes = string_texts(meta.subtypes.as_slice());
                let q = concat_texts(types, subtypes);
                let req = str_chars(required_type.as_str());
                matches_required_quality(req.as_slice(), &q)
            },
            ManaRestriction::OnlyForActivation => false,
            ManaRestriction::OnlyForXCosts => false,
            ManaRestriction::OnlyForSpellWithKeywordKind(k) => has_keyword_kind(
                &meta.keyword_kinds,
                *k,
            ),
            ManaRestriction::OnlyForSpellWithKeywordKindFromZone(k, z) => {
                let has = has_keyword_kind(&meta.keyword_kinds, *k);
                let from_zone = match meta.cast_from_zone {
                    Some(zone) => zone == *z,
                    None => false,
                };
                has && from_zone
            },
            ManaRestriction::ConvokePayment => true,
        }
    }

    /// Whether this restriction permits spending its mana to activate an
    /// ability of a source with these types and subtypes.
    pub fn allows_activation(&self, source_types: &[String], source_subtypes: &[String]) -> (r:
        bool)
        ensures
            r == allows_activation_spec(*self, source_types@, source_subtypes@),
    {
        match self {
            ManaRestriction::OnlyForTypeSpellsOrAbilities(required_type) => {
                let types = string_texts(source_types);
                let subtypes = string_texts(source_subtypes);
                let q = concat_texts(types, subtypes);
                let req = str_chars(required_type.as_str());
                matches_required_quality(req.as_slice(), &q)
            },
            ManaRestriction::OnlyForActivation => true,
            _ => false,
        }
    }

    /// CR 106.6: the spell half for spell payments, the activation half for
    /// ability payments, and nothing for payments during resolution.
    pub fn allows(&self, ctx: &PaymentContext<'_>) -> (r: bool)
        ensures
            r == allows_spec(*self, *ctx),
    {
        match ctx {
            PaymentContext::Spell(meta) => self.allows_spell(meta),
            PaymentContext::Activation { source_types, source_subtypes } => self.allows_activation(
                source_types,
                source_subtypes,
            ),
            PaymentContext::Effect => false,
        }
    }
}

// ---------------------------------------------------------------------------
// Cost symbols and mana costs
// ---------------------------------------------------------------------------
/// One mana symbol of a mana cost (CR 107.4).
#[derive(Debug, Clone, Copy, PartialEq, Eq, Hash, Structural)]
pub enum ManaCostShard {
    White,
    Blue,
    Black,
    Red,
    Green,
    Colorless,
    Snow,
    X,
    TwoOrMoreColorSource,
    WhiteBlue,
    WhiteBlack,
    BlueBlack,
    BlueRed,
    BlackRed,
    BlackGreen,
    RedWhite,
    RedGreen,
    GreenWhite,
    GreenBlue,
    TwoWhite,
    TwoBlue,
    TwoBlack,
    TwoRed,
    TwoGreen,
    PhyrexianWhite,
    PhyrexianBlue,
    PhyrexianBlack,
    PhyrexianRed,
    PhyrexianGreen,
    PhyrexianWhiteBlue,
    PhyrexianWhiteBlack,
    PhyrexianBlueBlack,
    PhyrexianBlueRed,
    PhyrexianBlackRed,
    PhyrexianBlackGreen,
    PhyrexianRedWhite,
    PhyrexianRedGreen,
    PhyrexianGreenWhite,
    PhyrexianGreenBlue,
    ColorlessWhite,
    ColorlessBlue,
    ColorlessBlack,
    ColorlessRed,
    ColorlessGreen,
}

/// The text of a mana symbol between its braces.
pub open spec fn shard_symbol(s: ManaCostShard) -> Seq<char> {
    match s {
        ManaCostShard::White => "W"@,
        ManaCostShard::Blue => "U"@,
        ManaCostShard::Black => "B"@,
        ManaCostShard::Red => "R"@,
        ManaCostShard::Green => "G"@,
        ManaCostShard::Colorless => "C"@,
        ManaCostShard::Snow => "S"@,
        ManaCostShard::X => "X"@,
        ManaCostShard::TwoOrMoreColorSource => "Z"@,
        ManaCostShard::WhiteBlue => "W/U"@,
        ManaCostShard::WhiteBlack => "W/B"@,
        ManaCostShard::BlueBlack => "U/B"@,
        ManaCostShard::BlueRed => "U/R"@,
        ManaCostShard::BlackRed => "B/R"@,
        ManaCostShard::BlackGreen => "B/G"@,
        ManaCostShard::RedWhite => "R/W"@,
        ManaCostShard::RedGreen => "R/G"@,
        ManaCostShard::GreenWhite => "G/W"@,
        ManaCostShard::GreenBlue => "G/U"@,
        ManaCostShard::TwoWhite => "2/W"@,
        ManaCostShard::TwoBlue => "2/U"@,
        ManaCostShard::TwoBlack => "2/B"@,
        ManaCostShard::TwoRed => "2/R"@,
        ManaCostShard::TwoGreen => "2/G"@,
        ManaCostShard::PhyrexianWhite => "W/P"@,
        ManaCostShard::PhyrexianBlue => "U/P"@,
        ManaCostShard::PhyrexianBlack => "B/P"@,
        ManaCostShard::PhyrexianRed => "R/P"@,
        ManaCostShard::PhyrexianGreen => "G/P"@,
        ManaCostShard::PhyrexianWhiteBlue => "W/U/P"@,
        ManaCostShard::PhyrexianWhiteBlack => "W/B/P"@,
        ManaCostShard::PhyrexianBlueBlack => "U/B/P"@,
        ManaCostShard::PhyrexianBlueRed => "U/R/P"@,
        ManaCostShard::PhyrexianBlackRed => "B/R/P"@,
        ManaCostShard::PhyrexianBlackGreen => "B/G/P"@,
        ManaCostShard::PhyrexianRedWhite => "R/W/P"@,
        ManaCostShard::PhyrexianRedGreen => "R/G/P"@,
        ManaCostShard::PhyrexianGreenWhite => "G/W/P"@,
        ManaCostShard::PhyrexianGreenBlue => "G/U/P"@,
        ManaCostShard::ColorlessWhite => "C/W"@,
        ManaCostShard::ColorlessBlue => "C/U"@,
        ManaCostShard::ColorlessBlack => "C/B"@,
        ManaCostShard::ColorlessRed => "C/R"@,
        ManaCostShard::ColorlessGreen => "C/G"@,
    }
}

/// The colors a mana symbol names (CR 107.4): none, one or two.
pub open spec fn shard_colors(s: ManaCostShard) -> Seq<ManaColor> {
    match s {
        ManaCostShard::White => seq![ManaColor::White],
        ManaCostShard::Blue => seq![ManaColor::Blue],
        ManaCostShard::Black => seq![ManaColor::Black],
        ManaCostShard::Red => seq![ManaColor::Red],
        ManaCostShard::Green => seq![ManaColor::Green],
        ManaCostShard::Colorless => seq![],
        ManaCostShard::Snow => seq![],
        ManaCostShard::X => seq![],
        ManaCostShard::TwoOrMoreColorSource => seq![],
        ManaCostShard::WhiteBlue => seq![ManaColor::White, ManaColor::Blue],
        ManaCostShard::WhiteBlack => seq![ManaColor::White, ManaColor::Black],
        ManaCostShard::BlueBlack => seq![ManaColor::Blue, ManaColor::Black],
        ManaCostShard::BlueRed => seq![ManaColor::Blue, ManaColor::Red],
        ManaCostShard::BlackRed => seq![ManaColor::Black, ManaColor::Red],
        ManaCostShard::BlackGreen => seq![ManaColor::Black, ManaColor::Green],
        ManaCostShard::RedWhite => seq![ManaColor::Red, ManaColor::White],
        ManaCostShard::RedGreen => seq![ManaColor::Red, ManaColor::Green],
        ManaCostShard::GreenWhite => seq![ManaColor::Green, ManaColor::White],
        ManaCostShard::GreenBlue => seq![ManaColor::Green, ManaColor::Blue],
        ManaCostShard::TwoWhite => seq![ManaColor::White],
        ManaCostShard::TwoBlue => seq![ManaColor::Blue],
        ManaCostShard::TwoBlack => seq![ManaColor::Black],
        ManaCostShard::TwoRed => seq![ManaColor::Red],
        ManaCostShard::TwoGreen => seq![ManaColor::Green],
        ManaCostShard::PhyrexianWhite => seq![ManaColor::White],
        ManaCostShard::PhyrexianBlue => seq![ManaColor::Blue],
        ManaCostShard::PhyrexianBlack => seq![ManaColor::Black],
        ManaCostShard::PhyrexianRed => seq![ManaColor::Red],
        ManaCostShard::PhyrexianGreen => seq![ManaColor::Green],
        ManaCostShard::PhyrexianWhiteBlue => seq![ManaColor::White, ManaColor::Blue],
        ManaCostShard::PhyrexianWhiteBlack => seq![ManaColor::White, ManaColor::Black],
        ManaCostShard::PhyrexianBlueBlack => seq![ManaColor::Blue, ManaColor::Black],
        ManaCostShard::PhyrexianBlueRed => seq![ManaColor::Blue, ManaColor::Red],
        ManaCostShard::PhyrexianBlackRed => seq![ManaColor::Black, ManaColor::Red],
        ManaCostShard::PhyrexianBlackGreen => seq![ManaColor::Black, ManaColor::Green],
        ManaCostShard::PhyrexianRedWhite => seq![ManaColor::Red, ManaColor::White],
        ManaCostShard::PhyrexianRedGreen => seq![ManaColor::Red, ManaColor::Green],
        ManaCostShard::PhyrexianGreenWhite => seq![ManaColor::Green, ManaColor::White],
        ManaCostShard::PhyrexianGreenBlue => seq![ManaColor::Green, ManaColor::Blue],
        ManaCostShard::ColorlessWhite => seq![ManaColor::White],
        ManaCostShard::ColorlessBlue => seq![ManaColor::Blue],
        ManaCostShard::ColorlessBlack => seq![ManaColor::Black],
        ManaCostShard::ColorlessRed => seq![ManaColor::Red],
        ManaCostShard::ColorlessGreen => seq![ManaColor::Green],
    }
}

/// CR 202.3e-g: what a symbol adds to a mana value: 2 for a two-generic
/// hybrid symbol, 0 for {X}, 1 for every other symbol.
pub open spec fn shard_mana_value(s: ManaCostShard) -> nat {
    match s {
        ManaCostShard::TwoWhite | ManaCostShard::TwoBlue | ManaCostShard::TwoBlack
        | ManaCostShard::TwoRed | ManaCostShard::TwoGreen => 2,
        ManaCostShard::X => 0,
        _ => 1,
    }
}

impl ManaCostShard {
    /// CR 700.5: whether this symbol counts toward devotion to `color`, that
    /// is, whether the symbol is or contains that color.
    pub fn contributes_to(&self, color: ManaColor) -> (r: bool)
        ensures
            r == shard_colors(*self).contains(color),
    {
        let r = match color {
            ManaColor::White => matches!(
                self,
                Self::White
                | Self::WhiteBlue
                | Self::WhiteBlack
                | Self::RedWhite
                | Self::GreenWhite
                | Self::TwoWhite
                | Self::PhyrexianWhite
                | Self::PhyrexianWhiteBlue
                | Self::PhyrexianWhiteBlack
                | Self::PhyrexianRedWhite
                | Self::PhyrexianGreenWhite
                | Self::ColorlessWhite
            ),
            ManaColor::Blue => matches!(
                self,
                Self::Blue
                | Self::WhiteBlue
                | Self::BlueBlack
                | Self::BlueRed
                | Self::GreenBlue
                | Self::TwoBlue
                | Self::PhyrexianBlue
                | Self::PhyrexianWhiteBlue
                | Self::PhyrexianBlueBlack
                | Self::PhyrexianBlueRed
                | Self::PhyrexianGreenBlue
                | Self::ColorlessBlue
            ),
            ManaColor::Black => matches!(
                self,
                Self::Black
                | Self::WhiteBlack
                | Self::BlueBlack
                | Self::BlackRed
                | Self::BlackGreen
                | Self::TwoBlack
                | Self::PhyrexianBlack
                | Self::PhyrexianWhiteBlack
                | Self::PhyrexianBlueBlack
                | Self::PhyrexianBlackRed
                | Self::PhyrexianBlackGreen
                | Self::ColorlessBlack
            ),
            ManaColor::Red => matches!(
                self,
                Self::Red
                | Self::BlueRed
                | Self::BlackRed
                | Self::RedWhite
                | Self::RedGreen
                | Self::TwoRed
                | Self::PhyrexianRed
                | Self::PhyrexianBlueRed
                | Self::PhyrexianBlackRed
                | Self::PhyrexianRedWhite
                | Self::PhyrexianRedGreen
                | Self::ColorlessRed
            ),
            ManaColor::Green => matches!(
                self,
                Self::Green
                | Self::BlackGreen
                | Self::RedGreen
                | Self::GreenWhite
                | Self::GreenBlue
                | Self::TwoGreen
                | Self::PhyrexianGreen
                | Self::PhyrexianBlackGreen
                | Self::PhyrexianRedGreen
                | Self::PhyrexianGreenWhite
                | Self::PhyrexianGreenBlue
                | Self::ColorlessGreen
            ),
        };
        proof {
            let cs = shard_colors(*self);
            if cs.len() == 1 {
                assert(cs.contains(color) <==> cs[0] == color);
            } else if cs.len() == 2 {
                assert(cs.contains(color) <==> (cs[0] == color || cs[1] == color));
            } else {
                assert(!cs.contains(color));
            }
        }
        r
    }

    /// CR 202.3: what this symbol adds to a mana value.
    pub fn mana_value_contribution(&self) -> (r: u32)
        ensures
            r == shard_mana_value(*self),
    {
        match self {
            Self::TwoWhite | Self::TwoBlue | Self::TwoBlack | Self::TwoRed | Self::TwoGreen => 2,
            Self::X => 0,
            _ => 1,
        }
    }

    /// Reads a mana symbol from its text between braces ("W", "2/U", "G/W/P").
    pub fn parse_symbol(s: &str) -> (r: Result<ManaCostShard, String>)
        ensures
            match r {
                Ok(shard) => shard_symbol(shard) == s@,
                Err(e) => (forall|shard: ManaCostShard| shard_symbol(shard) != s@) && e@
                    == "Unknown mana cost shard: "@ + s@,
            },
    {
        if str_eq(s, "W") {
            Ok(ManaCostShard::White)
        } else if str_eq(s, "U") {
            Ok(ManaCostShard::Blue)
        } else if str_eq(s, "B") {
            Ok(ManaCostShard::Black)
        } else if str_eq(s, "R") {
            Ok(ManaCostShard::Red)
        } else if str_eq(s, "G") {
            Ok(ManaCostShard::Green)
        } else if str_eq(s, "C") {
            Ok(ManaCostShard::Colorless)
        } else if str_eq(s, "S") {
            Ok(ManaCostShard::Snow)
        } else if str_eq(s, "X") {
            Ok(ManaCostShard::X)
        } else if str_eq(s, "Z") {
            Ok(ManaCostShard::TwoOrMoreColorSource)
        } else if str_eq(s, "W/U") {
            Ok(ManaCostShard::WhiteBlue)
        } else if str_eq(s, "W/B") {
            Ok(ManaCostShard::WhiteBlack)
        } else if str_eq(s, "U/B") {
            Ok(ManaCostShard::BlueBlack)
        } else if str_eq(s, "U/R") {
            Ok(ManaCostShard::BlueRed)
        } else if str_eq(s, "B/R") {
            Ok(ManaCostShard::BlackRed)
        } else if str_eq(s, "B/G") {
            Ok(ManaCostShard::BlackGreen)
        } else if str_eq(s, "R/W") {
            Ok(ManaCostShard::RedWhite)
        } else if str_eq(s, "R/G") {
            Ok(ManaCostShard::RedGreen)
        } else if str_eq(s, "G/W") {
            Ok(ManaCostShard::GreenWhite)
        } else if str_eq(s, "G/U") {
            Ok(ManaCostShard::GreenBlue)
        } else if str_eq(s, "2/W") {
            Ok(ManaCostShard::TwoWhite)
        } else if str_eq(s, "2/U") {
            Ok(ManaCostShard::TwoBlue)
        } else if str_eq(s, "2/B") {
            Ok(ManaCostShard::TwoBlack)
        } else if str_eq(s, "2/R") {
            Ok(ManaCostShard::TwoRed)
        } else if str_eq(s, "2/G") {
            Ok(ManaCostShard::TwoGreen)
        } else if str_eq(s, "W/P") {
            Ok(ManaCostShard::PhyrexianWhite)
        } else if str_eq(s, "U/P") {
            Ok(ManaCostShard::PhyrexianBlue)
        } else if str_eq(s, "B/P") {
            Ok(ManaCostShard::PhyrexianBlack)
        } else if str_eq(s, "R/P") {
            Ok(ManaCostShard::PhyrexianRed)
        } else if str_eq(s, "G/P") {
            Ok(ManaCostShard::PhyrexianGreen)
        } else if str_eq(s, "W/U/P") {
            Ok(ManaCostShard::PhyrexianWhiteBlue)
        } else if str_eq(s, "W/B/P") {
            Ok(ManaCostShard::PhyrexianWhiteBlack)
        } else if str_eq(s, "U/B/P") {
            Ok(ManaCostShard::PhyrexianBlueBlack)
        } else if str_eq(s, "U/R/P") {
            Ok(ManaCostShard::PhyrexianBlueRed)
        } else if str_eq(s, "B/R/P") {
            Ok(ManaCostShard::PhyrexianBlackRed)
        } else if str_eq(s, "B/G/P") {
            Ok(ManaCostShard::PhyrexianBlackGreen)
        } else if str_eq(s, "R/W/P") {
            Ok(ManaCostShard::PhyrexianRedWhite)
        } else if str_eq(s, "R/G/P") {
            Ok(ManaCostShard::PhyrexianRedGreen)
        } else if str_eq(s, "G/W/P") {
            Ok(ManaCostShard::PhyrexianGreenWhite)
        } else if str_eq(s, "G/U/P") {
            Ok(ManaCostShard::PhyrexianGreenBlue)
        } else if str_eq(s, "C/W") {
            Ok(ManaCostShard::ColorlessWhite)
        } else if str_eq(s, "C/U") {
            Ok(ManaCostShard::ColorlessBlue)
        } else if str_eq(s, "C/B") {
            Ok(ManaCostShard::ColorlessBlack)
        } else if str_eq(s, "C/R") {
            Ok(ManaCostShard::ColorlessRed)
        } else if str_eq(s, "C/G") {
            Ok(ManaCostShard::ColorlessGreen)
        } else {
            let mut e = string_of("Unknown mana cost shard: ");
            append_str(&mut e, s);
            Err(e)
        }
    }
}

impl std::str::FromStr for ManaCostShard {
    type Err = String;

    fn from_str(s: &str) -> (r: Result<Self, String>)
        ensures
            match r {
                Ok(shard) => shard_symbol(shard) == s@,
                Err(e) => (forall|shard: ManaCostShard| shard_symbol(shard) != s@) && e@
                    == "Unknown mana cost shard: "@ + s@,
            },
    {
        ManaCostShard::parse_symbol(s)
    }
}

/// A mana cost (CR 202.1).
#[derive(Debug, Clone, PartialEq, Eq)]
pub enum ManaCost {
    NoCost,
    Cost { shards: Vec<ManaCostShard>, generic: u32 },
    /// The card's own mana cost ("the flashback cost is equal to its mana cost").
    SelfManaCost,
}

/// Mathematical view of a mana cost.
pub enum ManaCostView {
    NoCost,
    Cost { shards: Seq<ManaCostShard>, generic: u32 },
    SelfManaCost,
}

impl View for ManaCost {
    type V = ManaCostView;

    open spec fn view(&self) -> ManaCostView {
        match self {
            ManaCost::NoCost => ManaCostView::NoCost,
            ManaCost::Cost { shards, generic } => ManaCostView::Cost {
                shards: shards@,
                generic: *generic,
            },
            ManaCost::SelfManaCost => ManaCostView::SelfManaCost,
        }
    }
}

/// The symbols of a cost (none unless it is a `Cost`).
pub open spec fn cost_shards(c: ManaCostView) -> Seq<ManaCostShard> {
    match c {
        ManaCostView::Cost { shards, .. } => shards,
        _ => Seq::empty(),
    }
}

/// The generic amount of a cost (zero unless it is a `Cost`).
pub open spec fn cost_generic(c: ManaCostView) -> nat {
    match c {
        ManaCostView::Cost { generic, .. } => generic as nat,
        _ => 0,
    }
}

/// Sum of the symbols' contributions to a mana value.
pub open spec fn shards_value(s: Seq<ManaCostShard>) -> nat
    decreases s.len(),
{
    if s.len() == 0 {
        0
    } else {
        shards_value(s.drop_last()) + shard_mana_value(s.last())
    }
}

/// CR 202.3: the mana value of a cost; zero for `NoCost` and `SelfManaCost`.
pub open spec fn mana_value_of(c: ManaCostView) -> nat {
    shards_value(cost_shards(c)) + cost_generic(c)
}

/// `s` repeated `k` times.
pub open spec fn repeat_shards(s: Seq<ManaCostShard>, k: nat) -> Seq<ManaCostShard>
    decreases k,
{
    if k == 0 {
        Seq::empty()
    } else {
        repeat_shards(s, (k - 1) as nat) + s
    }
}

pub open spec fn is_x(s: ManaCostShard) -> bool {
    s == ManaCostShard::X
}

/// The symbols other than {X}, in order.
pub open spec fn without_x(s: Seq<ManaCostShard>) -> Seq<ManaCostShard>
    decreases s.len(),
{
    if s.len() == 0 {
        s
    } else if is_x(s.last()) {
        without_x(s.drop_last())
    } else {
        without_x(s.drop_last()).push(s.last())
    }
}

/// Number of {X} symbols.
pub open spec fn x_count(s: Seq<ManaCostShard>) -> nat {
    count_where(s, |sh: ManaCostShard| is_x(sh))
}

pub proof fn lemma_shards_value_concat(a: Seq<ManaCostShard>, b: Seq<ManaCostShard>)
    ensures
        shards_value(a + b) == shards_value(a) + shards_value(b),
    decreases b.len(),
{
    if b.len() == 0 {
        assert(a + b =~= a);
    } else {
        assert((a + b).drop_last() =~= a + b.drop_last());
        lemma_shards_value_concat(a, b.drop_last());
    }
}

pub proof fn lemma_shards_value_prefix(s: Seq<ManaCostShard>, i: int)
    requires
        0 <= i <= s.len(),
    ensures
        shards_value(s.subrange(0, i)) <= shards_value(s),
{
    assert(s =~= s.subrange(0, i) + s.subrange(i, s.len() as int));
    lemma_shards_value_concat(s.subrange(0, i), s.subrange(i, s.len() as int));
}

pub proof fn lemma_repeat_value(s: Seq<ManaCostShard>, k: nat)
    ensures
        shards_value(repeat_shards(s, k)) == k * shards_value(s),
        repeat_shards(s, k).len() == k * s.len(),
    decreases k,
{
    if k > 0 {
        lemma_repeat_value(s, (k - 1) as nat);
        lemma_shards_value_concat(repeat_shards(s, (k - 1) as nat), s);
        assert(k * shards_value(s) == (k - 1) * shards_value(s) + shards_value(s)) by (nonlinear_arith);
        assert(k * s.len() == (k - 1) * s.len() + s.len()) by (nonlinear_arith);
    }
}

pub proof fn lemma_without_x_value(s: Seq<ManaCostShard>)
    ensures
        shards_value(without_x(s)) == shards_value(s),
        without_x(s).len() + x_count(s) == s.len(),
    decreases s.len(),
{
    if s.len() > 0 {
        lemma_without_x_value(s.drop_last());
        if !is_x(s.last()) {
            assert(without_x(s).drop_last() =~= without_x(s.drop_last()));
        }
    }
}

pub proof fn lemma_without_x_no_x(s: Seq<ManaCostShard>)
    requires
        x_count(s) == 0,
    ensures
        without_x(s) == s,
    decreases s.len(),
{
    if s.len() > 0 {
        lemma_without_x_no_x(s.drop_last());
        assert(without_x(s) =~= s);
    }
}

/// The combined cost of two costs (see `ManaCost::plus`).
pub open spec fn plus_view(a: ManaCostView, b: ManaCostView) -> ManaCostView {
    if a is NoCost && b is NoCost {
        ManaCostView::NoCost
    } else {
        ManaCostView::Cost {
            shards: cost_shards(a) + cost_shards(b),
            generic: (cost_generic(a) + cost_generic(b)) as u32,
        }
    }
}

/// A cost taken `factor` times (see `ManaCost::scaled`).
pub open spec fn scaled_view(c: ManaCostView, factor: u32) -> ManaCostView {
    if factor == 0 {
        ManaCostView::Cost { shards: Seq::empty(), generic: 0 }
    } else {
        match c {
            ManaCostView::Cost { shards, generic } => ManaCostView::Cost {
                shards: repeat_shards(shards, factor as nat),
                generic: (generic * factor) as u32,
            },
            _ => c,
        }
    }
}

/// A cost with each {X} replaced by `value` generic mana (see
/// `ManaCost::concretize_x`).
pub open spec fn concretized_view(c: ManaCostView, value: u32) -> ManaCostView {
    match c {
        ManaCostView::Cost { shards, generic } => ManaCostView::Cost {
            shards: without_x(shards),
            generic: (generic + value * x_count(shards)) as u32,
        },
        _ => c,
    }
}

impl ManaCost {
    /// The empty cost {0}.
    pub fn zero() -> (r: ManaCost)
        ensures
            r@ == (ManaCostView::Cost { shards: Seq::empty(), generic: 0 }),
    {
        ManaCost::Cost { shards: Vec::new(), generic: 0 }
    }

    /// A cost of only generic mana, such as {3}.
    pub fn generic(amount: u32) -> (r: ManaCost)
        ensures
            r@ == (ManaCostView::Cost { shards: Seq::empty(), generic: amount }),
    {
        ManaCost::Cost { shards: Vec::new(), generic: amount }
    }

    /// CR 202.3: the mana value of this cost. CR 202.3e: {X} counts 0.
    /// CR 202.3f: a hybrid symbol counts its largest component.
    pub fn mana_value(&self) -> (r: u32)
        requires
            mana_value_of(self@) <= u32::MAX,
        ensures
            r == mana_value_of(self@),
    {
        match self {
            ManaCost::NoCost | ManaCost::SelfManaCost => 0,
            ManaCost::Cost { shards, generic } => {
                let mut total: u32 = 0;
                let mut i: usize = 0;
                while i < shards.len()
                    invariant
                        i <= shards@.len(),
                        total == shards_value(shards@.subrange(0, i as int)),
                        shards_value(shards@) + *generic <= u32::MAX,
                    decreases shards@.len() - i,
                {
                    proof {
                        assert(shards@.subrange(0, i + 1).drop_last() =~= shards@.subrange(
                            0,
                            i as int,
                        ));
                        lemma_shards_value_prefix(shards@, i + 1);
                    }
                    total = total + shards[i].mana_value_contribution();
                    i = i + 1;
                }
                assert(shards@.subrange(0, shards@.len() as int) =~= shards@);
                total + *generic
            },
        }
    }

    /// CR 508.1h + CR 509.1d: the combined cost of two costs: the symbols
    /// side by side and the generic amounts added. The sum of two `NoCost`
    /// costs is `NoCost`; otherwise `NoCost` and `SelfManaCost` count as the
    /// empty cost.
    pub fn plus(&self, other: &ManaCost) -> (r: ManaCost)
        requires
            cost_generic(self@) + cost_generic(other@) <= u32::MAX,
        ensures
            r@ == plus_view(self@, other@),
    {
        if matches!(self, ManaCost::NoCost) && matches!(other, ManaCost::NoCost) {
            return ManaCost::NoCost;
        }
        let mut shards: Vec<ManaCostShard> = Vec::new();
        let mut generic: u32 = 0;
        match self {
            ManaCost::Cost { shards: a, generic: g } => {
                push_all_shards(&mut shards, a);
                generic = *g;
            },
            _ => {},
        }
        match other {
            ManaCost::Cost { shards: b, generic: g } => {
                push_all_shards(&mut shards, b);
                generic = generic + *g;
            },
            _ => {},
        }
        assert(shards@ =~= cost_shards(self@) + cost_shards(other@));
        ManaCost::Cost { shards, generic }
    }

    /// CR 508.1h: this cost taken `factor` times: the symbols repeated and
    /// the generic amount multiplied. A factor of zero gives the empty cost;
    /// `NoCost` and `SelfManaCost` are unchanged by a positive factor.
    pub fn scaled(&self, factor: u32) -> (r: ManaCost)
        requires
            cost_generic(self@) * factor <= u32::MAX,
        ensures
            r@ == scaled_view(self@, factor),
    {
        if factor == 0 {
            return ManaCost::zero();
        }
        match self {
            ManaCost::Cost { shards, generic } => {
                let mut scaled_shards: Vec<ManaCostShard> = Vec::new();
                let mut k: u32 = 0;
                while k < factor
                    invariant
                        k <= factor,
                        scaled_shards@ == repeat_shards(shards@, k as nat),
                    decreases factor - k,
                {
                    push_all_shards(&mut scaled_shards, shards);
                    k = k + 1;
                }
                ManaCost::Cost { shards: scaled_shards, generic: *generic * factor }
            },
            ManaCost::NoCost => ManaCost::NoCost,
            ManaCost::SelfManaCost => ManaCost::SelfManaCost,
        }
    }

    /// CR 107.1b + CR 601.2f: replaces every {X} symbol by `value` generic
    /// mana once the value of X is chosen.
    pub fn concretize_x(&mut self, value: u32)
        requires
            cost_generic(old(self)@) + value * x_count(cost_shards(old(self)@)) <= u32::MAX,
        ensures
            final(self)@ == concretized_view(old(self)@, value),
    {
        match self {
            ManaCost::Cost { shards, generic } => {
                let ghost s0 = shards@;
                let mut kept: Vec<ManaCostShard> = Vec::new();
                let mut count: usize = 0;
                let mut i: usize = 0;
                while i < shards.len()
                    invariant
                        shards@ == s0,
                        i <= s0.len(),
                        kept@ == without_x(s0.subrange(0, i as int)),
                        count == x_count(s0.subrange(0, i as int)),
                        count <= i,
                    decreases s0.len() - i,
                {
                    proof {
                        assert(s0.subrange(0, i + 1).drop_last() =~= s0.subrange(0, i as int));
                        crate::seqs::lemma_count_push(
                            s0.subrange(0, i as int),
                            s0[i as int],
                            |sh: ManaCostShard| is_x(sh),
                        );
                    }
                    let sh = shards[i];
                    if matches!(sh, ManaCostShard::X) {
                        count = count + 1;
                    } else {
                        kept.push(sh);
                    }
                    i = i + 1;
                }
                assert(s0.subrange(0, s0.len() as int) =~= s0);
                if count == 0 {
                    proof {
                        lemma_without_x_no_x(s0);
                        assert(x_count(s0) == 0);
                        assert(value * x_count(s0) == 0) by (nonlinear_arith)
                            requires
                                x_count(s0) == 0,
                        ;
                    }
                    return;
                }
                assert(count as int <= value * count || value == 0) by (nonlinear_arith)
                    requires
                        count > 0,
                ;
                assert(value * (count as u32) == value * count) by (nonlinear_arith)
                    requires
                        count as int <= value * count || value == 0,
                        *generic + value * count <= u32::MAX,
                ;
                let add: u32 = value * (count as u32);
                *shards = kept;
                *generic = *generic + add;
            },
            _ => {},
        }
    }

    /// An exact copy of this cost.
    pub fn copy(&self) -> (r: ManaCost)
        ensures
            r@ == self@,
    {
        match self {
            ManaCost::NoCost => ManaCost::NoCost,
            ManaCost::Cost { shards, generic } => {
                let mut v: Vec<ManaCostShard> = Vec::new();
                push_all_shards(&mut v, shards);
                assert(v@ =~= shards@);
                ManaCost::Cost { shards: v, generic: *generic }
            },
            ManaCost::SelfManaCost => ManaCost::SelfManaCost,
        }
    }
}

/// Appends copies of the symbols of `src`.
fn push_all_shards(dst: &mut Vec<ManaCostShard>, src: &Vec<ManaCostShard>)
    ensures
        final(dst)@ == old(dst)@ + src@,
{
    let mut i: usize = 0;
    while i < src.len()
        invariant
            i <= src@.len(),
            dst@ == old(dst)@ + src@.subrange(0, i as int),
        decreases src@.len() - i,
    {
        let sh = src[i];
        dst.push(sh);
        i = i + 1;
        assert(dst@ =~= old(dst)@ + src@.subrange(0, i as int));
    }
    assert(src@.subrange(0, src@.len() as int) =~= src@);
}

impl Default for ManaCost {
    fn default() -> (r: ManaCost)
        ensures
            r@ == (ManaCostView::Cost { shards: Seq::empty(), generic: 0 }),
    {
        ManaCost::zero()
    }
}

// ---------------------------------------------------------------------------
// Per-color tallies
// ---------------------------------------------------------------------------
/// CR 601.2h: how much mana of each color was spent to cast an object.
#[derive(Debug, Clone, Copy, Default, PartialEq, Eq, Structural)]
pub struct ColoredManaCount {
    pub white: u32,
    pub blue: u32,
    pub black: u32,
    pub red: u32,
    pub green: u32,
}

/// The tally of one color.
pub open spec fn tally(c: ColoredManaCount, color: ManaColor) -> u32 {
    match color {
        ManaColor::White => c.white,
        ManaColor::Blue => c.blue,
        ManaColor::Black => c.black,
        ManaColor::Red => c.red,
        ManaColor::Green => c.green,
    }
}

/// CR 202.2: number of colors with a positive tally.
pub open spec fn distinct_colors_of(c: ColoredManaCount) -> nat {
    (if c.white > 0 { 1nat } else { 0nat }) + (if c.blue > 0 { 1nat } else { 0nat }) + (if c.black
        > 0 { 1nat } else { 0nat }) + (if c.red > 0 { 1nat } else { 0nat }) + (if c.green > 0 {
        1nat
    } else {
        0nat
    })
}

impl ColoredManaCount {
    /// An all-zero tally.
    pub fn new() -> (r: ColoredManaCount)
        ensures
            forall|color: ManaColor| tally(r, color) == 0,
    {
        ColoredManaCount { white: 0, blue: 0, black: 0, red: 0, green: 0 }
    }

    pub fn get(&self, color: ManaColor) -> (r: u32)
        ensures
            r == tally(*self, color),
    {
        match color {
            ManaColor::White => self.white,
            ManaColor::Blue => self.blue,
            ManaColor::Black => self.black,
            ManaColor::Red => self.red,
            ManaColor::Green => self.green,
        }
    }

    /// Adds `n` to the tally of `color`.
    pub fn add(&mut self, color: ManaColor, n: u32)
        requires
            tally(*old(self), color) + n <= u32::MAX,
        ensures
            tally(*final(self), color) == tally(*old(self), color) + n,
            forall|other: ManaColor|
                other != color ==> tally(*final(self), other) == tally(*old(self), other),
    {
        match color {
            ManaColor::White => self.white = self.white + n,
            ManaColor::Blue => self.blue = self.blue + n,
            ManaColor::Black => self.black = self.black + n,
            ManaColor::Red => self.red = self.red + n,
            ManaColor::Green => self.green = self.green + n,
        }
    }

    /// CR 207.2c: counts one unit of mana toward its color; colorless mana
    /// is not counted.
    pub fn add_unit(&mut self, unit: &ManaUnit)
        requires
            color_of_type(unit.color) matches Some(c) ==> tally(*old(self), c) < u32::MAX,
        ensures
            match color_of_type(unit.color) {
                Some(c) => tally(*final(self), c) == tally(*old(self), c) + 1 && forall|
                    other: ManaColor,
                | other != c ==> tally(*final(self), other) == tally(*old(self), other),
                None => *final(self) == *old(self),
            },
    {
        let color = match unit.color {
            ManaType::White => ManaColor::White,
            ManaType::Blue => ManaColor::Blue,
            ManaType::Black => ManaColor::Black,
            ManaType::Red => ManaColor::Red,
            ManaType::Green => ManaColor::Green,
            ManaType::Colorless => return,
        };
        self.add(color, 1);
    }

    /// Whether no color has a positive tally.
    pub fn is_empty(&self) -> (r: bool)
        ensures
            r == forall|color: ManaColor| tally(*self, color) == 0,
    {
        let r = self.white == 0 && self.blue == 0 && self.black == 0 && self.red == 0
            && self.green == 0;
        proof {
            if !r {
                if self.white != 0 {
                    assert(tally(*self, ManaColor::White) != 0);
                } else if self.blue != 0 {
                    assert(tally(*self, ManaColor::Blue) != 0);
                } else if self.black != 0 {
                    assert(tally(*self, ManaColor::Black) != 0);
                } else if self.red != 0 {
                    assert(tally(*self, ManaColor::Red) != 0);
                } else {
                    assert(tally(*self, ManaColor::Green) != 0);
                }
            }
        }
        r
    }

    /// CR 202.2: the number of distinct colors with a positive tally.
    pub fn distinct_colors(&self) -> (r: usize)
        ensures
            r == distinct_colors_of(*self),
            r <= 5,
    {
        let colors = all_mana_colors();
        let mut n: usize = 0;
        let mut i: usize = 0;
        while i < 5
            invariant
                i <= 5,
                colors@ == seq![
                    ManaColor::White,
                    ManaColor::Blue,
                    ManaColor::Black,
                    ManaColor::Red,
                    ManaColor::Green,
                ],
                n <= i,
                n == (if i > 0 && self.white > 0 { 1nat } else { 0nat }) + (if i > 1 && self.blue
                    > 0 { 1nat } else { 0nat }) + (if i > 2 && self.black > 0 { 1nat } else { 0nat })
                    + (if i > 3 && self.red > 0 { 1nat } else { 0nat }) + (if i > 4 && self.green > 0 {
                    1nat
                } else {
                    0nat
                }),
            decreases 5 - i,
        {
            if self.get(colors[i]) > 0 {
                n = n + 1;
            }
            i = i + 1;
        }
        n
    }
}

// ---------------------------------------------------------------------------
// Mana units and the mana pool
// ---------------------------------------------------------------------------
/// CR 106.6: an effect the mana confers on the spell it is spent on.
#[derive(Debug, Clone, PartialEq, Eq)]
pub enum ManaSpellGrant {
    /// The spell can't be countered.
    CantBeCountered,
    /// If the spell satisfies `restriction`, it gains `keyword` until end of turn.
    AddKeywordUntilEndOfTurn { keyword: Keyword, restriction: Option<ManaRestriction> },
}

/// When mana leaves the pool other than at the usual step and phase ends.
#[derive(Debug, Clone, Copy, PartialEq, Eq, Structural)]
pub enum ManaExpiry {
    /// Stays through step and phase ends until the cleanup step.
    EndOfTurn,
    /// Stays through the combat steps, leaves when combat ends.
    EndOfCombat,
}

/// One unit of mana in a mana pool (CR 106.4).
#[derive(Debug, Clone, PartialEq, Eq)]
pub struct ManaUnit {
    pub color: ManaType,
    pub source_id: ObjectId,
    pub snow: bool,
    /// Produced by a source that could produce two or more colors ({Z}).
    pub source_could_produce_two_or_more_colors: bool,
    pub restrictions: Vec<ManaRestriction>,
    /// CR 106.6: properties granted to the spell this mana is spent on.
    pub grants: Vec<ManaSpellGrant>,
    pub expiry: Option<ManaExpiry>,
}

/// The unit is the marker of a convoke tap.
pub open spec fn is_convoke_unit(u: ManaUnit) -> bool {
    u.restrictions@.contains(ManaRestriction::ConvokePayment)
}

impl ManaUnit {
    /// A standard unit with no expiry and no grants.
    pub fn new(color: ManaType, source_id: ObjectId, snow: bool, restrictions: Vec<
        ManaRestriction,
    >) -> (r: ManaUnit)
        ensures
            r.color == color,
            r.source_id == source_id,
            r.snow == snow,
            !r.source_could_produce_two_or_more_colors,
            r.restrictions@ == restrictions@,
            r.grants@.len() == 0,
            r.expiry is None,
    {
        ManaUnit {
            color,
            source_id,
            snow,
            source_could_produce_two_or_more_colors: false,
            restrictions,
            grants: Vec::new(),
            expiry: None,
        }
    }

    /// CR 702.51a: the marker of a convoke tap that pays for one symbol.
    pub fn convoke_payment(color: ManaType, source_id: ObjectId) -> (r: ManaUnit)
        ensures
            r.color == color,
            r.source_id == source_id,
            !r.snow,
            !r.source_could_produce_two_or_more_colors,
            r.restrictions@ == seq![ManaRestriction::ConvokePayment],
            r.grants@.len() == 0,
            r.expiry is None,
    {
        let mut restrictions: Vec<ManaRestriction> = Vec::new();
        restrictions.push(ManaRestriction::ConvokePayment);
        ManaUnit {
            color,
            source_id,
            snow: false,
            source_could_produce_two_or_more_colors: false,
            restrictions,
            grants: Vec::new(),
            expiry: None,
        }
    }

    /// Whether this unit is a convoke marker rather than produced mana.
    pub fn is_convoke_payment(&self) -> (r: bool)
        ensures
            r == is_convoke_unit(*self),
    {
        let mut i: usize = 0;
        while i < self.restrictions.len()
            invariant
                i <= self.restrictions@.len(),
                forall|j: int|
                    0 <= j < i ==> self.restrictions@[j] != ManaRestriction::ConvokePayment,
            decreases self.restrictions@.len() - i,
        {
            if matches!(self.restrictions[i], ManaRestriction::ConvokePayment) {
                return true;
            }
            i = i + 1;
        }
        false
    }
}

/// A player's mana pool (CR 106.4).
#[derive(Debug, Clone, PartialEq, Eq)]
pub struct ManaPool {
    pub mana: Vec<ManaUnit>,
}

pub open spec fn has_color(c: ManaType) -> spec_fn(ManaUnit) -> bool {
    |u: ManaUnit| u.color == c
}

pub open spec fn is_produced() -> spec_fn(ManaUnit) -> bool {
    |u: ManaUnit| !is_convoke_unit(u)
}

pub open spec fn is_unrestricted() -> spec_fn(ManaUnit) -> bool {
    |u: ManaUnit| u.restrictions@.len() == 0
}

/// Units of mana of a color.
pub open spec fn count_color_of(s: Seq<ManaUnit>, c: ManaType) -> nat {
    count_where(s, has_color(c))
}

/// Whether a step-end handler reacts to mana of a type.
pub open spec fn handler_applies(h: StepEndManaHandler, t: ManaType) -> bool {
    match h.filter {
        None => true,
        Some(c) => mana_type_of(c) == t,
    }
}

/// The action of the first handler in the list that reacts to the type.
pub open spec fn first_handler_action(hs: Seq<StepEndManaHandler>, t: ManaType) -> Option<
    StepEndManaAction,
>
    decreases hs.len(),
{
    if hs.len() == 0 {
        None
    } else if handler_applies(hs[0], t) {
        Some(hs[0].action)
    } else {
        first_handler_action(hs.drop_first(), t)
    }
}

/// CR 106.4 + CR 614.1a + CR 703.4q: what becomes of one unit when the pool
/// empties at a step or phase end. A unit with an expiry follows it (end of
/// turn: kept unless entering cleanup; end of combat: kept while in combat).
/// Any other unit meets the first handler that reacts to its type: it is
/// kept, or kept as the new type; with no such handler it leaves.
pub open spec fn step_end_result(
    u: ManaUnit,
    in_combat: bool,
    entering_cleanup: bool,
    hs: Seq<StepEndManaHandler>,
) -> Option<ManaUnit> {
    match u.expiry {
        Some(ManaExpiry::EndOfTurn) => if !entering_cleanup {
            Some(u)
        } else {
            None
        },
        Some(ManaExpiry::EndOfCombat) => if in_combat {
            Some(u)
        } else {
            None
        },
        None => match first_handler_action(hs, u.color) {
            Some(StepEndManaAction::Retain) => Some(u),
            Some(StepEndManaAction::Transform(t)) => Some(ManaUnit { color: t, ..u }),
            None => None,
        },
    }
}

/// The pool after a step or phase end, units kept in their order.
pub open spec fn step_end_pool(
    s: Seq<ManaUnit>,
    in_combat: bool,
    entering_cleanup: bool,
    hs: Seq<StepEndManaHandler>,
) -> Seq<ManaUnit>
    decreases s.len(),
{
    if s.len() == 0 {
        s
    } else {
        let rest = step_end_pool(s.drop_last(), in_combat, entering_cleanup, hs);
        match step_end_result(s.last(), in_combat, entering_cleanup, hs) {
            Some(v) => rest.push(v),
            None => rest,
        }
    }
}

/// The pool with the first `n` unrestricted units removed, others in order.
pub open spec fn without_unrestricted(s: Seq<ManaUnit>, n: nat) -> Seq<ManaUnit>
    decreases s.len(),
{
    if s.len() == 0 {
        s
    } else if n > 0 && s[0].restrictions@.len() == 0 {
        without_unrestricted(s.drop_first(), (n - 1) as nat)
    } else {
        seq![s[0]] + without_unrestricted(s.drop_first(), n)
    }
}

/// The pool after `Vec::swap_remove` at position `p`.
pub open spec fn swap_removed(s: Seq<ManaUnit>, p: int) -> Seq<ManaUnit> {
    s.update(p, s.last()).drop_last()
}

/// Every restriction of the unit allows the payment.
pub open spec fn restrictions_allow(rs: Seq<ManaRestriction>, ctx: PaymentContext) -> bool {
    forall|i: int| 0 <= i < rs.len() ==> allows_spec(#[trigger] rs[i], ctx)
}

/// CR 106.6: unrestricted mana of the color.
pub open spec fn free_of_color(c: ManaType) -> spec_fn(ManaUnit) -> bool {
    |u: ManaUnit| u.color == c && u.restrictions@.len() == 0
}

/// CR 106.6: restricted mana of the color whose restrictions all allow the payment.
pub open spec fn allowed_of_color(c: ManaType, ctx: PaymentContext) -> spec_fn(ManaUnit) -> bool {
    |u: ManaUnit| u.color == c && u.restrictions@.len() > 0 && restrictions_allow(u.restrictions@, ctx)
}

/// The source differs.
pub open spec fn not_from(id: ObjectId) -> spec_fn(ManaUnit) -> bool {
    |u: ManaUnit| u.source_id != id
}

impl Default for ManaPool {
    fn default() -> (r: ManaPool)
        ensures
            r.mana@.len() == 0,
    {
        ManaPool { mana: Vec::new() }
    }
}

/// Moves the contents out of a vector of units, leaving it empty.
fn take_units(v: &mut Vec<ManaUnit>) -> (r: Vec<ManaUnit>)
    ensures
        r@ == old(v)@,
        final(v)@.len() == 0,
{
    let mut r: Vec<ManaUnit> = Vec::new();
    std::mem::swap(&mut r, v);
    r
}

impl ManaPool {
    /// Adds a unit at the end of the pool.
    pub fn add(&mut self, unit: ManaUnit)
        ensures
            final(self).mana@ == old(self).mana@.push(unit),
    {
        self.mana.push(unit);
    }

    /// Units of mana of a type.
    pub fn count_color(&self, color: ManaType) -> (r: usize)
        ensures
            r == count_color_of(self.mana@, color),
    {
        let mut n: usize = 0;
        let mut i: usize = 0;
        while i < self.mana.len()
            invariant
                i <= self.mana@.len(),
                n == count_color_of(self.mana@.subrange(0, i as int), color),
                n <= i,
            decreases self.mana@.len() - i,
        {
            proof {
                assert(self.mana@.subrange(0, i + 1).drop_last() =~= self.mana@.subrange(
                    0,
                    i as int,
                ));
            }
            if self.mana[i].color == color {
                n = n + 1;
            }
            i = i + 1;
        }
        assert(self.mana@.subrange(0, self.mana@.len() as int) =~= self.mana@);
        n
    }

    /// Units in the pool.
    pub fn total(&self) -> (r: usize)
        ensures
            r == self.mana@.len(),
    {
        self.mana.len()
    }

    /// Units that are real mana, not convoke markers.
    pub fn produced_mana_total(&self) -> (r: usize)
        ensures
            r == count_where(self.mana@, is_produced()),
    {
        let mut n: usize = 0;
        let mut i: usize = 0;
        while i < self.mana.len()
            invariant
                i <= self.mana@.len(),
                n == count_where(self.mana@.subrange(0, i as int), is_produced()),
                n <= i,
            decreases self.mana@.len() - i,
        {
            proof {
                assert(self.mana@.subrange(0, i + 1).drop_last() =~= self.mana@.subrange(
                    0,
                    i as int,
                ));
            }
            if !self.mana[i].is_convoke_payment() {
                n = n + 1;
            }
            i = i + 1;
        }
        assert(self.mana@.subrange(0, self.mana@.len() as int) =~= self.mana@);
        n
    }

    /// Empties the pool.
    pub fn clear(&mut self)
        ensures
            final(self).mana@.len() == 0,
    {
        self.mana.clear();
    }

    /// CR 106.4 + CR 500.5 + CR 614.1a + CR 703.4q: empties the pool at a
    /// step or phase end: each unit follows its expiry if it has one, else the
    /// first handler that reacts to its type (keep, or keep as another type),
    /// else it leaves.
    pub fn clear_step_transition(
        &mut self,
        in_combat: bool,
        entering_cleanup: bool,
        step_end_handlers: &[StepEndManaHandler],
    )
        ensures
            final(self).mana@ == step_end_pool(
                old(self).mana@,
                in_combat,
                entering_cleanup,
                step_end_handlers@,
            ),
    {
        let ghost s0 = self.mana@;
        let n0 = self.mana.len();
        let mut rest = take_units(&mut self.mana);
        let mut i: usize = 0;
        while rest.len() > 0
            invariant
                n0 == s0.len(),
                i + rest@.len() == s0.len(),
                rest@ == s0.subrange(i as int, s0.len() as int),
                self.mana@ == step_end_pool(
                    s0.subrange(0, i as int),
                    in_combat,
                    entering_cleanup,
                    step_end_handlers@,
                ),
            decreases rest@.len(),
        {
            let mut u = rest.remove(0);
            proof {
                assert(s0.subrange(0, i + 1).drop_last() =~= s0.subrange(0, i as int));
                assert(s0.subrange(0, i + 1).last() == u);
                assert(rest@ =~= s0.subrange(i + 1, s0.len() as int));
            }
            let keep = match u.expiry {
                Some(ManaExpiry::EndOfTurn) => !entering_cleanup,
                Some(ManaExpiry::EndOfCombat) => in_combat,
                None => {
                    match first_matching_action(step_end_handlers, u.color) {
                        Some(StepEndManaAction::Retain) => true,
                        Some(StepEndManaAction::Transform(new_type)) => {
                            u.color = new_type;
                            true
                        },
                        None => false,
                    }
                },
            };
            if keep {
                self.mana.push(u);
            }
            i = i + 1;
        }
        assert(s0.subrange(0, s0.len() as int) =~= s0);
    }

    /// Removes every unit produced by `source_id`; returns how many left.
    pub fn remove_from_source(&mut self, source_id: ObjectId) -> (r: usize)
        ensures
            final(self).mana@ == old(self).mana@.filter(not_from(source_id)),
            r == old(self).mana@.len() - final(self).mana@.len(),
    {
        let ghost s0 = self.mana@;
        let n0 = self.mana.len();
        let mut rest = take_units(&mut self.mana);
        let mut i: usize = 0;
        let mut removed: usize = 0;
        while rest.len() > 0
            invariant
                n0 == s0.len(),
                i + rest@.len() == s0.len(),
                rest@ == s0.subrange(i as int, s0.len() as int),
                self.mana@ == s0.subrange(0, i as int).filter(not_from(source_id)),
                removed + self.mana@.len() == i,
            decreases rest@.len(),
        {
            let u = rest.remove(0);
            proof {
                reveal_with_fuel(Seq::<_>::filter, 1);
                assert(s0.subrange(0, i + 1).drop_last() =~= s0.subrange(0, i as int));
                assert(s0.subrange(0, i + 1).last() == u);
                assert(rest@ =~= s0.subrange(i + 1, s0.len() as int));
            }
            if u.source_id != source_id {
                self.mana.push(u);
            } else {
                removed = removed + 1;
            }
            i = i + 1;
        }
        assert(s0.subrange(0, s0.len() as int) =~= s0);
        removed
    }

    /// CR 702.139a: removes `count` unrestricted units (the first ones in the
    /// pool) when there are at least that many; otherwise changes nothing.
    /// Returns whether the units were removed.
    pub fn spend_generic(&mut self, count: usize) -> (r: bool)
        ensures
            r == (count_where(old(self).mana@, is_unrestricted()) >= count),
            r ==> final(self).mana@ == without_unrestricted(old(self).mana@, count as nat),
            !r ==> final(self).mana@ == old(self).mana@,
    {
        let mut unrestricted_count: usize = 0;
        let mut i: usize = 0;
        while i < self.mana.len()
            invariant
                i <= self.mana@.len(),
                unrestricted_count == count_where(
                    self.mana@.subrange(0, i as int),
                    is_unrestricted(),
                ),
                unrestricted_count <= i,
            decreases self.mana@.len() - i,
        {
            proof {
                assert(self.mana@.subrange(0, i + 1).drop_last() =~= self.mana@.subrange(
                    0,
                    i as int,
                ));
            }
            if self.mana[i].restrictions.len() == 0 {
                unrestricted_count = unrestricted_count + 1;
            }
            i = i + 1;
        }
        assert(self.mana@.subrange(0, self.mana@.len() as int) =~= self.mana@);
        if unrestricted_count < count {
            return false;
        }
        let ghost s0 = self.mana@;
        let mut rest = take_units(&mut self.mana);
        let mut remaining = count;
        while rest.len() > 0
            invariant
                self.mana@ + without_unrestricted(rest@, remaining as nat) == without_unrestricted(
                    s0,
                    count as nat,
                ),
            decreases rest@.len(),
        {
            let ghost r0 = rest@;
            let m = rest.remove(0);
            assert(rest@ =~= r0.drop_first());
            if remaining > 0 && m.restrictions.len() == 0 {
                remaining = remaining - 1;
            } else {
                let ghost k0 = self.mana@;
                self.mana.push(m);
                assert(self.mana@ + without_unrestricted(rest@, remaining as nat) =~= k0 + (seq![
                    m,
                ] + without_unrestricted(rest@, remaining as nat)));
            }
        }
        assert(without_unrestricted(rest@, remaining as nat) =~= Seq::<ManaUnit>::empty());
        assert(self.mana@ =~= without_unrestricted(s0, count as nat));
        true
    }

    /// Spends the first unit of the type, taking the last unit into its
    /// place (`Vec::swap_remove`); `None` when the pool has none of it.
    pub fn spend(&mut self, color: ManaType) -> (r: Option<ManaUnit>)
        ensures
            ({
                let p = first_index(old(self).mana@, has_color(color));
                match r {
                    Some(u) => p >= 0 && u == old(self).mana@[p] && final(self).mana@
                        == swap_removed(old(self).mana@, p),
                    None => p == -1 && final(self).mana@ == old(self).mana@,
                }
            }),
    {
        proof {
            lemma_first_index_spec(self.mana@, has_color(color));
        }
        let mut i: usize = 0;
        while i < self.mana.len()
            invariant
                self.mana@ == old(self).mana@,
                i <= self.mana@.len(),
                forall|q: int| 0 <= q < i ==> self.mana@[q].color != color,
            decreases self.mana@.len() - i,
        {
            if self.mana[i].color == color {
                proof {
                    lemma_first_index_found(self.mana@, has_color(color), i as int);
                }
                return Some(self.mana.swap_remove(i));
            }
            i = i + 1;
        }
        proof {
            lemma_first_index_none(self.mana@, has_color(color));
        }
        None
    }

    /// CR 106.6: spends one unit of the type for the payment: the first
    /// unrestricted unit if there is one, else the first restricted unit all
    /// of whose restrictions allow the payment (`Vec::swap_remove`); `None`,
    /// with the pool unchanged, when there is neither.
    pub fn spend_for(&mut self, color: ManaType, ctx: &PaymentContext<'_>) -> (r: Option<
        ManaUnit,
    >)
        ensures
            ({
                let p1 = first_index(old(self).mana@, free_of_color(color));
                let p2 = first_index(old(self).mana@, allowed_of_color(color, *ctx));
                if p1 >= 0 {
                    r == Some(old(self).mana@[p1]) && final(self).mana@ == swap_removed(
                        old(self).mana@,
                        p1,
                    )
                } else if p2 >= 0 {
                    r == Some(old(self).mana@[p2]) && final(self).mana@ == swap_removed(
                        old(self).mana@,
                        p2,
                    )
                } else {
                    r is None && final(self).mana@ == old(self).mana@
                }
            }),
    {
        let mut i: usize = 0;
        while i < self.mana.len()
            invariant
                self.mana@ == old(self).mana@,
                i <= self.mana@.len(),
                forall|q: int| 0 <= q < i ==> !(#[trigger] free_of_color(color)(self.mana@[q])),
            decreases self.mana@.len() - i,
        {
            if self.mana[i].color == color && self.mana[i].restrictions.len() == 0 {
                proof {
                    lemma_first_index_found(self.mana@, free_of_color(color), i as int);
                }
                return Some(self.mana.swap_remove(i));
            }
            i = i + 1;
        }
        proof {
            lemma_first_index_none(self.mana@, free_of_color(color));
        }
        let mut j: usize = 0;
        while j < self.mana.len()
            invariant
                self.mana@ == old(self).mana@,
                first_index(old(self).mana@, free_of_color(color)) == -1,
                j <= self.mana@.len(),
                forall|q: int|
                    0 <= q < j ==> !(#[trigger] allowed_of_color(color, *ctx)(self.mana@[q])),
            decreases self.mana@.len() - j,
        {
            if self.mana[j].color == color && self.mana[j].restrictions.len() > 0
                && all_restrictions_allow(&self.mana[j].restrictions, ctx) {
                proof {
                    lemma_first_index_found(self.mana@, allowed_of_color(color, *ctx), j as int);
                }
                return Some(self.mana.swap_remove(j));
            }
            j = j + 1;
        }
        proof {
            lemma_first_index_none(self.mana@, allowed_of_color(color, *ctx));
        }
        None
    }
}

/// Every restriction in the list allows the payment.
fn all_restrictions_allow(rs: &Vec<ManaRestriction>, ctx: &PaymentContext<'_>) -> (r: bool)
    ensures
        r == restrictions_allow(rs@, *ctx),
{
    let mut i: usize = 0;
    while i < rs.len()
        invariant
            i <= rs@.len(),
            forall|j: int| 0 <= j < i ==> allows_spec(#[trigger] rs@[j], *ctx),
        decreases rs@.len() - i,
    {
        if !rs[i].allows(ctx) {
            return false;
        }
        i = i + 1;
    }
    true
}

/// The action of the first handler that reacts to the type.
fn first_matching_action(hs: &[StepEndManaHandler], t: ManaType) -> (r: Option<StepEndManaAction>)
    ensures
        r == first_handler_action(hs@, t),
{
    let mut i: usize = 0;
    assert(hs@.subrange(0, hs@.len() as int) =~= hs@);
    while i < hs.len()
        invariant
            i <= hs@.len(),
            first_handler_action(hs@, t) == first_handler_action(hs@.subrange(i as int, hs@.len() as int), t),
        decreases hs@.len() - i,
    {
        let h = hs[i];
        let applies = match h.filter {
            None => true,
            Some(c) => mana_type_from_color(c) == t,
        };
        assert(hs@.subrange(i as int, hs@.len() as int)[0] == h);
        assert(hs@.subrange(i as int, hs@.len() as int).drop_first() =~= hs@.subrange(i + 1, hs@.len() as int));
        if applies {
            return Some(h.action);
        }
        i = i + 1;
    }
    None
}

} // verus!
