//! Target phrases of Oracle text: "target creature", "target artifact or
//! enchantment you control", type phrases, self-references, references to
//! the triggering event, and stack-object phrases of counter effects.

use vstd::prelude::*;

use crate::parser::cursor::{match_prefix, rest_after, starts_with, OracleError};
use crate::text::string_of;
use crate::types::ability::{
    tfv, tfvs, ControllerRef, FilterProp, TargetFilter, TypeFilter, TypeFilterView, TypedFilter,
};
use crate::types::card_type::Supertype;
use crate::types::mana::ManaColor;
use crate::types::zones::Zone;

verus! {

/// What `char::is_alphanumeric` answers for a character.
pub uninterp spec fn alphanumeric(c: char) -> bool;

/// `char::is_alphanumeric`: whether the character is alphabetic or numeric.
/// The contract states that among ASCII characters exactly the letters and
/// digits are; beyond ASCII the answer is left to the name.
#[verifier::external_body]
fn is_alphanumeric(c: char) -> (r: bool)
    ensures
        r == alphanumeric(c),
        (c as u32) < 128 ==> (r <==> (('a' <= c && c <= 'z') || ('A' <= c && c <= 'Z') || ('0' <= c && c <= '9'))),
{
    c.is_alphanumeric()
}

/// The mathematical value of a typed filter.
pub struct TypedFilterView {
    pub type_filters: Seq<TypeFilterView>,
    pub controller: Option<ControllerRef>,
    pub properties: Seq<FilterProp>,
}

/// The view of a typed filter.
pub open spec fn typed_view(tf: TypedFilter) -> TypedFilterView {
    TypedFilterView { type_filters: tfvs(tf.type_filters@), controller: tf.controller, properties: tf.properties@ }
}

/// A space or a tab.
pub open spec fn is_blank(c: char) -> bool {
    c == ' ' || c == '\t'
}

/// The number of spaces and tabs at the front of `s`.
pub open spec fn blanks_len(s: Seq<char>) -> nat
    decreases s.len(),
{
    if s.len() > 0 && is_blank(s[0]) {
        1 + blanks_len(s.drop_first())
    } else {
        0
    }
}

/// After `k` characters, `s` ends or goes on with no letter or digit.
pub open spec fn boundary_at(s: Seq<char>, k: nat) -> bool {
    k >= s.len() || !alphanumeric(s[k as int])
}

/// "non-" or "non" at the front: the characters it takes, or 0.
pub open spec fn non_prefix_len(s: Seq<char>) -> nat {
    if starts_with(s, "non-"@) {
        "non-"@.len()
    } else if starts_with(s, "non"@) {
        "non"@.len()
    } else {
        0
    }
}

/// CR 205.4a: a supertype word at the front, without what follows it.
pub open spec fn supertype_word_match(s: Seq<char>) -> Option<(nat, Supertype)> {
    if starts_with(s, "legendary"@) {
        Some(("legendary"@.len(), Supertype::Legendary))
    } else if starts_with(s, "basic"@) {
        Some(("basic"@.len(), Supertype::Basic))
    } else if starts_with(s, "snow"@) {
        Some(("snow"@.len(), Supertype::Snow))
    } else {
        None
    }
}

/// A supertype word and the blanks after it (at least one).
pub open spec fn supertype_prefix_match(s: Seq<char>) -> Option<(nat, Supertype)> {
    match supertype_word_match(s) {
        Some((k, st)) => if blanks_len(s.skip(k as int)) >= 1 {
            Some((k + blanks_len(s.skip(k as int)), st))
        } else {
            None
        },
        None => None,
    }
}

/// A color word at the front.
pub open spec fn color_word_match(s: Seq<char>) -> Option<(nat, ManaColor)> {
    if starts_with(s, "white"@) {
        Some(("white"@.len(), ManaColor::White))
    } else if starts_with(s, "blue"@) {
        Some(("blue"@.len(), ManaColor::Blue))
    } else if starts_with(s, "black"@) {
        Some(("black"@.len(), ManaColor::Black))
    } else if starts_with(s, "red"@) {
        Some(("red"@.len(), ManaColor::Red))
    } else if starts_with(s, "green"@) {
        Some(("green"@.len(), ManaColor::Green))
    } else {
        None
    }
}

/// A color word and the blanks after it (at least one).
pub open spec fn color_prefix_match(s: Seq<char>) -> Option<(nat, ManaColor)> {
    match color_word_match(s) {
        Some((k, c)) => if blanks_len(s.skip(k as int)) >= 1 {
            Some((k + blanks_len(s.skip(k as int)), c))
        } else {
            None
        },
        None => None,
    }
}

/// A controller suffix at the front (CR 109.4, CR 115.1).
pub open spec fn controller_suffix_match(s: Seq<char>) -> Option<(nat, ControllerRef)> {
    if starts_with(s, "you control"@) {
        Some(("you control"@.len(), ControllerRef::You))
    } else if starts_with(s, "an opponent controls"@) {
        Some(("an opponent controls"@.len(), ControllerRef::Opponent))
    } else if starts_with(s, "your opponents control"@) {
        Some(("your opponents control"@.len(), ControllerRef::Opponent))
    } else if starts_with(s, "target player controls"@) {
        Some(("target player controls"@.len(), ControllerRef::TargetPlayer))
    } else {
        None
    }
}

/// The number of words of the type-word table.
pub open spec fn type_word_count() -> nat {
    21
}

/// The type-word table: each word and the test it names, longest form first
/// where two share a beginning. CR 112.1: a spell is a card on the stack.
pub open spec fn type_word_entry(i: int) -> (Seq<char>, TypeFilterView) {
    if i == 0 {
        ("creatures"@, TypeFilterView::Creature)
    } else if i == 1 {
        ("creature"@, TypeFilterView::Creature)
    } else if i == 2 {
        ("artifacts"@, TypeFilterView::Artifact)
    } else if i == 3 {
        ("artifact"@, TypeFilterView::Artifact)
    } else if i == 4 {
        ("enchantments"@, TypeFilterView::Enchantment)
    } else if i == 5 {
        ("enchantment"@, TypeFilterView::Enchantment)
    } else if i == 6 {
        ("instants"@, TypeFilterView::Instant)
    } else if i == 7 {
        ("instant"@, TypeFilterView::Instant)
    } else if i == 8 {
        ("sorceries"@, TypeFilterView::Sorcery)
    } else if i == 9 {
        ("sorcery"@, TypeFilterView::Sorcery)
    } else if i == 10 {
        ("planeswalkers"@, TypeFilterView::Planeswalker)
    } else if i == 11 {
        ("planeswalker"@, TypeFilterView::Planeswalker)
    } else if i == 12 {
        ("lands"@, TypeFilterView::Land)
    } else if i == 13 {
        ("land"@, TypeFilterView::Land)
    } else if i == 14 {
        ("battle"@, TypeFilterView::Battle)
    } else if i == 15 {
        ("permanents"@, TypeFilterView::Permanent)
    } else if i == 16 {
        ("permanent"@, TypeFilterView::Permanent)
    } else if i == 17 {
        ("cards"@, TypeFilterView::Card)
    } else if i == 18 {
        ("card"@, TypeFilterView::Card)
    } else if i == 19 {
        ("spells"@, TypeFilterView::Card)
    } else {
        ("spell"@, TypeFilterView::Card)
    }
}

/// The first word of the table from entry `i` on that begins `s`.
pub open spec fn type_table_match(s: Seq<char>, i: nat) -> Option<(nat, TypeFilterView)>
    decreases type_word_count() - i,
{
    if i >= type_word_count() {
        None
    } else if starts_with(s, type_word_entry(i as int).0) {
        Some((type_word_entry(i as int).0.len(), type_word_entry(i as int).1))
    } else {
        type_table_match(s, i + 1)
    }
}

/// The number of entries of the subtype table.
pub open spec fn subtype_count() -> nat {
    38
}

/// The subtype table: each subtype as written in lower-case text, and its
/// name. The first five are the outlaw types (CR 700.12).
pub open spec fn subtype_entry(i: int) -> (Seq<char>, Seq<char>) {
    if i == 0 {
        ("assassin"@, "Assassin"@)
    } else if i == 1 {
        ("mercenary"@, "Mercenary"@)
    } else if i == 2 {
        ("pirate"@, "Pirate"@)
    } else if i == 3 {
        ("rogue"@, "Rogue"@)
    } else if i == 4 {
        ("warlock"@, "Warlock"@)
    } else if i == 5 {
        ("angel"@, "Angel"@)
    } else if i == 6 {
        ("beast"@, "Beast"@)
    } else if i == 7 {
        ("bird"@, "Bird"@)
    } else if i == 8 {
        ("cat"@, "Cat"@)
    } else if i == 9 {
        ("cleric"@, "Cleric"@)
    } else if i == 10 {
        ("dog"@, "Dog"@)
    } else if i == 11 {
        ("dragon"@, "Dragon"@)
    } else if i == 12 {
        ("elf"@, "Elf"@)
    } else if i == 13 {
        ("faerie"@, "Faerie"@)
    } else if i == 14 {
        ("giant"@, "Giant"@)
    } else if i == 15 {
        ("goblin"@, "Goblin"@)
    } else if i == 16 {
        ("human"@, "Human"@)
    } else if i == 17 {
        ("knight"@, "Knight"@)
    } else if i == 18 {
        ("merfolk"@, "Merfolk"@)
    } else if i == 19 {
        ("ninja"@, "Ninja"@)
    } else if i == 20 {
        ("shaman"@, "Shaman"@)
    } else if i == 21 {
        ("sliver"@, "Sliver"@)
    } else if i == 22 {
        ("soldier"@, "Soldier"@)
    } else if i == 23 {
        ("spirit"@, "Spirit"@)
    } else if i == 24 {
        ("treefolk"@, "Treefolk"@)
    } else if i == 25 {
        ("vampire"@, "Vampire"@)
    } else if i == 26 {
        ("warrior"@, "Warrior"@)
    } else if i == 27 {
        ("wizard"@, "Wizard"@)
    } else if i == 28 {
        ("wolf"@, "Wolf"@)
    } else if i == 29 {
        ("zombie"@, "Zombie"@)
    } else if i == 30 {
        ("equipment"@, "Equipment"@)
    } else if i == 31 {
        ("aura"@, "Aura"@)
    } else if i == 32 {
        ("vehicle"@, "Vehicle"@)
    } else if i == 33 {
        ("forest"@, "Forest"@)
    } else if i == 34 {
        ("island"@, "Island"@)
    } else if i == 35 {
        ("mountain"@, "Mountain"@)
    } else if i == 36 {
        ("plains"@, "Plains"@)
    } else {
        ("swamp"@, "Swamp"@)
    }
}

/// The first subtype of the table from entry `i` on at the front of `s`,
/// as a whole word, singular or with a plural "s": the characters it takes
/// and the subtype's name.
pub open spec fn subtype_table_match(s: Seq<char>, i: nat) -> Option<(nat, Seq<char>)>
    decreases subtype_count() - i,
{
    if i >= subtype_count() {
        None
    } else {
        let (w, name) = subtype_entry(i as int);
        if starts_with(s, w + "s"@) && boundary_at(s, w.len() + 1) {
            Some((w.len() + 1, name))
        } else if starts_with(s, w) && boundary_at(s, w.len()) {
            Some((w.len(), name))
        } else {
            subtype_table_match(s, i + 1)
        }
    }
}

/// CR 700.12: the outlaw types, as one test.
pub open spec fn outlaw_view() -> TypeFilterView {
    TypeFilterView::AnyOf(
        seq![
            TypeFilterView::Subtype("Assassin"@),
            TypeFilterView::Subtype("Mercenary"@),
            TypeFilterView::Subtype("Pirate"@),
            TypeFilterView::Subtype("Rogue"@),
            TypeFilterView::Subtype("Warlock"@),
        ],
    )
}

/// "outlaws" or "outlaw" at the front: the characters it takes, or 0.
pub open spec fn outlaw_len(s: Seq<char>) -> nat {
    if starts_with(s, "outlaws"@) {
        "outlaws"@.len()
    } else if starts_with(s, "outlaw"@) {
        "outlaw"@.len()
    } else {
        0
    }
}

/// A type word at the front: the outlaw head noun as a whole word (CR
/// 700.12), else the first word of the type-word table that begins the
/// text, else a subtype.
pub open spec fn type_word_match(s: Seq<char>) -> Option<(nat, TypeFilterView)> {
    if outlaw_len(s) > 0 && boundary_at(s, outlaw_len(s)) {
        Some((outlaw_len(s), outlaw_view()))
    } else if type_table_match(s, 0) is Some {
        type_table_match(s, 0)
    } else {
        match subtype_table_match(s, 0) {
            Some((k, name)) => Some((k, TypeFilterView::Subtype(name))),
            None => None,
        }
    }
}

/// Further type words, each after " or ": the characters they take and the
/// tests they name.
pub open spec fn more_types(s: Seq<char>) -> (nat, Seq<TypeFilterView>)
    decreases s.len(),
{
    let o = " or "@.len();
    if starts_with(s, " or "@) && type_word_match(s.skip(o as int)) is Some && o + type_word_match(
        s.skip(o as int),
    )->Some_0.0 <= s.len() {
        let (k, t) = type_word_match(s.skip(o as int))->Some_0;
        proof {
            reveal_strlit(" or ");
        }
        let (k2, ts) = more_types(s.skip((o + k) as int));
        (o + k + k2, seq![t] + ts)
    } else {
        (0, Seq::empty())
    }
}

/// One or more type words joined by " or ".
pub open spec fn type_list_match(s: Seq<char>) -> Option<(nat, Seq<TypeFilterView>)> {
    match type_word_match(s) {
        Some((k, t)) => {
            let (k2, ts) = more_types(s.skip(k as int));
            Some((k + k2, seq![t] + ts))
        },
        None => None,
    }
}

/// Blanks and a controller suffix after them.
pub open spec fn controller_part_match(s: Seq<char>) -> Option<(nat, ControllerRef)> {
    let b = blanks_len(s);
    if b >= 1 && controller_suffix_match(s.skip(b as int)) is Some {
        let (k, c) = controller_suffix_match(s.skip(b as int))->Some_0;
        Some((b + k, c))
    } else {
        None
    }
}

/// A type phrase: an optional "non" prefix, an optional supertype, an
/// optional color, one or more types joined by " or " (several become one
/// "any of" test), and an optional controller suffix. The "non" prefix
/// negates the type test; the color and the supertype become properties.
pub open spec fn type_phrase_match(s: Seq<char>) -> Option<(nat, TypedFilterView)> {
    let n = non_prefix_len(s);
    let r1 = s.skip(n as int);
    let (a, st) = match supertype_prefix_match(r1) {
        Some((a, st)) => (a, Some(st)),
        None => (0nat, None),
    };
    let r2 = r1.skip(a as int);
    let (b, col) = match color_prefix_match(r2) {
        Some((b, c)) => (b, Some(c)),
        None => (0nat, None),
    };
    let r3 = r2.skip(b as int);
    match type_list_match(r3) {
        None => None,
        Some((c, types)) => {
            let r4 = r3.skip(c as int);
            let (d, ctl) = match controller_part_match(r4) {
                Some((d, x)) => (d, Some(x)),
                None => (0nat, None),
            };
            Some(
                (
                    n + a + b + c + d,
                    TypedFilterView {
                        type_filters: phrase_type_filters(types, n > 0),
                        controller: ctl,
                        properties: phrase_props(col, st),
                    },
                ),
            )
        },
    }
}

/// "target", blanks, and a type phrase.
pub open spec fn target_phrase_match(s: Seq<char>) -> Option<(nat, TypedFilterView)> {
    let t = "target"@.len();
    let b = blanks_len(s.skip(t as int));
    if starts_with(s, "target"@) && b >= 1 {
        match type_phrase_match(s.skip((t + b) as int)) {
            Some((k, tf)) => Some((t + b + k, tf)),
            None => None,
        }
    } else {
        None
    }
}

/// After "it": the text ends or goes on with a space or punctuation.
pub open spec fn it_boundary(s: Seq<char>, k: nat) -> bool {
    k >= s.len() || {
        let c = s[k as int];
        c == ' ' || c == ',' || c == ';' || c == '.' || c == ':' || c == ')' || c == '/' || c == '\'' || c == '"'
    }
}

/// A self-reference at the front (CR 201.5): the characters it takes.
pub open spec fn self_reference_match(s: Seq<char>) -> Option<nat> {
    if starts_with(s, "~"@) {
        Some("~"@.len())
    } else if starts_with(s, "it"@) && it_boundary(s, "it"@.len()) {
        Some("it"@.len())
    } else if starts_with(s, "itself"@) && boundary_at(s, "itself"@.len()) {
        Some("itself"@.len())
    } else if starts_with(s, "this creature"@) {
        Some("this creature"@.len())
    } else if starts_with(s, "this permanent"@) {
        Some("this permanent"@.len())
    } else if starts_with(s, "this spell"@) {
        Some("this spell"@.len())
    } else if starts_with(s, "this card"@) {
        Some("this card"@.len())
    } else if starts_with(s, "this enchantment"@) {
        Some("this enchantment"@.len())
    } else if starts_with(s, "this artifact"@) {
        Some("this artifact"@.len())
    } else if starts_with(s, "this land"@) {
        Some("this land"@.len())
    } else if starts_with(s, "this attraction"@) {
        Some("this attraction"@.len())
    } else {
        None
    }
}

/// A reference to what the triggering event names, at the front; longer
/// phrases are tried first (CR 506.3d, CR 608.2k).
pub open spec fn event_context_match(s: Seq<char>) -> Option<(nat, TargetFilter)> {
    if starts_with(s, "that spell's controller"@) {
        Some(("that spell's controller"@.len(), TargetFilter::TriggeringSpellController))
    } else if starts_with(s, "that spell's owner"@) {
        Some(("that spell's owner"@.len(), TargetFilter::TriggeringSpellOwner))
    } else if starts_with(s, "that spell"@) {
        Some(("that spell"@.len(), TargetFilter::TriggeringSource))
    } else if starts_with(s, "that creature"@) {
        Some(("that creature"@.len(), TargetFilter::TriggeringSource))
    } else if starts_with(s, "that permanent"@) {
        Some(("that permanent"@.len(), TargetFilter::TriggeringSource))
    } else if starts_with(s, "that card"@) {
        Some(("that card"@.len(), TargetFilter::TriggeringSource))
    } else if starts_with(s, "that player"@) {
        Some(("that player"@.len(), TargetFilter::TriggeringPlayer))
    } else if starts_with(s, "the defending player"@) {
        Some(("the defending player"@.len(), TargetFilter::DefendingPlayer))
    } else if starts_with(s, "defending player"@) {
        Some(("defending player"@.len(), TargetFilter::DefendingPlayer))
    } else if starts_with(s, "the player"@) {
        Some(("the player"@.len(), TargetFilter::TriggeringPlayer))
    } else {
        None
    }
}

/// CR 112.1: a spell phrase: a type phrase that ends in " spell", or is
/// just "spell"; the filter is kept to objects on the stack.
pub open spec fn restricted_spell_match(s: Seq<char>) -> Option<(nat, TypedFilterView)> {
    match type_phrase_match(s) {
        None => None,
        Some((k, tf)) => {
            let bare = tf.type_filters == seq![TypeFilterView::Card];
            let stacked = TypedFilterView {
                properties: if tf.properties.contains(FilterProp::InZone { zone: Zone::Stack }) {
                    tf.properties
                } else {
                    tf.properties.push(FilterProp::InZone { zone: Zone::Stack })
                },
                ..tf
            };
            if starts_with(s.skip(k as int), " spell"@) {
                Some((k + " spell"@.len(), stacked))
            } else if bare {
                Some((k, stacked))
            } else {
                None
            }
        },
    }
}

/// The ability-kind phrase of a stack-object phrase (CR 113.3b, CR 113.3c):
/// the characters it takes.
pub open spec fn ability_kind_len(s: Seq<char>) -> nat {
    if starts_with(s, "activated ability, triggered ability"@) {
        "activated ability, triggered ability"@.len()
    } else if starts_with(s, "activated or triggered ability"@) {
        "activated or triggered ability"@.len()
    } else if starts_with(s, "triggered or activated ability"@) {
        "triggered or activated ability"@.len()
    } else if starts_with(s, "triggered ability or activated ability"@) {
        "triggered ability or activated ability"@.len()
    } else if starts_with(s, "activated ability or triggered ability"@) {
        "activated ability or triggered ability"@.len()
    } else if starts_with(s, "triggered ability"@) {
        "triggered ability"@.len()
    } else if starts_with(s, "activated ability"@) {
        "activated ability"@.len()
    } else {
        0
    }
}

/// The connector before a spell disjunct: the characters it takes, or 0.
pub open spec fn connector_len(s: Seq<char>) -> nat {
    if starts_with(s, ", or "@) {
        ", or "@.len()
    } else if starts_with(s, " or "@) {
        " or "@.len()
    } else if starts_with(s, ", "@) {
        ", "@.len()
    } else {
        0
    }
}

/// What a stack-object phrase names.
pub enum StackObjectView {
    /// Spells and abilities on the stack.
    SpellOrAbility,
    /// Activated and triggered abilities on the stack.
    Ability,
    /// Those abilities, or the spells the typed filter admits.
    AbilityOrSpell(TypedFilterView),
}

/// CR 701.6a, CR 115.1: a stack-object phrase at the front: "spell or
/// ability" (and its variants), or an ability-kind phrase with an optional
/// spell disjunct after "[,] or".
pub open spec fn stack_object_match(s: Seq<char>) -> Option<(nat, StackObjectView)> {
    if starts_with(s, "spell or ability"@) {
        Some(("spell or ability"@.len(), StackObjectView::SpellOrAbility))
    } else if starts_with(s, "spell and/or ability"@) {
        Some(("spell and/or ability"@.len(), StackObjectView::SpellOrAbility))
    } else if starts_with(s, "ability or spell"@) {
        Some(("ability or spell"@.len(), StackObjectView::SpellOrAbility))
    } else {
        let a = ability_kind_len(s);
        if a == 0 {
            None
        } else {
            let r = s.skip(a as int);
            let c = connector_len(r);
            if c > 0 && restricted_spell_match(r.skip(c as int)) is Some {
                let (k, tf) = restricted_spell_match(r.skip(c as int))->Some_0;
                Some((a + c + k, StackObjectView::AbilityOrSpell(tf)))
            } else {
                Some((a, StackObjectView::Ability))
            }
        }
    }
}

/// The filter is what the stack-object view names.
pub open spec fn stack_filter_is(f: TargetFilter, v: StackObjectView) -> bool {
    match v {
        StackObjectView::SpellOrAbility => (f matches TargetFilter::Or { filters } && filters@ == seq![
            TargetFilter::StackSpell,
            TargetFilter::StackAbility { controller: None },
        ]),
        StackObjectView::Ability => f == TargetFilter::StackAbility { controller: None },
        StackObjectView::AbilityOrSpell(tv) => (f matches TargetFilter::Or { filters } && filters@.len() == 2
            && filters@[0] == TargetFilter::StackAbility { controller: None } && (filters@[1] matches TargetFilter::Typed(
            tf,
        ) && typed_view(tf) == tv)),
    }
}

proof fn lemma_blanks_len(s: Seq<char>, i: int)
    requires
        0 <= i <= s.len(),
        forall|j: int| 0 <= j < i ==> is_blank(#[trigger] s[j]),
        i == s.len() || !is_blank(s[i]),
    ensures
        blanks_len(s) == i,
    decreases i,
{
    if i > 0 {
        assert forall|j: int| 0 <= j < i - 1 implies is_blank(#[trigger] s.drop_first()[j]) by {
            assert(s.drop_first()[j] == s[j + 1]);
        }
        if i - 1 < s.len() - 1 {
            assert(s.drop_first()[i - 1] == s[i]);
        }
        lemma_blanks_len(s.drop_first(), i - 1);
    }
}

/// The number of spaces and tabs at the front of `input`.
fn blanks(input: &str) -> (n: usize)
    ensures
        n == blanks_len(input@),
        n <= input@.len(),
{
    let len = input.unicode_len();
    let mut i: usize = 0;
    while i < len
        invariant
            i <= len,
            len == input@.len(),
            forall|j: int| 0 <= j < i ==> is_blank(#[trigger] input@[j]),
        ensures
            i <= len,
            forall|j: int| 0 <= j < i ==> is_blank(#[trigger] input@[j]),
            i == len || !is_blank(input@[i as int]),
        decreases len - i,
    {
        let c = input.get_char(i);
        if !(c == ' ' || c == '\t') {
            break;
        }
        i = i + 1;
    }
    proof {
        lemma_blanks_len(input@, i as int);
    }
    i
}

/// Whether `input` ends after `k` characters or goes on with no letter or
/// digit.
fn boundary(input: &str, k: usize) -> (r: bool)
    requires
        k <= input@.len(),
    ensures
        r == boundary_at(input@, k as nat),
{
    if k >= input.unicode_len() {
        true
    } else {
        !is_alphanumeric(input.get_char(k))
    }
}

fn supertype_word(input: &str) -> (r: Option<(usize, Supertype)>)
    ensures
        match supertype_word_match(input@) {
            Some((k, st)) => r == Some((k as usize, st)) && k <= input@.len(),
            None => r is None,
        },
{
    if let Some(k) = match_prefix(input, "legendary") {
        return Some((k, Supertype::Legendary));
    }
    if let Some(k) = match_prefix(input, "basic") {
        return Some((k, Supertype::Basic));
    }
    if let Some(k) = match_prefix(input, "snow") {
        return Some((k, Supertype::Snow));
    }
    None
}

fn supertype_prefix(input: &str) -> (r: Option<(usize, Supertype)>)
    ensures
        match supertype_prefix_match(input@) {
            Some((k, st)) => r == Some((k as usize, st)) && k <= input@.len(),
            None => r is None,
        },
{
    let (k, st) = match supertype_word(input) {
        Some(x) => x,
        None => return None,
    };
    let rest = rest_after(input, k);
    let b = blanks(rest);
    if b >= 1 {
        assert(k + b <= input@.len()) by {
            assert(rest@.len() == input@.len() - k);
        }
        Some((k + b, st))
    } else {
        None
    }
}

fn color_word(input: &str) -> (r: Option<(usize, ManaColor)>)
    ensures
        match color_word_match(input@) {
            Some((k, c)) => r == Some((k as usize, c)) && k <= input@.len(),
            None => r is None,
        },
{
    if let Some(k) = match_prefix(input, "white") {
        return Some((k, ManaColor::White));
    }
    if let Some(k) = match_prefix(input, "blue") {
        return Some((k, ManaColor::Blue));
    }
    if let Some(k) = match_prefix(input, "black") {
        return Some((k, ManaColor::Black));
    }
    if let Some(k) = match_prefix(input, "red") {
        return Some((k, ManaColor::Red));
    }
    if let Some(k) = match_prefix(input, "green") {
        return Some((k, ManaColor::Green));
    }
    None
}

fn color_prefix(input: &str) -> (r: Option<(usize, ManaColor)>)
    ensures
        match color_prefix_match(input@) {
            Some((k, c)) => r == Some((k as usize, c)) && k <= input@.len(),
            None => r is None,
        },
{
    let (k, c) = match color_word(input) {
        Some(x) => x,
        None => return None,
    };
    let rest = rest_after(input, k);
    let b = blanks(rest);
    if b >= 1 {
        assert(k + b <= input@.len()) by {
            assert(rest@.len() == input@.len() - k);
        }
        Some((k + b, c))
    } else {
        None
    }
}

fn controller_suffix(input: &str) -> (r: Option<(usize, ControllerRef)>)
    ensures
        match controller_suffix_match(input@) {
            Some((k, c)) => r == Some((k as usize, c)) && k <= input@.len(),
            None => r is None,
        },
{
    if let Some(k) = match_prefix(input, "you control") {
        return Some((k, ControllerRef::You));
    }
    if let Some(k) = match_prefix(input, "an opponent controls") {
        return Some((k, ControllerRef::Opponent));
    }
    if let Some(k) = match_prefix(input, "your opponents control") {
        return Some((k, ControllerRef::Opponent));
    }
    if let Some(k) = match_prefix(input, "target player controls") {
        return Some((k, ControllerRef::TargetPlayer));
    }
    None
}

fn type_word_entry_exec(i: usize) -> (r: (&'static str, TypeFilter))
    requires
        i < type_word_count(),
    ensures
        r.0@ == type_word_entry(i as int).0,
        tfv(r.1) == type_word_entry(i as int).1,
{
    if i == 0 {
        ("creatures", TypeFilter::Creature)
    } else if i == 1 {
        ("creature", TypeFilter::Creature)
    } else if i == 2 {
        ("artifacts", TypeFilter::Artifact)
    } else if i == 3 {
        ("artifact", TypeFilter::Artifact)
    } else if i == 4 {
        ("enchantments", TypeFilter::Enchantment)
    } else if i == 5 {
        ("enchantment", TypeFilter::Enchantment)
    } else if i == 6 {
        ("instants", TypeFilter::Instant)
    } else if i == 7 {
        ("instant", TypeFilter::Instant)
    } else if i == 8 {
        ("sorceries", TypeFilter::Sorcery)
    } else if i == 9 {
        ("sorcery", TypeFilter::Sorcery)
    } else if i == 10 {
        ("planeswalkers", TypeFilter::Planeswalker)
    } else if i == 11 {
        ("planeswalker", TypeFilter::Planeswalker)
    } else if i == 12 {
        ("lands", TypeFilter::Land)
    } else if i == 13 {
        ("land", TypeFilter::Land)
    } else if i == 14 {
        ("battle", TypeFilter::Battle)
    } else if i == 15 {
        ("permanents", TypeFilter::Permanent)
    } else if i == 16 {
        ("permanent", TypeFilter::Permanent)
    } else if i == 17 {
        ("cards", TypeFilter::Card)
    } else if i == 18 {
        ("card", TypeFilter::Card)
    } else if i == 19 {
        ("spells", TypeFilter::Card)
    } else {
        ("spell", TypeFilter::Card)
    }
}

fn type_table(input: &str) -> (r: Option<(usize, TypeFilter)>)
    ensures
        match type_table_match(input@, 0) {
            Some((k, t)) => (r matches Some((k2, t2)) && k2 == k && tfv(t2) == t) && k <= input@.len(),
            None => r is None,
        },
{
    let mut i: usize = 0;
    while i < 21
        invariant
            i <= 21,
            type_table_match(input@, 0) == type_table_match(input@, i as nat),
        decreases 21 - i,
    {
        let (w, t) = type_word_entry_exec(i);
        if let Some(k) = match_prefix(input, w) {
            return Some((k, t));
        }
        i = i + 1;
    }
    None
}

fn subtype_entry_exec(i: usize) -> (r: (&'static str, &'static str))
    requires
        i < subtype_count(),
    ensures
        r.0@ == subtype_entry(i as int).0,
        r.1@ == subtype_entry(i as int).1,
{
    if i == 0 {
        ("assassin", "Assassin")
    } else if i == 1 {
        ("mercenary", "Mercenary")
    } else if i == 2 {
        ("pirate", "Pirate")
    } else if i == 3 {
        ("rogue", "Rogue")
    } else if i == 4 {
        ("warlock", "Warlock")
    } else if i == 5 {
        ("angel", "Angel")
    } else if i == 6 {
        ("beast", "Beast")
    } else if i == 7 {
        ("bird", "Bird")
    } else if i == 8 {
        ("cat", "Cat")
    } else if i == 9 {
        ("cleric", "Cleric")
    } else if i == 10 {
        ("dog", "Dog")
    } else if i == 11 {
        ("dragon", "Dragon")
    } else if i == 12 {
        ("elf", "Elf")
    } else if i == 13 {
        ("faerie", "Faerie")
    } else if i == 14 {
        ("giant", "Giant")
    } else if i == 15 {
        ("goblin", "Goblin")
    } else if i == 16 {
        ("human", "Human")
    } else if i == 17 {
        ("knight", "Knight")
    } else if i == 18 {
        ("merfolk", "Merfolk")
    } else if i == 19 {
        ("ninja", "Ninja")
    } else if i == 20 {
        ("shaman", "Shaman")
    } else if i == 21 {
        ("sliver", "Sliver")
    } else if i == 22 {
        ("soldier", "Soldier")
    } else if i == 23 {
        ("spirit", "Spirit")
    } else if i == 24 {
        ("treefolk", "Treefolk")
    } else if i == 25 {
        ("vampire", "Vampire")
    } else if i == 26 {
        ("warrior", "Warrior")
    } else if i == 27 {
        ("wizard", "Wizard")
    } else if i == 28 {
        ("wolf", "Wolf")
    } else if i == 29 {
        ("zombie", "Zombie")
    } else if i == 30 {
        ("equipment", "Equipment")
    } else if i == 31 {
        ("aura", "Aura")
    } else if i == 32 {
        ("vehicle", "Vehicle")
    } else if i == 33 {
        ("forest", "Forest")
    } else if i == 34 {
        ("island", "Island")
    } else if i == 35 {
        ("mountain", "Mountain")
    } else if i == 36 {
        ("plains", "Plains")
    } else {
        ("swamp", "Swamp")
    }
}

/// Whether `input` begins with `w` and then "s".
fn match_plural(input: &str, w: &str) -> (r: Option<usize>)
    ensures
        r is Some <==> starts_with(input@, w@ + "s"@),
        r matches Some(n) ==> n == w@.len() + 1 && n <= input@.len(),
{
    proof {
        reveal_strlit("s");
    }
    let k = match match_prefix(input, w) {
        Some(k) => k,
        None => {
            assert(!starts_with(input@, w@ + "s"@)) by {
                let ws = w@ + "s"@;
                if starts_with(input@, ws) {
                    assert(input@.subrange(0, ws.len() as int) == ws);
                    assert(input@.subrange(0, w@.len() as int) =~= ws.subrange(0, w@.len() as int));
                    assert(ws.subrange(0, w@.len() as int) =~= w@);
                    assert(starts_with(input@, w@));
                }
            }
            return None;
        },
    };
    let rest = rest_after(input, k);
    match match_prefix(rest, "s") {
        Some(m) => {
            assert(input@.subrange(0, (k + 1) as int) =~= w@ + "s"@) by {
                assert(input@.subrange(0, k as int) =~= w@);
                assert(rest@.subrange(0, 1) =~= "s"@);
                assert(rest@[0] == input@[k as int]);
            }
            Some(k + 1)
        },
        None => {
            assert(!starts_with(input@, w@ + "s"@)) by {
                if starts_with(input@, w@ + "s"@) {
                    assert(input@[k as int] == (w@ + "s"@)[k as int]);
                    assert(rest@.subrange(0, 1) =~= "s"@);
                }
            }
            None
        },
    }
}

fn subtype_table(input: &str) -> (r: Option<(usize, String)>)
    ensures
        match subtype_table_match(input@, 0) {
            Some((k, name)) => (r matches Some((k2, n2)) && k2 == k && n2@ == name) && k <= input@.len(),
            None => r is None,
        },
{
    let mut i: usize = 0;
    while i < 38
        invariant
            i <= 38,
            subtype_table_match(input@, 0) == subtype_table_match(input@, i as nat),
        decreases 38 - i,
    {
        let (w, name) = subtype_entry_exec(i);
        if let Some(k) = match_plural(input, w) {
            if boundary(input, k) {
                return Some((k, string_of(name)));
            }
        }
        if let Some(k) = match_prefix(input, w) {
            if boundary(input, k) {
                return Some((k, string_of(name)));
            }
        }
        i = i + 1;
    }
    None
}

/// CR 700.12: the outlaw types as one test.
fn outlaw_filter() -> (t: TypeFilter)
    ensures
        tfv(t) == outlaw_view(),
{
    let mut v: Vec<TypeFilter> = Vec::new();
    v.push(TypeFilter::Subtype(string_of("Assassin")));
    v.push(TypeFilter::Subtype(string_of("Mercenary")));
    v.push(TypeFilter::Subtype(string_of("Pirate")));
    v.push(TypeFilter::Subtype(string_of("Rogue")));
    v.push(TypeFilter::Subtype(string_of("Warlock")));
    proof {
        crate::types::ability::lemma_tfvs_index(v@);
        assert(tfvs(v@) =~= seq![
            TypeFilterView::Subtype("Assassin"@),
            TypeFilterView::Subtype("Mercenary"@),
            TypeFilterView::Subtype("Pirate"@),
            TypeFilterView::Subtype("Rogue"@),
            TypeFilterView::Subtype("Warlock"@),
        ]);
    }
    TypeFilter::AnyOf(v)
}

fn type_word(input: &str) -> (r: Option<(usize, TypeFilter)>)
    ensures
        match type_word_match(input@) {
            Some((k, t)) => (r matches Some((k2, t2)) && k2 == k && tfv(t2) == t) && k <= input@.len(),
            None => r is None,
        },
{
    let ol: usize = if let Some(k) = match_prefix(input, "outlaws") {
        k
    } else if let Some(k) = match_prefix(input, "outlaw") {
        k
    } else {
        0
    };
    if ol > 0 && boundary(input, ol) {
        return Some((ol, outlaw_filter()));
    }
    if let Some(x) = type_table(input) {
        return Some(x);
    }
    match subtype_table(input) {
        Some((k, name)) => Some((k, TypeFilter::Subtype(name))),
        None => None,
    }
}

fn type_list(input: &str) -> (r: Option<(usize, Vec<TypeFilter>)>)
    ensures
        match type_list_match(input@) {
            Some((k, ts)) => (r matches Some((k2, v)) && k2 == k && tfvs(v@) == ts) && k <= input@.len(),
            None => r is None,
        },
{
    let (k1, first) = match type_word(input) {
        Some(x) => x,
        None => return None,
    };
    let ghost m0 = more_types(input@.skip(k1 as int));
    let ghost mut acc: Seq<TypeFilterView> = Seq::empty();
    let ghost t1v = tfv(first);
    let mut types: Vec<TypeFilter> = Vec::new();
    types.push(first);
    assert(tfvs(types@) =~= seq![t1v] + acc) by {
        assert(types@.drop_last() =~= Seq::<TypeFilter>::empty());
        assert(types@.last() == first);
        assert(tfvs(types@.drop_last()) =~= Seq::<TypeFilterView>::empty());
        assert(tfvs(types@) == tfvs(types@.drop_last()).push(tfv(types@.last())));
    }
    let mut pos = k1;
    let len = input.unicode_len();
    loop
        invariant
            k1 <= pos <= len,
            len == input@.len(),
            tfvs(types@) == seq![t1v] + acc,
            m0.0 == (pos - k1) + more_types(input@.skip(pos as int)).0,
            m0.1 == acc + more_types(input@.skip(pos as int)).1,
        ensures
            k1 <= pos <= len,
            tfvs(types@) == seq![t1v] + acc,
            m0.0 == pos - k1,
            m0.1 == acc,
        decreases len - pos,
    {
        let cur = rest_after(input, pos);
        let o = match match_prefix(cur, " or ") {
            Some(o) => o,
            None => {
                assert(more_types(cur@) == (0nat, Seq::<TypeFilterView>::empty()));
                assert(acc + Seq::<TypeFilterView>::empty() =~= acc);
                break ;
            },
        };
        let after = rest_after(cur, o);
        let (k, t) = match type_word(after) {
            Some(x) => x,
            None => {
                assert(more_types(cur@) == (0nat, Seq::<TypeFilterView>::empty()));
                assert(acc + Seq::<TypeFilterView>::empty() =~= acc);
                break ;
            },
        };
        proof {
            assert(after@ == cur@.skip(o as int));
            assert(o + k <= cur@.len());
            assert(cur@.skip((o + k) as int) =~= input@.skip((pos + o + k) as int));
            assert(more_types(cur@) == ((o + k + more_types(cur@.skip((o + k) as int)).0) as nat, seq![tfv(t)]
                + more_types(cur@.skip((o + k) as int)).1));
            assert(types@.push(t).drop_last() =~= types@);
            assert(tfvs(types@.push(t)) =~= seq![t1v] + acc.push(tfv(t)));
            assert(acc + (seq![tfv(t)] + more_types(cur@.skip((o + k) as int)).1) =~= acc.push(tfv(t)) + more_types(
                cur@.skip((o + k) as int),
            ).1);
            acc = acc.push(tfv(t));
        }
        types.push(t);
        pos = pos + o + k;
    }
    Some((pos, types))
}

fn controller_part(input: &str) -> (r: Option<(usize, ControllerRef)>)
    ensures
        match controller_part_match(input@) {
            Some((k, c)) => r == Some((k as usize, c)) && k <= input@.len(),
            None => r is None,
        },
{
    let b = blanks(input);
    if b < 1 {
        return None;
    }
    let rest = rest_after(input, b);
    match controller_suffix(rest) {
        Some((k, c)) => {
            assert(b + k <= input@.len()) by {
                assert(rest@.len() == input@.len() - b);
            }
            Some((b + k, c))
        },
        None => None,
    }
}

/// The type tests of a type phrase: one test as it is, several as one
/// "any of" test; negated after a "non" prefix.
pub open spec fn phrase_type_filters(types: Seq<TypeFilterView>, negate: bool) -> Seq<TypeFilterView> {
    let tfs = if types.len() == 1 {
        types
    } else {
        seq![TypeFilterView::AnyOf(types)]
    };
    if negate {
        seq![TypeFilterView::Non(Box::new(tfs[0]))]
    } else {
        tfs
    }
}

/// The properties of a type phrase: its color, then its supertype.
pub open spec fn phrase_props(col: Option<ManaColor>, st: Option<Supertype>) -> Seq<FilterProp> {
    let a: Seq<FilterProp> = match col {
        Some(c) => seq![FilterProp::HasColor { color: c }],
        None => Seq::empty(),
    };
    let b: Seq<FilterProp> = match st {
        Some(t) => seq![FilterProp::HasSupertype { value: t }],
        None => Seq::empty(),
    };
    a + b
}

fn single_type_filter(t: TypeFilter) -> (v: Vec<TypeFilter>)
    ensures
        tfvs(v@) == seq![tfv(t)],
{
    let ghost tg = t;
    let mut v: Vec<TypeFilter> = Vec::new();
    v.push(t);
    proof {
        assert(v@.drop_last() =~= Seq::<TypeFilter>::empty());
        assert(v@.last() == tg);
        assert(tfvs(v@.drop_last()) =~= Seq::<TypeFilterView>::empty());
        assert(tfvs(v@) == tfvs(v@.drop_last()).push(tfv(v@.last())));
        assert(tfvs(v@) =~= seq![tfv(tg)]);
    }
    v
}

fn build_type_filters(types: Vec<TypeFilter>, negate: bool) -> (v: Vec<TypeFilter>)
    requires
        types@.len() >= 1,
    ensures
        tfvs(v@) == phrase_type_filters(tfvs(types@), negate),
{
    let ghost types_v = tfvs(types@);
    let ghost tg = types;
    let mut tfs: Vec<TypeFilter> = if types.len() == 1 {
        types
    } else {
        let v = single_type_filter(TypeFilter::AnyOf(types));
        assert(tfv(TypeFilter::AnyOf(tg)) == TypeFilterView::AnyOf(types_v));
        v
    };
    let ghost tfs_v = tfvs(tfs@);
    assert(tfs_v == if types_v.len() == 1 {
        types_v
    } else {
        seq![TypeFilterView::AnyOf(types_v)]
    }) by {
        crate::types::ability::lemma_tfvs_index(tg@);
    }
    if negate {
        proof {
            crate::types::ability::lemma_tfvs_index(tfs@);
        }
        let ghost t0 = tfs@[0];
        let first = tfs.remove(0);
        assert(first == t0);
        assert(tfv(t0) == tfs_v[0]);
        tfs = single_type_filter(TypeFilter::Non(Box::new(first)));
        assert(tfv(TypeFilter::Non(Box::new(t0))) == TypeFilterView::Non(Box::new(tfs_v[0])));
    }
    tfs
}

fn build_props(col: Option<ManaColor>, st: Option<Supertype>) -> (v: Vec<FilterProp>)
    ensures
        v@ == phrase_props(col, st),
{
    let mut props: Vec<FilterProp> = Vec::new();
    if let Some(cl) = col {
        props.push(FilterProp::HasColor { color: cl });
    }
    if let Some(t) = st {
        props.push(FilterProp::HasSupertype { value: t });
    }
    assert(props@ =~= phrase_props(col, st));
    props
}

fn type_phrase_prefix(input: &str) -> (r: Option<(usize, TypedFilter)>)
    ensures
        match type_phrase_match(input@) {
            Some((k, tv)) => (r matches Some((k2, tf)) && k2 == k && typed_view(tf) == tv) && k <= input@.len(),
            None => r is None,
        },
{
    let n: usize = if let Some(k) = match_prefix(input, "non-") {
        k
    } else if let Some(k) = match_prefix(input, "non") {
        k
    } else {
        0
    };
    let r1 = rest_after(input, n);
    let (a, st) = match supertype_prefix(r1) {
        Some((a, st)) => (a, Some(st)),
        None => (0, None),
    };
    let r2 = rest_after(r1, a);
    let (b, col) = match color_prefix(r2) {
        Some((b, c)) => (b, Some(c)),
        None => (0, None),
    };
    let r3 = rest_after(r2, b);
    let (c, types) = match type_list(r3) {
        Some(x) => x,
        None => return None,
    };
    let r4 = rest_after(r3, c);
    let (d, ctl) = match controller_part(r4) {
        Some((d, x)) => (d, Some(x)),
        None => (0, None),
    };
    proof {
        assert(r2@ == input@.skip(n as int).skip(a as int));
        assert(n + a + b + c + d <= input@.len()) by {
            assert(r1@.len() == input@.len() - n);
            assert(r2@.len() == r1@.len() - a);
            assert(r3@.len() == r2@.len() - b);
            assert(r4@.len() == r3@.len() - c);
        }
        crate::types::ability::lemma_tfvs_index(types@);
    }
    let tfs = build_type_filters(types, n > 0);
    let props = build_props(col, st);
    Some((n + a + b + c + d, TypedFilter { type_filters: tfs, controller: ctl, properties: props }))
}

/// Parse a type phrase: an optional "non" prefix, an optional supertype,
/// an optional color, one or more types joined by " or ", and an optional
/// controller suffix, into a typed filter. Hands back the text after it.
pub fn parse_type_phrase<'a>(input: &'a str) -> (r: Result<(&'a str, TargetFilter), OracleError>)
    ensures
        match type_phrase_match(input@) {
            Some((k, tv)) => (r matches Ok((rest, f)) && rest@ == input@.skip(k as int) && (f matches TargetFilter::Typed(
                tf,
            ) && typed_view(tf) == tv)),
            None => r == Err::<(&str, TargetFilter), OracleError>(OracleError::NoMatch),
        },
{
    match type_phrase_prefix(input) {
        Some((k, tf)) => Ok((rest_after(input, k), TargetFilter::Typed(tf))),
        None => Err(OracleError::NoMatch),
    }
}

/// Parse "target" and a type phrase ("target creature", "target artifact or
/// enchantment you control"). Hands back the text after it.
pub fn parse_target_phrase<'a>(input: &'a str) -> (r: Result<(&'a str, TargetFilter), OracleError>)
    ensures
        match target_phrase_match(input@) {
            Some((k, tv)) => (r matches Ok((rest, f)) && rest@ == input@.skip(k as int) && (f matches TargetFilter::Typed(
                tf,
            ) && typed_view(tf) == tv)),
            None => r == Err::<(&str, TargetFilter), OracleError>(OracleError::NoMatch),
        },
{
    let t = match match_prefix(input, "target") {
        Some(t) => t,
        None => return Err(OracleError::NoMatch),
    };
    let r1 = rest_after(input, t);
    let b = blanks(r1);
    if b < 1 {
        return Err(OracleError::NoMatch);
    }
    let r2 = rest_after(r1, b);
    match type_phrase_prefix(r2) {
        Some((k, tf)) => {
            proof {
                assert(r2@ == input@.skip((t + b) as int));
                assert(r2@.skip(k as int) =~= input@.skip((t + b + k) as int));
            }
            Ok((rest_after(r2, k), TargetFilter::Typed(tf)))
        },
        None => {
            assert(r2@ == input@.skip((t + b) as int));
            Err(OracleError::NoMatch)
        },
    }
}

/// CR 205.4a: parse a supertype word ("legendary", "basic", "snow"),
/// consuming nothing after it.
pub fn parse_supertype_word<'a>(input: &'a str) -> (r: Result<(&'a str, Supertype), OracleError>)
    ensures
        match supertype_word_match(input@) {
            Some((k, st)) => r matches Ok((rest, t)) && t == st && rest@ == input@.skip(k as int),
            None => r == Err::<(&str, Supertype), OracleError>(OracleError::NoMatch),
        },
{
    match supertype_word(input) {
        Some((k, st)) => Ok((rest_after(input, k), st)),
        None => Err(OracleError::NoMatch),
    }
}

/// Parse a supertype word and the blanks after it.
pub fn parse_supertype_prefix<'a>(input: &'a str) -> (r: Result<(&'a str, Supertype), OracleError>)
    ensures
        match supertype_prefix_match(input@) {
            Some((k, st)) => r matches Ok((rest, t)) && t == st && rest@ == input@.skip(k as int),
            None => r == Err::<(&str, Supertype), OracleError>(OracleError::NoMatch),
        },
{
    match supertype_prefix(input) {
        Some((k, st)) => Ok((rest_after(input, k), st)),
        None => Err(OracleError::NoMatch),
    }
}

/// Parse a controller suffix: "you control", "an opponent controls",
/// "your opponents control", "target player controls" (CR 109.4, CR 115.1).
pub fn parse_controller_suffix<'a>(input: &'a str) -> (r: Result<(&'a str, ControllerRef), OracleError>)
    ensures
        match controller_suffix_match(input@) {
            Some((k, c)) => r matches Ok((rest, c2)) && c2 == c && rest@ == input@.skip(k as int),
            None => r == Err::<(&str, ControllerRef), OracleError>(OracleError::NoMatch),
        },
{
    match controller_suffix(input) {
        Some((k, c)) => Ok((rest_after(input, k), c)),
        None => Err(OracleError::NoMatch),
    }
}

/// Parse one type word, singular or plural: the outlaw head noun (CR
/// 700.12), a card type, "spell" (a card, CR 112.1), or a subtype.
pub fn parse_type_filter_word<'a>(input: &'a str) -> (r: Result<(&'a str, TypeFilter), OracleError>)
    ensures
        match type_word_match(input@) {
            Some((k, tv)) => r matches Ok((rest, t)) && tfv(t) == tv && rest@ == input@.skip(k as int),
            None => r == Err::<(&str, TypeFilter), OracleError>(OracleError::NoMatch),
        },
{
    match type_word(input) {
        Some((k, t)) => Ok((rest_after(input, k), t)),
        None => Err(OracleError::NoMatch),
    }
}

fn it_boundary_exec(input: &str, k: usize) -> (r: bool)
    requires
        k <= input@.len(),
    ensures
        r == it_boundary(input@, k as nat),
{
    if k >= input.unicode_len() {
        return true;
    }
    let c = input.get_char(k);
    c == ' ' || c == ',' || c == ';' || c == '.' || c == ':' || c == ')' || c == '/' || c == '\'' || c == '"'
}

fn self_reference_len(input: &str) -> (r: Option<usize>)
    ensures
        match self_reference_match(input@) {
            Some(k) => r == Some(k as usize) && k <= input@.len(),
            None => r is None,
        },
{
    if let Some(k) = match_prefix(input, "~") {
        return Some(k);
    }
    if let Some(k) = match_prefix(input, "it") {
        if it_boundary_exec(input, k) {
            return Some(k);
        }
    }
    if let Some(k) = match_prefix(input, "itself") {
        if boundary(input, k) {
            return Some(k);
        }
    }
    if let Some(k) = match_prefix(input, "this creature") {
        return Some(k);
    }
    if let Some(k) = match_prefix(input, "this permanent") {
        return Some(k);
    }
    if let Some(k) = match_prefix(input, "this spell") {
        return Some(k);
    }
    if let Some(k) = match_prefix(input, "this card") {
        return Some(k);
    }
    if let Some(k) = match_prefix(input, "this enchantment") {
        return Some(k);
    }
    if let Some(k) = match_prefix(input, "this artifact") {
        return Some(k);
    }
    if let Some(k) = match_prefix(input, "this land") {
        return Some(k);
    }
    if let Some(k) = match_prefix(input, "this attraction") {
        return Some(k);
    }
    None
}

/// Parse a self-reference (CR 201.5): "~", "it", "itself", "this creature",
/// "this permanent", "this spell", "this card", "this enchantment", "this
/// artifact", "this land", "this attraction"; "it" and "itself" only as
/// whole words.
pub fn parse_self_reference<'a>(input: &'a str) -> (r: Result<(&'a str, TargetFilter), OracleError>)
    ensures
        match self_reference_match(input@) {
            Some(k) => r matches Ok((rest, f)) && f == TargetFilter::SelfRef && rest@ == input@.skip(k as int),
            None => r == Err::<(&str, TargetFilter), OracleError>(OracleError::NoMatch),
        },
{
    match self_reference_len(input) {
        Some(k) => Ok((rest_after(input, k), TargetFilter::SelfRef)),
        None => Err(OracleError::NoMatch),
    }
}

fn event_context(input: &str) -> (r: Option<(usize, TargetFilter)>)
    ensures
        match event_context_match(input@) {
            Some((k, f)) => r == Some((k as usize, f)) && k <= input@.len(),
            None => r is None,
        },
{
    if let Some(k) = match_prefix(input, "that spell's controller") {
        return Some((k, TargetFilter::TriggeringSpellController));
    }
    if let Some(k) = match_prefix(input, "that spell's owner") {
        return Some((k, TargetFilter::TriggeringSpellOwner));
    }
    if let Some(k) = match_prefix(input, "that spell") {
        return Some((k, TargetFilter::TriggeringSource));
    }
    if let Some(k) = match_prefix(input, "that creature") {
        return Some((k, TargetFilter::TriggeringSource));
    }
    if let Some(k) = match_prefix(input, "that permanent") {
        return Some((k, TargetFilter::TriggeringSource));
    }
    if let Some(k) = match_prefix(input, "that card") {
        return Some((k, TargetFilter::TriggeringSource));
    }
    if let Some(k) = match_prefix(input, "that player") {
        return Some((k, TargetFilter::TriggeringPlayer));
    }
    if let Some(k) = match_prefix(input, "the defending player") {
        return Some((k, TargetFilter::DefendingPlayer));
    }
    if let Some(k) = match_prefix(input, "defending player") {
        return Some((k, TargetFilter::DefendingPlayer));
    }
    if let Some(k) = match_prefix(input, "the player") {
        return Some((k, TargetFilter::TriggeringPlayer));
    }
    None
}

/// Parse a reference to what the triggering event names: "that spell's
/// controller", "that spell's owner", "that spell", "that creature", "that
/// permanent", "that card", "that player", "the defending player",
/// "defending player" (CR 506.3d), "the player" (CR 608.2k); longer phrases
/// first.
pub fn parse_event_context_ref<'a>(input: &'a str) -> (r: Result<(&'a str, TargetFilter), OracleError>)
    ensures
        match event_context_match(input@) {
            Some((k, f)) => r matches Ok((rest, g)) && g == f && rest@ == input@.skip(k as int),
            None => r == Err::<(&str, TargetFilter), OracleError>(OracleError::NoMatch),
        },
{
    match event_context(input) {
        Some((k, f)) => Ok((rest_after(input, k), f)),
        None => Err(OracleError::NoMatch),
    }
}

fn restricted_spell(input: &str) -> (r: Option<(usize, TypedFilter)>)
    ensures
        match restricted_spell_match(input@) {
            Some((k, tv)) => (r matches Some((k2, tf)) && k2 == k && typed_view(tf) == tv) && k <= input@.len(),
            None => r is None,
        },
{
    let (k, tf) = match type_phrase_prefix(input) {
        Some(x) => x,
        None => return None,
    };
    proof {
        crate::types::ability::lemma_tfvs_index(tf.type_filters@);
    }
    let bare = tf.type_filters.len() == 1 && matches!(tf.type_filters[0], TypeFilter::Card);
    assert(bare == (tfvs(tf.type_filters@) == seq![TypeFilterView::Card])) by {
        if tfvs(tf.type_filters@) == seq![TypeFilterView::Card] {
            assert(tfvs(tf.type_filters@)[0] == tfv(tf.type_filters@[0]));
        }
        if bare {
            assert(tfvs(tf.type_filters@) =~= seq![TypeFilterView::Card]);
        }
    }
    let rest = rest_after(input, k);
    let total = match match_prefix(rest, " spell") {
        Some(m) => {
            assert(k + m <= input@.len()) by {
                assert(rest@.len() == input@.len() - k);
            }
            k + m
        },
        None => {
            if bare {
                k
            } else {
                return None;
            }
        },
    };
    let mut stacked = tf;
    let mut has_stack = false;
    let mut i: usize = 0;
    while i < stacked.properties.len()
        invariant
            i <= stacked.properties@.len(),
            has_stack == exists|j: int| 0 <= j < i && stacked.properties@[j] == (FilterProp::InZone { zone: Zone::Stack }),
        decreases stacked.properties@.len() - i,
    {
        if matches!(stacked.properties[i], FilterProp::InZone { zone: Zone::Stack }) {
            has_stack = true;
        }
        i = i + 1;
    }
    if !has_stack {
        stacked.properties.push(FilterProp::InZone { zone: Zone::Stack });
    }
    Some((total, stacked))
}

fn ability_kind(input: &str) -> (r: usize)
    ensures
        r == ability_kind_len(input@),
        r <= input@.len(),
{
    if let Some(k) = match_prefix(input, "activated ability, triggered ability") {
        return k;
    }
    if let Some(k) = match_prefix(input, "activated or triggered ability") {
        return k;
    }
    if let Some(k) = match_prefix(input, "triggered or activated ability") {
        return k;
    }
    if let Some(k) = match_prefix(input, "triggered ability or activated ability") {
        return k;
    }
    if let Some(k) = match_prefix(input, "activated ability or triggered ability") {
        return k;
    }
    if let Some(k) = match_prefix(input, "triggered ability") {
        return k;
    }
    if let Some(k) = match_prefix(input, "activated ability") {
        return k;
    }
    0
}

fn connector(input: &str) -> (r: usize)
    ensures
        r == connector_len(input@),
        r <= input@.len(),
{
    if let Some(k) = match_prefix(input, ", or ") {
        return k;
    }
    if let Some(k) = match_prefix(input, " or ") {
        return k;
    }
    if let Some(k) = match_prefix(input, ", ") {
        return k;
    }
    0
}

/// CR 701.6a, CR 113.3b, CR 113.3c, CR 115.1: parse the stack objects a
/// counter or retarget effect names: "spell or ability" (and "spell and/or
/// ability", "ability or spell") for spells and abilities; an ability-kind
/// phrase ("activated ability, triggered ability", "activated or triggered
/// ability", ...) for abilities, or, with a spell phrase after "[,] or",
/// those abilities or the spells it admits, kept to the stack. A phrase
/// naming spells alone is not matched.
pub fn parse_stack_object_target<'a>(input: &'a str) -> (r: Result<(&'a str, TargetFilter), OracleError>)
    ensures
        match stack_object_match(input@) {
            Some((k, v)) => r matches Ok((rest, f)) && stack_filter_is(f, v) && rest@ == input@.skip(k as int),
            None => r == Err::<(&str, TargetFilter), OracleError>(OracleError::NoMatch),
        },
{
    let both: Option<usize> = if let Some(k) = match_prefix(input, "spell or ability") {
        Some(k)
    } else if let Some(k) = match_prefix(input, "spell and/or ability") {
        Some(k)
    } else if let Some(k) = match_prefix(input, "ability or spell") {
        Some(k)
    } else {
        None
    };
    if let Some(both) = both {
        let mut fs: Vec<TargetFilter> = Vec::new();
        fs.push(TargetFilter::StackSpell);
        fs.push(TargetFilter::StackAbility { controller: None });
        assert(fs@ =~= seq![TargetFilter::StackSpell, TargetFilter::StackAbility { controller: None }]);
        return Ok((rest_after(input, both), TargetFilter::Or { filters: fs }));
    }
    let a = ability_kind(input);
    if a == 0 {
        return Err(OracleError::NoMatch);
    }
    let r1 = rest_after(input, a);
    let c = connector(r1);
    if c > 0 {
        let r2 = rest_after(r1, c);
        if let Some((k, tf)) = restricted_spell(r2) {
            proof {
                assert(r2@ == input@.skip(a as int).skip(c as int));
                assert(r2@.skip(k as int) =~= input@.skip((a + c + k) as int));
            }
            let mut fs: Vec<TargetFilter> = Vec::new();
            fs.push(TargetFilter::StackAbility { controller: None });
            fs.push(TargetFilter::Typed(tf));
            return Ok((rest_after(r2, k), TargetFilter::Or { filters: fs }));
        }
    }
    Ok((r1, TargetFilter::StackAbility { controller: None }))
}

} // verus!
