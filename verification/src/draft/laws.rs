//! Properties of cube import and pack dealing that hold for every input.

use vstd::prelude::*;

use crate::draft::cube::{color_letter, cube_cards_outcome, cube_outcome, deal_position, lemma_copies_len, parse_cube_line, CubeListEntry};
use crate::seqs::{lemma_first_index_spec};
use crate::text::{trim};
use crate::types::card::CardFace;
use crate::types::mana::{shard_colors, shard_symbol, ManaColor, ManaCostShard};

verus! {

/// Every entry read from a cube list has a positive count and a non-empty
/// name; and the numbers of the malformed lines are increasing, each at
/// most the number of lines.
pub proof fn law_cube_entries_well_formed(ls: Seq<Seq<char>>)
    ensures
        forall|i: int|
            0 <= i < cube_outcome(ls).0.len() ==> (#[trigger] cube_outcome(ls).0[i]).1 > 0
                && cube_outcome(ls).0[i].0.len() > 0,
        forall|i: int, j: int|
            0 <= i < j < cube_outcome(ls).1.len() ==> #[trigger] cube_outcome(ls).1[i]
                < #[trigger] cube_outcome(ls).1[j],
        forall|i: int|
            0 <= i < cube_outcome(ls).1.len() ==> 1 <= #[trigger] cube_outcome(ls).1[i] <= ls.len(),
    decreases ls.len(),
{
    if ls.len() > 0 {
        law_cube_entries_well_formed(ls.drop_last());
        let prev = cube_outcome(ls.drop_last());
        let line = trim(ls.last());
        if line.len() > 0 {
            match parse_cube_line(line) {
                Some(e) => {
                    assert forall|i: int|
                        0 <= i < prev.0.push(e).len() implies (#[trigger] prev.0.push(e)[i]).1 > 0
                        && prev.0.push(e)[i].0.len() > 0 by {
                        if i < prev.0.len() {
                            assert(prev.0.push(e)[i] == prev.0[i]);
                        }
                    }
                },
                None => {
                    let b = prev.1.push(ls.len());
                    assert forall|i: int, j: int| 0 <= i < j < b.len() implies #[trigger] b[i]
                        < #[trigger] b[j] by {
                        if j < prev.1.len() {
                            assert(b[i] == prev.1[i] && b[j] == prev.1[j]);
                        } else {
                            assert(b[i] == prev.1[i]);
                        }
                    }
                    assert forall|i: int| 0 <= i < b.len() implies 1 <= #[trigger] b[i] <= ls.len() by {
                        if i < prev.1.len() {
                            assert(b[i] == prev.1[i]);
                        }
                    }
                },
            }
        }
    }
}

/// Total of the entries' counts.
pub open spec fn total_count(es: Seq<CubeListEntry>) -> nat
    decreases es.len(),
{
    if es.len() == 0 {
        0
    } else {
        total_count(es.drop_last()) + es.last().count as nat
    }
}

/// When every name is known, the cube has exactly as many cards as the
/// entries' counts add up to.
pub proof fn law_cube_has_one_card_per_copy(es: Seq<CubeListEntry>, faces: Seq<CardFace>)
    ensures
        cube_cards_outcome(es, faces).1.len() == 0 ==> cube_cards_outcome(es, faces).0.len()
            == total_count(es),
    decreases es.len(),
{
    if es.len() > 0 {
        law_cube_has_one_card_per_copy(es.drop_last(), faces);
        let prev = cube_cards_outcome(es.drop_last(), faces);
        let p = crate::database::face_index(faces, es.last().name@);
        if p >= 0 {
            lemma_first_index_spec(faces, |f: CardFace| f.name@ == es.last().name@);
            lemma_copies_len(faces[p], prev.0.len(), es.last().count as nat);
        }
    }
}

/// Packs are dealt without replacement: two different slots (seat, pack,
/// card) receive cards from two different positions of the shuffled cube,
/// and every position used is below seats × packs × cards per pack.
pub proof fn law_deal_without_replacement(
    seats: nat,
    pack_count: nat,
    per_pack: nat,
    s1: nat,
    p1: nat,
    k1: nat,
    s2: nat,
    p2: nat,
    k2: nat,
)
    requires
        s1 < seats && p1 < pack_count && k1 < per_pack,
        s2 < seats && p2 < pack_count && k2 < per_pack,
        (s1, p1, k1) != (s2, p2, k2),
    ensures
        deal_position(seats, per_pack, s1, p1, k1) != deal_position(seats, per_pack, s2, p2, k2),
        deal_position(seats, per_pack, s1, p1, k1) < seats * pack_count * per_pack,
{
    let a = p1 * seats + s1;
    let b = p2 * seats + s2;
    assert(a * per_pack + k1 < seats * pack_count * per_pack) by (nonlinear_arith)
        requires
            s1 < seats,
            p1 < pack_count,
            k1 < per_pack,
            a == p1 * seats + s1,
    ;
    if a == b {
        assert(p1 == p2 && s1 == s2) by (nonlinear_arith)
            requires
                a == b,
                a == p1 * seats + s1,
                b == p2 * seats + s2,
                s1 < seats,
                s2 < seats,
        ;
        assert(k1 != k2);
    } else {
        assert(a * per_pack + k1 != b * per_pack + k2) by (nonlinear_arith)
            requires
                a != b,
                k1 < per_pack,
                k2 < per_pack,
        ;
    }
}

/// CR 105.1 + CR 107.4: the letter a draft card shows for a color is the
/// mana symbol of that color alone: read as a symbol it names exactly that
/// color, there is such a symbol for every color, and no two colors share a
/// letter.
pub proof fn law_color_letter_is_its_mana_symbol(c: ManaColor, d: ManaColor, s: ManaCostShard)
    ensures
        shard_symbol(s) == color_letter(c) ==> shard_colors(s) == seq![c],
        exists|t: ManaCostShard| shard_symbol(t) == color_letter(c),
        color_letter(c) == color_letter(d) ==> c == d,
{
    reveal_strlit("W");
    reveal_strlit("U");
    reveal_strlit("B");
    reveal_strlit("R");
    reveal_strlit("G");
    if shard_symbol(s) == color_letter(c) {
        assert(shard_symbol(s).len() == color_letter(c).len());
        assert(shard_symbol(s)[0] == color_letter(c)[0]);
    }
    match c {
        ManaColor::White => {},
        ManaColor::Blue => {},
        ManaColor::Black => {},
        ManaColor::Red => {},
        ManaColor::Green => {},
    }
    match s {
        ManaCostShard::White => {
            reveal_strlit("W");
        },
        ManaCostShard::Blue => {
            reveal_strlit("U");
        },
        ManaCostShard::Black => {
            reveal_strlit("B");
        },
        ManaCostShard::Red => {
            reveal_strlit("R");
        },
        ManaCostShard::Green => {
            reveal_strlit("G");
        },
        ManaCostShard::Colorless => {
            reveal_strlit("C");
        },
        ManaCostShard::Snow => {
            reveal_strlit("S");
        },
        ManaCostShard::X => {
            reveal_strlit("X");
        },
        ManaCostShard::TwoOrMoreColorSource => {
            reveal_strlit("Z");
        },
        ManaCostShard::WhiteBlue => {
            reveal_strlit("W/U");
        },
        ManaCostShard::WhiteBlack => {
            reveal_strlit("W/B");
        },
        ManaCostShard::BlueBlack => {
            reveal_strlit("U/B");
        },
        ManaCostShard::BlueRed => {
            reveal_strlit("U/R");
        },
        ManaCostShard::BlackRed => {
            reveal_strlit("B/R");
        },
        ManaCostShard::BlackGreen => {
            reveal_strlit("B/G");
        },
        ManaCostShard::RedWhite => {
            reveal_strlit("R/W");
        },
        ManaCostShard::RedGreen => {
            reveal_strlit("R/G");
        },
        ManaCostShard::GreenWhite => {
            reveal_strlit("G/W");
        },
        ManaCostShard::GreenBlue => {
            reveal_strlit("G/U");
        },
        ManaCostShard::TwoWhite => {
            reveal_strlit("2/W");
        },
        ManaCostShard::TwoBlue => {
            reveal_strlit("2/U");
        },
        ManaCostShard::TwoBlack => {
            reveal_strlit("2/B");
        },
        ManaCostShard::TwoRed => {
            reveal_strlit("2/R");
        },
        ManaCostShard::TwoGreen => {
            reveal_strlit("2/G");
        },
        ManaCostShard::PhyrexianWhite => {
            reveal_strlit("W/P");
        },
        ManaCostShard::PhyrexianBlue => {
            reveal_strlit("U/P");
        },
        ManaCostShard::PhyrexianBlack => {
            reveal_strlit("B/P");
        },
        ManaCostShard::PhyrexianRed => {
            reveal_strlit("R/P");
        },
        ManaCostShard::PhyrexianGreen => {
            reveal_strlit("G/P");
        },
        ManaCostShard::PhyrexianWhiteBlue => {
            reveal_strlit("W/U/P");
        },
        ManaCostShard::PhyrexianWhiteBlack => {
            reveal_strlit("W/B/P");
        },
        ManaCostShard::PhyrexianBlueBlack => {
            reveal_strlit("U/B/P");
        },
        ManaCostShard::PhyrexianBlueRed => {
            reveal_strlit("U/R/P");
        },
        ManaCostShard::PhyrexianBlackRed => {
            reveal_strlit("B/R/P");
        },
        ManaCostShard::PhyrexianBlackGreen => {
            reveal_strlit("B/G/P");
        },
        ManaCostShard::PhyrexianRedWhite => {
            reveal_strlit("R/W/P");
        },
        ManaCostShard::PhyrexianRedGreen => {
            reveal_strlit("R/G/P");
        },
        ManaCostShard::PhyrexianGreenWhite => {
            reveal_strlit("G/W/P");
        },
        ManaCostShard::PhyrexianGreenBlue => {
            reveal_strlit("G/U/P");
        },
        ManaCostShard::ColorlessWhite => {
            reveal_strlit("C/W");
        },
        ManaCostShard::ColorlessBlue => {
            reveal_strlit("C/U");
        },
        ManaCostShard::ColorlessBlack => {
            reveal_strlit("C/B");
        },
        ManaCostShard::ColorlessRed => {
            reveal_strlit("C/R");
        },
        ManaCostShard::ColorlessGreen => {
            reveal_strlit("C/G");
        },
    }
    let t = match c {
        ManaColor::White => ManaCostShard::White,
        ManaColor::Blue => ManaCostShard::Blue,
        ManaColor::Black => ManaCostShard::Black,
        ManaColor::Red => ManaCostShard::Red,
        ManaColor::Green => ManaCostShard::Green,
    };
    assert(shard_symbol(t) == color_letter(c));
    if color_letter(c) == color_letter(d) {
        assert(color_letter(c)[0] == color_letter(d)[0]);
    }
}

} // verus!
