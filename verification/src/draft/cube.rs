//! Cube drafting: importing a counted card list, turning it into draft card
//! instances, resolving the cards a deck may add, and dealing packs from
//! the cube without replacement.

use vstd::prelude::*;

use crate::database::{db_well_formed, face_index, CardDatabase};
use crate::seqs::{first_index, lemma_first_index_found, lemma_first_index_none};
use crate::text::{
    append_chars, char_is_ws, decimal, decimal_chars, decimal_string, is_ws, parse_u32, slice_to_vec, str_chars,
    string_from_chars, string_of, trim, trim_bounds, u32_numeral,
};
use crate::types::card::CardFace;
use crate::types::card_type::core_type_text;
use crate::types::mana::{mana_value_of, ManaColor};

verus! {

// ---------------------------------------------------------------------------
// Types
// ---------------------------------------------------------------------------
/// One line of a cube list: a card name and how many copies.
#[derive(Debug, Clone, PartialEq, Eq)]
pub struct CubeListEntry {
    pub name: String,
    pub count: u32,
}

/// Why a cube list or a list of card names was refused.
#[derive(Debug, Clone, PartialEq, Eq)]
pub enum CubeImportError {
    /// The line (numbered from 1) is not `<count> <card name>`.
    InvalidLine { line: usize },
    /// No card of this name is known.
    UnknownCard { name: String },
}

/// One card as it is dealt in a draft.
#[derive(Debug, Clone, PartialEq, Eq)]
pub struct DraftCardInstance {
    pub instance_id: String,
    pub name: String,
    pub set_code: String,
    pub collector_number: String,
    pub rarity: String,
    pub colors: Vec<String>,
    pub cmc: u8,
    pub type_line: String,
}

/// Mathematical view of a draft card.
pub struct DraftCardView {
    pub instance_id: Seq<char>,
    pub name: Seq<char>,
    pub set_code: Seq<char>,
    pub collector_number: Seq<char>,
    pub rarity: Seq<char>,
    pub colors: Seq<Seq<char>>,
    pub cmc: u8,
    pub type_line: Seq<char>,
}

pub open spec fn string_views(v: Seq<String>) -> Seq<Seq<char>> {
    v.map_values(|s: String| s@)
}

impl View for DraftCardInstance {
    type V = DraftCardView;

    open spec fn view(&self) -> DraftCardView {
        DraftCardView {
            instance_id: self.instance_id@,
            name: self.name@,
            set_code: self.set_code@,
            collector_number: self.collector_number@,
            rarity: self.rarity@,
            colors: string_views(self.colors@),
            cmc: self.cmc,
            type_line: self.type_line@,
        }
    }
}

/// Which cards a deck built from a draft may add beyond the picks.
#[derive(Debug, Clone, Copy, PartialEq, Eq, Structural)]
pub enum DeckAddableCardPolicy {
    StandardBasics,
    CustomOnly,
}

/// The cards a deck may add: a policy and a list of card names.
#[derive(Debug, Clone, PartialEq, Eq)]
pub struct DeckAddableCards {
    pub policy: DeckAddableCardPolicy,
    pub custom: Vec<String>,
}

/// The shape of a draft: packs per player and cards per pack.
#[derive(Debug, Clone, Copy, PartialEq, Eq, Structural)]
pub struct DraftConfig {
    pub pack_count: u8,
    pub cards_per_pack: u8,
}

/// Why packs could not be dealt.
#[derive(Debug, Clone, Copy, PartialEq, Eq, Structural)]
pub enum DraftError {
    InsufficientCards { available: usize, required: usize },
}

/// One pack of cards.
#[derive(Debug, Clone, PartialEq, Eq)]
pub struct DraftPack(pub Vec<DraftCardInstance>);

/// Deals packs from the cards of a cube.
pub struct CubePackSource {
    pub cards: Vec<DraftCardInstance>,
}

// ---------------------------------------------------------------------------
// Parsing a cube list
// ---------------------------------------------------------------------------
/// Pieces of `s` between line feeds, from `start`, scanning at `i`; a final
/// empty piece is not a line.
pub open spec fn nl_pieces_from(s: Seq<char>, start: int, i: int) -> Seq<Seq<char>>
    decreases s.len() - i,
{
    if i >= s.len() || start > i || start < 0 {
        if 0 <= start < s.len() {
            seq![s.subrange(start, s.len() as int)]
        } else {
            Seq::empty()
        }
    } else if s[i] == '\n' {
        seq![s.subrange(start, i)].add(nl_pieces_from(s, i + 1, i + 1))
    } else {
        nl_pieces_from(s, start, i + 1)
    }
}

/// The lines of a text (`str::lines`, before the trimming that makes a
/// carriage return before the line feed irrelevant).
pub open spec fn text_lines(s: Seq<char>) -> Seq<Seq<char>> {
    nl_pieces_from(s, 0, 0)
}

pub open spec fn ws_pred() -> spec_fn(char) -> bool {
    |c: char| is_ws(c)
}

/// A trimmed, non-empty line read as `<count> <card name>`: the count is
/// the text before the first whitespace character, read as a number; the
/// name is the rest, trimmed. `None` when there is no whitespace, the count
/// is not a number or is zero, or the name is empty.
pub open spec fn parse_cube_line(line: Seq<char>) -> Option<(Seq<char>, u32)> {
    let p = first_index(line, ws_pred());
    if p < 0 {
        None
    } else {
        match u32_numeral(line.subrange(0, p)) {
            None => None,
            Some(n) => {
                let name = trim(line.subrange(p + 1, line.len() as int));
                if n == 0 || name.len() == 0 {
                    None
                } else {
                    Some((name, n))
                }
            },
        }
    }
}

/// The entries read from the lines, and the numbers (from 1) of the lines
/// that are neither blank nor well formed.
pub open spec fn cube_outcome(ls: Seq<Seq<char>>) -> (Seq<(Seq<char>, u32)>, Seq<nat>)
    decreases ls.len(),
{
    if ls.len() == 0 {
        (Seq::empty(), Seq::empty())
    } else {
        let prev = cube_outcome(ls.drop_last());
        let line = trim(ls.last());
        if line.len() == 0 {
            prev
        } else {
            match parse_cube_line(line) {
                Some(e) => (prev.0.push(e), prev.1),
                None => (prev.0, prev.1.push(ls.len())),
            }
        }
    }
}

pub open spec fn entry_views(v: Seq<CubeListEntry>) -> Seq<(Seq<char>, u32)> {
    v.map_values(|e: CubeListEntry| (e.name@, e.count))
}

pub open spec fn invalid_lines(ns: Seq<nat>) -> Seq<CubeImportError> {
    ns.map_values(|k: nat| CubeImportError::InvalidLine { line: k as usize })
}

/// Reads one trimmed, non-empty line.
fn parse_line(line: &[char]) -> (r: Option<(Vec<char>, u32)>)
    ensures
        match r {
            Some((name, n)) => parse_cube_line(line@) == Some((name@, n)),
            None => parse_cube_line(line@) is None,
        },
{
    let mut p: usize = 0;
    while p < line.len() && !char_is_ws(line[p])
        invariant
            p <= line@.len(),
            forall|q: int| 0 <= q < p ==> !ws_pred()(#[trigger] line@[q]),
        decreases line@.len() - p,
    {
        p = p + 1;
    }
    if p == line.len() {
        proof {
            lemma_first_index_none(line@, ws_pred());
        }
        return None;
    }
    proof {
        lemma_first_index_found(line@, ws_pred(), p as int);
    }
    let count_text = slice_to_vec(line, 0, p);
    let count = match parse_u32(count_text.as_slice()) {
        Some(c) => c,
        None => {
            return None;
        },
    };
    let rest = slice_to_vec(line, p + 1, line.len());
    let (a, b) = trim_bounds(rest.as_slice());
    let name = slice_to_vec(rest.as_slice(), a, b);
    if count == 0 || name.len() == 0 {
        return None;
    }
    Some((name, count))
}

/// Reads one more line of a cube list into the entries or the errors.
fn absorb_line(
    piece: &[char],
    line_no: usize,
    entries: &mut Vec<CubeListEntry>,
    errors: &mut Vec<CubeImportError>,
    Ghost(done): Ghost<Seq<Seq<char>>>,
)
    requires
        line_no == done.len(),
        line_no < usize::MAX,
        entry_views(old(entries)@) == cube_outcome(done).0,
        old(errors)@ == invalid_lines(cube_outcome(done).1),
    ensures
        entry_views(final(entries)@) == cube_outcome(done.push(piece@)).0,
        final(errors)@ == invalid_lines(cube_outcome(done.push(piece@)).1),
{
    let ghost next = done.push(piece@);
    assert(next.drop_last() =~= done);
    assert(next.last() == piece@);
    let (a, b) = trim_bounds(piece);
    let line = slice_to_vec(piece, a, b);
    if line.len() > 0 {
        match parse_line(line.as_slice()) {
            Some((name, count)) => {
                let ghost e0 = entries@;
                entries.push(CubeListEntry { name: string_from_chars(name.as_slice()), count });
                assert(entry_views(entries@) =~= entry_views(e0).push((name@, count)));
            },
            None => {
                errors.push(CubeImportError::InvalidLine { line: line_no + 1 });
                assert(errors@ =~= invalid_lines(cube_outcome(done).1.push(next.len())));
            },
        }
    }
}

/// Reads a cube list: one `<count> <card name>` per line, blank lines
/// ignored. `Ok` with the entries in order when every other line is well
/// formed; else `Err` with one `InvalidLine` per malformed line, in order.
pub fn parse_cube_list(text: &str) -> (r: Result<Vec<CubeListEntry>, Vec<CubeImportError>>)
    ensures
        ({
            let out = cube_outcome(text_lines(text@));
            match r {
                Ok(v) => out.1.len() == 0 && entry_views(v@) == out.0,
                Err(v) => out.1.len() > 0 && v@ == invalid_lines(out.1),
            }
        }),
{
    let cs = str_chars(text);
    let n = cs.len();
    let mut entries: Vec<CubeListEntry> = Vec::new();
    let mut errors: Vec<CubeImportError> = Vec::new();
    let ghost mut done: Seq<Seq<char>> = Seq::empty();
    let mut start: usize = 0;
    let mut i: usize = 0;
    let mut line_no: usize = 0;
    while i < n
        invariant
            n == cs@.len(),
            start <= i <= n,
            done + nl_pieces_from(cs@, start as int, i as int) == text_lines(cs@),
            line_no == done.len(),
            line_no <= start,
            entry_views(entries@) == cube_outcome(done).0,
            errors@ == invalid_lines(cube_outcome(done).1),
        decreases n - i,
    {
        if cs[i] == '\n' {
            let piece = slice_to_vec(cs.as_slice(), start, i);
            proof {
                assert(nl_pieces_from(cs@, start as int, i as int) == seq![piece@].add(
                    nl_pieces_from(cs@, i + 1, i + 1),
                ));
                assert(done.push(piece@) + nl_pieces_from(cs@, i + 1, i + 1) =~= text_lines(cs@));
            }
            absorb_line(piece.as_slice(), line_no, &mut entries, &mut errors, Ghost(done));
            proof {
                done = done.push(piece@);
            }
            line_no = line_no + 1;
            start = i + 1;
        }
        i = i + 1;
    }
    if start < n {
        let piece = slice_to_vec(cs.as_slice(), start, n);
        assert(nl_pieces_from(cs@, start as int, n as int) == seq![piece@]);
        assert(done.push(piece@) =~= text_lines(cs@));
        absorb_line(piece.as_slice(), line_no, &mut entries, &mut errors, Ghost(done));
        proof {
            done = done.push(piece@);
        }
    } else {
        assert(nl_pieces_from(cs@, start as int, n as int) =~= Seq::<Seq<char>>::empty());
        assert(done =~= text_lines(cs@));
    }
    if errors.len() == 0 {
        Ok(entries)
    } else {
        Err(errors)
    }
}

// ---------------------------------------------------------------------------
// Card instances
// ---------------------------------------------------------------------------
/// The letter of a color (W, U, B, R, G).
pub open spec fn color_letter(c: ManaColor) -> Seq<char> {
    match c {
        ManaColor::White => "W"@,
        ManaColor::Blue => "U"@,
        ManaColor::Black => "B"@,
        ManaColor::Red => "R"@,
        ManaColor::Green => "G"@,
    }
}

fn mana_color_letter(color: &ManaColor) -> (r: String)
    ensures
        r@ == color_letter(*color),
{
    match color {
        ManaColor::White => string_of("W"),
        ManaColor::Blue => string_of("U"),
        ManaColor::Black => string_of("B"),
        ManaColor::Red => string_of("R"),
        ManaColor::Green => string_of("G"),
    }
}

/// Texts joined with one space between them.
pub open spec fn join_spaced(parts: Seq<Seq<char>>) -> Seq<char>
    decreases parts.len(),
{
    if parts.len() == 0 {
        Seq::empty()
    } else if parts.len() == 1 {
        parts[0]
    } else {
        join_spaced(parts.drop_last()) + seq![' '] + parts.last()
    }
}

/// The type line of a face: its card types joined by spaces, then, if it
/// has subtypes, an em dash and the subtypes joined by spaces.
pub open spec fn type_line_of(face: CardFace) -> Seq<char> {
    let core = join_spaced(face.card_type.core_types@.map_values(|t| core_type_text(t)));
    if face.card_type.subtypes@.len() == 0 {
        core
    } else {
        core + seq![' ', '\u{2014}', ' '] + join_spaced(string_views(face.card_type.subtypes@))
    }
}

/// The mana value shown for a card: its mana value, at most 255.
pub open spec fn shown_cmc(face: CardFace) -> u8 {
    if mana_value_of(face.mana_cost@) > 255 {
        255
    } else {
        mana_value_of(face.mana_cost@) as u8
    }
}

/// The card instance made for copy `copy` of a face that is the
/// `index`-th card of the cube (from 0).
pub open spec fn instance_view(face: CardFace, index: nat, copy: nat) -> DraftCardView {
    DraftCardView {
        instance_id: "cube-source-"@ + decimal(index) + "-"@ + decimal(copy),
        name: face.name@,
        set_code: "CUBE"@,
        collector_number: decimal(index + 1),
        rarity: "cube"@,
        colors: face.color_identity@.map_values(|c: ManaColor| color_letter(c)),
        cmc: shown_cmc(face),
        type_line: type_line_of(face),
    }
}

/// Joins texts with single spaces.
fn join_with_spaces(parts: &Vec<Vec<char>>) -> (r: Vec<char>)
    ensures
        r@ == join_spaced(crate::text::texts(parts@)),
{
    let mut r: Vec<char> = Vec::new();
    let mut i: usize = 0;
    while i < parts.len()
        invariant
            i <= parts@.len(),
            r@ == join_spaced(crate::text::texts(parts@).subrange(0, i as int)),
        decreases parts@.len() - i,
    {
        let ghost t = crate::text::texts(parts@);
        assert(t.subrange(0, i + 1).drop_last() =~= t.subrange(0, i as int));
        assert(t.subrange(0, i + 1).last() == parts@[i as int]@);
        if i > 0 {
            r.push(' ');
        } else {
            assert(t.subrange(0, 1) =~= seq![parts@[0]@]);
        }
        let mut k: usize = 0;
        let ghost r0 = r@;
        while k < parts[i].len()
            invariant
                i < parts@.len(),
                k <= parts@[i as int]@.len(),
                r@ == r0 + parts@[i as int]@.subrange(0, k as int),
            decreases parts@[i as int]@.len() - k,
        {
            r.push(parts[i][k]);
            k = k + 1;
            assert(r@ =~= r0 + parts@[i as int]@.subrange(0, k as int));
        }
        assert(parts@[i as int]@.subrange(0, k as int) =~= parts@[i as int]@);
        i = i + 1;
    }
    assert(crate::text::texts(parts@).subrange(0, parts@.len() as int) =~= crate::text::texts(
        parts@,
    ));
    r
}

fn type_line(face: &CardFace) -> (r: String)
    ensures
        r@ == type_line_of(*face),
{
    let mut core: Vec<Vec<char>> = Vec::new();
    let mut i: usize = 0;
    while i < face.card_type.core_types.len()
        invariant
            i <= face.card_type.core_types@.len(),
            crate::text::texts(core@) == face.card_type.core_types@.subrange(0, i as int).map_values(
                |t| core_type_text(t),
            ),
        decreases face.card_type.core_types@.len() - i,
    {
        let name = str_chars(face.card_type.core_types[i].name());
        let ghost c0 = core@;
        core.push(name);
        assert(crate::text::texts(core@) =~= crate::text::texts(c0).push(name@));
        assert(face.card_type.core_types@.subrange(0, i + 1).map_values(|t| core_type_text(t))
            =~= face.card_type.core_types@.subrange(0, i as int).map_values(
            |t| core_type_text(t),
        ).push(core_type_text(face.card_type.core_types@[i as int])));
        assert(crate::text::texts(core@) =~= face.card_type.core_types@.subrange(
            0,
            i + 1,
        ).map_values(|t| core_type_text(t)));
        i = i + 1;
    }
    assert(face.card_type.core_types@.subrange(0, i as int) =~= face.card_type.core_types@);
    let core_line = join_with_spaces(&core);
    let mut out = string_from_chars(core_line.as_slice());
    if face.card_type.subtypes.len() == 0 {
        return out;
    }
    let mut subs: Vec<Vec<char>> = Vec::new();
    let mut j: usize = 0;
    while j < face.card_type.subtypes.len()
        invariant
            j <= face.card_type.subtypes@.len(),
            crate::text::texts(subs@) == string_views(face.card_type.subtypes@.subrange(0, j as int)),
        decreases face.card_type.subtypes@.len() - j,
    {
        let name = str_chars(face.card_type.subtypes[j].as_str());
        let ghost s0 = subs@;
        subs.push(name);
        assert(crate::text::texts(subs@) =~= crate::text::texts(s0).push(name@));
        assert(string_views(face.card_type.subtypes@.subrange(0, j + 1)) =~= string_views(
            face.card_type.subtypes@.subrange(0, j as int),
        ).push(face.card_type.subtypes@[j as int]@));
        assert(crate::text::texts(subs@) =~= string_views(face.card_type.subtypes@.subrange(0, j + 1)));
        j = j + 1;
    }
    assert(face.card_type.subtypes@.subrange(0, j as int) =~= face.card_type.subtypes@);
    let sub_line = join_with_spaces(&subs);
    crate::text::push_char(&mut out, ' ');
    crate::text::push_char(&mut out, '\u{2014}');
    crate::text::push_char(&mut out, ' ');
    append_chars(&mut out, sub_line.as_slice());
    assert(out@ =~= type_line_of(*face));
    out
}

fn card_instance_from_face(face: &CardFace, index: usize, copy: u32) -> (r: DraftCardInstance)
    requires
        mana_value_of(face.mana_cost@) <= u32::MAX,
    ensures
        r@ == instance_view(*face, index as nat, copy as nat),
{
    proof {
        reveal_strlit("-");
    }
    let mut instance_id = string_of("cube-source-");
    let idx = decimal_chars(index as u128);
    append_chars(&mut instance_id, idx.as_slice());
    crate::text::push_char(&mut instance_id, '-');
    let cp = decimal_chars(copy as u128);
    append_chars(&mut instance_id, cp.as_slice());
    let mut colors: Vec<String> = Vec::new();
    let mut i: usize = 0;
    while i < face.color_identity.len()
        invariant
            i <= face.color_identity@.len(),
            string_views(colors@) == face.color_identity@.subrange(0, i as int).map_values(
                |c: ManaColor| color_letter(c),
            ),
        decreases face.color_identity@.len() - i,
    {
        let letter = mana_color_letter(&face.color_identity[i]);
        let ghost k0 = colors@;
        colors.push(letter);
        assert(string_views(colors@) =~= string_views(k0).push(letter@));
        assert(face.color_identity@.subrange(0, i + 1).map_values(|c: ManaColor| color_letter(c))
            =~= face.color_identity@.subrange(0, i as int).map_values(
            |c: ManaColor| color_letter(c),
        ).push(color_letter(face.color_identity@[i as int])));
        assert(string_views(colors@) =~= face.color_identity@.subrange(0, i + 1).map_values(
            |c: ManaColor| color_letter(c),
        ));
        i = i + 1;
    }
    assert(face.color_identity@.subrange(0, i as int) =~= face.color_identity@);
    let mv = face.mana_cost.mana_value();
    let cmc: u8 = if mv > 255 {
        255
    } else {
        mv as u8
    };
    let r = DraftCardInstance {
        instance_id,
        name: face.name.clone(),
        set_code: string_of("CUBE"),
        collector_number: decimal_string(index as u128 + 1),
        rarity: string_of("cube"),
        colors,
        cmc,
        type_line: type_line(face),
    };
    assert(r@.instance_id =~= instance_view(*face, index as nat, copy as nat).instance_id);
    assert(r@.colors =~= instance_view(*face, index as nat, copy as nat).colors);
    r
}

// ---------------------------------------------------------------------------
// From entries to cards
// ---------------------------------------------------------------------------
/// Instances for copies `0..count` of a face, the first being the
/// `start`-th card of the cube.
pub open spec fn copies_of(face: CardFace, start: nat, count: nat) -> Seq<DraftCardView>
    decreases count,
{
    if count == 0 {
        Seq::empty()
    } else {
        copies_of(face, start, (count - 1) as nat).push(
            instance_view(face, start + (count - 1) as nat, (count - 1) as nat),
        )
    }
}

/// The cards made from the entries, and the names of the entries no face
/// is known for.
pub open spec fn cube_cards_outcome(es: Seq<CubeListEntry>, faces: Seq<CardFace>) -> (
    Seq<DraftCardView>,
    Seq<Seq<char>>,
)
    decreases es.len(),
{
    if es.len() == 0 {
        (Seq::empty(), Seq::empty())
    } else {
        let prev = cube_cards_outcome(es.drop_last(), faces);
        let e = es.last();
        let p = face_index(faces, e.name@);
        if p < 0 {
            (prev.0, prev.1.push(e.name@))
        } else {
            (prev.0 + copies_of(faces[p], prev.0.len(), e.count as nat), prev.1)
        }
    }
}

pub open spec fn card_views(v: Seq<DraftCardInstance>) -> Seq<DraftCardView> {
    v.map_values(|c: DraftCardInstance| c@)
}

pub open spec fn unknown_cards(names: Seq<Seq<char>>) -> spec_fn(Seq<CubeImportError>) -> bool {
    |v: Seq<CubeImportError>|
        v.len() == names.len() && forall|i: int|
            0 <= i < v.len() ==> (#[trigger] v[i] matches CubeImportError::UnknownCard { name }
                && name@ == names[i])
}

/// Draft cards for the entries of a cube list: `count` copies of each
/// entry's face, numbered in order. `Ok` when every name is known; else
/// `Err` with one `UnknownCard` per unknown entry, in order.
pub fn cube_cards_from_entries(entries: &[CubeListEntry], db: &CardDatabase) -> (r: Result<
    Vec<DraftCardInstance>,
    Vec<CubeImportError>,
>)
    requires
        db_well_formed(*db),
    ensures
        ({
            let out = cube_cards_outcome(entries@, db.faces@);
            match r {
                Ok(v) => out.1.len() == 0 && card_views(v@) == out.0,
                Err(v) => out.1.len() > 0 && unknown_cards(out.1)(v@),
            }
        }),
{
    let mut cards: Vec<DraftCardInstance> = Vec::new();
    let mut errors: Vec<CubeImportError> = Vec::new();
    let mut i: usize = 0;
    while i < entries.len()
        invariant
            i <= entries@.len(),
            db_well_formed(*db),
            card_views(cards@) == cube_cards_outcome(entries@.subrange(0, i as int), db.faces@).0,
            unknown_cards(cube_cards_outcome(entries@.subrange(0, i as int), db.faces@).1)(
                errors@,
            ),
        decreases entries@.len() - i,
    {
        let ghost pre = entries@.subrange(0, i as int);
        let ghost now = entries@.subrange(0, i + 1);
        assert(now.drop_last() =~= pre);
        assert(now.last() == entries@[i as int]);
        let entry = &entries[i];
        match db.get_face_by_name(entry.name.as_str()) {
            None => {
                let ghost e0 = errors@;
                errors.push(CubeImportError::UnknownCard { name: entry.name.clone() });
                assert(unknown_cards(cube_cards_outcome(now, db.faces@).1)(errors@)) by {
                    let names = cube_cards_outcome(now, db.faces@).1;
                    assert forall|k: int| 0 <= k < errors@.len() implies (
                    #[trigger] errors@[k] matches CubeImportError::UnknownCard { name }
                        && name@ == names[k]) by {
                        if k < e0.len() {
                            assert(errors@[k] == e0[k]);
                        }
                    }
                }
            },
            Some(face) => {
                proof {
                    crate::seqs::lemma_first_index_spec(
                        db.faces@,
                        |f: CardFace| f.name@ == entry.name@,
                    );
                }
                let ghost p = face_index(db.faces@, entry.name@);
                let ghost base = card_views(cards@);
                let mut copy: u32 = 0;
                while copy < entry.count
                    invariant
                        copy <= entry.count,
                        0 <= p < db.faces@.len(),
                        *face == db.faces@[p],
                        db_well_formed(*db),
                        card_views(cards@) == base + copies_of(*face, base.len(), copy as nat),
                    decreases entry.count - copy,
                {
                    let ghost c0 = card_views(cards@);
                    let len = cards.len();
                    assert(c0.len() == cards@.len());
                    assert(len == base.len() + copy) by {
                        lemma_copies_len(*face, base.len(), copy as nat);
                    }
                    let card = card_instance_from_face(face, len, copy);
                    cards.push(card);
                    assert(card_views(cards@) =~= c0.push(card@));
                    assert(card_views(cards@) =~= base + copies_of(
                        *face,
                        base.len(),
                        (copy + 1) as nat,
                    ));
                    copy = copy + 1;
                }
            },
        }
        i = i + 1;
    }
    assert(entries@.subrange(0, entries@.len() as int) =~= entries@);
    if errors.len() == 0 {
        Ok(cards)
    } else {
        Err(errors)
    }
}

pub proof fn lemma_copies_len(face: CardFace, start: nat, count: nat)
    ensures
        copies_of(face, start, count).len() == count,
    decreases count,
{
    if count > 0 {
        lemma_copies_len(face, start, (count - 1) as nat);
    }
}

// ---------------------------------------------------------------------------
// Cards a deck may add
// ---------------------------------------------------------------------------
/// Lexicographic order of texts by code point (the order of `String`s).
pub open spec fn lex_lt(a: Seq<char>, b: Seq<char>) -> bool
    decreases a.len(),
{
    if b.len() == 0 {
        false
    } else if a.len() == 0 {
        true
    } else if a[0] != b[0] {
        (a[0] as u32) < (b[0] as u32)
    } else {
        lex_lt(a.drop_first(), b.drop_first())
    }
}

/// Strictly increasing, so without repetition.
pub open spec fn strictly_sorted(s: Seq<Seq<char>>) -> bool {
    forall|i: int, j: int| 0 <= i < j < s.len() ==> lex_lt(#[trigger] s[i], #[trigger] s[j])
}

pub proof fn lemma_lex_irreflexive(a: Seq<char>)
    ensures
        !lex_lt(a, a),
    decreases a.len(),
{
    if a.len() > 0 {
        lemma_lex_irreflexive(a.drop_first());
    }
}

pub proof fn lemma_lex_transitive(a: Seq<char>, b: Seq<char>, c: Seq<char>)
    requires
        lex_lt(a, b),
        lex_lt(b, c),
    ensures
        lex_lt(a, c),
    decreases a.len(),
{
    if a.len() > 0 && a[0] == b[0] && b[0] == c[0] {
        lemma_lex_transitive(a.drop_first(), b.drop_first(), c.drop_first());
    }
}

pub proof fn lemma_lex_total(a: Seq<char>, b: Seq<char>)
    ensures
        a == b || lex_lt(a, b) || lex_lt(b, a),
    decreases a.len(),
{
    if a.len() > 0 && b.len() > 0 && a[0] == b[0] {
        lemma_lex_total(a.drop_first(), b.drop_first());
        if a.drop_first() == b.drop_first() {
            assert(a =~= seq![a[0]] + a.drop_first());
            assert(b =~= seq![b[0]] + b.drop_first());
        }
    } else if a.len() == 0 && b.len() == 0 {
        assert(a =~= b);
    } else if a.len() > 0 && b.len() > 0 {
        crate::text::lemma_char_code_injective(a[0], b[0]);
    }
}

/// Lexicographic comparison of two texts.
fn chars_lt(a: &[char], b: &[char]) -> (r: bool)
    ensures
        r == lex_lt(a@, b@),
{
    let mut k: usize = 0;
    assert(a@.subrange(0, a@.len() as int) =~= a@);
    assert(b@.subrange(0, b@.len() as int) =~= b@);
    while k < a.len() && k < b.len() && a[k] == b[k]
        invariant
            k <= a@.len(),
            k <= b@.len(),
            lex_lt(a@, b@) == lex_lt(a@.subrange(k as int, a@.len() as int), b@.subrange(k as int, b@.len() as int)),
        decreases a@.len() - k,
    {
        let ghost x = a@.subrange(k as int, a@.len() as int);
        let ghost y = b@.subrange(k as int, b@.len() as int);
        assert(x.drop_first() =~= a@.subrange(k + 1, a@.len() as int));
        assert(y.drop_first() =~= b@.subrange(k + 1, b@.len() as int));
        k = k + 1;
    }
    assert(a@.subrange(0, a@.len() as int) =~= a@);
    assert(b@.subrange(0, b@.len() as int) =~= b@);
    if k == b.len() {
        false
    } else if k == a.len() {
        true
    } else {
        (a[k] as u32) < (b[k] as u32)
    }
}

/// Inserts a name into a strictly sorted list unless it is there already.
fn insert_sorted_unique(v: &mut Vec<String>, s: String)
    requires
        strictly_sorted(string_views(old(v)@)),
    ensures
        strictly_sorted(string_views(final(v)@)),
        forall|x: Seq<char>|
            string_views(final(v)@).contains(x) <==> (string_views(old(v)@).contains(x) || x
                == s@),
{
    let sc = str_chars(s.as_str());
    let mut p: usize = 0;
    let mut go = true;
    while go && p < v.len()
        invariant
            p <= v@.len(),
            v@ == old(v)@,
            sc@ == s@,
            strictly_sorted(string_views(v@)),
            forall|q: int| 0 <= q < p ==> lex_lt(#[trigger] v@[q]@, s@),
            !go ==> p < v@.len() && !lex_lt(v@[p as int]@, s@),
        decreases (if go {
            v@.len() - p + 1
        } else {
            0
        }),
    {
        let vc = str_chars(v[p].as_str());
        if chars_lt(vc.as_slice(), sc.as_slice()) {
            p = p + 1;
        } else {
            go = false;
        }
    }
    let ghost old_views = string_views(v@);
    if p < v.len() {
        let vc = str_chars(v[p].as_str());
        if crate::text::chars_eq(vc.as_slice(), sc.as_slice()) {
            assert forall|x: Seq<char>|
                string_views(v@).contains(x) <==> (string_views(v@).contains(x) || x == s@) by {
                if x == s@ {
                    assert(string_views(v@)[p as int] == x);
                }
            }
            return;
        }
        proof {
            lemma_lex_total(v@[p as int]@, s@);
        }
    }
    let ghost sv = s@;
    v.insert(p, s);
    let ghost nv = string_views(v@);
    assert(nv =~= old_views.insert(p as int, sv));
    assert forall|i: int, j: int| 0 <= i < j < nv.len() implies lex_lt(
        #[trigger] nv[i],
        #[trigger] nv[j],
    ) by {
        if j < p {
        } else if j == p {
            assert(lex_lt(old_views[i], sv));
        } else if i == p {
            assert(lex_lt(sv, old_views[p as int]));
            if j - 1 > p {
                lemma_lex_transitive(sv, old_views[p as int], old_views[j - 1]);
            }
        } else if i < p {
            assert(lex_lt(old_views[i], old_views[j - 1]));
        } else {
            assert(lex_lt(old_views[i - 1], old_views[j - 1]));
        }
    }
    assert forall|x: Seq<char>| nv.contains(x) <==> (old_views.contains(x) || x == sv) by {
        if nv.contains(x) {
            let k = choose|k: int| 0 <= k < nv.len() && nv[k] == x;
            if k < p {
                assert(old_views[k] == x);
            } else if k > p {
                assert(old_views[k - 1] == x);
            }
        }
        if old_views.contains(x) {
            let k = choose|k: int| 0 <= k < old_views.len() && old_views[k] == x;
            if k < p {
                assert(nv[k] == x);
            } else {
                assert(nv[k + 1] == x);
            }
        }
        if x == sv {
            assert(nv[p as int] == x);
        }
    }
}

/// The names of the faces found for the names, and the names not found.
pub open spec fn addable_outcome(names: Seq<String>, faces: Seq<CardFace>) -> (
    Seq<Seq<char>>,
    Seq<Seq<char>>,
)
    decreases names.len(),
{
    if names.len() == 0 {
        (Seq::empty(), Seq::empty())
    } else {
        let prev = addable_outcome(names.drop_last(), faces);
        let p = face_index(faces, names.last()@);
        if p < 0 {
            (prev.0, prev.1.push(names.last()@))
        } else {
            (prev.0.push(faces[p].name@), prev.1)
        }
    }
}

/// The custom cards a deck may add, resolved against the database: the
/// names of their faces, sorted and without repetition, with the same
/// policy. `Err` with one `UnknownCard` per unknown name, in order.
pub fn resolve_addable_cards(addable_cards: &DeckAddableCards, db: &CardDatabase) -> (r: Result<
    DeckAddableCards,
    Vec<CubeImportError>,
>)
    ensures
        ({
            let out = addable_outcome(addable_cards.custom@, db.faces@);
            match r {
                Ok(d) => out.1.len() == 0 && d.policy == addable_cards.policy && strictly_sorted(
                    string_views(d.custom@),
                ) && forall|x: Seq<char>| string_views(d.custom@).contains(x) <==> out.0.contains(x),
                Err(v) => out.1.len() > 0 && unknown_cards(out.1)(v@),
            }
        }),
{
    let mut custom: Vec<String> = Vec::new();
    let mut errors: Vec<CubeImportError> = Vec::new();
    let mut i: usize = 0;
    while i < addable_cards.custom.len()
        invariant
            i <= addable_cards.custom@.len(),
            strictly_sorted(string_views(custom@)),
            forall|x: Seq<char>|
                string_views(custom@).contains(x) <==> addable_outcome(
                    addable_cards.custom@.subrange(0, i as int),
                    db.faces@,
                ).0.contains(x),
            unknown_cards(addable_outcome(addable_cards.custom@.subrange(0, i as int), db.faces@).1)(
                errors@,
            ),
        decreases addable_cards.custom@.len() - i,
    {
        let ghost pre = addable_cards.custom@.subrange(0, i as int);
        let ghost now = addable_cards.custom@.subrange(0, i + 1);
        assert(now.drop_last() =~= pre);
        assert(now.last() == addable_cards.custom@[i as int]);
        let name = &addable_cards.custom[i];
        match db.get_face_by_name(name.as_str()) {
            Some(face) => {
                let ghost found = addable_outcome(pre, db.faces@).0;
                insert_sorted_unique(&mut custom, face.name.clone());
                assert forall|x: Seq<char>|
                    string_views(custom@).contains(x) <==> addable_outcome(
                        now,
                        db.faces@,
                    ).0.contains(x) by {
                    assert(addable_outcome(now, db.faces@).0 == found.push(face.name@));
                    if found.push(face.name@).contains(x) && x != face.name@ {
                        let k = choose|k: int| 0 <= k < found.push(face.name@).len() && found.push(face.name@)[k] == x;
                        assert(found[k] == x);
                    }
                    if found.contains(x) {
                        let k = choose|k: int| 0 <= k < found.len() && found[k] == x;
                        assert(found.push(face.name@)[k] == x);
                    }
                    if x == face.name@ {
                        assert(found.push(face.name@)[found.len() as int] == x);
                    }
                }
            },
            None => {
                let ghost e0 = errors@;
                errors.push(CubeImportError::UnknownCard { name: name.clone() });
                assert(unknown_cards(addable_outcome(now, db.faces@).1)(errors@)) by {
                    let names = addable_outcome(now, db.faces@).1;
                    assert forall|k: int| 0 <= k < errors@.len() implies (
                    #[trigger] errors@[k] matches CubeImportError::UnknownCard { name }
                        && name@ == names[k]) by {
                        if k < e0.len() {
                            assert(errors@[k] == e0[k]);
                        }
                    }
                }
            },
        }
        i = i + 1;
    }
    assert(addable_cards.custom@.subrange(0, addable_cards.custom@.len() as int)
        =~= addable_cards.custom@);
    if errors.len() == 0 {
        Ok(DeckAddableCards { policy: addable_cards.policy, custom })
    } else {
        Err(errors)
    }
}

// ---------------------------------------------------------------------------
// Dealing packs
// ---------------------------------------------------------------------------
/// Position in the shuffled cube of card `k` of pack `pack` of seat `seat`:
/// packs are dealt round by round, each round one pack to every seat.
pub open spec fn deal_position(seats: nat, per_pack: nat, seat: nat, pack: nat, k: nat) -> nat {
    (pack * seats + seat) * per_pack + k
}

/// The card dealt as card `k` of pack `pack` of seat `seat`: the card at
/// its deal position, renamed `cube-<seat>-<pack>-<k>` and numbered by its
/// position from 1.
pub open spec fn dealt_view(
    deck: Seq<DraftCardView>,
    seats: nat,
    per_pack: nat,
    seat: nat,
    pack: nat,
    k: nat,
) -> DraftCardView {
    let pos = deal_position(seats, per_pack, seat, pack, k);
    DraftCardView {
        instance_id: "cube-"@ + decimal(seat) + "-"@ + decimal(pack) + "-"@ + decimal(k),
        collector_number: decimal(pos + 1),
        ..deck[pos as int]
    }
}

/// The packs are dealt as `dealt_view` says: one list of `pack_count`
/// packs of `cards_per_pack` cards for each of `seats` seats.
pub open spec fn dealt_as(
    packs: Seq<Vec<DraftPack>>,
    deck: Seq<DraftCardView>,
    seats: nat,
    pack_count: nat,
    per_pack: nat,
) -> bool {
    &&& packs.len() == seats
    &&& forall|s: int| 0 <= s < seats ==> (#[trigger] packs[s])@.len() == pack_count
    &&& forall|s: int, p: int|
        0 <= s < seats && 0 <= p < pack_count ==> (#[trigger] packs[s]@[p]).0@.len() == per_pack
    &&& forall|s: int, p: int, k: int|
        0 <= s < seats && 0 <= p < pack_count && 0 <= k < per_pack ==> (
        #[trigger] packs[s]@[p].0@[k])@ == dealt_view(
            deck,
            seats,
            per_pack,
            s as nat,
            p as nat,
            k as nat,
        )
}

/// A copy of a card.
fn copy_card(c: &DraftCardInstance) -> (r: DraftCardInstance)
    ensures
        r@ == c@,
{
    let mut colors: Vec<String> = Vec::new();
    let mut i: usize = 0;
    while i < c.colors.len()
        invariant
            i <= c.colors@.len(),
            string_views(colors@) == string_views(c.colors@.subrange(0, i as int)),
        decreases c.colors@.len() - i,
    {
        let ghost k0 = colors@;
        colors.push(c.colors[i].clone());
        assert(string_views(colors@) =~= string_views(k0).push(c.colors@[i as int]@));
        assert(string_views(c.colors@.subrange(0, i + 1)) =~= string_views(
            c.colors@.subrange(0, i as int),
        ).push(c.colors@[i as int]@));
        i = i + 1;
    }
    assert(c.colors@.subrange(0, i as int) =~= c.colors@);
    DraftCardInstance {
        instance_id: c.instance_id.clone(),
        name: c.name.clone(),
        set_code: c.set_code.clone(),
        collector_number: c.collector_number.clone(),
        rarity: c.rarity.clone(),
        colors,
        cmc: c.cmc,
        type_line: c.type_line.clone(),
    }
}

proof fn lemma_position_bound(seats: nat, per_pack: nat, pack_count: nat, seat: nat, pack: nat, k: nat)
    requires
        seat < seats,
        pack < pack_count,
        k < per_pack,
    ensures
        deal_position(seats, per_pack, seat, pack, k) < seats * pack_count * per_pack,
        pack * seats <= pack * seats + seat,
        pack * seats + seat <= (pack * seats + seat) * per_pack,
{
    assert((pack * seats + seat) * per_pack + k < seats * pack_count * per_pack) by (nonlinear_arith)
        requires
            seat < seats,
            pack < pack_count,
            k < per_pack,
    ;
    assert(pack * seats + seat <= (pack * seats + seat) * per_pack) by (nonlinear_arith)
        requires
            k < per_pack,
    ;
}

/// Deals the (already shuffled) cards into packs, seat by seat.
pub fn deal_packs(cards: &Vec<DraftCardInstance>, config: &DraftConfig, seat_count: u8) -> (r: Vec<
    Vec<DraftPack>,
>)
    requires
        cards@.len() >= seat_count * config.pack_count * config.cards_per_pack,
    ensures
        dealt_as(
            r@,
            card_views(cards@),
            seat_count as nat,
            config.pack_count as nat,
            config.cards_per_pack as nat,
        ),
{
    proof {
        reveal_strlit("-");
        reveal_strlit("cube-");
    }
    let seats = seat_count as usize;
    let packs_n = config.pack_count as usize;
    let per = config.cards_per_pack as usize;
    let total = cards.len();
    let mut out: Vec<Vec<DraftPack>> = Vec::new();
    let mut seat: usize = 0;
    while seat < seats
        invariant
            seats == seat_count,
            packs_n == config.pack_count,
            per == config.cards_per_pack,
            total == cards@.len(),
            cards@.len() >= seats * packs_n * per,
            seat <= seats,
            out@.len() == seat,
            forall|s: int, p: int, k: int|
                0 <= s < seat && 0 <= p < packs_n && 0 <= k < per ==> (
                #[trigger] out@[s]@[p].0@[k])@ == dealt_view(
                    card_views(cards@),
                    seats as nat,
                    per as nat,
                    s as nat,
                    p as nat,
                    k as nat,
                ),
            forall|s: int| 0 <= s < seat ==> (#[trigger] out@[s])@.len() == packs_n,
            forall|s: int, p: int|
                0 <= s < seat && 0 <= p < packs_n ==> (#[trigger] out@[s]@[p]).0@.len() == per,
        decreases seats - seat,
    {
        let mut seat_packs: Vec<DraftPack> = Vec::new();
        let mut pack: usize = 0;
        while pack < packs_n
            invariant
                seats == seat_count,
                packs_n == config.pack_count,
                per == config.cards_per_pack,
                total == cards@.len(),
                cards@.len() >= seats * packs_n * per,
                seat < seats,
                pack <= packs_n,
                seat_packs@.len() == pack,
                forall|p: int, k: int|
                    0 <= p < pack && 0 <= k < per ==> (#[trigger] seat_packs@[p].0@[k])@
                        == dealt_view(card_views(cards@), seats as nat, per as nat, seat as nat, p as nat, k as nat),
                forall|p: int| 0 <= p < pack ==> (#[trigger] seat_packs@[p]).0@.len() == per,
            decreases packs_n - pack,
        {
            let mut pack_cards: Vec<DraftCardInstance> = Vec::new();
            let mut k: usize = 0;
            while k < per
                invariant
                    seats == seat_count,
                    packs_n == config.pack_count,
                    per == config.cards_per_pack,
                    total == cards@.len(),
                    cards@.len() >= seats * packs_n * per,
                    seat < seats,
                    pack < packs_n,
                    k <= per,
                    pack_cards@.len() == k,
                    forall|j: int|
                        0 <= j < k ==> (#[trigger] pack_cards@[j])@ == dealt_view(
                            card_views(cards@),
                            seats as nat,
                            per as nat,
                            seat as nat,
                            pack as nat,
                            j as nat,
                        ),
                decreases per - k,
            {
                proof {
                    lemma_position_bound(seats as nat, per as nat, packs_n as nat, seat as nat, pack as nat, k as nat);
                    assert(seats * packs_n * per <= cards@.len());
                    assert(cards@.len() == total);
                    reveal_strlit("-");
                }
                let cursor = (pack * seats + seat) * per + k;
                let mut card = copy_card(&cards[cursor]);
                let mut id = string_of("cube-");
                let ds = decimal_chars(seat as u128);
                append_chars(&mut id, ds.as_slice());
                crate::text::push_char(&mut id, '-');
                let dp = decimal_chars(pack as u128);
                append_chars(&mut id, dp.as_slice());
                crate::text::push_char(&mut id, '-');
                let dk = decimal_chars(k as u128);
                append_chars(&mut id, dk.as_slice());
                card.instance_id = id;
                card.collector_number = decimal_string(cursor as u128 + 1);
                let ghost want = dealt_view(
                    card_views(cards@),
                    seats as nat,
                    per as nat,
                    seat as nat,
                    pack as nat,
                    k as nat,
                );
                assert(card_views(cards@)[cursor as int] == cards@[cursor as int]@);
                assert(deal_position(seats as nat, per as nat, seat as nat, pack as nat, k as nat)
                    == cursor);
                assert(card@.instance_id =~= want.instance_id);
                assert(card@.colors =~= want.colors);
                assert(card@ == dealt_view(
                    card_views(cards@),
                    seats as nat,
                    per as nat,
                    seat as nat,
                    pack as nat,
                    k as nat,
                ));
                pack_cards.push(card);
                k = k + 1;
            }
            seat_packs.push(DraftPack(pack_cards));
            pack = pack + 1;
        }
        out.push(seat_packs);
        seat = seat + 1;
    }
    out
}

/// The positions `0..n` in order.
pub open spec fn positions(n: nat) -> Seq<usize> {
    Seq::new(n, |i: int| i as usize)
}

proof fn lemma_position_in_range(order: Seq<usize>, n: nat, j: int)
    requires
        order.to_multiset() == positions(n).to_multiset(),
        0 <= j < order.len(),
    ensures
        order[j] < n,
{
    order.to_multiset_ensures();
    positions(n).to_multiset_ensures();
    assert(order.contains(order[j]));
    assert(order.to_multiset().count(order[j]) > 0);
    assert(positions(n).to_multiset().count(order[j]) > 0);
    assert(positions(n).contains(order[j]));
    let i = choose|i: int| 0 <= i < positions(n).len() && positions(n)[i] == order[j];
    assert(positions(n)[i] == i as usize);
}

impl CubePackSource {
    pub fn new(cards: Vec<DraftCardInstance>) -> (r: CubePackSource)
        ensures
            r.cards@ == cards@,
    {
        CubePackSource { cards }
    }

    /// A single pack on request is empty: a cube deals all packs at once.
    pub fn generate_pack(&self, rng: &mut rand_chacha::ChaCha8Rng, seat: u8, pack_number: u8) -> (r:
        DraftPack)
        ensures
            r.0@.len() == 0,
    {
        DraftPack(Vec::new())
    }

    /// Deals every seat its packs from the cube, without replacement: the
    /// cube's cards are shuffled (a permutation the generator chooses) and
    /// dealt in order, round by round. `Err` when the cube holds fewer cards
    /// than seats × packs × cards per pack.
    pub fn generate_packs(
        &self,
        rng: &mut rand_chacha::ChaCha8Rng,
        config: &DraftConfig,
        seat_count: u8,
    ) -> (r: Result<Vec<Vec<DraftPack>>, DraftError>)
        ensures
            ({
                let required = seat_count * config.pack_count * config.cards_per_pack;
                match r {
                    Err(e) => self.cards@.len() < required && e == DraftError::InsufficientCards {
                        available: self.cards@.len() as usize,
                        required: required as usize,
                    },
                    Ok(packs) => self.cards@.len() >= required && exists|order: Seq<usize>|
                        #[trigger] order.to_multiset() == positions(self.cards@.len()).to_multiset()
                            && dealt_as(
                            packs@,
                            order.map_values(|i: usize| self.cards@[i as int]@),
                            seat_count as nat,
                            config.pack_count as nat,
                            config.cards_per_pack as nat,
                        ),
                }
            }),
    {
        assert(seat_count * config.pack_count <= 65025 && seat_count * config.pack_count
            * config.cards_per_pack <= 16581375) by (nonlinear_arith)
            requires
                seat_count <= 255,
                config.pack_count <= 255,
                config.cards_per_pack <= 255,
        ;
        let required = seat_count as usize * config.pack_count as usize
            * config.cards_per_pack as usize;
        if self.cards.len() < required {
            return Err(DraftError::InsufficientCards { available: self.cards.len(), required });
        }
        let n = self.cards.len();
        let mut order: Vec<usize> = Vec::new();
        let mut i: usize = 0;
        while i < n
            invariant
                n == self.cards@.len(),
                i <= n,
                order@ == positions(i as nat),
            decreases n - i,
        {
            order.push(i);
            i = i + 1;
            assert(order@ =~= positions(i as nat));
        }
        crate::rng::shuffle_in_place(&mut order, rng);
        let ghost ord = order@;
        let mut deck: Vec<DraftCardInstance> = Vec::new();
        let mut j: usize = 0;
        while j < n
            invariant
                n == self.cards@.len(),
                order@ == ord,
                ord.len() == n,
                ord.to_multiset() == positions(n as nat).to_multiset(),
                j <= n,
                card_views(deck@) == ord.subrange(0, j as int).map_values(
                    |i: usize| self.cards@[i as int]@,
                ),
            decreases n - j,
        {
            let pos = order[j];
            proof {
                lemma_position_in_range(ord, n as nat, j as int);
            }
            let c = copy_card(&self.cards[pos]);
            let ghost d0 = card_views(deck@);
            deck.push(c);
            assert(card_views(deck@) =~= d0.push(self.cards@[pos as int]@));
            assert(ord.subrange(0, j + 1).map_values(|i: usize| self.cards@[i as int]@)
                =~= ord.subrange(0, j as int).map_values(|i: usize| self.cards@[i as int]@).push(
                self.cards@[ord[j as int] as int]@,
            ));
            assert(card_views(deck@) =~= ord.subrange(0, j + 1).map_values(
                |i: usize| self.cards@[i as int]@,
            ));
            j = j + 1;
        }
        assert(ord.subrange(0, n as int) =~= ord);
        let packs = deal_packs(&deck, config, seat_count);
        Ok(packs)
    }
}

} // verus!
