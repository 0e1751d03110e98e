pub mod encore;

use vstd::prelude::*;

use crate::text::str_eq;
use crate::types::card::CardFace;
use crate::types::mana::mana_value_of;

verus! {

/// The card faces the game knows, looked up by name.
pub struct CardDatabase {
    pub faces: Vec<CardFace>,
}

/// Every face's mana value fits in 32 bits.
pub open spec fn db_well_formed(db: CardDatabase) -> bool {
    forall|i: int| 0 <= i < db.faces@.len() ==> mana_value_of(#[trigger] db.faces@[i].mana_cost@) <= u32::MAX
}

/// Position of the first face with exactly this name, or -1.
pub open spec fn face_index(faces: Seq<CardFace>, name: Seq<char>) -> int {
    crate::seqs::first_index(faces, |f: CardFace| f.name@ == name)
}

impl CardDatabase {
    /// The first face whose name is `name`.
    pub fn get_face_by_name(&self, name: &str) -> (r: Option<&CardFace>)
        ensures
            ({
                let p = face_index(self.faces@, name@);
                match r {
                    Some(f) => p >= 0 && *f == self.faces@[p],
                    None => p == -1,
                }
            }),
    {
        let mut i: usize = 0;
        while i < self.faces.len()
            invariant
                i <= self.faces@.len(),
                forall|q: int| 0 <= q < i ==> self.faces@[q].name@ != name@,
            decreases self.faces@.len() - i,
        {
            if str_eq(self.faces[i].name.as_str(), name) {
                proof {
                    crate::seqs::lemma_first_index_found(self.faces@, |f: CardFace| f.name@ == name@, i as int);
                }
                return Some(&self.faces[i]);
            }
            i = i + 1;
        }
        proof {
            crate::seqs::lemma_first_index_none(self.faces@, |f: CardFace| f.name@ == name@);
        }
        None
    }
}

} // verus!
