//! What the grammar fragments recognise, stated over every text: which
//! phrase gives which result, whatever follows it.

use vstd::prelude::*;

use crate::parser::cursor::starts_with;
use crate::parser::duration::{duration_match, pronoun_match, pronoun_next_turn_match};
use crate::parser::target::controller_suffix_match;
use crate::types::ability::{ControllerRef, Duration, PlayerScope, StaticCondition};

verus! {

/// A text that begins with `p` does not begin with `q` where the two differ
/// at a place before either ends.
proof fn lemma_differs_at(s: Seq<char>, p: Seq<char>, q: Seq<char>, i: int)
    requires
        starts_with(s, p),
        0 <= i < p.len(),
        i < q.len(),
        p[i] != q[i],
    ensures
        !starts_with(s, q),
{
    if starts_with(s, q) {
        assert(s.subrange(0, p.len() as int)[i] == s[i]);
        assert(s.subrange(0, q.len() as int)[i] == s[i]);
    }
}

/// A text that begins with `p + q` begins with `p`, and what follows `p`
/// begins with `q`.
proof fn lemma_starts_with_concat(s: Seq<char>, p: Seq<char>, q: Seq<char>)
    requires
        starts_with(s, p + q),
    ensures
        starts_with(s, p),
        starts_with(s.skip(p.len() as int), q),
{
    assert(s.subrange(0, p.len() as int) =~= (p + q).subrange(0, p.len() as int));
    assert((p + q).subrange(0, p.len() as int) =~= p);
    assert(s.skip(p.len() as int).subrange(0, q.len() as int) =~= s.subrange(p.len() as int, (p.len() + q.len()) as int));
    assert(s.subrange(p.len() as int, (p.len() + q.len()) as int) =~= (p + q).subrange(p.len() as int, (p.len() + q.len()) as int));
    assert((p + q).subrange(p.len() as int, (p.len() + q.len()) as int) =~= q);
}

/// "until the end of your next turn" and "until the end of their next
/// turn" both last until the end of the controller's next turn, whatever
/// follows them, and take exactly the phrase.
pub proof fn law_end_of_next_turn_either_pronoun(s: Seq<char>, pronoun: Seq<char>)
    requires
        pronoun == "your"@ || pronoun == "their"@,
        starts_with(s, "until the end of "@ + pronoun + " next turn"@),
    ensures
        duration_match(s) == Some(
            (
                ("until the end of "@ + pronoun + " next turn"@).len(),
                Duration::UntilEndOfNextTurnOf { player: PlayerScope::Controller },
            ),
        ),
{
    reveal_strlit("until the end of ");
    reveal_strlit("your");
    reveal_strlit("their");
    reveal_strlit(" next turn");
    reveal_strlit("until end of turn");
    reveal_strlit("until end of combat");
    let lead = "until the end of "@;
    let nt = " next turn"@;
    assert(lead + pronoun + nt =~= lead + (pronoun + nt));
    lemma_starts_with_concat(s, lead, pronoun + nt);
    let r = s.skip(lead.len() as int);
    lemma_starts_with_concat(r, pronoun, nt);
    let p = lead + pronoun + nt;
    assert(p[6] == 't');
    lemma_differs_at(s, p, "until end of turn"@, 6);
    lemma_differs_at(s, p, "until end of combat"@, 6);
    if pronoun == "their"@ {
        assert(pronoun[0] != "your"@[0]);
        lemma_differs_at(r, pronoun, "your"@, 0);
    }
    assert(pronoun_match(r) == Some(pronoun.len()));
    assert(pronoun_next_turn_match(s, lead) == Some(lead.len() + pronoun.len() + nt.len()));
}

/// "until your next turn" and "until their next turn" both last until the
/// controller's next turn begins, whatever follows them, and take exactly
/// the phrase.
pub proof fn law_until_next_turn_either_pronoun(s: Seq<char>, pronoun: Seq<char>)
    requires
        pronoun == "your"@ || pronoun == "their"@,
        starts_with(s, "until "@ + pronoun + " next turn"@),
    ensures
        duration_match(s) == Some(
            (("until "@ + pronoun + " next turn"@).len(), Duration::UntilNextTurnOf { player: PlayerScope::Controller }),
        ),
{
    reveal_strlit("until the end of ");
    reveal_strlit("until ");
    reveal_strlit("your");
    reveal_strlit("their");
    reveal_strlit(" next turn");
    reveal_strlit("until end of turn");
    reveal_strlit("until end of combat");
    let lead = "until "@;
    let nt = " next turn"@;
    assert(lead + pronoun + nt =~= lead + (pronoun + nt));
    lemma_starts_with_concat(s, lead, pronoun + nt);
    let r = s.skip(lead.len() as int);
    lemma_starts_with_concat(r, pronoun, nt);
    let p = lead + pronoun + nt;
    assert(p[6] == pronoun[0]);
    lemma_differs_at(s, p, "until end of turn"@, 6);
    lemma_differs_at(s, p, "until end of combat"@, 6);
    if pronoun == "your"@ {
        lemma_differs_at(s, p, "until the end of "@, 6);
    } else {
        assert(p[9] == 'i');
        lemma_differs_at(s, p, "until the end of "@, 9);
        lemma_differs_at(r, pronoun, "your"@, 0);
    }
    assert(!(pronoun_next_turn_match(s, "until the end of "@) is Some));
    assert(pronoun_match(r) == Some(pronoun.len()));
    assert(pronoun_next_turn_match(s, lead) == Some(lead.len() + pronoun.len() + nt.len()));
}

/// "your opponents control" and "an opponent controls" name the opponents,
/// "you control" the ability's controller and "target player controls" the
/// target player, whatever follows them, each taking exactly the phrase;
/// and whatever the
/// text, a suffix read as naming the ability's controller is exactly "you
/// control", one read as naming the opponents is exactly one of those two
/// phrases, and one read as naming the target player is exactly "target
/// player controls".
pub proof fn law_controller_suffix_names(s: Seq<char>)
    ensures
        starts_with(s, "your opponents control"@) ==> controller_suffix_match(s) == Some(
            ("your opponents control"@.len(), ControllerRef::Opponent),
        ),
        starts_with(s, "an opponent controls"@) ==> controller_suffix_match(s) == Some(
            ("an opponent controls"@.len(), ControllerRef::Opponent),
        ),
        starts_with(s, "you control"@) ==> controller_suffix_match(s) == Some(
            ("you control"@.len(), ControllerRef::You),
        ),
        starts_with(s, "target player controls"@) ==> controller_suffix_match(s) == Some(
            ("target player controls"@.len(), ControllerRef::TargetPlayer),
        ),
        controller_suffix_match(s) matches Some((k, ControllerRef::You)) ==> k <= s.len() && s.take(k as int)
            == "you control"@,
        controller_suffix_match(s) matches Some((k, ControllerRef::Opponent)) ==> k <= s.len() && (s.take(k as int)
            == "your opponents control"@ || s.take(k as int) == "an opponent controls"@),
        controller_suffix_match(s) matches Some((k, ControllerRef::TargetPlayer)) ==> k <= s.len() && s.take(
            k as int,
        ) == "target player controls"@,
{
    reveal_strlit("you control");
    reveal_strlit("an opponent controls");
    reveal_strlit("your opponents control");
    reveal_strlit("target player controls");
    if starts_with(s, "your opponents control"@) {
        lemma_differs_at(s, "your opponents control"@, "you control"@, 3);
        lemma_differs_at(s, "your opponents control"@, "an opponent controls"@, 0);
    }
    if starts_with(s, "an opponent controls"@) {
        lemma_differs_at(s, "an opponent controls"@, "you control"@, 0);
    }
    if starts_with(s, "target player controls"@) {
        lemma_differs_at(s, "target player controls"@, "you control"@, 0);
        lemma_differs_at(s, "target player controls"@, "an opponent controls"@, 0);
        lemma_differs_at(s, "target player controls"@, "your opponents control"@, 0);
    }
}

/// "until end of turn" and "this turn" last until the end of the turn, and
/// "until end of combat" until the end of combat, whatever follows them,
/// each taking exactly the phrase; "for as long as ~ is tapped" lasts while
/// the source is tapped.
pub proof fn law_fixed_duration_phrases(s: Seq<char>)
    ensures
        starts_with(s, "until end of turn"@) ==> duration_match(s) == Some(
            ("until end of turn"@.len(), Duration::UntilEndOfTurn),
        ),
        starts_with(s, "this turn"@) ==> duration_match(s) == Some(("this turn"@.len(), Duration::UntilEndOfTurn)),
        starts_with(s, "until end of combat"@) ==> duration_match(s) == Some(
            ("until end of combat"@.len(), Duration::UntilEndOfCombat),
        ),
        starts_with(s, "for as long as ~ is tapped"@) ==> duration_match(s) == Some(
            (
                "for as long as ~ is tapped"@.len(),
                Duration::ForAsLongAs { condition: StaticCondition::SourceIsTapped },
            ),
        ),
{
    reveal_strlit("until end of turn");
    reveal_strlit("until end of combat");
    reveal_strlit("this turn");
    reveal_strlit("until the end of ");
    reveal_strlit("until ");
    reveal_strlit("for as long as ~ is tapped");
    reveal_strlit("for as long as ");
    reveal_strlit("~ is tapped");
    if starts_with(s, "until end of combat"@) {
        lemma_differs_at(s, "until end of combat"@, "until end of turn"@, 13);
    }
    if starts_with(s, "this turn"@) {
        lemma_differs_at(s, "this turn"@, "until end of turn"@, 0);
        lemma_differs_at(s, "this turn"@, "until end of combat"@, 0);
        lemma_differs_at(s, "this turn"@, "until the end of "@, 0);
        lemma_differs_at(s, "this turn"@, "until "@, 0);
    }
    if starts_with(s, "for as long as ~ is tapped"@) {
        let p = "for as long as ~ is tapped"@;
        lemma_differs_at(s, p, "until end of turn"@, 0);
        lemma_differs_at(s, p, "until end of combat"@, 0);
        lemma_differs_at(s, p, "until the end of "@, 0);
        lemma_differs_at(s, p, "until "@, 0);
        lemma_differs_at(s, p, "this turn"@, 0);
        assert(p =~= "for as long as "@ + "~ is tapped"@);
        lemma_starts_with_concat(s, "for as long as "@, "~ is tapped"@);
    }
}

} // verus!
