//! CR 705: flipping coins, and what the flips decide.

use vstd::prelude::*;

use crate::game::effects::branch::{branch_outcome, run_branch};
use crate::game::effects::{ability_ctx, clamped_quantity, ctx_of, resolve_count};
use crate::game::state::{
    frame, touch_none, CoinFlipReplacementKind, GameState, PendingCoinFlip, PendingCoinFlipKind,
    Touched, WaitingFor,
};
use crate::rng::random_ratio;
use crate::text::string_of;
use crate::types::ability::{
    is_missing_param,AbilityDefinition, Effect, EffectError, EffectKind, ResolvedAbility, TargetRef};
use crate::types::events::GameEvent;
use crate::types::identifiers::{ObjectId, PlayerId};

verus! {

/// How the replacement effects on a player's coin flips change one flip
/// (CR 614): it is prevented, it is one coin, or it is doubled into two
/// coins of which the player keeps one.
#[derive(Debug, Clone, Copy, PartialEq, Eq, Structural)]
pub enum FlipMode {
    Prevented,
    Single,
    Doubled,
}

/// The way one coin flip of `p` happens: a prevention wins over a doubling.
pub open spec fn flip_mode(s: GameState, p: PlayerId) -> FlipMode {
    let r = s.coin_flip_replacements@;
    if exists|i: int| 0 <= i < r.len() && (#[trigger] r[i]).player == p && r[i].kind == CoinFlipReplacementKind::Prevent {
        FlipMode::Prevented
    } else if exists|i: int| 0 <= i < r.len() && (#[trigger] r[i]).player == p && r[i].kind == CoinFlipReplacementKind::Double {
        FlipMode::Doubled
    } else {
        FlipMode::Single
    }
}

fn flip_mode_of(s: &GameState, p: PlayerId) -> (m: FlipMode)
    ensures
        m == flip_mode(*s, p),
{
    let mut prevent = false;
    let mut double = false;
    let mut i: usize = 0;
    while i < s.coin_flip_replacements.len()
        invariant
            i <= s.coin_flip_replacements@.len(),
            prevent == exists|j: int| 0 <= j < i && (#[trigger] s.coin_flip_replacements@[j]).player == p
                && s.coin_flip_replacements@[j].kind == CoinFlipReplacementKind::Prevent,
            double == exists|j: int| 0 <= j < i && (#[trigger] s.coin_flip_replacements@[j]).player == p
                && s.coin_flip_replacements@[j].kind == CoinFlipReplacementKind::Double,
        decreases s.coin_flip_replacements@.len() - i,
    {
        let r = s.coin_flip_replacements[i];
        if r.player == p {
            match r.kind {
                CoinFlipReplacementKind::Prevent => prevent = true,
                CoinFlipReplacementKind::Double => double = true,
            }
        }
        i = i + 1;
    }
    if prevent {
        FlipMode::Prevented
    } else if double {
        FlipMode::Doubled
    } else {
        FlipMode::Single
    }
}

/// The branch a flip runs: the win branch for a won flip, else the lose
/// branch.
pub open spec fn branch_for(
    won: bool,
    win: Option<Box<AbilityDefinition>>,
    lose: Option<Box<AbilityDefinition>>,
) -> Option<Box<AbilityDefinition>> {
    if won {
        win
    } else {
        lose
    }
}

/// Running an optional branch: nothing for none.
pub open spec fn maybe_branch(
    s0: GameState,
    s1: GameState,
    ev0: Seq<GameEvent>,
    ev1: Seq<GameEvent>,
    b: Option<Box<AbilityDefinition>>,
    source: ObjectId,
    controller: PlayerId,
    targets: Seq<TargetRef>,
) -> bool {
    match b {
        None => frame(s0, s1, touch_none()) && ev1 == ev0,
        Some(d) => branch_outcome(s0, s1, ev0, ev1, d.effect, source, controller, targets),
    }
}

/// Each state of the chain follows from the one before by reporting the
/// flip result and running its branch.
pub open spec fn flip_chain(
    ss: Seq<GameState>,
    es: Seq<Seq<GameEvent>>,
    ws: Seq<bool>,
    win: Option<Box<AbilityDefinition>>,
    lose: Option<Box<AbilityDefinition>>,
    source: ObjectId,
    controller: PlayerId,
    targets: Seq<TargetRef>,
) -> bool {
    &&& ss.len() == ws.len() + 1
    &&& es.len() == ws.len() + 1
    &&& forall|i: int|
        0 <= i < ws.len() ==> maybe_branch(
            ss[i],
            ss[i + 1],
            es[i].push(GameEvent::CoinFlipped { player_id: controller, won: #[trigger] ws[i] }),
            es[i + 1],
            branch_for(ws[i], win, lose),
            source,
            controller,
            targets,
        )
}

/// The state and events after each flip result in turn is reported and its
/// branch run.
pub open spec fn flips_applied(
    s0: GameState,
    s1: GameState,
    ev0: Seq<GameEvent>,
    ev1: Seq<GameEvent>,
    ws: Seq<bool>,
    win: Option<Box<AbilityDefinition>>,
    lose: Option<Box<AbilityDefinition>>,
    source: ObjectId,
    controller: PlayerId,
    targets: Seq<TargetRef>,
) -> bool {
    exists|ss: Seq<GameState>, es: Seq<Seq<GameEvent>>|
        #[trigger] flip_chain(ss, es, ws, win, lose, source, controller, targets) && ss[0] == s0 && es[0] == ev0
            && ss.last() == s1 && es.last() == ev1
}

/// Each state of the chain follows from the one before by running the win
/// branch.
pub open spec fn win_chain(
    ss: Seq<GameState>,
    es: Seq<Seq<GameEvent>>,
    k: nat,
    win: AbilityDefinition,
    source: ObjectId,
    controller: PlayerId,
    targets: Seq<TargetRef>,
) -> bool {
    &&& ss.len() == k + 1
    &&& es.len() == k + 1
    &&& forall|i: int|
        0 <= i < k ==> branch_outcome(#[trigger] ss[i], ss[i + 1], es[i], es[i + 1], win.effect, source, controller, targets)
}

/// The state and events after the win branch ran `k` times.
pub open spec fn wins_applied(
    s0: GameState,
    s1: GameState,
    ev0: Seq<GameEvent>,
    ev1: Seq<GameEvent>,
    k: nat,
    win: AbilityDefinition,
    source: ObjectId,
    controller: PlayerId,
    targets: Seq<TargetRef>,
) -> bool {
    exists|ss: Seq<GameState>, es: Seq<Seq<GameEvent>>|
        #[trigger] win_chain(ss, es, k, win, source, controller, targets) && ss[0] == s0 && es[0] == ev0
            && ss.last() == s1 && es.last() == ev1
}

/// `b` is `a` with only its source of randomness advanced.
pub open spec fn rng_advanced(a: GameState, b: GameState) -> bool {
    frame(a, b, Touched { rng: true, ..touch_none() })
}

pub(crate) fn copy_targets(v: &Vec<TargetRef>) -> (r: Vec<TargetRef>)
    ensures
        r@ == v@,
{
    let mut out: Vec<TargetRef> = Vec::new();
    let mut i: usize = 0;
    while i < v.len()
        invariant
            i <= v@.len(),
            out@ == v@.take(i as int),
        decreases v@.len() - i,
    {
        out.push(v[i]);
        assert(v@.take(i + 1) =~= v@.take(i as int).push(v@[i as int]));
        i = i + 1;
    }
    assert(v@.take(i as int) =~= v@);
    out
}

fn copy_bools(v: &Vec<bool>) -> (r: Vec<bool>)
    ensures
        r@ == v@,
{
    let mut out: Vec<bool> = Vec::new();
    let mut i: usize = 0;
    while i < v.len()
        invariant
            i <= v@.len(),
            out@ == v@.take(i as int),
        decreases v@.len() - i,
    {
        out.push(v[i]);
        assert(v@.take(i + 1) =~= v@.take(i as int).push(v@[i as int]));
        i = i + 1;
    }
    assert(v@.take(i as int) =~= v@);
    out
}

/// Flip `n` fair coins with the game's generator.
fn flip_coins(state: &mut GameState, n: u64) -> (ws: Vec<bool>)
    ensures
        ws@.len() == n,
        rng_advanced(*old(state), *final(state)),
{
    let mut ws: Vec<bool> = Vec::new();
    let mut k: u64 = 0;
    while k < n
        invariant
            k <= n,
            ws@.len() == k,
            rng_advanced(*old(state), *state),
        decreases n - k,
    {
        let w = random_ratio(&mut state.rng, 1, 2);
        ws.push(w);
        k = k + 1;
    }
    ws
}

/// Report each flip result and run its branch, in order (CR 705.2).
fn apply_flips(
    state: &mut GameState,
    ws: &Vec<bool>,
    win: &Option<Box<AbilityDefinition>>,
    lose: &Option<Box<AbilityDefinition>>,
    source: ObjectId,
    controller: PlayerId,
    targets: &Vec<TargetRef>,
    events: &mut Vec<GameEvent>,
)
    requires
        old(state).wf(),
    ensures
        final(state).wf(),
        final(state).turn_number == old(state).turn_number,
        flips_applied(*old(state), *final(state), old(events)@, final(events)@, ws@, *win, *lose, source, controller, targets@),
{
    let ghost s0 = *state;
    let ghost ev0 = events@;
    let ghost mut ss: Seq<GameState> = seq![s0];
    let ghost mut es: Seq<Seq<GameEvent>> = seq![ev0];
    let mut i: usize = 0;
    while i < ws.len()
        invariant
            i <= ws@.len(),
            state.wf(),
            state.turn_number == s0.turn_number,
            flip_chain(ss, es, ws@.take(i as int), *win, *lose, source, controller, targets@),
            ss[0] == s0,
            es[0] == ev0,
            ss.last() == *state,
            es.last() == events@,
        decreases ws@.len() - i,
    {
        let ghost m = *state;
        let ghost em = events@;
        let won = ws[i];
        events.push(GameEvent::CoinFlipped { player_id: controller, won });
        let branch = if won {
            win
        } else {
            lose
        };
        match branch {
            Some(def) => run_branch(state, def, source, controller, targets, events),
            None => {},
        }
        proof {
            assert(*branch == branch_for(won, *win, *lose));
            let ss2 = ss.push(*state);
            let es2 = es.push(events@);
            let wt = ws@.take(i + 1);
            assert forall|k: int| 0 <= k < wt.len() implies maybe_branch(
                ss2[k],
                ss2[k + 1],
                es2[k].push(GameEvent::CoinFlipped { player_id: controller, won: #[trigger] wt[k] }),
                es2[k + 1],
                branch_for(wt[k], *win, *lose),
                source,
                controller,
                targets@,
            ) by {
                if k < i {
                    assert(wt[k] == ws@.take(i as int)[k]);
                    assert(ss2[k] == ss[k] && ss2[k + 1] == ss[k + 1] && es2[k] == es[k] && es2[k + 1] == es[k + 1]);
                } else {
                    assert(wt[k] == won);
                    assert(ss2[k] == m && es2[k] == em);
                }
            }
            ss = ss2;
            es = es2;
        }
        i = i + 1;
    }
    assert(ws@.take(i as int) =~= ws@);
    assert(flip_chain(ss, es, ws@, *win, *lose, source, controller, targets@));
}

/// Run the win branch `k` times (CR 705.2).
fn apply_wins(
    state: &mut GameState,
    k: u64,
    win: &AbilityDefinition,
    source: ObjectId,
    controller: PlayerId,
    targets: &Vec<TargetRef>,
    events: &mut Vec<GameEvent>,
)
    requires
        old(state).wf(),
    ensures
        final(state).wf(),
        wins_applied(*old(state), *final(state), old(events)@, final(events)@, k as nat, *win, source, controller, targets@),
{
    let ghost s0 = *state;
    let ghost ev0 = events@;
    let ghost mut ss: Seq<GameState> = seq![s0];
    let ghost mut es: Seq<Seq<GameEvent>> = seq![ev0];
    let mut i: u64 = 0;
    while i < k
        invariant
            i <= k,
            state.wf(),
            win_chain(ss, es, i as nat, *win, source, controller, targets@),
            ss[0] == s0,
            es[0] == ev0,
            ss.last() == *state,
            es.last() == events@,
        decreases k - i,
    {
        let ghost m = *state;
        let ghost em = events@;
        run_branch(state, win, source, controller, targets, events);
        proof {
            let ss2 = ss.push(*state);
            let es2 = es.push(events@);
            assert forall|j: int| 0 <= j < i + 1 implies branch_outcome(#[trigger] ss2[j], ss2[j + 1], es2[j], es2[j + 1], win.effect, source, controller, targets@) by {
                if j < i {
                    assert(ss2[j] == ss[j] && ss2[j + 1] == ss[j + 1] && es2[j] == es[j] && es2[j + 1] == es[j + 1]);
                    assert(branch_outcome(ss[j], ss[j + 1], es[j], es[j + 1], win.effect, source, controller, targets@));
                }
            }
            ss = ss2;
            es = es2;
        }
        i = i + 1;
    }
    assert(win_chain(ss, es, k as nat, *win, source, controller, targets@));
}

/// Suspend on a doubled flip: flip two coins and ask the player to keep
/// one (CR 614.1a, CR 705.1).
fn suspend_doubled(state: &mut GameState, player: PlayerId) -> (results: Vec<bool>)
    ensures
        results@.len() == 2,
        final(state).waiting_for matches WaitingFor::CoinFlipKeepChoice { player: p, results: rs, keep_count }
            && p == player && rs@ == results@ && keep_count == 1,
        frame(*old(state), *final(state), Touched { rng: true, waiting_for: true, ..touch_none() }),
        final(state).wf() == old(state).wf(),
{
    let a = random_ratio(&mut state.rng, 1, 2);
    let b = random_ratio(&mut state.rng, 1, 2);
    let mut results: Vec<bool> = Vec::new();
    results.push(a);
    results.push(b);
    state.waiting_for = WaitingFor::CoinFlipKeepChoice { player, results: copy_bools(&results), keep_count: 1 };
    results
}

/// The pending flip after a doubled flip interrupted a resolution.
pub open spec fn pending_is(
    p: Option<PendingCoinFlip>,
    source: ObjectId,
    controller: PlayerId,
    targets: Seq<TargetRef>,
    kind: PendingCoinFlipKind,
) -> bool {
    p matches Some(pc) && pc.source_id == source && pc.controller == controller && pc.targets@ == targets
        && pc.kind == kind
}

/// A doubled flip interrupted the resolution: two coins wait for the keep
/// choice, and the resolution's place is stashed.
pub open spec fn suspended_outcome(
    s0: GameState,
    s1: GameState,
    ev0: Seq<GameEvent>,
    ev1: Seq<GameEvent>,
    source: ObjectId,
    controller: PlayerId,
    targets: Seq<TargetRef>,
    kind: PendingCoinFlipKind,
) -> bool {
    &&& s1.waiting_for matches WaitingFor::CoinFlipKeepChoice { player, results, keep_count } && player
        == controller && results@.len() == 2 && keep_count == 1
    &&& pending_is(s1.pending_coin_flip, source, controller, targets, kind)
    &&& frame(s0, s1, Touched { rng: true, waiting_for: true, pending_coin_flip: true, ..touch_none() })
    &&& ev1 == ev0
}

fn stash(
    state: &mut GameState,
    source: ObjectId,
    controller: PlayerId,
    targets: &Vec<TargetRef>,
    win: &Option<Box<AbilityDefinition>>,
    lose: &Option<Box<AbilityDefinition>>,
    kind: PendingCoinFlipKind,
)
    ensures
        pending_is(final(state).pending_coin_flip, source, controller, targets@, kind),
        frame(*old(state), *final(state), Touched { pending_coin_flip: true, ..touch_none() }),
        final(state).wf() == old(state).wf(),
{
    state.pending_coin_flip = Some(PendingCoinFlip {
        source_id: source,
        controller,
        targets: copy_targets(targets),
        win_effect: win.clone(),
        lose_effect: lose.clone(),
        kind,
    });
}

/// The most coins flipped while flipping until a loss.
pub const MAX_FLIPS: u32 = 1000;

/// The coin events of flipping until a loss: `extra` won flips, then the
/// lost one unless the cap stopped the flipping.
pub open spec fn until_lose_events(controller: PlayerId, extra: nat, lost: bool) -> Seq<GameEvent> {
    Seq::new(extra, |j: int| GameEvent::CoinFlipped { player_id: controller, won: true }) + if lost {
        seq![GameEvent::CoinFlipped { player_id: controller, won: false }]
    } else {
        Seq::empty()
    }
}

/// Flipping until a loss from `seed` wins stopped at `total` wins: at a
/// lost flip below the cap, or at the cap.
pub open spec fn until_lose_stop(seed: nat, total: nat, lost: bool) -> bool {
    if seed >= MAX_FLIPS {
        total == seed && !lost
    } else {
        &&& seed <= total <= MAX_FLIPS
        &&& lost <==> total < MAX_FLIPS
    }
}

/// Flip coins for `controller` until one is lost or the win count reaches
/// the cap, counting on from `seed` wins; report each flip.
fn flip_until_lose_loop(state: &mut GameState, controller: PlayerId, seed: u32, events: &mut Vec<GameEvent>) -> (r: (u32, bool))
    ensures
        rng_advanced(*old(state), *final(state)),
        until_lose_stop(seed as nat, r.0 as nat, r.1),
        final(events)@ == old(events)@ + until_lose_events(controller, (r.0 - seed) as nat, r.1),
        final(state).wf() == old(state).wf(),
{
    let ghost ev0 = events@;
    let mut wins = seed;
    let mut lost = false;
    assert(events@ =~= ev0 + until_lose_events(controller, 0, false));
    while wins < MAX_FLIPS && !lost
        invariant
            seed <= wins,
            seed < MAX_FLIPS ==> wins <= MAX_FLIPS,
            seed >= MAX_FLIPS ==> wins == seed && !lost,
            lost ==> wins < MAX_FLIPS,
            rng_advanced(*old(state), *state),
            old(state).wf() == state.wf(),
            events@ == ev0 + until_lose_events(controller, (wins - seed) as nat, lost),
        decreases MAX_FLIPS - wins, if lost { 0nat } else { 1nat },
    {
        let w = random_ratio(&mut state.rng, 1, 2);
        events.push(GameEvent::CoinFlipped { player_id: controller, won: w });
        if w {
            wins = wins + 1;
            assert(events@ =~= ev0 + until_lose_events(controller, (wins - seed) as nat, false));
        } else {
            lost = true;
            assert(events@ =~= ev0 + until_lose_events(controller, (wins - seed) as nat, true));
        }
    }
    (wins, lost)
}

/// CR 705: flip a coin for the controller and run the won or lost branch.
/// A prevented flip (CR 614.6) only reports the effect resolved; a doubled
/// one (CR 614.1a) waits for the controller to keep one of two coins. Fails,
/// changing nothing, on another effect.
pub fn resolve(state: &mut GameState, ability: &ResolvedAbility, events: &mut Vec<GameEvent>) -> (r:
    Result<(), EffectError>)
    requires
        old(state).wf(),
    ensures
        final(state).wf(),
        match ability.effect {
            Effect::FlipCoin { win_effect, lose_effect } => {
                let c = ability.controller;
                let resolved = GameEvent::EffectResolved { kind: EffectKind::FlipCoin, source_id: ability.source_id };
                &&& r is Ok
                &&& match flip_mode(*old(state), c) {
                    FlipMode::Prevented => frame(*old(state), *final(state), touch_none()) && final(events)@
                        == old(events)@.push(resolved),
                    FlipMode::Doubled => suspended_outcome(
                        *old(state),
                        *final(state),
                        old(events)@,
                        final(events)@,
                        ability.source_id,
                        c,
                        ability.targets@,
                        PendingCoinFlipKind::Single,
                    ),
                    FlipMode::Single => {
                        &&& final(events)@.len() > 0
                        &&& final(events)@.last() == resolved
                        &&& exists|won: bool, sr: GameState|
                            rng_advanced(*old(state), sr) && #[trigger] flips_applied(
                                sr,
                                *final(state),
                                old(events)@,
                                final(events)@.drop_last(),
                                seq![won],
                                win_effect,
                                lose_effect,
                                ability.source_id,
                                c,
                                ability.targets@,
                            )
                    },
                }
            },
            _ => {
                &&& is_missing_param(r, "FlipCoin"@)
                &&& frame(*old(state), *final(state), touch_none())
                &&& final(events)@ == old(events)@
            },
        },
{
    let (win, lose) = match &ability.effect {
        Effect::FlipCoin { win_effect, lose_effect } => (win_effect, lose_effect),
        _ => return Err(EffectError::MissingParam(string_of("FlipCoin"))),
    };
    let c = ability.controller;
    match flip_mode_of(state, c) {
        FlipMode::Prevented => {
            events.push(GameEvent::EffectResolved { kind: EffectKind::FlipCoin, source_id: ability.source_id });
            Ok(())
        },
        FlipMode::Doubled => {
            let _results = suspend_doubled(state, c);
            stash(state, ability.source_id, c, &ability.targets, win, lose, PendingCoinFlipKind::Single);
            Ok(())
        },
        FlipMode::Single => {
            let ws = flip_coins(state, 1);
            let ghost sr = *state;
            apply_flips(state, &ws, win, lose, ability.source_id, c, &ability.targets, events);
            let ghost before = events@;
            events.push(GameEvent::EffectResolved { kind: EffectKind::FlipCoin, source_id: ability.source_id });
            proof {
                assert(ws@ =~= seq![ws@[0]]);
                assert(events@.drop_last() =~= before);
                assert(flips_applied(sr, *state, old(events)@, events@.drop_last(), seq![ws@[0]], *win, *lose, ability.source_id, c, ability.targets@));
            }
            Ok(())
        },
    }
}

/// CR 705: flip N coins for the controller (N at least zero), running the
/// won or lost branch after each. Prevented flips (CR 614.6) are skipped; a
/// doubled flip (CR 614.1a) waits for the keep choice with the rest of the
/// flips stashed. Fails, changing nothing, on another effect.
pub fn resolve_flip_coins(state: &mut GameState, ability: &ResolvedAbility, events: &mut Vec<GameEvent>) -> (r:
    Result<(), EffectError>)
    requires
        old(state).wf(),
    ensures
        final(state).wf(),
        match ability.effect {
            Effect::FlipCoins { count, win_effect, lose_effect } => {
                let c = ability.controller;
                let n = clamped_quantity(*old(state), count, ability_ctx(*ability));
                let resolved = GameEvent::EffectResolved { kind: EffectKind::FlipCoins, source_id: ability.source_id };
                &&& r is Ok
                &&& if flip_mode(*old(state), c) == FlipMode::Prevented || n == 0 {
                    frame(*old(state), *final(state), touch_none()) && final(events)@ == old(events)@.push(resolved)
                } else if flip_mode(*old(state), c) == FlipMode::Doubled {
                    suspended_outcome(
                        *old(state),
                        *final(state),
                        old(events)@,
                        final(events)@,
                        ability.source_id,
                        c,
                        ability.targets@,
                        PendingCoinFlipKind::FlipN { remaining: (n - 1) as u32 },
                    )
                } else {
                    &&& final(events)@.len() > 0
                    &&& final(events)@.last() == resolved
                    &&& exists|ws: Seq<bool>, sr: GameState|
                        ws.len() == n && rng_advanced(*old(state), sr) && #[trigger] flips_applied(
                            sr,
                            *final(state),
                            old(events)@,
                            final(events)@.drop_last(),
                            ws,
                            win_effect,
                            lose_effect,
                            ability.source_id,
                            c,
                            ability.targets@,
                        )
                }
            },
            _ => {
                &&& is_missing_param(r, "FlipCoins"@)
                &&& frame(*old(state), *final(state), touch_none())
                &&& final(events)@ == old(events)@
            },
        },
{
    let (count, win, lose) = match &ability.effect {
        Effect::FlipCoins { count, win_effect, lose_effect } => (count, win_effect, lose_effect),
        _ => return Err(EffectError::MissingParam(string_of("FlipCoins"))),
    };
    let q = resolve_count(state, count, ctx_of(ability));
    let n: u32 = q as u32;
    let c = ability.controller;
    let mode = flip_mode_of(state, c);
    if matches!(mode, FlipMode::Prevented) || n == 0 {
        events.push(GameEvent::EffectResolved { kind: EffectKind::FlipCoins, source_id: ability.source_id });
        return Ok(());
    }
    if matches!(mode, FlipMode::Doubled) {
        let _results = suspend_doubled(state, c);
        stash(state, ability.source_id, c, &ability.targets, win, lose, PendingCoinFlipKind::FlipN { remaining: n - 1 });
        return Ok(());
    }
    let ws = flip_coins(state, n as u64);
    let ghost sr = *state;
    apply_flips(state, &ws, win, lose, ability.source_id, c, &ability.targets, events);
    let ghost before = events@;
    events.push(GameEvent::EffectResolved { kind: EffectKind::FlipCoins, source_id: ability.source_id });
    proof {
        assert(events@.drop_last() =~= before);
        assert(flips_applied(sr, *state, old(events)@, events@.drop_last(), ws@, *win, *lose, ability.source_id, c, ability.targets@));
    }
    Ok(())
}

/// CR 705: flip coins for the controller until one is lost (at most
/// `MAX_FLIPS` wins), then run the win branch once per win. A doubled flip
/// (CR 614.1a) waits for the keep choice. A player whose flips are all
/// prevented would flip forever, so that case is left out. Fails, changing
/// nothing, on another effect.
pub fn resolve_until_lose(state: &mut GameState, ability: &ResolvedAbility, events: &mut Vec<GameEvent>) -> (r:
    Result<(), EffectError>)
    requires
        old(state).wf(),
        ability.effect is FlipCoinUntilLose ==> flip_mode(*old(state), ability.controller) != FlipMode::Prevented,
    ensures
        final(state).wf(),
        match ability.effect {
            Effect::FlipCoinUntilLose { win_effect } => {
                let c = ability.controller;
                let resolved = GameEvent::EffectResolved { kind: EffectKind::FlipCoinUntilLose, source_id: ability.source_id };
                &&& r is Ok
                &&& if flip_mode(*old(state), c) == FlipMode::Doubled {
                    suspended_outcome(
                        *old(state),
                        *final(state),
                        old(events)@,
                        final(events)@,
                        ability.source_id,
                        c,
                        ability.targets@,
                        PendingCoinFlipKind::UntilLose { wins_so_far: 0 },
                    )
                } else {
                    &&& final(events)@.len() > 0
                    &&& final(events)@.last() == resolved
                    &&& exists|total: nat, lost: bool, sr: GameState|
                        until_lose_stop(0, total, lost) && rng_advanced(*old(state), sr) && #[trigger] wins_applied(
                            sr,
                            *final(state),
                            old(events)@ + until_lose_events(c, total, lost),
                            final(events)@.drop_last(),
                            total,
                            *win_effect,
                            ability.source_id,
                            c,
                            ability.targets@,
                        )
                }
            },
            _ => {
                &&& is_missing_param(r, "FlipCoinUntilLose"@)
                &&& frame(*old(state), *final(state), touch_none())
                &&& final(events)@ == old(events)@
            },
        },
{
    let win = match &ability.effect {
        Effect::FlipCoinUntilLose { win_effect } => win_effect,
        _ => return Err(EffectError::MissingParam(string_of("FlipCoinUntilLose"))),
    };
    let c = ability.controller;
    let mode = flip_mode_of(state, c);
    if matches!(mode, FlipMode::Doubled) {
        let _results = suspend_doubled(state, c);
        let no_lose: Option<Box<AbilityDefinition>> = None;
        stash(state, ability.source_id, c, &ability.targets, &Some(win.clone()), &no_lose, PendingCoinFlipKind::UntilLose { wins_so_far: 0 });
        return Ok(());
    }
    let (wins, lost) = flip_until_lose_loop(state, c, 0, events);
    let ghost sr = *state;
    let ghost mid = events@;
    apply_wins(state, wins as u64, win, ability.source_id, c, &ability.targets, events);
    let ghost before = events@;
    events.push(GameEvent::EffectResolved { kind: EffectKind::FlipCoinUntilLose, source_id: ability.source_id });
    proof {
        assert(events@.drop_last() =~= before);
        assert(wins_applied(sr, *state, mid, events@.drop_last(), wins as nat, **win, ability.source_id, c, ability.targets@));
    }
    Ok(())
}

/// The state after a keep choice cleared the waiting decision to the
/// controller's priority.
pub open spec fn keep_cleared(a: GameState, b: GameState, c: PlayerId) -> bool {
    frame(a, b, Touched { waiting_for: true, ..touch_none() }) && b.waiting_for == (WaitingFor::Priority { player: c })
}

/// What a resumed flip resolution returns when a doubled flip suspends it
/// again: the new keep choice the state waits for.
pub open spec fn resuspended(r: Result<Option<WaitingFor>, EffectError>, s: GameState) -> bool {
    r matches Ok(Some(WaitingFor::CoinFlipKeepChoice { player, results, keep_count })) && (s.waiting_for matches WaitingFor::CoinFlipKeepChoice {
        player: p2,
        results: r2,
        keep_count: k2,
    } && p2 == player && r2@ == results@ && k2 == keep_count)
}

/// After the keep choice of a doubled single flip: the kept flip is
/// reported, its branch run, and the effect reported resolved.
pub open spec fn single_resumed(
    s0: GameState,
    s1: GameState,
    ev0: Seq<GameEvent>,
    ev1: Seq<GameEvent>,
    p: PendingCoinFlip,
    won: bool,
    r: Result<Option<WaitingFor>, EffectError>,
) -> bool {
    let c = p.controller;
    let e1 = ev0.push(GameEvent::CoinFlipped { player_id: c, won });
    &&& r == Ok::<Option<WaitingFor>, EffectError>(None)
    &&& ev1.len() > 0
    &&& ev1.last() == GameEvent::EffectResolved { kind: EffectKind::FlipCoin, source_id: p.source_id }
    &&& exists|sp: GameState|
        keep_cleared(s0, sp, c) && #[trigger] maybe_branch(
            sp,
            s1,
            e1,
            ev1.drop_last(),
            branch_for(won, p.win_effect, p.lose_effect),
            p.source_id,
            c,
            p.targets@,
        )
}

/// After the keep choice of a doubled flip among several: the kept flip is
/// reported and its branch run; then the `remaining` flips go on as a
/// fresh resolution would, suspending again on another doubled flip.
pub open spec fn flip_n_resumed(
    s0: GameState,
    s1: GameState,
    ev0: Seq<GameEvent>,
    ev1: Seq<GameEvent>,
    p: PendingCoinFlip,
    won: bool,
    remaining: u32,
    r: Result<Option<WaitingFor>, EffectError>,
) -> bool {
    let c = p.controller;
    let src = p.source_id;
    let tg = p.targets@;
    let mode = flip_mode(s0, c);
    let resolved = GameEvent::EffectResolved { kind: EffectKind::FlipCoins, source_id: src };
    exists|sp: GameState, sb: GameState, eb: Seq<GameEvent>|
        keep_cleared(s0, sp, c) && #[trigger] maybe_branch(
            sp,
            sb,
            ev0.push(GameEvent::CoinFlipped { player_id: c, won }),
            eb,
            branch_for(won, p.win_effect, p.lose_effect),
            src,
            c,
            tg,
        ) && if mode == FlipMode::Prevented || remaining == 0 {
            &&& r == Ok::<Option<WaitingFor>, EffectError>(None)
            &&& frame(sb, s1, touch_none())
            &&& ev1 == eb.push(resolved)
        } else if mode == FlipMode::Doubled {
            &&& suspended_outcome(sb, s1, eb, ev1, src, c, tg, PendingCoinFlipKind::FlipN { remaining: (remaining - 1) as u32 })
            &&& resuspended(r, s1)
        } else {
            &&& r == Ok::<Option<WaitingFor>, EffectError>(None)
            &&& ev1.len() > 0
            &&& ev1.last() == resolved
            &&& exists|ws: Seq<bool>, sr: GameState|
                ws.len() == remaining && rng_advanced(sb, sr) && #[trigger] flips_applied(
                    sr,
                    s1,
                    eb,
                    ev1.drop_last(),
                    ws,
                    p.win_effect,
                    p.lose_effect,
                    src,
                    c,
                    tg,
                )
        }
}

/// After the keep choice of a doubled flip while flipping until a loss:
/// the kept flip is reported; a won flip counts on from `wins_so_far`, and
/// the flipping goes on (suspending again on another doubled flip); then
/// the win branch runs once per win. Without a win branch the resolution
/// fails after reporting the kept flip.
pub open spec fn until_lose_resumed(
    s0: GameState,
    s1: GameState,
    ev0: Seq<GameEvent>,
    ev1: Seq<GameEvent>,
    p: PendingCoinFlip,
    won: bool,
    wins_so_far: u32,
    r: Result<Option<WaitingFor>, EffectError>,
) -> bool {
    let c = p.controller;
    let src = p.source_id;
    let tg = p.targets@;
    let e1 = ev0.push(GameEvent::CoinFlipped { player_id: c, won });
    let mode = flip_mode(s0, c);
    match p.win_effect {
        None => {
            &&& is_missing_param(r, "FlipCoinUntilLose"@)
            &&& keep_cleared(s0, s1, c)
            &&& ev1 == e1
        },
        Some(win) => {
            let seed: nat = if won { (wins_so_far + 1) as nat } else { wins_so_far as nat };
            if won && mode == FlipMode::Doubled && seed < MAX_FLIPS {
                until_lose_suspended(s0, s1, e1, ev1, src, c, tg, seed, r)
            } else {
                until_lose_completed(s0, s1, e1, ev1, *win, src, c, tg, won, seed, r)
            }
        },
    }
}

/// A won kept flip was followed by another doubled flip: the resolution is
/// stashed again, counting on from `seed` wins.
pub open spec fn until_lose_suspended(
    s0: GameState,
    s1: GameState,
    e1: Seq<GameEvent>,
    ev1: Seq<GameEvent>,
    src: ObjectId,
    c: PlayerId,
    tg: Seq<TargetRef>,
    seed: nat,
    r: Result<Option<WaitingFor>, EffectError>,
) -> bool {
    &&& exists|sp: GameState| keep_cleared(s0, sp, c) && #[trigger] suspended_outcome(
        sp,
        s1,
        e1,
        ev1,
        src,
        c,
        tg,
        PendingCoinFlipKind::UntilLose { wins_so_far: seed as u32 },
    )
    &&& resuspended(r, s1)
}

/// The flipping went on from `seed` wins until a loss (only after a won
/// kept flip), then the win branch ran once per win and the effect was
/// reported resolved.
pub open spec fn until_lose_completed(
    s0: GameState,
    s1: GameState,
    e1: Seq<GameEvent>,
    ev1: Seq<GameEvent>,
    win: AbilityDefinition,
    src: ObjectId,
    c: PlayerId,
    tg: Seq<TargetRef>,
    won: bool,
    seed: nat,
    r: Result<Option<WaitingFor>, EffectError>,
) -> bool {
    &&& r == Ok::<Option<WaitingFor>, EffectError>(None)
    &&& ev1.len() > 0
    &&& ev1.last() == GameEvent::EffectResolved { kind: EffectKind::FlipCoinUntilLose, source_id: src }
    &&& exists|total: nat, lost: bool, sr: GameState|
        (if won { until_lose_stop(seed, total, lost) } else { total == seed && !lost })
            && (exists|sp: GameState| keep_cleared(s0, sp, c) && #[trigger] rng_advanced(sp, sr))
            && #[trigger] until_lose_finished(sr, s1, e1, ev1.drop_last(), seed, total, lost, win, src, c, tg)
}

/// Flipping until a loss went on from `seed` wins to `total` wins (and a
/// loss, when `lost`), each flip reported; then the win branch ran once per
/// win.
pub open spec fn until_lose_finished(
    sr: GameState,
    s1: GameState,
    ev0: Seq<GameEvent>,
    ev1: Seq<GameEvent>,
    seed: nat,
    total: nat,
    lost: bool,
    win: AbilityDefinition,
    source: ObjectId,
    controller: PlayerId,
    targets: Seq<TargetRef>,
) -> bool {
    wins_applied(sr, s1, ev0 + until_lose_events(controller, (total - seed) as nat, lost), ev1, total, win, source, controller, targets)
}

/// Report the kept flip and hand the decision back to the controller.
fn report_kept(state: &mut GameState, controller: PlayerId, won: bool, events: &mut Vec<GameEvent>)
    ensures
        keep_cleared(*old(state), *final(state), controller),
        final(events)@ == old(events)@.push(GameEvent::CoinFlipped { player_id: controller, won }),
        final(state).wf() == old(state).wf(),
{
    events.push(GameEvent::CoinFlipped { player_id: controller, won });
    state.waiting_for = WaitingFor::Priority { player: controller };
}

fn resume_single(state: &mut GameState, pending: PendingCoinFlip, won: bool, events: &mut Vec<GameEvent>) -> (r:
    Result<Option<WaitingFor>, EffectError>)
    requires
        old(state).wf(),
    ensures
        final(state).wf(),
        single_resumed(*old(state), *final(state), old(events)@, final(events)@, pending, won, r),
{
    let ghost p = pending;
    let PendingCoinFlip { source_id, controller, targets, win_effect, lose_effect, kind: _ } = pending;
    report_kept(state, controller, won, events);
    let ghost sp = *state;
    let ghost e1 = events@;
    let branch = if won {
        &win_effect
    } else {
        &lose_effect
    };
    match branch {
        Some(def) => run_branch(state, def, source_id, controller, &targets, events),
        None => {},
    }
    let ghost before = events@;
    events.push(GameEvent::EffectResolved { kind: EffectKind::FlipCoin, source_id });
    proof {
        assert(events@.drop_last() =~= before);
        assert(maybe_branch(sp, *state, e1, events@.drop_last(), branch_for(won, p.win_effect, p.lose_effect), source_id, controller, targets@));
    }
    Ok(None)
}

fn resume_flip_n(
    state: &mut GameState,
    pending: PendingCoinFlip,
    won: bool,
    remaining: u32,
    events: &mut Vec<GameEvent>,
) -> (r: Result<Option<WaitingFor>, EffectError>)
    requires
        old(state).wf(),
    ensures
        final(state).wf(),
        flip_n_resumed(*old(state), *final(state), old(events)@, final(events)@, pending, won, remaining, r),
{
    let ghost p = pending;
    let PendingCoinFlip { source_id, controller, targets, win_effect, lose_effect, kind: _ } = pending;
    report_kept(state, controller, won, events);
    let ghost sp = *state;
    let ghost e1 = events@;
    let branch = if won {
        &win_effect
    } else {
        &lose_effect
    };
    match branch {
        Some(def) => run_branch(state, def, source_id, controller, &targets, events),
        None => {},
    }
    let ghost sb = *state;
    let ghost eb = events@;
    proof {
        assert(maybe_branch(sp, sb, e1, eb, branch_for(won, p.win_effect, p.lose_effect), source_id, controller, targets@));
    }
    let mode = flip_mode_of(state, controller);
    if matches!(mode, FlipMode::Prevented) || remaining == 0 {
        events.push(GameEvent::EffectResolved { kind: EffectKind::FlipCoins, source_id });
        return Ok(None);
    }
    if matches!(mode, FlipMode::Doubled) {
        let results = suspend_doubled(state, controller);
        stash(state, source_id, controller, &targets, &win_effect, &lose_effect, PendingCoinFlipKind::FlipN { remaining: remaining - 1 });
        return Ok(Some(WaitingFor::CoinFlipKeepChoice { player: controller, results, keep_count: 1 }));
    }
    let ws = flip_coins(state, remaining as u64);
    let ghost sr = *state;
    apply_flips(state, &ws, &win_effect, &lose_effect, source_id, controller, &targets, events);
    let ghost before = events@;
    events.push(GameEvent::EffectResolved { kind: EffectKind::FlipCoins, source_id });
    proof {
        assert(events@.drop_last() =~= before);
        assert(flips_applied(sr, *state, eb, events@.drop_last(), ws@, win_effect, lose_effect, source_id, controller, targets@));
    }
    Ok(None)
}

fn resume_until_lose(
    state: &mut GameState,
    pending: PendingCoinFlip,
    won: bool,
    wins_so_far: u32,
    events: &mut Vec<GameEvent>,
) -> (r: Result<Option<WaitingFor>, EffectError>)
    requires
        old(state).wf(),
        wins_so_far < u32::MAX,
        won && wins_so_far + 1 < MAX_FLIPS ==> flip_mode(*old(state), pending.controller) != FlipMode::Prevented,
    ensures
        final(state).wf(),
        until_lose_resumed(*old(state), *final(state), old(events)@, final(events)@, pending, won, wins_so_far, r),
{
    let ghost p = pending;
    let PendingCoinFlip { source_id, controller, targets, win_effect, lose_effect: _, kind: _ } = pending;
    report_kept(state, controller, won, events);
    let ghost sp = *state;
    let ghost e1 = events@;
    let win = match &win_effect {
        Some(w) => w,
        None => return Err(EffectError::MissingParam(string_of("FlipCoinUntilLose"))),
    };
    let seed: u32 = if won {
        wins_so_far + 1
    } else {
        wins_so_far
    };
    let mode = flip_mode_of(state, controller);
    if won && matches!(mode, FlipMode::Doubled) && seed < MAX_FLIPS {
        let results = suspend_doubled(state, controller);
        let no_lose: Option<Box<AbilityDefinition>> = None;
        stash(state, source_id, controller, &targets, &win_effect, &no_lose, PendingCoinFlipKind::UntilLose { wins_so_far: seed });
        proof {
            assert(suspended_outcome(sp, *state, e1, events@, source_id, controller, targets@, PendingCoinFlipKind::UntilLose { wins_so_far: seed }));
            assert(until_lose_suspended(*old(state), *state, e1, events@, source_id, controller, targets@, (wins_so_far + 1) as nat, Ok(Some(WaitingFor::CoinFlipKeepChoice { player: controller, results, keep_count: 1 }))));
        }
        return Ok(Some(WaitingFor::CoinFlipKeepChoice { player: controller, results, keep_count: 1 }));
    }
    let (total, lost) = if won {
        flip_until_lose_loop(state, controller, seed, events)
    } else {
        (seed, false)
    };
    let ghost sr = *state;
    let ghost mid = events@;
    proof {
        if !won {
            assert(events@ =~= e1 + until_lose_events(controller, 0, false));
        }
        assert(rng_advanced(sp, sr));
        assert(mid == e1 + until_lose_events(controller, (total - seed) as nat, lost));
    }
    apply_wins(state, total as u64, win, source_id, controller, &targets, events);
    let ghost before = events@;
    events.push(GameEvent::EffectResolved { kind: EffectKind::FlipCoinUntilLose, source_id });
    proof {
        assert(events@.drop_last() =~= before);
        assert(wins_applied(sr, *state, mid, events@.drop_last(), total as nat, **win, source_id, controller, targets@));
        assert(keep_cleared(*old(state), sp, controller) && rng_advanced(sp, sr));
        assert(until_lose_finished(sr, *state, e1, events@.drop_last(), seed as nat, total as nat, lost, **win, source_id, controller, targets@));
        assert(until_lose_completed(*old(state), *state, e1, events@, **win, source_id, controller, targets@, won, seed as nat, Ok(None)));
    }
    Ok(None)
}

/// CR 705.1 + CR 614.1a: resume a flip resolution after the controller kept
/// the first of `kept` of a doubled flip: report that flip, run its branch,
/// and go on from where the resolution was stashed. Returns the new keep
/// choice where another doubled flip suspends it again; `None` once the
/// whole flip effect is done.
pub fn resume_after_keep(
    state: &mut GameState,
    pending: PendingCoinFlip,
    kept: Vec<bool>,
    events: &mut Vec<GameEvent>,
) -> (r: Result<Option<WaitingFor>, EffectError>)
    requires
        old(state).wf(),
        kept@.len() > 0,
        pending.kind matches PendingCoinFlipKind::UntilLose { wins_so_far } ==> wins_so_far < u32::MAX && (
        kept@[0] && wins_so_far + 1 < MAX_FLIPS ==> flip_mode(*old(state), pending.controller)
            != FlipMode::Prevented),
    ensures
        final(state).wf(),
        match pending.kind {
            PendingCoinFlipKind::Single => single_resumed(
                *old(state),
                *final(state),
                old(events)@,
                final(events)@,
                pending,
                kept@[0],
                r,
            ),
            PendingCoinFlipKind::FlipN { remaining } => flip_n_resumed(
                *old(state),
                *final(state),
                old(events)@,
                final(events)@,
                pending,
                kept@[0],
                remaining,
                r,
            ),
            PendingCoinFlipKind::UntilLose { wins_so_far } => until_lose_resumed(
                *old(state),
                *final(state),
                old(events)@,
                final(events)@,
                pending,
                kept@[0],
                wins_so_far,
                r,
            ),
        },
{
    let won = kept[0];
    match pending.kind {
        PendingCoinFlipKind::Single => resume_single(state, pending, won, events),
        PendingCoinFlipKind::FlipN { remaining } => resume_flip_n(state, pending, won, remaining, events),
        PendingCoinFlipKind::UntilLose { wins_so_far } => resume_until_lose(state, pending, won, wins_so_far, events),
    }
}

} // verus!
