//! Duels between two players: one game, a series with alternating colours, and
//! pairs of games from a shared opening.
//!
//! The result of a game is seen from White: 1, 0 or -1. Points are counted in
//! halves.
use rand::rngs::StdRng;
use vstd::prelude::*;

use crate::bots;
use crate::bots::Bot;
use crate::echiquier;
use crate::graines;
use crate::jeu;
use crate::jeu::Jeu;
use crate::texte;

verus! {

/// Half-moves after which a duel is drawn.
pub const MAX_PLIS_ARENE: u32 = 300;

/// Half-moves of a shared opening.
pub const PLIS_OUVERTURE: usize = 4;

// ---------------------------------------------------------------------------
// One game
// ---------------------------------------------------------------------------

/// The first `k` moves of a game.
pub open spec fn debut(j: jeu::VueJeu, k: int) -> jeu::VueJeu {
    jeu::VueJeu {
        coups: j.coups.take(k),
        fens: j.fens.take(k + 1),
        hachages: j.hachages.take(k + 1),
    }
}

/// Result of a game for White, if it is over: a position that has come up for
/// the third time since the opening of `depuis` moves, mate, stalemate, too
/// little material, fifty moves, or `max_plies` half-moves.
pub open spec fn fin_du_duel(j: jeu::VueJeu, depuis: int, max_plies: int) -> Option<int> {
    let e = jeu::etat_de(j.fens.last())->0;
    if j.coups.len() > depuis && jeu::repetitions(j.hachages) >= 3 {
        Some(0)
    } else if e.mat_spec() {
        Some(
            if e.trait_blanc {
                -1
            } else {
                1
            },
        )
    } else if e.pat_spec() || e.nulle_spec() || j.coups.len() >= max_plies {
        Some(0)
    } else {
        None
    }
}

/// Is `j` a game that goes on from `j0` and was open before each move?
pub open spec fn prolonge(j: jeu::VueJeu, j0: jeu::VueJeu, max_plies: int) -> bool {
    &&& jeu::deroule(j)
    &&& j.coups.len() >= j0.coups.len()
    &&& debut(j, j0.coups.len() as int) == j0
    &&& forall|k: int|
        j0.coups.len() <= k < j.coups.len() ==> fin_du_duel(
            #[trigger] debut(j, k),
            j0.coups.len() as int,
            max_plies,
        ) is None
}

pub(crate) fn juge(j: &Jeu, depuis: usize, max_plies: u32) -> (r: Option<i32>)
    requires
        jeu::deroule(j@),
    ensures
        match r {
            Some(x) => fin_du_duel(j@, depuis as int, max_plies as int) == Some(x as int) && -1 <= x
                <= 1,
            None => fin_du_duel(j@, depuis as int, max_plies as int) is None,
        },
{
    let n: usize = j.coups.len();
    assert(j@.coups.len() == n);
    if n > depuis && j.repetitions() >= 3 {
        return Some(0);
    }
    match jeu::examine(j.fen().as_str()) {
        Some(e) => {
            if e.mat() {
                if e.trait_blanc {
                    Some(-1)
                } else {
                    Some(1)
                }
            } else if e.pat() || e.nulle() || n >= max_plies as usize {
                Some(0)
            } else {
                None
            }
        },
        None => None,
    }
}

pub(crate) proof fn lemme_prolonge(
    j: jeu::VueJeu,
    suite: jeu::VueJeu,
    j0: jeu::VueJeu,
    uci: Seq<char>,
    max_plies: int,
)
    requires
        prolonge(j, j0, max_plies),
        jeu::deroule(suite),
        jeu::jeu_suivant(j, uci) == Some(suite),
        fin_du_duel(j, j0.coups.len() as int, max_plies) is None,
    ensures
        prolonge(suite, j0, max_plies),
{
    let n = j.coups.len() as int;
    let n0 = j0.coups.len() as int;
    assert(debut(suite, n0) =~= debut(j, n0));
    assert forall|k: int| n0 <= k < suite.coups.len() implies fin_du_duel(
        #[trigger] debut(suite, k),
        n0,
        max_plies,
    ) is None by {
        if k < n {
            assert(debut(suite, k) =~= debut(j, k));
            assert(fin_du_duel(debut(j, k), n0, max_plies) is None);
        } else {
            assert(debut(suite, k) =~= j);
        }
    }
}

/// Is White to move?
pub open spec fn au_trait_blanc(fen: Seq<char>) -> bool {
    jeu::etat_de(fen)->0.trait_blanc
}

/// Is it a legal move that the player whose turn it is gives?
pub open spec fn coup_de<B: Bot, N: Bot>(
    blanc: B,
    noir: N,
    fen: Seq<char>,
    uci: Seq<char>,
) -> bool {
    &&& bots::legal(fen, uci)
    &&& if au_trait_blanc(fen) {
        blanc.donne(fen, uci)
    } else {
        noir.donne(fen, uci)
    }
}

/// Every move of a game after the first `depuis` was given by the player whose
/// turn it was.
pub open spec fn joue_par<B: Bot, N: Bot>(
    j: jeu::VueJeu,
    depuis: int,
    blanc: B,
    noir: N,
) -> bool {
    forall|k: int|
        depuis <= k < j.coups.len() ==> coup_de(blanc, noir, j.fens[k], #[trigger] j.coups[k])
}

/// Does the player fail the game: without an answer, or with a move that leads
/// to no readable position?
pub open spec fn sans_suite<B: Bot>(joueur: B, fen: Seq<char>) -> bool {
    ||| joueur.defaille(fen)
    ||| exists|u: Seq<char>|
        #[trigger] joueur.donne(fen, u) && bots::legal(fen, u) && jeu::apres(fen, u) is None
}

/// A game between the two players that goes on from `o` and is over, with its
/// result for White.
pub open spec fn terminee<B: Bot, N: Bot>(
    j: jeu::VueJeu,
    o: jeu::VueJeu,
    max_plies: int,
    blanc: B,
    noir: N,
    x: int,
) -> bool {
    &&& prolonge(j, o, max_plies)
    &&& fin_du_duel(j, o.coups.len() as int, max_plies) == Some(x)
    &&& joue_par(j, o.coups.len() as int, blanc, noir)
}

/// A game between the two players that goes on from `o` and stopped before its
/// end: the player whose turn it was failed it.
pub open spec fn interrompue<B: Bot, N: Bot>(
    j: jeu::VueJeu,
    o: jeu::VueJeu,
    max_plies: int,
    blanc: B,
    noir: N,
) -> bool {
    &&& prolonge(j, o, max_plies)
    &&& fin_du_duel(j, o.coups.len() as int, max_plies) is None
    &&& joue_par(j, o.coups.len() as int, blanc, noir)
    &&& if au_trait_blanc(j.fens.last()) {
        sans_suite(blanc, j.fens.last())
    } else {
        sans_suite(noir, j.fens.last())
    }
}

proof fn lemme_joue_par<B: Bot, N: Bot>(
    j: jeu::VueJeu,
    suite: jeu::VueJeu,
    depuis: int,
    uci: Seq<char>,
    blanc: B,
    noir: N,
)
    requires
        0 <= depuis,
        jeu::deroule(j),
        jeu::jeu_suivant(j, uci) == Some(suite),
        joue_par(j, depuis, blanc, noir),
        coup_de(blanc, noir, j.fens.last(), uci),
    ensures
        joue_par(suite, depuis, blanc, noir),
{
    assert forall|k: int| depuis <= k < suite.coups.len() implies coup_de(
        blanc,
        noir,
        suite.fens[k],
        #[trigger] suite.coups[k],
    ) by {
        if k < j.coups.len() {
            assert(suite.coups[k] == j.coups[k]);
            assert(suite.fens[k] == j.fens[k]);
        }
    }
}

/// Plays a game out from where it stands, each player answering when it is its
/// turn. `Err`, with the game so far, when a player fails it.
pub fn jouer_depuis<B: Bot, N: Bot>(
    depart: Jeu,
    blanc: &mut B,
    noir: &mut N,
    max_plies: u32,
) -> (r: Result<(Jeu, i32), Jeu>)
    requires
        jeu::deroule(depart@),
    ensures
        match r {
            Ok((j, x)) => terminee(
                j@,
                depart@,
                max_plies as int,
                *old(blanc),
                *old(noir),
                x as int,
            ) && -1 <= x <= 1,
            Err(j) => interrompue(j@, depart@, max_plies as int, *old(blanc), *old(noir)),
        },
        fin_du_duel(depart@, depart@.coups.len() as int, max_plies as int) is Some ==> (r matches Ok(
            p,
        ) && p.0@ == depart@),
        forall|f: Seq<char>, u: Seq<char>|
            #[trigger] final(blanc).donne(f, u) == old(blanc).donne(f, u),
        forall|f: Seq<char>, u: Seq<char>|
            #[trigger] final(noir).donne(f, u) == old(noir).donne(f, u),
        forall|f: Seq<char>| #[trigger] final(blanc).defaille(f) == old(blanc).defaille(f),
        forall|f: Seq<char>| #[trigger] final(noir).defaille(f) == old(noir).defaille(f),
{
    let ghost j0 = depart@;
    let depuis: usize = depart.coups.len();
    let mut j: Jeu = depart;
    assert(debut(j@, depuis as int) =~= j0);
    let mut premier: bool = true;
    loop
        invariant
            jeu::deroule(j@),
            j0 == depart@,
            depuis == j0.coups.len(),
            prolonge(j@, j0, max_plies as int),
            joue_par(j@, depuis as int, *old(blanc), *old(noir)),
            forall|f: Seq<char>, u: Seq<char>|
                #[trigger] blanc.donne(f, u) == old(blanc).donne(f, u),
            forall|f: Seq<char>| #[trigger] blanc.defaille(f) == old(blanc).defaille(f),
            forall|f: Seq<char>, u: Seq<char>|
                #[trigger] noir.donne(f, u) == old(noir).donne(f, u),
            forall|f: Seq<char>| #[trigger] noir.defaille(f) == old(noir).defaille(f),
            premier ==> j@ == j0,
            !premier ==> fin_du_duel(j0, depuis as int, max_plies as int) is None,
            !premier ==> j@.coups.len() <= max_plies,
        decreases max_plies as int - j@.coups.len() + if premier {
            0x1_0000_0000_0000_0000_0000int
        } else {
            0
        },
    {
        match juge(&j, depuis, max_plies) {
            Some(x) => {
                return Ok((j, x));
            },
            None => {},
        }
        let blanc_joue: bool = match echiquier::lit_position(j.fen().as_str()) {
            Some(p) => p.trait_blanc,
            None => true,
        };
        let coup: Option<String> = if blanc_joue {
            blanc.choisit(j.fen().as_str())
        } else {
            noir.choisit(j.fen().as_str())
        };
        let ghost avant = j@;
        let joue: bool = match &coup {
            Some(u) => j.joue(u.as_str()),
            None => false,
        };
        if !joue {
            return Err(j);
        }
        proof {
            lemme_prolonge(avant, j@, j0, coup->0@, max_plies as int);
            lemme_joue_par(avant, j@, depuis as int, coup->0@, *old(blanc), *old(noir));
        }
        premier = false;
    }
}

/// Plays a game from the starting position.
pub fn jouer_duel<B: Bot, N: Bot>(blanc: &mut B, noir: &mut N, max_plies: u32) -> (r: Result<
    (Jeu, i32),
    Jeu,
>)
    ensures
        match r {
            Ok((j, x)) => terminee(
                j@,
                jeu::jeu_neuf(echiquier::DEPART@),
                max_plies as int,
                *old(blanc),
                *old(noir),
                x as int,
            ) && -1 <= x <= 1,
            Err(j) => interrompue(
                j@,
                jeu::jeu_neuf(echiquier::DEPART@),
                max_plies as int,
                *old(blanc),
                *old(noir),
            ),
        },
        forall|f: Seq<char>, u: Seq<char>|
            #[trigger] final(blanc).donne(f, u) == old(blanc).donne(f, u),
        forall|f: Seq<char>, u: Seq<char>|
            #[trigger] final(noir).donne(f, u) == old(noir).donne(f, u),
        forall|f: Seq<char>| #[trigger] final(blanc).defaille(f) == old(blanc).defaille(f),
        forall|f: Seq<char>| #[trigger] final(noir).defaille(f) == old(noir).defaille(f),
{
    jouer_depuis(depart(), blanc, noir, max_plies)
}

pub(crate) fn depart() -> (r: Jeu)
    ensures
        r@ == jeu::jeu_neuf(echiquier::DEPART@),
        jeu::deroule(r@),
{
    let fen: String = echiquier::position_initiale();
    match Jeu::neuf(fen.as_str()) {
        Some(j) => j,
        None => Jeu { coups: Vec::new(), fens: Vec::new(), hachages: Vec::new() },
    }
}

/// A game never runs past its limit, nor past its opening where that is longer.
pub proof fn loi_duel_borne(j: jeu::VueJeu, j0: jeu::VueJeu, max_plies: int)
    requires
        prolonge(j, j0, max_plies),
        max_plies >= 0,
    ensures
        j.coups.len() <= max_plies || j.coups.len() == j0.coups.len(),
{
    let n = j.coups.len() as int;
    if n > max_plies && n > j0.coups.len() {
        assert(fin_du_duel(debut(j, n - 1), j0.coups.len() as int, max_plies) is None);
        assert(debut(j, n - 1).coups.len() == n - 1);
    }
}

// ---------------------------------------------------------------------------
// Points
// ---------------------------------------------------------------------------

/// Half points of a side for a result seen from White.
pub open spec fn demi_points(resultat: int, blanc: bool) -> int {
    if blanc {
        resultat + 1
    } else {
        1 - resultat
    }
}

/// Half points of a side for a result seen from White.
pub fn points_du_camp(resultat: i32, blanc: bool) -> (r: u64)
    requires
        -1 <= resultat <= 1,
    ensures
        r == demi_points(resultat as int, blanc),
        r <= 2,
{
    if blanc {
        (resultat + 1) as u64
    } else {
        (1 - resultat) as u64
    }
}

/// The two sides of a game share two half points.
pub proof fn loi_points_partages(resultat: int, blanc: bool)
    ensures
        demi_points(resultat, blanc) + demi_points(resultat, !blanc) == 2,
{
}

/// Has the first player White in game `i`?
pub open spec fn a_les_blancs(i: int) -> bool {
    i % 2 == 0
}

/// Half points of the first player in the first `n` games.
pub open spec fn total(resultats: Seq<i32>, n: int) -> int
    decreases n,
{
    if n <= 0 {
        0
    } else {
        total(resultats, n - 1) + demi_points(resultats[n - 1] as int, a_les_blancs(n - 1))
    }
}

/// Share of the points of the first player, as a fraction: half points over
/// what could be had, and one half for no game at all.
pub open spec fn part(resultats: Seq<i32>) -> (int, int) {
    if resultats.len() == 0 {
        (1, 2)
    } else {
        (total(resultats, resultats.len() as int), 2 * resultats.len() as int)
    }
}

/// Share of the points of the first player of a series, from the results of
/// its games.
pub fn part_des_points(resultats: &Vec<i32>) -> (r: (u64, u64))
    requires
        2 * resultats@.len() <= u64::MAX,
        forall|i: int| 0 <= i < resultats@.len() ==> -1 <= #[trigger] resultats@[i] <= 1,
    ensures
        (r.0 as int, r.1 as int) == part(resultats@),
        r.0 <= r.1,
{
    if resultats.len() == 0 {
        return (1, 2);
    }
    let mut s: u64 = 0;
    let mut i: usize = 0;
    while i < resultats.len()
        invariant
            i <= resultats@.len(),
            2 * resultats@.len() <= u64::MAX,
            forall|k: int| 0 <= k < resultats@.len() ==> -1 <= #[trigger] resultats@[k] <= 1,
            s == total(resultats@, i as int),
            s <= 2 * i,
        decreases resultats.len() - i,
    {
        s += points_du_camp(resultats[i], i % 2 == 0);
        i += 1;
    }
    (s, 2 * resultats.len() as u64)
}

/// Seed of the first player in game `i` of a series.
pub open spec fn graine_premier(base_seed: u64, i: int) -> u64 {
    base_seed.wrapping_add((2 * i) as u64)
}

/// Seed of the second player in game `i` of a series.
pub open spec fn graine_second(base_seed: u64, i: int) -> u64 {
    base_seed.wrapping_add((2 * i + 1) as u64)
}

/// Seeds of the two players in game `i` of a series.
pub fn graines_du_duel(base_seed: u64, i: u64) -> (r: (u64, u64))
    requires
        2 * i + 1 <= u64::MAX,
    ensures
        r.0 == graine_premier(base_seed, i as int),
        r.1 == graine_second(base_seed, i as int),
{
    (base_seed.wrapping_add(2 * i), base_seed.wrapping_add(2 * i + 1))
}

/// No two players of a series start from the same seed.
pub proof fn loi_graines_distinctes(base_seed: u64, i: u64, k: u64)
    requires
        2 * i + 1 <= u64::MAX,
        2 * k + 1 <= u64::MAX,
        i != k,
    ensures
        graine_premier(base_seed, i as int) != graine_premier(base_seed, k as int),
        graine_premier(base_seed, i as int) != graine_second(base_seed, k as int),
        graine_second(base_seed, i as int) != graine_second(base_seed, k as int),
        graine_premier(base_seed, i as int) != graine_second(base_seed, i as int),
{
}

/// Can a game between the two players that goes on from `o` end with that
/// result for White?
pub open spec fn issue<B: Bot, N: Bot>(o: jeu::VueJeu, blanc: B, noir: N, x: i32) -> bool {
    exists|j: jeu::VueJeu| #[trigger]
        terminee(j, o, MAX_PLIS_ARENE as int, blanc, noir, x as int)
}

/// The players that a maker gives for a seed.
pub open spec fn fabrique_de<T, F: Fn(u64) -> T>(f: F) -> spec_fn(u64, T) -> bool {
    |g: u64, t: T| call_ensures(f, (g,), t)
}

/// Two players, each out of its own maker and for its own seed.
pub open spec fn sont_de<A, B>(
    fa: spec_fn(u64, A) -> bool,
    fb: spec_fn(u64, B) -> bool,
    ga: u64,
    gb: u64,
    a: A,
    b: B,
) -> bool {
    fa(ga, a) && fb(gb, b)
}

/// Two fresh players can play a game from `o` that ends with that result for
/// White, the first player having White or not.
pub open spec fn manche_jouee<A: Bot, B: Bot>(
    fa: spec_fn(u64, A) -> bool,
    fb: spec_fn(u64, B) -> bool,
    o: jeu::VueJeu,
    ga: u64,
    gb: u64,
    premier_blanc: bool,
    x: i32,
) -> bool {
    exists|a: A, b: B| #[trigger]
        sont_de(fa, fb, ga, gb, a, b) && if premier_blanc {
            issue(o, a, b, x)
        } else {
            issue(o, b, a, x)
        }
}

/// Two fresh players can play that game from `o`, which one of them fails, the
/// first player having White or not.
pub open spec fn manche_rompue<A: Bot, B: Bot>(
    fa: spec_fn(u64, A) -> bool,
    fb: spec_fn(u64, B) -> bool,
    o: jeu::VueJeu,
    ga: u64,
    gb: u64,
    premier_blanc: bool,
    j: jeu::VueJeu,
) -> bool {
    exists|a: A, b: B| #[trigger]
        sont_de(fa, fb, ga, gb, a, b) && if premier_blanc {
            interrompue(j, o, MAX_PLIS_ARENE as int, a, b)
        } else {
            interrompue(j, o, MAX_PLIS_ARENE as int, b, a)
        }
}

/// Game `i` of a series between fresh players can end with that result for
/// White; the first player has White in even games.
pub open spec fn partie_jouee<A: Bot, B: Bot>(
    fa: spec_fn(u64, A) -> bool,
    fb: spec_fn(u64, B) -> bool,
    base_seed: u64,
    i: int,
    x: i32,
) -> bool {
    manche_jouee(
        fa,
        fb,
        jeu::jeu_neuf(echiquier::DEPART@),
        graine_premier(base_seed, i),
        graine_second(base_seed, i),
        a_les_blancs(i),
        x,
    )
}

/// Game `i` of a series between fresh players can be that one, which a player
/// fails.
pub open spec fn partie_rompue<A: Bot, B: Bot>(
    fa: spec_fn(u64, A) -> bool,
    fb: spec_fn(u64, B) -> bool,
    base_seed: u64,
    i: int,
    j: jeu::VueJeu,
) -> bool {
    manche_rompue(
        fa,
        fb,
        jeu::jeu_neuf(echiquier::DEPART@),
        graine_premier(base_seed, i),
        graine_second(base_seed, i),
        a_les_blancs(i),
        j,
    )
}

/// Plays game `i` of a series with two fresh players; the first has White in
/// even games. The result is seen from White.
pub fn partie_de_serie<A: Bot, B: Bot, FA: Fn(u64) -> A, FB: Fn(u64) -> B>(
    a: &FA,
    b: &FB,
    i: u64,
    base_seed: u64,
) -> (r: Result<i32, Jeu>)
    requires
        2 * i + 1 <= u64::MAX,
        forall|g: u64| #[trigger] call_requires(*a, (g,)),
        forall|g: u64| #[trigger] call_requires(*b, (g,)),
    ensures
        match r {
            Ok(x) => -1 <= x <= 1 && partie_jouee(
                fabrique_de(*a),
                fabrique_de(*b),
                base_seed,
                i as int,
                x,
            ),
            Err(j) => partie_rompue(fabrique_de(*a), fabrique_de(*b), base_seed, i as int, j@),
        },
{
    let (ga, gb) = graines_du_duel(base_seed, i);
    let mut bot_a: A = a(ga);
    let mut bot_b: B = b(gb);
    assert(sont_de(fabrique_de(*a), fabrique_de(*b), ga, gb, bot_a, bot_b));
    let fini: Result<(Jeu, i32), Jeu> = if i % 2 == 0 {
        jouer_duel(&mut bot_a, &mut bot_b, MAX_PLIS_ARENE)
    } else {
        jouer_duel(&mut bot_b, &mut bot_a, MAX_PLIS_ARENE)
    };
    match fini {
        Ok((_, x)) => Ok(x),
        Err(j) => Err(j),
    }
}

/// Results of the games of a series between fresh players.
pub open spec fn serie_jouee<A: Bot, B: Bot>(
    fa: spec_fn(u64, A) -> bool,
    fb: spec_fn(u64, B) -> bool,
    base_seed: u64,
    v: Seq<i32>,
) -> bool {
    forall|i: int|
        0 <= i < v.len() ==> -1 <= #[trigger] v[i] <= 1 && partie_jouee(fa, fb, base_seed, i, v[i])
}

/// A share of the points of the first player that comes from the games of a
/// series.
pub open spec fn score_joue<A: Bot, B: Bot>(
    fa: spec_fn(u64, A) -> bool,
    fb: spec_fn(u64, B) -> bool,
    base_seed: u64,
    games: int,
    f: (u64, u64),
) -> bool {
    exists|v: Seq<i32>|
        v.len() == games && #[trigger] part(v) == (f.0 as int, f.1 as int) && serie_jouee(
            fa,
            fb,
            base_seed,
            v,
        )
}

/// One of the games of a series, which a player fails.
pub open spec fn serie_rompue<A: Bot, B: Bot>(
    fa: spec_fn(u64, A) -> bool,
    fb: spec_fn(u64, B) -> bool,
    base_seed: u64,
    games: int,
    j: jeu::VueJeu,
) -> bool {
    exists|i: int| 0 <= i < games && #[trigger] partie_rompue(fa, fb, base_seed, i, j)
}

/// What holds of a series holds for a maker that can give more players.
pub(crate) proof fn lemme_fabrique_plus_large<A: Bot, B: Bot>(
    fa: spec_fn(u64, A) -> bool,
    fb: spec_fn(u64, B) -> bool,
    large: spec_fn(u64, B) -> bool,
    base_seed: u64,
    games: int,
)
    requires
        forall|g: u64, b: B| #[trigger] fb(g, b) ==> large(g, b),
    ensures
        forall|f: (u64, u64)|
            score_joue(fa, fb, base_seed, games, f) ==> #[trigger] score_joue(
                fa,
                large,
                base_seed,
                games,
                f,
            ),
        forall|j: jeu::VueJeu|
            serie_rompue(fa, fb, base_seed, games, j) ==> #[trigger] serie_rompue(
                fa,
                large,
                base_seed,
                games,
                j,
            ),
{
    let o = jeu::jeu_neuf(echiquier::DEPART@);
    assert forall|f: (u64, u64)| score_joue(fa, fb, base_seed, games, f) implies #[trigger] score_joue(
        fa,
        large,
        base_seed,
        games,
        f,
    ) by {
        let v = choose|v: Seq<i32>|
            v.len() == games && #[trigger] part(v) == (f.0 as int, f.1 as int) && serie_jouee(
                fa,
                fb,
                base_seed,
                v,
            );
        assert forall|i: int| 0 <= i < v.len() implies -1 <= #[trigger] v[i] <= 1 && partie_jouee(
            fa,
            large,
            base_seed,
            i,
            v[i],
        ) by {
            let ga = graine_premier(base_seed, i);
            let gb = graine_second(base_seed, i);
            assert(partie_jouee(fa, fb, base_seed, i, v[i]));
            let (a, b) = choose|a: A, b: B| #[trigger]
                sont_de(fa, fb, ga, gb, a, b) && if a_les_blancs(i) {
                    issue(o, a, b, v[i])
                } else {
                    issue(o, b, a, v[i])
                };
            assert(sont_de(fa, large, ga, gb, a, b));
        }
        assert(serie_jouee(fa, large, base_seed, v));
    }
    assert forall|j: jeu::VueJeu| serie_rompue(fa, fb, base_seed, games, j) implies #[trigger] serie_rompue(
        fa,
        large,
        base_seed,
        games,
        j,
    ) by {
        let i = choose|i: int|
            0 <= i < games && #[trigger] partie_rompue(fa, fb, base_seed, i, j);
        let ga = graine_premier(base_seed, i);
        let gb = graine_second(base_seed, i);
        let (a, b) = choose|a: A, b: B| #[trigger]
            sont_de(fa, fb, ga, gb, a, b) && if a_les_blancs(i) {
                interrompue(j, o, MAX_PLIS_ARENE as int, a, b)
            } else {
                interrompue(j, o, MAX_PLIS_ARENE as int, b, a)
            };
        assert(sont_de(fa, large, ga, gb, a, b));
        assert(partie_rompue(fa, large, base_seed, i, j));
    }
}

/// Share of the points of the first player over a series of games, colours
/// alternating, fresh players in every game.
pub fn score<A: Bot, B: Bot, FA: Fn(u64) -> A, FB: Fn(u64) -> B>(
    a: &FA,
    b: &FB,
    games: usize,
    base_seed: u64,
) -> (r: Result<(u64, u64), Jeu>)
    requires
        2 * games <= u64::MAX,
        forall|g: u64| #[trigger] call_requires(*a, (g,)),
        forall|g: u64| #[trigger] call_requires(*b, (g,)),
    ensures
        games == 0 ==> r == Ok::<(u64, u64), Jeu>((1, 2)),
        match r {
            Ok(f) => f.0 <= f.1 && score_joue(
                fabrique_de(*a),
                fabrique_de(*b),
                base_seed,
                games as int,
                f,
            ),
            Err(j) => serie_rompue(
                fabrique_de(*a),
                fabrique_de(*b),
                base_seed,
                games as int,
                j@,
            ),
        },
{
    let ghost fa = fabrique_de(*a);
    let ghost fb = fabrique_de(*b);
    let mut v: Vec<i32> = Vec::new();
    while v.len() < games
        invariant
            v@.len() <= games,
            2 * games <= u64::MAX,
            fa == fabrique_de(*a),
            fb == fabrique_de(*b),
            forall|g: u64| #[trigger] call_requires(*a, (g,)),
            forall|g: u64| #[trigger] call_requires(*b, (g,)),
            serie_jouee(fa, fb, base_seed, v@),
        decreases games - v.len(),
    {
        let i: usize = v.len();
        match partie_de_serie(a, b, i as u64, base_seed) {
            Ok(x) => {
                v.push(x);
            },
            Err(j) => {
                assert(partie_rompue(fa, fb, base_seed, i as int, j@));
                return Err(j);
            },
        }
    }
    let f: (u64, u64) = part_des_points(&v);
    assert(part(v@) == (f.0 as int, f.1 as int));
    Ok(f)
}

// ---------------------------------------------------------------------------
// Pairs of games from a shared opening
// ---------------------------------------------------------------------------

/// Pairs of games of a duel: each pair plays one opening with both colours, so
/// an odd game is left out.
pub fn paires_du_duel(parties: usize) -> (r: usize)
    ensures
        r == parties as int / 2,
        2 * r <= parties,
        parties < 2 * r + 2,
{
    parties / 2
}

/// Does a share of the points, as `f32` bits, promote the candidate: at least
/// 52.5 per cent?
pub fn promotion(score: u32) -> (r: bool)
    ensures
        r == (0x3f06_6666 <= score <= 0x7f80_0000),
{
    0x3f06_6666 <= score && score <= 0x7f80_0000
}

/// A random opening from the starting position: four legal half-moves, fewer
/// only where the game ends before.
pub fn ouverture_aleatoire(graine: u64) -> (r: Jeu)
    ensures
        ouverture_partagee(r@),
{
    let mut rng: StdRng = bots::generateur(graine);
    let mut j: Jeu = depart();
    let mut n: usize = 0;
    while n < PLIS_OUVERTURE
        invariant
            n <= PLIS_OUVERTURE,
            jeu::deroule(j@),
            j@.fens[0] == echiquier::DEPART@,
            j@.coups.len() == n,
        decreases PLIS_OUVERTURE - n,
    {
        let coups: Vec<(String, bool)> = match echiquier::coups_legaux(j.fen().as_str()) {
            Some(c) => c,
            None => Vec::new(),
        };
        let v: Vec<usize> = bots::indices(coups.len());
        match bots::pioche(&v, &mut rng) {
            None => {
                return j;
            },
            Some(k) => {
                proof {
                    let i = v@.index_of(k);
                    assert(v@[i] == i);
                    let c = echiquier::coups_de(j@.fens.last())->0;
                    assert(c[k as int].0 == coups@[k as int].0@);
                }
                if !j.joue(coups[k].0.as_str()) {
                    return j;
                }
            },
        }
        n += 1;
    }
    j
}

/// Seed of the candidate in pair `p`, in the game where it has White or in the
/// other.
pub open spec fn graine_manche(graine: u64, p: int, candidat_blanc: bool) -> u64 {
    let g = graines::melange(graine, (2 * p + 1) as u64);
    if candidat_blanc {
        g
    } else {
        g.wrapping_add(2)
    }
}

/// Seed of the opening of pair `p`, and seeds of its two games.
pub fn graines_de_paire(graine: u64, p: u64) -> (r: (u64, u64, u64))
    requires
        2 * p + 1 <= u64::MAX,
    ensures
        r.0 == graines::melange(graine, (2 * p) as u64),
        r.1 == graine_manche(graine, p as int, true),
        r.2 == graine_manche(graine, p as int, false),
{
    let g: u64 = graines::derive_graine(graine, 2 * p + 1);
    (graines::derive_graine(graine, 2 * p), g, g.wrapping_add(2))
}

/// Plays a game between a candidate and a champion from a shared opening. The
/// result is seen from White.
pub fn partie_gating<A: Bot, B: Bot>(
    candidat: &mut A,
    champion: &mut B,
    candidat_blanc: bool,
    ouverture: Jeu,
) -> (r: Result<(Jeu, i32), Jeu>)
    requires
        jeu::deroule(ouverture@),
    ensures
        match r {
            Ok((j, x)) => -1 <= x <= 1 && if candidat_blanc {
                terminee(
                    j@,
                    ouverture@,
                    MAX_PLIS_ARENE as int,
                    *old(candidat),
                    *old(champion),
                    x as int,
                )
            } else {
                terminee(
                    j@,
                    ouverture@,
                    MAX_PLIS_ARENE as int,
                    *old(champion),
                    *old(candidat),
                    x as int,
                )
            },
            Err(j) => if candidat_blanc {
                interrompue(
                    j@,
                    ouverture@,
                    MAX_PLIS_ARENE as int,
                    *old(candidat),
                    *old(champion),
                )
            } else {
                interrompue(
                    j@,
                    ouverture@,
                    MAX_PLIS_ARENE as int,
                    *old(champion),
                    *old(candidat),
                )
            },
        },
        forall|f: Seq<char>, u: Seq<char>|
            #[trigger] final(candidat).donne(f, u) == old(candidat).donne(f, u),
        forall|f: Seq<char>, u: Seq<char>|
            #[trigger] final(champion).donne(f, u) == old(champion).donne(f, u),
        forall|f: Seq<char>| #[trigger] final(candidat).defaille(f) == old(candidat).defaille(f),
        forall|f: Seq<char>| #[trigger] final(champion).defaille(f) == old(champion).defaille(f),
{
    if candidat_blanc {
        jouer_depuis(ouverture, candidat, champion, MAX_PLIS_ARENE)
    } else {
        jouer_depuis(ouverture, champion, candidat, MAX_PLIS_ARENE)
    }
}

/// A shared opening: four legal moves from the starting position, fewer only
/// where the game ends before.
pub open spec fn ouverture_partagee(o: jeu::VueJeu) -> bool {
    &&& jeu::deroule(o)
    &&& o.fens[0] == echiquier::DEPART@
    &&& o.coups.len() <= PLIS_OUVERTURE
    &&& o.coups.len() < PLIS_OUVERTURE ==> sans_suite_jouable(o.fens.last())
}

/// A position without a legal move, or with one that leads to no readable
/// position.
pub open spec fn sans_suite_jouable(fen: Seq<char>) -> bool {
    echiquier::coups_de(fen) matches Some(c) && (c.len() == 0 || exists|i: int|
        0 <= i < c.len() && jeu::apres(fen, (#[trigger] c[i]).0) is None)
}

/// One game of pair `p` between fresh players from the opening `o` can end with
/// that result for White.
pub open spec fn manche_de_paire<A: Bot, B: Bot>(
    fa: spec_fn(u64, A) -> bool,
    fb: spec_fn(u64, B) -> bool,
    graine: u64,
    p: int,
    o: jeu::VueJeu,
    candidat_blanc: bool,
    x: i32,
) -> bool {
    let g = graine_manche(graine, p, candidat_blanc);
    manche_jouee(fa, fb, o, g, g.wrapping_add(1), candidat_blanc, x)
}

/// Results of the two games of pair `p`: both from one shared opening, the
/// candidate with White in the first and with Black in the second.
pub open spec fn paire_jouee<A: Bot, B: Bot>(
    fa: spec_fn(u64, A) -> bool,
    fb: spec_fn(u64, B) -> bool,
    graine: u64,
    p: int,
    x: i32,
    y: i32,
) -> bool {
    exists|o: jeu::VueJeu| #[trigger]
        ouverture_partagee(o) && manche_de_paire(fa, fb, graine, p, o, true, x) && manche_de_paire(
            fa,
            fb,
            graine,
            p,
            o,
            false,
            y,
        )
}

/// Results of pairs of games.
pub open spec fn paires_jouees<A: Bot, B: Bot>(
    fa: spec_fn(u64, A) -> bool,
    fb: spec_fn(u64, B) -> bool,
    graine: u64,
    v: Seq<i32>,
) -> bool {
    &&& forall|i: int| 0 <= i < v.len() ==> -1 <= #[trigger] v[i] <= 1
    &&& forall|p: int|
        0 <= p < v.len() as int / 2 ==> #[trigger] paire_jouee(
            fa,
            fb,
            graine,
            p,
            v[2 * p],
            v[2 * p + 1],
        )
}

/// A game of pair `p` from a shared opening, which a player fails.
pub open spec fn paire_rompue<A: Bot, B: Bot>(
    fa: spec_fn(u64, A) -> bool,
    fb: spec_fn(u64, B) -> bool,
    graine: u64,
    p: int,
    o: jeu::VueJeu,
    candidat_blanc: bool,
    j: jeu::VueJeu,
) -> bool {
    let g = graine_manche(graine, p, candidat_blanc);
    ouverture_partagee(o) && manche_rompue(fa, fb, o, g, g.wrapping_add(1), candidat_blanc, j)
}

/// A game of one of the first `paires` pairs, which a player fails.
pub open spec fn duel_rompu<A: Bot, B: Bot>(
    fa: spec_fn(u64, A) -> bool,
    fb: spec_fn(u64, B) -> bool,
    graine: u64,
    paires: int,
    j: jeu::VueJeu,
) -> bool {
    exists|p: int, o: jeu::VueJeu, candidat_blanc: bool|
        0 <= p < paires && #[trigger] paire_rompue(fa, fb, graine, p, o, candidat_blanc, j)
}

/// Share of the points of a candidate against a champion: pairs of games, each
/// pair from one random opening with both colours, fresh players in every
/// game.
pub fn duel_gating<A: Bot, B: Bot, FA: Fn(u64) -> A, FB: Fn(u64) -> B>(
    candidat: &FA,
    champion: &FB,
    parties: usize,
    graine: u64,
) -> (r: Result<(u64, u64), Jeu>)
    requires
        2 * parties <= u64::MAX,
        forall|g: u64| #[trigger] call_requires(*candidat, (g,)),
        forall|g: u64| #[trigger] call_requires(*champion, (g,)),
    ensures
        parties < 2 ==> r == Ok::<(u64, u64), Jeu>((1, 2)),
        match r {
            Ok(f) => f.0 <= f.1 && exists|v: Seq<i32>|
                v.len() == 2 * (parties as int / 2) && #[trigger] part(v) == (
                    f.0 as int,
                    f.1 as int,
                ) && paires_jouees(fabrique_de(*candidat), fabrique_de(*champion), graine, v),
            Err(j) => duel_rompu(
                fabrique_de(*candidat),
                fabrique_de(*champion),
                graine,
                parties as int / 2,
                j@,
            ),
        },
{
    let ghost fa = fabrique_de(*candidat);
    let ghost fb = fabrique_de(*champion);
    let paires: usize = paires_du_duel(parties);
    let mut v: Vec<i32> = Vec::new();
    let mut p: usize = 0;
    while p < paires
        invariant
            p <= paires,
            paires == parties as int / 2,
            2 * parties <= u64::MAX,
            v@.len() == 2 * p,
            fa == fabrique_de(*candidat),
            fb == fabrique_de(*champion),
            forall|g: u64| #[trigger] call_requires(*candidat, (g,)),
            forall|g: u64| #[trigger] call_requires(*champion, (g,)),
            paires_jouees(fa, fb, graine, v@),
        decreases paires - p,
    {
        let (go, g1, g2) = graines_de_paire(graine, p as u64);
        let ouverture: Jeu = ouverture_aleatoire(go);
        let ghost o = ouverture@;
        let ghost v0 = v@;
        let mut a: A = candidat(g1);
        let mut b: B = champion(g1.wrapping_add(1));
        assert(sont_de(fa, fb, g1, g1.wrapping_add(1), a, b));
        match partie_gating(&mut a, &mut b, true, ouverture.clone()) {
            Ok((_, x)) => {
                assert(manche_de_paire(fa, fb, graine, p as int, o, true, x));
                v.push(x);
            },
            Err(j) => {
                assert(paire_rompue(fa, fb, graine, p as int, o, true, j@));
                return Err(j);
            },
        }
        let mut a: A = candidat(g2);
        let mut b: B = champion(g2.wrapping_add(1));
        assert(sont_de(fa, fb, g2, g2.wrapping_add(1), a, b));
        match partie_gating(&mut a, &mut b, false, ouverture) {
            Ok((_, x)) => {
                assert(manche_de_paire(fa, fb, graine, p as int, o, false, x));
                v.push(x);
            },
            Err(j) => {
                assert(paire_rompue(fa, fb, graine, p as int, o, false, j@));
                return Err(j);
            },
        }
        proof {
            assert(ouverture_partagee(o));
            assert(paire_jouee(fa, fb, graine, p as int, v@[2 * p as int], v@[2 * p as int + 1]));
            assert forall|q: int| 0 <= q < v@.len() as int / 2 implies #[trigger] paire_jouee(
                fa,
                fb,
                graine,
                q,
                v@[2 * q],
                v@[2 * q + 1],
            ) by {
                if q < p {
                    assert(paire_jouee(fa, fb, graine, q, v0[2 * q], v0[2 * q + 1]));
                }
            }
        }
        p += 1;
    }
    let f: (u64, u64) = part_des_points(&v);
    assert(part(v@) == (f.0 as int, f.1 as int));
    Ok(f)
}

/// How many games were won, drawn and lost.
#[derive(Debug, Clone, Copy, PartialEq, Eq, Structural)]
pub struct Bilan {
    pub victoires: u64,
    pub nulles: u64,
    pub defaites: u64,
}

/// Games that brought `x` half points among the first `n`.
pub open spec fn compte(points: Seq<u64>, x: u64, n: int) -> int
    decreases n,
{
    if n <= 0 {
        0
    } else {
        compte(points, x, n - 1) + if points[n - 1] == x {
            1int
        } else {
            0
        }
    }
}

/// Counts the games by what they brought.
pub fn bilan(points: &Vec<u64>) -> (r: Bilan)
    requires
        forall|i: int| 0 <= i < points@.len() ==> #[trigger] points@[i] <= 2,
    ensures
        r.victoires == compte(points@, 2, points@.len() as int),
        r.nulles == compte(points@, 1, points@.len() as int),
        r.defaites == compte(points@, 0, points@.len() as int),
        r.victoires + r.nulles + r.defaites == points@.len(),
{
    let mut b: Bilan = Bilan { victoires: 0, nulles: 0, defaites: 0 };
    let n: usize = points.len();
    let mut i: usize = 0;
    while i < n
        invariant
            i <= n,
            n == points@.len(),
            forall|k: int| 0 <= k < points@.len() ==> #[trigger] points@[k] <= 2,
            b.victoires == compte(points@, 2, i as int),
            b.nulles == compte(points@, 1, i as int),
            b.defaites == compte(points@, 0, i as int),
            b.victoires + b.nulles + b.defaites == i,
        decreases n - i,
    {
        let x: u64 = points[i];
        if x == 2 {
            b.victoires = b.victoires + 1;
        } else if x == 1 {
            b.nulles = b.nulles + 1;
        } else {
            b.defaites = b.defaites + 1;
        }
        i += 1;
    }
    b
}

/// Points of a game in writing.
pub open spec fn nom_points(demi: u64) -> Seq<char> {
    if demi == 0 {
        "0"@
    } else if demi == 1 {
        "0.5"@
    } else {
        "1"@
    }
}

/// The line of a game in the record of a duel: the network, the second one
/// where there is one, the number of the game, our colour, our points.
pub open spec fn ligne_duel(
    net: Seq<char>,
    net_b: Option<Seq<char>>,
    partie: nat,
    blanc: bool,
    demi: u64,
) -> Seq<char> {
    let couleur = if blanc {
        "blanc"@
    } else {
        "noir"@
    };
    match net_b {
        Some(b) => net + ","@ + b + ","@ + texte::decimal(partie) + ","@ + couleur + ","@
            + nom_points(demi),
        None => net + ","@ + texte::decimal(partie) + ","@ + couleur + ","@ + nom_points(demi),
    }
}

/// Writes the line of a game in the record of a duel.
pub fn ecrit_ligne_duel(net: &str, net_b: Option<&str>, partie: u64, blanc: bool, demi: u64) -> (r:
    String)
    ensures
        r@ == ligne_duel(
            net@,
            match net_b {
                Some(b) => Some(b@),
                None => None,
            },
            partie as nat,
            blanc,
            demi,
        ),
{
    let mut v: Vec<char> = texte::caracteres(net);
    texte::ajoute_texte(&mut v, ",");
    if let Some(b) = net_b {
        texte::ajoute_texte(&mut v, b);
        texte::ajoute_texte(&mut v, ",");
    }
    let n: Vec<char> = texte::ecrit_naturel(partie);
    texte::ajoute(&mut v, &n);
    texte::ajoute_texte(&mut v, ",");
    texte::ajoute_texte(
        &mut v,
        if blanc {
            "blanc"
        } else {
            "noir"
        },
    );
    texte::ajoute_texte(&mut v, ",");
    texte::ajoute_texte(
        &mut v,
        if demi == 0 {
            "0"
        } else if demi == 1 {
            "0.5"
        } else {
            "1"
        },
    );
    texte::texte(&v)
}

// ---------------------------------------------------------------------------
// What a duel is worth, in numbers
// ---------------------------------------------------------------------------

/// How a duel ends: drawn at the third occurrence of a position once a move
/// has been played, lost for the side to move when it is mated, drawn at
/// stalemate, without material, after a hundred quiet half-moves or at the
/// longest length; it goes on otherwise.
pub proof fn loi_fin_du_duel(
    j: jeu::VueJeu,
    p: echiquier::VuePosition,
    depuis: int,
    max_plies: int,
)
    requires
        j.fens.len() > 0,
        echiquier::position_de(j.fens.last()) == Some(p),
    ensures
        ({
            let f = fin_du_duel(j, depuis, max_plies);
            let r = jeu::repetitions(j.hachages);
            &&& j.coups.len() > depuis && r >= 3 ==> f == Some(0int)
            &&& !(j.coups.len() > depuis && r >= 3) && p.6 == 0 && p.7 ==> f == Some(
                if p.1 {
                    -1int
                } else {
                    1int
                },
            )
            &&& p.6 == 0 && !p.7 ==> f == Some(0int)
            &&& p.6 > 0 && (p.8 || p.4 >= 100 || j.coups.len() >= max_plies) ==> f == Some(0int)
            &&& f is None <==> !(j.coups.len() > depuis && r >= 3) && p.6 > 0 && !p.8 && p.4 < 100
                && j.coups.len() < max_plies
        }),
{
}

/// A win is worth two half-points, a draw one, a loss none, to either colour.
pub proof fn loi_demi_points(blanc: bool)
    ensures
        demi_points(0, blanc) == 1,
        demi_points(1, true) == 2,
        demi_points(-1, true) == 0,
        demi_points(1, false) == 0,
        demi_points(-1, false) == 2,
{
}

/// The first player has White in the games of even rank and Black in the
/// others.
pub proof fn loi_couleurs_alternees(i: int)
    ensures
        a_les_blancs(2 * i),
        !a_les_blancs(2 * i + 1),
{
}

/// Points add up game by game, from the point of view of the first player: a
/// game won with White or with Black adds two half-points, a draw one.
pub proof fn loi_points_cumules(resultats: Seq<i32>, n: int)
    requires
        0 <= n < resultats.len(),
    ensures
        ({
            let gain = total(resultats, n + 1) - total(resultats, n);
            &&& resultats[n] == 0 ==> gain == 1
            &&& n % 2 == 0 && resultats[n] == 1 ==> gain == 2
            &&& n % 2 == 0 && resultats[n] == -1 ==> gain == 0
            &&& n % 2 == 1 && resultats[n] == 1 ==> gain == 0
            &&& n % 2 == 1 && resultats[n] == -1 ==> gain == 2
        }),
        total(resultats, 0) == 0,
{
}

/// The share of the points is out of two half-points a game; without a game it
/// is one half.
pub proof fn loi_part(resultats: Seq<i32>)
    requires
        forall|i: int| 0 <= i < resultats.len() ==> -1 <= #[trigger] resultats[i] <= 1,
    ensures
        resultats.len() > 0 ==> part(resultats).1 == 2 * resultats.len() && 0 <= part(resultats).0
            <= part(resultats).1,
        resultats.len() > 0 && (forall|i: int|
            0 <= i < resultats.len() ==> #[trigger] resultats[i] == 0) ==> 2 * part(resultats).0
            == part(resultats).1,
        resultats.len() == 0 ==> part(resultats) == (1int, 2int),
{
    lemme_total(resultats, resultats.len() as int);
}

proof fn lemme_total(r: Seq<i32>, n: int)
    requires
        0 <= n <= r.len(),
        forall|i: int| 0 <= i < r.len() ==> -1 <= #[trigger] r[i] <= 1,
    ensures
        0 <= total(r, n) <= 2 * n,
        (forall|i: int| 0 <= i < r.len() ==> #[trigger] r[i] == 0) ==> total(r, n) == n,
    decreases n,
{
    if n > 0 {
        lemme_total(r, n - 1);
        assert(-1 <= r[n - 1] <= 1);
    }
}

/// Seeds of a series: two per game, from the base on, the first player's
/// first.
pub proof fn loi_graines_de_serie(base: u64, i: u64)
    requires
        base + 2 * i + 1 <= u64::MAX,
    ensures
        graine_premier(base, i as int) == base + 2 * i,
        graine_second(base, i as int) == base + 2 * i + 1,
{
}

/// The two games of a pair have seeds two apart, and the pair has its own
/// stream, of odd number.
pub proof fn loi_graines_de_paire(graine: u64, p: int)
    ensures
        graine_manche(graine, p, true) == graines::melange(graine, (2 * p + 1) as u64),
        graine_manche(graine, p, false) == graine_manche(graine, p, true).wrapping_add(2),
{
}

/// A pair is opened by at most four half-moves from the start, and by fewer
/// only where none could follow.
pub proof fn loi_ouverture(o: jeu::VueJeu)
    requires
        ouverture_partagee(o),
    ensures
        o.coups.len() <= 4,
        o.fens[0] == echiquier::DEPART@,
        o.coups.len() < 4 ==> sans_suite_jouable(o.fens.last()),
        jeu::deroule(o),
{
}

/// Counting games by their half-points.
pub proof fn loi_compte_des_points(points: Seq<u64>, x: u64, n: int)
    requires
        0 <= n < points.len(),
    ensures
        compte(points, x, n + 1) == compte(points, x, n) + if points[n] == x {
            1int
        } else {
            0int
        },
        compte(points, x, 0) == 0,
{
}

/// Half-points are written 0, 0.5 and 1.
pub proof fn loi_points_ecrits()
    ensures
        nom_points(0) == "0"@,
        nom_points(1) == "0.5"@,
        nom_points(2) == "1"@,
        nom_points(0) != nom_points(1) && nom_points(1) != nom_points(2) && nom_points(0)
            != nom_points(2),
{
    reveal_strlit("0");
    reveal_strlit("0.5");
    reveal_strlit("1");
    assert("0"@[0] == '0' && "1"@[0] == '1');
    assert("0.5"@.len() == 3 && "0"@.len() == 1 && "1"@.len() == 1);
}

/// The start of a game keeps its first moves and one position more.
pub proof fn loi_debut(j: jeu::VueJeu, k: int)
    requires
        jeu::deroule(j),
        0 <= k <= j.coups.len(),
    ensures
        debut(j, k).coups.len() == k,
        debut(j, k).fens.len() == k + 1,
        debut(j, k).hachages.len() == k + 1,
        debut(j, k).coups.is_prefix_of(j.coups),
        debut(j, k).fens.is_prefix_of(j.fens),
        debut(j, k).hachages.is_prefix_of(j.hachages),
        jeu::deroule(debut(j, k)),
{
    let d = debut(j, k);
    assert forall|i: int| 0 <= i < d.coups.len() implies jeu::apres(d.fens[i], #[trigger] d.coups[i])
        == Some(d.fens[i + 1]) by {
        assert(j.coups[i] == d.coups[i]);
    }
    assert forall|i: int| 0 <= i < d.fens.len() implies echiquier::hachage_de(#[trigger] d.fens[i])
        == Some(d.hachages[i]) && echiquier::position_de(d.fens[i]) is Some by {
        assert(j.fens[i] == d.fens[i]);
    }
}

/// White's moves come from White's player and Black's from Black's.
pub proof fn loi_joueur_au_trait<B: Bot, N: Bot>(
    blanc: B,
    noir: N,
    fen: Seq<char>,
    p: echiquier::VuePosition,
    uci: Seq<char>,
)
    requires
        echiquier::position_de(fen) == Some(p),
        coup_de(blanc, noir, fen, uci),
    ensures
        bots::legal(fen, uci),
        p.1 ==> blanc.donne(fen, uci),
        !p.1 ==> noir.donne(fen, uci),
{
}

/// A candidate is promoted from fifty-two and a half per cent of the points on,
/// and never by a share that is no number.
pub proof fn loi_promotion(a: u32, b: u32, ra: bool, rb: bool)
    requires
        call_ensures(promotion, (a,), ra),
        call_ensures(promotion, (b,), rb),
    ensures
        a <= b <= 0x7f80_0000 && ra ==> rb,
        a >= 0x3f06_6666 && a <= 0x7f80_0000 ==> ra,
        a < 0x3f06_6666 || a > 0x7f80_0000 ==> !ra,
{
}

/// A duel plays its games two by two; an odd one is left out.
pub proof fn loi_paires_du_duel(parties: usize, r: usize)
    requires
        call_ensures(paires_du_duel, (parties,), r),
    ensures
        parties - 1 <= 2 * r <= parties,
{
}

/// What a finished game is: it goes on from its opening by legal moves of the
/// two players, was not over before its end, and its result is that of its
/// last position, a win only by mate.
pub proof fn loi_partie_terminee<B: Bot, N: Bot>(
    j: jeu::VueJeu,
    o: jeu::VueJeu,
    max_plies: int,
    blanc: B,
    noir: N,
    x: int,
    p: echiquier::VuePosition,
    k: int,
)
    requires
        terminee(j, o, max_plies, blanc, noir, x),
        echiquier::position_de(j.fens.last()) == Some(p),
        o.coups.len() <= k < j.coups.len(),
    ensures
        -1 <= x <= 1,
        x == 1 ==> p.6 == 0 && p.7 && !p.1,
        x == -1 ==> p.6 == 0 && p.7 && p.1,
        o.coups.is_prefix_of(j.coups),
        bots::legal(j.fens[k], j.coups[k]),
        jeu::apres(j.fens[k], j.coups[k]) == Some(j.fens[k + 1]),
        au_trait_blanc(j.fens[k]) ==> blanc.donne(j.fens[k], j.coups[k]),
        !au_trait_blanc(j.fens[k]) ==> noir.donne(j.fens[k], j.coups[k]),
        fin_du_duel(debut(j, k), o.coups.len() as int, max_plies) is None,
{
    assert(coup_de(blanc, noir, j.fens[k], j.coups[k]));
    assert(debut(j, o.coups.len() as int).coups == o.coups);
    assert(fin_du_duel(debut(j, k), o.coups.len() as int, max_plies) is None);
}

/// A broken game was not over: the side to move had nothing to go on with.
pub proof fn loi_partie_interrompue<B: Bot, N: Bot>(
    j: jeu::VueJeu,
    o: jeu::VueJeu,
    max_plies: int,
    blanc: B,
    noir: N,
)
    requires
        interrompue(j, o, max_plies, blanc, noir),
    ensures
        fin_du_duel(j, o.coups.len() as int, max_plies) is None,
        au_trait_blanc(j.fens.last()) ==> sans_suite(blanc, j.fens.last()),
        !au_trait_blanc(j.fens.last()) ==> sans_suite(noir, j.fens.last()),
        o.coups.is_prefix_of(j.coups),
{
    assert(debut(j, o.coups.len() as int).coups == o.coups);
}

/// The players of a game are made from their own seeds; the first has White
/// exactly when it is said to.
pub proof fn loi_joueurs_d_une_manche<A: Bot, B: Bot>(
    fa: spec_fn(u64, A) -> bool,
    fb: spec_fn(u64, B) -> bool,
    o: jeu::VueJeu,
    ga: u64,
    gb: u64,
    x: i32,
    a: A,
    b: B,
)
    requires
        fa(ga, a),
        fb(gb, b),
    ensures
        issue(o, a, b, x) ==> manche_jouee(fa, fb, o, ga, gb, true, x),
        issue(o, b, a, x) ==> manche_jouee(fa, fb, o, ga, gb, false, x),
        manche_jouee(fa, fb, o, ga, gb, true, x) ==> exists|c: A, d: B|
            fa(ga, c) && fb(gb, d) && #[trigger] issue(o, c, d, x),
        manche_jouee(fa, fb, o, ga, gb, false, x) ==> exists|c: A, d: B|
            fa(ga, c) && fb(gb, d) && #[trigger] issue(o, d, c, x),
{
    assert(sont_de(fa, fb, ga, gb, a, b));
}

/// A series is played from the starting position, two seeds a game, colours
/// changing every game; its score is out of two half-points a game.
pub proof fn loi_serie_jouee<A: Bot, B: Bot>(
    fa: spec_fn(u64, A) -> bool,
    fb: spec_fn(u64, B) -> bool,
    base: u64,
    games: int,
    f: (u64, u64),
)
    requires
        games >= 0,
        score_joue(fa, fb, base, games, f),
    ensures
        games > 0 ==> f.1 == 2 * games && f.0 <= f.1,
        games == 0 ==> f == (1u64, 2u64),
        exists|v: Seq<i32>|
            #![trigger v.len()]
            v.len() == games && forall|i: int|
                0 <= i < games ==> -1 <= #[trigger] v[i] <= 1 && manche_jouee(
                    fa,
                    fb,
                    jeu::jeu_neuf(echiquier::DEPART@),
                    base.wrapping_add((2 * i) as u64),
                    base.wrapping_add((2 * i + 1) as u64),
                    i % 2 == 0,
                    v[i],
                ),
{
    let v = choose|v: Seq<i32>|
        v.len() == games && #[trigger] part(v) == (f.0 as int, f.1 as int) && serie_jouee(
            fa,
            fb,
            base,
            v,
        );
    loi_part(v);
    assert forall|i: int| 0 <= i < games implies -1 <= #[trigger] v[i] <= 1 && manche_jouee(
        fa,
        fb,
        jeu::jeu_neuf(echiquier::DEPART@),
        base.wrapping_add((2 * i) as u64),
        base.wrapping_add((2 * i + 1) as u64),
        i % 2 == 0,
        v[i],
    ) by {
        assert(partie_jouee(fa, fb, base, i, v[i]));
    }
}

/// A pair is one opening played with both colours: the candidate has White in
/// the first game and Black in the second.
pub proof fn loi_paire<A: Bot, B: Bot>(
    fa: spec_fn(u64, A) -> bool,
    fb: spec_fn(u64, B) -> bool,
    graine: u64,
    v: Seq<i32>,
    p: int,
)
    requires
        paires_jouees(fa, fb, graine, v),
        0 <= p,
        2 * p + 1 < v.len(),
    ensures
        -1 <= v[2 * p] <= 1 && -1 <= v[2 * p + 1] <= 1,
        ({
            let g = graines::melange(graine, (2 * p + 1) as u64);
            exists|o: jeu::VueJeu| #[trigger]
                ouverture_partagee(o) && manche_jouee(
                    fa,
                    fb,
                    o,
                    g,
                    g.wrapping_add(1),
                    true,
                    v[2 * p],
                ) && manche_jouee(
                    fa,
                    fb,
                    o,
                    g.wrapping_add(2),
                    g.wrapping_add(2).wrapping_add(1),
                    false,
                    v[2 * p + 1],
                )
        }),
{
    assert(paire_jouee(fa, fb, graine, p, v[2 * p], v[2 * p + 1]));
}

/// A line of a duel's record: the network or the two networks, the number of
/// the game, the colour, the points.
pub proof fn loi_ligne_de_duel(net: Seq<char>, autre: Seq<char>, partie: nat, demi: u64)
    ensures
        ligne_duel(net, None, partie, true, demi) == texte::joint(
            seq![net, texte::decimal(partie), "blanc"@, nom_points(demi)],
            ',',
        ),
        ligne_duel(net, None, partie, false, demi) == texte::joint(
            seq![net, texte::decimal(partie), "noir"@, nom_points(demi)],
            ',',
        ),
        ligne_duel(net, Some(autre), partie, true, demi) == net.push(',') + ligne_duel(
            autre,
            None,
            partie,
            true,
            demi,
        ),
{
    reveal_strlit(",");
    lemme_quatre_champs(net, texte::decimal(partie), "blanc"@, nom_points(demi));
    lemme_quatre_champs(net, texte::decimal(partie), "noir"@, nom_points(demi));
    let v = ","@;
    assert(v =~= seq![',']);
    assert(ligne_duel(net, Some(autre), partie, true, demi) =~= net.push(',') + ligne_duel(
        autre,
        None,
        partie,
        true,
        demi,
    ));
}

proof fn lemme_quatre_champs(a: Seq<char>, b: Seq<char>, c: Seq<char>, d: Seq<char>)
    ensures
        texte::joint(seq![a, b, c, d], ',') == a + ","@ + b + ","@ + c + ","@ + d,
{
    reveal_strlit(",");
    assert(","@ =~= seq![',']);
    reveal_with_fuel(texte::joint, 5);
    assert(seq![a, b, c, d].drop_last() =~= seq![a, b, c]);
    assert(seq![a, b, c].drop_last() =~= seq![a, b]);
    assert(seq![a, b].drop_last() =~= seq![a]);
    assert(texte::joint(seq![a, b], ',') =~= a + ","@ + b);
    assert(texte::joint(seq![a, b, c], ',') =~= a + ","@ + b + ","@ + c);
    assert(texte::joint(seq![a, b, c, d], ',') =~= a + ","@ + b + ","@ + c + ","@ + d);
}

/// The opening of a pair has a stream of its own, apart from those of its two
/// games.
pub proof fn loi_graine_d_ouverture(graine: u64, p: u64, r: (u64, u64, u64))
    requires
        2 * p + 1 <= u64::MAX,
        call_ensures(graines_de_paire, (graine, p), r),
    ensures
        r.0 == graines::melange(graine, (2 * p) as u64),
        r.1 == graines::melange(graine, (2 * p + 1) as u64),
        r.2 == r.1.wrapping_add(2),
        r.0 != r.1,
{
    if r.0 == r.1 {
        graines::loi_selecteurs_distincts(graine, (2 * p) as u64, (2 * p + 1) as u64);
    }
}

} // verus!
