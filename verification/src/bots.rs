//! Players: chance, and a search on material.
//!
//! Material is counted in hundredths of a pawn, so that every score is exact.
use rand::rngs::StdRng;
use rand::seq::SliceRandom;
use rand::SeedableRng;
use vstd::prelude::*;

use crate::echiquier;
use crate::echiquier::Position;
use crate::jeu;
use crate::jeu::EtatPosition;

verus! {

// ---------------------------------------------------------------------------
// Chance
// ---------------------------------------------------------------------------

/// The random generator of the `rand` crate.
#[verifier::external_type_specification]
#[verifier::external_body]
pub struct ExStdRng(rand::rngs::StdRng);

/// The generator that a seed starts.
pub uninterp spec fn generateur_de(seed: u64) -> StdRng;

/// A generator started from a seed, by `SeedableRng::seed_from_u64` of rand.
/// Claimed: the generator depends on the seed alone. Nothing is claimed of the
/// numbers that it will give.
#[verifier::external_body]
pub(crate) fn generateur(seed: u64) -> (r: StdRng)
    ensures
        r == generateur_de(seed),
{
    StdRng::seed_from_u64(seed)
}

/// Picks one of the numbers, by `SliceRandom::choose` of rand. Claimed: one of
/// them is picked unless there is none; which one is left to chance.
#[verifier::external_body]
pub(crate) fn pioche(v: &Vec<usize>, rng: &mut StdRng) -> (r: Option<usize>)
    ensures
        match r {
            Some(x) => v@.contains(x),
            None => v@.len() == 0,
        },
{
    v.choose(rng).copied()
}

// ---------------------------------------------------------------------------
// Players
// ---------------------------------------------------------------------------

/// A player: given a position, one of its legal moves in UCI, or nothing where
/// there is none. Playing does not change which moves it would give.
pub trait Bot {
    /// Is it one of the moves that the player can give in the position? Any
    /// legal one, unless the player says more.
    open spec fn donne(&self, fen: Seq<char>, uci: Seq<char>) -> bool {
        legal(fen, uci)
    }

    /// Can the player be without an answer although there is a move, as an
    /// engine that has died? The players of this crate never are.
    open spec fn defaille(&self, fen: Seq<char>) -> bool {
        true
    }

    fn choisit(&mut self, fen: &str) -> (r: Option<String>)
        ensures
            match r {
                Some(u) => old(self).donne(fen@, u@) && legal(fen@, u@),
                None => !a_un_coup(fen@) || old(self).defaille(fen@),
            },
            forall|f: Seq<char>, u: Seq<char>|
                #[trigger] final(self).donne(f, u) == old(self).donne(f, u),
            forall|f: Seq<char>| #[trigger] final(self).defaille(f) == old(self).defaille(f),
    ;
}

/// Is it one of the legal moves?
pub open spec fn legal(fen: Seq<char>, uci: Seq<char>) -> bool {
    echiquier::legal(echiquier::coups_de(fen), uci)
}

/// Has the position a legal move?
pub open spec fn a_un_coup(fen: Seq<char>) -> bool {
    echiquier::n_coups_annonces(echiquier::position_de(fen)) > 0
}

/// Any legal move, all alike.
pub struct RandomBot {
    pub rng: StdRng,
}

impl RandomBot {
    pub fn new(seed: u64) -> (r: RandomBot)
        ensures
            r.rng == generateur_de(seed),
    {
        RandomBot { rng: generateur(seed) }
    }
}

/// All numbers below `n`.
pub(crate) fn indices(n: usize) -> (r: Vec<usize>)
    ensures
        r@.len() == n,
        forall|i: int| 0 <= i < n ==> #[trigger] r@[i] == i,
{
    let mut r: Vec<usize> = Vec::new();
    while r.len() < n
        invariant
            r@.len() <= n,
            forall|i: int| 0 <= i < r@.len() ==> #[trigger] r@[i] == i,
        decreases n - r.len(),
    {
        let k: usize = r.len();
        r.push(k);
    }
    r
}

impl Bot for RandomBot {
    /// Any legal move.
    open spec fn donne(&self, fen: Seq<char>, uci: Seq<char>) -> bool {
        legal(fen, uci)
    }

    open spec fn defaille(&self, fen: Seq<char>) -> bool {
        false
    }

    fn choisit(&mut self, fen: &str) -> (r: Option<String>)
        ensures
            match r {
                Some(u) => legal(fen@, u@) && echiquier::suite_de(fen@, u@) is Some,
                None => !a_un_coup(fen@),
            },
    {
        match echiquier::coups_legaux(fen) {
            None => None,
            Some(c) => {
                let v: Vec<usize> = indices(c.len());
                match pioche(&v, &mut self.rng) {
                    None => None,
                    Some(k) => {
                        proof {
                            let i = v@.index_of(k);
                            assert(v@[i] == i);
                            let cv = echiquier::coups_de(fen@)->0;
                            assert(cv[k as int].0 == c@[k as int].0@);
                        }
                        let u: String = c[k].0.clone();
                        assert(u@ == c@[k as int].0@);
                        Some(u)
                    },
                }
            },
        }
    }
}

// ---------------------------------------------------------------------------
// Material
// ---------------------------------------------------------------------------

/// Value of a piece in hundredths of a pawn; a king has none.
pub open spec fn prix(role: u8) -> int {
    if role == 1 {
        100
    } else if role == 2 {
        300
    } else if role == 3 {
        315
    } else if role == 4 {
        500
    } else if role == 5 {
        900
    } else {
        0
    }
}

/// Value of the pieces of one colour among the first `n`.
pub open spec fn valeur_camp(p: Seq<(u8, u8, bool)>, blanc: bool, n: int) -> int
    decreases n,
{
    if n <= 0 {
        0
    } else {
        valeur_camp(p, blanc, n - 1) + if p[n - 1].2 == blanc {
            prix(p[n - 1].1)
        } else {
            0
        }
    }
}

/// Our material less theirs, seen from one colour.
pub open spec fn materiel(p: Seq<(u8, u8, bool)>, blanc: bool) -> int {
    valeur_camp(p, blanc, p.len() as int) - valeur_camp(p, !blanc, p.len() as int)
}

fn prix_de(role: u8) -> (r: i64)
    ensures
        r == prix(role),
        0 <= r <= 900,
{
    if role == 1 {
        100
    } else if role == 2 {
        300
    } else if role == 3 {
        315
    } else if role == 4 {
        500
    } else if role == 5 {
        900
    } else {
        0
    }
}

/// Our material less theirs, seen from one colour, in hundredths of a pawn.
pub fn materiel_trait(p: &Vec<(u8, u8, bool)>, blanc: bool) -> (r: i64)
    requires
        p@.len() <= 64,
    ensures
        r == materiel(p@, blanc),
        -57_600 <= r <= 57_600,
{
    let mut nous: i64 = 0;
    let mut eux: i64 = 0;
    let mut i: usize = 0;
    while i < p.len()
        invariant
            i <= p@.len(),
            p@.len() <= 64,
            nous == valeur_camp(p@, blanc, i as int),
            eux == valeur_camp(p@, !blanc, i as int),
            0 <= nous <= 900 * i,
            0 <= eux <= 900 * i,
        decreases p.len() - i,
    {
        let v: i64 = prix_de(p[i].1);
        if p[i].2 == blanc {
            nous += v;
        } else {
            eux += v;
        }
        i += 1;
    }
    nous - eux
}

/// Material is a sum that both sides share out: what one is ahead, the other
/// is behind.
pub proof fn loi_materiel_oppose(p: Seq<(u8, u8, bool)>, blanc: bool)
    ensures
        materiel(p, !blanc) == -materiel(p, blanc),
{
}

/// Value of a position for the side to move: its material lead, and one
/// hundredth for each legal move.
pub open spec fn valeur_materielle(fen: Seq<char>) -> int {
    match echiquier::position_de(fen) {
        Some(p) => materiel(p.0, p.1) + p.6,
        None => 0,
    }
}

/// Material lead of the side to move and one hundredth for each legal move, in
/// hundredths of a pawn; zero for a text that is no position.
pub fn material_eval(fen: &str) -> (r: i64)
    ensures
        r == valeur_materielle(fen@),
        -60_000 <= r <= 60_000,
{
    match echiquier::lit_position(fen) {
        Some(p) => materiel_trait(&p.pieces, p.trait_blanc) + p.n_coups as i64,
        None => 0,
    }
}

// ---------------------------------------------------------------------------
// Search
// ---------------------------------------------------------------------------

/// No value of a search exceeds this.
pub const BORNE: i64 = 1_000_000_000_000;

/// What a search needs at the ends of its lines: the value of a quiet end for
/// the side to move, and the value of being mated at a distance. Values that
/// are no further apart than `ecart` count as equal at the root.
pub trait Evaluation {
    spec fn feuille(&self, fen: Seq<char>) -> int;

    spec fn mat(&self, ply: int) -> int;

    spec fn ecart(&self) -> int;

    fn evalue(&self, fen: &str, p: &Position) -> (r: i64)
        requires
            echiquier::position_de(fen@) == Some(p@),
            echiquier::plateau_valide(p.pieces@) && p.n_coups <= 256,
        ensures
            r == self.feuille(fen@),
            -BORNE <= r <= BORNE,
    ;

    fn evalue_mat(&self, ply: u32) -> (r: i64)
        ensures
            r == self.mat(ply as int),
            -BORNE <= r <= BORNE,
    ;

    fn tolerance(&self) -> (r: i64)
        ensures
            r == self.ecart(),
            0 <= r <= BORNE,
    ;
}

/// Material at the ends; mates come first, the shorter the better. Its values
/// are exact.
pub struct Materiel {}

impl Evaluation for Materiel {
    open spec fn feuille(&self, fen: Seq<char>) -> int {
        valeur_materielle(fen)
    }

    open spec fn mat(&self, ply: int) -> int {
        -(100_000 - 100 * ply)
    }

    open spec fn ecart(&self) -> int {
        0
    }

    fn evalue(&self, fen: &str, p: &Position) -> (r: i64) {
        materiel_trait(&p.pieces, p.trait_blanc) + p.n_coups as i64
    }

    fn evalue_mat(&self, ply: u32) -> (r: i64) {
        100 * (ply as i64) - 100_000
    }

    fn tolerance(&self) -> (r: i64) {
        0
    }
}

/// The function can answer `v` for that text.
pub open spec fn dit<F: Fn(&str) -> i64>(f: F, fen: Seq<char>, v: i64) -> bool {
    exists|x: &str| x@ == fen && #[trigger] call_ensures(f, (x,), v)
}

/// A function of the position alone, within the bounds of a search.
pub open spec fn fonction_de_la_position<F: Fn(&str) -> i64>(f: F) -> bool {
    &&& forall|x: &str| #[trigger] call_requires(f, (x,))
    &&& forall|fen: Seq<char>, v: i64, w: i64|
        #[trigger] dit(f, fen, v) && #[trigger] dit(f, fen, w) ==> v == w
    &&& forall|x: &str, v: i64| #[trigger] call_ensures(f, (x,), v) ==> -BORNE <= v <= BORNE
}

/// A function of the distance alone, within the bounds of a search.
pub open spec fn fonction_de_la_distance<G: Fn(u32) -> i64>(g: G) -> bool {
    &&& forall|p: u32| #[trigger] call_requires(g, (p,))
    &&& forall|p: u32, v: i64, w: i64|
        #[trigger] call_ensures(g, (p,), v) && #[trigger] call_ensures(g, (p,), w) ==> v == w
    &&& forall|p: u32, v: i64| #[trigger] call_ensures(g, (p,), v) ==> -BORNE <= v <= BORNE
}

/// An evaluation by two functions: what a quiet position is worth, and what a
/// mate at a distance is worth.
pub struct ParFonctions<F: Fn(&str) -> i64, G: Fn(u32) -> i64> {
    f: F,
    g: G,
    tolerance: i64,
}

impl<F: Fn(&str) -> i64, G: Fn(u32) -> i64> ParFonctions<F, G> {
    #[verifier::type_invariant]
    spec fn sain(self) -> bool {
        fonction_de_la_position(self.f) && fonction_de_la_distance(self.g) && 0 <= self.tolerance
            <= BORNE
    }

    /// What the first function says of a position.
    pub closed spec fn valeur_de(self, fen: Seq<char>) -> i64 {
        choose|v: i64| dit(self.f, fen, v)
    }

    /// What the second function says of a distance.
    pub closed spec fn mat_de(self, ply: u32) -> i64 {
        choose|v: i64| call_ensures(self.g, (ply,), v)
    }

    /// How far apart values may be that count as equal.
    pub closed spec fn tolerance_de(self) -> i64 {
        self.tolerance
    }

    /// An evaluation by functions of the position and of the distance alone,
    /// whose values a search can hold. Values that are no further apart than
    /// the tolerance count as equal.
    pub fn new(f: F, g: G, tolerance: i64) -> (r: ParFonctions<F, G>)
        requires
            fonction_de_la_position(f),
            fonction_de_la_distance(g),
            0 <= tolerance <= BORNE,
        ensures
            r.tolerance_de() == tolerance,
            forall|fen: Seq<char>, v: i64| #[trigger] dit(f, fen, v) ==> r.valeur_de(fen) == v,
            forall|p: u32, v: i64| #[trigger] call_ensures(g, (p,), v) ==> r.mat_de(p) == v,
    {
        ParFonctions { f, g, tolerance }
    }
}

impl<F: Fn(&str) -> i64, G: Fn(u32) -> i64> Evaluation for ParFonctions<F, G> {
    open spec fn feuille(&self, fen: Seq<char>) -> int {
        self.valeur_de(fen) as int
    }

    open spec fn mat(&self, ply: int) -> int {
        self.mat_de(ply as u32) as int
    }

    open spec fn ecart(&self) -> int {
        self.tolerance_de() as int
    }

    fn evalue(&self, fen: &str, p: &Position) -> (r: i64) {
        proof {
            use_type_invariant(self);
        }
        let r: i64 = (self.f)(fen);
        assert(dit(self.f, fen@, r));
        r
    }

    fn evalue_mat(&self, ply: u32) -> (r: i64) {
        proof {
            use_type_invariant(self);
        }
        let r: i64 = (self.g)(ply);
        r
    }

    fn tolerance(&self) -> (r: i64) {
        proof {
            use_type_invariant(self);
        }
        self.tolerance
    }
}

/// A mate that comes later is less bad for the side that is mated.
pub proof fn loi_mat_court_prefere(m: Materiel, p: int, q: int)
    requires
        p < q,
    ensures
        m.mat(p) < m.mat(q),
{
}

/// The position after a legal move.
pub open spec fn fille(fen: Seq<char>, uci: Seq<char>) -> Seq<char> {
    echiquier::suite_de(fen, uci)->0
}

/// Value of a position for the side to move, every line followed to `depth`:
/// a mate by its distance, zero for stalemate, too little material and the
/// fifty-move rule, else the best of the moves.
pub open spec fn minimax<E: Evaluation>(e: &E, fen: Seq<char>, depth: nat, ply: int) -> int
    decreases depth, 0nat,
{
    match jeu::etat_de(fen) {
        Some(s) => if s.mat_spec() {
            e.mat(ply)
        } else if s.pat_spec() || s.nulle_spec() {
            0
        } else if depth == 0 {
            e.feuille(fen)
        } else {
            match echiquier::coups_de(fen) {
                Some(c) => meilleur(e, fen, c, (depth - 1) as nat, ply + 1, c.len()),
                None => 0,
            }
        },
        None => 0,
    }
}

/// Best of the first `k` moves, for the side that plays them.
pub open spec fn meilleur<E: Evaluation>(
    e: &E,
    fen: Seq<char>,
    c: Seq<(Seq<char>, bool)>,
    depth: nat,
    ply: int,
    k: nat,
) -> int
    decreases depth, k + 1,
{
    if k == 0 {
        0
    } else {
        let v = -minimax(e, fille(fen, c[k - 1].0), depth, ply);
        if k == 1 {
            v
        } else {
            let d = meilleur(e, fen, c, depth, ply, (k - 1) as nat);
            if v > d {
                v
            } else {
                d
            }
        }
    }
}

/// Value of move `j` for the side that plays it.
pub open spec fn valeur_coup<E: Evaluation>(
    e: &E,
    fen: Seq<char>,
    c: Seq<(Seq<char>, bool)>,
    depth: nat,
    ply: int,
    j: int,
) -> int {
    -minimax(e, fille(fen, c[j].0), depth, ply)
}

/// The best of the moves is reached by one of them and exceeded by none.
proof fn lemme_meilleur<E: Evaluation>(
    e: &E,
    fen: Seq<char>,
    c: Seq<(Seq<char>, bool)>,
    depth: nat,
    ply: int,
    k: nat,
)
    requires
        0 < k <= c.len(),
    ensures
        forall|j: int|
            0 <= j < k ==> #[trigger] valeur_coup(e, fen, c, depth, ply, j) <= meilleur(
                e,
                fen,
                c,
                depth,
                ply,
                k,
            ),
        exists|j: int|
            0 <= j < k && #[trigger] valeur_coup(e, fen, c, depth, ply, j) == meilleur(
                e,
                fen,
                c,
                depth,
                ply,
                k,
            ),
    decreases k,
{
    let v = valeur_coup(e, fen, c, depth, ply, k - 1);
    if k > 1 {
        lemme_meilleur(e, fen, c, depth, ply, (k - 1) as nat);
        let d = meilleur(e, fen, c, depth, ply, (k - 1) as nat);
        let j = choose|j: int|
            0 <= j < k - 1 && #[trigger] valeur_coup(e, fen, c, depth, ply, j) == d;
        assert(valeur_coup(e, fen, c, depth, ply, j) == d);
    }
}

/// Has move `j` been tried, when pass `passe` (captures, then the rest) has
/// come to move `i`?
spec fn essaye(c: Seq<(Seq<char>, bool)>, passe: int, i: int, j: int) -> bool {
    if c[j].1 {
        passe >= 1 || j < i
    } else {
        passe >= 2 || (passe == 1 && j < i)
    }
}

/// What a search knows of the moves tried so far: none beats the best, and a
/// best that beats the lower bound is reached.
spec fn connu<E: Evaluation>(
    e: &E,
    fen: Seq<char>,
    c: Seq<(Seq<char>, bool)>,
    depth: nat,
    ply: int,
    passe: int,
    i: int,
    best: int,
    alpha0: int,
) -> bool {
    &&& forall|j: int|
        0 <= j < c.len() && essaye(c, passe, i, j) ==> #[trigger] valeur_coup(
            e,
            fen,
            c,
            depth,
            ply,
            j,
        ) <= best
    &&& best > alpha0 ==> exists|j: int|
        0 <= j < c.len() && essaye(c, passe, i, j) && #[trigger] valeur_coup(
            e,
            fen,
            c,
            depth,
            ply,
            j,
        ) == best
}

/// What a bounded search says of the value it looked for: exact inside the
/// window, an upper bound below it, a lower bound above it.
pub open spec fn encadre(valeur: int, alpha: int, beta: int, r: int) -> bool {
    &&& r <= alpha ==> valeur <= r
    &&& r >= beta ==> valeur >= r
    &&& alpha < r < beta ==> r == valeur
}

/// Search with cut-offs between `alpha` and `beta`, captures first.
pub fn negamax<E: Evaluation>(e: &E, fen: &str, depth: u32, ply: u32, alpha: i64, beta: i64) -> (r:
    i64)
    requires
        ply + depth <= u32::MAX,
        -2 * BORNE <= alpha < beta <= 2 * BORNE,
    ensures
        encadre(minimax(e, fen@, depth as nat, ply as int), alpha as int, beta as int, r as int),
        -BORNE <= r <= BORNE,
    decreases depth,
{
    let pos: Position = match echiquier::lit_position(fen) {
        Some(p) => p,
        None => {
            return 0;
        },
    };
    let s: EtatPosition = jeu::etat(&pos);
    if s.mat() {
        return e.evalue_mat(ply);
    }
    if s.pat() || s.nulle() {
        return 0;
    }
    if depth == 0 {
        return e.evalue(fen, &pos);
    }
    let coups: Vec<(String, bool, String)> = match echiquier::filles(fen) {
        Some(v) => v,
        None => {
            return 0;
        },
    };
    let ghost c = echiquier::vues_filles(coups@);
    let n: usize = coups.len();
    let ghost d = (depth - 1) as nat;
    let ghost p = ply + 1;
    let ghost f = fen@;
    let mut best: i64 = -BORNE - 1;
    let mut a: i64 = alpha;
    let mut passe: usize = 0;
    let mut i: usize = 0;
    // A first value always replaces the start of `best`, which no move has.
    let mut vu: bool = false;
    assert(minimax(e, f, depth as nat, ply as int) == meilleur(e, f, c, d, p, n as nat));
    while passe < 2
        invariant
            minimax(e, f, depth as nat, ply as int) == meilleur(e, f, c, d, p, n as nat),
            passe <= 2,
            i <= n,
            passe == 2 ==> i == 0,
            n == coups@.len(),
            n > 0,
            c == echiquier::vues_filles(coups@),
            c.len() == n,
            f == fen@,
            depth > 0,
            d == depth - 1,
            p == ply + 1,
            ply + depth <= u32::MAX,
            -2 * BORNE <= alpha <= a < beta <= 2 * BORNE,
            a == if vu && best > alpha {
                best
            } else {
                alpha
            },
            vu ==> -BORNE <= best <= BORNE,
            vu ==> connu(e, f, c, d, p, passe as int, i as int, best as int, alpha as int),
            !vu ==> best == -BORNE - 1,
            !vu ==> forall|j: int|
                0 <= j < n ==> !#[trigger] essaye(c, passe as int, i as int, j),
            forall|j: int|
                0 <= j < n ==> echiquier::suite_de(f, (#[trigger] coups@[j]).0@) == Some(
                    coups@[j].2@,
                ),
        decreases 2 - passe, n - i,
    {
        if i >= n {
            proof {
                lemme_passe_suivante(e, f, c, d, p, passe as int, best as int, alpha as int);
                if !vu {
                    assert forall|j: int| 0 <= j < n implies !#[trigger] essaye(
                        c,
                        passe + 1,
                        0,
                        j,
                    ) by {
                        assert(!essaye(c, passe as int, i as int, j));
                    }
                }
            }
            passe += 1;
            i = 0;
            continue;
        }
        let capture: bool = coups[i].1;
        assert(c[i as int] == (coups@[i as int].0@, coups@[i as int].1));
        if capture != (passe == 0) {
            proof {
                lemme_saute(e, f, c, d, p, passe as int, i as int, best as int, alpha as int);
                if !vu {
                    assert forall|j: int| 0 <= j < n implies !#[trigger] essaye(
                        c,
                        passe as int,
                        i + 1,
                        j,
                    ) by {
                        assert(!essaye(c, passe as int, i as int, j));
                    }
                }
            }
            i += 1;
            continue;
        }
        let v: i64 = -negamax(e, coups[i].2.as_str(), depth - 1, ply + 1, -beta, -a);
        let ghost w = valeur_coup(e, f, c, d, p, i as int);
        proof {
            assert(fille(f, c[i as int].0) == coups@[i as int].2@);
            assert(v <= a ==> w <= v);
            assert(v >= beta ==> w >= v);
            assert(a < v < beta ==> w == v);
        }
        let ghost b0 = best as int;
        if !vu || v > best {
            best = v;
        }
        proof {
            if v < beta {
                lemme_essai(
                    e,
                    f,
                    c,
                    d,
                    p,
                    passe as int,
                    i as int,
                    b0,
                    best as int,
                    alpha as int,
                    v as int,
                    vu,
                );
            }
        }
        vu = true;
        if best > a {
            a = best;
        }
        if a >= beta {
            proof {
                lemme_meilleur(e, f, c, d, p, n as nat);
                assert(w <= meilleur(e, f, c, d, p, n as nat));
            }
            return best;
        }
        i += 1;
    }
    proof {
        lemme_fin(e, f, c, d, p, best as int, alpha as int, beta as int, vu);
    }
    best
}

proof fn lemme_passe_suivante<E: Evaluation>(
    e: &E,
    fen: Seq<char>,
    c: Seq<(Seq<char>, bool)>,
    depth: nat,
    ply: int,
    passe: int,
    best: int,
    alpha0: int,
)
    requires
        0 <= passe < 2,
    ensures
        connu(e, fen, c, depth, ply, passe, c.len() as int, best, alpha0) ==> connu(
            e,
            fen,
            c,
            depth,
            ply,
            passe + 1,
            0,
            best,
            alpha0,
        ),
{
    let n = c.len() as int;
    if connu(e, fen, c, depth, ply, passe, n, best, alpha0) {
        assert forall|j: int| 0 <= j < c.len() && essaye(c, passe + 1, 0, j) implies #[trigger] valeur_coup(
            e,
            fen,
            c,
            depth,
            ply,
            j,
        ) <= best by {
            assert(essaye(c, passe, n, j));
        }
        if best > alpha0 {
            let j = choose|j: int|
                0 <= j < c.len() && essaye(c, passe, n, j) && #[trigger] valeur_coup(
                    e,
                    fen,
                    c,
                    depth,
                    ply,
                    j,
                ) == best;
            assert(essaye(c, passe + 1, 0, j));
        }
    }
}

proof fn lemme_saute<E: Evaluation>(
    e: &E,
    fen: Seq<char>,
    c: Seq<(Seq<char>, bool)>,
    depth: nat,
    ply: int,
    passe: int,
    i: int,
    best: int,
    alpha0: int,
)
    requires
        0 <= passe < 2,
        0 <= i < c.len(),
        c[i].1 != (passe == 0),
    ensures
        connu(e, fen, c, depth, ply, passe, i, best, alpha0) ==> connu(
            e,
            fen,
            c,
            depth,
            ply,
            passe,
            i + 1,
            best,
            alpha0,
        ),
{
    if connu(e, fen, c, depth, ply, passe, i, best, alpha0) {
        assert forall|j: int| 0 <= j < c.len() && essaye(c, passe, i + 1, j) implies #[trigger] valeur_coup(
            e,
            fen,
            c,
            depth,
            ply,
            j,
        ) <= best by {
            assert(essaye(c, passe, i, j));
        }
        if best > alpha0 {
            let j = choose|j: int|
                0 <= j < c.len() && essaye(c, passe, i, j) && #[trigger] valeur_coup(
                    e,
                    fen,
                    c,
                    depth,
                    ply,
                    j,
                ) == best;
            assert(essaye(c, passe, i + 1, j));
        }
    }
}

proof fn lemme_essai<E: Evaluation>(
    e: &E,
    fen: Seq<char>,
    c: Seq<(Seq<char>, bool)>,
    depth: nat,
    ply: int,
    passe: int,
    i: int,
    b0: int,
    best: int,
    alpha0: int,
    v: int,
    vu: bool,
)
    requires
        0 <= passe < 2,
        0 <= i < c.len(),
        c[i].1 == (passe == 0),
        vu ==> connu(e, fen, c, depth, ply, passe, i, b0, alpha0),
        !vu ==> forall|j: int| 0 <= j < c.len() ==> !#[trigger] essaye(c, passe, i, j),
        best == if !vu || v > b0 {
            v
        } else {
            b0
        },
        ({
            let a = if vu && b0 > alpha0 {
                b0
            } else {
                alpha0
            };
            let w = valeur_coup(e, fen, c, depth, ply, i);
            &&& v <= a ==> w <= v
            &&& v > a ==> w == v
        }),
    ensures
        connu(e, fen, c, depth, ply, passe, i + 1, best, alpha0),
{
    let w = valeur_coup(e, fen, c, depth, ply, i);
    assert(essaye(c, passe, i + 1, i));
    assert forall|j: int| 0 <= j < c.len() && essaye(c, passe, i + 1, j) implies #[trigger] valeur_coup(
        e,
        fen,
        c,
        depth,
        ply,
        j,
    ) <= best by {
        if j != i {
            assert(essaye(c, passe, i, j));
        }
    }
    if best > alpha0 {
        if vu && b0 > alpha0 && v <= b0 {
            let j = choose|j: int|
                0 <= j < c.len() && essaye(c, passe, i, j) && #[trigger] valeur_coup(
                    e,
                    fen,
                    c,
                    depth,
                    ply,
                    j,
                ) == b0;
            assert(essaye(c, passe, i + 1, j));
        } else {
            assert(w == best);
        }
    }
}

proof fn lemme_fin<E: Evaluation>(
    e: &E,
    fen: Seq<char>,
    c: Seq<(Seq<char>, bool)>,
    depth: nat,
    ply: int,
    best: int,
    alpha0: int,
    beta: int,
    vu: bool,
)
    requires
        c.len() > 0,
        vu ==> connu(e, fen, c, depth, ply, 2, 0, best, alpha0),
        !vu ==> forall|j: int| 0 <= j < c.len() ==> !#[trigger] essaye(c, 2, 0, j),
        vu && best > alpha0 ==> best < beta,
        alpha0 < beta,
    ensures
        vu,
        encadre(meilleur(e, fen, c, depth, ply, c.len()), alpha0, beta, best),
{
    assert(essaye(c, 2, 0, 0));
    lemme_meilleur(e, fen, c, depth, ply, c.len());
    let m = meilleur(e, fen, c, depth, ply, c.len());
    let j = choose|j: int|
        0 <= j < c.len() && #[trigger] valeur_coup(e, fen, c, depth, ply, j) == m;
    assert(essaye(c, 2, 0, j));
}

// ---------------------------------------------------------------------------
// Choice at the root
// ---------------------------------------------------------------------------

/// Plies that are followed behind a move of the root, for a player of that
/// depth.
pub open spec fn suite_racine(depth: u32) -> nat {
    if depth == 0 {
        0
    } else {
        (depth - 1) as nat
    }
}

/// The value that moves are held against when the first `k` moves of the root
/// have been looked at: that of the last move which beat the value before it by
/// more than the tolerance.
pub open spec fn repere<E: Evaluation>(
    e: &E,
    fen: Seq<char>,
    c: Seq<(Seq<char>, bool)>,
    depth: u32,
    k: nat,
) -> int
    decreases k,
{
    if k == 0 {
        0
    } else {
        let v = valeur_coup(e, fen, c, suite_racine(depth), 1, k - 1);
        let b = repere(e, fen, c, depth, (k - 1) as nat);
        if k == 1 || v > b + e.ecart() {
            v
        } else {
            b
        }
    }
}

/// Is move `j` of the root among the best: no further than the tolerance below
/// the value that all moves are held against, which was already so when the
/// move was looked at?
pub open spec fn parmi_les_meilleurs<E: Evaluation>(
    e: &E,
    fen: Seq<char>,
    c: Seq<(Seq<char>, bool)>,
    depth: u32,
    j: int,
) -> bool {
    &&& 0 <= j < c.len()
    &&& repere(e, fen, c, depth, (j + 1) as nat) == repere(e, fen, c, depth, c.len())
    &&& valeur_coup(e, fen, c, suite_racine(depth), 1, j) >= repere(e, fen, c, depth, c.len())
        - e.ecart()
}

/// The value that moves are held against never falls, stays within the
/// tolerance of every move looked at, and is that of one of them.
proof fn lemme_repere<E: Evaluation>(
    e: &E,
    fen: Seq<char>,
    c: Seq<(Seq<char>, bool)>,
    depth: u32,
    k: nat,
)
    requires
        e.ecart() >= 0,
    ensures
        forall|j: int|
            0 <= j < k ==> #[trigger] valeur_coup(e, fen, c, suite_racine(depth), 1, j) <= repere(
                e,
                fen,
                c,
                depth,
                k,
            ) + e.ecart(),
        forall|j: nat|
            0 < j <= k ==> #[trigger] repere(e, fen, c, depth, j) <= repere(e, fen, c, depth, k),
        k > 0 ==> exists|j: int|
            0 <= j < k && #[trigger] valeur_coup(e, fen, c, suite_racine(depth), 1, j) == repere(
                e,
                fen,
                c,
                depth,
                k,
            ) && repere(e, fen, c, depth, (j + 1) as nat) == repere(e, fen, c, depth, k),
    decreases k,
{
    if k > 0 {
        let avant = (k - 1) as nat;
        lemme_repere(e, fen, c, depth, avant);
        let v = valeur_coup(e, fen, c, suite_racine(depth), 1, k - 1);
        let b = repere(e, fen, c, depth, avant);
        if k == 1 || v > b + e.ecart() {
            assert((k - 1 + 1) as nat == k);
        } else {
            let j = choose|j: int|
                0 <= j < avant && #[trigger] valeur_coup(
                    e,
                    fen,
                    c,
                    suite_racine(depth),
                    1,
                    j,
                ) == b && repere(e, fen, c, depth, (j + 1) as nat) == b;
            assert(valeur_coup(e, fen, c, suite_racine(depth), 1, j) == b);
        }
    }
}

/// No move beats one of the best by more than twice the tolerance.
pub proof fn loi_meilleurs_proches<E: Evaluation>(
    e: &E,
    fen: Seq<char>,
    c: Seq<(Seq<char>, bool)>,
    depth: u32,
    j: int,
    k: int,
)
    requires
        e.ecart() >= 0,
        parmi_les_meilleurs(e, fen, c, depth, j),
        0 <= k < c.len(),
    ensures
        valeur_coup(e, fen, c, suite_racine(depth), 1, k) <= valeur_coup(
            e,
            fen,
            c,
            suite_racine(depth),
            1,
            j,
        ) + 2 * e.ecart(),
{
    lemme_repere(e, fen, c, depth, c.len());
}

/// Without a tolerance the best moves are those that no move beats.
pub proof fn loi_meilleurs_exacts<E: Evaluation>(
    e: &E,
    fen: Seq<char>,
    c: Seq<(Seq<char>, bool)>,
    depth: u32,
    j: int,
)
    requires
        e.ecart() == 0,
        0 <= j < c.len(),
    ensures
        parmi_les_meilleurs(e, fen, c, depth, j) <==> forall|k: int|
            0 <= k < c.len() ==> #[trigger] valeur_coup(e, fen, c, suite_racine(depth), 1, k)
                <= valeur_coup(e, fen, c, suite_racine(depth), 1, j),
{
    let d = suite_racine(depth);
    let n = c.len();
    lemme_repere(e, fen, c, depth, n);
    lemme_repere(e, fen, c, depth, (j + 1) as nat);
    let m = choose|m: int|
        0 <= m < n && #[trigger] valeur_coup(e, fen, c, d, 1, m) == repere(e, fen, c, depth, n)
            && repere(e, fen, c, depth, (m + 1) as nat) == repere(e, fen, c, depth, n);
    assert(valeur_coup(e, fen, c, d, 1, m) == repere(e, fen, c, depth, n));
    if forall|k: int|
        0 <= k < n ==> #[trigger] valeur_coup(e, fen, c, d, 1, k) <= valeur_coup(
            e,
            fen,
            c,
            d,
            1,
            j,
        ) {
        assert(valeur_coup(e, fen, c, d, 1, m) <= valeur_coup(e, fen, c, d, 1, j));
        assert(repere(e, fen, c, depth, (j + 1) as nat) <= repere(e, fen, c, depth, n));
    }
}

/// The best moves of the root, all of them, by their place among the legal
/// moves.
pub fn meilleurs_coups<E: Evaluation>(
    e: &E,
    fen: &str,
    depth: u32,
    coups: &Vec<(String, bool, String)>,
) -> (r: Vec<usize>)
    requires
        forall|j: int|
            0 <= j < coups@.len() ==> echiquier::suite_de(fen@, (#[trigger] coups@[j]).0@) == Some(
                coups@[j].2@,
            ),
    ensures
        forall|i: int, j: int| 0 <= i < j < r@.len() ==> #[trigger] r@[i] < #[trigger] r@[j],
        forall|k: int|
            0 <= k < coups@.len() ==> (r@.contains(k as usize) <==> #[trigger] parmi_les_meilleurs(
                e,
                fen@,
                echiquier::vues_filles(coups@),
                depth,
                k,
            )),
        forall|i: int| 0 <= i < r@.len() ==> #[trigger] r@[i] < coups@.len(),
        coups@.len() > 0 ==> r@.len() > 0,
{
    let ghost c = echiquier::vues_filles(coups@);
    let ghost f = fen@;
    let ghost d = suite_racine(depth);
    let profondeur: u32 = if depth == 0 {
        0
    } else {
        depth - 1
    };
    let n: usize = coups.len();
    let tolerance: i64 = e.tolerance();
    let mut r: Vec<usize> = Vec::new();
    let mut best: i64 = 0;
    let mut i: usize = 0;
    while i < n
        invariant
            i <= n,
            n == coups@.len(),
            c == echiquier::vues_filles(coups@),
            c.len() == n,
            f == fen@,
            d == suite_racine(depth),
            profondeur == d,
            profondeur < u32::MAX,
            tolerance == e.ecart(),
            0 <= tolerance <= BORNE,
            -BORNE <= best <= BORNE,
            best == repere(e, f, c, depth, i as nat),
            (i > 0) == (r@.len() > 0),
            forall|a: int, b: int| 0 <= a < b < r@.len() ==> #[trigger] r@[a] < #[trigger] r@[b],
            forall|a: int| 0 <= a < r@.len() ==> #[trigger] r@[a] < i,
            forall|k: int|
                0 <= k < i ==> (#[trigger] r@.contains(k as usize) <==> retenu(
                    e,
                    f,
                    c,
                    depth,
                    i as nat,
                    k,
                )),
            forall|j: int|
                0 <= j < n ==> echiquier::suite_de(f, (#[trigger] coups@[j]).0@) == Some(
                    coups@[j].2@,
                ),
        decreases n - i,
    {
        assert(c[i as int] == (coups@[i as int].0@, coups@[i as int].1));
        let v: i64 = -negamax(e, coups[i].2.as_str(), profondeur, 1, -2 * BORNE, 2 * BORNE);
        assert(v == valeur_coup(e, f, c, d, 1, i as int));
        let ghost r0 = r@;
        proof {
            lemme_repere(e, f, c, depth, i as nat);
            assert((i + 1) as nat - 1 == i);
        }
        if i == 0 || v > best + tolerance {
            best = v;
            r = Vec::new();
            r.push(i);
            proof {
                assert(r@[0] == i);
                assert forall|k: int| 0 <= k < i + 1 implies (#[trigger] r@.contains(k as usize)
                    <==> retenu(e, f, c, depth, (i + 1) as nat, k)) by {
                    if k < i {
                        assert(repere(e, f, c, depth, (k + 1) as nat) <= repere(
                            e,
                            f,
                            c,
                            depth,
                            i as nat,
                        ));
                        if r@.contains(k as usize) {
                            let q = r@.index_of(k as usize);
                            assert(r@[q] == i);
                        }
                    }
                }
            }
        } else if v >= best - tolerance {
            r.push(i);
            proof {
                assert forall|k: int| 0 <= k < i + 1 implies (#[trigger] r@.contains(k as usize)
                    <==> retenu(e, f, c, depth, (i + 1) as nat, k)) by {
                    if k < i {
                        assert(r0.contains(k as usize) <==> retenu(e, f, c, depth, i as nat, k));
                        if r0.contains(k as usize) {
                            let q = r0.index_of(k as usize);
                            assert(r@[q] == k as usize);
                        }
                        if r@.contains(k as usize) {
                            let q = r@.index_of(k as usize);
                            assert(q < r0.len());
                            assert(r0[q] == k as usize);
                        }
                    } else {
                        assert(r@[r0.len() as int] == k as usize);
                    }
                }
            }
        } else {
            proof {
                assert forall|k: int| 0 <= k < i + 1 implies (#[trigger] r@.contains(k as usize)
                    <==> retenu(e, f, c, depth, (i + 1) as nat, k)) by {
                    if k < i {
                        assert(r0.contains(k as usize) <==> retenu(e, f, c, depth, i as nat, k));
                    } else if r@.contains(k as usize) {
                        let q = r@.index_of(k as usize);
                        assert(r@[q] < i);
                    }
                }
            }
        }
        i += 1;
    }
    proof {
        assert forall|k: int| 0 <= k < n implies (r@.contains(k as usize)
            <==> #[trigger] parmi_les_meilleurs(e, f, c, depth, k)) by {
            assert(r@.contains(k as usize) <==> retenu(e, f, c, depth, n as nat, k));
        }
    }
    r
}

/// Is move `j` kept when the first `k` moves of the root have been looked at?
spec fn retenu<E: Evaluation>(
    e: &E,
    fen: Seq<char>,
    c: Seq<(Seq<char>, bool)>,
    depth: u32,
    k: nat,
    j: int,
) -> bool {
    &&& repere(e, fen, c, depth, (j + 1) as nat) == repere(e, fen, c, depth, k)
    &&& valeur_coup(e, fen, c, suite_racine(depth), 1, j) >= repere(e, fen, c, depth, k)
        - e.ecart()
}

/// Search on material to a depth; moves of the same value are drawn by lot.
pub struct MaterialBot {
    pub rng: StdRng,
    pub depth: u32,
}

impl MaterialBot {
    pub fn new(seed: u64, depth: u32) -> (r: MaterialBot)
        ensures
            r.rng == generateur_de(seed),
            r.depth == depth,
    {
        MaterialBot { rng: generateur(seed), depth }
    }
}

/// Is it one of the best moves for a search to that depth?
pub open spec fn optimal<E: Evaluation>(e: &E, fen: Seq<char>, depth: u32, uci: Seq<char>) -> bool {
    match echiquier::coups_de(fen) {
        Some(c) => exists|j: int|
            #[trigger] parmi_les_meilleurs(e, fen, c, depth, j) && c[j].0 == uci,
        None => false,
    }
}

/// One of the best moves, drawn by lot among all of them.
fn choix_racine<E: Evaluation>(e: &E, fen: &str, depth: u32, rng: &mut StdRng) -> (r: Option<String>)
    ensures
        match r {
            Some(u) => optimal(e, fen@, depth, u@) && legal(fen@, u@),
            None => !a_un_coup(fen@),
        },
{
    match echiquier::filles(fen) {
        None => None,
        Some(c) => {
            let v: Vec<usize> = meilleurs_coups(e, fen, depth, &c);
            match pioche(&v, rng) {
                None => None,
                Some(k) => {
                    proof {
                        let i = v@.index_of(k);
                        assert(v@[i] == k);
                        let cv = echiquier::vues_filles(c@);
                        assert(cv[k as int].0 == c@[k as int].0@);
                        assert(cv == echiquier::coups_de(fen@)->0);
                        assert(parmi_les_meilleurs(e, fen@, cv, depth, k as int));
                    }
                    let u: String = c[k].0.clone();
                    assert(u@ == c@[k as int].0@);
                    Some(u)
                },
            }
        },
    }
}

impl Bot for MaterialBot {
    /// One of the best moves for a search on material to the depth.
    open spec fn donne(&self, fen: Seq<char>, uci: Seq<char>) -> bool {
        optimal(&Materiel {  }, fen, self.depth, uci)
    }

    open spec fn defaille(&self, fen: Seq<char>) -> bool {
        false
    }

    fn choisit(&mut self, fen: &str) -> (r: Option<String>)
        ensures
            match r {
                Some(u) => optimal(&Materiel {  }, fen@, old(self).depth, u@) && legal(fen@, u@),
                None => !a_un_coup(fen@),
            },
            final(self).depth == old(self).depth,
    {
        let m: Materiel = Materiel {  };
        choix_racine(&m, fen, self.depth, &mut self.rng)
    }
}

// ---------------------------------------------------------------------------
// Network player
// ---------------------------------------------------------------------------

/// What a position after our move is worth before any network is asked.
#[derive(Debug, Clone, Copy, PartialEq, Eq, Structural)]
pub enum Fille {
    /// We have just mated.
    Mat,
    /// A certain draw.
    Nulle,
    /// To be evaluated.
    Ouverte,
}

/// Judges a position after our move.
pub fn classe_fille(s: &EtatPosition) -> (r: Fille)
    ensures
        r == if s.mat_spec() {
            Fille::Mat
        } else if s.pat_spec() || s.nulle_spec() {
            Fille::Nulle
        } else {
            Fille::Ouverte
        },
{
    if s.mat() {
        Fille::Mat
    } else if s.pat() || s.nulle() {
        Fille::Nulle
    } else {
        Fille::Ouverte
    }
}

/// Search with a network at the ends of the lines, to a depth of one at least;
/// moves of the same value are drawn by lot.
pub struct NetBot<E> {
    pub net: E,
    pub rng: StdRng,
    pub depth: u32,
}

impl<E: Evaluation> NetBot<E> {
    pub fn new(net: E, seed: u64, depth: u32) -> (r: NetBot<E>)
        ensures
            r.net == net,
            r.rng == generateur_de(seed),
            r.depth == depth,
    {
        NetBot { net, rng: generateur(seed), depth }
    }
}

impl<E: Evaluation> Bot for NetBot<E> {
    /// One of the best moves for a search with the network to the depth, one at
    /// least.
    open spec fn donne(&self, fen: Seq<char>, uci: Seq<char>) -> bool {
        optimal(
            &self.net,
            fen,
            if self.depth == 0 {
                1
            } else {
                self.depth
            },
            uci,
        )
    }

    open spec fn defaille(&self, fen: Seq<char>) -> bool {
        false
    }

    fn choisit(&mut self, fen: &str) -> (r: Option<String>)
        ensures
            match r {
                Some(u) => optimal(
                    &old(self).net,
                    fen@,
                    if old(self).depth == 0 {
                        1
                    } else {
                        old(self).depth
                    },
                    u@,
                ) && legal(fen@, u@),
                None => !a_un_coup(fen@),
            },
            final(self).net == old(self).net,
            final(self).depth == old(self).depth,
    {
        let depth: u32 = if self.depth == 0 {
            1
        } else {
            self.depth
        };
        choix_racine(&self.net, fen, depth, &mut self.rng)
    }
}

/// A legal move, the position after it and what that position is worth before
/// any network is asked.
pub struct Branche {
    pub uci: String,
    pub fen: String,
    pub fille: Fille,
}

/// What a position after our move is worth before any network is asked.
pub open spec fn classe_de(fen: Seq<char>) -> Option<Fille> {
    match jeu::etat_de(fen) {
        Some(s) => Some(
            if s.mat_spec() {
                Fille::Mat
            } else if s.pat_spec() || s.nulle_spec() {
                Fille::Nulle
            } else {
                Fille::Ouverte
            },
        ),
        None => None,
    }
}

/// Every legal move with the position after it, in the order of generation.
/// Nothing where a position cannot be read.
pub fn branches(fen: &str) -> (r: Option<Vec<Branche>>)
    ensures
        match r {
            Some(v) => echiquier::coups_de(fen@) matches Some(c) && c.len() == v@.len() && forall|
                i: int,
            |
                0 <= i < v@.len() ==> (#[trigger] v@[i]).uci@ == c[i].0 && echiquier::suite_de(
                    fen@,
                    c[i].0,
                ) == Some(v@[i].fen@) && classe_de(v@[i].fen@) == Some(v@[i].fille),
            None => echiquier::coups_de(fen@) matches Some(c) ==> exists|i: int|
                0 <= i < c.len() && classe_de(
                    echiquier::suite_de(fen@, (#[trigger] c[i]).0)->0,
                ) is None,
        },
{
    match echiquier::filles(fen) {
        None => None,
        Some(c) => {
            let ghost cv = echiquier::vues_filles(c@);
            let mut v: Vec<Branche> = Vec::new();
            let mut i: usize = 0;
            while i < c.len()
                invariant
                    i <= c@.len(),
                    v@.len() == i,
                    cv == echiquier::vues_filles(c@),
                    echiquier::coups_de(fen@) == Some(cv),
                    forall|k: int|
                        0 <= k < c@.len() ==> echiquier::suite_de(fen@, (#[trigger] c@[k]).0@)
                            == Some(c@[k].2@),
                    forall|k: int|
                        0 <= k < i ==> (#[trigger] v@[k]).uci@ == cv[k].0 && echiquier::suite_de(
                            fen@,
                            cv[k].0,
                        ) == Some(v@[k].fen@) && classe_de(v@[k].fen@) == Some(v@[k].fille),
                decreases c.len() - i,
            {
                let uci: String = c[i].0.clone();
                let suite: String = c[i].2.clone();
                assert(cv[i as int].0 == c@[i as int].0@);
                match jeu::examine(suite.as_str()) {
                    None => {
                        assert(classe_de(echiquier::suite_de(fen@, cv[i as int].0)->0) is None);
                        return None;
                    },
                    Some(s) => {
                        let fille: Fille = classe_fille(&s);
                        v.push(Branche { uci, fen: suite, fille });
                    },
                }
                i += 1;
            }
            Some(v)
        },
    }
}

/// Is it the starting position: White to move, nothing played, every piece at
/// home?
pub open spec fn initiale(p: echiquier::VuePosition, depart: echiquier::VuePosition) -> bool {
    p.5 == 1 && p.1 && p.4 == 0 && p.0 == depart.0
}

fn memes_pieces(a: &Vec<(u8, u8, bool)>, b: &Vec<(u8, u8, bool)>) -> (r: bool)
    ensures
        r == (a@ == b@),
{
    if a.len() != b.len() {
        return false;
    }
    let mut i: usize = 0;
    while i < a.len()
        invariant
            i <= a@.len(),
            a@.len() == b@.len(),
            forall|k: int| 0 <= k < i ==> #[trigger] a@[k] == b@[k],
        decreases a.len() - i,
    {
        if a[i].0 != b[i].0 || a[i].1 != b[i].1 || a[i].2 != b[i].2 {
            assert(a@[i as int] != b@[i as int]);
            return false;
        }
        i += 1;
    }
    assert(a@ =~= b@);
    true
}

/// Is a text the starting position? A player empties its memory there.
pub fn est_position_initiale(fen: &str) -> (r: bool)
    ensures
        r == match (
            echiquier::position_de(fen@),
            echiquier::position_de(echiquier::DEPART@),
        ) {
            (Some(p), Some(d)) => initiale(p, d),
            _ => false,
        },
{
    let depart: String = echiquier::position_initiale();
    match (echiquier::lit_position(fen), echiquier::lit_position(depart.as_str())) {
        (Some(p), Some(d)) => p.numero == 1 && p.trait_blanc && p.demi_coups == 0 && memes_pieces(
            &p.pieces,
            &d.pieces,
        ),
        _ => false,
    }
}

/// A pawn is worth 100, a knight 300, a bishop 315, a rook 500, a queen 900,
/// and a king nothing: one more piece of a colour on the board raises the
/// material lead of that colour by its worth, and lowers that of the other by
/// as much.
pub proof fn loi_valeur_d_une_piece(p: Seq<(u8, u8, bool)>, case: u8, role: u8, blanc: bool)
    requires
        1 <= role <= 6,
    ensures
        ({
            let q = p.push((case, role, blanc));
            let gain = materiel(q, blanc) - materiel(p, blanc);
            &&& role == 1 ==> gain == 100
            &&& role == 2 ==> gain == 300
            &&& role == 3 ==> gain == 315
            &&& role == 4 ==> gain == 500
            &&& role == 5 ==> gain == 900
            &&& role == 6 ==> gain == 0
            &&& materiel(q, !blanc) - materiel(p, !blanc) == -gain
        }),
{
    let q = p.push((case, role, blanc));
    lemme_valeur_prefixe(p, q, blanc, p.len() as int);
    lemme_valeur_prefixe(p, q, !blanc, p.len() as int);
    assert(q[p.len() as int] == (case, role, blanc));
    assert(q.len() == p.len() + 1);
}

/// An empty board is worth nothing to either side.
pub proof fn loi_materiel_vide(p: Seq<(u8, u8, bool)>, blanc: bool)
    requires
        p.len() == 0,
    ensures
        materiel(p, blanc) == 0,
{
}

/// The worth of the first pieces only depends on them.
proof fn lemme_valeur_prefixe(
    p: Seq<(u8, u8, bool)>,
    q: Seq<(u8, u8, bool)>,
    blanc: bool,
    n: int,
)
    requires
        n <= p.len(),
        n <= q.len(),
        forall|i: int| 0 <= i < n ==> #[trigger] p[i] == q[i],
    ensures
        valeur_camp(p, blanc, n) == valeur_camp(q, blanc, n),
    decreases n,
{
    if n > 0 {
        lemme_valeur_prefixe(p, q, blanc, n - 1);
        assert(p[n - 1] == q[n - 1]);
    }
}

/// A quiet position is worth its material lead for the side to move and one
/// hundredth of a pawn for each of its legal moves.
pub proof fn loi_mobilite(fen: Seq<char>)
    ensures
        match echiquier::position_de(fen) {
            Some(p) => valeur_materielle(fen) - p.6 == valeur_camp(p.0, p.1, p.0.len() as int)
                - valeur_camp(p.0, !p.1, p.0.len() as int),
            None => valeur_materielle(fen) == 0,
        },
{
}

/// What ends a line is worth: to the side to move, being mated `ply` half-moves
/// from the root is worth less than a hundred thousand below zero, a hundred
/// less so for each half-move; stalemate and draws are worth nothing; and at
/// depth 0 an open position is worth its material and its moves.
pub proof fn loi_valeur_des_fins(m: Materiel, fen: Seq<char>, p: echiquier::VuePosition, depth: nat, ply: int)
    requires
        echiquier::position_de(fen) == Some(p),
    ensures
        p.6 == 0 && p.7 ==> minimax(&m, fen, depth, ply) == 100 * ply - 100_000,
        p.6 == 0 && !p.7 ==> minimax(&m, fen, depth, ply) == 0,
        p.6 > 0 && (p.8 || p.4 >= 100) ==> minimax(&m, fen, depth, ply) == 0,
        p.6 > 0 && !p.8 && p.4 < 100 ==> minimax(&m, fen, 0, ply) == materiel(p.0, p.1) + p.6,
{
}

/// An open position is worth its best continuation: at least the opposite of
/// every position that a legal move leads to, and the opposite of one of them.
pub proof fn loi_meilleure_suite<E: Evaluation>(
    e: &E,
    fen: Seq<char>,
    p: echiquier::VuePosition,
    c: Seq<(Seq<char>, bool)>,
    depth: nat,
    ply: int,
    j: int,
)
    requires
        echiquier::position_de(fen) == Some(p),
        p.6 > 0,
        !p.8,
        p.4 < 100,
        echiquier::coups_de(fen) == Some(c),
        0 <= j < c.len(),
    ensures
        ({
            let v = minimax(e, fen, depth + 1, ply);
            &&& v >= -minimax(e, echiquier::suite_de(fen, c[j].0)->0, depth, ply + 1)
            &&& exists|k: int|
                0 <= k < c.len() && v == -#[trigger] minimax(
                    e,
                    echiquier::suite_de(fen, c[k].0)->0,
                    depth,
                    ply + 1,
                )
        }),
{
    lemme_suite_atteinte(e, fen, c, depth, ply + 1, c.len(), j);
    assert(minimax(e, fen, depth + 1, ply) == meilleur(e, fen, c, depth, ply + 1, c.len()));
}

proof fn lemme_suite_atteinte<E: Evaluation>(
    e: &E,
    fen: Seq<char>,
    c: Seq<(Seq<char>, bool)>,
    depth: nat,
    ply: int,
    k: nat,
    j: int,
)
    requires
        0 < k <= c.len(),
    ensures
        0 <= j < k ==> meilleur(e, fen, c, depth, ply, k) >= -minimax(
            e,
            echiquier::suite_de(fen, c[j].0)->0,
            depth,
            ply,
        ),
        exists|m: int|
            0 <= m < k && meilleur(e, fen, c, depth, ply, k) == -#[trigger] minimax(
                e,
                echiquier::suite_de(fen, c[m].0)->0,
                depth,
                ply,
            ),
    decreases k,
{
    let v = -minimax(e, echiquier::suite_de(fen, c[k - 1].0)->0, depth, ply);
    assert(fille(fen, c[k - 1].0) == echiquier::suite_de(fen, c[k - 1].0)->0);
    if k == 1 {
        assert(meilleur(e, fen, c, depth, ply, k) == v);
    } else {
        lemme_suite_atteinte(e, fen, c, depth, ply, (k - 1) as nat, j);
        let d = meilleur(e, fen, c, depth, ply, (k - 1) as nat);
        let m = choose|m: int|
            0 <= m < k - 1 && d == -#[trigger] minimax(
                e,
                echiquier::suite_de(fen, c[m].0)->0,
                depth,
                ply,
            );
        if v > d {
            assert(meilleur(e, fen, c, depth, ply, k) == v);
        } else {
            assert(meilleur(e, fen, c, depth, ply, k) == -minimax(
                e,
                echiquier::suite_de(fen, c[m].0)->0,
                depth,
                ply,
            ));
        }
    }
}

/// A position with a legal move always has one among the best, whatever gap
/// counts as equal; and a move that beats every other by more than twice the
/// gap is the only one.
pub proof fn loi_un_meilleur<E: Evaluation>(
    e: &E,
    fen: Seq<char>,
    c: Seq<(Seq<char>, bool)>,
    depth: u32,
    j: int,
    k: int,
)
    requires
        e.ecart() >= 0,
        0 <= j < c.len(),
    ensures
        exists|m: int| 0 <= m < c.len() && #[trigger] parmi_les_meilleurs(e, fen, c, depth, m),
        (forall|m: int|
            0 <= m < c.len() && m != j ==> #[trigger] valeur_coup(e, fen, c, suite_racine(depth), 1, m)
                + 2 * e.ecart() < valeur_coup(e, fen, c, suite_racine(depth), 1, j))
            ==> parmi_les_meilleurs(e, fen, c, depth, j) && (parmi_les_meilleurs(e, fen, c, depth, k)
            ==> k == j),
{
    lemme_repere_atteint(e, fen, c, depth, c.len());
    let m = choose|m: int|
        0 <= m < c.len() && #[trigger] valeur_coup(e, fen, c, suite_racine(depth), 1, m) == repere(
            e,
            fen,
            c,
            depth,
            c.len(),
        ) && repere(e, fen, c, depth, (m + 1) as nat) == repere(e, fen, c, depth, c.len());
    assert(parmi_les_meilleurs(e, fen, c, depth, m));
    loi_meilleurs_proches(e, fen, c, depth, m, j);
    if parmi_les_meilleurs(e, fen, c, depth, k) {
        loi_meilleurs_proches(e, fen, c, depth, k, j);
    }
}

proof fn lemme_repere_atteint<E: Evaluation>(
    e: &E,
    fen: Seq<char>,
    c: Seq<(Seq<char>, bool)>,
    depth: u32,
    k: nat,
)
    requires
        0 < k <= c.len(),
    ensures
        exists|m: int|
            0 <= m < k && #[trigger] valeur_coup(e, fen, c, suite_racine(depth), 1, m) == repere(
                e,
                fen,
                c,
                depth,
                k,
            ) && repere(e, fen, c, depth, (m + 1) as nat) == repere(e, fen, c, depth, k),
    decreases k,
{
    let v = valeur_coup(e, fen, c, suite_racine(depth), 1, k - 1);
    if k > 1 {
        lemme_repere_atteint(e, fen, c, depth, (k - 1) as nat);
    }
    if repere(e, fen, c, depth, k) == v {
        assert(((k - 1) + 1) as nat == k);
    } else {
        let b = repere(e, fen, c, depth, (k - 1) as nat);
        let m = choose|m: int|
            0 <= m < k - 1 && #[trigger] valeur_coup(e, fen, c, suite_racine(depth), 1, m) == b
                && repere(e, fen, c, depth, (m + 1) as nat) == b;
        assert(valeur_coup(e, fen, c, suite_racine(depth), 1, m) == repere(e, fen, c, depth, k));
    }
}

/// The worth of a move is the opposite of the worth of the position it leads
/// to, one half-move further from the root.
pub proof fn loi_valeur_d_un_coup<E: Evaluation>(
    e: &E,
    fen: Seq<char>,
    c: Seq<(Seq<char>, bool)>,
    depth: nat,
    ply: int,
    j: int,
)
    ensures
        valeur_coup(e, fen, c, depth, ply, j) + minimax(
            e,
            echiquier::suite_de(fen, c[j].0)->0,
            depth,
            ply,
        ) == 0,
{
}

/// A search of depth `n` looks at `n` half-moves, the first at the root; one of
/// depth 0 looks at one.
pub proof fn loi_profondeur_a_la_racine(depth: u32)
    ensures
        depth > 0 ==> suite_racine(depth) + 1 == depth,
        suite_racine(0) == 0,
{
}

/// A bounded search is exact whenever the value lies strictly inside its
/// bounds, and never errs on the side of the bounds that the value is on.
pub proof fn loi_encadrement(valeur: int, alpha: int, beta: int, r: int)
    requires
        encadre(valeur, alpha, beta, r),
    ensures
        alpha < valeur < beta ==> r == valeur,
        valeur <= alpha ==> r <= alpha || r >= beta,
        valeur > alpha && alpha < beta ==> r > alpha,
        valeur < beta && alpha < beta ==> r < beta,
{
}

/// The material search takes no two different values for equal.
pub proof fn loi_materiel_sans_ecart(m: Materiel)
    ensures
        m.ecart() == 0,
        forall|fen: Seq<char>| #[trigger] m.feuille(fen) == valeur_materielle(fen),
        forall|p: int| #[trigger] m.mat(p) == 100 * p - 100_000,
{
}

/// The start of a game: first move, White to move, nothing on the clock, the
/// pieces of the starting position.
pub proof fn loi_initiale(p: echiquier::VuePosition, depart: echiquier::VuePosition)
    ensures
        initiale(p, depart) ==> p.5 == 1 && p.1 && p.4 == 0 && p.0 == depart.0,
        p.5 == 1 && p.1 && p.4 == 0 && p.0 == depart.0 ==> initiale(p, depart),
{
}

/// How a search sorts a position: mated without a legal move in check, drawn
/// when stalemate or a draw rule ends the game, open otherwise.
pub proof fn loi_classe_d_une_position(fen: Seq<char>, p: echiquier::VuePosition)
    requires
        echiquier::position_de(fen) == Some(p),
    ensures
        classe_de(fen) is Some,
        classe_de(fen)->0 is Mat <==> p.6 == 0 && p.7,
        classe_de(fen)->0 is Ouverte <==> p.6 > 0 && !p.8 && p.4 < 100,
{
}

/// A move that a search gives is legal, and when no gap counts as equal no
/// legal move is worth more.
pub proof fn loi_coup_optimal<E: Evaluation>(
    e: &E,
    fen: Seq<char>,
    depth: u32,
    uci: Seq<char>,
    c: Seq<(Seq<char>, bool)>,
    k: int,
)
    requires
        e.ecart() == 0,
        echiquier::coups_de(fen) == Some(c),
        0 <= k < c.len(),
        optimal(e, fen, depth, uci),
    ensures
        legal(fen, uci),
        exists|j: int|
            0 <= j < c.len() && c[j].0 == uci && #[trigger] valeur_coup(
                e,
                fen,
                c,
                suite_racine(depth),
                1,
                k,
            ) <= #[trigger] valeur_coup(e, fen, c, suite_racine(depth), 1, j),
{
    let j = choose|j: int| #[trigger] parmi_les_meilleurs(e, fen, c, depth, j) && c[j].0 == uci;
    loi_meilleurs_exacts(e, fen, c, depth, j);
    assert(valeur_coup(e, fen, c, suite_racine(depth), 1, k) <= valeur_coup(
        e,
        fen,
        c,
        suite_racine(depth),
        1,
        j,
    ));
    assert(c[j].0 == uci);
}

/// A position has a move when it announces one; a text that is no position has
/// none.
pub proof fn loi_a_un_coup(fen: Seq<char>)
    ensures
        match echiquier::position_de(fen) {
            Some(p) => a_un_coup(fen) <==> p.6 > 0,
            None => !a_un_coup(fen),
        },
{
}

/// A material player gives a best move at its depth.
pub proof fn loi_joueur_materiel(b: MaterialBot, fen: Seq<char>, u: Seq<char>)
    ensures
        b.donne(fen, u) <==> optimal(&Materiel {  }, fen, b.depth, u),
        !b.defaille(fen),
{
}

/// A random player gives any legal move.
pub proof fn loi_joueur_au_hasard(b: RandomBot, fen: Seq<char>, u: Seq<char>)
    ensures
        b.donne(fen, u) <==> legal(fen, u),
        !b.defaille(fen),
{
}

/// A network player gives a best move at its depth, one half-move at least.
pub proof fn loi_joueur_reseau<E: Evaluation>(b: NetBot<E>, fen: Seq<char>, u: Seq<char>)
    ensures
        b.depth >= 1 ==> (b.donne(fen, u) <==> optimal(&b.net, fen, b.depth, u)),
        b.depth == 0 ==> (b.donne(fen, u) <==> optimal(&b.net, fen, 1, u)),
        !b.defaille(fen),
{
}

} // verus!
