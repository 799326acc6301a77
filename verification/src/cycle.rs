//! The cycle of a training: which games it plays, in which order it learns
//! from them, and what comes due at its end.
use crate::bots;
use crate::checkpoints::TrainState;
use crate::graines;
use crate::nn::SchemaFeatures;
use crate::reels;
use crate::texte;
use rand::rngs::StdRng;
use rand::seq::SliceRandom as _;
use vstd::prelude::*;

verus! {

// ---------------------------------------------------------------------------
// Seeds
// ---------------------------------------------------------------------------

/// Seed of game `i` of a cycle that begins after `games` games.
pub open spec fn graine_de_partie(seed: u64, games: u64, i: u64) -> u64 {
    seed.wrapping_add(games).wrapping_add(i)
}

/// Seeds of the games of a cycle.
pub fn graines_du_cycle(seed: u64, games: u64, n: usize) -> (r: Vec<u64>)
    ensures
        r@.len() == n,
        forall|i: int|
            0 <= i < n ==> #[trigger] r@[i] == graine_de_partie(seed, games, i as u64),
{
    let mut r: Vec<u64> = Vec::new();
    while r.len() < n
        invariant
            r@.len() <= n,
            forall|i: int|
                0 <= i < r@.len() ==> #[trigger] r@[i] == graine_de_partie(seed, games, i as u64),
        decreases n - r.len(),
    {
        let i: usize = r.len();
        r.push(seed.wrapping_add(games).wrapping_add(i as u64));
    }
    r
}

/// A training that is taken up after `k` games plays the games that it would
/// have played without the break.
pub proof fn loi_reprise_exacte(seed: u64, games: u64, k: u64, i: u64)
    requires
        games + k <= u64::MAX,
        k + i <= u64::MAX,
    ensures
        graine_de_partie(seed, (games + k) as u64, i) == graine_de_partie(
            seed,
            games,
            (k + i) as u64,
        ),
{
}

/// Seeds of the other draws of a cycle: the order of the lessons, the replay,
/// the games against chance, the games against material, the rating, the
/// duel with the champion.
#[derive(Clone, Copy, Debug, PartialEq, Eq, Structural)]
pub struct GrainesDeCycle {
    pub melange: u64,
    pub rejeu: u64,
    pub hasard: u64,
    pub materiel: u64,
    pub elo: u64,
    pub duel: u64,
}

/// Seeds of the other draws of a cycle, given the state of the training at its
/// beginning. The rating and the duel come when the cycle has been counted.
pub fn graines_de_travail(seed: u64, etat: &TrainState) -> (r: GrainesDeCycle)
    ensures
        r.melange == graines::melange(seed.wrapping_add(etat.cycles), 0x5AFF1E),
        r.rejeu == graines::melange(seed.wrapping_add(etat.cycles), 0x8E3E0),
        r.hasard == graines::melange(seed.wrapping_add(etat.games), 0xA1EA),
        r.materiel == graines::melange(seed.wrapping_add(etat.games), 0x0A7E),
        r.elo == graines::melange(seed.wrapping_add(etat.cycles.wrapping_add(1)), 0xE10),
        r.duel == graines::melange(seed.wrapping_add(etat.cycles.wrapping_add(1)), 0x6A7E),
{
    let c: u64 = seed.wrapping_add(etat.cycles);
    let g: u64 = seed.wrapping_add(etat.games);
    let s: u64 = seed.wrapping_add(etat.cycles.wrapping_add(1));
    GrainesDeCycle {
        melange: graines::derive_graine(c, 0x5AFF1E),
        rejeu: graines::derive_graine(c, 0x8E3E0),
        hasard: graines::derive_graine(g, 0xA1EA),
        materiel: graines::derive_graine(g, 0x0A7E),
        elo: graines::derive_graine(s, 0xE10),
        duel: graines::derive_graine(s, 0x6A7E),
    }
}

/// Seed of the draw of a starting position, from the seed of its game.
pub fn graine_du_depart(partie: u64) -> (r: u64)
    ensures
        r == graines::melange(partie, 0xDE9A47),
{
    graines::derive_graine(partie, 0xDE9A47)
}

// ---------------------------------------------------------------------------
// Lessons
// ---------------------------------------------------------------------------

/// Positions of a lesson.
pub const MINIBATCH: usize = 256;

/// Shuffles a list, by `SliceRandom::shuffle` of rand. Claimed: the list holds
/// the same entries as before; their order is left to chance.
#[verifier::external_body]
fn melange(v: &mut Vec<usize>, rng: &mut StdRng)
    ensures
        final(v)@.to_multiset() == old(v)@.to_multiset(),
{
    v.shuffle(rng);
}

/// The numbers below `n`, in order.
pub open spec fn suite(n: nat) -> Seq<usize> {
    Seq::new(n, |i: int| i as usize)
}

/// The numbers below `n`, in any order.
pub open spec fn permutation(v: Seq<usize>, n: nat) -> bool {
    v.to_multiset() == suite(n).to_multiset()
}

/// The lesson of that number in a list.
pub open spec fn lot_de(v: Seq<usize>, k: int) -> Seq<usize> {
    v.subrange(
        k * MINIBATCH,
        if (k + 1) * MINIBATCH < v.len() {
            (k + 1) * MINIBATCH
        } else {
            v.len() as int
        },
    )
}

/// How many lessons a number of positions makes, the last one cut short where
/// it must be.
pub open spec fn n_lots(n: int) -> int {
    (n + 255) / 256
}

/// Cuts a list into lessons.
pub fn lots(v: &Vec<usize>) -> (r: Vec<Vec<usize>>)
    requires
        v@.len() <= usize::MAX - 256,
    ensures
        r@.len() == n_lots(v@.len() as int),
        forall|k: int| 0 <= k < r@.len() ==> (#[trigger] r@[k])@ == lot_de(v@, k),
{
    let mut r: Vec<Vec<usize>> = Vec::new();
    let n: usize = v.len();
    let mut debut: usize = 0;
    while debut < n
        invariant
            n == v@.len(),
            n <= usize::MAX - 256,
            debut <= n || debut < n + 256,
            debut == r@.len() * MINIBATCH,
            r@.len() <= n_lots(n as int),
            debut >= n ==> r@.len() == n_lots(n as int),
            forall|k: int| 0 <= k < r@.len() ==> (#[trigger] r@[k])@ == lot_de(v@, k),
        decreases n + 256 - debut,
    {
        let fin: usize = if debut + MINIBATCH < n {
            debut + MINIBATCH
        } else {
            n
        };
        let mut lot: Vec<usize> = Vec::new();
        let mut i: usize = debut;
        assert(lot@ =~= v@.subrange(debut as int, debut as int));
        while i < fin
            invariant
                debut <= i <= fin <= v@.len(),
                lot@ == v@.subrange(debut as int, i as int),
            decreases fin - i,
        {
            lot.push(v[i]);
            i += 1;
            assert(lot@ =~= v@.subrange(debut as int, i as int));
        }
        let ghost k = r@.len() as int;
        assert(lot@ =~= lot_de(v@, k));
        r.push(lot);
        debut += MINIBATCH;
    }
    r
}

/// The lessons of a cycle: each of its `n` positions once, in an order drawn
/// from the seed.
pub fn lots_du_cycle(n: usize, graine: u64) -> (r: Vec<Vec<usize>>)
    requires
        n <= usize::MAX - 256,
    ensures
        r@.len() == n_lots(n as int),
        exists|v: Seq<usize>|
            #[trigger] permutation(v, n as nat) && v.len() == n && forall|k: int|
                0 <= k < r@.len() ==> (#[trigger] r@[k])@ == lot_de(v, k),
{
    let mut v: Vec<usize> = bots::indices(n);
    assert(v@ =~= suite(n as nat));
    let mut rng: StdRng = bots::generateur(graine);
    melange(&mut v, &mut rng);
    proof {
        v@.to_multiset_ensures();
        suite(n as nat).to_multiset_ensures();
        assert(permutation(v@, n as nat));
    }
    lots(&v)
}

/// Whatever the order of the lessons, each position is learnt once: it has a
/// place in the list, and no other.
pub proof fn loi_chaque_position_une_fois(v: Seq<usize>, n: nat, i: usize)
    requires
        n <= usize::MAX,
        permutation(v, n),
        i < n,
    ensures
        v.len() == n,
        v.contains(i),
        forall|a: int, b: int| 0 <= a < v.len() && 0 <= b < v.len() && #[trigger] v[a] == i
            && #[trigger] v[b] == i ==> a == b,
{
    let s = suite(n);
    v.to_multiset_ensures();
    s.to_multiset_ensures();
    assert(s[i as int] == i);
    assert(s.contains(i));
    assert(s.to_multiset().count(i) > 0);
    assert(s.no_duplicates()) by {
        assert forall|a: int, b: int| 0 <= a < s.len() && 0 <= b < s.len() && a != b implies s[a]
            != s[b] by {}
    }
    s.lemma_multiset_has_no_duplicates();
    assert(s.to_multiset().contains(i));
    assert(v.to_multiset().count(i) <= 1) by {
        assert(s.to_multiset().count(i) == 1);
    }
    assert forall|a: int, b: int|
        0 <= a < v.len() && 0 <= b < v.len() && #[trigger] v[a] == i && #[trigger] v[b]
            == i implies a == b by {
        if a < b {
            lemme_deux_fois(v, a, b);
        } else if b < a {
            lemme_deux_fois(v, b, a);
        }
    }
}

proof fn lemme_deux_fois(v: Seq<usize>, a: int, b: int)
    requires
        0 <= a < b < v.len(),
        v[a] == v[b],
    ensures
        v.to_multiset().count(v[a]) >= 2,
{
    v.to_multiset_ensures();
    let w = v.remove(b);
    w.to_multiset_ensures();
    assert(w[a] == v[a]);
    assert(w.contains(v[a]));
    assert(w.to_multiset().count(v[a]) > 0);
    assert(w.to_multiset() =~= v.to_multiset().remove(v[b]));
}

/// How many lessons are drawn from the memory after `n` new positions: as many
/// as those made, once the memory holds enough for one.
pub fn lots_de_rejeu(n: usize, memoire: usize) -> (r: usize)
    requires
        n <= usize::MAX - 256,
    ensures
        r == if memoire >= MINIBATCH {
            n_lots(n as int)
        } else {
            0
        },
{
    if memoire >= MINIBATCH {
        (n + 255) / 256
    } else {
        0
    }
}

// ---------------------------------------------------------------------------
// Who teaches
// ---------------------------------------------------------------------------

/// Who gives the value to learn in a game.
#[derive(Clone, Copy, Debug, PartialEq, Eq, Structural)]
pub enum Etiqueteur {
    /// The network alone, one half-move ahead.
    UnPli,
    /// The search of the network.
    Eleve,
    /// The search of another network.
    Mentor,
    /// An outside engine.
    Oracle,
}

/// Who gives the value to learn: with search on, the engine where one is asked
/// for and answers, the pupil where it does not answer, else the mentor where
/// there is one, else the pupil.
pub fn etiqueteur(search_nodes: u64, oracle: bool, moteur_pret: bool, mentor: bool) -> (r:
    Etiqueteur)
    ensures
        r == if search_nodes == 0 {
            Etiqueteur::UnPli
        } else if oracle {
            if moteur_pret {
                Etiqueteur::Oracle
            } else {
                Etiqueteur::Eleve
            }
        } else if mentor {
            Etiqueteur::Mentor
        } else {
            Etiqueteur::Eleve
        },
{
    if search_nodes == 0 {
        Etiqueteur::UnPli
    } else if oracle {
        if moteur_pret {
            Etiqueteur::Oracle
        } else {
            Etiqueteur::Eleve
        }
    } else if mentor {
        Etiqueteur::Mentor
    } else {
        Etiqueteur::Eleve
    }
}

/// Is the number above nought?
pub open spec fn positif(bits: u32) -> bool {
    !reels::nan(bits) && reels::cle(bits) > 0
}

/// Do the games start from drawn positions? With search on, and a share above
/// nought (`f32` bits) for one of the families.
pub fn utilise_departs(search_nodes: u64, ouvertures: u32, finales: u32, transition: u32) -> (r:
    bool)
    ensures
        r == (search_nodes > 0 && (positif(ouvertures) || positif(finales) || positif(transition))),
{
    search_nodes > 0 && (est_positif(ouvertures) || est_positif(finales) || est_positif(transition))
}

fn est_positif(bits: u32) -> (r: bool)
    ensures
        r == positif(bits),
{
    !reels::est_nan(bits) && reels::cle_f32(bits) > 0
}

/// Can a network serve as an anchor of another: same layers, same features?
pub fn ancre_compatible(
    a: &Vec<usize>,
    schema_a: SchemaFeatures,
    b: &Vec<usize>,
    schema_b: SchemaFeatures,
) -> (r: bool)
    ensures
        r == (a@ == b@ && schema_a == schema_b),
{
    if a.len() != b.len() || schema_a != schema_b {
        return false;
    }
    let mut i: usize = 0;
    while i < a.len()
        invariant
            a@.len() == b@.len(),
            i <= a.len(),
            forall|j: int| 0 <= j < i ==> a@[j] == b@[j],
        decreases a.len() - i,
    {
        if a[i] != b[i] {
            return false;
        }
        i += 1;
    }
    assert(a@ =~= b@);
    true
}

// ---------------------------------------------------------------------------
// The end of a cycle
// ---------------------------------------------------------------------------

/// `f64` bits of nine hundred.
pub const PLAFOND: u64 = 0x408c_2000_0000_0000;

/// The seconds that a cycle counts for, from those that went by (`f64` bits of
/// a positive number): no more than nine hundred, so that a machine asleep in
/// the middle of a cycle adds no hours that were not spent.
pub fn duree_creditee(brute: u64) -> (r: u64)
    requires
        brute <= 0x7ff0_0000_0000_0000,
    ensures
        r == if brute > PLAFOND {
            PLAFOND
        } else {
            brute
        },
{
    if brute > PLAFOND {
        PLAFOND
    } else {
        brute
    }
}

/// The state of the training after a cycle. `trained_secs` is the time spent
/// by then.
pub fn apres_cycle(etat: &TrainState, trained_secs: u64, games: u64, positions: u64) -> (r:
    TrainState)
    requires
        etat.games + games <= u64::MAX,
        etat.positions + positions <= u64::MAX,
        etat.cycles < u64::MAX,
    ensures
        r.trained_secs == trained_secs,
        r.games == etat.games + games,
        r.positions == etat.positions + positions,
        r.cycles == etat.cycles + 1,
{
    TrainState {
        trained_secs,
        games: etat.games + games,
        positions: etat.positions + positions,
        cycles: etat.cycles + 1,
    }
}

/// Is the rating measured at the end of this cycle? In the first cycle of the
/// process, then in every cycle whose number is a multiple of `elo_every`.
pub fn elo_du(elo_every: u64, cycles_locaux: u64, cycles: u64) -> (r: bool)
    ensures
        r == (elo_every > 0 && (cycles_locaux == 1 || cycles % elo_every == 0)),
{
    elo_every > 0 && (cycles_locaux == 1 || cycles % elo_every == 0)
}

/// Does the network meet the champion at the end of this cycle?
pub fn couperet_du(search_nodes: u64, gate_every: u64, cycles: u64) -> (r: bool)
    ensures
        r == (search_nodes > 0 && gate_every > 0 && cycles % gate_every == 0),
{
    search_nodes > 0 && gate_every > 0 && cycles % gate_every == 0
}

/// How the network becomes the champion, or meets the one that there is.
#[derive(Clone, Copy, Debug, PartialEq, Eq, Structural)]
pub enum Couperet {
    /// There is no champion: the network takes the place.
    PlaceLibre,
    /// The file of the champion cannot be read: the network takes the place.
    Secours,
    /// The two play a duel.
    Duel,
}

/// What the test of a network begins with.
pub fn couperet(champion_present: bool, champion_lu: bool) -> (r: Couperet)
    ensures
        r == if !champion_present {
            Couperet::PlaceLibre
        } else if !champion_lu {
            Couperet::Secours
        } else {
            Couperet::Duel
        },
{
    if !champion_present {
        Couperet::PlaceLibre
    } else if !champion_lu {
        Couperet::Secours
    } else {
        Couperet::Duel
    }
}

/// What becomes of a measure of the rating.
#[derive(Clone, Copy, Debug, PartialEq, Eq, Structural)]
pub enum SortMesure {
    /// No anchor was played.
    Vide,
    /// Every score is stuck to a bound.
    Degeneree,
    /// The rating can be fitted and published.
    Publiee,
}

/// What becomes of a measure, given the anchors that count and whether one of
/// their scores says something.
pub fn sort_de_mesure(pour_le_fit: usize, informative: bool) -> (r: SortMesure)
    ensures
        r == if pour_le_fit == 0 {
            SortMesure::Vide
        } else if !informative {
            SortMesure::Degeneree
        } else {
            SortMesure::Publiee
        },
{
    if pour_le_fit == 0 {
        SortMesure::Vide
    } else if !informative {
        SortMesure::Degeneree
    } else {
        SortMesure::Publiee
    }
}

// ---------------------------------------------------------------------------
// Logs
// ---------------------------------------------------------------------------

/// Does a text hold another one?
pub open spec fn contient(s: Seq<char>, m: Seq<char>) -> bool {
    exists|i: int| 0 <= i <= s.len() - m.len() && #[trigger] s.subrange(i, i + m.len()) == m
}

fn contient_texte(s: &Vec<char>, m: &Vec<char>) -> (r: bool)
    ensures
        r == contient(s@, m@),
{
    let n: usize = s.len();
    let k: usize = m.len();
    if k > n {
        return false;
    }
    let dernier: usize = n - k;
    let mut i: usize = 0;
    while i < dernier
        invariant
            n == s@.len(),
            k == m@.len(),
            dernier == n - k,
            i <= dernier,
            forall|j: int| 0 <= j < i ==> #[trigger] s@.subrange(j, j + m@.len()) != m@,
        decreases dernier - i,
    {
        let e: Vec<char> = texte::extrait(s, i, i + k);
        if texte::memes(&e, m) {
            return true;
        }
        i += 1;
    }
    let e: Vec<char> = texte::extrait(s, dernier, n);
    let fin: bool = texte::memes(&e, m);
    assert(e@ == s@.subrange(dernier as int, dernier + m@.len()));
    assert(!fin ==> forall|j: int|
        0 <= j <= s@.len() - m@.len() ==> #[trigger] s@.subrange(j, j + m@.len()) != m@);
    fin
}

/// Must the mark of a change be written? A mark is written once: not where the
/// log of the changes already holds its name.
pub fn marqueur_a_poser(journal: Option<&str>, label: &str) -> (r: bool)
    ensures
        r == match journal {
            Some(j) => !contient(j@, label@),
            None => true,
        },
{
    match journal {
        Some(j) => !contient_texte(&texte::caracteres(j), &texte::caracteres(label)),
        None => true,
    }
}

/// Mark of a duel with the champion: the games and how often.
pub fn marqueur_du_couperet(gate_games: u64, gate_every: u64) -> (r: String)
    ensures
        r@ == "couperet "@ + texte::decimal(gate_games as nat) + "x"@ + texte::decimal(
            gate_every as nat,
        ),
{
    let mut t: Vec<char> = texte::caracteres("couperet ");
    texte::ajoute(&mut t, &texte::ecrit_naturel(gate_games));
    texte::ajoute_texte(&mut t, "x");
    texte::ajoute(&mut t, &texte::ecrit_naturel(gate_every));
    texte::texte(&t)
}

/// What is added to a log: the line, after the heading where the file is new.
pub open spec fn ajout_de(neuf: bool, entete: Seq<char>, ligne: Seq<char>) -> Seq<char> {
    (if neuf {
        entete.push('\n')
    } else {
        Seq::empty()
    }) + ligne.push('\n')
}

/// What is added to a log.
pub fn ajout_csv(neuf: bool, entete: &str, ligne: &str) -> (r: String)
    ensures
        r@ == ajout_de(neuf, entete@, ligne@),
{
    let mut t: Vec<char> = Vec::new();
    if neuf {
        texte::ajoute_texte(&mut t, entete);
        t.push('\n');
    }
    texte::ajoute_texte(&mut t, ligne);
    t.push('\n');
    assert(t@ =~= ajout_de(neuf, entete@, ligne@));
    texte::texte(&t)
}

/// Once a mark is written, it is not written again.
pub proof fn loi_marqueur_unique(journal: Seq<char>, heures: Seq<char>, label: Seq<char>, neuf: bool)
    ensures
        contient(
            journal + ajout_de(neuf, "elapsed_hours,label"@, heures + label),
            label,
        ),
{
    let ajout = ajout_de(neuf, "elapsed_hours,label"@, heures + label);
    let s = journal + ajout;
    let i = s.len() - 1 - label.len();
    assert(s.subrange(i, i + label.len()) =~= label);
}

// ---------------------------------------------------------------------------
// Laws of a cycle
// ---------------------------------------------------------------------------

/// Seeds of games follow one another: the game of rank `i` of a cycle has the
/// seed of the run, and one more for every game played before it.
pub proof fn loi_graines_consecutives(seed: u64, games: u64, i: u64)
    requires
        seed + games + i < u64::MAX,
    ensures
        graine_de_partie(seed, games, i) == seed + games + i,
        graine_de_partie(seed, games, (i + 1) as u64) == graine_de_partie(seed, games, i) + 1,
{
}

/// Batches cut the list without a gap: all hold 256 places but the last, which
/// holds what is left, and each place stands in its batch in order.
pub proof fn loi_lots(v: Seq<usize>, k: int, i: int)
    requires
        0 <= k < n_lots(v.len() as int),
        0 <= i < lot_de(v, k).len(),
    ensures
        (n_lots(v.len() as int) - 1) * 256 < v.len() <= n_lots(v.len() as int) * 256,
        k + 1 < n_lots(v.len() as int) ==> lot_de(v, k).len() == 256,
        k + 1 == n_lots(v.len() as int) ==> lot_de(v, k).len() == v.len() - 256 * k,
        0 < lot_de(v, k).len() <= 256,
        lot_de(v, k)[i] == v[256 * k + i],
{
}

/// An empty list has no batch.
pub proof fn loi_sans_lot()
    ensures
        n_lots(0) == 0,
        n_lots(1) == 1,
        n_lots(256) == 1,
        n_lots(257) == 2,
{
}

/// A number is positive from the smallest one above zero on; zero of either
/// sign and no number are not.
pub proof fn loi_positif(bits: u32)
    ensures
        positif(bits) <==> 0 < bits <= 0x7f80_0000,
{
    reels::loi_pas_un_nombre(bits);
}

/// A text holds another one exactly when it is something, the other one, and
/// something.
pub proof fn loi_contient(a: Seq<char>, m: Seq<char>, b: Seq<char>, s: Seq<char>)
    ensures
        contient(a + m + b, m),
        m.len() == 0 ==> contient(s, m),
        s.len() < m.len() ==> !contient(s, m),
        s.len() == m.len() ==> (contient(s, m) <==> s == m),
{
    let t = a + m + b;
    assert(t.subrange(a.len() as int, a.len() + m.len() as int) =~= m);
    assert(s.subrange(0, 0) =~= Seq::<char>::empty());
    if m.len() == 0 {
        assert(m =~= s.subrange(0, 0int + m.len()));
    }
    if s.len() == m.len() {
        assert(s.subrange(0, 0int + m.len()) =~= s);
    }
}

/// A new record starts with its header; every line is ended, the header too.
pub proof fn loi_ajout(entete: Seq<char>, ligne: Seq<char>)
    ensures
        ajout_de(true, entete, ligne) == entete.push('\n') + ajout_de(false, entete, ligne),
        ajout_de(false, entete, ligne) == ligne.push('\n'),
{
    assert(ajout_de(false, entete, ligne) =~= ligne.push('\n'));
}

/// A cycle adds its games and positions to the state, counts one more cycle
/// and sets the time trained.
pub proof fn loi_apres_cycle(etat: TrainState, secs: u64, games: u64, positions: u64, r: TrainState)
    requires
        call_ensures(apres_cycle, (&etat, secs, games, positions), r),
    ensures
        r.games - etat.games == games,
        r.positions - etat.positions == positions,
        r.cycles - etat.cycles == 1,
        r.trained_secs == secs,
{
}

/// Time credited to a cycle is the time spent, up to nine hundred seconds.
pub proof fn loi_duree_creditee(brute: u64, r: u64)
    requires
        call_ensures(duree_creditee, (brute,), r),
    ensures
        r <= 0x408c_2000_0000_0000,
        brute <= 0x408c_2000_0000_0000 ==> r == brute,
        r == brute || (r == 0x408c_2000_0000_0000 && brute > r),
{
}

/// A rating measure is due after the first cycle of a run and every so many
/// cycles; never when the period is zero.
pub proof fn loi_elo_du(elo_every: u64, locaux: u64, cycles: u64, r: bool)
    requires
        call_ensures(elo_du, (elo_every, locaux, cycles), r),
    ensures
        elo_every == 0 ==> !r,
        elo_every > 0 && locaux == 1 ==> r,
        elo_every > 0 && locaux != 1 ==> (r <==> cycles % elo_every == 0),
{
}

/// The duel with the champion is due every so many cycles of a search
/// training; never when the period or the search is zero.
pub proof fn loi_couperet_du(nodes: u64, every: u64, cycles: u64, r: bool)
    requires
        call_ensures(couperet_du, (nodes, every, cycles), r),
    ensures
        nodes == 0 || every == 0 ==> !r,
        nodes > 0 && every > 0 ==> (r <==> cycles % every == 0),
{
}

/// A duel is played only against a champion that is there and can be read; an
/// empty place is taken, an unreadable champion is replaced.
pub proof fn loi_couperet(present: bool, lu: bool, r: Couperet)
    requires
        call_ensures(couperet, (present, lu), r),
    ensures
        r is Duel <==> present && lu,
        r is Secours <==> present && !lu,
        r is PlaceLibre <==> !present,
{
}

/// A measure is published when something is left to fit and one of its scores
/// informs.
pub proof fn loi_sort_de_mesure(n: usize, informative: bool, r: SortMesure)
    requires
        call_ensures(sort_de_mesure, (n, informative), r),
    ensures
        r is Publiee <==> n > 0 && informative,
        r is Vide <==> n == 0,
        r is Degeneree <==> n > 0 && !informative,
{
}

/// Replay adds as many batches as the cycle has, once the memory holds one
/// batch of 256 positions.
pub proof fn loi_lots_de_rejeu(n: usize, memoire: usize, r: usize)
    requires
        call_ensures(lots_de_rejeu, (n, memoire), r),
    ensures
        memoire < 256 ==> r == 0,
        memoire >= 256 ==> r * 256 >= n && (r - 1) * 256 < n,
{
}

/// Who labels: one half-move ahead without a search; with one, the engine when
/// it is asked for and ready, the pupil when it is asked for and not ready; a
/// mentor labels only where no engine is asked for.
pub proof fn loi_etiqueteur(nodes: u64, oracle: bool, pret: bool, mentor: bool, r: Etiqueteur)
    requires
        call_ensures(etiqueteur, (nodes, oracle, pret, mentor), r),
    ensures
        r is UnPli <==> nodes == 0,
        r is Oracle <==> nodes > 0 && oracle && pret,
        r is Mentor <==> nodes > 0 && !oracle && mentor,
        r is Eleve <==> nodes > 0 && ((oracle && !pret) || (!oracle && !mentor)),
{
}

/// Prepared starts are used by a search training that gives one of the three
/// kinds a share above zero.
pub proof fn loi_utilise_departs(nodes: u64, a: u32, b: u32, c: u32, r: bool)
    requires
        call_ensures(utilise_departs, (nodes, a, b, c), r),
    ensures
        nodes == 0 ==> !r,
        nodes > 0 && 0 < a <= 0x7f80_0000 ==> r,
        nodes > 0 && 0 < b <= 0x7f80_0000 ==> r,
        nodes > 0 && 0 < c <= 0x7f80_0000 ==> r,
        a == 0 && b == 0 && c == 0 ==> !r,
{
    loi_positif(a);
    loi_positif(b);
    loi_positif(c);
}

/// Two networks can be compared when their layers and their schemas are the
/// same.
pub proof fn loi_ancre_compatible(
    a: Vec<usize>,
    sa: SchemaFeatures,
    b: Vec<usize>,
    sb: SchemaFeatures,
    r: bool,
)
    requires
        call_ensures(ancre_compatible, (&a, sa, &b, sb), r),
    ensures
        r <==> a@ == b@ && sa == sb,
{
}

/// The streams of a cycle are set apart by their selectors: the shuffle, the
/// replay, the rating and the duel follow the cycles, the two kinds of
/// opponents follow the games.
pub proof fn loi_graines_de_travail(seed: u64, etat: TrainState, r: GrainesDeCycle)
    requires
        call_ensures(graines_de_travail, (seed, &etat), r),
        seed + etat.cycles < u64::MAX,
        seed + etat.games < u64::MAX,
    ensures
        r.melange == graines::melange((seed + etat.cycles) as u64, 0x5A_FF1E),
        r.rejeu == graines::melange((seed + etat.cycles) as u64, 0x8_E3E0),
        r.elo == graines::melange((seed + etat.cycles + 1) as u64, 0xE10),
        r.duel == graines::melange((seed + etat.cycles + 1) as u64, 0x6A7E),
        r.hasard == graines::melange((seed + etat.games) as u64, 0xA1EA),
        r.materiel == graines::melange((seed + etat.games) as u64, 0x0A7E),
        r.melange != r.rejeu && r.elo != r.duel && r.hasard != r.materiel,
{
    if r.melange == r.rejeu {
        graines::loi_selecteurs_distincts((seed + etat.cycles) as u64, 0x5A_FF1E, 0x8_E3E0);
    }
    if r.elo == r.duel {
        graines::loi_selecteurs_distincts((seed + etat.cycles + 1) as u64, 0xE10, 0x6A7E);
    }
    if r.hasard == r.materiel {
        graines::loi_selecteurs_distincts((seed + etat.games) as u64, 0xA1EA, 0x0A7E);
    }
}

/// A marker is set once: when the record is missing or does not hold it.
pub proof fn loi_marqueur_a_poser(journal: Option<&str>, label: &str, r: bool)
    requires
        call_ensures(marqueur_a_poser, (journal, label), r),
    ensures
        journal is None ==> r,
        journal is Some ==> r == !contient(journal->0@, label@),
        journal is Some && (exists|a: Seq<char>, b: Seq<char>|
            journal->0@ == #[trigger] ((a + label@) + b)) ==> !r,
{
    if journal is Some && (exists|a: Seq<char>, b: Seq<char>|
        journal->0@ == #[trigger] ((a + label@) + b)) {
        let (a, b) = choose|a: Seq<char>, b: Seq<char>|
            journal->0@ == #[trigger] ((a + label@) + b);
        loi_contient(a, label@, b, label@);
    }
}

} // verus!
