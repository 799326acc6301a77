//! Positions for teaching and for comparing networks.
use crate::arena;
use crate::bots;
use crate::bots::{Bot, RandomBot};
use crate::departs;
use crate::departs::Famille;
use crate::echiquier;
use crate::jeu;
use crate::jeu::Jeu;
use crate::nn::SchemaFeatures;
use crate::reels;
use crate::texte;
use rand::rngs::StdRng;
use vstd::prelude::*;

verus! {

// ---------------------------------------------------------------------------
// Random walks
// ---------------------------------------------------------------------------

/// Half-moves of a random walk.
pub const MAX_PLIS: usize = 120;

/// The family of positions that a walk starts from: two in five start from
/// the book or from an endgame.
pub fn famille_de_graine(graine: u64) -> (r: Famille)
    ensures
        r == if graine % 5 == 3 {
            Famille::Ouverture
        } else if graine % 5 == 4 {
            Famille::Finale
        } else {
            Famille::Initiale
        },
{
    if graine % 5 == 3 {
        Famille::Ouverture
    } else if graine % 5 == 4 {
        Famille::Finale
    } else {
        Famille::Initiale
    }
}

/// Seeds of the start and of the moves of a walk.
pub fn graines_de_promenade(graine: u64) -> (r: (u64, u64))
    ensures
        r.0 == graine.wrapping_mul(0x9E37_79B9_7F4A_7C15),
        r.1 == graine.wrapping_add(0xA5A5_A5A5),
{
    (graine.wrapping_mul(0x9E37_79B9_7F4A_7C15), graine.wrapping_add(0xA5A5_A5A5))
}

/// A walk stops here: no move, too little material, or fifty moves without a
/// capture or a pawn move.
pub open spec fn arret(fen: Seq<char>) -> bool {
    match jeu::etat_de(fen) {
        Some(e) => e.mat_spec() || e.pat_spec() || e.nulle_spec(),
        None => true,
    }
}

/// The second position follows from the first by a legal move.
pub open spec fn suit(a: Seq<char>, b: Seq<char>) -> bool {
    exists|u: Seq<char>|
        #[trigger] bots::legal(a, u) && echiquier::suite_de(a, u) == Some(b)
}

/// Positions that follow one another by legal moves, none of which stops the
/// walk but the last.
pub open spec fn promenade(v: Seq<Seq<char>>) -> bool {
    forall|k: int|
        0 <= k < v.len() - 1 ==> #[trigger] suit(v[k], v[k + 1]) && !arret(v[k])
}

/// The positions of a random walk from a position: until it stops, or for
/// `MAX_PLIS` half-moves.
pub fn partie_positions(depart: &str, bot: &mut RandomBot) -> (r: Vec<String>)
    ensures
        1 <= r@.len() <= MAX_PLIS + 1,
        r@[0]@ == depart@,
        promenade(texte::vues_textes(r@)),
        r@.len() == MAX_PLIS + 1 || arret(r@.last()@),
{
    let mut r: Vec<String> = Vec::new();
    let mut fen: String = depart.to_string();
    r.push(fen.clone());
    assert(promenade(texte::vues_textes(r@)));
    let mut n: usize = 0;
    while n < MAX_PLIS
        invariant
            n <= MAX_PLIS,
            r@.len() == n + 1,
            r@[0]@ == depart@,
            r@.last()@ == fen@,
            promenade(texte::vues_textes(r@)),
        decreases MAX_PLIS - n,
    {
        let fini: bool = match jeu::examine(fen.as_str()) {
            Some(e) => e.mat() || e.pat() || e.nulle(),
            None => true,
        };
        if fini {
            return r;
        }
        let coup: Option<String> = bot.choisit(fen.as_str());
        match coup {
            None => {
                return r;
            },
            Some(u) => match echiquier::apres_coup(fen.as_str(), u.as_str()) {
                None => {
                    return r;
                },
                Some(f) => {
                    let ghost v0 = texte::vues_textes(r@);
                    proof {
                        assert(bots::legal(fen@, u@));
                        assert(suit(fen@, f@));
                        assert(v0[n as int] == fen@);
                    }
                    fen = f;
                    r.push(fen.clone());
                    n += 1;
                    proof {
                        let v = texte::vues_textes(r@);
                        assert(v =~= v0.push(fen@));
                        assert forall|k: int| 0 <= k < v.len() - 1 implies #[trigger] suit(
                            v[k],
                            v[k + 1],
                        ) && !arret(v[k]) by {
                            if k < v0.len() - 1 {
                                assert(suit(v0[k], v0[k + 1]));
                            }
                        }
                    }
                },
            },
        }
    }
    r
}

// ---------------------------------------------------------------------------
// Games of a teacher
// ---------------------------------------------------------------------------

/// Half-moves of a game of the teacher.
pub const MAX_PLIS_CORPUS: u32 = 300;

/// One move in this many, on average, is random.
pub const RATIO_ALEA: usize = 6;

/// A player who now and then plays at random.
pub struct BotDistrait<A> {
    pub prof: A,
    pub alea: RandomBot,
    pub rng: StdRng,
}

impl<A: Bot> BotDistrait<A> {
    /// A teacher whose games are varied by chance.
    pub fn new(prof: A, graine: u64) -> (r: BotDistrait<A>)
        ensures
            r.prof == prof,
            r.alea.rng == bots::generateur_de(graine.wrapping_add(0xA5A5_A5A5)),
            r.rng == bots::generateur_de(graine.wrapping_add(0x51ED_51ED)),
    {
        BotDistrait {
            prof,
            alea: RandomBot::new(graine.wrapping_add(0xA5A5_A5A5)),
            rng: bots::generateur(graine.wrapping_add(0x51ED_51ED)),
        }
    }
}

impl<A: Bot> BotDistrait<A> {
    /// The answer that a draw decides: of the random player where it is zero, of
    /// the teacher otherwise. The other one is not asked.
    pub fn coup_tire(&mut self, tirage: usize, fen: &str) -> (r: Option<String>)
        ensures
            final(self).rng == old(self).rng,
            tirage == 0 ==> final(self).prof == old(self).prof && match r {
                Some(u) => bots::legal(fen@, u@) && echiquier::suite_de(fen@, u@) is Some,
                None => !bots::a_un_coup(fen@),
            },
            tirage != 0 ==> final(self).alea == old(self).alea && match r {
                Some(u) => old(self).prof.donne(fen@, u@) && bots::legal(fen@, u@),
                None => !bots::a_un_coup(fen@) || old(self).prof.defaille(fen@),
            },
            tirage != 0 ==> exists|prof: &mut A, f: &str|
                *prof == old(self).prof && *final(prof) == final(self).prof && f@ == fen@
                    && #[trigger] call_ensures(A::choisit, (prof, f), r),
            forall|f: Seq<char>, u: Seq<char>|
                #[trigger] final(self).prof.donne(f, u) == old(self).prof.donne(f, u),
            forall|f: Seq<char>| #[trigger]
                final(self).prof.defaille(f) == old(self).prof.defaille(f),
    {
        if tirage == 0 {
            self.alea.choisit(fen)
        } else {
            self.prof.choisit(fen)
        }
    }
}

impl<A: Bot> Bot for BotDistrait<A> {
    open spec fn donne(&self, fen: Seq<char>, uci: Seq<char>) -> bool {
        bots::legal(fen, uci) || self.prof.donne(fen, uci)
    }

    open spec fn defaille(&self, fen: Seq<char>) -> bool {
        self.prof.defaille(fen)
    }

    /// Either the random player answers and the teacher is not asked, or the
    /// teacher answers and the random player is not asked.
    fn choisit(&mut self, fen: &str) -> (r: Option<String>)
        ensures
            ({
                &&& final(self).prof == old(self).prof
                &&& match r {
                    Some(u) => bots::legal(fen@, u@) && echiquier::suite_de(fen@, u@) is Some,
                    None => !bots::a_un_coup(fen@),
                }
            }) || ({
                &&& final(self).alea == old(self).alea
                &&& exists|prof: &mut A, f: &str|
                    *prof == old(self).prof && *final(prof) == final(self).prof && f@ == fen@
                        && #[trigger] call_ensures(A::choisit, (prof, f), r)
            }),
    {
        let tirage: usize = departs::tire_place(RATIO_ALEA, &mut self.rng);
        self.coup_tire(tirage, fen)
    }
}

/// One draw for every half-move of a game of the teacher.
pub open spec fn tirages_valides(tirages: Seq<usize>) -> bool {
    &&& tirages.len() == MAX_PLIS_CORPUS
    &&& forall|k: int| 0 <= k < tirages.len() ==> (#[trigger] tirages[k]) < RATIO_ALEA
}

/// Every move of a game is legal, and the teacher gave those whose draw is not
/// zero.
pub open spec fn tiree<A: Bot>(j: jeu::VueJeu, tirages: Seq<usize>, prof: A) -> bool {
    forall|k: int|
        0 <= k < j.coups.len() ==> bots::legal(j.fens[k], #[trigger] j.coups[k]) && (tirages[k] != 0
            ==> prof.donne(j.fens[k], j.coups[k]))
}

/// A game of the teacher that stopped before its end: the player whom the draw
/// named failed it.
pub open spec fn rompue<A: Bot>(j: jeu::VueJeu, tirages: Seq<usize>, prof: A) -> bool {
    let fen = j.fens.last();
    &&& arena::prolonge(j, jeu::jeu_neuf(echiquier::DEPART@), MAX_PLIS_CORPUS as int)
    &&& arena::fin_du_duel(j, 0, MAX_PLIS_CORPUS as int) is None
    &&& tiree(j, tirages, prof)
    &&& if tirages[j.coups.len() as int] == 0 {
        exists|u: Seq<char>| #[trigger] bots::legal(fen, u) && jeu::apres(fen, u) is None
    } else {
        arena::sans_suite(prof, fen)
    }
}

/// Plays a game of the teacher from the starting position, given the draw of
/// every half-move. `Err`, with the game so far, when a player fails it.
pub fn partie_tiree<A: Bot>(bot: &mut BotDistrait<A>, tirages: &Vec<usize>) -> (r: Result<Jeu, Jeu>)
    requires
        tirages@.len() >= MAX_PLIS_CORPUS,
    ensures
        match r {
            Ok(j) => jouee(j@) && tiree(j@, tirages@, old(bot).prof),
            Err(j) => rompue(j@, tirages@, old(bot).prof),
        },
        final(bot).rng == old(bot).rng,
        forall|f: Seq<char>, u: Seq<char>|
            #[trigger] final(bot).prof.donne(f, u) == old(bot).prof.donne(f, u),
        forall|f: Seq<char>| #[trigger] final(bot).prof.defaille(f) == old(bot).prof.defaille(f),
{
    let mut j: Jeu = arena::depart();
    let ghost j0 = j@;
    assert(arena::debut(j@, 0) =~= j0);
    loop
        invariant
            jeu::deroule(j@),
            j0 == jeu::jeu_neuf(echiquier::DEPART@),
            tirages@.len() >= MAX_PLIS_CORPUS,
            arena::prolonge(j@, j0, MAX_PLIS_CORPUS as int),
            tiree(j@, tirages@, old(bot).prof),
            forall|f: Seq<char>, u: Seq<char>|
                #[trigger] bot.prof.donne(f, u) == old(bot).prof.donne(f, u),
            forall|f: Seq<char>| #[trigger] bot.prof.defaille(f) == old(bot).prof.defaille(f),
            bot.rng == old(bot).rng,
            j@.coups.len() <= MAX_PLIS_CORPUS,
        decreases MAX_PLIS_CORPUS as int - j@.coups.len(),
    {
        match arena::juge(&j, 0, MAX_PLIS_CORPUS) {
            Some(_) => {
                return Ok(j);
            },
            None => {},
        }
        let n: usize = j.coups.len();
        assert(n == j@.coups.len());
        let coup: Option<String> = bot.coup_tire(tirages[n], j.fen().as_str());
        let ghost avant = j@;
        let joue: bool = match &coup {
            Some(u) => j.joue(u.as_str()),
            None => false,
        };
        if !joue {
            return Err(j);
        }
        proof {
            arena::lemme_prolonge(avant, j@, j0, coup->0@, MAX_PLIS_CORPUS as int);
            assert forall|k: int| 0 <= k < j@.coups.len() implies bots::legal(
                j@.fens[k],
                #[trigger] j@.coups[k],
            ) && (tirages@[k] != 0 ==> old(bot).prof.donne(j@.fens[k], j@.coups[k])) by {
                if k < avant.coups.len() {
                    assert(j@.coups[k] == avant.coups[k]);
                    assert(j@.fens[k] == avant.fens[k]);
                }
            }
        }
    }
}

/// The positions of a game of the teacher in which a move was played, in
/// order; chance draws which moves are the teacher's. `Err`, with the game so
/// far, when a player fails it.
pub fn partie_corpus<A: Bot>(prof: A, graine: u64) -> (r: Result<Vec<String>, Jeu>)
    ensures
        match r {
            Ok(v) => exists|j: jeu::VueJeu, t: Seq<usize>|
                #[trigger] tirages_valides(t) && #[trigger] jouee(j) && tiree(j, t, prof)
                    && texte::vues_textes(v@) == j.fens.take(j.coups.len() as int),
            Err(j) => exists|t: Seq<usize>| #[trigger]
                tirages_valides(t) && rompue(j@, t, prof),
        },
{
    let mut bot: BotDistrait<A> = BotDistrait::new(prof, graine);
    let mut tirages: Vec<usize> = Vec::new();
    while tirages.len() < MAX_PLIS_CORPUS as usize
        invariant
            tirages@.len() <= MAX_PLIS_CORPUS,
            bot.prof == prof,
            forall|k: int| 0 <= k < tirages@.len() ==> (#[trigger] tirages@[k]) < RATIO_ALEA,
        decreases MAX_PLIS_CORPUS - tirages.len(),
    {
        let tirage: usize = departs::tire_place(RATIO_ALEA, &mut bot.rng);
        tirages.push(tirage);
    }
    let ghost t = tirages@;
    assert(tirages_valides(t));
    match partie_tiree(&mut bot, &tirages) {
        Ok(j) => {
            let mut v: Vec<String> = Vec::new();
            let n: usize = j.coups.len();
            let ghost w = j@;
            assert(jouee(w) && tiree(w, t, prof));
            let mut i: usize = 0;
            while i < n
                invariant
                    i <= n,
                    n == j@.coups.len(),
                    n < j.fens@.len(),
                    v@.len() == i,
                    forall|k: int| 0 <= k < i ==> (#[trigger] v@[k])@ == j.fens@[k]@,
                decreases n - i,
            {
                v.push(j.fens[i].clone());
                i += 1;
            }
            assert(texte::vues_textes(v@) =~= w.fens.take(w.coups.len() as int));
            Ok(v)
        },
        Err(j) => {
            assert(rompue(j@, t, prof));
            Err(j)
        },
    }
}

/// A game that was played to its end from the starting position.
pub open spec fn jouee(j: jeu::VueJeu) -> bool {
    &&& arena::prolonge(j, jeu::jeu_neuf(echiquier::DEPART@), MAX_PLIS_CORPUS as int)
    &&& arena::fin_du_duel(j, 0, MAX_PLIS_CORPUS as int) is Some
}

// ---------------------------------------------------------------------------
// Gathering
// ---------------------------------------------------------------------------

/// Games to play for what is missing: enough for the expected yield of each,
/// and never fewer than the workers.
pub fn taille_vague(manque: usize, par_partie: usize, ouvriers: usize) -> (r: usize)
    requires
        par_partie > 1,
    ensures
        r == if manque as int / par_partie as int + 1 > ouvriers {
            manque as int / par_partie as int + 1
        } else {
            ouvriers as int
        },
{
    assert(manque as int / par_partie as int <= manque as int / 2) by (nonlinear_arith)
        requires
            par_partie > 1,
            manque >= 0,
    ;
    let n: usize = manque / par_partie + 1;
    if n > ouvriers {
        n
    } else {
        ouvriers
    }
}

/// The first `n` lists, one after the other.
pub open spec fn bout_a_bout(v: Seq<Seq<Seq<char>>>, n: int) -> Seq<Seq<char>>
    decreases n,
{
    if n <= 0 {
        Seq::empty()
    } else {
        bout_a_bout(v, n - 1) + v[n - 1]
    }
}

/// What lists of texts say.
pub open spec fn vues_listes(v: Seq<Vec<String>>) -> Seq<Seq<Seq<char>>> {
    v.map_values(|l: Vec<String>| texte::vues_textes(l@))
}

/// At most `n` entries.
pub open spec fn au_plus(s: Seq<Seq<char>>, n: int) -> Seq<Seq<char>> {
    if s.len() <= n {
        s
    } else {
        s.take(n)
    }
}

/// Puts the positions of games one after the other, and keeps the first `n`.
pub fn rassemble(parties: &Vec<Vec<String>>, n: usize) -> (r: Vec<String>)
    ensures
        texte::vues_textes(r@) == au_plus(
            bout_a_bout(vues_listes(parties@), parties@.len() as int),
            n as int,
        ),
{
    let ghost v = vues_listes(parties@);
    let mut r: Vec<String> = Vec::new();
    let mut p: usize = 0;
    assert(texte::vues_textes(r@) =~= au_plus(bout_a_bout(v, 0), n as int));
    while p < parties.len()
        invariant
            p <= parties@.len(),
            v == vues_listes(parties@),
            r@.len() <= n,
            texte::vues_textes(r@) == au_plus(bout_a_bout(v, p as int), n as int),
        decreases parties.len() - p,
    {
        let ghost avant = bout_a_bout(v, p as int);
        let ghost l = texte::vues_textes(parties@[p as int]@);
        assert(v[p as int] == l);
        let mut i: usize = 0;
        assert(texte::vues_textes(r@) =~= au_plus(avant + l.take(0), n as int));
        while i < parties[p].len() && r.len() < n
            invariant
                p < parties@.len(),
                i <= parties@[p as int]@.len(),
                l == texte::vues_textes(parties@[p as int]@),
                r@.len() <= n,
                texte::vues_textes(r@) == au_plus(avant + l.take(i as int), n as int),
            decreases parties[p as int]@.len() - i,
        {
            let t: String = parties[p][i].clone();
            let ghost r0 = r@;
            assert(t@ == l[i as int]);
            assert(avant + l.take(i as int + 1) =~= (avant + l.take(i as int)).push(t@));
            r.push(t);
            assert(texte::vues_textes(r@) =~= texte::vues_textes(r0).push(t@));
            i += 1;
            assert(texte::vues_textes(r@) =~= au_plus(avant + l.take(i as int), n as int));
        }
        proof {
            let tout = avant + l;
            if i == l.len() {
                assert(l.take(i as int) =~= l);
            } else {
                assert(tout.take(n as int) =~= au_plus(avant + l.take(i as int), n as int));
            }
            assert(texte::vues_textes(r@) =~= au_plus(tout, n as int));
        }
        p += 1;
    }
    r
}

/// Playing on never takes anything away from what was gathered.
pub proof fn loi_rien_de_perdu(v: Seq<Seq<Seq<char>>>, n: int, k: int)
    requires
        0 <= k < v.len(),
        0 <= n,
        bout_a_bout(v, k).len() >= n,
    ensures
        au_plus(bout_a_bout(v, k + 1), n) == au_plus(bout_a_bout(v, k), n),
{
    assert(au_plus(bout_a_bout(v, k + 1), n) =~= au_plus(bout_a_bout(v, k), n));
}

// ---------------------------------------------------------------------------
// Teaching
// ---------------------------------------------------------------------------

/// A pupil that cannot be taught further as it is asked.
#[derive(Clone, Copy, Debug, PartialEq, Eq, Structural)]
pub enum RefusEleve {
    /// Its features are not those that were asked for.
    Schema,
    /// Its layers are not those that were asked for.
    Tailles,
}

/// Can a pupil that was read be taught further? Its features must be those
/// that were asked for, and so must its layers where they were.
pub fn verifie_eleve(
    schema: SchemaFeatures,
    voulu: SchemaFeatures,
    tailles: &Vec<usize>,
    voulues: Option<&Vec<usize>>,
) -> (r: Result<(), RefusEleve>)
    ensures
        r == if schema != voulu {
            Err::<(), RefusEleve>(RefusEleve::Schema)
        } else if voulues is Some && voulues.unwrap()@ != tailles@ {
            Err(RefusEleve::Tailles)
        } else {
            Ok(())
        },
{
    if schema != voulu {
        return Err(RefusEleve::Schema);
    }
    match voulues {
        None => Ok(()),
        Some(w) => {
            if w.len() != tailles.len() {
                return Err(RefusEleve::Tailles);
            }
            let mut i: usize = 0;
            while i < w.len()
                invariant
                    i <= w@.len(),
                    w@.len() == tailles@.len(),
                    schema == voulu,
                    voulues == Some(w),
                    forall|j: int| 0 <= j < i ==> w@[j] == tailles@[j],
                decreases w.len() - i,
            {
                if w[i] != tailles[i] {
                    return Err(RefusEleve::Tailles);
                }
                i += 1;
            }
            assert(w@ =~= tailles@);
            Ok(())
        },
    }
}

/// `f32` bits of the mean error under which teaching stops early: four parts
/// in ten thousand.
pub const SEUIL_LOSS_EPOQUE: u32 = 0x39d1_b717;

/// `f32` bits of the mean error under which a pupil is true to its teacher:
/// two parts in a thousand.
pub const SEUIL_MSE_VALIDATION: u32 = 0x3b03_126f;

/// Is the mean error, as `f32` bits, below a threshold?
pub open spec fn erreur_sous(loss: u32, seuil: u32) -> bool {
    !reels::nan(loss) && reels::cle(loss) < seuil
}

/// Does teaching go on after an epoch? Until the last one, unless the mean
/// error is small enough.
pub fn encore_une_epoque(epoque: u64, epoques_max: u64, loss: u32) -> (r: bool)
    ensures
        r == (epoque < epoques_max && !erreur_sous(loss, SEUIL_LOSS_EPOQUE)),
{
    epoque < epoques_max && !(!reels::est_nan(loss) && reels::cle_f32(loss)
        < SEUIL_LOSS_EPOQUE as i64)
}

/// Is the pupil true to its teacher?
pub fn eleve_fidele(mse: u32) -> (r: bool)
    ensures
        r == erreur_sous(mse, SEUIL_MSE_VALIDATION),
{
    !reels::est_nan(mse) && reels::cle_f32(mse) < SEUIL_MSE_VALIDATION as i64
}

/// Seeds of the games that check a pupil: apart from those that taught it.
pub fn graine_de_validation(seed: u64) -> (r: u64)
    ensures
        r == seed.wrapping_add(0x9E37_79B9_7F4A_7C15),
        r != seed,
{
    seed.wrapping_add(0x9E37_79B9_7F4A_7C15)
}

/// A walk stops without a legal move, without material to win or after a
/// hundred quiet half-moves, and at a text that is no position.
pub proof fn loi_arret_d_une_promenade(fen: Seq<char>)
    ensures
        match echiquier::position_de(fen) {
            Some(p) => arret(fen) <==> p.6 == 0 || p.8 || p.4 >= 100,
            None => arret(fen),
        },
{
}

/// Each position of a walk comes from the one before by a legal move, and the
/// game was not over there.
pub proof fn loi_pas_d_une_promenade(v: Seq<Seq<char>>, k: int)
    requires
        promenade(v),
        0 <= k < v.len() - 1,
    ensures
        !arret(v[k]),
        exists|u: Seq<char>|
            #[trigger] bots::legal(v[k], u) && echiquier::suite_de(v[k], u) == Some(v[k + 1]),
{
    assert(suit(v[k], v[k + 1]));
}

/// Games of the corpus draw among six, three hundred half-moves at most, and
/// a draw of anything but zero leaves the move to the master.
pub proof fn loi_tirages<A: Bot>(j: jeu::VueJeu, tirages: Seq<usize>, prof: A, k: int)
    requires
        tirages_valides(tirages),
        tiree(j, tirages, prof),
        0 <= k < j.coups.len(),
    ensures
        tirages.len() == 300,
        bots::legal(j.fens[k], j.coups[k]),
        k < 300 ==> tirages[k] < 6,
        tirages[k] > 0 ==> prof.donne(j.fens[k], j.coups[k]),
{
    assert(bots::legal(j.fens[k], j.coups[k]));
    if k < 300 {
        assert(tirages[k] < RATIO_ALEA);
    }
}

/// Lists end to end: as many items as all of them, each list at its place.
pub proof fn loi_bout_a_bout(v: Seq<Seq<Seq<char>>>, k: int, i: int)
    requires
        0 <= k < v.len(),
        0 <= i < v[k].len(),
    ensures
        bout_a_bout(v, k + 1).len() == bout_a_bout(v, k).len() + v[k].len(),
        bout_a_bout(v, k + 1)[bout_a_bout(v, k).len() + i] == v[k][i],
        bout_a_bout(v, k).is_prefix_of(bout_a_bout(v, k + 1)),
        bout_a_bout(v, 0).len() == 0,
{
}

/// At most so many items, the first ones.
pub proof fn loi_au_plus(s: Seq<Seq<char>>, n: int)
    requires
        n >= 0,
    ensures
        au_plus(s, n).is_prefix_of(s),
        au_plus(s, n).len() <= n,
        au_plus(s, n).len() == n || au_plus(s, n) == s,
{
}

/// An error below the threshold is a number below it; the two thresholds are
/// four ten-thousandths and two thousandths.
pub proof fn loi_erreur_sous(loss: u32, seuil: u32)
    requires
        loss < 0x7f80_0000,
        seuil < 0x7f80_0000,
    ensures
        erreur_sous(loss, seuil) <==> loss < seuil,
        !erreur_sous(seuil, seuil),
        SEUIL_LOSS_EPOQUE == 0x39d1_b717,
        SEUIL_MSE_VALIDATION == 0x3b03_126f,
{
    reels::loi_pas_un_nombre(loss);
    reels::loi_pas_un_nombre(seuil);
}

/// Of five seeds in a row, one starts from the book, one from an endgame, three
/// from the start.
pub proof fn loi_famille_de_graine(graine: u64, r: Famille)
    requires
        call_ensures(famille_de_graine, (graine,), r),
    ensures
        r is Ouverture <==> graine % 5 == 3,
        r is Finale <==> graine % 5 == 4,
        r is Initiale <==> graine % 5 < 3,
        r !is Transition,
{
}

/// An epoch more is trained while fewer than the most were and the loss is not
/// yet below its threshold.
pub proof fn loi_encore_une_epoque(epoque: u64, epoques_max: u64, loss: u32, r: bool)
    requires
        call_ensures(encore_une_epoque, (epoque, epoques_max, loss), r),
        loss < 0x7f80_0000,
    ensures
        epoque >= epoques_max ==> !r,
        epoque < epoques_max ==> (r <==> loss >= 0x39d1_b717),
{
    loi_erreur_sous(loss, 0x39d1_b717);
}

/// A wave plays enough games for the positions missing, one more, and never
/// fewer than there are workers.
pub proof fn loi_taille_de_vague(manque: usize, par_partie: usize, ouvriers: usize, r: usize)
    requires
        par_partie > 1,
        call_ensures(taille_vague, (manque, par_partie, ouvriers), r),
    ensures
        r * par_partie > manque,
        r >= ouvriers,
        r > ouvriers ==> (r - 1) * par_partie <= manque,
{
    let q = manque as int / par_partie as int;
    vstd::arithmetic::div_mod::lemma_fundamental_div_mod(manque as int, par_partie as int);
    assert(q * par_partie <= manque < (q + 1) * par_partie) by (nonlinear_arith)
        requires
            manque as int == par_partie as int * q + manque as int % par_partie as int,
            0 <= manque as int % par_partie as int,
            manque as int % (par_partie as int) < par_partie,
    ;
    assert(r * par_partie >= (q + 1) * par_partie) by (nonlinear_arith)
        requires
            r >= q + 1,
            par_partie > 0,
    ;
}

/// A pupil must have the schema asked for, and the layers asked for where some
/// are.
pub proof fn loi_eleve_verifie(
    schema: SchemaFeatures,
    voulu: SchemaFeatures,
    tailles: Vec<usize>,
    voulues: Option<&Vec<usize>>,
    r: Result<(), RefusEleve>,
)
    requires
        call_ensures(verifie_eleve, (schema, voulu, &tailles, voulues), r),
    ensures
        schema != voulu <==> r == Err::<(), RefusEleve>(RefusEleve::Schema),
        r is Ok <==> schema == voulu && (voulues is Some ==> (voulues->0)@ == tailles@),
{
}

/// The two streams of a walk come from its seed: one multiplied, one shifted.
pub proof fn loi_graines_de_promenade(graine: u64, r: (u64, u64))
    requires
        call_ensures(graines_de_promenade, (graine,), r),
    ensures
        r.0 == graine.wrapping_mul(0x9E37_79B9_7F4A_7C15),
        graine <= u64::MAX - 0xA5A5_A5A5 ==> r.1 - graine == 0xA5A5_A5A5,
{
}

} // verus!
