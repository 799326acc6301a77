//! A match game between the champion and an engine: the referee's verdict and
//! the course of a game, one reply at a time.
use vstd::prelude::*;

use crate::echiquier;
use crate::jeu;
use crate::jeu::{EtatPosition, Jeu};
use crate::texte;

verus! {

/// Half-moves after which a game is drawn by the referee.
pub const MAX_PLIES: u32 = 512;

/// Result of a game.
#[derive(Debug, Clone, Copy, PartialEq, Eq, Structural)]
pub enum Resultat {
    Blancs,
    Noirs,
    Nulle,
}

/// The PGN writing of a result.
pub open spec fn nom_resultat(r: Resultat) -> Seq<char> {
    match r {
        Resultat::Blancs => "1-0"@,
        Resultat::Noirs => "0-1"@,
        Resultat::Nulle => "1/2-1/2"@,
    }
}

impl Resultat {
    pub fn nom(self) -> (r: &'static str)
        ensures
            r@ == nom_resultat(self),
    {
        match self {
            Resultat::Blancs => "1-0",
            Resultat::Noirs => "0-1",
            Resultat::Nulle => "1/2-1/2",
        }
    }
}

/// Why a game ended.
#[derive(Debug, Clone, Copy, PartialEq, Eq, Structural)]
pub enum Motif {
    Mat,
    Pat,
    MaterielInsuffisant,
    CinquanteCoups,
    TroisRepetitions,
    Plafond,
    CoupIllegal,
    MoteurEnErreur,
}

/// The words for the end of a game.
pub open spec fn nom_motif(m: Motif) -> Seq<char> {
    match m {
        Motif::Mat => "mat"@,
        Motif::Pat => "pat"@,
        Motif::MaterielInsuffisant => "matériel insuffisant"@,
        Motif::CinquanteCoups => "50 coups"@,
        Motif::TroisRepetitions => "3 répétitions"@,
        Motif::Plafond => "plafond de 512 plis"@,
        Motif::CoupIllegal => "forfait (coup illégal du moteur)"@,
        Motif::MoteurEnErreur => "forfait (moteur en erreur)"@,
    }
}

impl Motif {
    pub fn nom(self) -> (r: &'static str)
        ensures
            r@ == nom_motif(self),
    {
        match self {
            Motif::Mat => "mat",
            Motif::Pat => "pat",
            Motif::MaterielInsuffisant => "matériel insuffisant",
            Motif::CinquanteCoups => "50 coups",
            Motif::TroisRepetitions => "3 répétitions",
            Motif::Plafond => "plafond de 512 plis",
            Motif::CoupIllegal => "forfait (coup illégal du moteur)",
            Motif::MoteurEnErreur => "forfait (moteur en erreur)",
        }
    }
}

/// The side that loses when the given side is beaten.
pub open spec fn battu(blanc: bool) -> Resultat {
    if blanc {
        Resultat::Noirs
    } else {
        Resultat::Blancs
    }
}

fn defaite(blanc: bool) -> (r: Resultat)
    ensures
        r == battu(blanc),
{
    if blanc {
        Resultat::Noirs
    } else {
        Resultat::Blancs
    }
}

/// The referee's verdict on a position that has just been reached.
pub open spec fn verdict(e: EtatPosition, repetitions: int, plies: int) -> Option<(Resultat, Motif)> {
    if e.mat_spec() {
        Some((battu(e.trait_blanc), Motif::Mat))
    } else if e.pat_spec() {
        Some((Resultat::Nulle, Motif::Pat))
    } else if e.insuffisant {
        Some((Resultat::Nulle, Motif::MaterielInsuffisant))
    } else if e.demi_coups >= 100 {
        Some((Resultat::Nulle, Motif::CinquanteCoups))
    } else if repetitions >= 3 {
        Some((Resultat::Nulle, Motif::TroisRepetitions))
    } else if plies >= MAX_PLIES {
        Some((Resultat::Nulle, Motif::Plafond))
    } else {
        None
    }
}

/// Judges a position that has just been reached: `repetitions` counts how often
/// it has come up, `plies` the half-moves played. `None`: the game goes on.
pub fn arbitre(e: &EtatPosition, repetitions: usize, plies: usize) -> (r: Option<(Resultat, Motif)>)
    ensures
        r == verdict(*e, repetitions as int, plies as int),
{
    if e.mat() {
        Some((defaite(e.trait_blanc), Motif::Mat))
    } else if e.pat() {
        Some((Resultat::Nulle, Motif::Pat))
    } else if e.insuffisant {
        Some((Resultat::Nulle, Motif::MaterielInsuffisant))
    } else if e.demi_coups >= 100 {
        Some((Resultat::Nulle, Motif::CinquanteCoups))
    } else if repetitions >= 3 {
        Some((Resultat::Nulle, Motif::TroisRepetitions))
    } else if plies >= MAX_PLIES as usize {
        Some((Resultat::Nulle, Motif::Plafond))
    } else {
        None
    }
}

/// A mate stands even where a rule of draws applies as well.
pub proof fn loi_mat_prime(e: EtatPosition, repetitions: int, plies: int)
    requires
        e.mat_spec(),
    ensures
        verdict(e, repetitions, plies) == Some((battu(e.trait_blanc), Motif::Mat)),
{
}

// ---------------------------------------------------------------------------
// Gauges
// ---------------------------------------------------------------------------

/// Bits of an `f32` seen from White and kept within -1 and 1: the sign turns
/// when Black is to move, a size above one becomes one, and what is no number
/// stays.
pub open spec fn jauge(bits: u32, trait_blanc: bool) -> u32 {
    let v = if trait_blanc {
        bits
    } else {
        bits ^ 0x8000_0000
    };
    let taille = v & 0x7fff_ffff;
    if 0x3f80_0000 < taille <= 0x7f80_0000 {
        (v & 0x8000_0000) | 0x3f80_0000
    } else {
        v
    }
}

/// Score of the side to move as a gauge seen from White, both as `f32` bits.
pub fn vers_blancs(bits: u32, trait_blanc: bool) -> (r: u32)
    ensures
        r == jauge(bits, trait_blanc),
{
    let v: u32 = if trait_blanc {
        bits
    } else {
        bits ^ 0x8000_0000
    };
    let taille: u32 = v & 0x7fff_ffff;
    if 0x3f80_0000 < taille && taille <= 0x7f80_0000 {
        (v & 0x8000_0000) | 0x3f80_0000
    } else {
        v
    }
}

/// A gauge that is a number never leaves the range from -1 to 1.
pub proof fn loi_jauge_bornee(bits: u32, trait_blanc: bool)
    requires
        bits & 0x7fff_ffff <= 0x7f80_0000,
    ensures
        jauge(bits, trait_blanc) & 0x7fff_ffff <= 0x3f80_0000,
{
    let v = bits ^ 0x8000_0000;
    assert((bits ^ 0x8000_0000) & 0x7fff_ffff == bits & 0x7fff_ffff) by (bit_vector);
    assert(((bits & 0x8000_0000) | 0x3f80_0000) & 0x7fff_ffff == 0x3f80_0000) by (bit_vector);
    assert(((v & 0x8000_0000) | 0x3f80_0000) & 0x7fff_ffff == 0x3f80_0000) by (bit_vector);
}

// ---------------------------------------------------------------------------
// Course of a game
// ---------------------------------------------------------------------------

/// What the side to move answered: a move with the score it found (`f32` bits,
/// seen from its side) and the time it took, or nothing usable.
pub enum Reponse {
    Coup { texte: String, score: Option<u32>, ms: u64 },
    Erreur,
}

/// What a reply says.
pub enum VueReponse {
    Coup { texte: Seq<char>, score: Option<u32>, ms: u64 },
    Erreur,
}

impl View for Reponse {
    type V = VueReponse;

    open spec fn view(&self) -> VueReponse {
        match self {
            Reponse::Coup { texte, score, ms } => VueReponse::Coup {
                texte: texte@,
                score: *score,
                ms: *ms,
            },
            Reponse::Erreur => VueReponse::Erreur,
        }
    }
}

/// What a match game holds.
#[verifier::ext_equal]
pub struct VuePartie {
    pub jeu: jeu::VueJeu,
    pub san: Seq<Seq<char>>,
    pub champion_blanc: bool,
    pub temps_champion_ms: u64,
    pub temps_fantome_ms: u64,
    pub v_champion: Option<u32>,
    pub v_fantome: Option<u32>,
    pub fin: Option<(Resultat, Motif)>,
}

/// A match game: its moves, the time each side took, the last gauge of each
/// (`f32` bits, seen from White), and how it ended.
pub struct Partie {
    pub jeu: Jeu,
    /// Moves in SAN, with the signs for check and mate.
    pub san: Vec<String>,
    pub champion_blanc: bool,
    pub temps_champion_ms: u64,
    pub temps_fantome_ms: u64,
    pub v_champion: Option<u32>,
    pub v_fantome: Option<u32>,
    pub fin: Option<(Resultat, Motif)>,
}

impl View for Partie {
    type V = VuePartie;

    open spec fn view(&self) -> VuePartie {
        VuePartie {
            jeu: self.jeu@,
            san: texte::vues_textes(self.san@),
            champion_blanc: self.champion_blanc,
            temps_champion_ms: self.temps_champion_ms,
            temps_fantome_ms: self.temps_fantome_ms,
            v_champion: self.v_champion,
            v_fantome: self.v_fantome,
            fin: self.fin,
        }
    }
}

/// Is White to move at a position?
pub open spec fn au_trait(fen: Seq<char>) -> bool {
    match echiquier::position_de(fen) {
        Some(p) => p.1,
        None => true,
    }
}

/// Is it the champion's turn?
pub open spec fn tour_du_champion(p: VuePartie) -> bool {
    au_trait(p.jeu.fens.last()) == p.champion_blanc
}

/// What holds of every match game: its moves lead from the starting position
/// to the current one, each is written in SAN, and a game that goes on has not
/// been decided and has not reached the limit.
pub open spec fn en_regle(p: VuePartie) -> bool {
    &&& jeu::deroule(p.jeu)
    &&& p.jeu.fens[0] == echiquier::DEPART@
    &&& p.san.len() == p.jeu.coups.len()
    &&& forall|i: int|
        0 <= i < p.san.len() ==> echiquier::san_signe_de(p.jeu.fens[i], p.jeu.coups[i]) == Some(
            #[trigger] p.san[i],
        )
    &&& p.jeu.coups.len() <= MAX_PLIES
    &&& p.fin is None ==> p.jeu.coups.len() < MAX_PLIES
}

/// A game before its first move.
pub open spec fn partie_neuve(champion_blanc: bool) -> VuePartie {
    VuePartie {
        jeu: jeu::jeu_neuf(echiquier::DEPART@),
        san: Seq::empty(),
        champion_blanc,
        temps_champion_ms: 0,
        temps_fantome_ms: 0,
        v_champion: None,
        v_fantome: None,
        fin: None,
    }
}

/// The game once the time and the score of a reply are noted.
pub open spec fn notee(p: VuePartie, score: Option<u32>, ms: u64) -> VuePartie {
    let blanc = au_trait(p.jeu.fens.last());
    let v = match score {
        Some(s) => Some(jauge(s, blanc)),
        None => None,
    };
    if tour_du_champion(p) {
        VuePartie {
            v_champion: v,
            temps_champion_ms: (p.temps_champion_ms + ms) as u64,
            ..p
        }
    } else {
        VuePartie {
            v_fantome: v,
            temps_fantome_ms: (p.temps_fantome_ms + ms) as u64,
            ..p
        }
    }
}

/// The game after a legal move, judged.
pub open spec fn jouee(p: VuePartie, uci: Seq<char>) -> VuePartie {
    let j = jeu::jeu_suivant(p.jeu, uci)->0;
    VuePartie {
        jeu: j,
        san: p.san.push(echiquier::san_signe_de(p.jeu.fens.last(), uci)->0),
        fin: verdict(
            jeu::etat_de(j.fens.last())->0,
            jeu::repetitions(j.hachages) as int,
            j.coups.len() as int,
        ),
        ..p
    }
}

/// The legal move that a reply names and that can be played.
pub open spec fn coup_jouable(fen: Seq<char>, t: Seq<char>) -> Option<Seq<char>> {
    match echiquier::coup_nomme(fen, t) {
        Some(u) => if jeu::apres(fen, u) is Some {
            Some(u)
        } else {
            None
        },
        None => None,
    }
}

/// The game after a reply: a legal move is played and judged; an illegal move
/// or an error of the engine forfeits its game. From the champion only a legal
/// move is a reply.
pub open spec fn partie_suivante(p: VuePartie, r: VueReponse) -> Option<VuePartie> {
    let blanc = au_trait(p.jeu.fens.last());
    match r {
        VueReponse::Coup { texte, score, ms } => match coup_jouable(p.jeu.fens.last(), texte) {
            Some(u) => Some(jouee(notee(p, score, ms), u)),
            None => if tour_du_champion(p) {
                None
            } else {
                Some(
                    VuePartie {
                        fin: Some((battu(blanc), Motif::CoupIllegal)),
                        ..notee(p, score, ms)
                    },
                )
            },
        },
        VueReponse::Erreur => if tour_du_champion(p) {
            None
        } else {
            Some(VuePartie { fin: Some((battu(blanc), Motif::MoteurEnErreur)), ..p })
        },
    }
}

/// Does the time of a reply still fit in the counters?
pub open spec fn temps_tient(p: VuePartie, r: VueReponse) -> bool {
    match r {
        VueReponse::Coup { ms, .. } => p.temps_champion_ms + ms <= u64::MAX && p.temps_fantome_ms
            + ms <= u64::MAX,
        VueReponse::Erreur => true,
    }
}

impl Partie {
    /// A game before its first move.
    pub fn neuve(champion_blanc: bool) -> (r: Partie)
        ensures
            r@ == partie_neuve(champion_blanc),
            en_regle(r@),
    {
        let depart: String = echiquier::position_initiale();
        let jeu: Jeu = match Jeu::neuf(depart.as_str()) {
            Some(j) => j,
            None => Jeu { coups: Vec::new(), fens: Vec::new(), hachages: Vec::new() },
        };
        let r: Partie = Partie {
            jeu,
            san: Vec::new(),
            champion_blanc,
            temps_champion_ms: 0,
            temps_fantome_ms: 0,
            v_champion: None,
            v_fantome: None,
            fin: None,
        };
        assert(r@ =~= partie_neuve(champion_blanc));
        r
    }

    /// Is White to move?
    pub fn trait_blanc(&self) -> (r: bool)
        requires
            en_regle(self@),
        ensures
            r == au_trait(self@.jeu.fens.last()),
    {
        match echiquier::lit_position(self.jeu.fen().as_str()) {
            Some(p) => p.trait_blanc,
            None => true,
        }
    }

    /// Is it the champion's turn?
    pub fn tour_champion(&self) -> (r: bool)
        requires
            en_regle(self@),
        ensures
            r == tour_du_champion(self@),
    {
        self.trait_blanc() == self.champion_blanc
    }

    fn note(&mut self, blanc: bool, score: Option<u32>, ms: u64)
        requires
            en_regle(old(self)@),
            blanc == au_trait(old(self)@.jeu.fens.last()),
            old(self)@.temps_champion_ms + ms <= u64::MAX,
            old(self)@.temps_fantome_ms + ms <= u64::MAX,
        ensures
            final(self)@ == notee(old(self)@, score, ms),
            final(self).jeu == old(self).jeu,
            final(self).san == old(self).san,
    {
        let v: Option<u32> = match score {
            Some(s) => Some(vers_blancs(s, blanc)),
            None => None,
        };
        if blanc == self.champion_blanc {
            self.v_champion = v;
            self.temps_champion_ms = self.temps_champion_ms + ms;
        } else {
            self.v_fantome = v;
            self.temps_fantome_ms = self.temps_fantome_ms + ms;
        }
        assert(self@ =~= notee(old(self)@, score, ms));
    }

    /// Takes the reply of the side to move. `false`, and nothing changes, when
    /// the champion gave no legal move; an engine that fails forfeits.
    pub fn avance(&mut self, reponse: &Reponse) -> (r: bool)
        requires
            en_regle(old(self)@),
            old(self)@.fin is None,
            temps_tient(old(self)@, reponse@),
        ensures
            r == (partie_suivante(old(self)@, reponse@) is Some),
            match partie_suivante(old(self)@, reponse@) {
                Some(p) => final(self)@ == p,
                None => *final(self) == *old(self),
            },
            en_regle(final(self)@),
    {
        let ghost p0 = self@;
        let blanc: bool = self.trait_blanc();
        let champion: bool = blanc == self.champion_blanc;
        match reponse {
            Reponse::Erreur => {
                if champion {
                    return false;
                }
                self.fin = Some((defaite(blanc), Motif::MoteurEnErreur));
                assert(self@ =~= partie_suivante(p0, reponse@)->0);
                true
            },
            Reponse::Coup { texte, score, ms } => {
                let nomme: Option<String> = echiquier::coup_legal(
                    self.jeu.fen().as_str(),
                    texte.as_str(),
                );
                match nomme {
                    None => {
                        if champion {
                            return false;
                        }
                        self.note(blanc, *score, *ms);
                        self.fin = Some((defaite(blanc), Motif::CoupIllegal));
                        assert(self@ =~= partie_suivante(p0, reponse@)->0);
                        true
                    },
                    Some(u) => {
                        let san: Option<String> = echiquier::san_signe_du_coup(
                            self.jeu.fen().as_str(),
                            u.as_str(),
                        );
                        let ghost avant = self.jeu@;
                        if !self.jeu.joue(u.as_str()) {
                            if champion {
                                return false;
                            }
                            self.note(blanc, *score, *ms);
                            self.fin = Some((defaite(blanc), Motif::CoupIllegal));
                            assert(self@ =~= partie_suivante(p0, reponse@)->0);
                            return true;
                        }
                        let ghost p1 = self@;
                        let s: String = match san {
                            Some(s) => s,
                            None => String::new(),
                        };
                        let ghost sv = s@;
                        let ghost jv = self.jeu@;
                        // The gauges and times belong to the side that has just moved.
                        let v: Option<u32> = match score {
                            Some(x) => Some(vers_blancs(*x, blanc)),
                            None => None,
                        };
                        if champion {
                            self.v_champion = v;
                            self.temps_champion_ms = self.temps_champion_ms + *ms;
                        } else {
                            self.v_fantome = v;
                            self.temps_fantome_ms = self.temps_fantome_ms + *ms;
                        }
                        self.san.push(s);
                        let repetitions: usize = self.jeu.repetitions();
                        let plies: usize = self.jeu.coups.len();
                        self.fin = match jeu::examine(self.jeu.fen().as_str()) {
                            Some(e) => arbitre(&e, repetitions, plies),
                            None => None,
                        };
                        proof {
                            let q = partie_suivante(p0, reponse@)->0;
                            assert(jv.coups.len() == plies);
                            assert(self@.san =~= p0.san.push(sv));
                            assert(self@ =~= q);
                            assert forall|i: int| 0 <= i < q.san.len() implies echiquier::san_signe_de(
                                q.jeu.fens[i],
                                q.jeu.coups[i],
                            ) == Some(#[trigger] q.san[i]) by {
                                if i < p0.san.len() {
                                    assert(q.jeu.fens[i] == p0.jeu.fens[i]);
                                    assert(q.jeu.coups[i] == p0.jeu.coups[i]);
                                    assert(q.san[i] == p0.san[i]);
                                }
                            }
                        }
                        true
                    },
                }
            },
        }
    }
}

/// Half points of the champion in a finished game: two, one or none.
pub open spec fn points(champion_blanc: bool, r: Resultat) -> int {
    let blancs: int = match r {
        Resultat::Blancs => 2,
        Resultat::Noirs => 0,
        Resultat::Nulle => 1,
    };
    if champion_blanc {
        blancs
    } else {
        2 - blancs
    }
}

/// Half points of the champion for a result.
pub fn demi_points_champion(champion_blanc: bool, resultat: Resultat) -> (r: u64)
    ensures
        r == points(champion_blanc, resultat),
        r <= 2,
{
    let blancs: u64 = match resultat {
        Resultat::Blancs => 2,
        Resultat::Noirs => 0,
        Resultat::Nulle => 1,
    };
    if champion_blanc {
        blancs
    } else {
        2 - blancs
    }
}

/// A forfeit gives the whole game to the champion, whatever their colour.
pub proof fn loi_forfait_au_champion(p: VuePartie, r: VueReponse)
    requires
        p.fin is None,
        !tour_du_champion(p),
        partie_suivante(p, r)->0.fin matches Some((_, m)) && (m == Motif::CoupIllegal || m
            == Motif::MoteurEnErreur),
    ensures
        partie_suivante(p, r)->0.fin matches Some((g, _)) && points(p.champion_blanc, g) == 2,
{
}

/// The champion has White in every other game, from the first on.
pub open spec fn couleur_du_champion(partie: int) -> bool {
    partie % 2 == 0
}

/// Has the champion White in game `i`, counted from zero?
pub fn champion_a_les_blancs(i: usize) -> (r: bool)
    ensures
        r == couleur_du_champion(i as int),
{
    i % 2 == 0
}

// ---------------------------------------------------------------------------
// Memory guard
// ---------------------------------------------------------------------------

/// What the memory guard says of a transposition table.
#[derive(Debug, Clone, Copy, PartialEq, Eq, Structural)]
pub enum GardeTable {
    /// It does not fit in the free memory.
    Refusee,
    /// It fits.
    Acceptee,
    /// The free memory is not known: no guard.
    NonMesuree,
}

/// Refuses a table larger than the free memory, where that is known.
pub fn garde_tt(octets: u64, disponible: Option<u64>) -> (r: GardeTable)
    ensures
        r == match disponible {
            Some(d) => if octets > d {
                GardeTable::Refusee
            } else {
                GardeTable::Acceptee
            },
            None => GardeTable::NonMesuree,
        },
{
    match disponible {
        Some(d) => if octets > d {
            GardeTable::Refusee
        } else {
            GardeTable::Acceptee
        },
        None => GardeTable::NonMesuree,
    }
}

/// How a game of the match ends: mate beats everything; then stalemate, too
/// little material, a hundred quiet half-moves, a third occurrence and five
/// hundred and twelve half-moves draw, in that order; otherwise it goes on.
pub proof fn loi_verdict(fen: Seq<char>, p: echiquier::VuePosition, repetitions: int, plies: int)
    requires
        echiquier::position_de(fen) == Some(p),
    ensures
        ({
            let v = verdict(jeu::etat_de(fen)->0, repetitions, plies);
            &&& v is None <==> p.6 > 0 && !p.8 && p.4 < 100 && repetitions < 3 && plies < 512
            &&& p.6 == 0 && p.7 && p.1 ==> v == Some((Resultat::Noirs, Motif::Mat))
            &&& p.6 == 0 && p.7 && !p.1 ==> v == Some((Resultat::Blancs, Motif::Mat))
            &&& p.6 == 0 && !p.7 ==> v == Some((Resultat::Nulle, Motif::Pat))
            &&& p.6 > 0 && p.8 ==> v == Some((Resultat::Nulle, Motif::MaterielInsuffisant))
            &&& p.6 > 0 && !p.8 && p.4 >= 100 ==> v == Some((Resultat::Nulle, Motif::CinquanteCoups))
            &&& p.6 > 0 && !p.8 && p.4 < 100 && repetitions >= 3 ==> v == Some(
                (Resultat::Nulle, Motif::TroisRepetitions),
            )
            &&& p.6 > 0 && !p.8 && p.4 < 100 && repetitions < 3 && plies >= 512 ==> v == Some(
                (Resultat::Nulle, Motif::Plafond),
            )
        }),
{
}

/// Points of the champion, in halves: two for a win, one for a draw, none for
/// a loss, whatever its colour; those of both colours add up to two.
pub proof fn loi_points(r: Resultat)
    ensures
        points(true, Resultat::Blancs) == 2,
        points(true, Resultat::Noirs) == 0,
        points(true, Resultat::Nulle) == 1,
        points(true, r) + points(false, r) == 2,
        points(true, battu(true)) == 0 && points(false, battu(false)) == 0,
{
}

/// A gauge shows White's side of a value: as it is for White to move, opposite
/// for Black; inside plus and minus one it is kept, outside it is cut there.
pub proof fn loi_jauge(bits: u32)
    ensures
        bits <= 0x3f80_0000 ==> jauge(bits, true) == bits,
        0x3f80_0000 < bits <= 0x7f80_0000 ==> jauge(bits, true) == 0x3f80_0000,
        0x8000_0000 <= bits <= 0xbf80_0000 ==> jauge(bits, true) == bits,
        0xbf80_0000 < bits <= 0xff80_0000 ==> jauge(bits, true) == 0xbf80_0000,
        jauge(bits, false) == jauge(bits ^ 0x8000_0000, true),
{
    assert(bits <= 0x3f80_0000 ==> bits & 0x7fff_ffff == bits) by (bit_vector);
    assert(0x3f80_0000 < bits <= 0x7f80_0000 ==> (bits & 0x7fff_ffff == bits && (bits & 0x8000_0000)
        | 0x3f80_0000 == 0x3f80_0000)) by (bit_vector);
    assert(bits >= 0x8000_0000 ==> (bits & 0x7fff_ffff == bits - 0x8000_0000 && (bits & 0x8000_0000)
        | 0x3f80_0000 == 0xbf80_0000)) by (bit_vector);
}

/// A move played lengthens the game by it, keeps everything played before and
/// writes its name down; its time goes to the side that played it, and only
/// there, and so does its value.
pub proof fn loi_coup_du_match(p: VuePartie, texte: Seq<char>, score: Option<u32>, ms: u64)
    requires
        en_regle(p),
        temps_tient(p, VueReponse::Coup { texte, score, ms }),
        coup_jouable(p.jeu.fens.last(), texte) is Some,
    ensures
        ({
            let u = coup_jouable(p.jeu.fens.last(), texte)->0;
            let q = partie_suivante(p, VueReponse::Coup { texte, score, ms })->0;
            let champion = au_trait(p.jeu.fens.last()) == p.champion_blanc;
            &&& q.jeu.coups == p.jeu.coups.push(u)
            &&& p.jeu.fens.is_prefix_of(q.jeu.fens)
            &&& Some(q.jeu.fens.last()) == echiquier::suite_de(p.jeu.fens.last(), u)
            &&& q.san.len() == p.san.len() + 1 && p.san.is_prefix_of(q.san)
            &&& Some(q.san.last()) == Some(echiquier::san_signe_de(p.jeu.fens.last(), u)->0)
            &&& q.champion_blanc == p.champion_blanc
            &&& champion ==> q.temps_champion_ms == p.temps_champion_ms + ms && q.temps_fantome_ms
                == p.temps_fantome_ms && q.v_fantome == p.v_fantome
            &&& !champion ==> q.temps_fantome_ms == p.temps_fantome_ms + ms && q.temps_champion_ms
                == p.temps_champion_ms && q.v_champion == p.v_champion
            &&& champion && score is None ==> q.v_champion is None
            &&& !champion && score is None ==> q.v_fantome is None
            &&& q.fin == verdict(
                jeu::etat_de(q.jeu.fens.last())->0,
                jeu::repetitions(q.jeu.hachages) as int,
                q.jeu.coups.len() as int,
            )
        }),
{
}

/// An engine that fails or plays no legal move loses; the champion's own
/// failure stops the match without a result.
pub proof fn loi_defaillance(p: VuePartie, texte: Seq<char>, score: Option<u32>, ms: u64)
    requires
        coup_jouable(p.jeu.fens.last(), texte) is None,
    ensures
        ({
            let a = partie_suivante(p, VueReponse::Coup { texte, score, ms });
            let b = partie_suivante(p, VueReponse::Erreur);
            let champion = au_trait(p.jeu.fens.last()) == p.champion_blanc;
            let gagne = if p.champion_blanc {
                Resultat::Blancs
            } else {
                Resultat::Noirs
            };
            &&& champion <==> a is None
            &&& champion <==> b is None
            &&& !champion ==> a->0.fin == Some((gagne, Motif::CoupIllegal)) && a->0.jeu == p.jeu
            &&& !champion ==> b->0.fin == Some((gagne, Motif::MoteurEnErreur)) && b->0.jeu == p.jeu
        }),
{
}

/// The champion has White in the games of even rank.
pub proof fn loi_couleurs_du_match(k: int)
    ensures
        couleur_du_champion(2 * k),
        !couleur_du_champion(2 * k + 1),
{
}

/// A new game of the match stands at the start, nothing played, nothing timed.
pub proof fn loi_partie_neuve(blanc: bool)
    ensures
        partie_neuve(blanc).jeu == jeu::jeu_neuf(echiquier::DEPART@),
        partie_neuve(blanc).san.len() == 0,
        partie_neuve(blanc).champion_blanc == blanc,
        partie_neuve(blanc).temps_champion_ms == 0 && partie_neuve(blanc).temps_fantome_ms == 0,
        partie_neuve(blanc).fin is None,
{
}

/// Results are written as PGN writes them, each its own way.
pub proof fn loi_noms_des_resultats(r: Resultat, s: Resultat)
    ensures
        nom_resultat(Resultat::Blancs) == "1-0"@,
        nom_resultat(Resultat::Noirs) == "0-1"@,
        nom_resultat(Resultat::Nulle) == "1/2-1/2"@,
        nom_resultat(r) == nom_resultat(s) ==> r == s,
{
    reveal_strlit("1-0");
    reveal_strlit("0-1");
    reveal_strlit("1/2-1/2");
    assert("1-0"@[0] == '1' && "0-1"@[0] == '0');
    assert("1/2-1/2"@.len() == 7 && "1-0"@.len() == 3 && "0-1"@.len() == 3);
}

/// A table is refused when it is larger than the free memory that is known.
pub proof fn loi_garde_de_table(octets: u64, disponible: Option<u64>, r: GardeTable)
    requires
        call_ensures(garde_tt, (octets, disponible), r),
    ensures
        disponible is None <==> r is NonMesuree,
        r is Refusee <==> disponible is Some && octets > disponible->0,
        r is Acceptee <==> disponible is Some && octets <= disponible->0,
{
}

/// How the reason of an end is written.
pub proof fn loi_noms_des_motifs()
    ensures
        nom_motif(Motif::Mat) == "mat"@,
        nom_motif(Motif::Pat) == "pat"@,
        nom_motif(Motif::MaterielInsuffisant) == "matériel insuffisant"@,
        nom_motif(Motif::CinquanteCoups) == "50 coups"@,
        nom_motif(Motif::TroisRepetitions) == "3 répétitions"@,
        nom_motif(Motif::Plafond) == "plafond de 512 plis"@,
        nom_motif(Motif::CoupIllegal) == "forfait (coup illégal du moteur)"@,
        nom_motif(Motif::MoteurEnErreur) == "forfait (moteur en erreur)"@,
{
}

/// The value that a side gives with its move is shown from White's side.
pub proof fn loi_valeur_affichee(p: VuePartie, texte: Seq<char>, s: u32, ms: u64)
    requires
        coup_jouable(p.jeu.fens.last(), texte) is Some,
    ensures
        ({
            let q = partie_suivante(p, VueReponse::Coup { texte, score: Some(s), ms })->0;
            let blanc = au_trait(p.jeu.fens.last());
            &&& blanc == p.champion_blanc ==> q.v_champion == Some(jauge(s, blanc))
            &&& blanc != p.champion_blanc ==> q.v_fantome == Some(jauge(s, blanc))
        }),
{
}

/// Whose turn it is: White's when the position says so.
pub proof fn loi_trait(fen: Seq<char>, p: echiquier::VuePosition, q: VuePartie)
    requires
        echiquier::position_de(fen) == Some(p),
        q.jeu.fens.len() > 0,
        q.jeu.fens.last() == fen,
    ensures
        au_trait(fen) == p.1,
        tour_du_champion(q) <==> p.1 == q.champion_blanc,
{
}

} // verus!
