//! A game under way: its moves, its positions and how often each came up.
use vstd::prelude::*;

use crate::echiquier;
use crate::texte;

verus! {

// ---------------------------------------------------------------------------
// What the rules say of a position
// ---------------------------------------------------------------------------

/// What decides whether a game goes on.
#[derive(Debug, Clone, Copy, PartialEq, Eq, Structural)]
pub struct EtatPosition {
    /// Legal moves.
    pub n_coups: usize,
    /// Is the side to move in check?
    pub echec: bool,
    /// Can neither side win with what is left?
    pub insuffisant: bool,
    /// Half-moves since the last capture or pawn move.
    pub demi_coups: u32,
    /// Is White to move?
    pub trait_blanc: bool,
    /// Number of the move.
    pub numero: u32,
}

/// What the rules say of a position, if it can be read.
pub open spec fn etat_de(fen: Seq<char>) -> Option<EtatPosition> {
    match echiquier::position_de(fen) {
        Some(p) => Some(etat_vu(p)),
        None => None,
    }
}

/// What decides whether a game goes on, out of a position.
pub open spec fn etat_vu(p: echiquier::VuePosition) -> EtatPosition {
    EtatPosition {
        n_coups: p.6,
        echec: p.7,
        insuffisant: p.8,
        demi_coups: p.4,
        trait_blanc: p.1,
        numero: p.5,
    }
}

impl EtatPosition {
    /// The side to move is mated.
    pub open spec fn mat_spec(self) -> bool {
        self.n_coups == 0 && self.echec
    }

    /// The side to move has no move and is not in check.
    pub open spec fn pat_spec(self) -> bool {
        self.n_coups == 0 && !self.echec
    }

    /// A draw that needs no count of positions: too little material or fifty
    /// moves without a capture or a pawn move.
    pub open spec fn nulle_spec(self) -> bool {
        self.insuffisant || self.demi_coups >= 100
    }

    pub fn mat(&self) -> (r: bool)
        ensures
            r == self.mat_spec(),
    {
        self.n_coups == 0 && self.echec
    }

    pub fn pat(&self) -> (r: bool)
        ensures
            r == self.pat_spec(),
    {
        self.n_coups == 0 && !self.echec
    }

    pub fn nulle(&self) -> (r: bool)
        ensures
            r == self.nulle_spec(),
    {
        self.insuffisant || self.demi_coups >= 100
    }
}

/// What decides whether a game goes on, out of a position.
pub fn etat(p: &echiquier::Position) -> (r: EtatPosition)
    ensures
        r == etat_vu(p@),
{
    EtatPosition {
        n_coups: p.n_coups,
        echec: p.echec,
        insuffisant: p.insuffisant,
        demi_coups: p.demi_coups,
        trait_blanc: p.trait_blanc,
        numero: p.numero,
    }
}

/// Asks the rules about a position; nothing when the text is no position.
pub fn examine(fen: &str) -> (r: Option<EtatPosition>)
    ensures
        r == etat_de(fen@),
        r is Some <==> echiquier::position_de(fen@) is Some,
        r matches Some(e) ==> e.n_coups <= 256,
{
    match echiquier::lit_position(fen) {
        Some(p) => Some(etat(&p)),
        None => None,
    }
}

// ---------------------------------------------------------------------------
// Games
// ---------------------------------------------------------------------------

/// The position after a legal move that leads to a readable position.
pub open spec fn apres(fen: Seq<char>, uci: Seq<char>) -> Option<Seq<char>> {
    match echiquier::suite_de(fen, uci) {
        Some(f) => if echiquier::position_de(f) is Some {
            Some(f)
        } else {
            None
        },
        None => None,
    }
}

/// How many times a value stands in a list.
pub open spec fn compte(h: Seq<u64>, x: u64) -> nat
    decreases h.len(),
{
    if h.len() == 0 {
        0
    } else {
        compte(h.drop_last(), x) + if h.last() == x {
            1nat
        } else {
            0nat
        }
    }
}

/// How many times the last position has come up.
pub open spec fn repetitions(h: Seq<u64>) -> nat {
    compte(h, h.last())
}

/// What a game holds.
#[verifier::ext_equal]
pub struct VueJeu {
    pub coups: Seq<Seq<char>>,
    pub fens: Seq<Seq<char>>,
    pub hachages: Seq<u64>,
}

/// A game: its moves in UCI, its positions from the first to the current one
/// and the hash of each.
pub struct Jeu {
    pub coups: Vec<String>,
    pub fens: Vec<String>,
    pub hachages: Vec<u64>,
}

impl View for Jeu {
    type V = VueJeu;

    open spec fn view(&self) -> VueJeu {
        VueJeu {
            coups: texte::vues_textes(self.coups@),
            fens: texte::vues_textes(self.fens@),
            hachages: self.hachages@,
        }
    }
}

/// Every position follows from the one before it by the move between them.
pub open spec fn deroule(j: VueJeu) -> bool {
    &&& j.fens.len() == j.coups.len() + 1
    &&& j.hachages.len() == j.fens.len()
    &&& forall|i: int| 0 <= i < j.coups.len() ==> apres(j.fens[i], #[trigger] j.coups[i]) == Some(j.fens[i + 1])
    &&& forall|i: int| 0 <= i < j.fens.len() ==> echiquier::hachage_de(#[trigger] j.fens[i]) == Some(j.hachages[i])
    &&& forall|i: int| 0 <= i < j.fens.len() ==> echiquier::position_de(#[trigger] j.fens[i]) is Some
}

/// A game that begins at a position.
pub open spec fn jeu_neuf(fen: Seq<char>) -> VueJeu {
    VueJeu {
        coups: Seq::empty(),
        fens: seq![fen],
        hachages: seq![echiquier::hachage_de(fen)->0],
    }
}

/// The game after one more move, if the move can be played.
pub open spec fn jeu_suivant(j: VueJeu, uci: Seq<char>) -> Option<VueJeu> {
    match apres(j.fens.last(), uci) {
        Some(f) => Some(
            VueJeu {
                coups: j.coups.push(uci),
                fens: j.fens.push(f),
                hachages: j.hachages.push(echiquier::hachage_de(f)->0),
            },
        ),
        None => None,
    }
}

/// The number of times a hash stands in a list.
pub fn compte_hachage(h: &Vec<u64>, x: u64) -> (r: usize)
    ensures
        r == compte(h@, x),
        r <= h@.len(),
{
    let mut n: usize = 0;
    let mut i: usize = 0;
    while i < h.len()
        invariant
            i <= h@.len(),
            n <= i,
            n == compte(h@.take(i as int), x),
        decreases h.len() - i,
    {
        assert(h@.take(i as int + 1).drop_last() =~= h@.take(i as int));
        if h[i] == x {
            n += 1;
        }
        i += 1;
    }
    assert(h@.take(i as int) =~= h@);
    n
}

fn copie_textes(v: &Vec<String>) -> (r: Vec<String>)
    ensures
        texte::vues_textes(r@) == texte::vues_textes(v@),
{
    let mut r: Vec<String> = Vec::new();
    let mut i: usize = 0;
    while i < v.len()
        invariant
            i <= v.len(),
            r@.len() == i,
            forall|k: int| 0 <= k < i ==> (#[trigger] r@[k])@ == v@[k]@,
        decreases v.len() - i,
    {
        r.push(v[i].clone());
        i += 1;
    }
    assert(texte::vues_textes(r@) =~= texte::vues_textes(v@));
    r
}

impl Clone for Jeu {
    fn clone(&self) -> (r: Jeu)
        ensures
            r@ == self@,
    {
        let mut hachages: Vec<u64> = Vec::new();
        let mut i: usize = 0;
        while i < self.hachages.len()
            invariant
                i <= self.hachages.len(),
                hachages@ == self.hachages@.take(i as int),
            decreases self.hachages.len() - i,
        {
            hachages.push(self.hachages[i]);
            assert(self.hachages@.take(i as int + 1) =~= self.hachages@.take(i as int).push(
                self.hachages@[i as int],
            ));
            i += 1;
        }
        assert(self.hachages@.take(self.hachages@.len() as int) =~= self.hachages@);
        Jeu { coups: copie_textes(&self.coups), fens: copie_textes(&self.fens), hachages }
    }
}

impl Jeu {
    /// A game that begins at a position; nothing when the text is no position.
    pub fn neuf(fen: &str) -> (r: Option<Jeu>)
        ensures
            r is Some <==> echiquier::position_de(fen@) is Some,
            r matches Some(j) ==> j@ == jeu_neuf(fen@) && deroule(j@),
    {
        match echiquier::hachage(fen) {
            None => None,
            Some(h) => {
                let mut fens: Vec<String> = Vec::new();
                fens.push(fen.to_string());
                let mut hachages: Vec<u64> = Vec::new();
                hachages.push(h);
                let j: Jeu = Jeu { coups: Vec::new(), fens, hachages };
                assert(j@ =~= jeu_neuf(fen@));
                Some(j)
            },
        }
    }

    /// The current position.
    pub fn fen(&self) -> (r: &String)
        requires
            deroule(self@),
        ensures
            r@ == self@.fens.last(),
    {
        &self.fens[self.fens.len() - 1]
    }

    /// Plays a move. An illegal one is refused and changes nothing.
    pub fn joue(&mut self, uci: &str) -> (r: bool)
        requires
            deroule(old(self)@),
        ensures
            deroule(final(self)@),
            r == (jeu_suivant(old(self)@, uci@) is Some),
            match jeu_suivant(old(self)@, uci@) {
                Some(j) => final(self)@ == j,
                None => *final(self) == *old(self),
            },
    {
        let ghost avant = self@;
        let suite: Option<String> = echiquier::apres_coup(self.fen().as_str(), uci);
        match suite {
            None => false,
            Some(f) => match echiquier::hachage(f.as_str()) {
                None => false,
                Some(h) => {
                    let ghost fv = f@;
                    self.coups.push(uci.to_string());
                    self.fens.push(f);
                    self.hachages.push(h);
                    proof {
                        let j = jeu_suivant(avant, uci@)->0;
                        assert(self@.coups =~= j.coups);
                        assert(self@.fens =~= j.fens);
                        assert(self@ =~= j);
                        assert forall|i: int| 0 <= i < j.coups.len() implies apres(
                            j.fens[i],
                            #[trigger] j.coups[i],
                        ) == Some(j.fens[i + 1]) by {
                            if i < avant.coups.len() {
                                assert(j.coups[i] == avant.coups[i]);
                                assert(j.fens[i] == avant.fens[i]);
                                assert(j.fens[i + 1] == avant.fens[i + 1]);
                            }
                        }
                        assert forall|i: int| 0 <= i < j.fens.len() implies echiquier::hachage_de(
                            #[trigger] j.fens[i],
                        ) == Some(j.hachages[i]) && echiquier::position_de(j.fens[i]) is Some by {
                            if i < avant.fens.len() {
                                assert(j.fens[i] == avant.fens[i]);
                            }
                        }
                    }
                    true
                },
            },
        }
    }

    /// How many times the current position has come up.
    pub fn repetitions(&self) -> (r: usize)
        requires
            deroule(self@),
        ensures
            r == repetitions(self@.hachages),
            1 <= r <= self@.hachages.len(),
    {
        let n: usize = self.hachages.len();
        proof {
            assert(self.hachages@.last() == self.hachages@[n - 1]);
        }
        compte_hachage(&self.hachages, self.hachages[n - 1])
    }
}

// ---------------------------------------------------------------------------
// Laws of a game
// ---------------------------------------------------------------------------

/// How a position ends: without a legal move it is mate in check and stalemate
/// out of it, never both; with one it is neither. It is drawn without material
/// to win, or once a hundred half-moves have passed without a capture or a
/// pawn move.
pub proof fn loi_fins_de_partie(fen: Seq<char>, p: echiquier::VuePosition)
    requires
        echiquier::position_de(fen) == Some(p),
    ensures
        etat_de(fen) is Some,
        ({
            let e = etat_de(fen)->0;
            &&& p.6 > 0 ==> !e.mat_spec() && !e.pat_spec()
            &&& p.6 == 0 && p.7 ==> e.mat_spec() && !e.pat_spec()
            &&& p.6 == 0 && !p.7 ==> e.pat_spec() && !e.mat_spec()
            &&& p.8 ==> e.nulle_spec()
            &&& p.4 >= 100 ==> e.nulle_spec()
            &&& p.4 < 100 && !p.8 ==> !e.nulle_spec()
            &&& e.trait_blanc == p.1
            &&& e.numero == p.5
        }),
{
}

/// Positions are counted by their fingerprint: one more occurrence of a
/// fingerprint raises its count by one and leaves the others; the count of the
/// last position of a game is one when it never stood before.
pub proof fn loi_repetitions(h: Seq<u64>, x: u64, y: u64)
    ensures
        compte(h.push(x), x) == compte(h, x) + 1,
        x != y ==> compte(h.push(x), y) == compte(h, y),
        compte(Seq::<u64>::empty(), x) == 0,
        repetitions(h.push(x)) == compte(h, x) + 1,
        (forall|i: int| 0 <= i < h.len() ==> #[trigger] h[i] != x) ==> repetitions(h.push(x)) == 1,
{
    assert(h.push(x).drop_last() =~= h);
    if forall|i: int| 0 <= i < h.len() ==> #[trigger] h[i] != x {
        lemme_compte_absent(h, x);
    }
}

proof fn lemme_compte_absent(h: Seq<u64>, x: u64)
    requires
        forall|i: int| 0 <= i < h.len() ==> #[trigger] h[i] != x,
    ensures
        compte(h, x) == 0,
    decreases h.len(),
{
    if h.len() > 0 {
        let d = h.drop_last();
        assert forall|i: int| 0 <= i < d.len() implies #[trigger] d[i] != x by {
            assert(d[i] == h[i]);
        }
        assert(h[h.len() - 1] != x);
        lemme_compte_absent(d, x);
    }
}

/// Playing a move keeps what was played: the game is one move longer, its
/// earlier moves, positions and fingerprints stay, and it stands at the
/// position that the move leads to. A move that leads nowhere is refused.
pub proof fn loi_coup_ajoute(j: VueJeu, uci: Seq<char>)
    requires
        deroule(j),
    ensures
        jeu_suivant(j, uci) is Some <==> match echiquier::suite_de(j.fens.last(), uci) {
            Some(f) => echiquier::position_de(f) is Some,
            None => false,
        },
        match jeu_suivant(j, uci) {
            Some(s) => {
                &&& s.coups.len() == j.coups.len() + 1 && s.coups.last() == uci
                &&& j.coups.is_prefix_of(s.coups)
                &&& j.fens.is_prefix_of(s.fens)
                &&& j.hachages.is_prefix_of(s.hachages)
                &&& s.fens.len() == s.coups.len() + 1
                &&& s.hachages.len() == s.fens.len()
                &&& Some(s.fens.last()) == echiquier::suite_de(j.fens.last(), uci)
                &&& s.hachages.last() == echiquier::hachage_de(s.fens.last())->0
            },
            None => true,
        },
{
}

/// A new game stands at its position, with no move played.
pub proof fn loi_jeu_neuf(fen: Seq<char>)
    ensures
        jeu_neuf(fen).coups.len() == 0,
        jeu_neuf(fen).fens == seq![fen],
        jeu_neuf(fen).hachages.len() == 1,
        repetitions(jeu_neuf(fen).hachages) == 1,
{
    let h = jeu_neuf(fen).hachages;
    assert(h =~= Seq::<u64>::empty().push(h[0]));
    loi_repetitions(Seq::empty(), h[0], h[0]);
}

} // verus!
