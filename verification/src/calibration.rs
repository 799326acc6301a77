//! Measuring labels: the games whose positions are labelled twice, the corpus
//! that is kept, and the table that recalibrates labels.
use vstd::prelude::*;

use crate::echiquier;
use crate::jeu;
use crate::jeu::{EtatPosition, Jeu};
use crate::reels;
use crate::texte;

verus! {

/// Half-moves after which a game stops.
pub const MAX_PLIES: usize = 300;

/// Positions that a game is expected to give.
pub const POSITIONS_PAR_PARTIE_ESTIMEES: usize = 60;

/// Nodes of a recalibration table before its ends are added.
pub const N_NOEUDS_FIT: usize = 64;

// ---------------------------------------------------------------------------
// A measured game
// ---------------------------------------------------------------------------

/// A measured position: its FEN, the plain value that the network gives it and
/// its label, both as `f32` bits; no label where the engine was silent.
#[derive(Debug)]
pub struct Ligne {
    pub fen: String,
    pub v_champion: u32,
    pub label1: Option<u32>,
}

/// What a measured position says.
pub open spec fn vue_ligne(l: Ligne) -> (Seq<char>, u32, Option<u32>) {
    (l.fen@, l.v_champion, l.label1)
}

/// What measured positions say.
pub open spec fn vues_lignes(v: Seq<Ligne>) -> Seq<(Seq<char>, u32, Option<u32>)> {
    v.map_values(|l: Ligne| vue_ligne(l))
}

/// How many positions in a row were decided for the same side: positive for
/// White, negative for Black.
pub open spec fn serie_suivante(serie: int, v_blancs: u32, seuil: u32) -> int {
    if reels::au_moins(v_blancs, seuil) {
        if serie >= 0 {
            serie + 1
        } else {
            1
        }
    } else if reels::au_moins(reels::oppose(seuil), v_blancs) {
        if serie <= 0 {
            serie - 1
        } else {
            -1
        }
    } else {
        0
    }
}

/// Is the game decided by a long enough run? No run is long enough for zero.
pub open spec fn tranchee(serie: int, plis: u32) -> bool {
    plis > 0 && (serie >= plis || -serie >= plis)
}

/// What a measured game holds.
#[verifier::ext_equal]
pub struct VueMesure {
    pub jeu: jeu::VueJeu,
    pub lignes: Seq<(Seq<char>, u32, Option<u32>)>,
    pub serie: int,
    pub finie: bool,
}

/// A game under measurement.
pub struct Mesure {
    pub jeu: Jeu,
    pub lignes: Vec<Ligne>,
    pub serie: i32,
    pub finie: bool,
}

impl View for Mesure {
    type V = VueMesure;

    open spec fn view(&self) -> VueMesure {
        VueMesure {
            jeu: self.jeu@,
            lignes: vues_lignes(self.lignes@),
            serie: self.serie as int,
            finie: self.finie,
        }
    }
}

/// Temperature at which the move after `plies` half-moves is drawn: that of the
/// opening for the first half-moves of a start that asks for them, the usual one
/// behind. Both are `f32` bits.
pub fn temperature_du_pli(plies: u32, plis_chauds: u32, ouverture: u32, normale: u32) -> (r: u32)
    ensures
        r == if plies < plis_chauds {
            ouverture
        } else {
            normale
        },
{
    if plies < plis_chauds {
        ouverture
    } else {
        normale
    }
}

/// Does a position end the game before it is measured?
pub open spec fn arretee(e: EtatPosition, plies: int) -> bool {
    e.n_coups == 0 || e.nulle_spec() || plies >= MAX_PLIES
}

/// What holds of every game under measurement: its moves follow from its
/// start; between two moves each position but the current one has its line, the
/// current one too once it has been measured; the run is no longer than the
/// lines.
pub open spec fn mesure_en_regle(m: VueMesure) -> bool {
    &&& jeu::deroule(m.jeu)
    &&& m.jeu.coups.len() <= m.lignes.len() <= m.jeu.coups.len() + 1
    &&& m.jeu.coups.len() <= MAX_PLIES
    &&& -(m.lignes.len() as int) <= m.serie <= m.lignes.len()
    &&& forall|i: int| 0 <= i < m.lignes.len() ==> (#[trigger] m.lignes[i]).0 == m.jeu.fens[i]
}

/// A game before its first measure.
pub open spec fn mesure_neuve(fen: Seq<char>) -> VueMesure {
    VueMesure {
        jeu: jeu::jeu_neuf(fen),
        lignes: Seq::empty(),
        serie: 0,
        finie: arretee(jeu::etat_de(fen)->0, 0),
    }
}

/// The game once its current position is measured: the line is kept, then the
/// run decides whether the game goes on. The label speaks for the side to
/// move; where there is none, the search does.
pub open spec fn mesuree(
    m: VueMesure,
    v_eleve: u32,
    v_champion: u32,
    label1: Option<u32>,
    seuil: u32,
    plis_arbitrage: u32,
) -> VueMesure {
    let fen = m.jeu.fens.last();
    let v = match label1 {
        Some(l) => l,
        None => v_eleve,
    };
    let v_blancs = if jeu::etat_de(fen)->0.trait_blanc {
        v
    } else {
        reels::oppose(v)
    };
    let serie = serie_suivante(m.serie, v_blancs, seuil);
    VueMesure {
        lignes: m.lignes.push((fen, v_champion, label1)),
        serie,
        finie: tranchee(serie, plis_arbitrage),
        ..m
    }
}

/// The game after the move that follows a measure: over at the third
/// repetition or where the next position ends it.
pub open spec fn avancee(m: VueMesure, uci: Seq<char>) -> Option<VueMesure> {
    match jeu::jeu_suivant(m.jeu, uci) {
        Some(j) => Some(
            VueMesure {
                jeu: j,
                finie: jeu::repetitions(j.hachages) >= 3 || arretee(
                    jeu::etat_de(j.fens.last())->0,
                    j.coups.len() as int,
                ),
                ..m
            },
        ),
        None => None,
    }
}

fn est_arretee(fen: &str, plies: usize) -> (r: bool)
    requires
        echiquier::position_de(fen@) is Some,
    ensures
        r == arretee(jeu::etat_de(fen@)->0, plies as int),
{
    match jeu::examine(fen) {
        Some(e) => e.n_coups == 0 || e.nulle() || plies >= MAX_PLIES,
        None => true,
    }
}

impl Mesure {
    /// A game from a position; nothing when the text is no position.
    pub fn neuve(fen: &str) -> (r: Option<Mesure>)
        ensures
            r is Some <==> echiquier::position_de(fen@) is Some,
            r matches Some(m) ==> m@ == mesure_neuve(fen@) && mesure_en_regle(m@),
    {
        match Jeu::neuf(fen) {
            None => None,
            Some(jeu) => {
                let finie: bool = est_arretee(fen, 0);
                let m: Mesure = Mesure { jeu, lignes: Vec::new(), serie: 0, finie };
                assert(m@ =~= mesure_neuve(fen@));
                Some(m)
            },
        }
    }

    /// Notes the measure of the current position: the value of the search (cut
    /// to -1 and 1), the plain value of the network, and the label if there is
    /// one.
    pub fn mesure(
        &mut self,
        v_eleve: u32,
        v_champion: u32,
        label1: Option<u32>,
        seuil: u32,
        plis_arbitrage: u32,
    )
        requires
            mesure_en_regle(old(self)@),
            !old(self).finie,
            old(self)@.lignes.len() == old(self)@.jeu.coups.len(),
        ensures
            final(self)@ == mesuree(old(self)@, v_eleve, v_champion, label1, seuil, plis_arbitrage),
            mesure_en_regle(final(self)@),
            final(self)@.lignes.len() == final(self)@.jeu.coups.len() + 1,
    {
        let ghost m0 = self@;
        let fen: String = self.jeu.fen().clone();
        let blanc: bool = match jeu::examine(fen.as_str()) {
            Some(e) => e.trait_blanc,
            None => true,
        };
        let v: u32 = match label1 {
            Some(l) => l,
            None => v_eleve,
        };
        let v_blancs: u32 = if blanc {
            v
        } else {
            reels::oppose_f32(v)
        };
        let serie: i32 = if reels::est_au_moins(v_blancs, seuil) {
            if self.serie >= 0 {
                self.serie + 1
            } else {
                1
            }
        } else if reels::est_au_moins(reels::oppose_f32(seuil), v_blancs) {
            if self.serie <= 0 {
                self.serie - 1
            } else {
                -1
            }
        } else {
            0
        };
        let l: Ligne = Ligne { fen, v_champion, label1 };
        let ghost lv = vue_ligne(l);
        self.lignes.push(l);
        assert(vues_lignes(self.lignes@) =~= m0.lignes.push(lv));
        self.serie = serie;
        self.finie = plis_arbitrage > 0 && (serie as i64 >= plis_arbitrage as i64 || -(serie as i64)
            >= plis_arbitrage as i64);
        assert(self@ =~= mesuree(m0, v_eleve, v_champion, label1, seuil, plis_arbitrage));
    }

    /// Plays the move that follows a measure. An illegal one is refused and
    /// changes nothing.
    pub fn joue(&mut self, uci: &str) -> (r: bool)
        requires
            mesure_en_regle(old(self)@),
            !old(self).finie,
            old(self)@.lignes.len() == old(self)@.jeu.coups.len() + 1,
            old(self)@.jeu.coups.len() < MAX_PLIES,
        ensures
            mesure_en_regle(final(self)@),
            r == (avancee(old(self)@, uci@) is Some),
            match avancee(old(self)@, uci@) {
                Some(m) => final(self)@ == m && final(self)@.lignes.len()
                    == final(self)@.jeu.coups.len(),
                None => *final(self) == *old(self),
            },
    {
        let ghost m0 = self@;
        if !self.jeu.joue(uci) {
            return false;
        }
        let n: usize = self.jeu.coups.len();
        assert(self.jeu@.coups.len() == n);
        let repetee: bool = self.jeu.repetitions() >= 3;
        self.finie = repetee || est_arretee(self.jeu.fen().as_str(), n);
        proof {
            let q = avancee(m0, uci@)->0;
            assert(self@ =~= q);
            assert forall|i: int| 0 <= i < q.lignes.len() implies (#[trigger] q.lignes[i]).0
                == q.jeu.fens[i] by {
                assert(m0.lignes[i].0 == m0.jeu.fens[i]);
            }
        }
        true
    }
}

/// A game that goes on after a move has not reached its limit.
pub proof fn loi_mesure_bornee(m: VueMesure, uci: Seq<char>)
    requires
        mesure_en_regle(m),
        avancee(m, uci) is Some,
        !(avancee(m, uci)->0.finie),
    ensures
        avancee(m, uci)->0.jeu.coups.len() < MAX_PLIES,
{
}

/// A run grows by one as long as the same side is ahead, and starts anew when
/// the other takes over.
pub proof fn loi_serie_de_meme_signe(serie: int, v_blancs: u32, seuil: u32)
    ensures
        serie_suivante(serie, v_blancs, seuil) > 1 ==> serie_suivante(serie, v_blancs, seuil)
            == serie + 1,
        serie_suivante(serie, v_blancs, seuil) < -1 ==> serie_suivante(serie, v_blancs, seuil)
            == serie - 1,
{
}

// ---------------------------------------------------------------------------
// Corpus
// ---------------------------------------------------------------------------

/// Games to play for what is missing: enough for the expected yield, and never
/// fewer than the workers.
pub fn taille_vague(manque: usize, ouvriers: usize) -> (r: usize)
    requires
        manque < usize::MAX,
    ensures
        r >= ouvriers,
        r >= manque as int / 60 + 1,
        r == ouvriers || r == manque as int / 60 + 1,
{
    let n: usize = manque / POSITIONS_PAR_PARTIE_ESTIMEES + 1;
    if n > ouvriers {
        n
    } else {
        ouvriers
    }
}

/// Labelled lines among the first `k` of a game.
pub open spec fn etiquetees(p: Seq<bool>, k: int) -> int
    decreases k,
{
    if k <= 0 {
        0
    } else {
        etiquetees(p, k - 1) + if p[k - 1] {
            1int
        } else {
            0
        }
    }
}

/// Labelled lines of the first `n` games.
pub open spec fn cumul(parties: Seq<Vec<bool>>, n: int) -> int
    decreases n,
{
    if n <= 0 {
        0
    } else {
        cumul(parties, n - 1) + etiquetees(parties[n - 1]@, parties[n - 1]@.len() as int)
    }
}

/// Is line `k` of game `p` kept: do fewer than `cible` labelled lines stand
/// before it?
pub open spec fn conservee(parties: Seq<Vec<bool>>, cible: int, p: int, k: int) -> bool {
    cumul(parties, p) + etiquetees(parties[p]@, k) < cible
}

proof fn lemme_etiquetees(p: Seq<bool>, i: int, j: int)
    requires
        0 <= i <= j,
    ensures
        0 <= etiquetees(p, i) <= etiquetees(p, j) <= etiquetees(p, i) + (j - i),
    decreases j,
{
    if i < j {
        lemme_etiquetees(p, i, j - 1);
    } else if i > 0 {
        lemme_etiquetees(p, i - 1, i - 1);
    }
}

/// Cuts a corpus to its target: how many lines of each game are kept. A line
/// is kept as long as fewer than `cible` labelled lines stand before it.
pub fn tronque(parties: &Vec<Vec<bool>>, cible: usize) -> (r: Vec<usize>)
    ensures
        r@.len() == parties@.len(),
        forall|p: int| 0 <= p < r@.len() ==> #[trigger] r@[p] <= parties@[p]@.len(),
        forall|p: int, k: int|
            0 <= p < r@.len() && 0 <= k < parties@[p]@.len() ==> (k < r@[p] <==> #[trigger] conservee(
                parties@,
                cible as int,
                p,
                k,
            )),
{
    let mut r: Vec<usize> = Vec::new();
    // Labelled lines so far, counted up to the target.
    let mut c: usize = 0;
    let mut p: usize = 0;
    while p < parties.len()
        invariant
            p <= parties@.len(),
            r@.len() == p,
            c <= cible,
            c < cible ==> c == cumul(parties@, p as int),
            c == cible ==> cumul(parties@, p as int) >= cible,
            forall|q: int| 0 <= q < p ==> #[trigger] r@[q] <= parties@[q]@.len(),
            forall|q: int, k: int|
                0 <= q < p && 0 <= k < parties@[q]@.len() ==> (k < r@[q] <==> #[trigger] conservee(
                    parties@,
                    cible as int,
                    q,
                    k,
                )),
        decreases parties.len() - p,
    {
        let n: usize = parties[p].len();
        let ghost c0 = c as int;
        let ghost pv = parties@[p as int]@;
        let mut k: usize = 0;
        while k < n && c < cible
            invariant
                p < parties@.len(),
                pv == parties@[p as int]@,
                n == pv.len(),
                k <= n,
                c0 <= c <= cible,
                c0 <= cible,
                c0 < cible ==> c0 == cumul(parties@, p as int),
                c0 == cible ==> cumul(parties@, p as int) >= cible && k == 0,
                c0 < cible ==> c == c0 + etiquetees(pv, k as int),
                forall|j: int|
                    0 <= j < k ==> #[trigger] conservee(parties@, cible as int, p as int, j),
            decreases n - k,
        {
            assert(conservee(parties@, cible as int, p as int, k as int));
            if parties[p][k] {
                c += 1;
            }
            k += 1;
        }
        proof {
            lemme_etiquetees(pv, k as int, n as int);
            assert forall|j: int| 0 <= j < n implies (j < k <==> #[trigger] conservee(
                parties@,
                cible as int,
                p as int,
                j,
            )) by {
                if j >= k {
                    lemme_etiquetees(pv, k as int, j);
                    if c0 == cible {
                        lemme_etiquetees(pv, 0, j);
                    }
                }
            }
            lemme_etiquetees(pv, 0, n as int);
        }
        r.push(k);
        p += 1;
    }
    r
}

/// Lines that have both labels.
pub open spec fn complets(
    lignes: Seq<(u32, Option<u32>)>,
    labels2: Seq<Option<u32>>,
    n: int,
) -> Seq<(u32, u32, u32)>
    decreases n,
{
    if n <= 0 {
        Seq::empty()
    } else {
        let d = complets(lignes, labels2, n - 1);
        match (lignes[n - 1].1, labels2[n - 1]) {
            (Some(a), Some(b)) => d.push((lignes[n - 1].0, a, b)),
            _ => d,
        }
    }
}

/// Puts values and their two labels together, as `f32` bits; lines that lack a
/// label are counted and left out.
pub fn assemble(lignes: &Vec<(u32, Option<u32>)>, labels2: &Vec<Option<u32>>) -> (r: (
    Vec<(u32, u32, u32)>,
    usize,
))
    requires
        lignes@.len() == labels2@.len(),
    ensures
        r.0@ == complets(lignes@, labels2@, lignes@.len() as int),
        r.0@.len() + r.1 == lignes@.len(),
{
    let mut t: Vec<(u32, u32, u32)> = Vec::new();
    let mut ecartees: usize = 0;
    let n: usize = lignes.len();
    let mut i: usize = 0;
    while i < n
        invariant
            i <= n,
            n == lignes@.len(),
            lignes@.len() == labels2@.len(),
            t@ == complets(lignes@, labels2@, i as int),
            t@.len() + ecartees == i,
        decreases n - i,
    {
        match (lignes[i].1, labels2[i]) {
            (Some(a), Some(b)) => {
                t.push((lignes[i].0, a, b));
            },
            _ => {
                ecartees += 1;
            },
        }
        i += 1;
    }
    (t, ecartees)
}

// ---------------------------------------------------------------------------
// Reading measured triplets
// ---------------------------------------------------------------------------

/// Does a line of the record hold no triplet: blank, or the header?
pub open spec fn hors_triplet(l: Seq<char>) -> bool {
    let t = texte::rogne(l);
    t.len() == 0 || texte::commence_par(t, "v_champion"@)
}

/// The fields of a line, each trimmed.
pub open spec fn champs_de(l: Seq<char>) -> Seq<Seq<char>> {
    texte::morceaux(texte::rogne(l), ',').map_values(|c: Seq<char>| texte::rogne(c))
}

/// The numbered lines that hold triplets among the first `n`, with their
/// fields; lines are numbered from one.
pub open spec fn lignes_de_triplets(l: Seq<Seq<char>>, n: int) -> Seq<(int, Seq<Seq<char>>)>
    decreases n,
{
    if n <= 0 {
        Seq::empty()
    } else {
        let d = lignes_de_triplets(l, n - 1);
        if hors_triplet(l[n - 1]) {
            d
        } else {
            d.push((n, champs_de(l[n - 1])))
        }
    }
}

/// What numbered lines say.
pub open spec fn vues_numerotees(v: Seq<(usize, Vec<String>)>) -> Seq<(int, Seq<Seq<char>>)> {
    v.map_values(|x: (usize, Vec<String>)| (x.0 as int, texte::vues_textes(x.1@)))
}

fn champs(t: &Vec<char>) -> (r: Vec<String>)
    ensures
        texte::vues_textes(r@) == texte::morceaux(t@, ',').map_values(
            |c: Seq<char>| texte::rogne(c),
        ),
{
    let m: Vec<Vec<char>> = texte::decoupe(t, ',');
    let ghost mv = texte::morceaux(t@, ',');
    let ghost tous = mv.map_values(|c: Seq<char>| texte::rogne(c));
    let mut r: Vec<String> = Vec::new();
    let mut i: usize = 0;
    while i < m.len()
        invariant
            i <= m@.len(),
            texte::vues(m@) == mv,
            tous == mv.map_values(|c: Seq<char>| texte::rogne(c)),
            texte::vues_textes(r@) == tous.take(i as int),
        decreases m.len() - i,
    {
        assert(texte::vues(m@)[i as int] == m@[i as int]@);
        let ghost avant = texte::vues_textes(r@);
        let c: Vec<char> = texte::rogner(&m[i]);
        let s: String = texte::texte(&c);
        let ghost sv = s@;
        r.push(s);
        assert(texte::vues_textes(r@) =~= avant.push(sv));
        assert(tous.take(i as int + 1) =~= tous.take(i as int).push(sv));
        i += 1;
    }
    assert(tous.take(i as int) =~= tous);
    r
}

/// Splits a record of triplets into its numbered lines and their fields.
pub fn champs_du_csv(contenu: &str) -> (r: Vec<(usize, Vec<String>)>)
    ensures
        vues_numerotees(r@) == lignes_de_triplets(
            texte::lignes(contenu@),
            texte::lignes(contenu@).len() as int,
        ),
{
    let l: Vec<Vec<char>> = texte::en_lignes(contenu);
    let ghost lv = texte::lignes(contenu@);
    let n: usize = l.len();
    assert(texte::vues(l@).len() == n);
    let mut r: Vec<(usize, Vec<String>)> = Vec::new();
    let mut i: usize = 0;
    assert(vues_numerotees(r@) =~= lignes_de_triplets(lv, 0));
    while i < n
        invariant
            i <= n,
            n == l@.len(),
            texte::vues(l@) == lv,
            lv.len() == n,
            vues_numerotees(r@) == lignes_de_triplets(lv, i as int),
        decreases n - i,
    {
        assert(texte::vues(l@)[i as int] == l@[i as int]@);
        let t: Vec<char> = texte::rogner(&l[i]);
        if t.len() > 0 && !texte::debute_par(&t, "v_champion") {
            let ghost avant = vues_numerotees(r@);
            let c: Vec<String> = champs(&t);
            let ghost cv = texte::vues_textes(c@);
            r.push((i + 1, c));
            assert(vues_numerotees(r@) =~= avant.push((i as int + 1, cv)));
        }
        i += 1;
    }
    r
}

/// Why a record of triplets is refused.
#[derive(Debug, Clone, Copy, PartialEq, Eq, Structural)]
pub enum ErreurTriplets {
    /// That line does not hold three numbers.
    Imparsable(usize),
    /// No triplet at all.
    Aucun,
}

/// Three numbers and nothing else?
pub open spec fn est_triplet(v: Seq<Option<u64>>) -> bool {
    v.len() == 3 && v[0] is Some && v[1] is Some && v[2] is Some
}

/// Makes triplets of the numbered lines once their fields were read as `f64`
/// bits. The first line that is no triplet is refused.
pub fn triplets_lus(numeros: &Vec<usize>, valeurs: &Vec<Vec<Option<u64>>>) -> (r: Result<
    Vec<(u64, u64, u64)>,
    ErreurTriplets,
>)
    requires
        numeros@.len() == valeurs@.len(),
    ensures
        match r {
            Ok(t) => t@.len() > 0 && t@.len() == valeurs@.len() && forall|i: int|
                0 <= i < t@.len() ==> est_triplet((#[trigger] valeurs@[i])@) && t@[i] == (
                    valeurs@[i]@[0]->0,
                    valeurs@[i]@[1]->0,
                    valeurs@[i]@[2]->0,
                ),
            Err(ErreurTriplets::Aucun) => valeurs@.len() == 0,
            Err(ErreurTriplets::Imparsable(n)) => exists|k: int|
                0 <= k < valeurs@.len() && n == numeros@[k] && !est_triplet(
                    (#[trigger] valeurs@[k])@,
                ) && forall|i: int| 0 <= i < k ==> est_triplet((#[trigger] valeurs@[i])@),
        },
{
    let mut t: Vec<(u64, u64, u64)> = Vec::new();
    let mut i: usize = 0;
    while i < valeurs.len()
        invariant
            i <= valeurs@.len(),
            numeros@.len() == valeurs@.len(),
            t@.len() == i,
            forall|k: int|
                0 <= k < i ==> est_triplet((#[trigger] valeurs@[k])@) && t@[k] == (
                    valeurs@[k]@[0]->0,
                    valeurs@[k]@[1]->0,
                    valeurs@[k]@[2]->0,
                ),
        decreases valeurs.len() - i,
    {
        if valeurs[i].len() != 3 {
            assert(!est_triplet(valeurs@[i as int]@));
            return Err(ErreurTriplets::Imparsable(numeros[i]));
        }
        match (valeurs[i][0], valeurs[i][1], valeurs[i][2]) {
            (Some(a), Some(b), Some(c)) => {
                t.push((a, b, c));
            },
            _ => {
                assert(!est_triplet(valeurs@[i as int]@));
                return Err(ErreurTriplets::Imparsable(numeros[i]));
            },
        }
        i += 1;
    }
    if t.len() == 0 {
        return Err(ErreurTriplets::Aucun);
    }
    Ok(t)
}

// ---------------------------------------------------------------------------
// Ranks, slices and nodes
// ---------------------------------------------------------------------------

/// How many of the first `n` values are below `x`.
pub open spec fn plus_petits(v: Seq<i64>, x: i64, n: int) -> int
    decreases n,
{
    if n <= 0 {
        0
    } else {
        plus_petits(v, x, n - 1) + if v[n - 1] < x {
            1int
        } else {
            0
        }
    }
}

/// How many of the first `n` values are equal to `x`.
pub open spec fn egaux(v: Seq<i64>, x: i64, n: int) -> int
    decreases n,
{
    if n <= 0 {
        0
    } else {
        egaux(v, x, n - 1) + if v[n - 1] == x {
            1int
        } else {
            0
        }
    }
}

/// Twice the rank of `x` among the values, counted from one; equal values share
/// the mean of their ranks.
pub open spec fn double_rang(v: Seq<i64>, x: i64) -> int {
    2 * plus_petits(v, x, v.len() as int) + egaux(v, x, v.len() as int) + 1
}

/// Twice the rank of every value, equal values sharing the mean of theirs.
/// Values are given as integers in their order.
pub fn rangs(v: &Vec<i64>) -> (r: Vec<u64>)
    requires
        2 * v@.len() < u64::MAX,
    ensures
        r@.len() == v@.len(),
        forall|i: int| 0 <= i < r@.len() ==> #[trigger] r@[i] == double_rang(v@, v@[i]),
{
    let n: usize = v.len();
    let mut r: Vec<u64> = Vec::new();
    let mut i: usize = 0;
    while i < n
        invariant
            i <= n,
            n == v@.len(),
            2 * v@.len() < u64::MAX,
            r@.len() == i,
            forall|k: int| 0 <= k < i ==> #[trigger] r@[k] == double_rang(v@, v@[k]),
        decreases n - i,
    {
        let x: i64 = v[i];
        let mut bas: u64 = 0;
        let mut meme: u64 = 0;
        let mut j: usize = 0;
        while j < n
            invariant
                j <= n,
                n == v@.len(),
                2 * v@.len() < u64::MAX,
                bas == plus_petits(v@, x, j as int),
                meme == egaux(v@, x, j as int),
                bas + meme <= j,
            decreases n - j,
        {
            if v[j] < x {
                bas += 1;
            } else if v[j] == x {
                meme += 1;
            }
            j += 1;
        }
        r.push(2 * bas + meme + 1);
        i += 1;
    }
    r
}

/// Place of the step of a staircase that a value stands on: the last one whose
/// abscissa does not exceed it, the first one below them all. Abscissas and
/// value are order keys, the abscissas by growing order.
pub fn palier(xs: &Vec<i64>, q: i64) -> (r: usize)
    requires
        xs@.len() > 0,
        forall|i: int, j: int| 0 <= i < j < xs@.len() ==> xs@[i] < xs@[j],
    ensures
        r < xs@.len(),
        r > 0 ==> xs@[r as int] <= q,
        r + 1 < xs@.len() ==> q < xs@[r + 1],
{
    let mut bas: usize = 0;
    let mut haut: usize = xs.len();
    while haut - bas > 1
        invariant
            bas < haut <= xs@.len(),
            forall|i: int, j: int| 0 <= i < j < xs@.len() ==> xs@[i] < xs@[j],
            bas > 0 ==> xs@[bas as int] <= q,
            haut < xs@.len() ==> q < xs@[haut as int],
        decreases haut - bas,
    {
        let m: usize = bas + (haut - bas) / 2;
        if xs[m] <= q {
            bas = m;
        } else {
            haut = m;
        }
    }
    bas
}

/// Slice `q` of twenty of `n` values: its first place and the place behind its
/// last.
pub open spec fn bornes_tranche(q: int, n: int) -> (int, int) {
    (q * n / 20, (q + 1) * n / 20)
}

/// Slice `q` of twenty of `n` values.
pub fn tranche(q: usize, n: usize) -> (r: (usize, usize))
    requires
        q < 20,
        20 * n <= usize::MAX,
    ensures
        (r.0 as int, r.1 as int) == bornes_tranche(q as int, n as int),
{
    proof {
        assert(q * n <= 20 * n) by (nonlinear_arith)
            requires
                q < 20,
        ;
        assert((q + 1) * n <= 20 * n) by (nonlinear_arith)
            requires
                q < 20,
        ;
        assert(0 <= q * n) by (nonlinear_arith);
        assert(0 <= (q + 1) * n) by (nonlinear_arith);
    }
    (q * n / 20, (q + 1) * n / 20)
}

/// The twenty slices follow one another from the first value to the last.
pub proof fn loi_tranches_partitionnent(q: int, n: int)
    requires
        0 <= q < 20,
        0 <= n,
    ensures
        bornes_tranche(0, n).0 == 0,
        bornes_tranche(19, n).1 == n,
        bornes_tranche(q, n).1 == bornes_tranche(q + 1, n).0,
        bornes_tranche(q, n).0 <= bornes_tranche(q, n).1,
{
    assert(0 * n == 0);
    assert(20 * n / 20 == n);
    assert((q + 1) * n == q * n + n) by (nonlinear_arith);
}

/// Place of the `k`-th of 64 quantiles among `n` sorted values.
pub open spec fn place_quantile(k: int, n: int) -> int {
    k * (n - 1) / 63
}

/// Sorted from the smallest on.
pub open spec fn triee(v: Seq<i64>) -> bool {
    forall|i: int, j: int| 0 <= i <= j < v.len() ==> #[trigger] v[i] <= #[trigger] v[j]
}

/// Places of the first `k` quantiles of the sorted labels, each value once.
pub open spec fn noeuds_de(tri: Seq<i64>, k: int) -> Seq<int>
    decreases k,
{
    if k <= 0 {
        Seq::empty()
    } else {
        let d = noeuds_de(tri, k - 1);
        let q = place_quantile(k - 1, tri.len() as int);
        if d.len() == 0 || tri[q] > tri[d.last()] {
            d.push(q)
        } else {
            d
        }
    }
}

/// Places of the nodes of a recalibration table: the 64 quantiles of the sorted
/// labels, each value once.
pub fn noeuds(tri: &Vec<i64>) -> (r: Vec<usize>)
    requires
        0 < 64 * tri@.len() <= usize::MAX,
    ensures
        r@.map_values(|i: usize| i as int) == noeuds_de(tri@, 64),
        forall|i: int| 0 <= i < r@.len() ==> #[trigger] r@[i] < tri@.len(),
{
    let n: usize = tri.len();
    let ghost f = |i: usize| i as int;
    let mut r: Vec<usize> = Vec::new();
    let mut k: usize = 0;
    assert(r@.map_values(f) =~= noeuds_de(tri@, 0));
    while k < N_NOEUDS_FIT
        invariant
            k <= 64,
            n == tri@.len(),
            0 < 64 * n <= usize::MAX,
            f == |i: usize| i as int,
            r@.map_values(f) == noeuds_de(tri@, k as int),
            forall|i: int| 0 <= i < r@.len() ==> #[trigger] r@[i] < n,
        decreases 64 - k,
    {
        proof {
            lemme_place(k as int, n as int);
        }
        let q: usize = k * (n - 1) / 63;
        let ghost avant = r@.map_values(f);
        let garde: bool = if r.len() == 0 {
            true
        } else {
            assert(avant.last() == r@[r@.len() - 1]);
            tri[q] > tri[r[r.len() - 1]]
        };
        if garde {
            r.push(q);
            assert(r@.map_values(f) =~= avant.push(q as int));
        }
        k += 1;
    }
    r
}

/// Does one of the nodes have that label?
pub open spec fn a_le_label(tri: Seq<i64>, d: Seq<int>, x: i64) -> bool {
    exists|i: int| 0 <= i < d.len() && tri[#[trigger] d[i]] == x
}

/// The labels of the nodes grow strictly, and the label of every quantile is
/// that of a node.
pub proof fn loi_noeuds(tri: Seq<i64>, k: int)
    requires
        0 < tri.len(),
        triee(tri),
        0 <= k <= 64,
    ensures
        forall|i: int, j: int|
            0 <= i < j < noeuds_de(tri, k).len() ==> tri[#[trigger] noeuds_de(tri, k)[i]]
                < tri[#[trigger] noeuds_de(tri, k)[j]],
        forall|m: int|
            0 <= m < k ==> a_le_label(
                tri,
                noeuds_de(tri, k),
                tri[#[trigger] place_quantile(m, tri.len() as int)],
            ),
        k > 0 ==> noeuds_de(tri, k).len() > 0 && tri[noeuds_de(tri, k).last()] == tri[place_quantile(
            k - 1,
            tri.len() as int,
        )],
    decreases k,
{
    if k > 0 {
        loi_noeuds(tri, k - 1);
        let n = tri.len() as int;
        let d = noeuds_de(tri, k - 1);
        let e = noeuds_de(tri, k);
        let q = place_quantile(k - 1, n);
        lemme_place(k - 1, n);
        if k > 1 {
            lemme_place(k - 2, n);
            lemme_places_croissent(k - 2, k - 1, n);
            assert(tri[place_quantile(k - 2, n)] <= tri[q]);
        }
        assert forall|m: int| 0 <= m < k implies a_le_label(
            tri,
            e,
            tri[#[trigger] place_quantile(m, n)],
        ) by {
            if m < k - 1 {
                assert(a_le_label(tri, d, tri[place_quantile(m, n)]));
                let i = choose|i: int|
                    0 <= i < d.len() && tri[#[trigger] d[i]] == tri[place_quantile(m, n)];
                assert(e[i] == d[i]);
            } else {
                assert(tri[e[e.len() - 1]] == tri[q]);
            }
        }
    }
}

proof fn lemme_place(k: int, n: int)
    requires
        0 <= k < 64,
        0 < n,
    ensures
        0 <= place_quantile(k, n) < n,
        0 <= k * (n - 1) <= 63 * (n - 1),
{
    assert(0 <= k * (n - 1) <= 63 * (n - 1)) by (nonlinear_arith)
        requires
            0 <= k < 64,
            0 < n,
    ;
}

proof fn lemme_places_croissent(a: int, b: int, n: int)
    requires
        0 <= a <= b < 64,
        0 < n,
    ensures
        place_quantile(a, n) <= place_quantile(b, n),
{
    assert(a * (n - 1) <= b * (n - 1)) by (nonlinear_arith)
        requires
            0 <= a <= b,
            0 < n,
    ;
}

/// Is a recalibration table usable: its labels run from -1 to 1, both columns
/// grow strictly, and no value leaves the range from -1 to 1? `x` and `y` are
/// the columns as integers in their order, `moins_un` and `un` the ends.
pub open spec fn table_valide(x: Seq<i64>, y: Seq<i64>, moins_un: i64, un: i64) -> bool {
    &&& x.len() == y.len()
    &&& x.len() >= 2
    &&& x[0] == moins_un
    &&& x.last() == un
    &&& forall|k: int| 1 <= k < x.len() ==> #[trigger] x[k] > x[k - 1]
    &&& forall|k: int| 1 <= k < y.len() ==> #[trigger] y[k] > y[k - 1]
    &&& forall|k: int| 1 <= k < y.len() ==> moins_un <= #[trigger] y[k] <= un
}

/// Checks a recalibration table before it is written.
pub fn verifie_table(x: &Vec<i64>, y: &Vec<i64>, moins_un: i64, un: i64) -> (r: bool)
    ensures
        r == table_valide(x@, y@, moins_un, un),
{
    let n: usize = x.len();
    if y.len() != n || n < 2 {
        return false;
    }
    if x[0] != moins_un || x[n - 1] != un {
        return false;
    }
    let mut k: usize = 1;
    while k < n
        invariant
            1 <= k <= n,
            n == x@.len(),
            n == y@.len(),
            forall|m: int| 1 <= m < k ==> #[trigger] x@[m] > x@[m - 1],
            forall|m: int| 1 <= m < k ==> #[trigger] y@[m] > y@[m - 1],
            forall|m: int| 1 <= m < k ==> moins_un <= #[trigger] y@[m] <= un,
        decreases n - k,
    {
        if x[k] <= x[k - 1] || y[k] <= y[k - 1] || y[k] < moins_un || y[k] > un {
            assert(!(x@[k as int] > x@[k as int - 1]) || !(y@[k as int] > y@[k as int - 1]) || !(
            moins_un <= y@[k as int] <= un));
            return false;
        }
        k += 1;
    }
    true
}

// ---------------------------------------------------------------------------
// Laws of a measure
// ---------------------------------------------------------------------------

/// A run counts decided positions of one side in a row: a value of at least
/// the threshold for White lengthens a White run by one or starts one, the
/// opposite value does so for Black, and anything between ends the run.
pub proof fn loi_serie(serie: int, v: u32, seuil: u32)
    requires
        !reels::nan(v),
        !reels::nan(seuil),
        reels::cle(seuil) > 0,
    ensures
        reels::cle(v) >= reels::cle(seuil) && serie >= 0 ==> serie_suivante(serie, v, seuil) == serie
            + 1,
        reels::cle(v) >= reels::cle(seuil) && serie < 0 ==> serie_suivante(serie, v, seuil) == 1,
        reels::cle(v) <= -reels::cle(seuil) && serie <= 0 ==> serie_suivante(serie, v, seuil)
            == serie - 1,
        reels::cle(v) <= -reels::cle(seuil) && serie > 0 ==> serie_suivante(serie, v, seuil) == -1,
        -reels::cle(seuil) < reels::cle(v) < reels::cle(seuil) ==> serie_suivante(serie, v, seuil)
            == 0,
        serie_suivante(-serie, reels::oppose(v), seuil) == -serie_suivante(serie, v, seuil),
{
    reels::loi_oppose(seuil);
    reels::loi_oppose(v);
}

/// A game is decided by a run as long as asked, for either side; asking for
/// none switches this off.
pub proof fn loi_tranchee(serie: int, plis: u32)
    ensures
        !tranchee(serie, 0),
        tranchee(serie, plis) == tranchee(-serie, plis),
        plis > 0 && serie >= 0 ==> (tranchee(serie, plis) <==> serie >= plis),
{
}

/// A measured game stops without a legal move, at a draw or after three
/// hundred half-moves.
pub proof fn loi_arret_de_la_mesure(e: EtatPosition, plies: int)
    ensures
        arretee(e, plies) <==> e.n_coups == 0 || e.insuffisant || e.demi_coups >= 100 || plies
            >= 300,
{
}

/// Measuring a position records it as it stands, with the champion's value and
/// the label, and leaves the game where it is; the run follows the label where
/// there is one and the pupil's value otherwise, both seen by White.
pub proof fn loi_position_mesuree(
    m: VueMesure,
    p: echiquier::VuePosition,
    v_eleve: u32,
    v_champion: u32,
    label1: Option<u32>,
    seuil: u32,
    plis: u32,
)
    requires
        mesure_en_regle(m),
        echiquier::position_de(m.jeu.fens.last()) == Some(p),
    ensures
        ({
            let r = mesuree(m, v_eleve, v_champion, label1, seuil, plis);
            let v = match label1 {
                Some(l) => l,
                None => v_eleve,
            };
            &&& r.jeu == m.jeu
            &&& r.lignes.len() == m.lignes.len() + 1
            &&& m.lignes.is_prefix_of(r.lignes)
            &&& r.lignes.last() == (m.jeu.fens.last(), v_champion, label1)
            &&& p.1 ==> r.serie == serie_suivante(m.serie, v, seuil)
            &&& !p.1 && !reels::nan(seuil) && reels::cle(seuil) > 0 ==> r.serie == -serie_suivante(
                -m.serie,
                v,
                seuil,
            )
            &&& !p.1 ==> r.serie == serie_suivante(m.serie, reels::oppose(v), seuil)
            &&& r.finie <==> plis > 0 && (r.serie >= plis || r.serie <= -plis)
        }),
{
    let v = match label1 {
        Some(l) => l,
        None => v_eleve,
    };
    reels::loi_oppose(v);
    reels::loi_oppose(seuil);
}

/// A played move stays in the measure as in the game, and ends it at the third
/// occurrence of a position, without a legal move, at a draw or at the longest
/// length.
pub proof fn loi_mesure_avancee(m: VueMesure, uci: Seq<char>, p: echiquier::VuePosition)
    requires
        avancee(m, uci) is Some,
        echiquier::position_de(avancee(m, uci)->0.jeu.fens.last()) == Some(p),
    ensures
        ({
            let r = avancee(m, uci)->0;
            &&& r.lignes == m.lignes
            &&& r.serie == m.serie
            &&& Some(r.jeu) == jeu::jeu_suivant(m.jeu, uci)
            &&& r.finie <==> jeu::repetitions(r.jeu.hachages) >= 3 || p.6 == 0 || p.8 || p.4 >= 100
                || r.jeu.coups.len() >= 300
        }),
        avancee(m, uci) is None <==> jeu::jeu_suivant(m.jeu, uci) is None,
{
}

/// A new measure has no line and no run, and is over at once only where the
/// game is.
pub proof fn loi_mesure_neuve(fen: Seq<char>, p: echiquier::VuePosition)
    requires
        echiquier::position_de(fen) == Some(p),
    ensures
        mesure_neuve(fen).lignes.len() == 0,
        mesure_neuve(fen).serie == 0,
        mesure_neuve(fen).finie <==> p.6 == 0 || p.8 || p.4 >= 100,
        mesure_neuve(fen).jeu == jeu::jeu_neuf(fen),
{
}

/// Labelled positions are counted one by one, game after game.
pub proof fn loi_compte_des_etiquettes(parties: Seq<Vec<bool>>, p: int, k: int)
    requires
        0 <= p < parties.len(),
        0 <= k < parties[p]@.len(),
    ensures
        etiquetees(parties[p]@, k + 1) == etiquetees(parties[p]@, k) + if parties[p]@[k] {
            1int
        } else {
            0int
        },
        etiquetees(parties[p]@, 0) == 0,
        cumul(parties, 0) == 0,
        cumul(parties, p + 1) == cumul(parties, p) + etiquetees(
            parties[p]@,
            parties[p]@.len() as int,
        ),
{
}

/// A position is kept exactly while fewer labelled ones than asked came before
/// it: what is kept is the start of the games, and when a position is kept so
/// is every earlier one.
pub proof fn loi_conservees_au_debut(parties: Seq<Vec<bool>>, cible: int, p: int, k: int, m: int)
    requires
        0 <= p < parties.len(),
        0 <= m <= k <= parties[p]@.len(),
    ensures
        conservee(parties, cible, p, k) ==> conservee(parties, cible, p, m),
        p == 0 ==> (conservee(parties, cible, p, 0) <==> cible > 0),
{
    lemme_etiquetees_croit(parties[p]@, m, k);
}

proof fn lemme_etiquetees_croit(p: Seq<bool>, a: int, b: int)
    requires
        0 <= a <= b <= p.len(),
    ensures
        etiquetees(p, a) <= etiquetees(p, b),
    decreases b,
{
    if a < b {
        lemme_etiquetees_croit(p, a, b - 1);
    }
}

/// A complete line has the champion's value and both labels, in order; a line
/// short of a label is left out.
pub proof fn loi_lignes_completes(
    lignes: Seq<(u32, Option<u32>)>,
    labels2: Seq<Option<u32>>,
    n: int,
    a: u32,
    b: u32,
)
    requires
        0 < n <= lignes.len(),
        n <= labels2.len(),
    ensures
        lignes[n - 1].1 == Some(a) && labels2[n - 1] == Some(b) ==> complets(lignes, labels2, n)
            == complets(lignes, labels2, n - 1).push((lignes[n - 1].0, a, b)),
        lignes[n - 1].1 is None || labels2[n - 1] is None ==> complets(lignes, labels2, n) == complets(
            lignes,
            labels2,
            n - 1,
        ),
        complets(lignes, labels2, 0).len() == 0,
{
}

/// Ranks come from the order: equal values share a rank, a smaller value has a
/// smaller one, and reversing the order turns a rank into its complement, so
/// that ties get the mean of the ranks they take up.
pub proof fn loi_rangs(v: Seq<i64>, w: Seq<i64>, x: i64, y: i64)
    requires
        w.len() == v.len(),
        x > i64::MIN,
        forall|i: int| 0 <= i < v.len() ==> #[trigger] w[i] == -v[i],
        v.contains(x),
    ensures
        double_rang(v, x) + double_rang(w, (-x) as i64) == 2 * v.len() + 2,
        x < y && v.contains(y) ==> double_rang(v, x) < double_rang(v, y),
        2 <= double_rang(v, x) <= 2 * v.len(),
{
    let n = v.len() as int;
    lemme_rangs_opposes(v, w, x, n);
    lemme_rangs_bornes(v, x, n);
    lemme_un_egal(v, x, n);
    if x < y && v.contains(y) {
        lemme_rangs_ordonnes(v, x, y, n);
        lemme_un_egal(v, y, n);
    }
}

proof fn lemme_rangs_opposes(v: Seq<i64>, w: Seq<i64>, x: i64, n: int)
    requires
        0 <= n <= v.len(),
        w.len() == v.len(),
        x > i64::MIN,
        forall|i: int| 0 <= i < v.len() ==> #[trigger] w[i] == -v[i],
    ensures
        plus_petits(v, x, n) + plus_petits(w, (-x) as i64, n) + egaux(v, x, n) == n,
        egaux(w, (-x) as i64, n) == egaux(v, x, n),
    decreases n,
{
    if n > 0 {
        lemme_rangs_opposes(v, w, x, n - 1);
        assert(w[n - 1] == -v[n - 1]);
    }
}

proof fn lemme_rangs_bornes(v: Seq<i64>, x: i64, n: int)
    requires
        0 <= n <= v.len(),
    ensures
        0 <= plus_petits(v, x, n),
        0 <= egaux(v, x, n),
        plus_petits(v, x, n) + egaux(v, x, n) <= n,
    decreases n,
{
    if n > 0 {
        lemme_rangs_bornes(v, x, n - 1);
    }
}

proof fn lemme_un_egal(v: Seq<i64>, x: i64, n: int)
    requires
        0 <= n <= v.len(),
    ensures
        egaux(v, x, n) >= 0,
        (exists|i: int| 0 <= i < n && v[i] == x) ==> egaux(v, x, n) >= 1,
    decreases n,
{
    if n > 0 {
        lemme_un_egal(v, x, n - 1);
    }
}

proof fn lemme_rangs_ordonnes(v: Seq<i64>, x: i64, y: i64, n: int)
    requires
        0 <= n <= v.len(),
        x < y,
    ensures
        plus_petits(v, y, n) >= plus_petits(v, x, n) + egaux(v, x, n),
    decreases n,
{
    if n > 0 {
        lemme_rangs_ordonnes(v, x, y, n - 1);
    }
}

/// The twenty slices are even: any two differ by one position at most.
pub proof fn loi_tranches_egales(q: int, n: int)
    requires
        0 <= q < 20,
        0 <= n,
    ensures
        n / 20 <= bornes_tranche(q, n).1 - bornes_tranche(q, n).0 <= n / 20 + 1,
{
    assert((q + 1) * n == q * n + n) by (nonlinear_arith);
}

/// Quantiles run from the first value to the last one, in growing places.
pub proof fn loi_quantiles(k: int, n: int)
    requires
        0 <= k < 63,
        n > 0,
    ensures
        place_quantile(0, n) == 0,
        place_quantile(63, n) == n - 1,
        0 <= place_quantile(k, n) <= place_quantile(k + 1, n) <= n - 1,
        63 * place_quantile(k, n) <= k * (n - 1) < 63 * place_quantile(k, n) + 63,
{
    assert((k + 1) * (n - 1) == k * (n - 1) + (n - 1)) by (nonlinear_arith);
    assert(0 <= k * (n - 1)) by (nonlinear_arith)
        requires
            k >= 0,
            n >= 1,
    ;
    assert((k + 1) * (n - 1) <= 63 * (n - 1)) by (nonlinear_arith)
        requires
            k < 63,
            n >= 1,
    ;
}

/// A valid table grows from end to end, from minus one to one, in both
/// columns.
pub proof fn loi_table_croissante(
    x: Seq<i64>,
    y: Seq<i64>,
    moins_un: i64,
    un: i64,
    i: int,
    j: int,
)
    requires
        table_valide(x, y, moins_un, un),
        0 <= i < j < x.len(),
    ensures
        x[i] < x[j],
        y[i] < y[j] <= un,
        x[0] == moins_un && x[x.len() - 1] == un,
        moins_un <= y[j],
    decreases j - i,
{
    assert(x[j] > x[j - 1]);
    assert(y[j] > y[j - 1]);
    if i < j - 1 {
        loi_table_croissante(x, y, moins_un, un, i, j - 1);
    }
}

/// A header line and an empty line hold no triplet; a triplet has three
/// numbers.
pub proof fn loi_triplets(l: Seq<char>, v: Seq<Option<u64>>)
    ensures
        texte::rogne(l).len() == 0 ==> hors_triplet(l),
        est_triplet(v) <==> v.len() == 3 && forall|i: int|
            0 <= i < 3 ==> (#[trigger] v[i]) is Some,
{
}

/// The first half-moves of a start are drawn warm, as many as it asks for, and
/// the others at the usual temperature.
pub proof fn loi_temperature(plies: u32, chauds: u32, ouverture: u32, normale: u32, r: u32)
    requires
        call_ensures(temperature_du_pli, (plies, chauds, ouverture, normale), r),
    ensures
        plies < chauds ==> r == ouverture,
        plies >= chauds ==> r == normale,
{
}

/// A wave plays a game for every sixty positions missing, one more, and never
/// fewer games than there are workers.
pub proof fn loi_taille_de_vague(manque: usize, ouvriers: usize, r: usize)
    requires
        call_ensures(taille_vague, (manque, ouvriers), r),
    ensures
        60 * r > manque,
        r >= ouvriers,
        r > ouvriers ==> 60 * (r - 1) <= manque,
{
}

/// A staircase has one step for a value: the last abscissa that it reaches, or
/// the first one when it reaches none.
pub proof fn loi_marche(xs: Vec<i64>, q: i64, r: usize, i: int)
    requires
        xs@.len() > 0,
        forall|i: int, j: int| 0 <= i < j < xs@.len() ==> xs@[i] < xs@[j],
        call_ensures(palier, (&xs, q), r),
        0 <= i < xs@.len(),
    ensures
        i > r ==> xs@[i] > q,
        0 < i <= r ==> xs@[i] <= q,
{
    if i > r + 1 {
        assert(xs@[r + 1] < xs@[i]);
    }
    if i < r {
        assert(xs@[i] < xs@[r as int]);
    }
}

/// Lines of a file of triplets: every line but headers and empty ones, with its
/// number counted from 1 and its trimmed fields.
pub proof fn loi_lignes_de_triplets(l: Seq<Seq<char>>, n: int)
    requires
        0 <= n < l.len(),
    ensures
        ({
            let a = lignes_de_triplets(l, n);
            let b = lignes_de_triplets(l, n + 1);
            let t = texte::rogne(l[n]);
            let saute = t.len() == 0 || texte::commence_par(t, "v_champion"@);
            &&& saute ==> b == a
            &&& !saute ==> b == a.push((n + 1, champs_de(l[n])))
        }),
        lignes_de_triplets(l, 0).len() == 0,
        forall|i: int|
            0 <= i < champs_de(l[n]).len() ==> #[trigger] champs_de(l[n])[i] == texte::rogne(
                texte::morceaux(texte::rogne(l[n]), ',')[i],
            ),
{
}

} // verus!
