//! Rating ladder: duels against anchors of growing strength, and the adaptive
//! choice of the anchors that a measure plays.
use vstd::prelude::*;

use crate::arena;
use crate::bots;
use crate::bots::Bot;
use crate::graines;
use crate::jeu;
use crate::jeu::Jeu;
use crate::texte;

verus! {

/// A share of points between 0 and 1.
///
/// `bits` is the binary64 pattern of the share; `ecart` is the binary64
/// pattern of its distance to the informative band, zero inside the band.
/// Patterns of positive numbers are ordered like the numbers.
#[derive(Debug, Clone, Copy, PartialEq, Eq, Structural)]
pub struct Score {
    pub bits: u64,
    pub ecart: u64,
}

/// Kind of opponent.
#[derive(Debug, Clone, Copy, PartialEq, Eq, Structural)]
pub enum GenreAncre {
    /// House bot: random play, or material search to a depth.
    Maison { profondeur: Option<u32> },
    /// UCI engine of limited strength.
    Uci { elo_nominal: u32, movetime_ms: u64 },
}

/// An anchor of the ladder.
#[derive(Debug, Clone, Copy)]
pub struct Ancre {
    pub nom: &'static str,
    pub elo: u32,
    pub genre: GenreAncre,
}

/// The ladder, by growing strength: house bots below, an engine of limited
/// strength above. The order matters: seeds come from ranks within a kind.
pub open spec fn echelle() -> Seq<Ancre> {
    seq![
        Ancre { nom: "aleatoire", elo: 400, genre: GenreAncre::Maison { profondeur: None } },
        Ancre { nom: "materiel d1", elo: 800, genre: GenreAncre::Maison { profondeur: Some(1) } },
        Ancre { nom: "materiel d2", elo: 1100, genre: GenreAncre::Maison { profondeur: Some(2) } },
        Ancre { nom: "materiel d3", elo: 1350, genre: GenreAncre::Maison { profondeur: Some(3) } },
        Ancre { nom: "materiel d4", elo: 1550, genre: GenreAncre::Maison { profondeur: Some(4) } },
        Ancre {
            nom: "stockfish 1700",
            elo: 1700,
            genre: GenreAncre::Uci { elo_nominal: 1700, movetime_ms: 60 },
        },
        Ancre {
            nom: "stockfish 2000",
            elo: 2000,
            genre: GenreAncre::Uci { elo_nominal: 2000, movetime_ms: 60 },
        },
        Ancre {
            nom: "stockfish 2300",
            elo: 2300,
            genre: GenreAncre::Uci { elo_nominal: 2300, movetime_ms: 60 },
        },
    ]
}

/// A house anchor.
fn ancre_maison(nom: &'static str, elo: u32, profondeur: Option<u32>) -> (r: Ancre)
    ensures
        r == (Ancre { nom, elo, genre: GenreAncre::Maison { profondeur } }),
{
    Ancre { nom, elo, genre: GenreAncre::Maison { profondeur } }
}

/// An engine anchor, sixty milliseconds a move.
fn ancre_uci(nom: &'static str, elo: u32) -> (r: Ancre)
    ensures
        r == (Ancre { nom, elo, genre: GenreAncre::Uci { elo_nominal: elo, movetime_ms: 60 } }),
{
    Ancre { nom, elo, genre: GenreAncre::Uci { elo_nominal: elo, movetime_ms: 60 } }
}

/// The anchors of the ladder.
pub fn ancres() -> (r: Vec<Ancre>)
    ensures
        r@ == echelle(),
{
    let mut v: Vec<Ancre> = Vec::new();
    v.push(ancre_maison("aleatoire", 400, None));
    v.push(ancre_maison("materiel d1", 800, Some(1)));
    v.push(ancre_maison("materiel d2", 1100, Some(2)));
    v.push(ancre_maison("materiel d3", 1350, Some(3)));
    v.push(ancre_maison("materiel d4", 1550, Some(4)));
    v.push(ancre_uci("stockfish 1700", 1700));
    v.push(ancre_uci("stockfish 2000", 2000));
    v.push(ancre_uci("stockfish 2300", 2300));
    assert(v@ =~= echelle());
    v
}

/// Score measured against an anchor.
#[derive(Debug, Clone, Copy)]
pub struct MesureAncre {
    pub nom: &'static str,
    pub elo_ancre: u32,
    pub score: Score,
    pub parties: usize,
}

/// Pattern of 0.15: an idle anchor enters at or above this share.
pub const SCORE_INFORMATIF_MIN: u64 = 0x3FC3_3333_3333_3333;

/// Pattern of 0.85: an idle anchor enters at or below this share.
pub const SCORE_INFORMATIF_MAX: u64 = 0x3FEB_3333_3333_3333;

/// Pattern of 0.10: an active anchor stays at or above this share.
pub const SCORE_MAINTIEN_MIN: u64 = 0x3FB9_9999_9999_999A;

/// Pattern of 0.90: an active anchor stays at or below this share.
pub const SCORE_MAINTIEN_MAX: u64 = 0x3FEC_CCCC_CCCC_CCCD;

/// A measure plays at least this many anchors.
pub const ANCRES_ACTIVES_MIN: usize = 3;

/// Measures between two soundings of a saturated anchor.
pub const PERIODE_RESONDAGE: u64 = 25;

/// Games of a sounding.
pub const PARTIES_RESONDAGE: usize = 12;

/// Measures after which anchor `index` is sounded again; shifted from one
/// anchor to the next so that soundings do not come in bursts.
pub fn echeance_resondage(index: usize) -> (r: u64)
    requires
        25 + 2 * index <= u64::MAX,
    ensures
        r == 25 + 2 * index,
{
    PERIODE_RESONDAGE + 2 * index as u64
}

/// No two anchors are due at the same age.
pub proof fn loi_echeances_distinctes(i: usize, j: usize)
    requires
        i != j,
    ensures
        25 + 2 * i != 25 + 2 * j,
{
}

/// One line of a measure's plan.
#[derive(Debug, Clone, Copy, PartialEq, Eq, Structural)]
pub struct PlanAncre {
    /// Index in the list of anchors.
    pub index: usize,
    /// Games given to the anchor in this measure.
    pub parties: usize,
    /// Played only to sound a saturated anchor again?
    pub resondage: bool,
}

/// Is the anchor a house bot?
pub open spec fn maison(a: Ancre) -> bool {
    a.genre is Maison
}

fn est_maison(a: &Ancre) -> (r: bool)
    ensures
        r == maison(*a),
{
    match a.genre {
        GenreAncre::Maison { .. } => true,
        GenreAncre::Uci { .. } => false,
    }
}

// ---------------------------------------------------------------------------
// Counting over indices
// ---------------------------------------------------------------------------

/// How many indices below `n` meet the condition.
pub open spec fn compte(n: int, f: spec_fn(int) -> bool) -> int
    decreases n,
{
    if n <= 0 {
        0
    } else {
        compte(n - 1, f) + if f(n - 1) {
            1int
        } else {
            0int
        }
    }
}

pub proof fn lemme_compte_borne(n: int, f: spec_fn(int) -> bool)
    requires
        0 <= n,
    ensures
        0 <= compte(n, f) <= n,
    decreases n,
{
    if n > 0 {
        lemme_compte_borne(n - 1, f);
    }
}

pub proof fn lemme_compte_egal(n: int, f: spec_fn(int) -> bool, g: spec_fn(int) -> bool)
    requires
        forall|i: int| 0 <= i < n ==> #[trigger] f(i) == g(i),
    ensures
        compte(n, f) == compte(n, g),
    decreases n,
{
    if n > 0 {
        lemme_compte_egal(n - 1, f, g);
    }
}

pub proof fn lemme_compte_croit(a: int, b: int, f: spec_fn(int) -> bool)
    requires
        0 <= a <= b,
    ensures
        compte(a, f) <= compte(b, f) <= compte(a, f) + (b - a),
    decreases b,
{
    if a < b {
        lemme_compte_croit(a, b - 1, f);
    }
}

/// Taking one index out lowers the count by one.
pub proof fn lemme_compte_sans(n: int, f: spec_fn(int) -> bool, p: int)
    requires
        0 <= p < n,
        f(p),
    ensures
        compte(n, |i: int| f(i) && i != p) == compte(n, f) - 1,
    decreases n,
{
    let g = |i: int| f(i) && i != p;
    if p == n - 1 {
        lemme_compte_egal(n - 1, f, g);
    } else {
        lemme_compte_sans(n - 1, f, p);
    }
}

/// Rank of an anchor among those of its kind.
pub open spec fn rang_attendu(ancres: Seq<Ancre>, index: int) -> int {
    compte(index, |i: int| maison(ancres[i]) == maison(ancres[index]))
}

/// Rank of an anchor among those of its kind, in the order of the ladder.
/// Seeds of duels come from it, so that leaving one anchor out never changes
/// the duels of the others.
pub fn rang_dans_genre(ancres: &Vec<Ancre>, index: usize) -> (r: usize)
    requires
        index < ancres@.len(),
    ensures
        r == rang_attendu(ancres@, index as int),
        r <= index,
{
    let meme: bool = est_maison(&ancres[index]);
    let ghost f = |i: int| maison(ancres@[i]) == maison(ancres@[index as int]);
    let mut n: usize = 0;
    let mut i: usize = 0;
    while i < index
        invariant
            i <= index < ancres@.len(),
            f == (|i: int| maison(ancres@[i]) == maison(ancres@[index as int])),
            meme == maison(ancres@[index as int]),
            n == compte(i as int, f),
            n <= i,
        decreases index - i,
    {
        if est_maison(&ancres[i]) == meme {
            n = n + 1;
        }
        i += 1;
    }
    n
}

/// The plan that plays every anchor, as many games against each.
pub open spec fn entier(n: nat, parties: usize) -> Seq<PlanAncre> {
    Seq::new(n, |i: int| PlanAncre { index: i as usize, parties, resondage: false })
}

/// Plan of a full measure: every anchor, the same number of games.
pub fn plan_complet(ancres: &Vec<Ancre>, parties_par_ancre: usize) -> (r: Vec<PlanAncre>)
    ensures
        r@ == entier(ancres@.len(), parties_par_ancre),
{
    let mut r: Vec<PlanAncre> = Vec::new();
    let mut i: usize = 0;
    while i < ancres.len()
        invariant
            i <= ancres@.len(),
            r@.len() == i,
            forall|k: int|
                0 <= k < i ==> #[trigger] r@[k] == (PlanAncre {
                    index: k as usize,
                    parties: parties_par_ancre,
                    resondage: false,
                }),
        decreases ancres.len() - i,
    {
        r.push(PlanAncre { index: i, parties: parties_par_ancre, resondage: false });
        i += 1;
    }
    assert(r@ =~= entier(ancres@.len(), parties_par_ancre));
    r
}

// ---------------------------------------------------------------------------
// Adaptive plan
// ---------------------------------------------------------------------------

/// What the adaptive plan looks at, one entry per anchor; a list that is too
/// short stands for its default.
#[verifier::ext_equal]
pub struct Donnees {
    /// Number of anchors.
    pub n: int,
    /// Last known score.
    pub derniers: Seq<Option<Score>>,
    /// Measures since the last duel.
    pub depuis: Seq<u64>,
    /// Active in the last measure?
    pub actives: Seq<bool>,
    /// Can it be played now?
    pub eligibles: Seq<bool>,
    /// Games of the whole measure.
    pub total: int,
}

impl Donnees {
    pub open spec fn dernier(self, i: int) -> Option<Score> {
        if i < self.derniers.len() {
            self.derniers[i]
        } else {
            None
        }
    }

    pub open spec fn ecoule(self, i: int) -> int {
        if i < self.depuis.len() {
            self.depuis[i] as int
        } else {
            0
        }
    }

    pub open spec fn eligible(self, i: int) -> bool {
        i < self.eligibles.len() ==> self.eligibles[i]
    }

    pub open spec fn active_avant(self, i: int) -> bool {
        i < self.actives.len() && self.actives[i]
    }

    /// Number of anchors that can be played.
    pub open spec fn candidates(self) -> int {
        compte(self.n, |i: int| self.eligible(i))
    }

    /// No playable anchor was ever measured.
    pub open spec fn sans_historique(self) -> bool {
        forall|i: int| 0 <= i < self.n && #[trigger] self.eligible(i) ==> self.dernier(i) is None
    }

    /// Is the last score in the band that applies: the wide one for an anchor
    /// that was active, the narrow one for an anchor that wants to enter? An
    /// anchor never measured always is.
    pub open spec fn dans_la_bande(self, i: int) -> bool {
        match self.dernier(i) {
            None => true,
            Some(s) => if self.active_avant(i) {
                SCORE_MAINTIEN_MIN <= s.bits <= SCORE_MAINTIEN_MAX
            } else {
                SCORE_INFORMATIF_MIN <= s.bits <= SCORE_INFORMATIF_MAX
            },
        }
    }

    /// Playable and informative.
    pub open spec fn informative(self, i: int) -> bool {
        self.eligible(i) && (self.sans_historique() || self.dans_la_bande(i))
    }

    /// Playable, but out of its band.
    pub open spec fn saturee(self, i: int) -> bool {
        self.eligible(i) && !self.informative(i)
    }

    /// Distance of the last score to the informative band.
    pub open spec fn distance(self, i: int) -> int {
        match self.dernier(i) {
            None => 0,
            Some(s) => s.ecart as int,
        }
    }

    /// Saturated anchor `j` comes before saturated anchor `i`: nearer to the
    /// band, the lower index first among equals.
    pub open spec fn avant(self, j: int, i: int) -> bool {
        self.distance(j) < self.distance(i) || (self.distance(j) == self.distance(i) && j < i)
    }

    /// Rank of `i` among the saturated anchors, the nearest first.
    pub open spec fn rang_sature(self, i: int) -> int {
        compte(self.n, |j: int| self.saturee(j) && self.avant(j, i))
    }

    /// Smallest number of anchors to play.
    pub open spec fn plancher(self) -> int {
        if self.candidates() < 3 {
            self.candidates()
        } else {
            3
        }
    }

    /// Number of saturated anchors that make up for missing informative ones.
    pub open spec fn manque(self) -> int {
        self.plancher() - compte(self.n, |i: int| self.informative(i))
    }

    /// Does the measure play anchor `i` at full volume?
    pub open spec fn retenue(self, i: int) -> bool {
        self.informative(i) || (self.saturee(i) && self.rang_sature(i) < self.manque())
    }

    pub open spec fn nb_retenues(self) -> int {
        compte(self.n, |i: int| self.retenue(i))
    }

    /// Left out, and due for a sounding.
    pub open spec fn due(self, i: int) -> bool {
        self.eligible(i) && !self.retenue(i) && self.ecoule(i) >= 25 + 2 * i
    }

    /// Soundings that the budget allows while every anchor played at full
    /// volume keeps two games.
    pub open spec fn plafond(self) -> int {
        if self.total > 2 * self.nb_retenues() {
            (self.total - 2 * self.nb_retenues()) / 12
        } else {
            0
        }
    }

    /// Is anchor `i` sounded in this measure?
    pub open spec fn resondee(self, i: int) -> bool {
        self.due(i) && compte(i, |j: int| self.due(j)) < self.plafond()
    }

    pub open spec fn nb_resondees(self) -> int {
        let d = compte(self.n, |j: int| self.due(j));
        if d < self.plafond() {
            d
        } else {
            self.plafond()
        }
    }

    /// Pairs of games left to the anchors played at full volume.
    pub open spec fn paires(self) -> int {
        (self.total - 12 * self.nb_resondees()) / 2
    }

    /// Games of anchor `i`: an equal share, in pairs, the surplus to the first
    /// ones; a fixed small number for a sounding.
    pub open spec fn parties(self, i: int) -> int {
        if self.retenue(i) {
            let rang = compte(i, |j: int| self.retenue(j));
            let n = self.nb_retenues();
            2 * (self.paires() / n + if rang < self.paires() % n {
                1int
            } else {
                0int
            })
        } else if self.resondee(i) {
            12
        } else {
            0
        }
    }

    /// The entries of the plan with an index below `i`: the anchors that get
    /// games, by index.
    pub open spec fn plan_jusqua(self, i: int) -> Seq<PlanAncre>
        decreases i,
    {
        if i <= 0 {
            Seq::empty()
        } else {
            let d = self.plan_jusqua(i - 1);
            if self.parties(i - 1) > 0 {
                d.push(
                    PlanAncre {
                        index: (i - 1) as usize,
                        parties: self.parties(i - 1) as usize,
                        resondage: !self.retenue(i - 1),
                    },
                )
            } else {
                d
            }
        }
    }

    /// The adaptive plan: empty without anchors, games or playable anchors.
    pub open spec fn plan(self) -> Seq<PlanAncre> {
        if self.n <= 0 || self.total <= 0 || self.candidates() == 0 {
            Seq::empty()
        } else {
            self.plan_jusqua(self.n)
        }
    }
}

/// The data of a plan, out of the lists that describe it.
pub open spec fn donnees(
    ancres: Seq<Ancre>,
    derniers: Seq<Option<Score>>,
    depuis: Seq<u64>,
    actives: Seq<bool>,
    eligibles: Seq<bool>,
    total: usize,
) -> Donnees {
    Donnees { n: ancres.len() as int, derniers, depuis, actives, eligibles, total: total as int }
}

// ---------------------------------------------------------------------------
// Laws of the adaptive plan
// ---------------------------------------------------------------------------

/// `j` before `i` by distance, then by index.
pub open spec fn precede(dist: spec_fn(int) -> int, j: int, i: int) -> bool {
    dist(j) < dist(i) || (dist(j) == dist(i) && j < i)
}

/// Rank of `i` among the indices below `n` that meet the condition.
pub open spec fn rang_parmi(
    n: int,
    f: spec_fn(int) -> bool,
    dist: spec_fn(int) -> int,
    i: int,
) -> int {
    compte(n, |j: int| f(j) && precede(dist, j, i))
}

proof fn lemme_compte_nul(n: int, f: spec_fn(int) -> bool)
    requires
        forall|i: int| 0 <= i < n ==> !#[trigger] f(i),
    ensures
        compte(n, f) == 0,
    decreases n,
{
    if n > 0 {
        lemme_compte_nul(n - 1, f);
    }
}

proof fn lemme_minimal(n: int, f: spec_fn(int) -> bool, dist: spec_fn(int) -> int) -> (p: int)
    requires
        compte(n, f) > 0,
    ensures
        0 <= p < n,
        f(p),
        forall|j: int| 0 <= j < n && #[trigger] f(j) && j != p ==> precede(dist, p, j),
    decreases n,
{
    if compte(n - 1, f) > 0 {
        let q = lemme_minimal(n - 1, f, dist);
        if f(n - 1) && precede(dist, n - 1, q) {
            n - 1
        } else {
            q
        }
    } else {
        lemme_compte_positif(n - 1, f);
        n - 1
    }
}

proof fn lemme_compte_positif(n: int, f: spec_fn(int) -> bool)
    ensures
        forall|j: int| 0 <= j < n && #[trigger] f(j) ==> compte(n, f) > 0,
    decreases n,
{
    if n > 0 {
        lemme_compte_positif(n - 1, f);
        lemme_compte_borne(n - 1, f);
    }
}

/// Exactly `m` of the indices have a rank below `m`.
proof fn lemme_rangs(n: int, f: spec_fn(int) -> bool, dist: spec_fn(int) -> int, m: int)
    requires
        0 <= m <= compte(n, f),
    ensures
        compte(n, |i: int| f(i) && rang_parmi(n, f, dist, i) < m) == m,
    decreases m,
{
    let g = |i: int| f(i) && rang_parmi(n, f, dist, i) < m;
    if m == 0 {
        assert forall|i: int| 0 <= i < n implies !#[trigger] g(i) by {
            lemme_compte_borne(n, |j: int| f(j) && precede(dist, j, i));
        }
        lemme_compte_nul(n, g);
    } else {
        let p = lemme_minimal(n, f, dist);
        let f2 = |i: int| f(i) && i != p;
        lemme_compte_sans(n, f, p);
        lemme_rangs(n, f2, dist, m - 1);
        let g2 = |i: int| f2(i) && rang_parmi(n, f2, dist, i) < m - 1;
        // The first index has rank zero.
        let zero = |j: int| f(j) && precede(dist, j, p);
        lemme_compte_nul(n, zero);
        assert(rang_parmi(n, f, dist, p) == 0);
        assert(g(p));
        // Every other rank drops by one once the first index is taken out.
        assert forall|i: int| 0 <= i < n && #[trigger] f2(i) implies rang_parmi(n, f, dist, i) == rang_parmi(
            n,
            f2,
            dist,
            i,
        ) + 1 by {
            let a = |j: int| f(j) && precede(dist, j, i);
            let b = |j: int| f2(j) && precede(dist, j, i);
            lemme_compte_sans(n, a, p);
            lemme_compte_egal(n, b, |j: int| a(j) && j != p);
        }
        lemme_compte_sans(n, g, p);
        let g3 = |i: int| g(i) && i != p;
        assert forall|i: int| 0 <= i < n implies #[trigger] g2(i) == g3(i) by {
            if f2(i) {
                assert(rang_parmi(n, f, dist, i) == rang_parmi(n, f2, dist, i) + 1);
            }
        }
        lemme_compte_egal(n, g2, g3);
    }
}

proof fn lemme_compte_disjoint(
    n: int,
    f: spec_fn(int) -> bool,
    g: spec_fn(int) -> bool,
    h: spec_fn(int) -> bool,
)
    requires
        forall|i: int| 0 <= i < n ==> #[trigger] h(i) == (f(i) || g(i)),
        forall|i: int| 0 <= i < n ==> !(#[trigger] f(i) && g(i)),
    ensures
        compte(n, h) == compte(n, f) + compte(n, g),
    decreases n,
{
    if n > 0 {
        lemme_compte_disjoint(n - 1, f, g, h);
    }
}

/// A measure never plays too few anchors: at full volume it plays every
/// informative one, and at least three, or all that can be played when they
/// are fewer.
pub proof fn loi_plancher(d: Donnees)
    requires
        d.n >= 0,
    ensures
        d.nb_retenues() >= d.plancher(),
        d.nb_retenues() == if d.manque() > 0 {
            d.plancher()
        } else {
            compte(d.n, |i: int| d.informative(i))
        },
{
    let fi = |i: int| d.informative(i);
    let fs = |i: int| d.saturee(i);
    let fe = |i: int| d.eligible(i);
    let fr = |i: int| d.retenue(i);
    let dist = |i: int| d.distance(i);
    lemme_compte_disjoint(d.n, fi, fs, fe);
    let m = if d.manque() > 0 {
        d.manque()
    } else {
        0
    };
    lemme_compte_borne(d.n, fs);
    lemme_rangs(d.n, fs, dist, m);
    let choisies = |i: int| fs(i) && rang_parmi(d.n, fs, dist, i) < m;
    assert forall|i: int| 0 <= i < d.n implies #[trigger] fr(i) == (fi(i) || choisies(i)) by {
        lemme_compte_egal(
            d.n,
            |j: int| fs(j) && precede(dist, j, i),
            |j: int| d.saturee(j) && d.avant(j, i),
        );
        lemme_compte_borne(d.n, |j: int| d.saturee(j) && d.avant(j, i));
    }
    lemme_compte_disjoint(d.n, fi, choisies, fr);
}

/// Games of the first `k` entries of a plan.
pub open spec fn parties_du_plan(p: Seq<PlanAncre>, k: int) -> int
    decreases k,
{
    if k <= 0 {
        0
    } else {
        parties_du_plan(p, k - 1) + p[k - 1].parties
    }
}

proof fn lemme_parties_prefixe(p: Seq<PlanAncre>, e: PlanAncre, k: int)
    requires
        0 <= k <= p.len(),
    ensures
        parties_du_plan(p.push(e), k) == parties_du_plan(p, k),
    decreases k,
{
    if k > 0 {
        lemme_parties_prefixe(p, e, k - 1);
    }
}

/// Data whose total fits the machine.
pub open spec fn plausible(d: Donnees) -> bool {
    0 <= d.n <= usize::MAX && 0 <= d.total <= usize::MAX
}

proof fn lemme_partie_bornee(d: Donnees, i: int)
    requires
        plausible(d),
        0 <= i < d.n,
        d.candidates() > 0,
    ensures
        0 <= d.parties(i) <= d.total,
        d.nb_retenues() >= 1,
        d.paires() >= 0,
        12 * d.nb_resondees() + 2 * d.paires() <= d.total,
        d.nb_resondees() >= 0,
{
    loi_plancher(d);
    lemme_compte_borne(d.n, |j: int| d.due(j));
    let n = d.nb_retenues();
    let p = d.paires();
    assert(d.plafond() >= 0);
    assert(12 * d.plafond() <= d.total);
    assert(p / n + if p % n > 0 {
        1int
    } else {
        0int
    } <= p && p / n >= 0 && p % n >= 0) by (nonlinear_arith)
        requires
            n >= 1,
            p >= 0,
    ;
    lemme_compte_borne(i, |j: int| d.retenue(j));
    lemme_compte_borne(i, |j: int| d.due(j));
}

proof fn lemme_somme(d: Donnees, i: int)
    requires
        plausible(d),
        0 <= i <= d.n,
        d.candidates() > 0,
    ensures
        ({
            let p = d.plan_jusqua(i);
            let n = d.nb_retenues();
            let ra = compte(i, |j: int| d.retenue(j));
            let rd = compte(i, |j: int| d.due(j));
            parties_du_plan(p, p.len() as int) == 2 * ((d.paires() / n) * ra + if ra < d.paires()
                % n {
                ra
            } else {
                d.paires() % n
            }) + 12 * if rd < d.plafond() {
                rd
            } else {
                d.plafond()
            }
        }),
    decreases i,
{
    let n = d.nb_retenues();
    loi_plancher(d);
    if i == 0 {
        assert((d.paires() / n) * 0 == 0);
        lemme_compte_borne(d.n, |j: int| d.due(j));
        assert(d.plafond() >= 0);
        assert(d.paires() % n >= 0) by (nonlinear_arith)
            requires
                n >= 1,
        ;
    } else {
        lemme_somme(d, i - 1);
        lemme_partie_bornee(d, i - 1);
        let avant = d.plan_jusqua(i - 1);
        let e = PlanAncre {
            index: (i - 1) as usize,
            parties: d.parties(i - 1) as usize,
            resondage: !d.retenue(i - 1),
        };
        lemme_parties_prefixe(avant, e, avant.len() as int);
        let ra = compte(i - 1, |j: int| d.retenue(j));
        let rd = compte(i - 1, |j: int| d.due(j));
        lemme_compte_borne(i - 1, |j: int| d.retenue(j));
        let b = d.paires() / n;
        assert(b * (ra + 1) == b * ra + b) by (nonlinear_arith);
        if d.parties(i - 1) > 0 {
            let p = d.plan_jusqua(i);
            assert(p == avant.push(e));
            assert(parties_du_plan(p, p.len() as int) == parties_du_plan(p, avant.len() as int)
                + p[avant.len() as int].parties);
        }
    }
}

proof fn lemme_partage(p: int, n: int, b: int, r: int)
    requires
        n >= 1,
        b == p / n,
        r == p % n,
    ensures
        0 <= r < n,
        b * n + r == p,
{
    vstd::arithmetic::div_mod::lemma_fundamental_div_mod(p, n);
    assert(b * n == n * b) by (nonlinear_arith);
    assert(0 <= p % n < n) by (nonlinear_arith)
        requires
            n >= 1,
    ;
}

/// A measure spends its budget: as soon as one anchor can be played, the games
/// of the plan add up to the budget, less one game when the budget is odd.
pub proof fn loi_budget_exact(d: Donnees)
    requires
        plausible(d),
        d.candidates() > 0,
    ensures
        parties_du_plan(d.plan(), d.plan().len() as int) == d.total - d.total % 2,
{
    assert(d.n > 0);
    if d.total > 0 {
        lemme_somme(d, d.n);
        loi_plancher(d);
        lemme_compte_borne(d.n, |j: int| d.due(j));
        lemme_partage(
            d.paires(),
            d.nb_retenues(),
            d.paires() / d.nb_retenues(),
            d.paires() % d.nb_retenues(),
        );
        assert(d.nb_retenues() == compte(d.n, |j: int| d.retenue(j)));
        let rd = compte(d.n, |j: int| d.due(j));
        assert(12 * d.nb_resondees() == 12 * if rd < d.plafond() {
            rd
        } else {
            d.plafond()
        });
        assert(d.plan() == d.plan_jusqua(d.n));
        assert(parties_du_plan(d.plan(), d.plan().len() as int) == 2 * d.paires() + 12
            * d.nb_resondees());
    }
}

/// What every entry of a plan is: a playable anchor, an even number of games,
/// at least two; and the entries stand by growing index. A sounding has twelve
/// games and its anchor is saturated.
pub proof fn loi_entrees_du_plan(d: Donnees, k: int)
    requires
        plausible(d),
        0 <= k < d.plan().len(),
    ensures
        ({
            let e = d.plan()[k];
            &&& e.index < d.n
            &&& d.eligible(e.index as int)
            &&& e.parties % 2 == 0
            &&& e.parties >= 2
            &&& e.parties == d.parties(e.index as int)
            &&& e.resondage ==> e.parties == 12 && d.saturee(e.index as int) && d.ecoule(
                e.index as int,
            ) >= 25 + 2 * e.index
            &&& forall|j: int| 0 <= j < k ==> (#[trigger] d.plan()[j]).index < e.index
        }),
{
    lemme_compte_borne(d.n, |i: int| d.eligible(i));
    lemme_entrees(d, d.n, k);
    assert forall|j: int| 0 <= j < k implies (#[trigger] d.plan()[j]).index < d.plan()[k].index by {
        assert(d.plan_jusqua(d.n)[j].index < d.plan_jusqua(d.n)[k].index);
    }
}

proof fn lemme_entrees(d: Donnees, i: int, k: int)
    requires
        plausible(d),
        d.candidates() > 0,
        0 <= i <= d.n,
        0 <= k < d.plan_jusqua(i).len(),
    ensures
        ({
            let e = d.plan_jusqua(i)[k];
            &&& e.index < i
            &&& d.eligible(e.index as int)
            &&& e.parties % 2 == 0
            &&& e.parties >= 2
            &&& e.parties == d.parties(e.index as int)
            &&& e.resondage ==> e.parties == 12 && d.saturee(e.index as int) && d.ecoule(
                e.index as int,
            ) >= 25 + 2 * e.index
            &&& forall|j: int| 0 <= j < k ==> (#[trigger] d.plan_jusqua(i)[j]).index < e.index
        }),
    decreases i,
{
    let avant = d.plan_jusqua(i - 1);
    lemme_partie_bornee(d, i - 1);
    if k < avant.len() {
        lemme_entrees(d, i - 1, k);
        assert forall|j: int| 0 <= j < k implies (#[trigger] d.plan_jusqua(i)[j]).index
            < d.plan_jusqua(i)[k].index by {
            assert(avant[j].index < avant[k].index);
        }
    } else {
        assert forall|j: int| 0 <= j < k implies (#[trigger] d.plan_jusqua(i)[j]).index
            < d.plan_jusqua(i)[k].index by {
            lemme_entrees(d, i - 1, j);
            assert(d.plan_jusqua(i)[j] == avant[j]);
        }
    }
}

/// Every anchor with games stands in the plan.
pub proof fn loi_plan_complet(d: Donnees, i: int)
    requires
        plausible(d),
        d.total > 0,
        d.candidates() > 0,
        0 <= i < d.n,
        d.parties(i) > 0,
    ensures
        exists|k: int| 0 <= k < d.plan().len() && (#[trigger] d.plan()[k]).index == i,
{
    lemme_present(d, d.n, i);
    let k = choose|k: int|
        0 <= k < d.plan_jusqua(d.n).len() && (#[trigger] d.plan_jusqua(d.n)[k]).index == i;
    assert(d.plan()[k].index == i);
}

proof fn lemme_present(d: Donnees, n: int, i: int)
    requires
        plausible(d),
        0 <= i < n <= d.n,
        d.parties(i) > 0,
    ensures
        exists|k: int| 0 <= k < d.plan_jusqua(n).len() && (#[trigger] d.plan_jusqua(n)[k]).index == i,
    decreases n,
{
    let avant = d.plan_jusqua(n - 1);
    if i == n - 1 {
        assert(d.plan_jusqua(n)[avant.len() as int].index == i);
    } else {
        lemme_present(d, n - 1, i);
        let k = choose|k: int| 0 <= k < avant.len() && (#[trigger] avant[k]).index == i;
        assert(d.plan_jusqua(n)[k] == avant[k]);
    }
}

/// A sounding never starves an anchor played at full volume: when the plan
/// sounds an anchor, every anchor played at full volume keeps two games or
/// more.
pub proof fn loi_resondage_preserve_les_actives(d: Donnees, i: int, r: int)
    requires
        plausible(d),
        d.candidates() > 0,
        0 <= i < d.n,
        0 <= r < d.n,
        d.retenue(i),
        d.resondee(r),
    ensures
        d.parties(i) >= 2,
{
    lemme_partie_bornee(d, i);
    let n = d.nb_retenues();
    let p = d.paires();
    lemme_compte_borne(r, |j: int| d.due(j));
    assert(d.plafond() >= 1);
    assert(12 * d.plafond() <= d.total - 2 * n);
    assert(p >= n);
    assert(p / n >= 1) by (nonlinear_arith)
        requires
            p >= n,
            n >= 1,
    ;
    assert(p % n >= 0) by (nonlinear_arith)
        requires
            n >= 1,
    ;
}

/// First start: with no history at all, the plan plays every playable anchor,
/// and none of them as a sounding.
pub proof fn loi_premier_demarrage(d: Donnees, i: int)
    requires
        plausible(d),
        d.sans_historique(),
        0 <= i < d.n,
    ensures
        d.retenue(i) == d.eligible(i),
        !d.resondee(i),
{
    let fi = |i: int| d.informative(i);
    let fe = |i: int| d.eligible(i);
    lemme_compte_egal(d.n, fi, fe);
}

/// Hysteresis: an active anchor whose score stays between ten and ninety per
/// cent stays in the plan, while an idle one enters only between fifteen and
/// eighty-five per cent, or to make up the smallest number of anchors.
pub proof fn loi_hysteresis(d: Donnees, i: int, s: Score)
    requires
        plausible(d),
        0 <= i < d.n,
        d.eligible(i),
        d.dernier(i) == Some(s),
    ensures
        d.active_avant(i) && SCORE_MAINTIEN_MIN <= s.bits <= SCORE_MAINTIEN_MAX ==> d.retenue(i),
        !d.active_avant(i) && d.retenue(i) ==> (SCORE_INFORMATIF_MIN <= s.bits
            <= SCORE_INFORMATIF_MAX || d.rang_sature(i) < d.manque()),
{
}

/// An anchor that cannot be played is never in the plan.
pub proof fn loi_ineligible_absente(d: Donnees, i: int)
    requires
        plausible(d),
        0 <= i < d.n,
        !d.eligible(i),
    ensures
        d.parties(i) == 0,
{
}

fn valeur_bool(v: &Vec<bool>, i: usize, defaut: bool) -> (r: bool)
    ensures
        r == if i < v@.len() {
            v@[i as int]
        } else {
            defaut
        },
{
    if i < v.len() {
        v[i]
    } else {
        defaut
    }
}

fn valeur_score(v: &Vec<Option<Score>>, i: usize) -> (r: Option<Score>)
    ensures
        r == if i < v@.len() {
            v@[i as int]
        } else {
            None
        },
{
    if i < v.len() {
        v[i]
    } else {
        None
    }
}

/// Which anchors are informative.
fn informatives(
    n: usize,
    derniers: &Vec<Option<Score>>,
    actives_avant: &Vec<bool>,
    eligibles: &Vec<bool>,
    Ghost(d): Ghost<Donnees>,
) -> (r: (Vec<bool>, usize, usize))
    requires
        d.n == n,
        d.derniers == derniers@,
        d.actives == actives_avant@,
        d.eligibles == eligibles@,
    ensures
        r.0@.len() == n,
        forall|i: int| 0 <= i < n ==> #[trigger] r.0@[i] == d.informative(i),
        r.1 == compte(d.n, |i: int| d.informative(i)),
        r.2 == d.candidates(),
{
    let ghost fe = |i: int| d.eligible(i);
    let ghost fi = |i: int| d.informative(i);
    let mut candidates: usize = 0;
    let mut vierge: bool = true;
    let mut i: usize = 0;
    while i < n
        invariant
            i <= n,
            d.n == n,
            d.derniers == derniers@,
            d.eligibles == eligibles@,
            fe == (|i: int| d.eligible(i)),
            candidates == compte(i as int, fe),
            candidates <= i,
            vierge == (forall|k: int|
                0 <= k < i && #[trigger] d.eligible(k) ==> d.dernier(k) is None),
        decreases n - i,
    {
        let e: bool = valeur_bool(eligibles, i, true);
        assert(e == d.eligible(i as int));
        let s: Option<Score> = valeur_score(derniers, i);
        assert(s == d.dernier(i as int));
        if e {
            candidates = candidates + 1;
            if s.is_some() {
                vierge = false;
            }
        }
        i += 1;
    }
    assert(vierge == d.sans_historique());
    let mut r: Vec<bool> = Vec::new();
    let mut nb: usize = 0;
    let mut j: usize = 0;
    while j < n
        invariant
            j <= n,
            d.n == n,
            d.derniers == derniers@,
            d.actives == actives_avant@,
            d.eligibles == eligibles@,
            vierge == d.sans_historique(),
            fi == (|i: int| d.informative(i)),
            r@.len() == j,
            forall|k: int| 0 <= k < j ==> #[trigger] r@[k] == d.informative(k),
            nb == compte(j as int, fi),
            nb <= j,
        decreases n - j,
    {
        let e: bool = valeur_bool(eligibles, j, true);
        let bande: bool = match valeur_score(derniers, j) {
            None => true,
            Some(s) => if valeur_bool(actives_avant, j, false) {
                SCORE_MAINTIEN_MIN <= s.bits && s.bits <= SCORE_MAINTIEN_MAX
            } else {
                SCORE_INFORMATIF_MIN <= s.bits && s.bits <= SCORE_INFORMATIF_MAX
            },
        };
        assert(bande == d.dans_la_bande(j as int));
        let x: bool = e && (vierge || bande);
        assert(x == d.informative(j as int));
        if x {
            nb = nb + 1;
        }
        r.push(x);
        j += 1;
    }
    (r, nb, candidates)
}

/// Distance of the last score to the band.
fn distance_a_la_plage(dernier: Option<Score>) -> (r: u64)
    ensures
        r == match dernier {
            None => 0,
            Some(s) => s.ecart,
        },
{
    match dernier {
        None => 0,
        Some(s) => s.ecart,
    }
}

/// Rank of a saturated anchor, the nearest to the band first.
fn rang_de_sature(
    n: usize,
    i: usize,
    derniers: &Vec<Option<Score>>,
    eligibles: &Vec<bool>,
    info: &Vec<bool>,
    Ghost(d): Ghost<Donnees>,
) -> (r: usize)
    requires
        d.n == n,
        i < n,
        d.derniers == derniers@,
        d.eligibles == eligibles@,
        info@.len() == n,
        forall|k: int| 0 <= k < n ==> #[trigger] info@[k] == d.informative(k),
    ensures
        r == d.rang_sature(i as int),
{
    let ghost f = |j: int| d.saturee(j) && d.avant(j, i as int);
    let di: u64 = distance_a_la_plage(valeur_score(derniers, i));
    assert(di == d.distance(i as int));
    let mut rang: usize = 0;
    let mut j: usize = 0;
    while j < n
        invariant
            j <= n,
            i < n,
            d.n == n,
            d.derniers == derniers@,
            d.eligibles == eligibles@,
            info@.len() == n,
            forall|k: int| 0 <= k < n ==> #[trigger] info@[k] == d.informative(k),
            di == d.distance(i as int),
            f == (|j: int| d.saturee(j) && d.avant(j, i as int)),
            rang == compte(j as int, f),
            rang <= j,
        decreases n - j,
    {
        assert(info@[j as int] == d.informative(j as int));
        let sat: bool = valeur_bool(eligibles, j, true) && !info[j];
        assert(sat == d.saturee(j as int));
        let dj: u64 = distance_a_la_plage(valeur_score(derniers, j));
        assert(dj == d.distance(j as int));
        if sat && (dj < di || (dj == di && j < i)) {
            rang = rang + 1;
        }
        j += 1;
    }
    rang
}

/// Which anchors are played at full volume.
fn retenues(
    n: usize,
    derniers: &Vec<Option<Score>>,
    actives_avant: &Vec<bool>,
    eligibles: &Vec<bool>,
    Ghost(d): Ghost<Donnees>,
) -> (r: (Vec<bool>, usize, usize))
    requires
        d.n == n,
        d.derniers == derniers@,
        d.actives == actives_avant@,
        d.eligibles == eligibles@,
    ensures
        r.0@.len() == n,
        forall|i: int| 0 <= i < n ==> #[trigger] r.0@[i] == d.retenue(i),
        r.1 == d.nb_retenues(),
        r.1 <= n,
        r.2 == d.candidates(),
{
    let (info, nb, candidates) = informatives(n, derniers, actives_avant, eligibles, Ghost(d));
    let plancher: usize = if candidates < ANCRES_ACTIVES_MIN {
        candidates
    } else {
        ANCRES_ACTIVES_MIN
    };
    let manque: usize = if nb < plancher {
        plancher - nb
    } else {
        0
    };
    let ghost fr = |i: int| d.retenue(i);
    let mut r: Vec<bool> = Vec::new();
    let mut na: usize = 0;
    let mut i: usize = 0;
    while i < n
        invariant
            i <= n,
            d.n == n,
            d.derniers == derniers@,
            d.actives == actives_avant@,
            d.eligibles == eligibles@,
            info@.len() == n,
            forall|k: int| 0 <= k < n ==> #[trigger] info@[k] == d.informative(k),
            manque == if d.manque() > 0 {
                d.manque()
            } else {
                0
            },
            fr == (|i: int| d.retenue(i)),
            r@.len() == i,
            forall|k: int| 0 <= k < i ==> #[trigger] r@[k] == d.retenue(k),
            na == compte(i as int, fr),
            na <= i,
        decreases n - i,
    {
        assert(info@[i as int] == d.informative(i as int));
        proof {
            lemme_compte_borne(d.n, |j: int| d.saturee(j) && d.avant(j, i as int));
        }
        let x: bool = if info[i] {
            true
        } else if valeur_bool(eligibles, i, true) {
            rang_de_sature(n, i, derniers, eligibles, &info, Ghost(d)) < manque
        } else {
            false
        };
        assert(x == d.retenue(i as int));
        if x {
            na = na + 1;
        }
        r.push(x);
        i += 1;
    }
    (r, na, candidates)
}

/// Adaptive plan restricted to the anchors that can be played.
///
/// Anchors whose last score is in their band are played at full volume; at
/// least three are, the least saturated making up the number; saturated ones
/// are sounded again from time to time, out of the same budget; the rest of
/// the budget is shared equally, in pairs of games.
pub fn plan_adaptatif_eligibles(
    ancres: &Vec<Ancre>,
    derniers: &Vec<Option<Score>>,
    depuis: &Vec<u64>,
    actives_avant: &Vec<bool>,
    eligibles: &Vec<bool>,
    total_parties: usize,
) -> (r: Vec<PlanAncre>)
    requires
        2 * ancres@.len() <= usize::MAX - 25,
    ensures
        r@ == donnees(
            ancres@,
            derniers@,
            depuis@,
            actives_avant@,
            eligibles@,
            total_parties,
        ).plan(),
{
    let ghost d = donnees(ancres@, derniers@, depuis@, actives_avant@, eligibles@, total_parties);
    let n: usize = ancres.len();
    if n == 0 || total_parties == 0 {
        return Vec::new();
    }
    let (ret, na, candidates) = retenues(n, derniers, actives_avant, eligibles, Ghost(d));
    if candidates == 0 {
        return Vec::new();
    }
    proof {
        loi_plancher(d);
    }
    let plafond: usize = if total_parties > 2 * na {
        (total_parties - 2 * na) / PARTIES_RESONDAGE
    } else {
        0
    };
    // Soundings that are due.
    let ghost fd = |i: int| d.due(i);
    let mut dues: Vec<bool> = Vec::new();
    let mut nd: usize = 0;
    let mut i: usize = 0;
    while i < n
        invariant
            i <= n,
            d.n == n,
            2 * n <= usize::MAX - 25,
            d.depuis == depuis@,
            d.eligibles == eligibles@,
            ret@.len() == n,
            forall|k: int| 0 <= k < n ==> #[trigger] ret@[k] == d.retenue(k),
            fd == (|i: int| d.due(i)),
            dues@.len() == i,
            forall|k: int| 0 <= k < i ==> #[trigger] dues@[k] == d.due(k),
            nd == compte(i as int, fd),
            nd <= i,
        decreases n - i,
    {
        assert(ret@[i as int] == d.retenue(i as int));
        let ecoule: u64 = if i < depuis.len() {
            depuis[i]
        } else {
            0
        };
        let x: bool = valeur_bool(eligibles, i, true) && !ret[i] && ecoule >= echeance_resondage(i);
        assert(x == d.due(i as int));
        if x {
            nd = nd + 1;
        }
        dues.push(x);
        i += 1;
    }
    let nr: usize = if nd < plafond {
        nd
    } else {
        plafond
    };
    assert(plafond == d.plafond());
    assert(nr == d.nb_resondees());
    assert(12 * nr <= total_parties);
    let paires: usize = (total_parties - nr * PARTIES_RESONDAGE) / 2;
    assert(paires == d.paires());
    let base: usize = paires / na;
    let surplus: usize = paires % na;
    assert(base <= paires) by (nonlinear_arith)
        requires
            base == paires / na,
            na >= 1,
    ;
    assert(surplus > 0 ==> base + 1 <= paires) by (nonlinear_arith)
        requires
            base == paires / na,
            surplus == paires % na,
            na >= 1,
    ;
    let ghost fr = |j: int| d.retenue(j);
    let mut plan: Vec<PlanAncre> = Vec::new();
    let mut rang: usize = 0;
    let mut rang_due: usize = 0;
    let mut k: usize = 0;
    while k < n
        invariant
            k <= n,
            d.n == n,
            ret@.len() == n,
            dues@.len() == n,
            forall|k: int| 0 <= k < n ==> #[trigger] ret@[k] == d.retenue(k),
            forall|k: int| 0 <= k < n ==> #[trigger] dues@[k] == d.due(k),
            na == d.nb_retenues(),
            na >= 1,
            paires == d.paires(),
            base == paires / na,
            surplus == paires % na,
            base <= paires,
            2 * paires <= usize::MAX,
            surplus > 0 ==> base + 1 <= paires,
            plafond == d.plafond(),
            fr == (|j: int| d.retenue(j)),
            fd == (|i: int| d.due(i)),
            rang == compte(k as int, fr),
            rang_due == compte(k as int, fd),
            rang <= k,
            rang_due <= k,
            plan@ == d.plan_jusqua(k as int),
        decreases n - k,
    {
        assert(ret@[k as int] == d.retenue(k as int));
        assert(dues@[k as int] == d.due(k as int));
        if ret[k] {
            let plus: usize = if rang < surplus {
                1
            } else {
                0
            };
            let parties: usize = 2 * (base + plus);
            assert(parties == d.parties(k as int));
            if parties > 0 {
                plan.push(PlanAncre { index: k, parties, resondage: false });
            }
            rang = rang + 1;
        } else if dues[k] {
            if rang_due < plafond {
                assert(d.parties(k as int) == 12);
                plan.push(PlanAncre { index: k, parties: PARTIES_RESONDAGE, resondage: true });
            } else {
                assert(d.parties(k as int) == 0);
            }
            rang_due = rang_due + 1;
        } else {
            assert(d.parties(k as int) == 0);
        }
        k += 1;
    }
    plan
}


fn tous_vrais(n: usize) -> (r: Vec<bool>)
    ensures
        r@ == Seq::new(n as nat, |i: int| true),
{
    let mut r: Vec<bool> = Vec::new();
    while r.len() < n
        invariant
            r@.len() <= n,
            forall|i: int| 0 <= i < r@.len() ==> #[trigger] r@[i],
        decreases n - r.len(),
    {
        r.push(true);
    }
    assert(r@ =~= Seq::new(n as nat, |i: int| true));
    r
}

/// Adaptive plan over all anchors, none of them active before.
pub fn plan_adaptatif(
    ancres: &Vec<Ancre>,
    derniers: &Vec<Option<Score>>,
    depuis: &Vec<u64>,
    total_parties: usize,
) -> (r: Vec<PlanAncre>)
    requires
        2 * ancres@.len() <= usize::MAX - 25,
    ensures
        r@ == donnees(
            ancres@,
            derniers@,
            depuis@,
            Seq::empty(),
            Seq::new(ancres@.len(), |i: int| true),
            total_parties,
        ).plan(),
{
    let actives: Vec<bool> = Vec::new();
    let eligibles: Vec<bool> = tous_vrais(ancres.len());
    plan_adaptatif_eligibles(ancres, derniers, depuis, &actives, &eligibles, total_parties)
}

// ---------------------------------------------------------------------------
// Memory of the ladder
// ---------------------------------------------------------------------------

/// Memory of the adaptive ladder: last score of each anchor, its age in
/// measures, and whether the anchor was active in the last measure.
pub struct EtatEchelle {
    derniers: Vec<Option<Score>>,
    depuis: Vec<u64>,
    actives: Vec<bool>,
}

/// What the memory holds.
#[verifier::ext_equal]
pub struct VueEchelle {
    pub derniers: Seq<Option<Score>>,
    pub depuis: Seq<u64>,
    pub actives: Seq<bool>,
}

impl View for EtatEchelle {
    type V = VueEchelle;

    closed spec fn view(&self) -> VueEchelle {
        VueEchelle { derniers: self.derniers@, depuis: self.depuis@, actives: self.actives@ }
    }
}

/// A memory for `n` anchors.
pub open spec fn echelle_valide(v: VueEchelle, n: nat) -> bool {
    v.derniers.len() == n && v.depuis.len() == n && v.actives.len() == n
}

/// A memory without history.
pub open spec fn echelle_neuve(n: nat) -> VueEchelle {
    VueEchelle {
        derniers: Seq::new(n, |i: int| None),
        depuis: Seq::new(n, |i: int| 0u64),
        actives: Seq::new(n, |i: int| false),
    }
}

// Journal of the measures ---------------------------------------------------

/// The fields of a journal line.
pub open spec fn champs_journal(l: Seq<char>) -> Seq<Seq<char>> {
    texte::morceaux(texte::sans_fin(l), ',')
}

/// A journal line that counts: three fields or more.
pub open spec fn ligne_utile(l: Seq<char>) -> bool {
    champs_journal(l).len() >= 3
}

/// The lines of a journal behind its header.
pub open spec fn corps_journal(contenu: Seq<char>) -> Seq<Seq<char>> {
    let l = texte::lignes(contenu);
    if l.len() == 0 {
        l
    } else {
        l.subrange(1, l.len() as int)
    }
}

/// Hours written on the last of the first `k` lines that counts.
pub open spec fn heures_courantes(l: Seq<Seq<char>>, k: int) -> Option<Seq<char>>
    decreases k,
{
    if k <= 0 {
        None
    } else if ligne_utile(l[k - 1]) {
        Some(champs_journal(l[k - 1])[0])
    } else {
        heures_courantes(l, k - 1)
    }
}

/// Number, counted from zero, of the measure that is open after the first `k`
/// lines: a new measure starts where the hours change.
pub open spec fn numero_mesure(l: Seq<Seq<char>>, k: int) -> int
    decreases k,
{
    if k <= 0 {
        0
    } else {
        let avant = heures_courantes(l, k - 1);
        numero_mesure(l, k - 1) + if ligne_utile(l[k - 1]) && avant is Some && avant
            != Some(champs_journal(l[k - 1])[0]) {
            1int
        } else {
            0int
        }
    }
}

/// Does line `k` give a score to the anchor: it counts, names the anchor, and
/// its score could be read?
pub open spec fn vue_a_la_ligne(
    l: Seq<Seq<char>>,
    scores: Seq<Option<Score>>,
    nom: Seq<char>,
    k: int,
) -> bool {
    ligne_utile(l[k]) && champs_journal(l[k])[1] == nom && k < scores.len() && scores[k] is Some
}

/// The last of the first `k` lines that gives a score to the anchor.
pub open spec fn derniere_vue(
    l: Seq<Seq<char>>,
    scores: Seq<Option<Score>>,
    nom: Seq<char>,
    k: int,
) -> Option<int>
    decreases k,
{
    if k <= 0 {
        None
    } else if vue_a_la_ligne(l, scores, nom, k - 1) {
        Some(k - 1)
    } else {
        derniere_vue(l, scores, nom, k - 1)
    }
}

/// The line by which anchor `i` was last seen. A name that stands twice in the
/// ladder belongs to its first anchor.
pub open spec fn vue_de(
    l: Seq<Seq<char>>,
    scores: Seq<Option<Score>>,
    ancres: Seq<Ancre>,
    i: int,
) -> Option<int> {
    if exists|j: int| 0 <= j < i && (#[trigger] ancres[j]).nom@ == ancres[i].nom@ {
        None
    } else {
        derniere_vue(l, scores, ancres[i].nom@, l.len() as int)
    }
}

/// Was the line a sounding: is its fifth field a one?
pub open spec fn ligne_de_resondage(l: Seq<char>) -> bool {
    let c = champs_journal(l);
    c.len() >= 5 && texte::rogne(c[4]) == "1"@
}

/// Is the journal cut: does its last line lack its end?
pub open spec fn journal_tronque(contenu: Seq<char>) -> bool {
    contenu.len() > 0 && contenu.last() != '\n'
}

/// The memory that a journal stands for: none of a journal that is cut.
/// `scores[k]` is the share written on line `k` behind the header, nothing when
/// it could not be read.
pub open spec fn echelle_du_journal(
    contenu: Seq<char>,
    scores: Seq<Option<Score>>,
    ancres: Seq<Ancre>,
) -> VueEchelle {
    let l = corps_journal(contenu);
    let fin = numero_mesure(l, l.len() as int);
    if journal_tronque(contenu) || heures_courantes(l, l.len() as int) is None {
        echelle_neuve(ancres.len())
    } else {
        VueEchelle {
            derniers: Seq::new(
                ancres.len(),
                |i: int|
                    match vue_de(l, scores, ancres, i) {
                        Some(k) => scores[k],
                        None => None,
                    },
            ),
            depuis: Seq::new(
                ancres.len(),
                |i: int|
                    match vue_de(l, scores, ancres, i) {
                        Some(k) => (fin - numero_mesure(l, k + 1)) as u64,
                        None => (fin + 1) as u64,
                    },
            ),
            actives: Seq::new(
                ancres.len(),
                |i: int|
                    match vue_de(l, scores, ancres, i) {
                        Some(k) => fin == numero_mesure(l, k + 1) && !ligne_de_resondage(l[k]),
                        None => false,
                    },
            ),
        }
    }
}

proof fn lemme_numero(l: Seq<Seq<char>>, k: int)
    requires
        0 <= k,
    ensures
        0 <= numero_mesure(l, k) <= k,
    decreases k,
{
    if k > 0 {
        lemme_numero(l, k - 1);
    }
}

proof fn lemme_numero_croit(l: Seq<Seq<char>>, a: int, b: int)
    requires
        0 <= a <= b,
    ensures
        numero_mesure(l, a) <= numero_mesure(l, b),
    decreases b,
{
    if a < b {
        lemme_numero_croit(l, a, b - 1);
    }
}

/// One line of the journal, ready for use.
struct LigneJournal {
    /// Its fields.
    champs: Vec<Vec<char>>,
    /// Number of its measure.
    mesure: u64,
}

fn decoupe_journal(l: &Vec<char>) -> (r: Vec<Vec<char>>)
    ensures
        texte::vues(r@) == champs_journal(l@),
        r@.len() == champs_journal(l@).len(),
        forall|i: int| 0 <= i < r@.len() ==> (#[trigger] r@[i])@ == champs_journal(l@)[i],
{
    let nette: Vec<char> = texte::rogne_fin(l);
    let r: Vec<Vec<char>> = texte::decoupe(&nette, ',');
    assert(texte::vues(r@).len() == r@.len());
    assert forall|i: int| 0 <= i < r@.len() implies (#[trigger] r@[i])@ == champs_journal(l@)[i] by {
        assert(texte::vues(r@)[i] == r@[i]@);
    }
    r
}

/// The lines of a journal behind its header.
fn lignes_du_journal(contenu: &str) -> (r: Vec<Vec<char>>)
    ensures
        texte::vues(r@) == corps_journal(contenu@),
        r@.len() == corps_journal(contenu@).len(),
        forall|i: int| 0 <= i < r@.len() ==> (#[trigger] r@[i])@ == corps_journal(contenu@)[i],
{
    let l: Vec<Vec<char>> = texte::en_lignes(contenu);
    let ghost lv = texte::lignes(contenu@);
    assert(texte::vues(l@).len() == l@.len());
    let mut r: Vec<Vec<char>> = Vec::new();
    let mut i: usize = 1;
    while i < l.len()
        invariant
            1 <= i,
            l@.len() == lv.len(),
            texte::vues(l@) == lv,
            i <= l@.len() || (l@.len() == 0 && i == 1),
            r@.len() == i - 1,
            forall|k: int| 0 <= k < r@.len() ==> (#[trigger] r@[k])@ == lv[k + 1],
        decreases l.len() - i,
    {
        assert(texte::vues(l@)[i as int] == l@[i as int]@);
        let x: Vec<char> = texte::extrait(&l[i], 0, l[i].len());
        assert(x@ =~= l@[i as int]@);
        r.push(x);
        i += 1;
    }
    assert(texte::vues(r@) =~= corps_journal(contenu@));
    r
}

/// The texts of the scores of a journal, one entry per line behind the header;
/// nothing where the line does not count.
pub fn scores_du_journal(contenu: &str) -> (r: Vec<Option<String>>)
    ensures
        r@.len() == corps_journal(contenu@).len(),
        forall|k: int|
            0 <= k < r@.len() ==> match #[trigger] r@[k] {
                Some(t) => ligne_utile(corps_journal(contenu@)[k]) && t@ == champs_journal(
                    corps_journal(contenu@)[k],
                )[2],
                None => !ligne_utile(corps_journal(contenu@)[k]),
            },
{
    let l: Vec<Vec<char>> = lignes_du_journal(contenu);
    let ghost lv = corps_journal(contenu@);
    let mut r: Vec<Option<String>> = Vec::new();
    let mut i: usize = 0;
    while i < l.len()
        invariant
            i <= l@.len(),
            l@.len() == lv.len(),
            forall|k: int| 0 <= k < l@.len() ==> (#[trigger] l@[k])@ == lv[k],
            r@.len() == i,
            forall|k: int|
                0 <= k < i ==> match #[trigger] r@[k] {
                    Some(t) => ligne_utile(lv[k]) && t@ == champs_journal(lv[k])[2],
                    None => !ligne_utile(lv[k]),
                },
        decreases l.len() - i,
    {
        let c: Vec<Vec<char>> = decoupe_journal(&l[i]);
        if c.len() < 3 {
            r.push(None);
        } else {
            r.push(Some(texte::texte(&c[2])));
        }
        i += 1;
    }
    r
}

/// Does an earlier anchor bear the name of anchor `i`?
fn nom_deja_pris(ancres: &Vec<Ancre>, i: usize) -> (r: bool)
    requires
        i < ancres@.len(),
    ensures
        r == exists|j: int| 0 <= j < i && (#[trigger] ancres@[j]).nom@ == ancres@[i as int].nom@,
{
    let mut j: usize = 0;
    while j < i
        invariant
            j <= i < ancres@.len(),
            forall|k: int| 0 <= k < j ==> (#[trigger] ancres@[k]).nom@ != ancres@[i as int].nom@,
        decreases i - j,
    {
        if texte::egal(ancres[j].nom, ancres[i].nom) {
            return true;
        }
        j += 1;
    }
    false
}

impl EtatEchelle {
    /// A memory without history: the first measure plays every anchor.
    pub fn neuf(nb_ancres: usize) -> (r: EtatEchelle)
        ensures
            r@ == echelle_neuve(nb_ancres as nat),
            echelle_valide(r@, nb_ancres as nat),
    {
        let mut derniers: Vec<Option<Score>> = Vec::new();
        let mut depuis: Vec<u64> = Vec::new();
        let mut actives: Vec<bool> = Vec::new();
        let mut i: usize = 0;
        while i < nb_ancres
            invariant
                i <= nb_ancres,
                derniers@ == Seq::new(i as nat, |k: int| Option::<Score>::None),
                depuis@ == Seq::new(i as nat, |k: int| 0u64),
                actives@ == Seq::new(i as nat, |k: int| false),
            decreases nb_ancres - i,
        {
            derniers.push(None);
            depuis.push(0);
            actives.push(false);
            i += 1;
            assert(derniers@ =~= Seq::new(i as nat, |k: int| Option::<Score>::None));
            assert(depuis@ =~= Seq::new(i as nat, |k: int| 0u64));
            assert(actives@ =~= Seq::new(i as nat, |k: int| false));
        }
        let r: EtatEchelle = EtatEchelle { derniers, depuis, actives };
        assert(r@ =~= echelle_neuve(nb_ancres as nat));
        r
    }

    /// Rebuilds the memory from a journal. `scores[k]` is the share written on
    /// line `k` behind the header (see `scores_du_journal`), nothing when it is
    /// unreadable or not finite. An empty text and one whose last line is cut
    /// give a memory without history.
    pub fn charge_csv(
        contenu: &str,
        scores: &Vec<Option<Score>>,
        ancres: &Vec<Ancre>,
    ) -> (r: EtatEchelle)
        ensures
            r@ == echelle_du_journal(contenu@, scores@, ancres@),
            echelle_valide(r@, ancres@.len()),
    {
        let caracteres: Vec<char> = texte::caracteres(contenu);
        if caracteres.len() > 0 && caracteres[caracteres.len() - 1] != '\n' {
            return EtatEchelle::neuf(ancres.len());
        }
        let l: Vec<Vec<char>> = lignes_du_journal(contenu);
        let ghost lv = corps_journal(contenu@);
        let n: usize = l.len();
        let mut journal: Vec<LigneJournal> = Vec::new();
        let mut heures: Option<Vec<char>> = None;
        let mut mesures: u64 = 0;
        let mut i: usize = 0;
        while i < n
            invariant
                i <= n,
                n == l@.len(),
                n == lv.len(),
                forall|k: int| 0 <= k < l@.len() ==> (#[trigger] l@[k])@ == lv[k],
                mesures == numero_mesure(lv, i as int),
                mesures <= i,
                i > 0 ==> mesures < i,
                heures.is_some() ==> i > 0,
                match heures {
                    Some(h) => heures_courantes(lv, i as int) == Some(h@),
                    None => heures_courantes(lv, i as int) is None,
                },
                journal@.len() == i,
                forall|k: int|
                    0 <= k < i ==> texte::vues((#[trigger] journal@[k]).champs@) == champs_journal(
                        lv[k],
                    ) && journal@[k].mesure == numero_mesure(lv, k + 1),
            decreases n - i,
        {
            let c: Vec<Vec<char>> = decoupe_journal(&l[i]);
            if c.len() >= 3 {
                let change: bool = match &heures {
                    Some(h) => !texte::memes(h, &c[0]),
                    None => false,
                };
                if change {
                    mesures = mesures + 1;
                }
                let h: Vec<char> = texte::extrait(&c[0], 0, c[0].len());
                assert(h@ =~= c@[0]@);
                heures = Some(h);
            }
            journal.push(LigneJournal { champs: c, mesure: mesures });
            i += 1;
        }
        if heures.is_none() {
            return EtatEchelle::neuf(ancres.len());
        }
        let mut derniers: Vec<Option<Score>> = Vec::new();
        let mut depuis: Vec<u64> = Vec::new();
        let mut actives: Vec<bool> = Vec::new();
        let ghost attendu = echelle_du_journal(contenu@, scores@, ancres@);
        let mut a: usize = 0;
        while a < ancres.len()
            invariant
                a <= ancres@.len(),
                n == lv.len(),
                lv == corps_journal(contenu@),
                !journal_tronque(contenu@),
                heures_courantes(lv, n as int) is Some,
                attendu == echelle_du_journal(contenu@, scores@, ancres@),
                mesures == numero_mesure(lv, n as int),
                mesures < n,
                journal@.len() == n,
                forall|k: int|
                    0 <= k < n ==> texte::vues((#[trigger] journal@[k]).champs@) == champs_journal(
                        lv[k],
                    ) && journal@[k].mesure == numero_mesure(lv, k + 1),
                derniers@ == attendu.derniers.take(a as int),
                depuis@ == attendu.depuis.take(a as int),
                actives@ == attendu.actives.take(a as int),
            decreases ancres.len() - a,
        {
            let ghost nom = ancres@[a as int].nom@;
            let vn: Vec<char> = texte::caracteres(ancres[a].nom);
            // The last line that gives this anchor a score.
            let mut trouve: Option<usize> = None;
            if !nom_deja_pris(ancres, a) {
                let mut k: usize = n;
                while k > 0 && trouve.is_none()
                    invariant
                        k <= n,
                        n == lv.len(),
                        vn@ == nom,
                        journal@.len() == n,
                        forall|k: int|
                            0 <= k < n ==> texte::vues((#[trigger] journal@[k]).champs@)
                                == champs_journal(lv[k]) && journal@[k].mesure == numero_mesure(
                                lv,
                                k + 1,
                            ),
                        match trouve {
                            Some(m) => m < n && derniere_vue(lv, scores@, nom, n as int) == Some(
                                m as int,
                            ) && vue_a_la_ligne(lv, scores@, nom, m as int),
                            None => derniere_vue(lv, scores@, nom, n as int) == derniere_vue(
                                lv,
                                scores@,
                                nom,
                                k as int,
                            ),
                        },
                    decreases k,
                {
                    k = k - 1;
                    let c: &Vec<Vec<char>> = &journal[k].champs;
                    assert(texte::vues(c@).len() == c@.len());
                    assert(c@.len() >= 3 ==> texte::vues(c@)[1] == c@[1]@);
                    if c.len() >= 3 && texte::memes(&c[1], &vn) && k < scores.len()
                        && scores[k].is_some() {
                        trouve = Some(k);
                    }
                }
            }
            assert(match trouve {
                Some(m) => vue_de(lv, scores@, ancres@, a as int) == Some(m as int),
                None => vue_de(lv, scores@, ancres@, a as int) is None,
            });
            match trouve {
                Some(k) => {
                    let c: &Vec<Vec<char>> = &journal[k].champs;
                    assert(texte::vues(c@).len() == c@.len());
                    assert(c@.len() >= 5 ==> texte::vues(c@)[4] == c@[4]@);
                    let un: Vec<char> = texte::caracteres("1");
                    let resondage: bool = c.len() >= 5 && texte::memes(&texte::rogner(&c[4]), &un);
                    assert(resondage == ligne_de_resondage(lv[k as int]));
                    let m: u64 = journal[k].mesure;
                    proof {
                        lemme_numero_croit(lv, k + 1, n as int);
                    }
                    derniers.push(scores[k]);
                    depuis.push(mesures - m);
                    actives.push(m == mesures && !resondage);
                },
                None => {
                    derniers.push(None);
                    depuis.push(mesures + 1);
                    actives.push(false);
                },
            }
            assert(derniers@ =~= attendu.derniers.take(a as int + 1));
            assert(depuis@ =~= attendu.depuis.take(a as int + 1));
            assert(actives@ =~= attendu.actives.take(a as int + 1));
            a += 1;
        }
        let r: EtatEchelle = EtatEchelle { derniers, depuis, actives };
        assert(r@ =~= attendu);
        r
    }

    /// Plan of the next measure.
    pub fn plan(&self, ancres: &Vec<Ancre>, total_parties: usize) -> (r: Vec<PlanAncre>)
        requires
            2 * ancres@.len() <= usize::MAX - 25,
        ensures
            r@ == donnees(
                ancres@,
                self@.derniers,
                self@.depuis,
                self@.actives,
                Seq::new(ancres@.len(), |i: int| true),
                total_parties,
            ).plan(),
    {
        let eligibles: Vec<bool> = tous_vrais(ancres.len());
        plan_adaptatif_eligibles(
            ancres,
            &self.derniers,
            &self.depuis,
            &self.actives,
            &eligibles,
            total_parties,
        )
    }

    /// Plan of the next measure among the anchors that can be played.
    pub fn plan_eligibles(
        &self,
        ancres: &Vec<Ancre>,
        eligibles: &Vec<bool>,
        total_parties: usize,
    ) -> (r: Vec<PlanAncre>)
        requires
            2 * ancres@.len() <= usize::MAX - 25,
        ensures
            r@ == donnees(
                ancres@,
                self@.derniers,
                self@.depuis,
                self@.actives,
                eligibles@,
                total_parties,
            ).plan(),
    {
        plan_adaptatif_eligibles(
            ancres,
            &self.derniers,
            &self.depuis,
            &self.actives,
            eligibles,
            total_parties,
        )
    }

    /// Records a measure in which every anchor was played at full volume.
    pub fn enregistre(&mut self, ancres: &Vec<Ancre>, mesures: &Vec<MesureAncre>)
        requires
            echelle_valide(old(self)@, ancres@.len()),
        ensures
            final(self)@ == echelle_apres(old(self)@, ancres@, mesures@, Seq::empty()),
            echelle_valide(final(self)@, ancres@.len()),
    {
        let plan: Vec<PlanAncre> = Vec::new();
        self.enregistre_plan(ancres, mesures, &plan);
    }

    /// Records a measure: anchors played take their new score and the age
    /// zero, the others grow older; an anchor played only as a sounding does
    /// not become active.
    pub fn enregistre_plan(
        &mut self,
        ancres: &Vec<Ancre>,
        mesures: &Vec<MesureAncre>,
        plan: &Vec<PlanAncre>,
    )
        requires
            echelle_valide(old(self)@, ancres@.len()),
        ensures
            final(self)@ == echelle_apres(old(self)@, ancres@, mesures@, plan@),
            echelle_valide(final(self)@, ancres@.len()),
    {
        let ghost avant = self@;
        let ghost apres = echelle_apres(avant, ancres@, mesures@, plan@);
        let mut i: usize = 0;
        while i < ancres.len()
            invariant
                i <= ancres@.len(),
                echelle_valide(avant, ancres@.len()),
                echelle_valide(self@, ancres@.len()),
                apres == echelle_apres(avant, ancres@, mesures@, plan@),
                forall|k: int|
                    0 <= k < ancres@.len() ==> #[trigger] self@.derniers[k] == if k < i {
                        apres.derniers[k]
                    } else {
                        avant.derniers[k]
                    },
                forall|k: int|
                    0 <= k < ancres@.len() ==> #[trigger] self@.depuis[k] == if k < i {
                        apres.depuis[k]
                    } else {
                        avant.depuis[k]
                    },
                forall|k: int|
                    0 <= k < ancres@.len() ==> #[trigger] self@.actives[k] == if k < i {
                        apres.actives[k]
                    } else {
                        avant.actives[k]
                    },
            decreases ancres.len() - i,
        {
            let sondee: bool = index_resonde(plan, i);
            match mesure_de(mesures, ancres[i].nom) {
                Some(s) => {
                    self.derniers.set(i, Some(s));
                    self.depuis.set(i, 0);
                    self.actives.set(i, !sondee);
                },
                None => {
                    let age: u64 = self.depuis[i];
                    self.depuis.set(i, age.saturating_add(1));
                    self.actives.set(i, false);
                },
            }
            i += 1;
        }
        assert(self@ =~= apres);
    }

    /// Last known scores.
    pub fn derniers(&self) -> (r: &Vec<Option<Score>>)
        ensures
            r@ == self@.derniers,
    {
        &self.derniers
    }

    /// Ages of the last duels, in measures.
    pub fn depuis(&self) -> (r: &Vec<u64>)
        ensures
            r@ == self@.depuis,
    {
        &self.depuis
    }

    /// Anchors active in the last measure.
    pub fn actives(&self) -> (r: &Vec<bool>)
        ensures
            r@ == self@.actives,
    {
        &self.actives
    }
}

/// The score of the first measure that bears the name.
pub open spec fn score_mesure(mesures: Seq<MesureAncre>, nom: Seq<char>, k: int) -> Option<Score>
    decreases mesures.len() - k,
{
    if k < 0 || k >= mesures.len() {
        None
    } else if mesures[k].nom@ == nom {
        Some(mesures[k].score)
    } else {
        score_mesure(mesures, nom, k + 1)
    }
}

/// Does the plan play anchor `i` as a sounding?
pub open spec fn plan_resonde(plan: Seq<PlanAncre>, i: int) -> bool {
    exists|k: int|
        0 <= k < plan.len() && (#[trigger] plan[k]).index == i && plan[k].resondage
}

/// The memory after a measure.
pub open spec fn echelle_apres(
    v: VueEchelle,
    ancres: Seq<Ancre>,
    mesures: Seq<MesureAncre>,
    plan: Seq<PlanAncre>,
) -> VueEchelle {
    VueEchelle {
        derniers: Seq::new(
            ancres.len(),
            |i: int|
                match score_mesure(mesures, ancres[i].nom@, 0) {
                    Some(s) => Some(s),
                    None => v.derniers[i],
                },
        ),
        depuis: Seq::new(
            ancres.len(),
            |i: int|
                match score_mesure(mesures, ancres[i].nom@, 0) {
                    Some(s) => 0u64,
                    None => if v.depuis[i] == u64::MAX {
                        u64::MAX
                    } else {
                        (v.depuis[i] + 1) as u64
                    },
                },
        ),
        actives: Seq::new(
            ancres.len(),
            |i: int|
                score_mesure(mesures, ancres[i].nom@, 0) is Some && !plan_resonde(plan, i),
        ),
    }
}

fn index_resonde(plan: &Vec<PlanAncre>, i: usize) -> (r: bool)
    ensures
        r == plan_resonde(plan@, i as int),
{
    let mut k: usize = 0;
    while k < plan.len()
        invariant
            k <= plan@.len(),
            forall|m: int|
                0 <= m < k ==> !((#[trigger] plan@[m]).index == i && plan@[m].resondage),
        decreases plan.len() - k,
    {
        if plan[k].index == i && plan[k].resondage {
            return true;
        }
        k += 1;
    }
    false
}

fn mesure_de(mesures: &Vec<MesureAncre>, nom: &str) -> (r: Option<Score>)
    ensures
        r == score_mesure(mesures@, nom@, 0),
{
    let mut k: usize = 0;
    while k < mesures.len()
        invariant
            k <= mesures@.len(),
            score_mesure(mesures@, nom@, 0) == score_mesure(mesures@, nom@, k as int),
        decreases mesures.len() - k,
    {
        if texte::egal(mesures[k].nom, nom) {
            return Some(mesures[k].score);
        }
        k += 1;
    }
    None
}

/// A sounding never makes an anchor active: it has to come back through the
/// narrow band.
pub proof fn loi_resondage_n_active_pas(
    v: VueEchelle,
    ancres: Seq<Ancre>,
    mesures: Seq<MesureAncre>,
    plan: Seq<PlanAncre>,
    i: int,
)
    requires
        echelle_valide(v, ancres.len()),
        0 <= i < ancres.len(),
        plan_resonde(plan, i),
    ensures
        !echelle_apres(v, ancres, mesures, plan).actives[i],
{
}

/// Anchors that a measure leaves out keep their score and grow older, those it
/// plays are rejuvenated.
pub proof fn loi_vieillissement(
    v: VueEchelle,
    ancres: Seq<Ancre>,
    mesures: Seq<MesureAncre>,
    plan: Seq<PlanAncre>,
    i: int,
)
    requires
        echelle_valide(v, ancres.len()),
        0 <= i < ancres.len(),
        v.depuis[i] < u64::MAX,
    ensures
        ({
            let apres = echelle_apres(v, ancres, mesures, plan);
            match score_mesure(mesures, ancres[i].nom@, 0) {
                Some(s) => apres.derniers[i] == Some(s) && apres.depuis[i] == 0,
                None => apres.derniers[i] == v.derniers[i] && apres.depuis[i] == v.depuis[i] + 1
                    && !apres.actives[i],
            }
        }),
{
}


// ---------------------------------------------------------------------------
// Duels of a measure
// ---------------------------------------------------------------------------

/// A duel against a house anchor.
#[derive(Debug, Clone, Copy, PartialEq, Eq, Structural)]
pub struct DuelMaison {
    pub index: usize,
    /// Depth of the material search; random play without one.
    pub profondeur: Option<u32>,
    pub parties: usize,
    pub graine: u64,
    pub resondage: bool,
}

/// A duel against an engine of limited strength.
#[derive(Debug, Clone, Copy, PartialEq, Eq, Structural)]
pub struct DuelUci {
    pub index: usize,
    /// Strength asked of the engine, within its bounds.
    pub elo_reel: u32,
    /// Did the engine's bounds change the strength of the anchor?
    pub clampe: bool,
    pub movetime_ms: u64,
    pub parties: usize,
    pub graine: u64,
    pub resondage: bool,
}

/// Seed of the duel against the house anchor of rank `rang`.
pub open spec fn graine_maison(graine: u64, rang: int) -> u64 {
    graine.wrapping_add(rang as u64).wrapping_mul(0x9E37_79B9)
}

/// Seed of the duel against the engine anchor of rank `rang`.
pub open spec fn graine_uci(graine: u64, rang: int) -> u64 {
    graine.wrapping_add((0x5F00 + rang) as u64).wrapping_mul(0x9E37_79B9)
}

/// The duel of a plan entry against a house anchor, if it is one.
pub open spec fn duel_maison(ancres: Seq<Ancre>, e: PlanAncre, graine: u64) -> Option<DuelMaison> {
    if e.index < ancres.len() && e.parties > 0 {
        match ancres[e.index as int].genre {
            GenreAncre::Maison { profondeur } => Some(
                DuelMaison {
                    index: e.index,
                    profondeur,
                    parties: e.parties,
                    graine: graine_maison(graine, rang_attendu(ancres, e.index as int)),
                    resondage: e.resondage,
                },
            ),
            GenreAncre::Uci { .. } => None,
        }
    } else {
        None
    }
}

/// The duels of the first `k` plan entries against house anchors.
pub open spec fn duels_maison_attendus(
    ancres: Seq<Ancre>,
    plan: Seq<PlanAncre>,
    graine: u64,
    k: int,
) -> Seq<DuelMaison>
    decreases k,
{
    if k <= 0 {
        Seq::empty()
    } else {
        let d = duels_maison_attendus(ancres, plan, graine, k - 1);
        match duel_maison(ancres, plan[k - 1], graine) {
            Some(x) => d.push(x),
            None => d,
        }
    }
}

/// The duels of a plan against house anchors; entries for engines, for unknown
/// anchors or without games give none.
pub fn duels_maison(ancres: &Vec<Ancre>, plan: &Vec<PlanAncre>, graine: u64) -> (r: Vec<DuelMaison>)
    ensures
        r@ == duels_maison_attendus(ancres@, plan@, graine, plan@.len() as int),
{
    let mut r: Vec<DuelMaison> = Vec::new();
    let mut k: usize = 0;
    while k < plan.len()
        invariant
            k <= plan@.len(),
            r@ == duels_maison_attendus(ancres@, plan@, graine, k as int),
        decreases plan.len() - k,
    {
        let e: PlanAncre = plan[k];
        if e.index < ancres.len() && e.parties > 0 {
            if let GenreAncre::Maison { profondeur } = ancres[e.index].genre {
                let rang: usize = rang_dans_genre(ancres, e.index);
                let g: u64 = graine.wrapping_add(rang as u64).wrapping_mul(0x9E37_79B9);
                r.push(
                    DuelMaison {
                        index: e.index,
                        profondeur,
                        parties: e.parties,
                        graine: g,
                        resondage: e.resondage,
                    },
                );
            }
        }
        k += 1;
    }
    r
}

/// The random players, one for each seed.
pub open spec fn au_hasard() -> spec_fn(u64, bots::RandomBot) -> bool {
    |g: u64, b: bots::RandomBot| b.rng == bots::generateur_de(g)
}

/// The players that search on material to a depth, one for each seed.
pub open spec fn au_materiel(d: u32) -> spec_fn(u64, bots::MaterialBot) -> bool {
    |g: u64, b: bots::MaterialBot| b.rng == bots::generateur_de(g) && b.depth == d
}

/// A share of the points of the measured player that comes from the games of a
/// duel against a house anchor: random play, or a search on material to the
/// depth of the anchor.
pub open spec fn score_de_maison<B: Bot>(
    f: (u64, u64),
    duel: DuelMaison,
    joueur: spec_fn(u64, B) -> bool,
) -> bool {
    &&& f.0 <= f.1
    &&& f.1 == 2 * duel.parties
    &&& match duel.profondeur {
        None => arena::score_joue(joueur, au_hasard(), duel.graine, duel.parties as int, f),
        Some(d) => arena::score_joue(joueur, au_materiel(d), duel.graine, duel.parties as int, f),
    }
}

/// A game of a duel against a house anchor, which a player fails.
pub open spec fn rompu_par_maison<B: Bot>(
    j: jeu::VueJeu,
    duel: DuelMaison,
    joueur: spec_fn(u64, B) -> bool,
) -> bool {
    match duel.profondeur {
        None => arena::serie_rompue(joueur, au_hasard(), duel.graine, duel.parties as int, j),
        Some(d) => arena::serie_rompue(
            joueur,
            au_materiel(d),
            duel.graine,
            duel.parties as int,
            j,
        ),
    }
}

/// Share of the points of the measured player against a house anchor, as half
/// points over what could be had. `Err`, with the game, when a player failed
/// it.
pub fn score_maison<B: Bot, F: Fn(u64) -> B>(duel: &DuelMaison, fabrique: &F) -> (r: Result<
    (u64, u64),
    Jeu,
>)
    requires
        0 < 2 * duel.parties <= u64::MAX,
        forall|g: u64| #[trigger] call_requires(*fabrique, (g,)),
    ensures
        match r {
            Ok(f) => score_de_maison(f, *duel, arena::fabrique_de(*fabrique)),
            Err(j) => rompu_par_maison(j@, *duel, arena::fabrique_de(*fabrique)),
        },
{
    match duel.profondeur {
        None => {
            let hasard = |g: u64| -> (b: bots::RandomBot)
                ensures
                    b.rng == bots::generateur_de(g),
                { bots::RandomBot::new(g) };
            proof {
                arena::lemme_fabrique_plus_large(
                    arena::fabrique_de(*fabrique),
                    arena::fabrique_de(hasard),
                    au_hasard(),
                    duel.graine,
                    duel.parties as int,
                );
            }
            arena::score(fabrique, &hasard, duel.parties, duel.graine)
        },
        Some(d) => {
            let materiel = |g: u64| -> (b: bots::MaterialBot)
                ensures
                    b.rng == bots::generateur_de(g),
                    b.depth == d,
                { bots::MaterialBot::new(g, d) };
            proof {
                arena::lemme_fabrique_plus_large(
                    arena::fabrique_de(*fabrique),
                    arena::fabrique_de(materiel),
                    au_materiel(d),
                    duel.graine,
                    duel.parties as int,
                );
            }
            arena::score(fabrique, &materiel, duel.parties, duel.graine)
        },
    }
}

/// Shares of the points of the measured player, one for each duel.
pub open spec fn scores_de_maison<B: Bot>(
    v: Seq<(u64, u64)>,
    duels: Seq<DuelMaison>,
    joueur: spec_fn(u64, B) -> bool,
) -> bool {
    &&& v.len() == duels.len()
    &&& forall|i: int| 0 <= i < v.len() ==> score_de_maison(#[trigger] v[i], duels[i], joueur)
}

/// Plays the duels of a plan against house anchors: for each of them, the half
/// points of the measured player over what could be had. `Err`, with the
/// game, when a player failed it.
pub fn mesure_plan<B: Bot, F: Fn(u64) -> B>(
    ancres: &Vec<Ancre>,
    plan: &Vec<PlanAncre>,
    graine: u64,
    fabrique: &F,
) -> (r: Result<Vec<(u64, u64)>, Jeu>)
    requires
        forall|i: int| 0 <= i < plan@.len() ==> 2 * (#[trigger] plan@[i]).parties <= u64::MAX,
        forall|g: u64| #[trigger] call_requires(*fabrique, (g,)),
    ensures
        ({
            let duels = duels_maison_attendus(ancres@, plan@, graine, plan@.len() as int);
            match r {
                Ok(v) => scores_de_maison(v@, duels, arena::fabrique_de(*fabrique)),
                Err(j) => exists|i: int|
                    0 <= i < duels.len() && rompu_par_maison(
                        j@,
                        #[trigger] duels[i],
                        arena::fabrique_de(*fabrique),
                    ),
            }
        }),
{
    let duels: Vec<DuelMaison> = duels_maison(ancres, plan, graine);
    let ghost attendus = duels@;
    let mut v: Vec<(u64, u64)> = Vec::new();
    proof {
        lemme_parties_des_duels(ancres@, plan@, graine, plan@.len() as int);
    }
    while v.len() < duels.len()
        invariant
            v@.len() <= duels@.len(),
            duels@ == attendus,
            attendus == duels_maison_attendus(ancres@, plan@, graine, plan@.len() as int),
            forall|i: int|
                0 <= i < duels@.len() ==> 0 < 2 * (#[trigger] duels@[i]).parties <= u64::MAX,
            forall|g: u64| #[trigger] call_requires(*fabrique, (g,)),
            forall|i: int|
                0 <= i < v@.len() ==> score_de_maison(
                    #[trigger] v@[i],
                    duels@[i],
                    arena::fabrique_de(*fabrique),
                ),
        decreases duels.len() - v.len(),
    {
        let d: DuelMaison = duels[v.len()];
        match score_maison(&d, fabrique) {
            Ok(f) => {
                v.push(f);
            },
            Err(j) => {
                assert(attendus[v@.len() as int] == d);
                return Err(j);
            },
        }
    }
    Ok(v)
}

proof fn lemme_parties_des_duels(ancres: Seq<Ancre>, plan: Seq<PlanAncre>, graine: u64, k: int)
    requires
        0 <= k <= plan.len(),
        forall|i: int| 0 <= i < plan.len() ==> 2 * (#[trigger] plan[i]).parties <= u64::MAX,
    ensures
        forall|i: int|
            0 <= i < duels_maison_attendus(ancres, plan, graine, k).len() ==> 0 < 2 * (
            #[trigger] duels_maison_attendus(ancres, plan, graine, k)[i]).parties <= u64::MAX,
    decreases k,
{
    if k > 0 {
        lemme_parties_des_duels(ancres, plan, graine, k - 1);
        assert(2 * plan[k - 1].parties <= u64::MAX);
    }
}

/// Plays every house anchor of a ladder, as many games against each.
pub fn mesure<B: Bot, F: Fn(u64) -> B>(
    ancres: &Vec<Ancre>,
    parties_par_ancre: usize,
    graine: u64,
    fabrique: &F,
) -> (r: Result<Vec<(u64, u64)>, Jeu>)
    requires
        2 * parties_par_ancre <= u64::MAX,
        forall|g: u64| #[trigger] call_requires(*fabrique, (g,)),
    ensures
        ({
            let plan = entier(ancres@.len(), parties_par_ancre);
            let duels = duels_maison_attendus(ancres@, plan, graine, plan.len() as int);
            match r {
                Ok(v) => scores_de_maison(v@, duels, arena::fabrique_de(*fabrique)),
                Err(j) => exists|i: int|
                    0 <= i < duels.len() && rompu_par_maison(
                        j@,
                        #[trigger] duels[i],
                        arena::fabrique_de(*fabrique),
                    ),
            }
        }),
{
    let plan: Vec<PlanAncre> = plan_complet(ancres, parties_par_ancre);
    mesure_plan(ancres, &plan, graine, fabrique)
}

/// The measures of the first `k` house duels.
pub open spec fn mesures_maison_attendues(
    ancres: Seq<Ancre>,
    duels: Seq<DuelMaison>,
    scores: Seq<Score>,
    k: int,
) -> Seq<MesureAncre> {
    Seq::new(
        k as nat,
        |i: int|
            MesureAncre {
                nom: ancres[duels[i].index as int].nom,
                elo_ancre: ancres[duels[i].index as int].elo,
                score: scores[i],
                parties: duels[i].parties,
            },
    )
}

/// The measures of house duels, given the share of each.
pub fn mesures_maison(ancres: &Vec<Ancre>, duels: &Vec<DuelMaison>, scores: &Vec<Score>) -> (r: Vec<
    MesureAncre,
>)
    requires
        duels@.len() == scores@.len(),
        forall|i: int| 0 <= i < duels@.len() ==> (#[trigger] duels@[i]).index < ancres@.len(),
    ensures
        r@ == mesures_maison_attendues(ancres@, duels@, scores@, duels@.len() as int),
{
    let mut r: Vec<MesureAncre> = Vec::new();
    while r.len() < duels.len()
        invariant
            r@.len() <= duels@.len(),
            duels@.len() == scores@.len(),
            forall|i: int| 0 <= i < duels@.len() ==> (#[trigger] duels@[i]).index < ancres@.len(),
            r@ == mesures_maison_attendues(ancres@, duels@, scores@, r@.len() as int),
        decreases duels.len() - r.len(),
    {
        let k: usize = r.len();
        let d: DuelMaison = duels[k];
        let a: Ancre = ancres[d.index];
        r.push(
            MesureAncre { nom: a.nom, elo_ancre: a.elo, score: scores[k], parties: d.parties },
        );
        assert(r@ =~= mesures_maison_attendues(ancres@, duels@, scores@, k + 1));
    }
    r
}

/// Leaving other anchors out of the plan does not change a duel: the duel of an
/// entry is the same in every plan that holds the entry.
pub proof fn loi_duel_independant_du_plan(
    ancres: Seq<Ancre>,
    plan: Seq<PlanAncre>,
    graine: u64,
    k: int,
)
    requires
        0 <= k < plan.len(),
        duel_maison(ancres, plan[k], graine) is Some,
    ensures
        duels_maison_attendus(ancres, plan, graine, plan.len() as int).contains(
            duel_maison(ancres, plan[k], graine)->0,
        ),
{
    lemme_duel_present(ancres, plan, graine, plan.len() as int, k);
}

proof fn lemme_duel_present(
    ancres: Seq<Ancre>,
    plan: Seq<PlanAncre>,
    graine: u64,
    n: int,
    k: int,
)
    requires
        0 <= k < n <= plan.len(),
        duel_maison(ancres, plan[k], graine) is Some,
    ensures
        duels_maison_attendus(ancres, plan, graine, n).contains(
            duel_maison(ancres, plan[k], graine)->0,
        ),
    decreases n,
{
    let avant = duels_maison_attendus(ancres, plan, graine, n - 1);
    let tous = duels_maison_attendus(ancres, plan, graine, n);
    let x = duel_maison(ancres, plan[k], graine)->0;
    if k == n - 1 {
        assert(tous[avant.len() as int] == x);
    } else {
        lemme_duel_present(ancres, plan, graine, n - 1, k);
        let i = avant.index_of(x);
        assert(tous[i] == x);
    }
}

/// Is the plan entry a duel against an engine?
pub open spec fn entree_uci(ancres: Seq<Ancre>, e: PlanAncre) -> bool {
    e.index < ancres.len() && e.parties > 0 && ancres[e.index as int].genre is Uci
}

/// What to do about the engine anchors of a plan.
#[derive(Debug, Clone, Copy, PartialEq, Eq, Structural)]
pub enum PreparationUci {
    /// Nothing to play; `annonce` when the missing engine is worth a word.
    Rien { annonce: bool },
    /// Ask the engine for its bounds, then play.
    Sonder,
}

/// Without engine anchors in the plan nothing is played; without an engine
/// neither. The missing engine is announced when the ladder has engine
/// anchors.
pub fn prepare_uci(ancres: &Vec<Ancre>, plan: &Vec<PlanAncre>, moteur: &str) -> (r: PreparationUci)
    ensures
        ({
            let demandee = exists|k: int| 0 <= k < plan@.len() && entree_uci(ancres@, #[trigger] plan@[k]);
            let connue = exists|i: int| 0 <= i < ancres@.len() && !maison(#[trigger] ancres@[i]);
            r == if demandee && moteur@.len() > 0 {
                PreparationUci::Sonder
            } else {
                PreparationUci::Rien { annonce: moteur@.len() == 0 && (demandee || connue) }
            }
        }),
{
    let mut demandee: bool = false;
    let mut k: usize = 0;
    while k < plan.len()
        invariant
            k <= plan@.len(),
            demandee == exists|m: int| 0 <= m < k && entree_uci(ancres@, #[trigger] plan@[m]),
        decreases plan.len() - k,
    {
        let e: PlanAncre = plan[k];
        if e.index < ancres.len() && e.parties > 0 && !est_maison(&ancres[e.index]) {
            assert(entree_uci(ancres@, plan@[k as int]));
            demandee = true;
        }
        k += 1;
    }
    let mut connue: bool = false;
    let mut i: usize = 0;
    while i < ancres.len()
        invariant
            i <= ancres@.len(),
            connue == exists|m: int| 0 <= m < i && !maison(#[trigger] ancres@[m]),
        decreases ancres.len() - i,
    {
        if !est_maison(&ancres[i]) {
            assert(!maison(ancres@[i as int]));
            connue = true;
        }
        i += 1;
    }
    let sans_moteur: bool = moteur.is_empty();
    if demandee && !sans_moteur {
        PreparationUci::Sonder
    } else {
        PreparationUci::Rien { annonce: sans_moteur && (demandee || connue) }
    }
}

/// The duel of a plan entry against an engine whose strength goes from
/// `elo_min` to `elo_max`.
pub open spec fn duel_uci(
    ancres: Seq<Ancre>,
    e: PlanAncre,
    elo_min: u32,
    elo_max: u32,
    graine: u64,
) -> Option<DuelUci> {
    if e.index < ancres.len() && e.parties > 0 {
        match ancres[e.index as int].genre {
            GenreAncre::Uci { elo_nominal, movetime_ms } => {
                let elo_reel = if elo_nominal < elo_min {
                    elo_min
                } else if elo_nominal > elo_max {
                    elo_max
                } else {
                    elo_nominal
                };
                Some(
                    DuelUci {
                        index: e.index,
                        elo_reel,
                        clampe: elo_reel != elo_nominal,
                        movetime_ms,
                        parties: e.parties,
                        graine: graine_uci(graine, rang_attendu(ancres, e.index as int)),
                        resondage: e.resondage,
                    },
                )
            },
            GenreAncre::Maison { .. } => None,
        }
    } else {
        None
    }
}

/// The duels of the first `k` plan entries against an engine.
pub open spec fn duels_uci_attendus(
    ancres: Seq<Ancre>,
    plan: Seq<PlanAncre>,
    elo_min: u32,
    elo_max: u32,
    graine: u64,
    k: int,
) -> Seq<DuelUci>
    decreases k,
{
    if k <= 0 {
        Seq::empty()
    } else {
        let d = duels_uci_attendus(ancres, plan, elo_min, elo_max, graine, k - 1);
        match duel_uci(ancres, plan[k - 1], elo_min, elo_max, graine) {
            Some(x) => d.push(x),
            None => d,
        }
    }
}

/// The duels of a plan against an engine, its strengths brought within the
/// bounds that the engine announced.
pub fn duels_uci(
    ancres: &Vec<Ancre>,
    plan: &Vec<PlanAncre>,
    elo_min: u32,
    elo_max: u32,
    graine: u64,
) -> (r: Vec<DuelUci>)
    requires
        elo_min <= elo_max,
        ancres@.len() + 0x5F00 <= usize::MAX,
    ensures
        r@ == duels_uci_attendus(ancres@, plan@, elo_min, elo_max, graine, plan@.len() as int),
        forall|i: int| 0 <= i < r@.len() ==> elo_min <= (#[trigger] r@[i]).elo_reel <= elo_max,
        forall|i: int| 0 <= i < r@.len() ==> (#[trigger] r@[i]).index < ancres@.len(),
{
    let mut r: Vec<DuelUci> = Vec::new();
    let mut k: usize = 0;
    while k < plan.len()
        invariant
            k <= plan@.len(),
            elo_min <= elo_max,
            ancres@.len() + 0x5F00 <= usize::MAX,
            r@ == duels_uci_attendus(ancres@, plan@, elo_min, elo_max, graine, k as int),
            forall|i: int| 0 <= i < r@.len() ==> elo_min <= (#[trigger] r@[i]).elo_reel <= elo_max,
            forall|i: int| 0 <= i < r@.len() ==> (#[trigger] r@[i]).index < ancres@.len(),
        decreases plan.len() - k,
    {
        let e: PlanAncre = plan[k];
        if e.index < ancres.len() && e.parties > 0 {
            if let GenreAncre::Uci { elo_nominal, movetime_ms } = ancres[e.index].genre {
                let elo_reel: u32 = if elo_nominal < elo_min {
                    elo_min
                } else if elo_nominal > elo_max {
                    elo_max
                } else {
                    elo_nominal
                };
                let rang: usize = rang_dans_genre(ancres, e.index);
                let decale: u64 = (0x5F00 + rang) as u64;
                let g: u64 = graine.wrapping_add(decale).wrapping_mul(0x9E37_79B9);
                r.push(
                    DuelUci {
                        index: e.index,
                        elo_reel,
                        clampe: elo_reel != elo_nominal,
                        movetime_ms,
                        parties: e.parties,
                        graine: g,
                        resondage: e.resondage,
                    },
                );
            }
        }
        k += 1;
    }
    r
}

/// The engines that a launcher gives at a strength and a time for each move,
/// whatever the seed.
pub open spec fn lances<S, L: Fn(u32, u64) -> S>(lance: L, elo: u32, movetime_ms: u64) -> spec_fn(
    u64,
    S,
) -> bool {
    |g: u64, s: S| call_ensures(lance, (elo, movetime_ms), s)
}

/// A share of the points of the measured player that comes from the games of a
/// duel against an engine.
pub open spec fn score_de_moteur<B: Bot, S: Bot, L: Fn(u32, u64) -> S>(
    f: (u64, u64),
    duel: DuelUci,
    joueur: spec_fn(u64, B) -> bool,
    lance: L,
) -> bool {
    &&& f.0 <= f.1
    &&& f.1 == 2 * duel.parties
    &&& arena::score_joue(
        joueur,
        lances(lance, duel.elo_reel, duel.movetime_ms),
        duel.graine,
        duel.parties as int,
        f,
    )
}

/// A game of a duel against an engine, which a player fails.
pub open spec fn rompu_par_moteur<B: Bot, S: Bot, L: Fn(u32, u64) -> S>(
    j: jeu::VueJeu,
    duel: DuelUci,
    joueur: spec_fn(u64, B) -> bool,
    lance: L,
) -> bool {
    arena::serie_rompue(
        joueur,
        lances(lance, duel.elo_reel, duel.movetime_ms),
        duel.graine,
        duel.parties as int,
        j,
    )
}

/// Share of the points of the measured player against an engine of limited
/// strength, which is opened for every game. `Err`, with the game, when a
/// player failed it.
pub fn score_uci<B: Bot, S: Bot, F: Fn(u64) -> B, L: Fn(u32, u64) -> S>(
    duel: &DuelUci,
    fabrique: &F,
    lance: &L,
) -> (r: Result<(u64, u64), Jeu>)
    requires
        0 < 2 * duel.parties <= u64::MAX,
        forall|g: u64| #[trigger] call_requires(*fabrique, (g,)),
        call_requires(*lance, (duel.elo_reel, duel.movetime_ms)),
    ensures
        match r {
            Ok(f) => score_de_moteur(f, *duel, arena::fabrique_de(*fabrique), *lance),
            Err(j) => rompu_par_moteur(j@, *duel, arena::fabrique_de(*fabrique), *lance),
        },
{
    let moteur = |g: u64| -> (s: S)
        ensures
            call_ensures(*lance, (duel.elo_reel, duel.movetime_ms), s),
        { lance(duel.elo_reel, duel.movetime_ms) };
    proof {
        arena::lemme_fabrique_plus_large(
            arena::fabrique_de(*fabrique),
            arena::fabrique_de(moteur),
            lances(*lance, duel.elo_reel, duel.movetime_ms),
            duel.graine,
            duel.parties as int,
        );
    }
    arena::score(fabrique, &moteur, duel.parties, duel.graine)
}

/// What became of a duel against an engine: a share of the points over all its
/// games, or nothing where a player failed one of them.
pub open spec fn sort_du_duel<B: Bot, S: Bot, L: Fn(u32, u64) -> S>(
    d: DuelUci,
    s: Option<(u64, u64)>,
    joueur: spec_fn(u64, B) -> bool,
    lance: L,
) -> bool {
    match s {
        Some(f) => score_de_moteur(f, d, joueur, lance),
        None => exists|j: jeu::VueJeu| #[trigger] rompu_par_moteur(j, d, joueur, lance),
    }
}

/// Plays the duels of a plan against an engine whose strength goes from
/// `elo_min` to `elo_max`: for each of them, the half points of the measured
/// player over what could be had, nothing where the duel failed. A duel that
/// fails does not stop the others.
pub fn mesure_uci_plan<B: Bot, S: Bot, F: Fn(u64) -> B, L: Fn(u32, u64) -> S>(
    ancres: &Vec<Ancre>,
    plan: &Vec<PlanAncre>,
    elo_min: u32,
    elo_max: u32,
    graine: u64,
    fabrique: &F,
    lance: &L,
) -> (r: Vec<Option<(u64, u64)>>)
    requires
        elo_min <= elo_max,
        ancres@.len() + 0x5F00 <= usize::MAX,
        forall|i: int| 0 <= i < plan@.len() ==> 2 * (#[trigger] plan@[i]).parties <= u64::MAX,
        forall|g: u64| #[trigger] call_requires(*fabrique, (g,)),
        forall|e: u32, t: u64| #[trigger] call_requires(*lance, (e, t)),
    ensures
        ({
            let duels = duels_uci_attendus(
                ancres@,
                plan@,
                elo_min,
                elo_max,
                graine,
                plan@.len() as int,
            );
            r@.len() == duels.len() && forall|i: int|
                0 <= i < r@.len() ==> sort_du_duel(
                    duels[i],
                    #[trigger] r@[i],
                    arena::fabrique_de(*fabrique),
                    *lance,
                )
        }),
{
    let duels: Vec<DuelUci> = duels_uci(ancres, plan, elo_min, elo_max, graine);
    let ghost attendus = duels@;
    proof {
        lemme_parties_des_duels_uci(
            ancres@,
            plan@,
            elo_min,
            elo_max,
            graine,
            plan@.len() as int,
        );
    }
    let mut r: Vec<Option<(u64, u64)>> = Vec::new();
    while r.len() < duels.len()
        invariant
            r@.len() <= duels@.len(),
            duels@ == attendus,
            forall|i: int|
                0 <= i < duels@.len() ==> 0 < 2 * (#[trigger] duels@[i]).parties <= u64::MAX,
            forall|g: u64| #[trigger] call_requires(*fabrique, (g,)),
            forall|e: u32, t: u64| #[trigger] call_requires(*lance, (e, t)),
            forall|i: int|
                0 <= i < r@.len() ==> sort_du_duel(
                    attendus[i],
                    #[trigger] r@[i],
                    arena::fabrique_de(*fabrique),
                    *lance,
                ),
        decreases duels.len() - r.len(),
    {
        let d: DuelUci = duels[r.len()];
        match score_uci(&d, fabrique, lance) {
            Ok(f) => {
                r.push(Some(f));
            },
            Err(j) => {
                assert(rompu_par_moteur(j@, d, arena::fabrique_de(*fabrique), *lance));
                r.push(None);
            },
        }
    }
    r
}

/// Plays every engine anchor of a ladder, as many games against each.
pub fn mesure_uci<B: Bot, S: Bot, F: Fn(u64) -> B, L: Fn(u32, u64) -> S>(
    ancres: &Vec<Ancre>,
    parties_par_ancre: usize,
    elo_min: u32,
    elo_max: u32,
    graine: u64,
    fabrique: &F,
    lance: &L,
) -> (r: Vec<Option<(u64, u64)>>)
    requires
        elo_min <= elo_max,
        ancres@.len() + 0x5F00 <= usize::MAX,
        2 * parties_par_ancre <= u64::MAX,
        forall|g: u64| #[trigger] call_requires(*fabrique, (g,)),
        forall|e: u32, t: u64| #[trigger] call_requires(*lance, (e, t)),
    ensures
        ({
            let plan = entier(ancres@.len(), parties_par_ancre);
            let duels = duels_uci_attendus(
                ancres@,
                plan,
                elo_min,
                elo_max,
                graine,
                plan.len() as int,
            );
            r@.len() == duels.len() && forall|i: int|
                0 <= i < r@.len() ==> sort_du_duel(
                    duels[i],
                    #[trigger] r@[i],
                    arena::fabrique_de(*fabrique),
                    *lance,
                )
        }),
{
    let plan: Vec<PlanAncre> = plan_complet(ancres, parties_par_ancre);
    mesure_uci_plan(ancres, &plan, elo_min, elo_max, graine, fabrique, lance)
}

proof fn lemme_parties_des_duels_uci(
    ancres: Seq<Ancre>,
    plan: Seq<PlanAncre>,
    elo_min: u32,
    elo_max: u32,
    graine: u64,
    k: int,
)
    requires
        0 <= k <= plan.len(),
        forall|i: int| 0 <= i < plan.len() ==> 2 * (#[trigger] plan[i]).parties <= u64::MAX,
    ensures
        forall|i: int|
            0 <= i < duels_uci_attendus(ancres, plan, elo_min, elo_max, graine, k).len() ==> 0 < 2 * (
            #[trigger] duels_uci_attendus(
                ancres,
                plan,
                elo_min,
                elo_max,
                graine,
                k,
            )[i]).parties <= u64::MAX,
    decreases k,
{
    if k > 0 {
        lemme_parties_des_duels_uci(ancres, plan, elo_min, elo_max, graine, k - 1);
        assert(2 * plan[k - 1].parties <= u64::MAX);
        let d = duels_uci_attendus(ancres, plan, elo_min, elo_max, graine, k - 1);
        let e = duels_uci_attendus(ancres, plan, elo_min, elo_max, graine, k);
        assert forall|i: int| 0 <= i < e.len() implies 0 < 2 * (#[trigger] e[i]).parties
            <= u64::MAX by {
            if i < d.len() {
                assert(e[i] == d[i]);
            }
        }
    }
}

/// The measures of the first `k` engine duels: those that gave a score.
pub open spec fn mesures_uci_attendues(
    ancres: Seq<Ancre>,
    duels: Seq<DuelUci>,
    scores: Seq<Option<Score>>,
    k: int,
) -> Seq<MesureAncre>
    decreases k,
{
    if k <= 0 {
        Seq::empty()
    } else {
        let d = mesures_uci_attendues(ancres, duels, scores, k - 1);
        match scores[k - 1] {
            Some(score) => d.push(
                MesureAncre {
                    nom: ancres[duels[k - 1].index as int].nom,
                    elo_ancre: duels[k - 1].elo_reel,
                    score,
                    parties: duels[k - 1].parties,
                },
            ),
            None => d,
        }
    }
}

/// The measures of engine duels. A duel that failed gives none; the strength
/// measured is the one that was applied.
pub fn mesures_uci(
    ancres: &Vec<Ancre>,
    duels: &Vec<DuelUci>,
    scores: &Vec<Option<Score>>,
) -> (r: Vec<MesureAncre>)
    requires
        duels@.len() == scores@.len(),
        forall|i: int| 0 <= i < duels@.len() ==> (#[trigger] duels@[i]).index < ancres@.len(),
    ensures
        r@ == mesures_uci_attendues(ancres@, duels@, scores@, duels@.len() as int),
{
    let mut r: Vec<MesureAncre> = Vec::new();
    let mut k: usize = 0;
    while k < duels.len()
        invariant
            k <= duels@.len(),
            duels@.len() == scores@.len(),
            forall|i: int| 0 <= i < duels@.len() ==> (#[trigger] duels@[i]).index < ancres@.len(),
            r@ == mesures_uci_attendues(ancres@, duels@, scores@, k as int),
        decreases duels.len() - k,
    {
        let d: DuelUci = duels[k];
        if let Some(score) = scores[k] {
            r.push(
                MesureAncre {
                    nom: ancres[d.index].nom,
                    elo_ancre: d.elo_reel,
                    score,
                    parties: d.parties,
                },
            );
        }
        k += 1;
    }
    r
}

// ---------------------------------------------------------------------------
// Reading a plan
// ---------------------------------------------------------------------------

/// Is anchor `i` of the ladder an engine? An index out of the ladder is not.
pub fn est_uci(ancres: &Vec<Ancre>, i: usize) -> (r: bool)
    ensures
        r == (i < ancres@.len() && !maison(ancres@[i as int])),
{
    i < ancres.len() && !est_maison(&ancres[i])
}

/// Is the anchor of that name played only as a sounding?
pub open spec fn nom_resonde(ancres: Seq<Ancre>, plan: Seq<PlanAncre>, nom: Seq<char>) -> bool {
    exists|k: int|
        0 <= k < plan.len() && (#[trigger] plan[k]).resondage && plan[k].index < ancres.len()
            && ancres[plan[k].index as int].nom@ == nom
}

/// Is the anchor of that name played only as a sounding?
pub fn est_resondage(ancres: &Vec<Ancre>, plan: &Vec<PlanAncre>, nom: &str) -> (r: bool)
    ensures
        r == nom_resonde(ancres@, plan@, nom@),
{
    let mut k: usize = 0;
    while k < plan.len()
        invariant
            k <= plan@.len(),
            forall|m: int|
                0 <= m < k ==> !((#[trigger] plan@[m]).resondage && plan@[m].index < ancres@.len()
                    && ancres@[plan@[m].index as int].nom@ == nom@),
        decreases plan.len() - k,
    {
        let e: PlanAncre = plan[k];
        if e.resondage && e.index < ancres.len() && texte::egal(ancres[e.index].nom, nom) {
            return true;
        }
        k += 1;
    }
    false
}

/// Which anchors can be played: the house ones always, the engines when one is
/// at hand.
pub fn ancres_jouables(ancres: &Vec<Ancre>, uci_jouables: bool) -> (r: Vec<bool>)
    ensures
        r@ == Seq::new(ancres@.len(), |i: int| uci_jouables || maison(ancres@[i])),
{
    let mut r: Vec<bool> = Vec::new();
    let mut i: usize = 0;
    while i < ancres.len()
        invariant
            i <= ancres@.len(),
            r@.len() == i,
            forall|k: int| 0 <= k < i ==> #[trigger] r@[k] == (uci_jouables || maison(ancres@[k])),
        decreases ancres.len() - i,
    {
        r.push(uci_jouables || est_maison(&ancres[i]));
        i += 1;
    }
    assert(r@ =~= Seq::new(ancres@.len(), |i: int| uci_jouables || maison(ancres@[i])));
    r
}

/// Must the measure be planned again on the house anchors alone: nothing was
/// measured although the plan held engines?
pub fn repli_necessaire(
    ancres: &Vec<Ancre>,
    plan: &Vec<PlanAncre>,
    mesures: &Vec<MesureAncre>,
) -> (r: bool)
    ensures
        r == (mesures@.len() == 0 && exists|k: int|
            0 <= k < plan@.len() && (#[trigger] plan@[k]).index < ancres@.len() && !maison(
                ancres@[plan@[k].index as int],
            )),
{
    if mesures.len() > 0 {
        return false;
    }
    let mut k: usize = 0;
    while k < plan.len()
        invariant
            mesures@.len() == 0,
            k <= plan@.len(),
            forall|m: int|
                0 <= m < k ==> !((#[trigger] plan@[m]).index < ancres@.len() && !maison(
                    ancres@[plan@[m].index as int],
                )),
        decreases plan.len() - k,
    {
        if est_uci(ancres, plan[k].index) {
            assert(!maison(ancres@[plan@[k as int].index as int]));
            return true;
        }
        k += 1;
    }
    false
}

/// Falling back on the house anchors always gives something to play: with a
/// house anchor in the ladder and two games or more, the plan among the house
/// anchors is not empty and holds no engine.
pub proof fn loi_repli_possible(ancres: Seq<Ancre>, d: Donnees, i: int)
    requires
        plausible(d),
        d.n == ancres.len(),
        d.eligibles == Seq::new(ancres.len(), |k: int| maison(ancres[k])),
        d.total >= 2,
        0 <= i < ancres.len(),
        maison(ancres[i]),
    ensures
        d.plan().len() > 0,
        forall|k: int|
            0 <= k < d.plan().len() ==> (#[trigger] d.plan()[k]).index < ancres.len() && maison(
                ancres[d.plan()[k].index as int],
            ),
{
    let fe = |k: int| d.eligible(k);
    assert(fe(i));
    lemme_compte_positif(d.n, fe);
    loi_budget_exact(d);
    assert(parties_du_plan(d.plan(), d.plan().len() as int) > 0);
    assert forall|k: int| 0 <= k < d.plan().len() implies (#[trigger] d.plan()[k]).index
        < ancres.len() && maison(ancres[d.plan()[k].index as int]) by {
        loi_entrees_du_plan(d, k);
    }
}

/// The first `k` measures that enter the published rating: all but the
/// soundings.
pub open spec fn hors_resondage(
    ancres: Seq<Ancre>,
    plan: Seq<PlanAncre>,
    mesures: Seq<MesureAncre>,
    k: int,
) -> Seq<MesureAncre>
    decreases k,
{
    if k <= 0 {
        Seq::empty()
    } else {
        let d = hors_resondage(ancres, plan, mesures, k - 1);
        if nom_resonde(ancres, plan, mesures[k - 1].nom@) {
            d
        } else {
            d.push(mesures[k - 1])
        }
    }
}

/// The measures that enter the published rating: soundings do not.
pub fn pour_le_fit(
    ancres: &Vec<Ancre>,
    plan: &Vec<PlanAncre>,
    mesures: &Vec<MesureAncre>,
) -> (r: Vec<MesureAncre>)
    ensures
        r@ == hors_resondage(ancres@, plan@, mesures@, mesures@.len() as int),
{
    let mut r: Vec<MesureAncre> = Vec::new();
    let mut k: usize = 0;
    while k < mesures.len()
        invariant
            k <= mesures@.len(),
            r@ == hors_resondage(ancres@, plan@, mesures@, k as int),
        decreases mesures.len() - k,
    {
        let m: MesureAncre = mesures[k];
        if !est_resondage(ancres, plan, m.nom) {
            r.push(m);
        }
        k += 1;
    }
    r
}

/// Does a score lie at least one whole point away from both bounds? `borne`
/// holds the binary64 patterns of one game's share and of the rest.
pub open spec fn interieure(m: MesureAncre, borne: (u64, u64)) -> bool {
    borne.0 <= m.score.bits <= borne.1
}

/// Does one of the scores say something: is it at least one whole point away
/// from both bounds? Where all are stuck to a bound, the fit would follow the
/// number of games and nothing else. `bornes` gives for each measure the
/// binary64 patterns of 1/n and of 1 - 1/n, n being its games, one at least.
pub fn mesure_informative(mesures: &Vec<MesureAncre>, bornes: &Vec<(u64, u64)>) -> (r: bool)
    requires
        mesures@.len() == bornes@.len(),
    ensures
        r == exists|i: int| 0 <= i < mesures@.len() && #[trigger] interieure(mesures@[i], bornes@[i]),
{
    let mut i: usize = 0;
    while i < mesures.len()
        invariant
            i <= mesures@.len(),
            mesures@.len() == bornes@.len(),
            forall|j: int| 0 <= j < i ==> !#[trigger] interieure(mesures@[j], bornes@[j]),
        decreases mesures.len() - i,
    {
        let b: (u64, u64) = bornes[i];
        let s: u64 = mesures[i].score.bits;
        if b.0 <= s && s <= b.1 {
            assert(interieure(mesures@[i as int], bornes@[i as int]));
            return true;
        }
        i += 1;
    }
    false
}

/// Does the plan hold anchor `i`?
pub open spec fn au_plan(plan: Seq<PlanAncre>, i: int) -> bool {
    exists|k: int| 0 <= k < plan.len() && (#[trigger] plan[k]).index == i
}

/// The anchors below `k` that the plan leaves out, playable or not.
pub open spec fn hors_plan(plan: Seq<PlanAncre>, eligibles: Seq<bool>, jouable: bool, k: int) -> Seq<
    usize,
>
    decreases k,
{
    if k <= 0 {
        Seq::empty()
    } else {
        let d = hors_plan(plan, eligibles, jouable, k - 1);
        if !au_plan(plan, k - 1) && (k - 1 < eligibles.len() ==> eligibles[k - 1]) == jouable {
            d.push((k - 1) as usize)
        } else {
            d
        }
    }
}

/// The anchors that the plan leaves out: the saturated ones, which could be
/// played, and those that cannot be played now.
pub fn ancres_ecartees(nb_ancres: usize, plan: &Vec<PlanAncre>, eligibles: &Vec<bool>) -> (r: (
    Vec<usize>,
    Vec<usize>,
))
    ensures
        r.0@ == hors_plan(plan@, eligibles@, true, nb_ancres as int),
        r.1@ == hors_plan(plan@, eligibles@, false, nb_ancres as int),
{
    let mut saturees: Vec<usize> = Vec::new();
    let mut injouables: Vec<usize> = Vec::new();
    let mut i: usize = 0;
    while i < nb_ancres
        invariant
            i <= nb_ancres,
            saturees@ == hors_plan(plan@, eligibles@, true, i as int),
            injouables@ == hors_plan(plan@, eligibles@, false, i as int),
        decreases nb_ancres - i,
    {
        let mut present: bool = false;
        let mut k: usize = 0;
        while k < plan.len()
            invariant
                k <= plan@.len(),
                present == exists|m: int| 0 <= m < k && (#[trigger] plan@[m]).index == i,
            decreases plan.len() - k,
        {
            if plan[k].index == i {
                present = true;
            }
            k += 1;
        }
        assert(present == au_plan(plan@, i as int));
        if !present {
            if valeur_bool(eligibles, i, true) {
                saturees.push(i);
            } else {
                injouables.push(i);
            }
        }
        i += 1;
    }
    (saturees, injouables)
}

/// First anchor of the ladder that bears the name.
pub open spec fn position_du_nom(ancres: Seq<Ancre>, nom: Seq<char>, k: int) -> Option<int>
    decreases ancres.len() - k,
{
    if k < 0 || k >= ancres.len() {
        None
    } else if ancres[k].nom@ == nom {
        Some(k)
    } else {
        position_du_nom(ancres, nom, k + 1)
    }
}

fn position(ancres: &Vec<Ancre>, nom: &str) -> (r: Option<usize>)
    ensures
        match r {
            Some(i) => position_du_nom(ancres@, nom@, 0) == Some(i as int) && i < ancres@.len(),
            None => position_du_nom(ancres@, nom@, 0) is None,
        },
{
    let mut k: usize = 0;
    while k < ancres.len()
        invariant
            k <= ancres@.len(),
            position_du_nom(ancres@, nom@, 0) == position_du_nom(ancres@, nom@, k as int),
        decreases ancres.len() - k,
    {
        if texte::egal(ancres[k].nom, nom) {
            return Some(k);
        }
        k += 1;
    }
    None
}

/// Is bit `i` set?
pub open spec fn bit(x: u32, i: u32) -> bool {
    (x >> i) & 1u32 == 1u32
}

/// Fingerprint of the anchors of a measure: bit `i` for anchor `i`, the first
/// thirty-two anchors only.
pub fn empreinte_ancres(ancres: &Vec<Ancre>, mesures: &Vec<MesureAncre>) -> (r: u32)
    ensures
        forall|i: u32|
            i < 32 ==> (#[trigger] bit(r, i) <==> exists|k: int|
                0 <= k < mesures@.len() && position_du_nom(
                    ancres@,
                    (#[trigger] mesures@[k]).nom@,
                    0,
                ) == Some(i as int)),
{
    let mut bits: u32 = 0;
    let mut k: usize = 0;
    assert forall|i: u32| i < 32 implies !#[trigger] bit(0u32, i) by {
        assert(i < 32 ==> (0u32 >> i) & 1u32 != 1u32) by (bit_vector);
    }
    while k < mesures.len()
        invariant
            k <= mesures@.len(),
            forall|i: u32|
                i < 32 ==> (#[trigger] bit(bits, i) <==> exists|m: int|
                    0 <= m < k && position_du_nom(ancres@, (#[trigger] mesures@[m]).nom@, 0)
                        == Some(i as int)),
        decreases mesures.len() - k,
    {
        let ghost avant = bits;
        if let Some(p) = position(ancres, mesures[k].nom) {
            if p < 32 {
                let q: u32 = p as u32;
                bits = bits | (1u32 << q);
                assert forall|i: u32| i < 32 implies (#[trigger] bit(bits, i) == (bit(avant, i) || i
                    == q)) by {
                    assert(i < 32 && q < 32 ==> (((avant | (1u32 << q)) >> i) & 1u32 == 1u32) == (((
                    avant >> i) & 1u32 == 1u32) || i == q)) by (bit_vector);
                }
            }
        }
        k += 1;
    }
    bits
}

// ---------------------------------------------------------------------------
// Calibration against an engine
// ---------------------------------------------------------------------------

/// A number brought within bounds.
pub open spec fn dans_les_bornes(x: u64, min: u64, max: u64) -> u64 {
    if x < min {
        min
    } else if x > max {
        max
    } else {
        x
    }
}

/// A step of a calibration: the strength asked of the engine, its name in the
/// record and the seed of its duels.
#[derive(Debug)]
pub struct PalierMoteur {
    pub nom: String,
    pub elo_reel: u64,
    /// Did the engine's bounds change the strength?
    pub clampe: bool,
    pub graine: u64,
}

/// Step `k` of a calibration, its strength brought within the bounds that the
/// engine announced.
pub fn palier_moteur(elo_demande: u64, k: u64, elo_min: u64, elo_max: u64, seed: u64) -> (r:
    PalierMoteur)
    requires
        elo_min <= elo_max,
        k + 0x5F00 <= u64::MAX,
    ensures
        r.elo_reel == dans_les_bornes(elo_demande, elo_min, elo_max),
        elo_min <= r.elo_reel <= elo_max,
        r.clampe == (r.elo_reel != elo_demande),
        r.nom@ == "stockfish-"@ + texte::decimal(r.elo_reel as nat),
        r.graine == graines::melange(seed, (0x5F00 + k) as u64),
{
    let elo_reel: u64 = if elo_demande < elo_min {
        elo_min
    } else if elo_demande > elo_max {
        elo_max
    } else {
        elo_demande
    };
    let mut v: Vec<char> = texte::caracteres("stockfish-");
    let n: Vec<char> = texte::ecrit_naturel(elo_reel);
    texte::ajoute(&mut v, &n);
    PalierMoteur {
        nom: texte::texte(&v),
        elo_reel,
        clampe: elo_reel != elo_demande,
        graine: graines::derive_graine(seed, 0x5F00 + k),
    }
}

/// A character of a name that goes into a record of `nom=score` pairs.
pub open spec fn car_de_journal(c: char) -> char {
    if c == ',' || c == ';' {
        '_'
    } else {
        c
    }
}

/// A name for a record of `nom=score` pairs: the two separators become `_`.
pub fn nom_de_journal(nom: &str) -> (r: String)
    ensures
        r@ == nom@.map_values(|c: char| car_de_journal(c)),
        !texte::contient(r@, ','),
        !texte::contient(r@, ';'),
{
    let ghost f = |c: char| car_de_journal(c);
    let t: Vec<char> = texte::caracteres(nom);
    let mut v: Vec<char> = Vec::new();
    let mut i: usize = 0;
    while i < t.len()
        invariant
            i <= t@.len(),
            t@ == nom@,
            f == |c: char| car_de_journal(c),
            v@.len() == i,
            forall|k: int| 0 <= k < i ==> #[trigger] v@[k] == car_de_journal(nom@[k]),
        decreases t.len() - i,
    {
        let c: char = t[i];
        v.push(
            if c == ',' || c == ';' {
                '_'
            } else {
                c
            },
        );
        i += 1;
    }
    assert(v@ =~= nom@.map_values(f));
    texte::texte(&v)
}

// ---------------------------------------------------------------------------
// What the plan and the records mean, in numbers
// ---------------------------------------------------------------------------

/// The holding band has two ends: in a plan with some history, an anchor that
/// was active and whose last share is below ten per cent or above ninety is
/// not played at full volume, unless it is among the least saturated ones that
/// make up the smallest number of anchors.
pub proof fn loi_hors_bande_de_maintien(d: Donnees, i: int, s: Score)
    requires
        plausible(d),
        0 <= i < d.n,
        !d.sans_historique(),
        i < d.derniers.len() && d.derniers[i] == Some(s),
        i < d.actives.len() && d.actives[i],
        s.bits < 0x3FB9_9999_9999_999A || s.bits > 0x3FEC_CCCC_CCCC_CCCD,
        d.retenue(i),
    ensures
        d.rang_sature(i) < d.manque(),
        compte(d.n, |j: int| d.informative(j)) < 3,
{
    lemme_compte_borne(d.n, |j: int| d.saturee(j) && d.avant(j, i));
}

/// The entry band has two ends: in a plan with some history, an anchor that
/// was idle and whose last share is below fifteen per cent or above
/// eighty-five is not played at full volume, unless it is among the least
/// saturated ones that make up the smallest number of anchors.
pub proof fn loi_hors_bande_d_entree(d: Donnees, i: int, s: Score)
    requires
        plausible(d),
        0 <= i < d.n,
        !d.sans_historique(),
        i < d.derniers.len() && d.derniers[i] == Some(s),
        i >= d.actives.len() || !d.actives[i],
        s.bits < 0x3FC3_3333_3333_3333 || s.bits > 0x3FEB_3333_3333_3333,
        d.retenue(i),
    ensures
        d.rang_sature(i) < d.manque(),
        compte(d.n, |j: int| d.informative(j)) < 3,
{
    lemme_compte_borne(d.n, |j: int| d.saturee(j) && d.avant(j, i));
}

/// An anchor inside its band is played at full volume: from ten to ninety per
/// cent when it was active, from fifteen to eighty-five when it was idle; so is
/// one that was never measured.
pub proof fn loi_dans_sa_bande(d: Donnees, i: int)
    requires
        plausible(d),
        0 <= i < d.n,
        i >= d.eligibles.len() || d.eligibles[i],
    ensures
        i >= d.derniers.len() ==> d.retenue(i),
        i < d.derniers.len() ==> match d.derniers[i] {
            None => d.retenue(i),
            Some(s) => {
                &&& i < d.actives.len() && d.actives[i] && 0x3FB9_9999_9999_999A <= s.bits
                    <= 0x3FEC_CCCC_CCCC_CCCD ==> d.retenue(i)
                &&& 0x3FC3_3333_3333_3333 <= s.bits <= 0x3FEB_3333_3333_3333 ==> d.retenue(i)
            },
        },
{
}

/// An anchor that cannot be played is neither played nor sounded.
pub proof fn loi_injouable_ecartee(d: Donnees, i: int)
    requires
        0 <= i < d.n,
        i < d.eligibles.len(),
        !d.eligibles[i],
    ensures
        !d.retenue(i),
        !d.resondee(i),
        d.parties(i) == 0,
{
}

proof fn lemme_compte_inclus(n: int, f: spec_fn(int) -> bool, g: spec_fn(int) -> bool)
    requires
        forall|i: int| 0 <= i < n && #[trigger] f(i) ==> g(i),
    ensures
        compte(n, f) <= compte(n, g),
    decreases n,
{
    if n > 0 {
        lemme_compte_inclus(n - 1, f, g);
    }
}

/// The saturated anchors that make up the smallest number are the nearest to
/// the band: when one is played at full volume, so is every other whose last
/// share is nearer, or as near with a lower index.
pub proof fn loi_complement_au_plus_pres(d: Donnees, i: int, j: int, s: Score, t: Score)
    requires
        plausible(d),
        0 <= i < d.n,
        0 <= j < d.n,
        j >= d.eligibles.len() || d.eligibles[j],
        i < d.derniers.len() && d.derniers[i] == Some(s),
        j < d.derniers.len() && d.derniers[j] == Some(t),
        t.ecart < s.ecart || (t.ecart == s.ecart && j < i),
        d.retenue(i),
        !d.informative(i),
    ensures
        d.retenue(j),
{
    if !d.informative(j) {
        lemme_compte_inclus(
            d.n,
            |k: int| d.saturee(k) && d.avant(k, j),
            |k: int| d.saturee(k) && d.avant(k, i),
        );
    }
}

/// Full volume is shared out evenly: of two anchors played at full volume, the
/// first gets as many games as the second, or two more.
pub proof fn loi_partage_egal(d: Donnees, i: int, j: int)
    requires
        plausible(d),
        0 <= i < j < d.n,
        d.retenue(i),
        d.retenue(j),
    ensures
        d.parties(i) == d.parties(j) || d.parties(i) == d.parties(j) + 2,
        d.parties(i) % 2 == 0,
{
    lemme_compte_croit(i, j, |k: int| d.retenue(k));
}

/// An anchor that is not played at full volume is sounded with twelve games
/// once its last duel is old enough, twenty-five measures and two more per
/// rank, as long as the budget leaves two games to every anchor played at full
/// volume; otherwise it gets no game.
pub proof fn loi_resondage_a_l_echeance(d: Donnees, i: int)
    requires
        plausible(d),
        0 <= i < d.n,
        i >= d.eligibles.len() || d.eligibles[i],
        !d.retenue(i),
    ensures
        i >= d.depuis.len() ==> d.parties(i) == 0,
        i < d.depuis.len() && d.depuis[i] < 25 + 2 * i ==> d.parties(i) == 0,
        i < d.depuis.len() && d.depuis[i] >= 25 + 2 * i && d.total >= 2 * d.nb_retenues() + 12 * (i
            + 1) ==> d.parties(i) == 12,
        d.parties(i) == 0 || d.parties(i) == 12,
        d.parties(i) == 12 ==> d.total >= 2 * d.nb_retenues() + 12,
{
    lemme_compte_borne(i, |j: int| d.due(j));
}

/// Soundings are given in the order of the ladder: when an anchor is sounded,
/// every earlier one that is due is sounded too.
pub proof fn loi_resondages_en_ordre(d: Donnees, i: int, j: int)
    requires
        plausible(d),
        0 <= j < i < d.n,
        j >= d.eligibles.len() || d.eligibles[j],
        j < d.depuis.len() && d.depuis[j] >= 25 + 2 * j,
        !d.retenue(j),
        !d.retenue(i),
        d.parties(i) == 12,
    ensures
        d.parties(j) == 12,
{
    lemme_compte_croit(j, i, |k: int| d.due(k));
}

/// The ladder grows: every anchor is stronger than the one before, the house
/// bots come first, random play and then one depth more each, and an engine is
/// asked for the strength it stands for, sixty milliseconds a move.
pub proof fn loi_echelle_croissante(i: int, j: int)
    requires
        0 <= i < 8,
        0 <= j < 8,
    ensures
        echelle().len() == 8,
        i < j ==> echelle()[i].elo < echelle()[j].elo,
        i == 0 ==> echelle()[i].genre == (GenreAncre::Maison { profondeur: None }),
        1 <= i < 5 ==> echelle()[i].genre == (GenreAncre::Maison { profondeur: Some(i as u32) }),
        i >= 5 ==> echelle()[i].genre == (GenreAncre::Uci {
            elo_nominal: echelle()[i].elo,
            movetime_ms: 60,
        }),
        i == 0 ==> echelle()[i].elo == 400,
        i >= 5 ==> echelle()[i].elo == 1700 + 300 * (i - 5),
{
    let e = echelle();
    assert(e[0].elo == 400 && e[1].elo == 800 && e[2].elo == 1100 && e[3].elo == 1350 && e[4].elo
        == 1550 && e[5].elo == 1700 && e[6].elo == 2000 && e[7].elo == 2300);
}

/// Ranks within a kind are dense: the first anchor of a kind has rank 0, and
/// from one anchor of a kind to the next of the same kind the rank grows by
/// one, whatever stands between.
pub proof fn loi_rangs_serres(ancres: Seq<Ancre>, i: int, j: int)
    requires
        0 <= i < j < ancres.len(),
        (ancres[i].genre is Maison) == (ancres[j].genre is Maison),
        forall|k: int|
            i < k < j ==> (#[trigger] ancres[k].genre is Maison) != (ancres[j].genre is Maison),
    ensures
        rang_attendu(ancres, j) == rang_attendu(ancres, i) + 1,
        0 <= rang_attendu(ancres, i) <= i,
{
    let f = |k: int| maison(ancres[k]) == maison(ancres[j]);
    let g = |k: int| maison(ancres[k]) == maison(ancres[i]);
    lemme_compte_egal(i, f, g);
    lemme_compte_borne(i, g);
    lemme_compte_plat(i + 1, j, f);
}

proof fn lemme_compte_plat(a: int, b: int, f: spec_fn(int) -> bool)
    requires
        0 <= a <= b,
        forall|k: int| a <= k < b ==> !#[trigger] f(k),
    ensures
        compte(b, f) == compte(a, f),
    decreases b,
{
    if a < b {
        lemme_compte_plat(a, b - 1, f);
    }
}

/// The first anchor of a kind has rank 0.
pub proof fn loi_premier_rang(ancres: Seq<Ancre>, j: int)
    requires
        0 <= j < ancres.len(),
        forall|k: int|
            0 <= k < j ==> (#[trigger] ancres[k].genre is Maison) != (ancres[j].genre is Maison),
    ensures
        rang_attendu(ancres, j) == 0,
{
    lemme_compte_plat(0, j, |k: int| maison(ancres[k]) == maison(ancres[j]));
}

/// The last line of a record that names an anchor and carries a score is the
/// one that counts.
pub proof fn loi_derniere_ligne_compte(
    l: Seq<Seq<char>>,
    scores: Seq<Option<Score>>,
    nom: Seq<char>,
    k: int,
)
    requires
        0 <= k <= l.len(),
    ensures
        match derniere_vue(l, scores, nom, k) {
            Some(v) => {
                &&& 0 <= v < k
                &&& champs_journal(l[v]).len() >= 3 && champs_journal(l[v])[1] == nom
                &&& v < scores.len() && scores[v] is Some
                &&& forall|m: int|
                    v < m < k && m < scores.len() && scores[m] is Some && champs_journal(
                        #[trigger] l[m],
                    ).len() >= 3 ==> champs_journal(l[m])[1] != nom
            },
            None => forall|m: int|
                0 <= m < k && m < scores.len() && scores[m] is Some && champs_journal(
                    #[trigger] l[m],
                ).len() >= 3 ==> champs_journal(l[m])[1] != nom,
        },
    decreases k,
{
    if k > 0 {
        loi_derniere_ligne_compte(l, scores, nom, k - 1);
    }
}

/// Lines of the same hours are one measure: from one useful line to the next,
/// the number of the measure grows by one when the hours change and stays when
/// they do not; lines of fewer than three fields do not count.
pub proof fn loi_mesures_du_journal(l: Seq<Seq<char>>, a: int, b: int)
    requires
        0 <= a < b < l.len(),
        champs_journal(l[a]).len() >= 3,
        champs_journal(l[b]).len() >= 3,
        forall|k: int| a < k < b ==> champs_journal(#[trigger] l[k]).len() < 3,
    ensures
        numero_mesure(l, b + 1) == numero_mesure(l, a + 1) + if champs_journal(l[a])[0]
            == champs_journal(l[b])[0] {
            0int
        } else {
            1int
        },
{
    lemme_lignes_sautees(l, a + 1, b);
}

proof fn lemme_lignes_sautees(l: Seq<Seq<char>>, a: int, b: int)
    requires
        0 <= a <= b <= l.len(),
        forall|k: int| a <= k < b ==> champs_journal(#[trigger] l[k]).len() < 3,
    ensures
        numero_mesure(l, b) == numero_mesure(l, a),
        heures_courantes(l, b) == heures_courantes(l, a),
    decreases b,
{
    if a < b {
        lemme_lignes_sautees(l, a, b - 1);
        assert(!ligne_utile(l[b - 1]));
    }
}

/// The first useful line opens measure 0.
pub proof fn loi_premiere_mesure(l: Seq<Seq<char>>, a: int)
    requires
        0 <= a < l.len(),
        champs_journal(l[a]).len() >= 3,
        forall|k: int| 0 <= k < a ==> champs_journal(#[trigger] l[k]).len() < 3,
    ensures
        numero_mesure(l, a + 1) == 0,
        heures_courantes(l, a + 1) == Some(champs_journal(l[a])[0]),
{
    lemme_lignes_sautees(l, 0, a);
}

/// What a record tells of the anchor that its last line names: that line's
/// score is its last one, no measure has passed since, and it was active
/// unless the fifth field of the line is a 1.
pub proof fn loi_derniere_ligne_du_journal(
    contenu: Seq<char>,
    scores: Seq<Option<Score>>,
    ancres: Seq<Ancre>,
    i: int,
)
    requires
        contenu.len() > 0 && contenu[contenu.len() - 1] == '\n',
        corps_journal(contenu).len() > 0,
        0 <= i < ancres.len(),
        forall|j: int| 0 <= j < i ==> (#[trigger] ancres[j]).nom@ != ancres[i].nom@,
        ({
            let l = corps_journal(contenu);
            let k = l.len() - 1;
            &&& champs_journal(l[k]).len() >= 3
            &&& champs_journal(l[k])[1] == ancres[i].nom@
            &&& k < scores.len() && scores[k] is Some
        }),
    ensures
        ({
            let l = corps_journal(contenu);
            let k = l.len() - 1;
            let c = champs_journal(l[k]);
            let e = echelle_du_journal(contenu, scores, ancres);
            &&& e.derniers[i] == scores[k]
            &&& e.depuis[i] == 0
            &&& e.actives[i] == !(c.len() >= 5 && texte::rogne(c[4]) == "1"@)
        }),
{
    let l = corps_journal(contenu);
    assert(derniere_vue(l, scores, ancres[i].nom@, l.len() as int) == Some(l.len() - 1));
    assert(vue_de(l, scores, ancres, i) == Some(l.len() - 1));
}

/// An anchor that a record never names is unmeasured and idle; a record whose
/// last line was not ended tells nothing of any anchor.
pub proof fn loi_ancre_sans_ligne(
    contenu: Seq<char>,
    scores: Seq<Option<Score>>,
    ancres: Seq<Ancre>,
    i: int,
)
    requires
        0 <= i < ancres.len(),
        (contenu.len() > 0 && contenu[contenu.len() - 1] != '\n') || forall|k: int|
            0 <= k < corps_journal(contenu).len() && champs_journal(
                #[trigger] corps_journal(contenu)[k],
            ).len() >= 3 ==> champs_journal(corps_journal(contenu)[k])[1] != ancres[i].nom@,
    ensures
        echelle_du_journal(contenu, scores, ancres).derniers[i] is None,
        !echelle_du_journal(contenu, scores, ancres).actives[i],
{
    let l = corps_journal(contenu);
    loi_derniere_ligne_compte(l, scores, ancres[i].nom@, l.len() as int);
}

/// An anchor is active after a measure exactly when the measure scored it and
/// the plan did not merely sound it.
pub proof fn loi_active_apres(
    v: VueEchelle,
    ancres: Seq<Ancre>,
    mesures: Seq<MesureAncre>,
    plan: Seq<PlanAncre>,
    i: int,
)
    requires
        echelle_valide(v, ancres.len()),
        0 <= i < ancres.len(),
    ensures
        echelle_apres(v, ancres, mesures, plan).actives[i] <==> (exists|k: int|
            0 <= k < mesures.len() && (#[trigger] mesures[k]).nom@ == ancres[i].nom@) && !(exists|
            k: int,
        |
            0 <= k < plan.len() && (#[trigger] plan[k]).index == i && plan[k].resondage),
        forall|k: int|
            #![trigger mesures[k]]
            0 <= k < mesures.len() && mesures[k].nom@ == ancres[i].nom@ && (forall|m: int|
                0 <= m < k ==> (#[trigger] mesures[m]).nom@ != ancres[i].nom@)
                ==> echelle_apres(v, ancres, mesures, plan).derniers[i] == Some(mesures[k].score),
{
    lemme_score_mesure(mesures, ancres[i].nom@, 0);
}

proof fn lemme_score_mesure(mesures: Seq<MesureAncre>, nom: Seq<char>, k: int)
    requires
        0 <= k <= mesures.len(),
    ensures
        match score_mesure(mesures, nom, k) {
            Some(s) => exists|m: int|
                k <= m < mesures.len() && (#[trigger] mesures[m]).nom@ == nom && mesures[m].score
                    == s && forall|q: int| k <= q < m ==> (#[trigger] mesures[q]).nom@ != nom,
            None => forall|m: int| k <= m < mesures.len() ==> (#[trigger] mesures[m]).nom@ != nom,
        },
    decreases mesures.len() - k,
{
    if k < mesures.len() {
        if mesures[k].nom@ == nom {
            assert(mesures[k].score == mesures[k].score);
        } else {
            lemme_score_mesure(mesures, nom, k + 1);
            if score_mesure(mesures, nom, k + 1) is Some {
                let m = choose|m: int|
                    k + 1 <= m < mesures.len() && (#[trigger] mesures[m]).nom@ == nom
                        && mesures[m].score == score_mesure(mesures, nom, k + 1)->0 && forall|q: int|
                        k + 1 <= q < m ==> (#[trigger] mesures[q]).nom@ != nom;
                assert(mesures[m].nom@ == nom);
            }
        }
    }
}

/// A duel against an engine is played at the nominal strength brought within
/// what the engine announces, and says whether it had to be.
pub proof fn loi_force_du_moteur(
    ancres: Seq<Ancre>,
    e: PlanAncre,
    elo_min: u32,
    elo_max: u32,
    graine: u64,
)
    requires
        elo_min <= elo_max,
    ensures
        duel_uci(ancres, e, elo_min, elo_max, graine) is Some <==> e.index < ancres.len()
            && e.parties > 0 && ancres[e.index as int].genre is Uci,
        match duel_uci(ancres, e, elo_min, elo_max, graine) {
            Some(d) => {
                let nominal = ancres[e.index as int].genre->elo_nominal;
                &&& elo_min <= d.elo_reel <= elo_max
                &&& elo_min <= nominal <= elo_max ==> d.elo_reel == nominal
                &&& nominal < elo_min ==> d.elo_reel == elo_min
                &&& nominal > elo_max ==> d.elo_reel == elo_max
                &&& d.clampe <==> d.elo_reel != nominal
                &&& d.movetime_ms == ancres[e.index as int].genre->movetime_ms
                &&& d.index == e.index && d.parties == e.parties && d.resondage == e.resondage
            },
            None => true,
        },
{
}

/// A plan entry against a house bot is one duel: its games, its depth, its
/// sounding flag; one without games or against an engine is none.
pub proof fn loi_duel_du_plan(ancres: Seq<Ancre>, e: PlanAncre, graine: u64)
    ensures
        duel_maison(ancres, e, graine) is Some <==> e.index < ancres.len() && e.parties > 0
            && ancres[e.index as int].genre is Maison,
        match duel_maison(ancres, e, graine) {
            Some(d) => {
                &&& d.profondeur == ancres[e.index as int].genre->profondeur
                &&& d.index == e.index && d.parties == e.parties && d.resondage == e.resondage
            },
            None => true,
        },
{
}

/// The seed of a duel against an engine is that of a house duel whose base is
/// shifted by 0x5F00, and two consecutive ranks are a fixed step apart.
pub proof fn loi_graines_decalees(graine: u64, rang: int)
    requires
        0 <= rang < 0x1_0000,
    ensures
        graine_uci(graine, rang) == graine_maison(graine.wrapping_add(0x5F00), rang),
        graine_maison(graine, rang + 1) == graine_maison(graine.wrapping_add(1), rang),
        graine_maison(0, rang) == rang * 0x9E37_79B9,
{
    assert(rang * 0x9E37_79B9 <= 0x1_0000 * 0x9E37_79B9) by (nonlinear_arith)
        requires
            0 <= rang < 0x1_0000,
    ;
}

/// A measure without its soundings keeps every other entry, in order, and no
/// sounded anchor.
pub proof fn loi_sans_les_resondages(
    ancres: Seq<Ancre>,
    plan: Seq<PlanAncre>,
    mesures: Seq<MesureAncre>,
    m: MesureAncre,
    k: int,
)
    requires
        0 <= k <= mesures.len(),
    ensures
        hors_resondage(ancres, plan, mesures, k).contains(m) <==> mesures.subrange(0, k).contains(m)
            && !nom_resonde(ancres, plan, m.nom@),
        hors_resondage(ancres, plan, mesures, k).len() <= k,
    decreases k,
{
    if k > 0 {
        loi_sans_les_resondages(ancres, plan, mesures, m, k - 1);
        let d = hors_resondage(ancres, plan, mesures, k - 1);
        let x = mesures[k - 1];
        let s = mesures.subrange(0, k - 1);
        let t = mesures.subrange(0, k);
        assert(t =~= s.push(x));
        lemme_contenu_pousse(s, x, m);
        lemme_contenu_pousse(d, x, m);
    }
}

proof fn lemme_contenu_pousse<T>(s: Seq<T>, x: T, m: T)
    ensures
        s.push(x).contains(m) <==> s.contains(m) || m == x,
{
    let t = s.push(x);
    if s.contains(m) {
        let i = s.index_of(m);
        assert(t[i] == m);
    }
    if m == x {
        assert(t[s.len() as int] == m);
    }
    if t.contains(m) && m != x {
        let i = t.index_of(m);
        assert(s[i] == m);
    }
}

/// An anchor is listed as left out exactly when the plan does not hold it, on
/// the list of those that could be played or on the other one.
pub proof fn loi_ecartees(plan: Seq<PlanAncre>, eligibles: Seq<bool>, jouable: bool, k: int, i: usize)
    requires
        0 <= k <= usize::MAX,
    ensures
        hors_plan(plan, eligibles, jouable, k).contains(i) <==> i < k && !(exists|m: int|
            0 <= m < plan.len() && (#[trigger] plan[m]).index == i) && jouable == (i
            >= eligibles.len() || eligibles[i as int]),
    decreases k,
{
    if k > 0 {
        loi_ecartees(plan, eligibles, jouable, k - 1, i);
        lemme_contenu_pousse(hors_plan(plan, eligibles, jouable, k - 1), (k - 1) as usize, i);
    }
}

/// An anchor is found by its name at the first place where the name stands.
pub proof fn loi_premiere_place_du_nom(ancres: Seq<Ancre>, nom: Seq<char>, k: int)
    requires
        0 <= k <= ancres.len(),
    ensures
        match position_du_nom(ancres, nom, k) {
            Some(p) => k <= p < ancres.len() && ancres[p].nom@ == nom && forall|q: int|
                k <= q < p ==> (#[trigger] ancres[q]).nom@ != nom,
            None => forall|q: int| k <= q < ancres.len() ==> (#[trigger] ancres[q]).nom@ != nom,
        },
    decreases ancres.len() - k,
{
    if k < ancres.len() && ancres[k].nom@ != nom {
        loi_premiere_place_du_nom(ancres, nom, k + 1);
    }
}

/// A number is brought within bounds by the nearest of them.
pub proof fn loi_dans_les_bornes(x: u64, y: u64, min: u64, max: u64)
    requires
        min <= max,
        min <= y <= max,
    ensures
        min <= dans_les_bornes(x, min, max) <= max,
        dans_les_bornes(y, min, max) == y,
        x <= y ==> dans_les_bornes(x, min, max) <= y,
        x >= y ==> dans_les_bornes(x, min, max) >= y,
        x < min ==> dans_les_bornes(x, min, max) == min,
        x > max ==> dans_les_bornes(x, min, max) == max,
{
}

/// A name of a record keeps every character but the two separators, which
/// become underscores.
pub proof fn loi_caracteres_de_journal(c: char)
    ensures
        car_de_journal(',') == '_',
        car_de_journal(';') == '_',
        c != ',' && c != ';' ==> car_de_journal(c) == c,
{
}

/// A full measure plays every anchor once, in order, as many games against
/// each, and sounds none.
pub proof fn loi_mesure_complete(n: nat, parties: usize, i: int)
    requires
        0 <= i < n <= usize::MAX,
    ensures
        entier(n, parties).len() == n,
        entier(n, parties)[i].index == i,
        entier(n, parties)[i].parties == parties,
        !entier(n, parties)[i].resondage,
{
}

/// Measures against house bots: one per duel, in order, with the anchor's name
/// and rating, the duel's games and its score.
pub proof fn loi_mesures_maison(
    ancres: Seq<Ancre>,
    duels: Seq<DuelMaison>,
    scores: Seq<Score>,
    k: int,
    i: int,
)
    requires
        0 <= i < k <= duels.len(),
    ensures
        ({
            let m = mesures_maison_attendues(ancres, duels, scores, k);
            &&& m.len() == k
            &&& m[i].nom == ancres[duels[i].index as int].nom
            &&& m[i].elo_ancre == ancres[duels[i].index as int].elo
            &&& m[i].score == scores[i]
            &&& m[i].parties == duels[i].parties
        }),
{
}

/// Measures against engines: one per duel that has a score, in order, rated at
/// the strength really played.
pub proof fn loi_mesures_uci(
    ancres: Seq<Ancre>,
    duels: Seq<DuelUci>,
    scores: Seq<Option<Score>>,
    k: int,
)
    requires
        0 <= k < scores.len(),
        k < duels.len(),
    ensures
        ({
            let a = mesures_uci_attendues(ancres, duels, scores, k);
            let b = mesures_uci_attendues(ancres, duels, scores, k + 1);
            &&& scores[k] is None ==> b == a
            &&& scores[k] is Some ==> b.len() == a.len() + 1 && a.is_prefix_of(b) && b.last().score
                == scores[k]->0 && b.last().elo_ancre == duels[k].elo_reel && b.last().parties
                == duels[k].parties && b.last().nom == ancres[duels[k].index as int].nom
        }),
        mesures_uci_attendues(ancres, duels, scores, 0).len() == 0,
{
}

/// Duels of a plan against engines: one per entry that plays one, in order.
pub proof fn loi_duels_uci(
    ancres: Seq<Ancre>,
    plan: Seq<PlanAncre>,
    elo_min: u32,
    elo_max: u32,
    graine: u64,
    k: int,
)
    requires
        0 <= k < plan.len(),
    ensures
        ({
            let a = duels_uci_attendus(ancres, plan, elo_min, elo_max, graine, k);
            let b = duels_uci_attendus(ancres, plan, elo_min, elo_max, graine, k + 1);
            let joue = plan[k].index < ancres.len() && plan[k].parties > 0
                && ancres[plan[k].index as int].genre is Uci;
            &&& !joue ==> b == a
            &&& joue ==> b.len() == a.len() + 1 && a.is_prefix_of(b) && b.last().index
                == plan[k].index
        }),
        duels_uci_attendus(ancres, plan, elo_min, elo_max, graine, 0).len() == 0,
{
}

/// Duels of a plan against house bots: one per entry that plays one, in order.
pub proof fn loi_duels_maison(ancres: Seq<Ancre>, plan: Seq<PlanAncre>, graine: u64, k: int)
    requires
        0 <= k < plan.len(),
    ensures
        ({
            let a = duels_maison_attendus(ancres, plan, graine, k);
            let b = duels_maison_attendus(ancres, plan, graine, k + 1);
            let joue = plan[k].index < ancres.len() && plan[k].parties > 0
                && ancres[plan[k].index as int].genre is Maison;
            &&& !joue ==> b == a
            &&& joue ==> b.len() == a.len() + 1 && a.is_prefix_of(b) && b.last().index
                == plan[k].index
        }),
        duels_maison_attendus(ancres, plan, graine, 0).len() == 0,
{
}

/// A score informs when it lies between its bounds, both of them within reach.
pub proof fn loi_score_interieur(m: MesureAncre, bas: u64, haut: u64)
    ensures
        interieure(m, (bas, haut)) <==> bas <= m.score.bits <= haut,
        interieure(m, (m.score.bits, m.score.bits)),
{
}

/// The body of a record is its lines but the first; the fields of a line are
/// parted by commas.
pub proof fn loi_corps_du_journal(contenu: Seq<char>, k: int)
    requires
        0 <= k,
        k + 1 < texte::lignes(contenu).len(),
    ensures
        corps_journal(contenu).len() == texte::lignes(contenu).len() - 1,
        corps_journal(contenu)[k] == texte::lignes(contenu)[k + 1],
        champs_journal(corps_journal(contenu)[k]) == texte::morceaux(
            texte::sans_fin(texte::lignes(contenu)[k + 1]),
            ',',
        ),
{
}

/// A record that was cut short, or that holds no measure, starts the ladder
/// anew: nothing known, nothing elapsed, nothing active. An anchor that a good
/// record never names has waited as many measures as the record has.
pub proof fn loi_journal_sans_mesure(
    contenu: Seq<char>,
    scores: Seq<Option<Score>>,
    ancres: Seq<Ancre>,
    i: int,
)
    requires
        0 <= i < ancres.len(),
    ensures
        ({
            let e = echelle_du_journal(contenu, scores, ancres);
            let l = corps_journal(contenu);
            let vide = (contenu.len() > 0 && contenu[contenu.len() - 1] != '\n') || forall|k: int|
                0 <= k < l.len() ==> champs_journal(#[trigger] l[k]).len() < 3;
            &&& vide ==> e.derniers[i] is None && e.depuis[i] == 0 && !e.actives[i]
            &&& e.derniers.len() == ancres.len() && e.depuis.len() == ancres.len()
                && e.actives.len() == ancres.len()
        }),
{
    let l = corps_journal(contenu);
    if forall|k: int| 0 <= k < l.len() ==> champs_journal(#[trigger] l[k]).len() < 3 {
        lemme_lignes_sautees(l, 0, l.len() as int);
    }
}

/// The age at which an anchor is sounded again: twenty-five measures, two more
/// from one anchor to the next.
pub proof fn loi_echeance(i: usize, r: u64)
    requires
        call_ensures(echeance_resondage, (i,), r),
    ensures
        r - 25 == 2 * i,
{
}

/// Anchors that can be played: the house bots always, the engines where there
/// is one.
pub proof fn loi_ancres_jouables(ancres: Vec<Ancre>, uci: bool, r: Vec<bool>, i: int)
    requires
        call_ensures(ancres_jouables, (&ancres, uci), r),
        0 <= i < ancres@.len(),
    ensures
        r@.len() == ancres@.len(),
        ancres@[i].genre is Maison ==> r@[i],
        ancres@[i].genre is Uci ==> r@[i] == uci,
{
}

/// The ladder falls back to the house bots when the measure gave nothing and
/// its plan had an engine.
pub proof fn loi_repli_necessaire(
    ancres: Vec<Ancre>,
    plan: Vec<PlanAncre>,
    mesures: Vec<MesureAncre>,
    r: bool,
)
    requires
        call_ensures(repli_necessaire, (&ancres, &plan, &mesures), r),
    ensures
        mesures@.len() > 0 ==> !r,
        r ==> exists|k: int|
            0 <= k < plan@.len() && (#[trigger] plan@[k]).index < ancres@.len()
                && ancres@[plan@[k].index as int].genre is Uci,
{
}

/// A step of a calibration plays at the strength asked for, brought within the
/// engine's bounds, and carries it in its name.
pub proof fn loi_palier_moteur(
    demande: u64,
    k: u64,
    elo_min: u64,
    elo_max: u64,
    seed: u64,
    r: PalierMoteur,
)
    requires
        elo_min <= elo_max,
        k + 0x5F00 <= u64::MAX,
        call_ensures(palier_moteur, (demande, k, elo_min, elo_max, seed), r),
    ensures
        elo_min <= demande <= elo_max ==> r.elo_reel == demande && !r.clampe,
        demande < elo_min ==> r.elo_reel == elo_min && r.clampe,
        demande > elo_max ==> r.elo_reel == elo_max && r.clampe,
        r.nom@ == "stockfish-"@ + texte::decimal(r.elo_reel as nat),
        r.graine == graines::melange(seed, (k + 0x5F00) as u64),
{
}

/// The data of a plan are the lists it was given, one anchor each.
pub proof fn loi_donnees_du_plan(
    ancres: Seq<Ancre>,
    derniers: Seq<Option<Score>>,
    depuis: Seq<u64>,
    actives: Seq<bool>,
    eligibles: Seq<bool>,
    total: usize,
)
    ensures
        ({
            let d = donnees(ancres, derniers, depuis, actives, eligibles, total);
            &&& d.n == ancres.len() && d.total == total
            &&& d.derniers == derniers && d.depuis == depuis
            &&& d.actives == actives && d.eligibles == eligibles
        }),
{
}

/// What a record tells of an anchor that it names: the score of its last line,
/// as many measures since as were started after that line, and activity only in
/// the last measure, unless that line was a sounding.
pub proof fn loi_ancre_du_journal(
    contenu: Seq<char>,
    scores: Seq<Option<Score>>,
    ancres: Seq<Ancre>,
    i: int,
    k: int,
)
    requires
        contenu.len() > 0 && contenu[contenu.len() - 1] == '\n',
        0 <= i < ancres.len(),
        forall|j: int| 0 <= j < i ==> (#[trigger] ancres[j]).nom@ != ancres[i].nom@,
        0 <= k < corps_journal(contenu).len(),
        derniere_vue(
            corps_journal(contenu),
            scores,
            ancres[i].nom@,
            corps_journal(contenu).len() as int,
        ) == Some(k),
        0 <= numero_mesure(corps_journal(contenu), corps_journal(contenu).len() as int)
            - numero_mesure(corps_journal(contenu), k + 1) <= u64::MAX,
    ensures
        ({
            let l = corps_journal(contenu);
            let c = champs_journal(l[k]);
            let e = echelle_du_journal(contenu, scores, ancres);
            let passees = numero_mesure(l, l.len() as int) - numero_mesure(l, k + 1);
            &&& e.derniers[i] == scores[k]
            &&& e.depuis[i] == passees
            &&& e.actives[i] <==> passees == 0 && !(c.len() >= 5 && texte::rogne(c[4]) == "1"@)
        }),
{
    let l = corps_journal(contenu);
    loi_derniere_ligne_compte(l, scores, ancres[i].nom@, l.len() as int);
    lemme_heures_connues(l, k, l.len() as int);
    assert(vue_de(l, scores, ancres, i) == Some(k));
}

proof fn lemme_heures_connues(l: Seq<Seq<char>>, k: int, n: int)
    requires
        0 <= k < n <= l.len(),
        champs_journal(l[k]).len() >= 3,
    ensures
        heures_courantes(l, n) is Some,
    decreases n,
{
    if k < n - 1 {
        lemme_heures_connues(l, k, n - 1);
    }
}

} // verus!
