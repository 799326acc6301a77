//! Following a match as it is played: which half-move to grade next, what an
//! engine's reply is worth, when to give a half-move up, and what to do with a
//! game that ends.
use vstd::prelude::*;

use crate::arbitre;
use crate::arbitre::{Annotation, ScoreUci, VueAnnotation, MAT_CP};
use crate::echiquier;
use crate::jeu;
use crate::texte;

verus! {

/// Attempts at one position before it is left for another turn.
pub const ESSAIS_MOTEUR: u32 = 3;

/// Failed turns on one half-move before it is given up.
pub const ESSAIS_PLI: u32 = 3;

// ---------------------------------------------------------------------------
// The broadcast game
// ---------------------------------------------------------------------------

/// A game as it is broadcast: the moves in SAN, and the positions before each
/// move and after the last.
pub struct Live {
    pub partie: u32,
    pub champion_blanc: bool,
    pub termine: bool,
    pub san: Vec<String>,
    pub fen: Vec<String>,
}

/// What a broadcast game says.
#[verifier::ext_equal]
pub struct VueLive {
    pub partie: u32,
    pub champion_blanc: bool,
    pub termine: bool,
    pub san: Seq<Seq<char>>,
    pub fen: Seq<Seq<char>>,
}

impl View for Live {
    type V = VueLive;

    open spec fn view(&self) -> VueLive {
        VueLive {
            partie: self.partie,
            champion_blanc: self.champion_blanc,
            termine: self.termine,
            san: texte::vues_textes(self.san@),
            fen: texte::vues_textes(self.fen@),
        }
    }
}

/// Half-moves that can be graded: those with a position before and after.
pub open spec fn plis_de(l: VueLive) -> int {
    if l.fen.len() == 0 {
        0
    } else if l.san.len() < l.fen.len() - 1 {
        l.san.len() as int
    } else {
        l.fen.len() - 1
    }
}

fn copie(v: &Vec<String>) -> (r: Vec<String>)
    ensures
        texte::vues_textes(r@) == texte::vues_textes(v@),
{
    let mut r: Vec<String> = Vec::new();
    let ghost vv = texte::vues_textes(v@);
    let mut i: usize = 0;
    while i < v.len()
        invariant
            i <= v@.len(),
            vv == texte::vues_textes(v@),
            texte::vues_textes(r@) == vv.take(i as int),
        decreases v.len() - i,
    {
        let ghost avant = texte::vues_textes(r@);
        let s: String = v[i].clone();
        let ghost sv = s@;
        r.push(s);
        assert(vv[i as int] == sv);
        assert(texte::vues_textes(r@) =~= avant.push(sv));
        assert(vv.take(i as int + 1) =~= vv.take(i as int).push(sv));
        i += 1;
    }
    assert(vv.take(i as int) =~= vv);
    r
}

impl Live {
    /// Half-moves that can be graded.
    pub fn plis(&self) -> (r: usize)
        ensures
            r == plis_de(self@),
    {
        let n: usize = self.san.len();
        let m: usize = self.fen.len();
        assert(self@.san.len() == n && self@.fen.len() == m);
        if m == 0 {
            0
        } else if n < m - 1 {
            n
        } else {
            m - 1
        }
    }
}

impl Clone for Live {
    fn clone(&self) -> (r: Live)
        ensures
            r@ == self@,
    {
        let r: Live = Live {
            partie: self.partie,
            champion_blanc: self.champion_blanc,
            termine: self.termine,
            san: copie(&self.san),
            fen: copie(&self.fen),
        };
        assert(r@ =~= self@);
        r
    }
}

// ---------------------------------------------------------------------------
// Reading the broadcast
// ---------------------------------------------------------------------------

/// The list under a key of a JSON object, if the text is such an object and the
/// key holds a list; each item as a text, nothing for an item that is none.
pub uninterp spec fn tableau_json(corps: Seq<char>, nom: Seq<char>) -> Option<
    Seq<Option<Seq<char>>>,
>;

/// The number under a key of a JSON object, if the text is such an object and
/// the key holds a whole number of sixty-four bits that is not negative.
pub uninterp spec fn entier_json(corps: Seq<char>, nom: Seq<char>) -> Option<u64>;

/// The truth value under a key of a JSON object, if the text is such an object
/// and the key holds one.
pub uninterp spec fn booleen_json(corps: Seq<char>, nom: Seq<char>) -> Option<bool>;

/// What the items of a list say.
pub open spec fn vues_items(v: Seq<Option<String>>) -> Seq<Option<Seq<char>>> {
    v.map_values(|s: Option<String>| echiquier::vue_option(s))
}

/// Reads a list of a JSON text with `from_str`, `Value::get`, `Value::as_array`
/// and, of each item, `Value::as_str` of serde_json. Claimed: the result
/// depends on the two texts alone.
#[verifier::external_body]
fn champ_tableau(corps: &str, nom: &str) -> (r: Option<Vec<Option<String>>>)
    ensures
        match r {
            Some(v) => tableau_json(corps@, nom@) == Some(vues_items(v@)),
            None => tableau_json(corps@, nom@) is None,
        },
{
    let v: serde_json::Value = serde_json::from_str(corps).ok()?;
    let a = v.get(nom)?.as_array()?;
    Some(a.iter().map(|s| s.as_str().map(|t| t.to_string())).collect())
}

/// Reads a number of a JSON text with `from_str`, `Value::get` and
/// `Value::as_u64` of serde_json. Claimed: the result depends on the two texts
/// alone.
#[verifier::external_body]
fn champ_entier(corps: &str, nom: &str) -> (r: Option<u64>)
    ensures
        r == entier_json(corps@, nom@),
{
    let v: serde_json::Value = serde_json::from_str(corps).ok()?;
    v.get(nom)?.as_u64()
}

/// Reads a truth value of a JSON text with `from_str`, `Value::get` and
/// `Value::as_bool` of serde_json. Claimed: the result depends on the two texts
/// alone.
#[verifier::external_body]
fn champ_booleen(corps: &str, nom: &str) -> (r: Option<bool>)
    ensures
        r == booleen_json(corps@, nom@),
{
    let v: serde_json::Value = serde_json::from_str(corps).ok()?;
    v.get(nom)?.as_bool()
}

/// The texts among the first `n` items of a list, in order.
pub open spec fn textes_parmi(v: Seq<Option<Seq<char>>>, n: int) -> Seq<Seq<char>>
    decreases n,
{
    if n <= 0 {
        Seq::empty()
    } else {
        match v[n - 1] {
            Some(t) => textes_parmi(v, n - 1).push(t),
            None => textes_parmi(v, n - 1),
        }
    }
}

/// The texts of a list, none where there is no list.
pub open spec fn textes_du(v: Option<Seq<Option<Seq<char>>>>) -> Seq<Seq<char>> {
    match v {
        Some(v) => textes_parmi(v, v.len() as int),
        None => Seq::empty(),
    }
}

/// The texts of a list, none where there is no list.
pub fn garde_textes(v: &Option<Vec<Option<String>>>) -> (r: Vec<String>)
    ensures
        texte::vues_textes(r@) == textes_du(
            match *v {
                Some(v) => Some(vues_items(v@)),
                None => None,
            },
        ),
{
    let mut r: Vec<String> = Vec::new();
    assert(texte::vues_textes(r@) =~= Seq::empty());
    if let Some(v) = v {
        let ghost vv = vues_items(v@);
        let mut i: usize = 0;
        while i < v.len()
            invariant
                i <= v@.len(),
                vv == vues_items(v@),
                texte::vues_textes(r@) == textes_parmi(vv, i as int),
            decreases v.len() - i,
        {
            assert(vv[i as int] == echiquier::vue_option(v@[i as int]));
            let ghost avant = texte::vues_textes(r@);
            if let Some(t) = &v[i] {
                let s: String = t.clone();
                let ghost sv = s@;
                r.push(s);
                assert(texte::vues_textes(r@) =~= avant.push(sv));
            }
            i += 1;
        }
    }
    r
}

/// The broadcast game that its fields make: nothing without a position; game
/// zero, the champion with White and a game that goes on where a field is
/// missing.
pub open spec fn live_de(
    partie: Option<u64>,
    champion_blanc: Option<bool>,
    termine: Option<bool>,
    san: Seq<Seq<char>>,
    fen: Seq<Seq<char>>,
) -> Option<VueLive> {
    if fen.len() == 0 {
        None
    } else {
        Some(
            VueLive {
                partie: match partie {
                    Some(p) => p as u32,
                    None => 0,
                },
                champion_blanc: champion_blanc.unwrap_or(true),
                termine: termine.unwrap_or(false),
                san,
                fen,
            },
        )
    }
}

/// Puts a broadcast game together from its fields.
pub fn assemble_live(
    partie: Option<u64>,
    champion_blanc: Option<bool>,
    termine: Option<bool>,
    san: Vec<String>,
    fen: Vec<String>,
) -> (r: Option<Live>)
    ensures
        match r {
            Some(l) => live_de(
                partie,
                champion_blanc,
                termine,
                texte::vues_textes(san@),
                texte::vues_textes(fen@),
            ) == Some(l@),
            None => live_de(
                partie,
                champion_blanc,
                termine,
                texte::vues_textes(san@),
                texte::vues_textes(fen@),
            ) is None,
        },
{
    if fen.len() == 0 {
        return None;
    }
    Some(
        Live {
            partie: match partie {
                Some(p) => #[verifier::truncate]
                (p as u32),
                None => 0,
            },
            champion_blanc: match champion_blanc {
                Some(b) => b,
                None => true,
            },
            termine: match termine {
                Some(b) => b,
                None => false,
            },
            san,
            fen,
        },
    )
}

/// Reads the text of the broadcast file. Nothing where it cannot be read or
/// tells no position: the arbiter waits.
pub fn lit_live(corps: &str) -> (r: Option<Live>)
    ensures
        ({
            let attendu = live_de(
                entier_json(corps@, "partie"@),
                booleen_json(corps@, "champion_blanc"@),
                booleen_json(corps@, "termine"@),
                textes_du(tableau_json(corps@, "history_san"@)),
                textes_du(tableau_json(corps@, "history_fen"@)),
            );
            match r {
                Some(l) => attendu == Some(l@),
                None => attendu is None,
            }
        }),
{
    let fen: Vec<String> = garde_textes(&champ_tableau(corps, "history_fen"));
    let san: Vec<String> = garde_textes(&champ_tableau(corps, "history_san"));
    assemble_live(
        champ_entier(corps, "partie"),
        champ_booleen(corps, "champion_blanc"),
        champ_booleen(corps, "termine"),
        san,
        fen,
    )
}

// ---------------------------------------------------------------------------
// One position
// ---------------------------------------------------------------------------

/// What an engine says of a position: its value in centipawns seen by White,
/// and the best move in SAN, empty where the game is over.
pub struct Analyse {
    pub eval_blancs: i32,
    pub meilleur: String,
}

/// What an analysis says.
pub open spec fn vue_analyse(a: Analyse) -> (i32, Seq<char>) {
    (a.eval_blancs, a.meilleur@)
}

/// What becomes of a position before any engine is asked.
pub enum Examen {
    /// Not a position.
    Illisible,
    /// The game is over there: no engine is needed.
    Terminale(Analyse),
    /// To be asked of an engine; is White to move?
    AEvaluer(bool),
}

/// Value of a position where the game is over, seen by White.
pub open spec fn valeur_terminale(e: jeu::EtatPosition) -> int {
    arbitre::cote_blancs(
        if e.echec {
            -32_000
        } else {
            0
        },
        e.trait_blanc,
    )
}

/// Looks at a position before any engine is asked.
pub fn examen(fen: &str) -> (r: Examen)
    ensures
        match jeu::etat_de(fen@) {
            None => r is Illisible,
            Some(e) => if e.n_coups == 0 {
                r matches Examen::Terminale(a) && a.eval_blancs == valeur_terminale(e)
                    && a.meilleur@.len() == 0
            } else {
                r == Examen::AEvaluer(e.trait_blanc)
            },
        },
{
    match jeu::examine(fen) {
        None => Examen::Illisible,
        Some(e) => {
            if e.n_coups == 0 {
                let cp: i32 = if e.echec {
                    -MAT_CP
                } else {
                    0
                };
                Examen::Terminale(
                    Analyse {
                        eval_blancs: arbitre::vers_blancs(cp, e.trait_blanc),
                        meilleur: String::new(),
                    },
                )
            } else {
                Examen::AEvaluer(e.trait_blanc)
            }
        },
    }
}

/// The engine's move in SAN; its raw text where it names no legal move.
pub open spec fn meilleur_de(fen: Seq<char>, uci: Seq<char>) -> Seq<char> {
    match echiquier::coup_nomme(fen, uci) {
        Some(u) => match echiquier::san_signe_de(fen, u) {
            Some(s) => s,
            None => uci,
        },
        None => uci,
    }
}

/// What an engine answered about a position.
pub enum ReponseMoteur {
    /// A move and its score, seen from the side to move.
    Score(String, ScoreUci),
    /// A move without a score.
    SansScore,
    /// No answer.
    Panne,
    /// No engine could be opened.
    Absent,
}

/// What to do with an engine's answer.
pub enum Suite {
    /// The position is analysed.
    Conclu(Analyse),
    /// Ask again, with a new engine if it is dead.
    Retente { relance: bool },
    /// Leave the position for another turn.
    Abandonne,
}

/// Takes the answer to attempt `essai` (counted from zero) at a position.
pub fn recoit(fen: &str, trait_blanc: bool, essai: u32, reponse: ReponseMoteur) -> (r: Suite)
    requires
        essai < ESSAIS_MOTEUR,
    ensures
        match reponse {
            ReponseMoteur::Score(uci, s) => r matches Suite::Conclu(a) && a.eval_blancs
                == arbitre::cote_blancs(arbitre::cp_attendu(s), trait_blanc) && a.meilleur@
                == meilleur_de(fen@, uci@),
            _ => if essai + 1 < ESSAIS_MOTEUR {
                r == (Suite::Retente { relance: reponse is Panne || reponse is Absent })
            } else {
                r is Abandonne
            },
        },
{
    match reponse {
        ReponseMoteur::Score(uci, s) => {
            let san: Option<String> = match echiquier::coup_legal(fen, uci.as_str()) {
                Some(u) => echiquier::san_signe_du_coup(fen, u.as_str()),
                None => None,
            };
            let meilleur: String = match san {
                Some(x) => x,
                None => uci,
            };
            Suite::Conclu(
                Analyse {
                    eval_blancs: arbitre::vers_blancs(arbitre::cp_du_score(s), trait_blanc),
                    meilleur,
                },
            )
        },
        ReponseMoteur::SansScore => if essai + 1 < ESSAIS_MOTEUR {
            Suite::Retente { relance: false }
        } else {
            Suite::Abandonne
        },
        _ => if essai + 1 < ESSAIS_MOTEUR {
            Suite::Retente { relance: true }
        } else {
            Suite::Abandonne
        },
    }
}

// ---------------------------------------------------------------------------
// One half-move
// ---------------------------------------------------------------------------

/// Pieces on the board of a position, kings among them; thirty-two where the
/// text is no position.
pub open spec fn pieces_de(fen: Seq<char>) -> int {
    match echiquier::position_de(fen) {
        Some(p) => p.0.len() as int,
        None => 32,
    }
}

/// The grading of half-move `pli` from the analyses before and after it.
pub open spec fn annotation_de(
    l: VueLive,
    pli: u32,
    avant: (i32, Seq<char>),
    apres: (i32, Seq<char>),
) -> VueAnnotation {
    let joue = l.san[pli - 1];
    let perte = arbitre::perte_attendue(
        avant.0 as int,
        apres.0 as int,
        arbitre::pli_blanc(pli as int),
    );
    VueAnnotation {
        partie: l.partie,
        ply: pli,
        camp: arbitre::camp_attendu(pli as int, l.champion_blanc),
        phase: arbitre::phase_attendue(pli as int, pieces_de(l.fen[pli - 1])),
        eval_avant: avant.0,
        eval_apres: apres.0,
        meilleur: avant.1,
        joue,
        perte_cp: perte as i32,
        classement: arbitre::classement_attendu(perte, avant.1.len() > 0 && avant.1 == joue),
    }
}

/// Grades half-move `pli` from the analyses before and after it; nothing where
/// the game does not have it.
pub fn annote(live: &Live, pli: u32, avant: &Analyse, apres: &Analyse) -> (r: Option<Annotation>)
    requires
        pli >= 1,
    ensures
        r is Some <==> pli <= plis_de(live@),
        r matches Some(a) ==> a@ == annotation_de(
            live@,
            pli,
            vue_analyse(*avant),
            vue_analyse(*apres),
        ),
{
    if pli as usize > live.plis() {
        return None;
    }
    let i: usize = pli as usize - 1;
    let fen_avant: &String = &live.fen[i];
    assert(live@.fen[i as int] == fen_avant@);
    let joue: String = live.san[i].clone();
    assert(live@.san[i as int] == joue@);
    let trait_blanc: bool = pli % 2 == 1;
    let perte: i32 = arbitre::perte_cp(avant.eval_blancs, apres.eval_blancs, trait_blanc);
    let vide: Vec<char> = texte::caracteres(avant.meilleur.as_str());
    let identique: bool = vide.len() > 0 && texte::egal(avant.meilleur.as_str(), joue.as_str());
    let pieces: u32 = match echiquier::lit_position(fen_avant.as_str()) {
        Some(p) => {
            let n: usize = p.pieces.len();
            n as u32
        },
        None => 32,
    };
    let a: Annotation = Annotation {
        partie: live.partie,
        ply: pli,
        camp: arbitre::camp(pli, live.champion_blanc).to_string(),
        phase: arbitre::phase(pli, pieces),
        eval_avant: avant.eval_blancs,
        eval_apres: apres.eval_blancs,
        meilleur: avant.meilleur.clone(),
        joue,
        perte_cp: perte,
        classement: arbitre::classement(perte, identique),
    };
    assert(a@ =~= annotation_de(live@, pli, vue_analyse(*avant), vue_analyse(*apres)));
    Some(a)
}

// ---------------------------------------------------------------------------
// Memory
// ---------------------------------------------------------------------------

/// What has been graded, what was given up, and how often each half-move has
/// failed.
pub struct Memoire {
    pub annotations: Vec<Annotation>,
    /// Half-moves given up, by game and number.
    pub abandons: Vec<(u32, u32)>,
    /// Failed turns, by game and number.
    pub echecs: Vec<(u32, u32, u32)>,
}

/// What the memory holds.
#[verifier::ext_equal]
pub struct VueMemoire {
    pub annotations: Seq<VueAnnotation>,
    pub abandons: Seq<(u32, u32)>,
    pub echecs: Seq<(u32, u32, u32)>,
}

impl View for Memoire {
    type V = VueMemoire;

    open spec fn view(&self) -> VueMemoire {
        VueMemoire {
            annotations: arbitre::vues(self.annotations@),
            abandons: self.abandons@,
            echecs: self.echecs@,
        }
    }
}

/// Failed turns of a half-move since it was last graded.
pub open spec fn echecs_de(e: Seq<(u32, u32, u32)>, partie: u32, pli: u32, n: int) -> int
    decreases n,
{
    if n <= 0 {
        0
    } else if e[n - 1].0 == partie && e[n - 1].1 == pli {
        e[n - 1].2 as int
    } else {
        echecs_de(e, partie, pli, n - 1)
    }
}

/// Failed turns of a half-move.
pub open spec fn echecs_connus(m: VueMemoire, partie: u32, pli: u32) -> int {
    echecs_de(m.echecs, partie, pli, m.echecs.len() as int)
}

/// Puts an entry in its place by the number of its half-move, behind those of
/// the same number.
pub open spec fn range(s: Seq<VueAnnotation>, a: VueAnnotation) -> Seq<VueAnnotation>
    decreases s.len(),
{
    if s.len() > 0 && s.last().ply > a.ply {
        range(s.drop_last(), a).push(s.last())
    } else {
        s.push(a)
    }
}

/// The first `n` entries that are of a game, by the number of the half-move.
pub open spec fn rangees(s: Seq<VueAnnotation>, partie: u32, n: int) -> Seq<VueAnnotation>
    decreases n,
{
    if n <= 0 {
        Seq::empty()
    } else if s[n - 1].partie == partie {
        range(rangees(s, partie, n - 1), s[n - 1])
    } else {
        rangees(s, partie, n - 1)
    }
}

/// Numbers of the half-moves of a game among the first `n` given up.
pub open spec fn ignores_de(s: Seq<(u32, u32)>, partie: u32, n: int) -> Seq<u32>
    decreases n,
{
    if n <= 0 {
        Seq::empty()
    } else if s[n - 1].0 == partie {
        ignores_de(s, partie, n - 1).push(s[n - 1].1)
    } else {
        ignores_de(s, partie, n - 1)
    }
}

/// Entries by growing half-move?
pub open spec fn en_ordre(s: Seq<VueAnnotation>) -> bool {
    forall|i: int, j: int| 0 <= i < j < s.len() ==> (#[trigger] s[i]).ply <= (#[trigger] s[j]).ply
}

proof fn lemme_range(s: Seq<VueAnnotation>, a: VueAnnotation)
    requires
        en_ordre(s),
    ensures
        en_ordre(range(s, a)),
        range(s, a).len() == s.len() + 1,
        range(s, a).to_multiset() == s.to_multiset().insert(a),
        forall|i: int|
            0 <= i < range(s, a).len() ==> (#[trigger] range(s, a)[i]) == a || s.contains(
                range(s, a)[i],
            ),
    decreases s.len(),
{
    broadcast use vstd::seq_lib::group_to_multiset_ensures;

    if s.len() > 0 && s.last().ply > a.ply {
        let d = s.drop_last();
        assert(en_ordre(d)) by {
            assert forall|i: int, j: int| 0 <= i < j < d.len() implies (#[trigger] d[i]).ply <= (
            #[trigger] d[j]).ply by {
                assert(s[i].ply <= s[j].ply);
            }
        }
        lemme_range(d, a);
        let r = range(d, a);
        let t = r.push(s.last());
        assert(d.push(s.last()) =~= s);
        assert(t.to_multiset() =~= r.to_multiset().insert(s.last()));
        assert(s.to_multiset() =~= d.to_multiset().insert(s.last()));
        assert(t.to_multiset() =~= s.to_multiset().insert(a));
        assert forall|i: int| 0 <= i < t.len() implies (#[trigger] t[i]) == a || s.contains(t[i]) by {
            if i < r.len() {
                if r[i] != a {
                    assert(d.contains(r[i]));
                    let k = d.index_of(r[i]);
                    assert(s[k] == r[i]);
                }
            } else {
                assert(s[s.len() - 1] == t[i]);
            }
        }
        assert forall|i: int, j: int| 0 <= i < j < t.len() implies (#[trigger] t[i]).ply <= (
        #[trigger] t[j]).ply by {
            if j < r.len() {
                assert(r[i].ply <= r[j].ply);
            } else {
                if r[i] != a {
                    assert(d.contains(r[i]));
                    let k = d.index_of(r[i]);
                    assert(s[k].ply <= s[s.len() - 1].ply);
                }
            }
        }
    } else {
        let t = s.push(a);
        assert forall|i: int| 0 <= i < t.len() implies (#[trigger] t[i]) == a || s.contains(t[i]) by {
            if i < s.len() {
                assert(t[i] == s[i]);
            }
        }
        assert forall|i: int, j: int| 0 <= i < j < t.len() implies (#[trigger] t[i]).ply <= (
        #[trigger] t[j]).ply by {
            if j < s.len() {
                assert(s[i].ply <= s[j].ply);
            } else {
                assert(s[i].ply <= s[s.len() - 1].ply);
            }
        }
    }
}

/// The entries of a game are given by growing half-move, and they are all the
/// entries of the game that the memory holds, no other.
pub proof fn loi_annotations_rangees(s: Seq<VueAnnotation>, partie: u32, n: int)
    requires
        0 <= n <= s.len(),
    ensures
        en_ordre(rangees(s, partie, n)),
        rangees(s, partie, n).to_multiset() == s.take(n).filter(
            |a: VueAnnotation| a.partie == partie,
        ).to_multiset(),
    decreases n,
{
    broadcast use vstd::seq_lib::group_to_multiset_ensures;

    let f = |a: VueAnnotation| a.partie == partie;
    if n > 0 {
        loi_annotations_rangees(s, partie, n - 1);
        assert(s.take(n).drop_last() =~= s.take(n - 1));
        assert(s.take(n).last() == s[n - 1]);
        reveal(Seq::filter);
        if s[n - 1].partie == partie {
            lemme_range(rangees(s, partie, n - 1), s[n - 1]);
            assert(s.take(n).filter(f) == s.take(n - 1).filter(f).push(s[n - 1]));
        }
    } else {
        reveal(Seq::filter);
        assert(s.take(0).filter(f) =~= Seq::empty());
    }
}

fn insere(v: &mut Vec<Annotation>, a: Annotation)
    ensures
        arbitre::vues(final(v)@) == range(arbitre::vues(old(v)@), a@),
    decreases old(v)@.len(),
{
    let ghost v0 = arbitre::vues(v@);
    let n: usize = v.len();
    if n > 0 && v[n - 1].ply > a.ply {
        let fin: Option<Annotation> = v.pop();
        if let Some(d) = fin {
            let ghost dv = d@;
            assert(v0.last() == dv);
            assert(arbitre::vues(v@) =~= v0.drop_last());
            insere(v, a);
            let ghost v1 = arbitre::vues(v@);
            v.push(d);
            assert(arbitre::vues(v@) =~= v1.push(dv));
        }
    } else {
        proof {
            if n > 0 {
                assert(v0.last() == v@[n - 1]@);
            }
        }
        let ghost av = a@;
        v.push(a);
        assert(arbitre::vues(v@) =~= v0.push(av));
    }
}

impl Memoire {
    /// A memory that starts from graded half-moves.
    pub fn depuis(annotations: Vec<Annotation>) -> (r: Memoire)
        ensures
            r@ == (VueMemoire {
                annotations: arbitre::vues(annotations@),
                abandons: Seq::empty(),
                echecs: Seq::empty(),
            }),
    {
        Memoire { annotations, abandons: Vec::new(), echecs: Vec::new() }
    }

    /// The entries of a game, by growing half-move.
    pub fn annotations(&self, partie: u32) -> (r: Vec<Annotation>)
        ensures
            arbitre::vues(r@) == rangees(
                self@.annotations,
                partie,
                self@.annotations.len() as int,
            ),
            r@.len() <= self@.annotations.len(),
    {
        let ghost s = self@.annotations;
        let mut r: Vec<Annotation> = Vec::new();
        let mut i: usize = 0;
        assert(arbitre::vues(r@) =~= rangees(s, partie, 0));
        while i < self.annotations.len()
            invariant
                i <= self.annotations@.len(),
                s == arbitre::vues(self.annotations@),
                arbitre::vues(r@) == rangees(s, partie, i as int),
                r@.len() <= i,
            decreases self.annotations.len() - i,
        {
            assert(s[i as int] == self.annotations@[i as int]@);
            if self.annotations[i].partie == partie {
                let a: Annotation = self.annotations[i].clone();
                let ghost avant = arbitre::vues(r@);
                proof {
                    loi_annotations_rangees(s, partie, i as int);
                    lemme_range(avant, a@);
                    assert(avant.len() == r@.len());
                }
                insere(&mut r, a);
                assert(arbitre::vues(r@).len() == r@.len());
            }
            i += 1;
        }
        r
    }

    /// Half-moves of a game that were given up.
    pub fn ignores(&self, partie: u32) -> (r: Vec<u32>)
        ensures
            r@ == ignores_de(self@.abandons, partie, self@.abandons.len() as int),
            r@.len() <= self@.abandons.len(),
    {
        let mut r: Vec<u32> = Vec::new();
        let mut i: usize = 0;
        while i < self.abandons.len()
            invariant
                i <= self.abandons@.len(),
                r@ == ignores_de(self.abandons@, partie, i as int),
                r@.len() <= i,
            decreases self.abandons.len() - i,
        {
            if self.abandons[i].0 == partie {
                r.push(self.abandons[i].1);
            }
            i += 1;
        }
        r
    }

    fn echecs_du_pli(&self, partie: u32, pli: u32) -> (r: u32)
        ensures
            r == echecs_connus(self@, partie, pli),
    {
        let mut n: usize = self.echecs.len();
        while n > 0
            invariant
                n <= self.echecs@.len(),
                echecs_connus(self@, partie, pli) == echecs_de(self.echecs@, partie, pli, n as int),
            decreases n,
        {
            if self.echecs[n - 1].0 == partie && self.echecs[n - 1].1 == pli {
                return self.echecs[n - 1].2;
            }
            n -= 1;
        }
        0
    }

    /// Notes a graded half-move; its failures are forgotten.
    pub fn note_succes(&mut self, a: Annotation)
        ensures
            final(self)@ == (VueMemoire {
                annotations: old(self)@.annotations.push(a@),
                abandons: old(self)@.abandons,
                echecs: old(self)@.echecs.push((a.partie, a.ply, 0)),
            }),
            echecs_connus(final(self)@, a.partie, a.ply) == 0,
    {
        let ghost m0 = self@;
        let ghost av = a@;
        let cle: (u32, u32, u32) = (a.partie, a.ply, 0);
        self.annotations.push(a);
        self.echecs.push(cle);
        assert(self@.annotations =~= m0.annotations.push(av));
    }

    /// Notes a failed turn on a half-move, and gives it up at the third.
    /// `true`: it was given up.
    pub fn note_echec(&mut self, partie: u32, pli: u32) -> (r: bool)
        requires
            echecs_connus(old(self)@, partie, pli) < u32::MAX,
        ensures
            echecs_connus(final(self)@, partie, pli) == echecs_connus(old(self)@, partie, pli) + 1,
            forall|p: u32, k: u32|
                (p != partie || k != pli) ==> #[trigger] echecs_connus(final(self)@, p, k)
                    == echecs_connus(old(self)@, p, k),
            r == (echecs_connus(old(self)@, partie, pli) + 1 >= ESSAIS_PLI),
            final(self)@.annotations == old(self)@.annotations,
            final(self)@.abandons == if r {
                old(self)@.abandons.push((partie, pli))
            } else {
                old(self)@.abandons
            },
    {
        let ghost m0 = self@;
        let c: u32 = self.echecs_du_pli(partie, pli) + 1;
        self.echecs.push((partie, pli, c));
        let abandonne: bool = c >= ESSAIS_PLI;
        if abandonne {
            self.abandons.push((partie, pli));
        }
        proof {
            let e0 = m0.echecs;
            assert forall|p: u32, k: u32| (p != partie || k != pli) implies #[trigger] echecs_connus(
                self@,
                p,
                k,
            ) == echecs_connus(m0, p, k) by {
                lemme_echecs_prefixe(e0, (partie, pli, c), p, k, e0.len() as int);
            }
        }
        abandonne
    }

    /// Forgets everything: the record describes another match.
    pub fn oublie(&mut self)
        ensures
            final(self)@ == (VueMemoire {
                annotations: Seq::empty(),
                abandons: Seq::empty(),
                echecs: Seq::empty(),
            }),
    {
        self.annotations = Vec::new();
        self.abandons = Vec::new();
        self.echecs = Vec::new();
        proof {
            let v = VueMemoire {
                annotations: Seq::empty(),
                abandons: Seq::empty(),
                echecs: Seq::empty(),
            };
            assert(self@ =~= v);
        }
    }
}

proof fn lemme_echecs_prefixe(
    e: Seq<(u32, u32, u32)>,
    x: (u32, u32, u32),
    p: u32,
    k: u32,
    n: int,
)
    requires
        0 <= n <= e.len(),
    ensures
        echecs_de(e.push(x), p, k, n) == echecs_de(e, p, k, n),
    decreases n,
{
    if n > 0 {
        lemme_echecs_prefixe(e, x, p, k, n - 1);
        assert(e.push(x)[n - 1] == e[n - 1]);
    }
}

// ---------------------------------------------------------------------------
// End of a game
// ---------------------------------------------------------------------------

/// Do the moves of `b` begin with those of `a`, as far as both go?
pub open spec fn s_accordent(a: Seq<Seq<char>>, b: Seq<Seq<char>>) -> bool {
    forall|i: int| 0 <= i < a.len() && i < b.len() ==> #[trigger] a[i] == b[i]
}

/// The fullest account of a game that has ended: the PGN where all its moves
/// can be replayed, it tells more than the broadcast and does not contradict
/// it; else the broadcast.
pub open spec fn rattrapage(precedent: VueLive, pgn: Option<Seq<char>>) -> VueLive {
    match pgn {
        None => precedent,
        Some(t) => {
            let san = arbitre::coups_lus(t);
            let fen = arbitre::fens_rejouees(echiquier::DEPART@, san);
            let du_pgn = VueLive { san, fen, ..precedent };
            if fen.len() == san.len() + 1 && plis_de(du_pgn) > plis_de(precedent) && s_accordent(
                precedent.san,
                san,
            ) {
                du_pgn
            } else {
                precedent
            }
        },
    }
}

/// Chooses the fullest account of a game that has ended; `pgn` is the text of
/// its PGN where there is one.
pub fn source_de_rattrapage(precedent: &Live, pgn: Option<&str>) -> (r: Live)
    ensures
        r@ == rattrapage(
            precedent@,
            match pgn {
                Some(t) => Some(t@),
                None => None,
            },
        ),
{
    match pgn {
        None => precedent.clone(),
        Some(t) => {
            let san: Vec<String> = arbitre::coups_du_pgn(t);
            let fen: Vec<String> = arbitre::fens_de_coups(&san);
            assert(texte::vues_textes(san@).len() == san@.len());
            assert(texte::vues_textes(fen@).len() == fen@.len());
            let n: usize = san.len();
            let complet: bool = fen.len() > n;
            let du_pgn: Live = Live {
                partie: precedent.partie,
                champion_blanc: precedent.champion_blanc,
                termine: precedent.termine,
                san,
                fen,
            };
            if complet && du_pgn.plis() > precedent.plis() && memes_debuts(
                &precedent.san,
                &du_pgn.san,
            ) {
                du_pgn
            } else {
                precedent.clone()
            }
        },
    }
}

fn memes_debuts(a: &Vec<String>, b: &Vec<String>) -> (r: bool)
    ensures
        r == s_accordent(texte::vues_textes(a@), texte::vues_textes(b@)),
{
    let ghost av = texte::vues_textes(a@);
    let ghost bv = texte::vues_textes(b@);
    let mut i: usize = 0;
    while i < a.len() && i < b.len()
        invariant
            i <= a@.len(),
            i <= b@.len(),
            av == texte::vues_textes(a@),
            bv == texte::vues_textes(b@),
            forall|k: int| 0 <= k < i ==> #[trigger] av[k] == bv[k],
        decreases a.len() - i,
    {
        assert(av[i as int] == a@[i as int]@);
        assert(bv[i as int] == b@[i as int]@);
        if !texte::egal(a[i].as_str(), b[i].as_str()) {
            return false;
        }
        i += 1;
    }
    true
}

/// What is added to a game that has ended never contradicts what was seen of
/// it.
pub proof fn loi_rattrapage_fidele(precedent: VueLive, pgn: Option<Seq<char>>)
    ensures
        plis_de(rattrapage(precedent, pgn)) >= plis_de(precedent),
        rattrapage(precedent, pgn).partie == precedent.partie,
        forall|i: int|
            0 <= i < plis_de(precedent) ==> #[trigger] rattrapage(precedent, pgn).san[i]
                == precedent.san[i],
{
}

// ---------------------------------------------------------------------------
// One turn
// ---------------------------------------------------------------------------

/// What to do in a turn.
#[derive(Debug, Clone, Copy, PartialEq, Eq, Structural)]
pub enum Tour {
    /// The record describes another match: put it away and forget.
    Archive,
    /// Grade this half-move.
    Traite(u32),
    /// Nothing to grade: publish if something is new, leave if the match is
    /// over.
    AJour { publie: bool, sort: bool },
}

/// The turn is the right one: put the record away exactly when it contradicts
/// the broadcast, else grade the first half-move that is neither graded nor
/// given up, if it has been played.
pub open spec fn tour_attendu(
    l: VueLive,
    m: VueMemoire,
    publie_pour: Option<(u32, usize)>,
    t: Tour,
) -> bool {
    let a = rangees(m.annotations, l.partie, m.annotations.len() as int);
    let ignores = ignores_de(m.abandons, l.partie, m.abandons.len() as int);
    let coherent = forall|i: int|
        0 <= i < a.len() ==> arbitre::pli_conforme(#[trigger] a[i], l.san, plis_de(l));
    match t {
        Tour::Archive => !coherent,
        Tour::Traite(pli) => coherent && pli <= plis_de(l) && arbitre::premier_trou(
            a,
            l.partie,
            ignores,
            pli as int,
        ),
        Tour::AJour { publie, sort } => {
            &&& coherent
            &&& exists|pli: int|
                pli > plis_de(l) && #[trigger] arbitre::premier_trou(a, l.partie, ignores, pli)
            &&& publie == !(publie_pour matches Some((p, n)) && p == l.partie && n == a.len())
            &&& sort == l.termine
        },
    }
}

/// Decides a turn.
pub fn tour(live: &Live, memoire: &Memoire, publie_pour: Option<(u32, usize)>) -> (r: Tour)
    requires
        memoire@.annotations.len() + memoire@.abandons.len() < u32::MAX,
    ensures
        tour_attendu(live@, memoire@, publie_pour, r),
{
    let a: Vec<Annotation> = memoire.annotations(live.partie);
    let ghost av = arbitre::vues(a@);
    let plis: usize = live.plis();
    proof {
        assert(av.len() == a@.len());
        assert(forall|i: int| 0 <= i < a@.len() ==> #[trigger] av[i] == a@[i]@);
    }
    if !arbitre::csv_coherent(&a, &live.san, plis) {
        proof {
            let i = choose|i: int|
                0 <= i < a@.len() && !arbitre::pli_conforme(
                    (#[trigger] a@[i])@,
                    texte::vues_textes(live.san@),
                    plis as int,
                );
            assert(av == rangees(
                memoire@.annotations,
                live@.partie,
                memoire@.annotations.len() as int,
            ));
            assert(0 <= i < av.len());
            assert(!arbitre::pli_conforme(av[i], live@.san, plis_de(live@)));
        }
        return Tour::Archive;
    }
    proof {
        assert forall|i: int| 0 <= i < av.len() implies arbitre::pli_conforme(
            #[trigger] av[i],
            live@.san,
            plis_de(live@),
        ) by {
            assert(arbitre::pli_conforme(a@[i]@, texte::vues_textes(live.san@), plis as int));
        }
    }
    let ignores: Vec<u32> = memoire.ignores(live.partie);
    let pli: u32 = arbitre::prochain_pli_hors(&a, live.partie, &ignores);
    if pli as usize <= plis {
        return Tour::Traite(pli);
    }
    let n: usize = a.len();
    let neuf: bool = match publie_pour {
        Some((p, k)) => !(p == live.partie && k == n),
        None => true,
    };
    assert(arbitre::premier_trou(av, live@.partie, ignores@, pli as int));
    Tour::AJour { publie: neuf, sort: live.termine }
}

/// A half-move that was given up is never asked for again.
pub proof fn loi_abandon_definitif(
    l: VueLive,
    m: VueMemoire,
    publie_pour: Option<(u32, usize)>,
    pli: u32,
    i: int,
)
    requires
        tour_attendu(l, m, publie_pour, Tour::Traite(pli)),
        0 <= i < m.abandons.len(),
        m.abandons[i].0 == l.partie,
    ensures
        m.abandons[i].1 != pli,
{
    let ignores = ignores_de(m.abandons, l.partie, m.abandons.len() as int);
    lemme_ignores(m.abandons, l.partie, m.abandons.len() as int, i);
    if m.abandons[i].1 == pli {
        let k = ignores.index_of(m.abandons[i].1);
        assert(ignores[k] == pli);
    }
}

proof fn lemme_ignores(s: Seq<(u32, u32)>, partie: u32, n: int, i: int)
    requires
        0 <= i < n <= s.len(),
        s[i].0 == partie,
    ensures
        ignores_de(s, partie, n).contains(s[i].1),
    decreases n,
{
    let d = ignores_de(s, partie, n - 1);
    let e = ignores_de(s, partie, n);
    if i == n - 1 {
        assert(e[e.len() - 1] == s[i].1);
    } else {
        lemme_ignores(s, partie, n - 1, i);
        let k = d.index_of(s[i].1);
        assert(e[k] == s[i].1);
    }
}

/// Has the broadcast moved to another game?
pub fn change_de_partie(partie_courante: u32, live: &Live) -> (r: bool)
    ensures
        r == (live@.partie != partie_courante),
{
    live.partie != partie_courante
}

// ---------------------------------------------------------------------------
// Laws of the follow-up
// ---------------------------------------------------------------------------

/// Half-moves that can be graded: those that have a name and a position after
/// them.
pub proof fn loi_plis_suivis(l: VueLive, k: int)
    ensures
        1 <= k <= plis_de(l) <==> 1 <= k <= l.san.len() && k < l.fen.len(),
        plis_de(l) >= 0,
{
}

/// Texts among items: those that are texts, in order.
pub proof fn loi_textes_parmi(v: Seq<Option<Seq<char>>>, n: int)
    requires
        0 <= n < v.len(),
    ensures
        v[n] is Some ==> textes_parmi(v, n + 1) == textes_parmi(v, n).push(v[n]->0),
        v[n] is None ==> textes_parmi(v, n + 1) == textes_parmi(v, n),
        textes_parmi(v, 0).len() == 0,
        textes_du(None).len() == 0,
        textes_du(Some(v)) == textes_parmi(v, v.len() as int),
{
}

/// What a published game says: without a position nothing; what lacks stands
/// for game 0, the champion with White, not over.
pub proof fn loi_direct_lu(
    partie: Option<u64>,
    blanc: Option<bool>,
    termine: Option<bool>,
    san: Seq<Seq<char>>,
    fen: Seq<Seq<char>>,
)
    ensures
        fen.len() == 0 <==> live_de(partie, blanc, termine, san, fen) is None,
        fen.len() > 0 ==> {
            let l = live_de(partie, blanc, termine, san, fen)->0;
            &&& l.san == san && l.fen == fen
            &&& partie is None ==> l.partie == 0
            &&& partie is Some && partie->0 <= u32::MAX ==> l.partie == partie->0
            &&& blanc is None ==> l.champion_blanc
            &&& blanc is Some ==> l.champion_blanc == blanc->0
            &&& termine is None ==> !l.termine
            &&& termine is Some ==> l.termine == termine->0
        },
{
}

/// A finished position needs no engine: to be mated is worth the whole mate
/// against the side to move, seen by White; stalemate is worth nothing.
pub proof fn loi_valeur_terminale(e: jeu::EtatPosition)
    ensures
        e.echec && e.trait_blanc ==> valeur_terminale(e) == -32_000,
        e.echec && !e.trait_blanc ==> valeur_terminale(e) == 32_000,
        !e.echec ==> valeur_terminale(e) == 0,
{
}

/// The best move is written as it is played, sign of check included; a text
/// that names no move stays as it is.
pub proof fn loi_meilleur_ecrit(fen: Seq<char>, uci: Seq<char>, u: Seq<char>, s: Seq<char>)
    ensures
        echiquier::coup_nomme(fen, uci) == Some(u) && echiquier::san_signe_de(fen, u) == Some(s)
            ==> meilleur_de(fen, uci) == s,
        echiquier::coup_nomme(fen, uci) is None ==> meilleur_de(fen, uci) == uci,
{
}

/// A grade compares the evaluations around a half-move: the loss is that of
/// the side that moved, White on odd half-moves, the class follows the loss,
/// and the move is the best one when it is the engine's.
pub proof fn loi_annotation(
    l: VueLive,
    pli: u32,
    avant: (i32, Seq<char>),
    apres: (i32, Seq<char>),
    p: echiquier::VuePosition,
)
    requires
        1 <= pli <= plis_de(l),
        -2000 <= avant.0 <= 2000,
        -2000 <= apres.0 <= 2000,
        echiquier::position_de(l.fen[pli - 1]) == Some(p),
    ensures
        ({
            let a = annotation_de(l, pli, avant, apres);
            &&& a.partie == l.partie && a.ply == pli
            &&& a.joue == l.san[pli - 1] && a.meilleur == avant.1
            &&& a.eval_avant == avant.0 && a.eval_apres == apres.0
            &&& pli % 2 == 1 && apres.0 <= avant.0 ==> a.perte_cp == avant.0 - apres.0
            &&& pli % 2 == 1 && apres.0 > avant.0 ==> a.perte_cp == 0
            &&& pli % 2 == 0 && apres.0 >= avant.0 ==> a.perte_cp == apres.0 - avant.0
            &&& pli % 2 == 0 && apres.0 < avant.0 ==> a.perte_cp == 0
            &&& a.camp == "champion"@ || a.camp == "fantome"@
            &&& (pli % 2 == 1) == l.champion_blanc ==> a.camp == "champion"@
            &&& (pli % 2 == 1) != l.champion_blanc ==> a.camp == "fantome"@
            &&& a.classement is Meilleur <==> avant.1.len() > 0 && avant.1 == l.san[pli - 1]
            &&& a.classement is Gaffe <==> a.perte_cp >= 300 && a.classement !is Meilleur
            &&& a.phase is Ouverture <==> pli <= 12 || p.0.len() >= 28
        }),
{
}

/// Without a position, a board counts as full.
pub proof fn loi_pieces_comptees(fen: Seq<char>)
    ensures
        match echiquier::position_de(fen) {
            Some(p) => pieces_de(fen) == p.0.len(),
            None => pieces_de(fen) == 32,
        },
{
}

/// The last count noted of a half-move's failures is the one that stands.
pub proof fn loi_echecs_comptes(e: Seq<(u32, u32, u32)>, partie: u32, pli: u32, x: (u32, u32, u32))
    ensures
        x.0 == partie && x.1 == pli ==> echecs_de(e.push(x), partie, pli, e.len() as int + 1) == x.2,
        x.0 != partie || x.1 != pli ==> echecs_de(e.push(x), partie, pli, e.len() as int + 1) == echecs_de(
            e,
            partie,
            pli,
            e.len() as int,
        ),
        echecs_de(e, partie, pli, 0) == 0,
{
    lemme_echecs_prefixe(e, x, partie, pli, e.len() as int);
}

/// Half-moves given up of a game: those of that game, and no others.
pub proof fn loi_plis_ignores(s: Seq<(u32, u32)>, partie: u32, n: int, pli: u32)
    requires
        0 <= n <= s.len(),
    ensures
        ignores_de(s, partie, n).contains(pli) <==> exists|i: int|
            0 <= i < n && #[trigger] s[i] == (partie, pli),
    decreases n,
{
    if n > 0 {
        loi_plis_ignores(s, partie, n - 1, pli);
        let d = ignores_de(s, partie, n - 1);
        if s[n - 1].0 == partie {
            let e = d.push(s[n - 1].1);
            if d.contains(pli) {
                assert(e[d.index_of(pli)] == pli);
            }
            assert(e[d.len() as int] == s[n - 1].1);
            if e.contains(pli) && s[n - 1].1 != pli {
                assert(d[e.index_of(pli)] == pli);
            }
        }
        if s[n - 1] == (partie, pli) {
            assert(s[n - 1] == (partie, pli));
        }
    }
}

/// A record of the whole game completes what was seen exactly when it can be
/// replayed to its end, is longer, and agrees on every move seen.
pub proof fn loi_rattrapage(precedent: VueLive, t: Seq<char>)
    ensures
        ({
            let san = arbitre::coups_lus(t);
            let fen = arbitre::fens_rejouees(echiquier::DEPART@, san);
            let r = rattrapage(precedent, Some(t));
            let adopte = fen.len() == san.len() + 1 && san.len() > plis_de(precedent) && forall|i: int|
                0 <= i < precedent.san.len() && i < san.len() ==> #[trigger] precedent.san[i]
                    == san[i];
            &&& adopte ==> r.san == san && r.fen == fen && r.termine == precedent.termine
            &&& !adopte ==> r == precedent
        }),
        rattrapage(precedent, None) == precedent,
{
    let san = arbitre::coups_lus(t);
    let fen = arbitre::fens_rejouees(echiquier::DEPART@, san);
    let du_pgn = VueLive { san, fen, ..precedent };
    assert(fen.len() == san.len() + 1 ==> plis_de(du_pgn) == san.len());
}

/// An answer with a score concludes, seen by White; anything else is asked
/// again until the third attempt, with a new engine where it died or was never
/// there.
pub proof fn loi_reponse_du_moteur(fen: &str, blanc: bool, essai: u32, reponse: ReponseMoteur, r: Suite)
    requires
        essai < 3,
        call_ensures(recoit, (fen, blanc, essai, reponse), r),
    ensures
        reponse is Score <==> r is Conclu,
        reponse !is Score && essai < 2 ==> r is Retente,
        reponse !is Score && essai == 2 ==> r is Abandonne,
        match (reponse, r) {
            (ReponseMoteur::Score(_, arbitre::ScoreUci::Cp(x)), Suite::Conclu(a)) => -32_000 <= x
                <= 32_000 ==> a.eval_blancs == if blanc {
                x as int
            } else {
                -x
            },
            _ => true,
        },
{
}

/// The failures that are known of a half-move are the last that were noted.
pub proof fn loi_echecs_connus(m: VueMemoire, partie: u32, pli: u32, n: u32)
    requires
        m.echecs.len() > 0,
        m.echecs.last() == (partie, pli, n),
    ensures
        echecs_connus(m, partie, pli) == n,
{
}

/// What a turn does: it sets the record aside when a graded half-move does not
/// agree with the game; otherwise it takes the first half-move that is neither
/// graded nor given up, as long as the game has it.
pub proof fn loi_tour(
    l: VueLive,
    m: VueMemoire,
    publie_pour: Option<(u32, usize)>,
    pli: u32,
    i: int,
)
    requires
        tour_attendu(l, m, publie_pour, Tour::Traite(pli)),
    ensures
        1 <= pli <= plis_de(l),
        ({
            let a = rangees(m.annotations, l.partie, m.annotations.len() as int);
            0 <= i < a.len() && a[i].partie == l.partie ==> a[i].ply != pli && a[i].joue
                == l.san[a[i].ply - 1]
        }),
        !tour_attendu(l, m, publie_pour, Tour::Archive),
{
    let a = rangees(m.annotations, l.partie, m.annotations.len() as int);
    if 0 <= i < a.len() {
        assert(arbitre::pli_conforme(a[i], l.san, plis_de(l)));
    }
}

} // verus!
