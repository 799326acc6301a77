//! Grading of a game: engine scores, loss in centipawns, move classes, game
//! phases, and the record of graded half-moves.
//!
//! - an engine score (`ScoreUci`) is from the point of view of the side to
//!   move; every evaluation kept here is from White's point of view;
//! - a mate is worth plus or minus (`MAT_CP` - n), n being the number of moves
//!   to mate, so that the order of scores stays total;
//! - a loss is never negative and is that of the side that has just moved.
use std::collections::{HashMap, HashSet};
use vstd::prelude::*;

use crate::echiquier;
use crate::texte;

verus! {

broadcast use vstd::std_specs::hash::group_hash_axioms;

/// Value of an immediate mate, in centipawns.
pub const MAT_CP: i32 = 32_000;

/// Both evaluations are cut to this bound before a loss is computed.
pub const PLAFOND_PERTE: i32 = 2_000;

/// Losses below this are excellent moves.
pub const SEUIL_EXCELLENT: i32 = 20;

/// Losses below this are good moves.
pub const SEUIL_BON: i32 = 50;

/// Losses below this are inaccuracies.
pub const SEUIL_IMPRECISION: i32 = 150;

/// Losses below this are mistakes, the others are blunders.
pub const SEUIL_ERREUR: i32 = 300;

// ---------------------------------------------------------------------------
// Scores
// ---------------------------------------------------------------------------

/// A score as an engine announces it, from the side to move.
#[derive(Debug, Clone, Copy, PartialEq, Eq, Structural)]
pub enum ScoreUci {
    /// Centipawns.
    Cp(i32),
    /// Moves to mate: positive when the side to move mates, otherwise it is
    /// mated; zero when it is mated already.
    Mat(i32),
}

/// `x` brought between `bas` and `haut`.
pub open spec fn borne(x: int, bas: int, haut: int) -> int {
    if x < bas {
        bas
    } else if x > haut {
        haut
    } else {
        x
    }
}

/// Centipawns of a score.
pub open spec fn cp_attendu(s: ScoreUci) -> int {
    match s {
        ScoreUci::Cp(x) => borne(x as int, -32_000, 32_000),
        ScoreUci::Mat(n) => if n > 0 {
            32_000 - borne(n as int, 0, 32_000)
        } else {
            -(32_000 - borne(-n, 0, 32_000))
        },
    }
}

fn borne_i32(x: i32, bas: i32, haut: i32) -> (r: i32)
    requires
        bas <= haut,
    ensures
        r == borne(x as int, bas as int, haut as int),
{
    if x < bas {
        bas
    } else if x > haut {
        haut
    } else {
        x
    }
}

/// Raw score to centipawns, from the side to move.
pub fn cp_du_score(s: ScoreUci) -> (r: i32)
    ensures
        r == cp_attendu(s),
        -MAT_CP <= r <= MAT_CP,
{
    match s {
        ScoreUci::Cp(x) => borne_i32(x, -MAT_CP, MAT_CP),
        ScoreUci::Mat(n) => if n > 0 {
            MAT_CP - borne_i32(n, 0, MAT_CP)
        } else {
            -(MAT_CP + borne_i32(n, -MAT_CP, 0))
        },
    }
}

/// The value `cp` of the side to move, seen by White.
pub open spec fn cote_blancs(cp: int, trait_blanc: bool) -> int {
    if trait_blanc {
        cp
    } else {
        -cp
    }
}

/// Centipawns of the side to move to White's point of view.
pub fn vers_blancs(cp_trait: i32, trait_blanc: bool) -> (r: i32)
    requires
        trait_blanc || cp_trait > i32::MIN,
    ensures
        r == cote_blancs(cp_trait as int, trait_blanc),
{
    if trait_blanc {
        cp_trait
    } else {
        -cp_trait
    }
}

/// Loss of a move between the two evaluations, both seen by White.
pub open spec fn perte_attendue(avant: int, apres: int, trait_blanc: bool) -> int {
    let a = cote_blancs(borne(avant, -2_000, 2_000), trait_blanc);
    let b = cote_blancs(borne(apres, -2_000, 2_000), trait_blanc);
    if a - b > 0 {
        a - b
    } else {
        0
    }
}

/// Loss of a move, in centipawns, for the side that has just moved.
pub fn perte_cp(avant: i32, apres: i32, trait_blanc: bool) -> (r: i32)
    ensures
        r == perte_attendue(avant as int, apres as int, trait_blanc),
        0 <= r <= 2 * PLAFOND_PERTE,
{
    let a: i32 = vers_blancs(borne_i32(avant, -PLAFOND_PERTE, PLAFOND_PERTE), trait_blanc);
    let b: i32 = vers_blancs(borne_i32(apres, -PLAFOND_PERTE, PLAFOND_PERTE), trait_blanc);
    if a - b > 0 {
        a - b
    } else {
        0
    }
}

/// Mates keep a total order: a quicker mate is better for the side that gives
/// it and worse for the side that suffers it, and every mate given beats every
/// mate suffered.
pub proof fn loi_ordre_des_mats(m: i32, n: i32)
    requires
        -MAT_CP <= m <= MAT_CP,
        -MAT_CP <= n <= MAT_CP,
    ensures
        0 < m < n ==> cp_attendu(ScoreUci::Mat(m)) > cp_attendu(ScoreUci::Mat(n)),
        n < m <= 0 ==> cp_attendu(ScoreUci::Mat(m)) < cp_attendu(ScoreUci::Mat(n)),
        n <= 0 < m && -MAT_CP < n && m < MAT_CP ==> cp_attendu(ScoreUci::Mat(m)) > cp_attendu(
            ScoreUci::Mat(n),
        ),
{
}

/// The same move is judged alike from both sides: exchanging the colours and
/// the sign of the evaluations leaves the loss unchanged, and a move that does
/// not lower the mover's evaluation loses nothing.
pub proof fn loi_perte_symetrique(avant: int, apres: int, trait_blanc: bool)
    ensures
        perte_attendue(avant, apres, trait_blanc) == perte_attendue(-avant, -apres, !trait_blanc),
        cote_blancs(apres, trait_blanc) >= cote_blancs(avant, trait_blanc) ==> perte_attendue(
            avant,
            apres,
            trait_blanc,
        ) == 0,
{
}

// ---------------------------------------------------------------------------
// Move classes
// ---------------------------------------------------------------------------

/// Class of a move.
#[derive(Debug, Clone, Copy, PartialEq, Eq, Structural)]
pub enum Classement {
    Meilleur,
    Excellent,
    Bon,
    Imprecision,
    Erreur,
    Gaffe,
}

/// The keyword of a class.
pub open spec fn nom_classement(c: Classement) -> Seq<char> {
    match c {
        Classement::Meilleur => "meilleur"@,
        Classement::Excellent => "excellent"@,
        Classement::Bon => "bon"@,
        Classement::Imprecision => "imprecision"@,
        Classement::Erreur => "erreur"@,
        Classement::Gaffe => "gaffe"@,
    }
}

/// The class that a keyword names.
pub open spec fn classement_nomme(s: Seq<char>) -> Option<Classement> {
    if s == "meilleur"@ {
        Some(Classement::Meilleur)
    } else if s == "excellent"@ {
        Some(Classement::Excellent)
    } else if s == "bon"@ {
        Some(Classement::Bon)
    } else if s == "imprecision"@ {
        Some(Classement::Imprecision)
    } else if s == "erreur"@ {
        Some(Classement::Erreur)
    } else if s == "gaffe"@ {
        Some(Classement::Gaffe)
    } else {
        None
    }
}

impl Classement {
    pub fn nom(self) -> (r: &'static str)
        ensures
            r@ == nom_classement(self),
    {
        match self {
            Classement::Meilleur => "meilleur",
            Classement::Excellent => "excellent",
            Classement::Bon => "bon",
            Classement::Imprecision => "imprecision",
            Classement::Erreur => "erreur",
            Classement::Gaffe => "gaffe",
        }
    }

    pub fn depuis_nom(s: &str) -> (r: Option<Classement>)
        ensures
            r == classement_nomme(s@),
    {
        if texte::egal(s, "meilleur") {
            Some(Classement::Meilleur)
        } else if texte::egal(s, "excellent") {
            Some(Classement::Excellent)
        } else if texte::egal(s, "bon") {
            Some(Classement::Bon)
        } else if texte::egal(s, "imprecision") {
            Some(Classement::Imprecision)
        } else if texte::egal(s, "erreur") {
            Some(Classement::Erreur)
        } else if texte::egal(s, "gaffe") {
            Some(Classement::Gaffe)
        } else {
            None
        }
    }
}

/// A class is found again by its keyword.
pub proof fn loi_nom_du_classement(c: Classement)
    ensures
        classement_nomme(nom_classement(c)) == Some(c),
{
    reveal_strlit("meilleur");
    reveal_strlit("excellent");
    reveal_strlit("bon");
    reveal_strlit("imprecision");
    reveal_strlit("erreur");
    reveal_strlit("gaffe");
    assert("meilleur"@.len() == 8 && "excellent"@.len() == 9 && "bon"@.len() == 3);
    assert("imprecision"@.len() == 11 && "erreur"@.len() == 6 && "gaffe"@.len() == 5);
}

/// Class of a loss: the engine's own move is always the best one.
pub open spec fn classement_attendu(perte: int, identique: bool) -> Classement {
    if identique {
        Classement::Meilleur
    } else if perte < 20 {
        Classement::Excellent
    } else if perte < 50 {
        Classement::Bon
    } else if perte < 150 {
        Classement::Imprecision
    } else if perte < 300 {
        Classement::Erreur
    } else {
        Classement::Gaffe
    }
}

/// Class of a move from its loss, and from whether it is the engine's move.
pub fn classement(perte: i32, identique: bool) -> (r: Classement)
    ensures
        r == classement_attendu(perte as int, identique),
{
    if identique {
        Classement::Meilleur
    } else if perte < SEUIL_EXCELLENT {
        Classement::Excellent
    } else if perte < SEUIL_BON {
        Classement::Bon
    } else if perte < SEUIL_IMPRECISION {
        Classement::Imprecision
    } else if perte < SEUIL_ERREUR {
        Classement::Erreur
    } else {
        Classement::Gaffe
    }
}

// ---------------------------------------------------------------------------
// Game phases
// ---------------------------------------------------------------------------

/// Phase of a game.
#[derive(Debug, Clone, Copy, PartialEq, Eq, Structural)]
pub enum Phase {
    Ouverture,
    Milieu,
    Transition,
    Finale,
}

/// The keyword of a phase.
pub open spec fn nom_phase(p: Phase) -> Seq<char> {
    match p {
        Phase::Ouverture => "ouverture"@,
        Phase::Milieu => "milieu"@,
        Phase::Transition => "transition"@,
        Phase::Finale => "finale"@,
    }
}

/// The phase that a keyword names.
pub open spec fn phase_nommee(s: Seq<char>) -> Option<Phase> {
    if s == "ouverture"@ {
        Some(Phase::Ouverture)
    } else if s == "milieu"@ {
        Some(Phase::Milieu)
    } else if s == "transition"@ {
        Some(Phase::Transition)
    } else if s == "finale"@ {
        Some(Phase::Finale)
    } else {
        None
    }
}

impl Phase {
    /// The four phases, in the order of a game.
    pub const TOUTES: [Phase; 4] = [
        Phase::Ouverture,
        Phase::Milieu,
        Phase::Transition,
        Phase::Finale,
    ];

    pub fn nom(self) -> (r: &'static str)
        ensures
            r@ == nom_phase(self),
    {
        match self {
            Phase::Ouverture => "ouverture",
            Phase::Milieu => "milieu",
            Phase::Transition => "transition",
            Phase::Finale => "finale",
        }
    }

    pub fn depuis_nom(s: &str) -> (r: Option<Phase>)
        ensures
            r == phase_nommee(s@),
    {
        if texte::egal(s, "ouverture") {
            Some(Phase::Ouverture)
        } else if texte::egal(s, "milieu") {
            Some(Phase::Milieu)
        } else if texte::egal(s, "transition") {
            Some(Phase::Transition)
        } else if texte::egal(s, "finale") {
            Some(Phase::Finale)
        } else {
            None
        }
    }
}

/// A phase is found again by its keyword.
pub proof fn loi_nom_de_la_phase(p: Phase)
    ensures
        phase_nommee(nom_phase(p)) == Some(p),
{
    reveal_strlit("ouverture");
    reveal_strlit("milieu");
    reveal_strlit("transition");
    reveal_strlit("finale");
    assert("ouverture"@.len() == 9 && "milieu"@.len() == 6);
    assert("transition"@.len() == 10 && "finale"@.len() == 6);
    assert("milieu"@[0] == 'm' && "finale"@[0] == 'f');
}

/// Phase of a position: the opening comes first, then the number of pieces
/// decides.
pub open spec fn phase_attendue(ply: int, pieces: int) -> Phase {
    if ply <= 12 || pieces >= 28 {
        Phase::Ouverture
    } else if pieces <= 9 {
        Phase::Finale
    } else if pieces <= 14 {
        Phase::Transition
    } else {
        Phase::Milieu
    }
}

/// Phase of the position from which half-move `ply` (counted from 1) is
/// played, with `pieces` pieces on the board, kings among them.
pub fn phase(ply: u32, pieces: u32) -> (r: Phase)
    ensures
        r == phase_attendue(ply as int, pieces as int),
{
    if ply <= 12 || pieces >= 28 {
        Phase::Ouverture
    } else if pieces <= 9 {
        Phase::Finale
    } else if pieces <= 14 {
        Phase::Transition
    } else {
        Phase::Milieu
    }
}

/// Does White play half-move `ply`?
pub open spec fn pli_blanc(ply: int) -> bool {
    ply % 2 == 1
}

/// Side that plays half-move `ply`.
pub open spec fn camp_attendu(ply: int, champion_blanc: bool) -> Seq<char> {
    if pli_blanc(ply) == champion_blanc {
        "champion"@
    } else {
        "fantome"@
    }
}

/// Side that plays half-move `ply` (counted from 1): White has the odd ones.
pub fn camp(ply: u32, champion_blanc: bool) -> (r: &'static str)
    ensures
        r@ == camp_attendu(ply as int, champion_blanc),
{
    let trait_blanc: bool = ply % 2 == 1;
    if trait_blanc == champion_blanc {
        "champion"
    } else {
        "fantome"
    }
}

/// The two sides alternate, and the sides of a half-move are exchanged with the
/// colours.
pub proof fn loi_camps_alternes(ply: int, champion_blanc: bool)
    ensures
        camp_attendu(ply, champion_blanc) != camp_attendu(ply + 1, champion_blanc),
        camp_attendu(ply, champion_blanc) == camp_attendu(ply + 2, champion_blanc),
        camp_attendu(ply, champion_blanc) == camp_attendu(ply + 1, !champion_blanc),
{
    reveal_strlit("champion");
    reveal_strlit("fantome");
    assert("champion"@.len() == 8 && "fantome"@.len() == 7);
}


// ---------------------------------------------------------------------------
// Graded half-moves and their CSV lines
// ---------------------------------------------------------------------------

/// Header of the record, one line per graded half-move.
pub const ENTETE_CSV: &'static str =
    "partie,ply,camp,phase,eval_avant_cp,meilleur,joue,perte_cp,classement";

/// A graded half-move.
#[derive(Debug, PartialEq, Eq)]
pub struct Annotation {
    pub partie: u32,
    /// Number of the half-move, counted from 1.
    pub ply: u32,
    /// "champion" or "fantome".
    pub camp: String,
    pub phase: Phase,
    /// Evaluation before the move, seen by White.
    pub eval_avant: i32,
    /// Evaluation after the move, seen by White; not in the record.
    pub eval_apres: i32,
    /// The engine's move in SAN, empty when it gave none.
    pub meilleur: String,
    /// The move played, in SAN.
    pub joue: String,
    pub perte_cp: i32,
    pub classement: Classement,
}

/// What an annotation says, its texts as sequences of characters.
#[verifier::ext_equal]
pub struct VueAnnotation {
    pub partie: u32,
    pub ply: u32,
    pub camp: Seq<char>,
    pub phase: Phase,
    pub eval_avant: i32,
    pub eval_apres: i32,
    pub meilleur: Seq<char>,
    pub joue: Seq<char>,
    pub perte_cp: i32,
    pub classement: Classement,
}

impl View for Annotation {
    type V = VueAnnotation;

    open spec fn view(&self) -> VueAnnotation {
        VueAnnotation {
            partie: self.partie,
            ply: self.ply,
            camp: self.camp@,
            phase: self.phase,
            eval_avant: self.eval_avant,
            eval_apres: self.eval_apres,
            meilleur: self.meilleur@,
            joue: self.joue@,
            perte_cp: self.perte_cp,
            classement: self.classement,
        }
    }
}

impl Clone for Annotation {
    fn clone(&self) -> (r: Annotation)
        ensures
            r == *self,
    {
        Annotation {
            partie: self.partie,
            ply: self.ply,
            camp: self.camp.clone(),
            phase: self.phase,
            eval_avant: self.eval_avant,
            eval_apres: self.eval_apres,
            meilleur: self.meilleur.clone(),
            joue: self.joue.clone(),
            perte_cp: self.perte_cp,
            classement: self.classement,
        }
    }
}

/// What a list of annotations says.
pub open spec fn vues(v: Seq<Annotation>) -> Seq<VueAnnotation> {
    v.map_values(|a: Annotation| a@)
}

/// The fields of a CSV line.
pub open spec fn champs(a: VueAnnotation) -> Seq<Seq<char>> {
    seq![
        texte::decimal(a.partie as nat),
        texte::decimal(a.ply as nat),
        a.camp,
        nom_phase(a.phase),
        texte::decimal_relatif(a.eval_avant as int),
        a.meilleur,
        a.joue,
        texte::decimal_relatif(a.perte_cp as int),
        nom_classement(a.classement),
    ]
}

/// The CSV line of an annotation: its fields, separated by commas.
pub open spec fn ligne(a: VueAnnotation) -> Seq<char> {
    texte::joint(champs(a), ',')
}

/// Evaluation after a half-move, deduced from the one before it and the loss.
pub open spec fn eval_repliee(ply: u32, eval_avant: i32, perte: i32) -> i32 {
    if pli_blanc(ply as int) {
        eval_avant.wrapping_sub(perte)
    } else {
        eval_avant.wrapping_add(perte)
    }
}

/// The annotation that a CSV line holds: at least nine fields, each trimmed,
/// with readable numbers and known keywords. The evaluation after the move is
/// deduced from the one before it, modulo 2^32 where it would not fit.
pub open spec fn annotation_lue(l: Seq<char>) -> Option<VueAnnotation> {
    let c = texte::morceaux(texte::sans_fin(l), ',');
    if c.len() < 9 {
        None
    } else {
        let partie = texte::naturel_lu(texte::rogne(c[0]), u32::MAX as int);
        let ply = texte::naturel_lu(texte::rogne(c[1]), u32::MAX as int);
        let phase = phase_nommee(texte::rogne(c[3]));
        let eval = texte::relatif_lu(texte::rogne(c[4]), i32::MIN as int, i32::MAX as int);
        let perte = texte::relatif_lu(texte::rogne(c[7]), i32::MIN as int, i32::MAX as int);
        let cl = classement_nomme(texte::rogne(c[8]));
        if partie is Some && ply is Some && phase is Some && eval is Some && perte is Some
            && cl is Some {
            let p = ply->0 as u32;
            Some(
                VueAnnotation {
                    partie: partie->0 as u32,
                    ply: p,
                    camp: texte::rogne(c[2]),
                    phase: phase->0,
                    eval_avant: eval->0 as i32,
                    eval_apres: eval_repliee(p, eval->0 as i32, perte->0 as i32),
                    meilleur: texte::rogne(c[5]),
                    joue: texte::rogne(c[6]),
                    perte_cp: perte->0 as i32,
                    classement: cl->0,
                },
            )
        } else {
            None
        }
    }
}

/// A value of a JSON object.
pub enum ChampJson {
    Entier(i64),
    Texte(String),
}

/// What a value of a JSON object says.
pub enum VueChamp {
    Entier(i64),
    Texte(Seq<char>),
}

impl View for ChampJson {
    type V = VueChamp;

    open spec fn view(&self) -> VueChamp {
        match self {
            ChampJson::Entier(n) => VueChamp::Entier(*n),
            ChampJson::Texte(t) => VueChamp::Texte(t@),
        }
    }
}

/// What the fields of a JSON object say.
pub open spec fn vues_champs(v: Seq<(&'static str, ChampJson)>) -> Seq<(Seq<char>, VueChamp)> {
    v.map_values(|c: (&'static str, ChampJson)| (c.0@, c.1@))
}

/// The text of the JSON object with the given fields.
pub uninterp spec fn objet_json(champs: Seq<(Seq<char>, VueChamp)>) -> Seq<char>;

/// Writes a JSON object with `Map::from_iter`, `Value::from` and the `Display`
/// of `Value` of serde_json. Claimed: the text depends on the names and values
/// alone.
#[verifier::external_body]
fn ecrit_objet(champs: Vec<(&'static str, ChampJson)>) -> (r: String)
    ensures
        r@ == objet_json(vues_champs(champs@)),
{
    let m: serde_json::Map<String, serde_json::Value> = champs
        .into_iter()
        .map(|(nom, champ)| match champ {
            ChampJson::Entier(n) => (nom.to_string(), serde_json::Value::from(n)),
            ChampJson::Texte(t) => (nom.to_string(), serde_json::Value::from(t)),
        })
        .collect();
    serde_json::Value::Object(m).to_string()
}

/// The fields of a graded half-move as it is published.
pub open spec fn champs_publies(a: VueAnnotation) -> Seq<(Seq<char>, VueChamp)> {
    seq![
        ("ply"@, VueChamp::Entier(a.ply as i64)),
        ("camp"@, VueChamp::Texte(a.camp)),
        ("phase"@, VueChamp::Texte(nom_phase(a.phase))),
        ("eval_avant"@, VueChamp::Entier(a.eval_avant as i64)),
        ("eval_apres"@, VueChamp::Entier(a.eval_apres as i64)),
        ("meilleur"@, VueChamp::Texte(a.meilleur)),
        ("joue"@, VueChamp::Texte(a.joue)),
        ("perte_cp"@, VueChamp::Entier(a.perte_cp as i64)),
        ("classement"@, VueChamp::Texte(nom_classement(a.classement))),
    ]
}

impl Annotation {
    /// The fields of the half-move as it is published.
    pub fn champs_json(&self) -> (r: Vec<(&'static str, ChampJson)>)
        ensures
            vues_champs(r@) == champs_publies(self@),
    {
        let mut v: Vec<(&'static str, ChampJson)> = Vec::new();
        v.push(("ply", ChampJson::Entier(self.ply as i64)));
        v.push(("camp", ChampJson::Texte(self.camp.clone())));
        v.push(("phase", ChampJson::Texte(self.phase.nom().to_string())));
        v.push(("eval_avant", ChampJson::Entier(self.eval_avant as i64)));
        v.push(("eval_apres", ChampJson::Entier(self.eval_apres as i64)));
        v.push(("meilleur", ChampJson::Texte(self.meilleur.clone())));
        v.push(("joue", ChampJson::Texte(self.joue.clone())));
        v.push(("perte_cp", ChampJson::Entier(self.perte_cp as i64)));
        v.push(("classement", ChampJson::Texte(self.classement.nom().to_string())));
        assert(vues_champs(v@) =~= champs_publies(self@));
        v
    }

    /// The half-move as a JSON object.
    pub fn json(&self) -> (r: String)
        ensures
            r@ == objet_json(champs_publies(self@)),
    {
        ecrit_objet(self.champs_json())
    }

    /// The CSV line, without a line end.
    pub fn ligne_csv(&self) -> (r: String)
        ensures
            r@ == ligne(self@),
    {
        let mut c: Vec<Vec<char>> = Vec::new();
        c.push(texte::ecrit_naturel(self.partie as u64));
        c.push(texte::ecrit_naturel(self.ply as u64));
        c.push(texte::caracteres(self.camp.as_str()));
        c.push(texte::caracteres(self.phase.nom()));
        c.push(texte::ecrit_relatif(self.eval_avant as i64));
        c.push(texte::caracteres(self.meilleur.as_str()));
        c.push(texte::caracteres(self.joue.as_str()));
        c.push(texte::ecrit_relatif(self.perte_cp as i64));
        c.push(texte::caracteres(self.classement.nom()));
        assert(texte::vues(c@) =~= champs(self@));
        let l: Vec<char> = texte::joindre(&c, ',');
        texte::texte(&l)
    }

    /// Reads a CSV line back.
    pub fn depuis_csv(ligne: &str) -> (r: Option<Annotation>)
        ensures
            r is Some <==> annotation_lue(ligne@) is Some,
            r matches Some(a) ==> annotation_lue(ligne@) == Some(a@),
    {
        let l: Vec<char> = texte::caracteres(ligne);
        Self::depuis_caracteres(&l)
    }

    /// Reads the characters of a CSV line.
    fn depuis_caracteres(l: &Vec<char>) -> (r: Option<Annotation>)
        ensures
            r is Some <==> annotation_lue(l@) is Some,
            r matches Some(a) ==> annotation_lue(l@) == Some(a@),
    {
        let nette: Vec<char> = texte::rogne_fin(l);
        let c: Vec<Vec<char>> = texte::decoupe(&nette, ',');
        let ghost m = texte::morceaux(texte::sans_fin(l@), ',');
        assert(c@.len() == m.len()) by {
            assert(texte::vues(c@).len() == c@.len());
        }
        assert(forall|i: int| 0 <= i < c@.len() ==> m[i] == (#[trigger] c@[i])@) by {
            assert forall|i: int| 0 <= i < c@.len() implies m[i] == (#[trigger] c@[i])@ by {
                assert(texte::vues(c@)[i] == c@[i]@);
            }
        }
        if c.len() < 9 {
            return None;
        }
        let eval_avant: i32 = match texte::lit_i32(&texte::rogner(&c[4])) {
            Some(x) => x,
            None => return None,
        };
        let perte_cp: i32 = match texte::lit_i32(&texte::rogner(&c[7])) {
            Some(x) => x,
            None => return None,
        };
        let ply: u32 = match texte::lit_naturel(&texte::rogner(&c[1]), u32::MAX as u64) {
            Some(x) => x as u32,
            None => return None,
        };
        let partie: u32 = match texte::lit_naturel(&texte::rogner(&c[0]), u32::MAX as u64) {
            Some(x) => x as u32,
            None => return None,
        };
        let phase: Phase = match Phase::depuis_nom(
            texte::texte(&texte::rogner(&c[3])).as_str(),
        ) {
            Some(x) => x,
            None => return None,
        };
        let classement: Classement = match Classement::depuis_nom(
            texte::texte(&texte::rogner(&c[8])).as_str(),
        ) {
            Some(x) => x,
            None => return None,
        };
        let eval_apres: i32 = if ply % 2 == 1 {
            eval_avant.wrapping_sub(perte_cp)
        } else {
            eval_avant.wrapping_add(perte_cp)
        };
        Some(
            Annotation {
                partie,
                ply,
                camp: texte::texte(&texte::rogner(&c[2])),
                phase,
                eval_avant,
                eval_apres,
                meilleur: texte::texte(&texte::rogner(&c[5])),
                joue: texte::texte(&texte::rogner(&c[6])),
                perte_cp,
                classement,
            },
        )
    }
}


/// A text that a CSV field holds unchanged: no comma and no white space at
/// either end.
pub open spec fn champ_net(s: Seq<char>) -> bool {
    !texte::contient(s, ',') && texte::rogne(s) == s
}

/// Can the annotation be written on a line and found again?
pub open spec fn relisible(a: VueAnnotation) -> bool {
    champ_net(a.camp) && champ_net(a.meilleur) && champ_net(a.joue)
}

/// The annotation as its line gives it back.
pub open spec fn relue(a: VueAnnotation) -> VueAnnotation {
    VueAnnotation { eval_apres: eval_repliee(a.ply, a.eval_avant, a.perte_cp), ..a }
}

proof fn lemme_champs_nets(a: VueAnnotation)
    requires
        relisible(a),
    ensures
        forall|i: int| 0 <= i < 9 ==> champ_net(#[trigger] champs(a)[i]),
        champs(a)[8].len() > 0,
{
    let c = champs(a);
    texte::lemme_nombre_net(a.partie as int);
    texte::lemme_nombre_net(a.ply as int);
    texte::lemme_nombre_net(a.eval_avant as int);
    texte::lemme_nombre_net(a.perte_cp as int);
    reveal_strlit("ouverture");
    reveal_strlit("milieu");
    reveal_strlit("transition");
    reveal_strlit("finale");
    reveal_strlit("meilleur");
    reveal_strlit("excellent");
    reveal_strlit("bon");
    reveal_strlit("imprecision");
    reveal_strlit("erreur");
    reveal_strlit("gaffe");
    assert(forall|i: int|
        0 <= i < nom_phase(a.phase).len() ==> 97 <= #[trigger] nom_phase(a.phase)[i] as int <= 122);
    assert(forall|i: int|
        0 <= i < nom_classement(a.classement).len() ==> 97 <= #[trigger] nom_classement(
            a.classement,
        )[i] as int <= 122);
    texte::lemme_mot_net(nom_phase(a.phase));
    texte::lemme_mot_net(nom_classement(a.classement));
}

/// A written line is read back: every recorded field returns as it was, and
/// the evaluation after the move is the deduced one.
pub proof fn loi_relecture_ligne(a: VueAnnotation)
    requires
        relisible(a),
    ensures
        annotation_lue(ligne(a)) == Some(relue(a)),
{
    let c = champs(a);
    lemme_champs_nets(a);
    assert forall|i: int| 0 <= i < c.len() implies !texte::contient(#[trigger] c[i], ',') by {
        assert(champ_net(c[i]));
    }
    texte::loi_decoupe_de_joint(c, ',');
    let l = ligne(a);
    assert(l == texte::joint(c.drop_last(), ',').push(',') + c[8]);
    assert(champ_net(c[8]));
    texte::lemme_rogne_fixe(c[8]);
    assert(l.last() == c[8].last());
    assert(texte::sans_fin(l) == l);
    assert(forall|i: int| 0 <= i < 9 ==> texte::rogne(#[trigger] c[i]) == c[i]) by {
        assert forall|i: int| 0 <= i < 9 implies texte::rogne(#[trigger] c[i]) == c[i] by {
            assert(champ_net(c[i]));
        }
    }
    texte::loi_relecture_decimale(a.partie as int, 0, u32::MAX as int);
    texte::loi_relecture_decimale(a.ply as int, 0, u32::MAX as int);
    texte::loi_relecture_decimale(a.eval_avant as int, i32::MIN as int, i32::MAX as int);
    texte::loi_relecture_decimale(a.perte_cp as int, i32::MIN as int, i32::MAX as int);
    loi_nom_de_la_phase(a.phase);
    loi_nom_du_classement(a.classement);
    assert(texte::rogne(c[0]) == texte::decimal_relatif(a.partie as int));
    assert(texte::rogne(c[1]) == texte::decimal_relatif(a.ply as int));
    assert(texte::rogne(c[2]) == a.camp);
    assert(texte::rogne(c[3]) == nom_phase(a.phase));
    assert(texte::rogne(c[4]) == texte::decimal_relatif(a.eval_avant as int));
    assert(texte::rogne(c[5]) == a.meilleur);
    assert(texte::rogne(c[6]) == a.joue);
    assert(texte::rogne(c[7]) == texte::decimal_relatif(a.perte_cp as int));
    assert(texte::rogne(c[8]) == nom_classement(a.classement));
    assert(annotation_lue(l)->0 =~= relue(a));
}

// ---------------------------------------------------------------------------
// Reading a whole record
// ---------------------------------------------------------------------------

/// Half-moves are told apart by the game and the number.
pub open spec fn meme_pli(a: VueAnnotation, b: VueAnnotation) -> bool {
    a.partie == b.partie && a.ply == b.ply
}

/// Is a line left out before it is read: blank, or starting like the header?
pub open spec fn ligne_ignoree(l: Seq<char>) -> bool {
    texte::rogne(l).len() == 0 || texte::commence_par(l, "partie,"@)
}

/// The annotations on the first `n` lines, in their order; unreadable lines
/// give none.
pub open spec fn lues(l: Seq<Seq<char>>, n: int) -> Seq<VueAnnotation>
    decreases n,
{
    if n <= 0 {
        Seq::empty()
    } else {
        let d = lues(l, n - 1);
        if ligne_ignoree(l[n - 1]) {
            d
        } else {
            match annotation_lue(l[n - 1]) {
                Some(a) => d.push(a),
                None => d,
            }
        }
    }
}

/// Does half-move `i` come again later in the list?
pub open spec fn revient(s: Seq<VueAnnotation>, i: int) -> bool {
    exists|j: int| i < j < s.len() && meme_pli(#[trigger] s[j], s[i])
}

/// Among the first `n` entries, those that do not come again later in the
/// list, in their order.
pub open spec fn dernieres(s: Seq<VueAnnotation>, n: int) -> Seq<VueAnnotation>
    decreases n,
{
    if n <= 0 {
        Seq::empty()
    } else {
        let d = dernieres(s, n - 1);
        if revient(s, n - 1) {
            d
        } else {
            d.push(s[n - 1])
        }
    }
}

/// Evaluation before half-move `ply` of game `partie` in the last of the first
/// `n` entries that has one.
pub open spec fn eval_connue(s: Seq<VueAnnotation>, n: int, partie: u32, ply: int) -> Option<i32>
    decreases n,
{
    if n <= 0 {
        None
    } else if s[n - 1].partie == partie && s[n - 1].ply == ply {
        Some(s[n - 1].eval_avant)
    } else {
        eval_connue(s, n - 1, partie, ply)
    }
}

/// An entry whose evaluation after the move is the one before the next
/// half-move of the same game, where that is known.
pub open spec fn recollee(s: Seq<VueAnnotation>, a: VueAnnotation) -> VueAnnotation {
    match eval_connue(s, s.len() as int, a.partie, a.ply + 1) {
        Some(e) => VueAnnotation { eval_apres: e, ..a },
        None => a,
    }
}

/// All entries, each with its evaluation after the move taken from the next
/// half-move.
pub open spec fn recollees(s: Seq<VueAnnotation>) -> Seq<VueAnnotation> {
    s.map_values(|a: VueAnnotation| recollee(s, a))
}

/// What a record holds: of each half-move the last readable line, in the order
/// of the file, with the evaluations after the moves taken from their
/// successors.
pub open spec fn annotations_du_csv(contenu: Seq<char>) -> Seq<VueAnnotation> {
    let l = texte::lignes(contenu);
    let s = lues(l, l.len() as int);
    recollees(dernieres(s, s.len() as int))
}

/// One number for a game and a half-move.
pub open spec fn cle_de(partie: u32, ply: u32) -> int {
    partie * 0x1_0000_0000 + ply
}

fn cle(partie: u32, ply: u32) -> (r: u64)
    ensures
        r == cle_de(partie, ply),
{
    (partie as u64) * 0x1_0000_0000 + ply as u64
}

/// Takes the evaluation after each half-move from the next half-move of the
/// same game; entries whose successor is not in the list keep theirs.
pub fn recolle_eval_apres(annotations: &mut Vec<Annotation>)
    ensures
        vues(final(annotations)@) == recollees(vues(old(annotations)@)),
{
    let ghost s = vues(annotations@);
    let n: usize = annotations.len();
    let mut avant: HashMap<u64, i32> = HashMap::new();
    let mut i: usize = 0;
    while i < n
        invariant
            n == annotations@.len(),
            i <= n,
            s == vues(annotations@),
            forall|p: u32, q: u32|
                #![trigger cle_de(p, q)]
                avant@.contains_key(cle_de(p, q) as u64) == (eval_connue(s, i as int, p, q as int)
                    is Some),
            forall|p: u32, q: u32|
                #![trigger cle_de(p, q)]
                avant@.contains_key(cle_de(p, q) as u64) ==> Some(avant@[cle_de(p, q) as u64])
                    == eval_connue(s, i as int, p, q as int),
        decreases n - i,
    {
        let a: &Annotation = &annotations[i];
        assert(s[i as int] == a@);
        let k: u64 = cle(a.partie, a.ply);
        avant.insert(k, a.eval_avant);
        i += 1;
    }
    let mut j: usize = 0;
    while j < n
        invariant
            n == annotations@.len(),
            n == s.len(),
            j <= n,
            s == vues(old(annotations)@),
            forall|p: u32, q: u32|
                #![trigger cle_de(p, q)]
                avant@.contains_key(cle_de(p, q) as u64) == (eval_connue(s, n as int, p, q as int)
                    is Some),
            forall|p: u32, q: u32|
                #![trigger cle_de(p, q)]
                avant@.contains_key(cle_de(p, q) as u64) ==> Some(avant@[cle_de(p, q) as u64])
                    == eval_connue(s, n as int, p, q as int),
            forall|m: int|
                0 <= m < n ==> (#[trigger] annotations@[m])@ == if m < j {
                    recollee(s, s[m])
                } else {
                    s[m]
                },
        decreases n - j,
    {
        let partie: u32 = annotations[j].partie;
        let ply: u32 = annotations[j].ply;
        assert(annotations@[j as int]@ == s[j as int]);
        if ply < u32::MAX {
            let k: u64 = cle(partie, ply + 1);
            if let Some(e) = avant.get(&k) {
                let e: i32 = *e;
                annotations[j].eval_apres = e;
                assert(annotations@[j as int]@ =~= recollee(s, s[j as int]));
            }
        } else {
            proof {
                lemme_eval_hors_bornes(s, n as int, partie, ply + 1);
            }
        }
        j += 1;
    }
    assert(vues(annotations@) =~= recollees(s));
}

proof fn lemme_eval_hors_bornes(s: Seq<VueAnnotation>, n: int, partie: u32, ply: int)
    requires
        ply > u32::MAX,
    ensures
        eval_connue(s, n, partie, ply) is None,
    decreases n,
{
    if n > 0 {
        lemme_eval_hors_bornes(s, n - 1, partie, ply);
    }
}

/// Reads a whole record: unreadable lines are skipped, of a half-move written
/// twice the last line counts, and evaluations after the moves are taken from
/// the next half-moves.
pub fn lit_csv(contenu: &str) -> (r: Vec<Annotation>)
    ensures
        vues(r@) == annotations_du_csv(contenu@),
{
    let l: Vec<Vec<char>> = texte::en_lignes(contenu);
    let ghost lv = texte::lignes(contenu@);
    let mut toutes: Vec<Annotation> = Vec::new();
    let mut i: usize = 0;
    while i < l.len()
        invariant
            i <= l@.len(),
            texte::vues(l@) == lv,
            vues(toutes@) == lues(lv, i as int),
        decreases l.len() - i,
    {
        assert(texte::vues(l@)[i as int] == l@[i as int]@);
        if !ignoree(&l[i]) {
            if let Some(a) = Annotation::depuis_caracteres(&l[i]) {
                let ghost avant = vues(toutes@);
                toutes.push(a);
                assert(vues(toutes@) =~= avant.push(a@));
            }
        }
        i += 1;
    }
    let ghost s = vues(toutes@);
    let n: usize = toutes.len();
    // Which entries stay: read backwards, the first time a half-move is met.
    let mut garde: Vec<bool> = Vec::new();
    let mut k: usize = 0;
    while k < n
        invariant
            k <= n,
            garde@.len() == k,
        decreases n - k,
    {
        garde.push(false);
        k += 1;
    }
    let mut vus: HashSet<u64> = HashSet::new();
    let mut j: usize = n;
    while j > 0
        invariant
            j <= n,
            n == toutes@.len(),
            n == garde@.len(),
            s == vues(toutes@),
            forall|p: u32, q: u32|
                #![trigger cle_de(p, q)]
                vus@.contains(cle_de(p, q) as u64) <==> exists|m: int|
                    j <= m < n && (#[trigger] s[m]).partie == p && s[m].ply == q,
            forall|m: int| j <= m < n ==> #[trigger] garde@[m] == !revient(s, m),
        decreases j,
    {
        j = j - 1;
        let a: &Annotation = &toutes[j];
        assert(s[j as int] == a@);
        let c: u64 = cle(a.partie, a.ply);
        let neuve: bool = vus.insert(c);
        proof {
            assert(neuve == !revient(s, j as int));
        }
        garde.set(j, neuve);
    }
    let mut r: Vec<Annotation> = Vec::new();
    let mut m: usize = 0;
    while m < n
        invariant
            m <= n,
            n == toutes@.len(),
            n == garde@.len(),
            s == vues(toutes@),
            forall|x: int| 0 <= x < n ==> #[trigger] garde@[x] == !revient(s, x),
            vues(r@) == dernieres(s, m as int),
        decreases n - m,
    {
        assert(s[m as int] == toutes@[m as int]@);
        if garde[m] {
            let ghost avant = vues(r@);
            r.push(toutes[m].clone());
            assert(vues(r@) =~= avant.push(s[m as int]));
        }
        m += 1;
    }
    recolle_eval_apres(&mut r);
    r
}

fn ignoree(l: &Vec<char>) -> (r: bool)
    ensures
        r == ligne_ignoree(l@),
{
    texte::rogner(l).len() == 0 || texte::debute_par(l, "partie,")
}


proof fn lemme_dernieres_source(s: Seq<VueAnnotation>, n: int, k: int) -> (i: int)
    requires
        0 <= n <= s.len(),
        0 <= k < dernieres(s, n).len(),
    ensures
        0 <= i < n,
        s[i] == dernieres(s, n)[k],
        !revient(s, i),
    decreases n,
{
    let d = dernieres(s, n - 1);
    if !revient(s, n - 1) && k == d.len() {
        n - 1
    } else {
        lemme_dernieres_source(s, n - 1, k)
    }
}

proof fn lemme_dernieres_present(s: Seq<VueAnnotation>, n: int, i: int)
    requires
        0 <= i < n <= s.len(),
        !revient(s, i),
    ensures
        dernieres(s, n).contains(s[i]),
    decreases n,
{
    let d = dernieres(s, n - 1);
    if i == n - 1 {
        assert(dernieres(s, n)[d.len() as int] == s[i]);
    } else {
        lemme_dernieres_present(s, n - 1, i);
        let k = d.index_of(s[i]);
        assert(dernieres(s, n)[k] == s[i]);
    }
}

proof fn lemme_dernieres_distinctes(s: Seq<VueAnnotation>, n: int, a: int, b: int)
    requires
        0 <= n <= s.len(),
        0 <= a < b < dernieres(s, n).len(),
    ensures
        !meme_pli(dernieres(s, n)[a], dernieres(s, n)[b]),
    decreases n,
{
    let d = dernieres(s, n - 1);
    if !revient(s, n - 1) && b == d.len() {
        let i = lemme_dernieres_source(s, n - 1, a);
        assert(!meme_pli(s[n - 1], s[i]));
    } else {
        lemme_dernieres_distinctes(s, n - 1, a, b);
    }
}

proof fn lemme_derniere_occurrence(s: Seq<VueAnnotation>, i: int) -> (j: int)
    requires
        0 <= i < s.len(),
    ensures
        i <= j < s.len(),
        meme_pli(s[j], s[i]),
        !revient(s, j),
    decreases s.len() - i,
{
    if revient(s, i) {
        let k = choose|k: int| i < k < s.len() && meme_pli(#[trigger] s[k], s[i]);
        lemme_derniere_occurrence(s, k)
    } else {
        i
    }
}

/// Reading a record counts every half-move once: no half-move stands twice in
/// the result, and every half-move of a readable line stands in it, with what
/// its last readable line says.
pub proof fn loi_sans_doublon(contenu: Seq<char>)
    ensures
        ({
            let r = annotations_du_csv(contenu);
            let l = texte::lignes(contenu);
            let s = lues(l, l.len() as int);
            &&& forall|a: int, b: int|
                0 <= a < b < r.len() ==> !meme_pli(#[trigger] r[a], #[trigger] r[b])
            &&& forall|i: int|
                0 <= i < s.len() && !revient(s, i) ==> exists|k: int|
                    0 <= k < r.len() && meme_pli(#[trigger] r[k], s[i]) && r[k].perte_cp
                        == s[i].perte_cp && r[k].eval_avant == s[i].eval_avant && r[k].classement
                        == s[i].classement && r[k].joue == s[i].joue
            &&& forall|i: int|
                0 <= i < s.len() ==> exists|k: int|
                    0 <= k < r.len() && meme_pli(#[trigger] r[k], #[trigger] s[i])
        }),
{
    let r = annotations_du_csv(contenu);
    let l = texte::lignes(contenu);
    let s = lues(l, l.len() as int);
    let n = s.len() as int;
    let d = dernieres(s, n);
    assert(forall|k: int| 0 <= k < d.len() ==> #[trigger] r[k] == recollee(d, d[k]));
    assert forall|a: int, b: int| 0 <= a < b < r.len() implies !meme_pli(
        #[trigger] r[a],
        #[trigger] r[b],
    ) by {
        lemme_dernieres_distinctes(s, n, a, b);
    }
    assert forall|i: int| 0 <= i < s.len() && !revient(s, i) implies exists|k: int|
        0 <= k < r.len() && meme_pli(#[trigger] r[k], s[i]) && r[k].perte_cp == s[i].perte_cp
            && r[k].eval_avant == s[i].eval_avant && r[k].classement == s[i].classement
            && r[k].joue == s[i].joue by {
        lemme_dernieres_present(s, n, i);
        let k = d.index_of(s[i]);
        assert(meme_pli(r[k], s[i]));
    }
    assert forall|i: int| 0 <= i < s.len() implies exists|k: int|
        0 <= k < r.len() && meme_pli(#[trigger] r[k], #[trigger] s[i]) by {
        let j = lemme_derniere_occurrence(s, i);
        lemme_dernieres_present(s, n, j);
        let k = d.index_of(s[j]);
        assert(meme_pli(r[k], s[i]));
    }
}

// ---------------------------------------------------------------------------
// Where to go on
// ---------------------------------------------------------------------------

/// Is half-move `pli` of game `partie` graded, or given up?
pub open spec fn pli_fait(
    annotations: Seq<VueAnnotation>,
    partie: u32,
    ignores: Seq<u32>,
    pli: int,
) -> bool {
    ||| exists|i: int|
        0 <= i < annotations.len() && (#[trigger] annotations[i]).partie == partie
            && annotations[i].ply == pli
    ||| exists|i: int| 0 <= i < ignores.len() && #[trigger] ignores[i] == pli
}

/// `pli` is the first half-move, counted from 1, that is neither graded nor
/// given up.
pub open spec fn premier_trou(
    annotations: Seq<VueAnnotation>,
    partie: u32,
    ignores: Seq<u32>,
    pli: int,
) -> bool {
    &&& pli >= 1
    &&& !pli_fait(annotations, partie, ignores, pli)
    &&& forall|k: int| 1 <= k < pli ==> #[trigger] pli_fait(annotations, partie, ignores, k)
}

/// First half-move of the game that is not graded, passing over those given
/// up.
pub fn prochain_pli_hors(annotations: &Vec<Annotation>, partie: u32, ignores: &Vec<u32>) -> (r: u32)
    requires
        annotations@.len() + ignores@.len() < u32::MAX,
    ensures
        premier_trou(vues(annotations@), partie, ignores@, r as int),
{
    let ghost s = vues(annotations@);
    let mut vus: HashSet<u32> = HashSet::new();
    let mut i: usize = 0;
    while i < annotations.len()
        invariant
            i <= annotations@.len(),
            s == vues(annotations@),
            vus@.finite(),
            vus@.len() <= i,
            forall|q: u32|
                vus@.contains(q) <==> exists|m: int|
                    0 <= m < i && (#[trigger] s[m]).partie == partie && s[m].ply == q,
        decreases annotations.len() - i,
    {
        let a: &Annotation = &annotations[i];
        assert(s[i as int] == a@);
        if a.partie == partie {
            vus.insert(a.ply);
        }
        i += 1;
    }
    let mut j: usize = 0;
    while j < ignores.len()
        invariant
            j <= ignores@.len(),
            i == annotations@.len(),
            i == s.len(),
            vus@.finite(),
            vus@.len() <= i + j,
            forall|q: u32|
                vus@.contains(q) <==> (exists|m: int|
                    0 <= m < i && (#[trigger] s[m]).partie == partie && s[m].ply == q) || (exists|
                    m: int,
                | 0 <= m < j && #[trigger] ignores@[m] == q),
        decreases ignores.len() - j,
    {
        vus.insert(ignores[j]);
        j += 1;
    }
    assert(forall|q: u32|
        vus@.contains(q) <==> #[trigger] pli_fait(s, partie, ignores@, q as int));
    let mut pli: u32 = 1;
    while vus.contains(&pli)
        invariant
            1 <= pli,
            vus@.finite(),
            vus@.len() < u32::MAX,
            forall|q: u32|
                vus@.contains(q) <==> #[trigger] pli_fait(s, partie, ignores@, q as int),
            forall|q: u32| 1 <= q < pli ==> vus@.contains(q),
        decreases u32::MAX - pli,
    {
        proof {
            lemme_tiroirs(vus@, pli);
        }
        pli = pli + 1;
    }
    assert forall|k: int| 1 <= k < pli implies #[trigger] pli_fait(s, partie, ignores@, k) by {
        let q = k as u32;
        assert(vus@.contains(q));
        assert(q as int == k);
    }
    pli
}

/// A set that holds 1 to `n` has at least `n` elements.
proof fn lemme_tiroirs(s: Set<u32>, n: u32)
    requires
        s.finite(),
        1 <= n,
        forall|q: u32| 1 <= q <= n ==> s.contains(q),
    ensures
        n <= s.len(),
    decreases n,
{
    if n == 1 {
        assert(s.contains(1));
        if s.len() == 0 {
            assert(s =~= Set::empty());
        }
    } else {
        lemme_tiroirs(s.remove(n), (n - 1) as u32);
    }
}

/// First half-move of the game that is not graded.
pub fn prochain_pli(annotations: &Vec<Annotation>, partie: u32) -> (r: u32)
    requires
        annotations@.len() < u32::MAX,
    ensures
        premier_trou(vues(annotations@), partie, Seq::empty(), r as int),
{
    let ignores: Vec<u32> = Vec::new();
    prochain_pli_hors(annotations, partie, &ignores)
}

/// There is only one first gap.
pub proof fn loi_premier_trou_unique(
    annotations: Seq<VueAnnotation>,
    partie: u32,
    ignores: Seq<u32>,
    p: int,
    q: int,
)
    requires
        premier_trou(annotations, partie, ignores, p),
        premier_trou(annotations, partie, ignores, q),
    ensures
        p == q,
{
    if p < q {
        assert(pli_fait(annotations, partie, ignores, p));
    }
    if q < p {
        assert(pli_fait(annotations, partie, ignores, q));
    }
}

/// Grading the first gap moves the work forward: the next gap lies further on.
pub proof fn loi_trou_avance(
    annotations: Seq<VueAnnotation>,
    partie: u32,
    ignores: Seq<u32>,
    a: VueAnnotation,
    p: int,
    q: int,
)
    requires
        premier_trou(annotations, partie, ignores, p),
        a.partie == partie,
        a.ply == p,
        premier_trou(annotations.push(a), partie, ignores, q),
    ensures
        q > p,
{
    let s = annotations.push(a);
    if q <= p {
        if q == p {
            assert(s[annotations.len() as int].ply == q);
            assert(pli_fait(s, partie, ignores, q));
        } else {
            assert(pli_fait(annotations, partie, ignores, q));
            if exists|i: int|
                0 <= i < annotations.len() && (#[trigger] annotations[i]).partie == partie
                    && annotations[i].ply == q {
                let i = choose|i: int|
                    0 <= i < annotations.len() && (#[trigger] annotations[i]).partie == partie
                        && annotations[i].ply == q;
                assert(s[i].ply == q && s[i].partie == partie);
            }
            assert(pli_fait(s, partie, ignores, q));
        }
    }
}

/// Does one entry agree with the moves of the broadcast game?
pub open spec fn pli_conforme(a: VueAnnotation, san: Seq<Seq<char>>, plis: int) -> bool {
    a.ply >= 1 && a.ply - 1 < plis && a.ply - 1 < san.len() && san[a.ply - 1] == a.joue
}

/// Does the record describe the game that is broadcast: no half-move number
/// zero, none beyond the history, no move that differs from it?
pub fn csv_coherent(annotations: &Vec<Annotation>, san: &Vec<String>, plis: usize) -> (r: bool)
    ensures
        r <==> forall|i: int|
            0 <= i < annotations@.len() ==> pli_conforme(
                (#[trigger] annotations@[i])@,
                texte::vues_textes(san@),
                plis as int,
            ),
{
    let ghost sv = texte::vues_textes(san@);
    let mut i: usize = 0;
    while i < annotations.len()
        invariant
            i <= annotations@.len(),
            sv == texte::vues_textes(san@),
            forall|k: int|
                0 <= k < i ==> pli_conforme((#[trigger] annotations@[k])@, sv, plis as int),
        decreases annotations.len() - i,
    {
        let a: &Annotation = &annotations[i];
        if a.ply == 0 {
            assert(!pli_conforme(annotations@[i as int]@, sv, plis as int));
            return false;
        }
        let k: usize = (a.ply - 1) as usize;
        if k >= plis || k >= san.len() {
            assert(!pli_conforme(annotations@[i as int]@, sv, plis as int));
            return false;
        }
        assert(sv[k as int] == san@[k as int]@);
        if !texte::egal(san[k].as_str(), a.joue.as_str()) {
            assert(!pli_conforme(annotations@[i as int]@, sv, plis as int));
            return false;
        }
        i += 1;
    }
    true
}

// ---------------------------------------------------------------------------
// Moves of a PGN
// ---------------------------------------------------------------------------

/// Is the character an ASCII letter?
pub open spec fn lettre(c: char) -> bool {
    65 <= c as int <= 90 || 97 <= c as int <= 122
}

/// What stands behind the last full stop of a word.
pub open spec fn apres_point(mot: Seq<char>) -> Seq<char> {
    texte::morceaux(mot, '.').last()
}

/// Is the word a move: does it start with a letter?
pub open spec fn est_coup(mot: Seq<char>) -> bool {
    mot.len() > 0 && lettre(mot[0])
}

/// The moves among the first `n` words of a line.
pub open spec fn coups_des_mots(m: Seq<Seq<char>>, n: int) -> Seq<Seq<char>>
    decreases n,
{
    if n <= 0 {
        Seq::empty()
    } else {
        let d = coups_des_mots(m, n - 1);
        let x = apres_point(m[n - 1]);
        if est_coup(x) {
            d.push(x)
        } else {
            d
        }
    }
}

/// The moves on one line: none on an empty line or a tag line.
pub open spec fn coups_de_ligne(l: Seq<char>) -> Seq<Seq<char>> {
    let t = texte::rogne(l);
    if t.len() == 0 || t[0] == '[' {
        Seq::empty()
    } else {
        let m = texte::mots(t);
        coups_des_mots(m, m.len() as int)
    }
}

/// The moves on the first `n` lines.
pub open spec fn coups_des_lignes(l: Seq<Seq<char>>, n: int) -> Seq<Seq<char>>
    decreases n,
{
    if n <= 0 {
        Seq::empty()
    } else {
        coups_des_lignes(l, n - 1) + coups_de_ligne(l[n - 1])
    }
}

/// The moves of a PGN text.
pub open spec fn coups_lus(contenu: Seq<char>) -> Seq<Seq<char>> {
    let l = texte::lignes(contenu);
    coups_des_lignes(l, l.len() as int)
}

/// The SAN moves of a PGN: tag lines, move numbers and the result are left
/// out.
pub fn coups_du_pgn(contenu: &str) -> (r: Vec<String>)
    ensures
        texte::vues_textes(r@) == coups_lus(contenu@),
{
    let l: Vec<Vec<char>> = texte::en_lignes(contenu);
    let ghost lv = texte::lignes(contenu@);
    let mut r: Vec<String> = Vec::new();
    let mut i: usize = 0;
    assert(texte::vues_textes(r@) =~= coups_des_lignes(lv, 0));
    while i < l.len()
        invariant
            i <= l@.len(),
            texte::vues(l@) == lv,
            texte::vues_textes(r@) == coups_des_lignes(lv, i as int),
        decreases l.len() - i,
    {
        assert(texte::vues(l@)[i as int] == l@[i as int]@);
        let t: Vec<char> = texte::rogner(&l[i]);
        let ghost avant = texte::vues_textes(r@);
        if t.len() > 0 && t[0] != '[' {
            let m: Vec<Vec<char>> = texte::en_mots(&t);
            let ghost mv = texte::mots(t@);
            let mut j: usize = 0;
            assert(avant + coups_des_mots(mv, 0) =~= avant);
            while j < m.len()
                invariant
                    j <= m@.len(),
                    texte::vues(m@) == mv,
                    texte::vues_textes(r@) == avant + coups_des_mots(mv, j as int),
                decreases m.len() - j,
            {
                assert(texte::vues(m@)[j as int] == m@[j as int]@);
                let p: Vec<Vec<char>> = texte::decoupe(&m[j], '.');
                proof {
                    texte::lemme_morceaux_non_vide(m@[j as int]@, '.');
                    assert(texte::vues(p@).len() == p@.len());
                    assert(texte::vues(p@)[p@.len() - 1] == p@[p@.len() - 1]@);
                }
                let x: &Vec<char> = &p[p.len() - 1];
                assert(x@ == apres_point(mv[j as int]));
                if x.len() > 0 {
                    let u: u32 = texte::code(x[0]);
                    if (65 <= u && u <= 90) || (97 <= u && u <= 122) {
                        let ghost dedans = texte::vues_textes(r@);
                        r.push(texte::texte(x));
                        assert(texte::vues_textes(r@) =~= dedans.push(x@));
                        assert(texte::vues_textes(r@) =~= avant + coups_des_mots(mv, j as int + 1));
                    }
                }
                j += 1;
            }
        } else {
            assert(avant + coups_de_ligne(lv[i as int]) =~= avant);
        }
        i += 1;
    }
    r
}

// ---------------------------------------------------------------------------
// Summary
// ---------------------------------------------------------------------------

/// Figures of one side.
#[derive(Debug, Clone, Copy, PartialEq, Eq, Structural)]
pub struct StatsCamp {
    /// Graded half-moves of this side.
    pub plis: usize,
    /// Sum of its losses.
    pub somme: i128,
    /// Mean of its losses in tenths, nothing without a graded half-move.
    pub perte_moyenne: Option<i128>,
    pub gaffes: usize,
    pub erreurs: usize,
    pub imprecisions: usize,
    pub meilleurs: usize,
}

/// Figures of the champion in one phase.
#[derive(Debug, Clone, Copy, PartialEq, Eq, Structural)]
pub struct StatsPhase {
    pub phase: Phase,
    pub plis: usize,
    pub somme: i128,
    /// Mean of the losses in tenths, nothing without a graded half-move.
    pub perte_moyenne: Option<i128>,
}

/// Summary of a set of graded half-moves.
pub struct Resume {
    pub champion: StatsCamp,
    pub fantome: StatsCamp,
    /// The champion's figures, one entry per phase in the order of a game.
    pub phases_champion: Vec<StatsPhase>,
}

/// A quotient rounded to the nearest whole number, halves away from zero.
pub open spec fn arrondi(a: int, b: int) -> int {
    if a >= 0 {
        (2 * a + b) / (2 * b)
    } else {
        -((2 * -a + b) / (2 * b))
    }
}

/// The mean of a sum over `n` measures in tenths, nothing when nothing was
/// measured.
pub open spec fn moyenne_de(somme: int, n: int) -> Option<int> {
    if n == 0 {
        None
    } else {
        Some(arrondi(10 * somme, n))
    }
}

/// The mean of the sum of `n` losses, rounded to a tenth and given in tenths;
/// nothing when nothing was measured.
pub fn moyenne(somme: i128, n: usize) -> (r: Option<i128>)
    requires
        -0x8000_0000 * n <= somme <= 0x8000_0000 * n,
    ensures
        match r {
            Some(m) => moyenne_de(somme as int, n as int) == Some(m as int),
            None => moyenne_de(somme as int, n as int) is None,
        },
{
    if n == 0 {
        return None;
    }
    let d: i128 = n as i128;
    if somme >= 0 {
        let a: i128 = 20 * somme + d;
        proof {
            lemme_quotient(a as int, 2 * d as int);
        }
        Some(a / (2 * d))
    } else {
        let a: i128 = 20 * -somme + d;
        proof {
            lemme_quotient(a as int, 2 * d as int);
        }
        Some(-(a / (2 * d)))
    }
}

proof fn lemme_quotient(a: int, b: int)
    requires
        0 <= a,
        0 < b,
    ensures
        0 <= a / b <= a,
{
    assert(0 <= a / b <= a) by (nonlinear_arith)
        requires
            0 <= a,
            0 < b,
    ;
}

/// A mean rounded to a tenth is off by half a tenth at most.
pub proof fn loi_moyenne_au_dixieme(somme: int, n: int)
    requires
        n > 0,
    ensures
        moyenne_de(somme, n) matches Some(m) && -n <= 2 * (n * m - 10 * somme) <= n,
{
    let m = arrondi(10 * somme, n);
    let a = if somme >= 0 {
        20 * somme + n
    } else {
        20 * -somme + n
    };
    let q = a / (2 * n);
    assert(2 * n * q <= a < 2 * n * q + 2 * n) by (nonlinear_arith)
        requires
            n > 0,
            q == a / (2 * n),
    ;
    assert(2 * n * q == 2 * (n * q)) by (nonlinear_arith);
    if somme < 0 {
        assert(n * m == -(n * q)) by (nonlinear_arith)
            requires
                m == -q,
        ;
    }
}

/// How many of the first `n` entries meet the condition.
pub open spec fn compte(s: Seq<VueAnnotation>, n: int, f: spec_fn(VueAnnotation) -> bool) -> int
    decreases n,
{
    if n <= 0 {
        0
    } else {
        compte(s, n - 1, f) + if f(s[n - 1]) {
            1int
        } else {
            0int
        }
    }
}

/// Sum of the losses of those of the first `n` entries that meet the
/// condition.
pub open spec fn somme_pertes(
    s: Seq<VueAnnotation>,
    n: int,
    f: spec_fn(VueAnnotation) -> bool,
) -> int
    decreases n,
{
    if n <= 0 {
        0
    } else {
        somme_pertes(s, n - 1, f) + if f(s[n - 1]) {
            s[n - 1].perte_cp as int
        } else {
            0int
        }
    }
}

/// Is the half-move that of side `camp`?
pub open spec fn du_camp(camp: Seq<char>) -> spec_fn(VueAnnotation) -> bool {
    |a: VueAnnotation| a.camp == camp
}

/// Is the half-move that of side `camp`, with class `c`?
pub open spec fn du_camp_classe(camp: Seq<char>, c: Classement) -> spec_fn(VueAnnotation) -> bool {
    |a: VueAnnotation| a.camp == camp && a.classement == c
}

/// Is the half-move one of the champion in phase `p`?
pub open spec fn champion_en_phase(p: Phase) -> spec_fn(VueAnnotation) -> bool {
    |a: VueAnnotation| a.camp == "champion"@ && a.phase == p
}

/// Is it the mean of a sum over `plis` half-moves?
pub open spec fn moyenne_juste(m: Option<i128>, somme: i128, plis: usize) -> bool {
    match m {
        Some(m) => moyenne_de(somme as int, plis as int) == Some(m as int),
        None => moyenne_de(somme as int, plis as int) is None,
    }
}

/// The figures of a side over the first `n` entries.
pub open spec fn stats_justes(t: StatsCamp, s: Seq<VueAnnotation>, n: int, camp: Seq<char>) -> bool {
    &&& t.plis == compte(s, n, du_camp(camp))
    &&& t.somme == somme_pertes(s, n, du_camp(camp))
    &&& moyenne_juste(t.perte_moyenne, t.somme, t.plis)
    &&& t.gaffes == compte(s, n, du_camp_classe(camp, Classement::Gaffe))
    &&& t.erreurs == compte(s, n, du_camp_classe(camp, Classement::Erreur))
    &&& t.imprecisions == compte(s, n, du_camp_classe(camp, Classement::Imprecision))
    &&& t.meilleurs == compte(s, n, du_camp_classe(camp, Classement::Meilleur))
}

proof fn lemme_compte_borne(s: Seq<VueAnnotation>, n: int, f: spec_fn(VueAnnotation) -> bool)
    requires
        0 <= n,
    ensures
        0 <= compte(s, n, f) <= n,
    decreases n,
{
    if n > 0 {
        lemme_compte_borne(s, n - 1, f);
    }
}

fn stats_camp(annotations: &Vec<Annotation>, camp: &str) -> (r: StatsCamp)
    ensures
        stats_justes(r, vues(annotations@), annotations@.len() as int, camp@),
{
    let ghost s = vues(annotations@);
    let mut t: StatsCamp = StatsCamp {
        plis: 0,
        somme: 0,
        perte_moyenne: None,
        gaffes: 0,
        erreurs: 0,
        imprecisions: 0,
        meilleurs: 0,
    };
    let mut i: usize = 0;
    while i < annotations.len()
        invariant
            i <= annotations@.len(),
            s == vues(annotations@),
            t.plis == compte(s, i as int, du_camp(camp@)),
            t.somme == somme_pertes(s, i as int, du_camp(camp@)),
            t.gaffes == compte(s, i as int, du_camp_classe(camp@, Classement::Gaffe)),
            t.erreurs == compte(s, i as int, du_camp_classe(camp@, Classement::Erreur)),
            t.imprecisions == compte(s, i as int, du_camp_classe(camp@, Classement::Imprecision)),
            t.meilleurs == compte(s, i as int, du_camp_classe(camp@, Classement::Meilleur)),
            -0x8000_0000 * t.plis <= t.somme <= 0x8000_0000 * t.plis,
        decreases annotations.len() - i,
    {
        let a: &Annotation = &annotations[i];
        assert(s[i as int] == a@);
        proof {
            lemme_compte_borne(s, i as int, du_camp(camp@));
            lemme_compte_borne(s, i as int, du_camp_classe(camp@, Classement::Gaffe));
            lemme_compte_borne(s, i as int, du_camp_classe(camp@, Classement::Erreur));
            lemme_compte_borne(s, i as int, du_camp_classe(camp@, Classement::Imprecision));
            lemme_compte_borne(s, i as int, du_camp_classe(camp@, Classement::Meilleur));
        }
        if texte::egal(a.camp.as_str(), camp) {
            t.plis = t.plis + 1;
            t.somme = t.somme + a.perte_cp as i128;
            match a.classement {
                Classement::Gaffe => {
                    t.gaffes = t.gaffes + 1;
                },
                Classement::Erreur => {
                    t.erreurs = t.erreurs + 1;
                },
                Classement::Imprecision => {
                    t.imprecisions = t.imprecisions + 1;
                },
                Classement::Meilleur => {
                    t.meilleurs = t.meilleurs + 1;
                },
                _ => {},
            }
        }
        i += 1;
    }
    t.perte_moyenne = moyenne(t.somme, t.plis);
    t
}

fn stats_phase(annotations: &Vec<Annotation>, phase: Phase) -> (r: StatsPhase)
    ensures
        r.phase == phase,
        r.plis == compte(vues(annotations@), annotations@.len() as int, champion_en_phase(phase)),
        r.somme == somme_pertes(
            vues(annotations@),
            annotations@.len() as int,
            champion_en_phase(phase),
        ),
        moyenne_juste(r.perte_moyenne, r.somme, r.plis),
{
    let ghost s = vues(annotations@);
    let ghost f = champion_en_phase(phase);
    let mut plis: usize = 0;
    let mut somme: i128 = 0;
    let mut i: usize = 0;
    while i < annotations.len()
        invariant
            i <= annotations@.len(),
            s == vues(annotations@),
            f == champion_en_phase(phase),
            plis == compte(s, i as int, f),
            somme == somme_pertes(s, i as int, f),
            -0x8000_0000 * plis <= somme <= 0x8000_0000 * plis,
        decreases annotations.len() - i,
    {
        let a: &Annotation = &annotations[i];
        assert(s[i as int] == a@);
        proof {
            lemme_compte_borne(s, i as int, f);
        }
        if a.phase == phase && texte::egal(a.camp.as_str(), "champion") {
            plis = plis + 1;
            somme = somme + a.perte_cp as i128;
        }
        i += 1;
    }
    StatsPhase { phase, plis, somme, perte_moyenne: moyenne(somme, plis) }
}

/// Summary by side, and by phase for the champion.
pub fn resume(annotations: &Vec<Annotation>) -> (r: Resume)
    ensures
        stats_justes(r.champion, vues(annotations@), annotations@.len() as int, "champion"@),
        stats_justes(r.fantome, vues(annotations@), annotations@.len() as int, "fantome"@),
        r.phases_champion@.len() == 4,
        r.phases_champion@[0].phase == Phase::Ouverture,
        r.phases_champion@[1].phase == Phase::Milieu,
        r.phases_champion@[2].phase == Phase::Transition,
        r.phases_champion@[3].phase == Phase::Finale,
        forall|i: int|
            0 <= i < 4 ==> (#[trigger] r.phases_champion@[i]).plis == compte(
                vues(annotations@),
                annotations@.len() as int,
                champion_en_phase(r.phases_champion@[i].phase),
            ) && r.phases_champion@[i].somme == somme_pertes(
                vues(annotations@),
                annotations@.len() as int,
                champion_en_phase(r.phases_champion@[i].phase),
            ) && moyenne_juste(
                r.phases_champion@[i].perte_moyenne,
                r.phases_champion@[i].somme,
                r.phases_champion@[i].plis,
            ),
{
    let mut phases_champion: Vec<StatsPhase> = Vec::new();
    phases_champion.push(stats_phase(annotations, Phase::Ouverture));
    phases_champion.push(stats_phase(annotations, Phase::Milieu));
    phases_champion.push(stats_phase(annotations, Phase::Transition));
    phases_champion.push(stats_phase(annotations, Phase::Finale));
    Resume {
        champion: stats_camp(annotations, "champion"),
        fantome: stats_camp(annotations, "fantome"),
        phases_champion,
    }
}

/// The phases share out the champion's half-moves: their counts and sums add
/// up to those of the side.
pub proof fn loi_phases_partitionnent(s: Seq<VueAnnotation>, n: int)
    requires
        0 <= n <= s.len(),
    ensures
        compte(s, n, du_camp("champion"@)) == compte(s, n, champion_en_phase(Phase::Ouverture))
            + compte(s, n, champion_en_phase(Phase::Milieu)) + compte(
            s,
            n,
            champion_en_phase(Phase::Transition),
        ) + compte(s, n, champion_en_phase(Phase::Finale)),
        somme_pertes(s, n, du_camp("champion"@)) == somme_pertes(
            s,
            n,
            champion_en_phase(Phase::Ouverture),
        ) + somme_pertes(s, n, champion_en_phase(Phase::Milieu)) + somme_pertes(
            s,
            n,
            champion_en_phase(Phase::Transition),
        ) + somme_pertes(s, n, champion_en_phase(Phase::Finale)),
    decreases n,
{
    if n > 0 {
        loi_phases_partitionnent(s, n - 1);
    }
}

// ---------------------------------------------------------------------------
// A written record is read back
// ---------------------------------------------------------------------------

/// A record without its last line end: the header, then one line per entry.
pub open spec fn corps_csv(s: Seq<VueAnnotation>) -> Seq<char>
    decreases s.len(),
{
    if s.len() == 0 {
        ENTETE_CSV@
    } else {
        corps_csv(s.drop_last()).push('\n') + ligne(s.last())
    }
}

/// A whole record, every line ended.
pub open spec fn fichier_csv(s: Seq<VueAnnotation>) -> Seq<char> {
    corps_csv(s).push('\n')
}

/// The lines of a record.
pub open spec fn lignes_csv(s: Seq<VueAnnotation>) -> Seq<Seq<char>> {
    seq![ENTETE_CSV@] + s.map_values(|a: VueAnnotation| ligne(a))
}

/// Can the record be written line by line and found again?
pub open spec fn ecrivable(s: Seq<VueAnnotation>) -> bool {
    &&& forall|i: int| 0 <= i < s.len() ==> relisible(#[trigger] s[i])
    &&& forall|i: int| 0 <= i < s.len() ==> !texte::contient(ligne(#[trigger] s[i]), '\n')
    &&& forall|i: int, j: int|
        0 <= i < j < s.len() ==> !meme_pli(#[trigger] s[j], #[trigger] s[i])
}

proof fn lemme_premier_de_joint(m: Seq<Seq<char>>, sep: char)
    requires
        m.len() > 0,
        m[0].len() > 0,
    ensures
        texte::joint(m, sep).len() > 0,
        texte::joint(m, sep)[0] == m[0][0],
    decreases m.len(),
{
    if m.len() > 1 {
        lemme_premier_de_joint(m.drop_last(), sep);
        assert(m.drop_last()[0] == m[0]);
    }
}

proof fn lemme_bords_de_ligne(a: VueAnnotation)
    requires
        relisible(a),
    ensures
        ligne(a).len() > 0,
        texte::est_chiffre(ligne(a)[0]),
        97 <= ligne(a).last() as int <= 122,
        !ligne_ignoree(ligne(a)),
{
    let c = champs(a);
    let l = ligne(a);
    texte::lemme_nombre_net(a.partie as int);
    assert(c[0] == texte::decimal_relatif(a.partie as int));
    lemme_premier_de_joint(c, ',');
    assert(c[0] == texte::decimal(a.partie as nat));
    texte::lemme_decimal(a.partie as nat);
    assert(texte::est_chiffre(c[0][0]));
    assert(l == texte::joint(c.drop_last(), ',').push(',') + c[8]);
    reveal_strlit("meilleur");
    reveal_strlit("excellent");
    reveal_strlit("bon");
    reveal_strlit("imprecision");
    reveal_strlit("erreur");
    reveal_strlit("gaffe");
    assert(c[8].len() > 0);
    assert(l.last() == c[8].last());
    texte::lemme_rogne_fixe(l);
    reveal_strlit("partie,");
    if texte::commence_par(l, "partie,"@) {
        assert(l.take(7)[0] == l[0]);
        assert("partie,"@[0] == 'p');
    }
}

proof fn lemme_morceaux_csv(s: Seq<VueAnnotation>)
    requires
        ecrivable(s),
    ensures
        texte::morceaux(corps_csv(s), '\n') == lignes_csv(s),
    decreases s.len(),
{
    reveal_strlit("partie,ply,camp,phase,eval_avant_cp,meilleur,joue,perte_cp,classement");
    if s.len() == 0 {
        assert(!texte::contient(ENTETE_CSV@, '\n'));
        texte::lemme_morceaux_sans(ENTETE_CSV@, '\n');
        assert(lignes_csv(s) =~= seq![ENTETE_CSV@]);
    } else {
        let d = s.drop_last();
        assert(ecrivable(d)) by {
            assert forall|i: int| 0 <= i < d.len() implies relisible(#[trigger] d[i]) by {
                assert(d[i] == s[i]);
            }
            assert forall|i: int| 0 <= i < d.len() implies !texte::contient(
                ligne(#[trigger] d[i]),
                '\n',
            ) by {
                assert(d[i] == s[i]);
            }
            assert forall|i: int, j: int| 0 <= i < j < d.len() implies !meme_pli(
                #[trigger] d[j],
                #[trigger] d[i],
            ) by {
                assert(d[i] == s[i] && d[j] == s[j]);
            }
        }
        lemme_morceaux_csv(d);
        assert(!texte::contient(ligne(s[s.len() - 1]), '\n'));
        texte::lemme_morceaux_ajout(corps_csv(d), ligne(s.last()), '\n');
        assert(lignes_csv(s) =~= lignes_csv(d).push(ligne(s.last())));
    }
}

proof fn lemme_lignes_csv(s: Seq<VueAnnotation>)
    requires
        ecrivable(s),
    ensures
        texte::lignes(fichier_csv(s)) == lignes_csv(s),
{
    lemme_morceaux_csv(s);
    let f = fichier_csv(s);
    assert(f.drop_last() =~= corps_csv(s));
    let m = texte::morceaux(f, '\n');
    assert(m == lignes_csv(s).push(Seq::<char>::empty()));
    assert(m.drop_last() =~= lignes_csv(s));
    let t = lignes_csv(s);
    assert forall|i: int| 0 <= i < t.len() implies texte::sans_retour(#[trigger] t[i]) == t[i] by {
        if i == 0 {
            reveal_strlit("partie,ply,camp,phase,eval_avant_cp,meilleur,joue,perte_cp,classement");
        } else {
            assert(t[i] == ligne(s[i - 1]));
            lemme_bords_de_ligne(s[i - 1]);
        }
    }
    assert(m.drop_last().map_values(|l: Seq<char>| texte::sans_retour(l)) =~= t);
}

proof fn lemme_lues_csv(s: Seq<VueAnnotation>, n: int)
    requires
        ecrivable(s),
        0 <= n <= s.len(),
    ensures
        lues(lignes_csv(s), n + 1) == s.take(n).map_values(|a: VueAnnotation| relue(a)),
    decreases n,
{
    let t = lignes_csv(s);
    let f = |a: VueAnnotation| relue(a);
    if n == 0 {
        assert(t[0] == ENTETE_CSV@);
        reveal_strlit("partie,ply,camp,phase,eval_avant_cp,meilleur,joue,perte_cp,classement");
        reveal_strlit("partie,");
        assert(t[0].take(7) =~= "partie,"@);
        assert(ligne_ignoree(t[0]));
        assert(lues(t, 0) =~= Seq::empty());
        assert(lues(t, 1) == lues(t, 0));
        assert(s.take(0).map_values(f) =~= Seq::empty());
    } else {
        lemme_lues_csv(s, n - 1);
        assert(t[n] == ligne(s[n - 1]));
        lemme_bords_de_ligne(s[n - 1]);
        loi_relecture_ligne(s[n - 1]);
        assert(s.take(n).map_values(f) =~= s.take(n - 1).map_values(f).push(relue(s[n - 1])));
    }
}

proof fn lemme_dernieres_toutes(s: Seq<VueAnnotation>, n: int)
    requires
        0 <= n <= s.len(),
        forall|i: int, j: int|
            0 <= i < j < s.len() ==> !meme_pli(#[trigger] s[j], #[trigger] s[i]),
    ensures
        dernieres(s, n) == s.take(n),
    decreases n,
{
    if n > 0 {
        lemme_dernieres_toutes(s, n - 1);
        assert(!revient(s, n - 1));
        assert(s.take(n) =~= s.take(n - 1).push(s[n - 1]));
    } else {
        assert(s.take(0) =~= Seq::empty());
    }
}

/// A record of distinct half-moves, written line by line under its header, is
/// read back whole: every recorded field returns, in the order of the file,
/// and each evaluation after a move is the one before the next half-move, or
/// the deduced one where no successor is known.
pub proof fn loi_relecture_fichier(s: Seq<VueAnnotation>)
    requires
        ecrivable(s),
    ensures
        annotations_du_csv(fichier_csv(s)) == recollees(
            s.map_values(|a: VueAnnotation| relue(a)),
        ),
{
    let r = s.map_values(|a: VueAnnotation| relue(a));
    lemme_lignes_csv(s);
    lemme_lues_csv(s, s.len() as int);
    assert(s.take(s.len() as int) =~= s);
    assert forall|i: int, j: int| 0 <= i < j < r.len() implies !meme_pli(
        #[trigger] r[j],
        #[trigger] r[i],
    ) by {
        assert(!meme_pli(s[j], s[i]));
    }
    lemme_dernieres_toutes(r, r.len() as int);
    assert(r.take(r.len() as int) =~= r);
}

// ---------------------------------------------------------------------------
// Positions of a game
// ---------------------------------------------------------------------------

/// The positions before each move and after the last, from `fen` on; they stop
/// at the first move that cannot be read or played.
pub open spec fn fens_rejouees(fen: Seq<char>, coups: Seq<Seq<char>>) -> Seq<Seq<char>>
    decreases coups.len(),
{
    if coups.len() == 0 {
        seq![fen]
    } else {
        match position_suivante(fen, coups[0]) {
            Some(f) => seq![fen] + fens_rejouees(f, coups.skip(1)),
            None => seq![fen],
        }
    }
}

/// The position after a move in SAN, if it can be read and played.
pub open spec fn position_suivante(fen: Seq<char>, san: Seq<char>) -> Option<Seq<char>> {
    match echiquier::coup_de_san(fen, san) {
        Some(u) => echiquier::suite_de(fen, u),
        None => None,
    }
}

/// FEN texts of the positions of a game, the starting position first.
pub fn fens_de_coups(coups: &Vec<String>) -> (r: Vec<String>)
    ensures
        texte::vues_textes(r@) == fens_rejouees(echiquier::DEPART@, texte::vues_textes(coups@)),
        1 <= r@.len() <= coups@.len() + 1,
{
    let ghost tous = fens_rejouees(echiquier::DEPART@, texte::vues_textes(coups@));
    let mut fen: String = echiquier::position_initiale();
    let mut r: Vec<String> = Vec::new();
    let mut i: usize = 0;
    assert(texte::vues_textes(coups@).skip(0) =~= texte::vues_textes(coups@));
    assert(texte::vues_textes(r@) + tous =~= tous);
    while i < coups.len()
        invariant
            i <= coups@.len(),
            r@.len() == i,
            tous == fens_rejouees(echiquier::DEPART@, texte::vues_textes(coups@)),
            tous == texte::vues_textes(r@) + fens_rejouees(
                fen@,
                texte::vues_textes(coups@).skip(i as int),
            ),
        decreases coups.len() - i,
    {
        let ghost reste = texte::vues_textes(coups@).skip(i as int);
        let ghost avant = texte::vues_textes(r@);
        let ghost f0 = fen@;
        assert(reste[0] == coups@[i as int]@);
        assert(reste.skip(1) =~= texte::vues_textes(coups@).skip(i as int + 1));
        let suite: Option<String> = match echiquier::coup_du_san(fen.as_str(), coups[i].as_str()) {
            Some(u) => echiquier::apres_coup(fen.as_str(), u.as_str()),
            None => None,
        };
        r.push(fen);
        assert(texte::vues_textes(r@) =~= avant.push(f0));
        match suite {
            None => {
                assert(tous =~= texte::vues_textes(r@));
                return r;
            },
            Some(f) => {
                assert(tous =~= texte::vues_textes(r@) + fens_rejouees(f@, reste.skip(1)));
                fen = f;
            },
        }
        i += 1;
    }
    let ghost avant = texte::vues_textes(r@);
    let ghost f0 = fen@;
    r.push(fen);
    assert(texte::vues_textes(r@) =~= avant.push(f0));
    assert(tous =~= texte::vues_textes(r@));
    r
}

/// Replaying more moves keeps the positions of the moves before them.
pub proof fn loi_fens_prefixe(fen: Seq<char>, a: Seq<Seq<char>>, b: Seq<Seq<char>>)
    ensures
        fens_rejouees(fen, a).is_prefix_of(fens_rejouees(fen, a + b)),
    decreases a.len(),
{
    if a.len() == 0 {
        assert(fens_rejouees(fen, a + b)[0] == fen);
        assert(fens_rejouees(fen, a) =~= fens_rejouees(fen, a + b).take(1));
    } else {
        assert((a + b)[0] == a[0]);
        assert((a + b).skip(1) =~= a.skip(1) + b);
        if let Some(f) = position_suivante(fen, a[0]) {
            loi_fens_prefixe(f, a.skip(1), b);
            let x = fens_rejouees(f, a.skip(1));
            let y = fens_rejouees(f, a.skip(1) + b);
            assert(x =~= y.take(x.len() as int));
            let n = fens_rejouees(fen, a).len() as int;
            assert(fens_rejouees(fen, a) =~= fens_rejouees(fen, a + b).take(n));
        }
    }
}

// ---------------------------------------------------------------------------
// What the grades mean
// ---------------------------------------------------------------------------

/// What White loses and what Black loses between two evaluations is the same
/// difference shared out: with both evaluations cut to two thousand, the loss
/// of one colour less the loss of the other is the drop seen by White, and at
/// most one of them is not zero.
pub proof fn loi_perte_partagee(avant: int, apres: int)
    ensures
        ({
            let a = if avant < -2000 {
                -2000
            } else if avant > 2000 {
                2000
            } else {
                avant
            };
            let b = if apres < -2000 {
                -2000
            } else if apres > 2000 {
                2000
            } else {
                apres
            };
            let blanc = perte_attendue(avant, apres, true);
            let noir = perte_attendue(avant, apres, false);
            &&& blanc - noir == a - b
            &&& blanc >= 0 && noir >= 0
            &&& blanc == 0 || noir == 0
        }),
{
}

/// Losses add up along a line in which the same colour keeps losing: between
/// evaluations inside the bounds, the loss of a whole is the sum of the losses
/// of its parts.
pub proof fn loi_pertes_cumulees(a: int, b: int, c: int, trait_blanc: bool)
    requires
        -2000 <= a <= 2000,
        -2000 <= b <= 2000,
        -2000 <= c <= 2000,
        trait_blanc ==> a >= b >= c,
        !trait_blanc ==> a <= b <= c,
    ensures
        perte_attendue(a, c, trait_blanc) == perte_attendue(a, b, trait_blanc) + perte_attendue(
            b,
            c,
            trait_blanc,
        ),
        perte_attendue(a, c, trait_blanc) == if trait_blanc {
            a - c
        } else {
            c - a
        },
{
}

/// A score in centipawns keeps its value up to the worth of a mate, a mate in
/// `n` moves is worth thirty-two thousand less `n`, and to be mated in `n`
/// moves the opposite.
pub proof fn loi_valeur_des_scores(x: i32, n: int)
    requires
        0 <= n <= 32_000,
    ensures
        -32_000 <= x <= 32_000 ==> cp_attendu(ScoreUci::Cp(x)) == x,
        x > 32_000 ==> cp_attendu(ScoreUci::Cp(x)) == 32_000,
        x < -32_000 ==> cp_attendu(ScoreUci::Cp(x)) == -32_000,
        n > 0 ==> cp_attendu(ScoreUci::Mat(n as i32)) == 32_000 - n,
        cp_attendu(ScoreUci::Mat((-n) as i32)) == n - 32_000,
        x > 32_000 ==> cp_attendu(ScoreUci::Mat(x)) == 0,
        x < -32_000 ==> cp_attendu(ScoreUci::Mat(x)) == 0,
{
}

/// An evaluation is the same number for White and for the side to move when
/// White moves, and its opposite when Black does.
pub proof fn loi_point_de_vue(cp: int)
    ensures
        cote_blancs(cp, true) == cp,
        cote_blancs(cp, true) + cote_blancs(cp, false) == 0,
{
}

/// The class of a move is decided by its loss alone, in hundredths of a pawn,
/// unless the move is the engine's own: under 20 excellent, under 50 good,
/// under 150 inaccurate, under 300 a mistake, from 300 on a blunder.
pub proof fn loi_seuils_des_classes(perte: int)
    ensures
        classement_attendu(perte, true) is Meilleur,
        classement_attendu(perte, false) !is Meilleur,
        classement_attendu(perte, false) is Excellent <==> perte < 20,
        classement_attendu(perte, false) is Bon <==> 20 <= perte < 50,
        classement_attendu(perte, false) is Imprecision <==> 50 <= perte < 150,
        classement_attendu(perte, false) is Erreur <==> 150 <= perte < 300,
        classement_attendu(perte, false) is Gaffe <==> 300 <= perte,
{
}

/// The twelve first half-moves and any board of twenty-eight pieces or more
/// are the opening; later, nine pieces or fewer are an endgame, ten to fourteen
/// the transition to it, and fifteen to twenty-seven the middle game.
pub proof fn loi_seuils_des_phases(ply: int, pieces: int)
    ensures
        phase_attendue(ply, pieces) is Ouverture <==> ply <= 12 || pieces >= 28,
        ply > 12 ==> (phase_attendue(ply, pieces) is Finale <==> pieces <= 9),
        ply > 12 ==> (phase_attendue(ply, pieces) is Transition <==> 10 <= pieces <= 14),
        ply > 12 ==> (phase_attendue(ply, pieces) is Milieu <==> 15 <= pieces <= 27),
{
}

/// White plays the odd half-moves: a champion with White plays the first
/// half-move, and every one an even number of half-moves later.
pub proof fn loi_champion_blanc_aux_impairs(k: int)
    ensures
        camp_attendu(2 * k + 1, true) == "champion"@,
        camp_attendu(2 * k, true) == "fantome"@,
        camp_attendu(2 * k + 1, false) == "fantome"@,
        camp_attendu(2 * k, false) == "champion"@,
{
}

/// Reading a record folds the loss back: between evaluations inside the bounds,
/// what a losing half-move is followed by is found again from the evaluation
/// before it and its loss.
pub proof fn loi_perte_repliee(ply: u32, avant: i32, apres: i32)
    requires
        -2000 <= avant <= 2000,
        -2000 <= apres <= 2000,
        ply % 2 == 1 ==> apres <= avant,
        ply % 2 == 0 ==> apres >= avant,
    ensures
        eval_repliee(
            ply,
            avant,
            perte_attendue(avant as int, apres as int, ply % 2 == 1) as i32,
        ) == apres,
{
}

/// Columns of the record: game, half-move, side, phase, evaluation before,
/// best move, move played, loss, class.
pub proof fn loi_colonnes(a: VueAnnotation)
    ensures
        champs(a).len() == 9,
        champs(a)[0] == texte::decimal(a.partie as nat),
        champs(a)[1] == texte::decimal(a.ply as nat),
        champs(a)[2] == a.camp,
        champs(a)[3] == nom_phase(a.phase),
        champs(a)[4] == texte::decimal_relatif(a.eval_avant as int),
        champs(a)[5] == a.meilleur,
        champs(a)[6] == a.joue,
        champs(a)[7] == texte::decimal_relatif(a.perte_cp as int),
        champs(a)[8] == nom_classement(a.classement),
{
}

/// A line of fewer than nine fields is no graded half-move.
pub proof fn loi_ligne_trop_courte(l: Seq<char>)
    requires
        texte::morceaux(texte::sans_fin(l), ',').len() < 9,
    ensures
        annotation_lue(l) is None,
{
}

/// Consecutive half-moves of a game agree: when the next half-move is known,
/// and known once, the evaluation after the first is the one before the
/// second; nothing else of the first changes.
pub proof fn loi_evaluations_raccordees(s: Seq<VueAnnotation>, a: VueAnnotation, i: int)
    requires
        0 <= i < s.len(),
        s[i].partie == a.partie,
        s[i].ply == a.ply + 1,
        forall|j: int|
            0 <= j < s.len() && j != i ==> !(#[trigger] s[j].partie == a.partie && s[j].ply == a.ply
                + 1),
    ensures
        recollee(s, a).eval_apres == s[i].eval_avant,
        recollee(s, a) == (VueAnnotation { eval_apres: s[i].eval_avant, ..a }),
{
    lemme_eval_connue(s, s.len() as int, a, i);
}

proof fn lemme_eval_connue(s: Seq<VueAnnotation>, n: int, a: VueAnnotation, i: int)
    requires
        0 <= i < n <= s.len(),
        s[i].partie == a.partie,
        s[i].ply == a.ply + 1,
        forall|j: int|
            0 <= j < n && j != i ==> !(#[trigger] s[j].partie == a.partie && s[j].ply == a.ply + 1),
    ensures
        eval_connue(s, n, a.partie, a.ply + 1) == Some(s[i].eval_avant),
    decreases n,
{
    if i < n - 1 {
        assert(!(s[n - 1].partie == a.partie && s[n - 1].ply == a.ply + 1));
        lemme_eval_connue(s, n - 1, a, i);
    }
}

/// A half-move whose next one is unknown keeps the evaluation it was read with.
pub proof fn loi_evaluation_sans_suite(s: Seq<VueAnnotation>, a: VueAnnotation)
    requires
        forall|j: int|
            0 <= j < s.len() ==> !(#[trigger] s[j].partie == a.partie && s[j].ply == a.ply + 1),
    ensures
        recollee(s, a) == a,
{
    lemme_eval_inconnue(s, s.len() as int, a);
}

proof fn lemme_eval_inconnue(s: Seq<VueAnnotation>, n: int, a: VueAnnotation)
    requires
        0 <= n <= s.len(),
        forall|j: int|
            0 <= j < n ==> !(#[trigger] s[j].partie == a.partie && s[j].ply == a.ply + 1),
    ensures
        eval_connue(s, n, a.partie, a.ply + 1) is None,
    decreases n,
{
    if n > 0 {
        assert(!(s[n - 1].partie == a.partie && s[n - 1].ply == a.ply + 1));
        lemme_eval_inconnue(s, n - 1, a);
    }
}

/// Two half-moves have the same key only when they are the same half-move of
/// the same game.
pub proof fn loi_cle_unique(p: u32, a: u32, q: u32, b: u32)
    ensures
        cle_de(p, a) == cle_de(q, b) ==> p == q && a == b,
{
}

/// A move is written with a letter first; the number before its point is
/// dropped.
pub proof fn loi_mot_de_coup(a: Seq<char>, b: Seq<char>)
    requires
        !texte::contient(a, '.'),
        !texte::contient(b, '.'),
    ensures
        apres_point(a.push('.') + b) == b,
        apres_point(b) == b,
        est_coup(b) <==> b.len() > 0 && (('A' as int <= b[0] as int <= 'Z' as int) || ('a' as int
            <= b[0] as int <= 'z' as int)),
{
    texte::lemme_morceaux_ajout(a, b, '.');
    texte::lemme_morceaux_sans(b, '.');
    let m = texte::morceaux(a, '.').push(b);
    assert(m.last() == b);
}

/// A tag line and an empty line hold no move.
pub proof fn loi_ligne_sans_coup(l: Seq<char>)
    requires
        texte::rogne(l).len() == 0 || texte::rogne(l)[0] == '[',
    ensures
        coups_de_ligne(l).len() == 0,
{
}

/// Means are rounded to the nearest, halves away from zero, and the mean of
/// opposite losses is the opposite mean.
pub proof fn loi_arrondi(a: int, b: int, k: int)
    requires
        b > 0,
        a >= 0,
    ensures
        arrondi(-a, b) == -arrondi(a, b),
        2 * a == (2 * k + 1) * b ==> arrondi(a, b) == k + 1,
        a == k * b ==> arrondi(a, b) == k,
{
    vstd::arithmetic::div_mod::lemma_basic_div(b, 2 * b);
    if 2 * a == (2 * k + 1) * b {
        assert((2 * k + 1) * b + b == (k + 1) * (2 * b)) by (nonlinear_arith);
        vstd::arithmetic::div_mod::lemma_div_multiples_vanish(k + 1, 2 * b);
        assert((k + 1) * (2 * b) == (2 * b) * (k + 1)) by (nonlinear_arith);
    }
    if a == k * b {
        assert(2 * (k * b) + b == (2 * b) * k + b) by (nonlinear_arith);
        vstd::arithmetic::div_mod::lemma_div_multiples_vanish_fancy(k, b, 2 * b);
    }
}

/// No half-move, no mean; otherwise tenths of a hundredth of a pawn.
pub proof fn loi_moyenne_exacte(n: int, k: int)
    requires
        n > 0,
        k >= 0,
    ensures
        moyenne_de(n * k, n) == Some(10 * k),
        moyenne_de(k, 0) is None,
{
    assert(10 * (n * k) == (10 * k) * n) by (nonlinear_arith);
    assert(n * k >= 0) by (nonlinear_arith)
        requires
            n > 0,
            k >= 0,
    ;
    loi_arrondi(10 * (n * k), n, 10 * k);
}

/// One more graded half-move of a side adds one to its count and its loss to
/// its sum, and one to the count of its class alone; one of the other side adds
/// nothing.
pub proof fn loi_statistiques_cumulees(
    s: Seq<VueAnnotation>,
    n: int,
    camp: Seq<char>,
    c: Classement,
    p: Phase,
)
    requires
        0 <= n < s.len(),
    ensures
        ({
            let a = s[n];
            let plis = compte(s, n + 1, du_camp(camp)) - compte(s, n, du_camp(camp));
            let somme = somme_pertes(s, n + 1, du_camp(camp)) - somme_pertes(s, n, du_camp(camp));
            let classe = compte(s, n + 1, du_camp_classe(camp, c)) - compte(
                s,
                n,
                du_camp_classe(camp, c),
            );
            let phase = compte(s, n + 1, champion_en_phase(p)) - compte(s, n, champion_en_phase(p));
            &&& a.camp == camp ==> plis == 1 && somme == a.perte_cp
            &&& a.camp != camp ==> plis == 0 && somme == 0 && classe == 0
            &&& a.camp == camp && a.classement == c ==> classe == 1
            &&& a.classement != c ==> classe == 0
            &&& phase == 1 <==> a.camp == "champion"@ && a.phase == p
            &&& phase == 0 <==> !(a.camp == "champion"@ && a.phase == p)
        }),
        compte(s, 0, du_camp(camp)) == 0,
        somme_pertes(s, 0, du_camp(camp)) == 0,
{
}

/// A replay starts at the given position, each position comes from the one
/// before by the move at its place, and it stops early only at a move that
/// cannot be played.
pub proof fn loi_rejeu_pas_a_pas(fen: Seq<char>, coups: Seq<Seq<char>>, k: int)
    requires
        0 <= k < fens_rejouees(fen, coups).len(),
    ensures
        ({
            let f = fens_rejouees(fen, coups);
            &&& f[0] == fen
            &&& f.len() <= coups.len() + 1
            &&& k + 1 < f.len() ==> echiquier::coup_de_san(f[k], coups[k]) is Some
                && echiquier::suite_de(f[k], echiquier::coup_de_san(f[k], coups[k])->0) == Some(
                f[k + 1],
            )
            &&& k + 1 == f.len() && k < coups.len() ==> match echiquier::coup_de_san(f[k], coups[k]) {
                Some(u) => echiquier::suite_de(f[k], u) is None,
                None => true,
            }
        }),
    decreases coups.len(),
{
    if coups.len() > 0 {
        match position_suivante(fen, coups[0]) {
            Some(g) => {
                let f = fens_rejouees(fen, coups);
                let r = fens_rejouees(g, coups.skip(1));
                loi_rejeu_pas_a_pas(g, coups.skip(1), 0);
                assert(f == seq![fen] + r);
                assert(f[1] == r[0]);
                if k > 0 {
                    loi_rejeu_pas_a_pas(g, coups.skip(1), k - 1);
                    assert(f[k] == r[k - 1]);
                    assert(k < coups.len() ==> coups.skip(1)[k - 1] == coups[k]);
                    if k + 1 < f.len() {
                        assert(f[k + 1] == r[k]);
                    }
                }
            },
            None => {},
        }
    }
}

/// What is published of a graded half-move, key by key.
pub proof fn loi_champs_publies(a: VueAnnotation)
    ensures
        champs_publies(a).len() == 9,
        champs_publies(a)[0] == ("ply"@, VueChamp::Entier(a.ply as i64)),
        champs_publies(a)[1] == ("camp"@, VueChamp::Texte(a.camp)),
        champs_publies(a)[2] == ("phase"@, VueChamp::Texte(nom_phase(a.phase))),
        champs_publies(a)[3] == ("eval_avant"@, VueChamp::Entier(a.eval_avant as i64)),
        champs_publies(a)[4] == ("eval_apres"@, VueChamp::Entier(a.eval_apres as i64)),
        champs_publies(a)[5] == ("meilleur"@, VueChamp::Texte(a.meilleur)),
        champs_publies(a)[6] == ("joue"@, VueChamp::Texte(a.joue)),
        champs_publies(a)[7] == ("perte_cp"@, VueChamp::Entier(a.perte_cp as i64)),
        champs_publies(a)[8] == ("classement"@, VueChamp::Texte(nom_classement(a.classement))),
{
}

/// Reading a record keeps, in order, the lines that are half-moves; headers,
/// empty lines and lines that cannot be read are left out.
pub proof fn loi_lignes_lues(l: Seq<Seq<char>>, n: int)
    requires
        0 <= n < l.len(),
    ensures
        ({
            let saute = texte::rogne(l[n]).len() == 0 || texte::commence_par(l[n], "partie,"@)
                || annotation_lue(l[n]) is None;
            &&& saute ==> lues(l, n + 1) == lues(l, n)
            &&& !saute ==> lues(l, n + 1) == lues(l, n).push(annotation_lue(l[n])->0)
        }),
        lues(l, 0).len() == 0,
{
}

/// Of several lines of one half-move the last one stands, at its own place.
pub proof fn loi_dernieres(s: Seq<VueAnnotation>, n: int)
    requires
        0 <= n < s.len(),
    ensures
        (exists|j: int|
            n < j < s.len() && (#[trigger] s[j]).partie == s[n].partie && s[j].ply == s[n].ply)
            ==> dernieres(s, n + 1) == dernieres(s, n),
        (forall|j: int|
            n < j < s.len() ==> !((#[trigger] s[j]).partie == s[n].partie && s[j].ply == s[n].ply))
            ==> dernieres(s, n + 1) == dernieres(s, n).push(s[n]),
        dernieres(s, 0).len() == 0,
{
    if exists|j: int|
        n < j < s.len() && (#[trigger] s[j]).partie == s[n].partie && s[j].ply == s[n].ply {
        let j = choose|j: int|
            n < j < s.len() && (#[trigger] s[j]).partie == s[n].partie && s[j].ply == s[n].ply;
        assert(meme_pli(s[j], s[n]));
    }
}

/// A half-move is done once it is graded in its game or given up.
pub proof fn loi_pli_fait(
    annotations: Seq<VueAnnotation>,
    partie: u32,
    ignores: Seq<u32>,
    i: int,
    pli: int,
)
    ensures
        0 <= i < annotations.len() && annotations[i].partie == partie && annotations[i].ply == pli
            ==> pli_fait(annotations, partie, ignores, pli),
        0 <= i < ignores.len() && ignores[i] == pli ==> pli_fait(annotations, partie, ignores, pli),
        pli_fait(annotations, partie, ignores, pli) ==> (exists|k: int|
            0 <= k < annotations.len() && (#[trigger] annotations[k]).partie == partie
                && annotations[k].ply == pli) || (exists|k: int|
            0 <= k < ignores.len() && #[trigger] ignores[k] == pli),
{
}

/// A graded half-move agrees with a game that has it under the same name, at
/// its place counted from 1.
pub proof fn loi_pli_conforme(a: VueAnnotation, san: Seq<Seq<char>>, plis: int)
    ensures
        pli_conforme(a, san, plis) <==> 1 <= a.ply <= plis && a.ply <= san.len() && san[a.ply - 1]
            == a.joue,
{
}

/// Moves of a text: word after word and line after line, those that are moves.
pub proof fn loi_coups_des_mots(m: Seq<Seq<char>>, l: Seq<Seq<char>>, n: int)
    requires
        0 <= n,
    ensures
        n < m.len() && est_coup(apres_point(m[n])) ==> coups_des_mots(m, n + 1) == coups_des_mots(
            m,
            n,
        ).push(apres_point(m[n])),
        n < m.len() && !est_coup(apres_point(m[n])) ==> coups_des_mots(m, n + 1) == coups_des_mots(
            m,
            n,
        ),
        n < l.len() ==> coups_des_lignes(l, n + 1) == coups_des_lignes(l, n) + coups_de_ligne(l[n]),
        coups_des_mots(m, 0).len() == 0,
        coups_des_lignes(l, 0).len() == 0,
{
}

/// A record is its header and one line per half-move, every line ended.
pub proof fn loi_fichier_ecrit(s: Seq<VueAnnotation>, a: VueAnnotation)
    ensures
        fichier_csv(Seq::empty()) == ENTETE_CSV@.push('\n'),
        fichier_csv(s.push(a)) == (fichier_csv(s) + ligne(a)).push('\n'),
{
    assert(s.push(a).drop_last() =~= s);
    assert(corps_csv(s.push(a)) == corps_csv(s).push('\n') + ligne(a));
}

/// Totals of a side: its half-moves, its losses, its mean, and how many of them
/// fell in each class.
pub proof fn loi_statistiques(t: StatsCamp, s: Seq<VueAnnotation>, n: int, camp: Seq<char>)
    requires
        stats_justes(t, s, n, camp),
    ensures
        t.plis == compte(s, n, |a: VueAnnotation| a.camp == camp),
        t.somme == somme_pertes(s, n, |a: VueAnnotation| a.camp == camp),
        t.gaffes == compte(s, n, |a: VueAnnotation| a.camp == camp && a.classement is Gaffe),
        t.erreurs == compte(s, n, |a: VueAnnotation| a.camp == camp && a.classement is Erreur),
        t.imprecisions == compte(
            s,
            n,
            |a: VueAnnotation| a.camp == camp && a.classement is Imprecision,
        ),
        t.meilleurs == compte(s, n, |a: VueAnnotation| a.camp == camp && a.classement is Meilleur),
        t.plis == 0 ==> t.perte_moyenne is None,
        t.plis > 0 ==> t.perte_moyenne is Some && -t.plis <= 2 * (t.plis * t.perte_moyenne->0 - 10
            * t.somme) <= t.plis,
{
    lemme_compte_pareil(s, n, du_camp(camp), |a: VueAnnotation| a.camp == camp);
    lemme_compte_pareil(
        s,
        n,
        du_camp_classe(camp, Classement::Gaffe),
        |a: VueAnnotation| a.camp == camp && a.classement is Gaffe,
    );
    lemme_compte_pareil(
        s,
        n,
        du_camp_classe(camp, Classement::Erreur),
        |a: VueAnnotation| a.camp == camp && a.classement is Erreur,
    );
    lemme_compte_pareil(
        s,
        n,
        du_camp_classe(camp, Classement::Imprecision),
        |a: VueAnnotation| a.camp == camp && a.classement is Imprecision,
    );
    lemme_compte_pareil(
        s,
        n,
        du_camp_classe(camp, Classement::Meilleur),
        |a: VueAnnotation| a.camp == camp && a.classement is Meilleur,
    );
    if t.plis > 0 {
        loi_moyenne_au_dixieme(t.somme as int, t.plis as int);
    }
}

proof fn lemme_compte_pareil(
    s: Seq<VueAnnotation>,
    n: int,
    f: spec_fn(VueAnnotation) -> bool,
    g: spec_fn(VueAnnotation) -> bool,
)
    requires
        forall|a: VueAnnotation| #[trigger] f(a) == g(a),
    ensures
        compte(s, n, f) == compte(s, n, g),
        somme_pertes(s, n, f) == somme_pertes(s, n, g),
    decreases n,
{
    if n > 0 {
        lemme_compte_pareil(s, n - 1, f, g);
        assert(f(s[n - 1]) == g(s[n - 1]));
    }
}

} // verus!
