//! The web board: one game between a human and the machine, the routes, the
//! opponents on offer and the training curves.
use vstd::prelude::*;

use crate::bots;
use crate::bots::Bot as _;
use crate::checkpoints::MILESTONES_H;
use crate::echiquier;
use crate::jeu;
use crate::jeu::Jeu;
use crate::rencontre;
use crate::rencontre::{Motif, Resultat};
use crate::texte;

verus! {

// ---------------------------------------------------------------------------
// Requests
// ---------------------------------------------------------------------------

/// The text under a key of a JSON object, if the body is such an object and
/// the key holds a text.
pub uninterp spec fn champ_json(corps: Seq<char>, nom: Seq<char>) -> Option<Seq<char>>;

/// Reads a text field of a JSON body with `from_str`, `Value::get` and
/// `Value::as_str` of serde_json. Claimed: the result depends on the two texts
/// alone.
#[verifier::external_body]
pub(crate) fn champ_texte(corps: &str, nom: &str) -> (r: Option<String>)
    ensures
        echiquier::vue_option(r) == champ_json(corps@, nom@),
{
    let v: serde_json::Value = serde_json::from_str(corps).ok()?;
    v.get(nom)?.as_str().map(|s| s.to_string())
}

/// What stands under a key of a JSON object, written as JSON, if the body is
/// such an object and has the key.
pub uninterp spec fn valeur_json(corps: Seq<char>, nom: Seq<char>) -> Option<Seq<char>>;

/// Reads a field of a JSON body with `from_str` and `Value::get` of serde_json,
/// and writes it with the `Display` of `Value`. Claimed: the result depends on
/// the two texts alone.
#[verifier::external_body]
fn champ_brut(corps: &str, nom: &str) -> (r: Option<String>)
    ensures
        echiquier::vue_option(r) == valeur_json(corps@, nom@),
{
    let v: serde_json::Value = serde_json::from_str(corps).ok()?;
    Some(v.get(nom)?.to_string())
}

// ---------------------------------------------------------------------------
// Session
// ---------------------------------------------------------------------------

/// What a session holds.
#[verifier::ext_equal]
pub struct VueSession {
    pub jeu: jeu::VueJeu,
    pub humain_blanc: bool,
    pub opponent: Seq<char>,
    pub san: Seq<Seq<char>>,
    pub fin: Option<(Resultat, Motif)>,
    pub thinking_ms: u64,
    pub graine: u64,
}

/// The one game under way.
pub struct Session {
    pub jeu: Jeu,
    /// Has the human White?
    pub humain_blanc: bool,
    pub opponent: String,
    /// Moves in SAN.
    pub san: Vec<String>,
    pub fin: Option<(Resultat, Motif)>,
    /// Time of the machine's last move.
    pub thinking_ms: u64,
    /// Seed of the machine's next move.
    pub graine: u64,
}

impl View for Session {
    type V = VueSession;

    open spec fn view(&self) -> VueSession {
        VueSession {
            jeu: self.jeu@,
            humain_blanc: self.humain_blanc,
            opponent: self.opponent@,
            san: texte::vues_textes(self.san@),
            fin: self.fin,
            thinking_ms: self.thinking_ms,
            graine: self.graine,
        }
    }
}

/// What holds of every session.
pub open spec fn session_en_regle(s: VueSession) -> bool {
    &&& jeu::deroule(s.jeu)
    &&& s.jeu.fens[0] == echiquier::DEPART@
    &&& s.san.len() == s.jeu.coups.len()
    &&& forall|i: int|
        0 <= i < s.san.len() ==> echiquier::san_de(s.jeu.fens[i], s.jeu.coups[i]) == Some(
            #[trigger] s.san[i],
        )
}

/// A session before its first move.
pub open spec fn session_neuve(opponent: Seq<char>, humain_blanc: bool, graine: u64) -> VueSession {
    VueSession {
        jeu: jeu::jeu_neuf(echiquier::DEPART@),
        humain_blanc,
        opponent,
        san: Seq::empty(),
        fin: None,
        thinking_ms: 0,
        graine,
    }
}

/// How a game stands after a move: no limit on its length here.
pub open spec fn issue(j: jeu::VueJeu) -> Option<(Resultat, Motif)> {
    rencontre::verdict(jeu::etat_de(j.fens.last())->0, jeu::repetitions(j.hachages) as int, 0)
}

/// The session after a move, if the move can be played.
pub open spec fn session_suivante(s: VueSession, uci: Seq<char>) -> Option<VueSession> {
    match jeu::jeu_suivant(s.jeu, uci) {
        Some(j) => Some(
            VueSession {
                jeu: j,
                san: s.san.push(echiquier::san_de(s.jeu.fens.last(), uci)->0),
                fin: match issue(j) {
                    Some(f) => Some(f),
                    None => s.fin,
                },
                ..s
            },
        ),
        None => None,
    }
}

/// Is it the human's turn in a game that goes on?
pub open spec fn au_tour_humain(s: VueSession) -> bool {
    s.fin is None && rencontre::au_trait(s.jeu.fens.last()) == s.humain_blanc
}

/// Why a move of the human is refused.
#[derive(Debug, Clone, Copy, PartialEq, Eq, Structural)]
pub enum RefusCoup {
    /// The body has no text under `uci`.
    ChampManquant,
    PartieTerminee,
    PasVotreTour,
    /// Not written like a move.
    Illisible,
    Illegal,
}

/// What becomes of a move of the human: the move to play, or the refusal.
pub open spec fn coup_demande(s: VueSession, champ: Option<Seq<char>>) -> Result<Seq<char>, RefusCoup> {
    match champ {
        None => Err(RefusCoup::ChampManquant),
        Some(t) => if s.fin is Some {
            Err(RefusCoup::PartieTerminee)
        } else if rencontre::au_trait(s.jeu.fens.last()) != s.humain_blanc {
            Err(RefusCoup::PasVotreTour)
        } else if !echiquier::uci_lisible(t) {
            Err(RefusCoup::Illisible)
        } else {
            match rencontre::coup_jouable(s.jeu.fens.last(), t) {
                Some(u) => Ok(u),
                None => Err(RefusCoup::Illegal),
            }
        },
    }
}

/// The message for a refused move.
pub open spec fn message_refus(r: RefusCoup, t: Seq<char>) -> Seq<char> {
    match r {
        RefusCoup::ChampManquant => "champ \"uci\" manquant"@,
        RefusCoup::PartieTerminee => "la partie est terminée : lancez une nouvelle partie"@,
        RefusCoup::PasVotreTour => "ce n'est pas à vous de jouer"@,
        RefusCoup::Illisible => "coup UCI illisible : "@ + t,
        RefusCoup::Illegal => "coup illégal : "@ + t,
    }
}

impl RefusCoup {
    /// The message for a refused move `t`.
    pub fn message(self, t: &str) -> (r: String)
        ensures
            r@ == message_refus(self, t@),
    {
        match self {
            RefusCoup::ChampManquant => "champ \"uci\" manquant".to_string(),
            RefusCoup::PartieTerminee => "la partie est terminée : lancez une nouvelle partie".to_string(),
            RefusCoup::PasVotreTour => "ce n'est pas à vous de jouer".to_string(),
            RefusCoup::Illisible => {
                let mut v: Vec<char> = texte::caracteres("coup UCI illisible : ");
                texte::ajoute_texte(&mut v, t);
                texte::texte(&v)
            },
            RefusCoup::Illegal => {
                let mut v: Vec<char> = texte::caracteres("coup illégal : ");
                texte::ajoute_texte(&mut v, t);
                texte::texte(&v)
            },
        }
    }

    /// The message for a refused request, with the text that its body names.
    pub fn message_du_corps(self, corps: &str) -> (r: String)
        ensures
            r@ == message_refus(
                self,
                match champ_json(corps@, "uci"@) {
                    Some(t) => t,
                    None => ""@,
                },
            ),
    {
        match champ_texte(corps, "uci") {
            Some(t) => self.message(t.as_str()),
            None => self.message(""),
        }
    }
}

impl Session {
    /// A new game from the starting position. The machine has the first move
    /// exactly when the human has Black.
    pub fn nouvelle(opponent: &str, humain_blanc: bool, graine: u64) -> (r: Session)
        ensures
            r@ == session_neuve(opponent@, humain_blanc, graine),
            session_en_regle(r@),
            au_tour_humain(r@) == humain_blanc,
    {
        let depart: String = echiquier::position_initiale();
        let jeu: Jeu = match Jeu::neuf(depart.as_str()) {
            Some(j) => j,
            None => Jeu { coups: Vec::new(), fens: Vec::new(), hachages: Vec::new() },
        };
        let r: Session = Session {
            jeu,
            humain_blanc,
            opponent: opponent.to_string(),
            san: Vec::new(),
            fin: None,
            thinking_ms: 0,
            graine,
        };
        assert(r@ =~= session_neuve(opponent@, humain_blanc, graine));
        r
    }

    /// Plays a move of either side and notes how the game stands. An illegal
    /// one is refused and changes nothing.
    pub fn jouer(&mut self, uci: &str) -> (r: bool)
        requires
            session_en_regle(old(self)@),
        ensures
            session_en_regle(final(self)@),
            r == (session_suivante(old(self)@, uci@) is Some),
            match session_suivante(old(self)@, uci@) {
                Some(s) => final(self)@ == s,
                None => *final(self) == *old(self),
            },
    {
        let ghost s0 = self@;
        let san: Option<String> = echiquier::san_du_coup(self.jeu.fen().as_str(), uci);
        if !self.jeu.joue(uci) {
            return false;
        }
        let s: String = match san {
            Some(s) => s,
            None => String::new(),
        };
        let ghost sv = s@;
        self.san.push(s);
        let repetitions: usize = self.jeu.repetitions();
        match jeu::examine(self.jeu.fen().as_str()) {
            Some(e) => match rencontre::arbitre(&e, repetitions, 0) {
                Some(f) => {
                    self.fin = Some(f);
                },
                None => {},
            },
            None => {},
        }
        proof {
            let q = session_suivante(s0, uci@)->0;
            assert(self@.san =~= s0.san.push(sv));
            assert(self@ =~= q);
            assert forall|i: int| 0 <= i < q.san.len() implies echiquier::san_de(
                q.jeu.fens[i],
                q.jeu.coups[i],
            ) == Some(#[trigger] q.san[i]) by {
                if i < s0.san.len() {
                    assert(q.jeu.fens[i] == s0.jeu.fens[i]);
                    assert(q.jeu.coups[i] == s0.jeu.coups[i]);
                    assert(q.san[i] == s0.san[i]);
                }
            }
        }
        true
    }

    /// Is White to move?
    pub fn trait_blanc(&self) -> (r: bool)
        requires
            session_en_regle(self@),
        ensures
            r == rencontre::au_trait(self@.jeu.fens.last()),
    {
        match echiquier::lit_position(self.jeu.fen().as_str()) {
            Some(p) => p.trait_blanc,
            None => true,
        }
    }

    /// The human's legal moves in UCI; none when it is not their turn.
    pub fn coups_humain(&self) -> (r: Vec<String>)
        requires
            session_en_regle(self@),
        ensures
            texte::vues_textes(r@) == if au_tour_humain(self@) {
                echiquier::coups_de(self@.jeu.fens.last())->0.map_values(
                    |c: (Seq<char>, bool)| c.0,
                )
            } else {
                Seq::empty()
            },
    {
        let mut r: Vec<String> = Vec::new();
        if self.fin.is_none() && self.trait_blanc() == self.humain_blanc {
            match echiquier::coups_legaux(self.jeu.fen().as_str()) {
                Some(v) => {
                    let ghost cv = echiquier::vues_coups(v@);
                    let ghost tous = cv.map_values(|c: (Seq<char>, bool)| c.0);
                    let mut i: usize = 0;
                    while i < v.len()
                        invariant
                            i <= v@.len(),
                            cv == echiquier::vues_coups(v@),
                            tous == cv.map_values(|c: (Seq<char>, bool)| c.0),
                            texte::vues_textes(r@) == tous.take(i as int),
                        decreases v.len() - i,
                    {
                        let ghost avant = texte::vues_textes(r@);
                        let c: String = v[i].0.clone();
                        assert(cv[i as int].0 == c@);
                        let ghost x = c@;
                        r.push(c);
                        assert(texte::vues_textes(r@) =~= avant.push(x));
                        assert(tous.take(i as int + 1) =~= tous.take(i as int).push(x));
                        i += 1;
                    }
                    assert(tous.take(i as int) =~= tous);
                },
                None => {},
            }
        }
        assert(!au_tour_humain(self@) ==> texte::vues_textes(r@) =~= Seq::empty());
        r
    }

    /// Judges a move of the human, given as the body of the request, without
    /// playing it.
    pub fn juge_coup(&self, corps: &str) -> (r: Result<String, RefusCoup>)
        requires
            session_en_regle(self@),
        ensures
            match r {
                Ok(u) => coup_demande(self@, champ_json(corps@, "uci"@)) == Ok::<
                    Seq<char>,
                    RefusCoup,
                >(u@),
                Err(e) => coup_demande(self@, champ_json(corps@, "uci"@)) == Err::<
                    Seq<char>,
                    RefusCoup,
                >(e),
            },
    {
        let champ: Option<String> = champ_texte(corps, "uci");
        self.juge_champ(champ)
    }

    /// Judges a move of the human, given as the text of its field.
    pub fn juge_champ(&self, champ: Option<String>) -> (r: Result<String, RefusCoup>)
        requires
            session_en_regle(self@),
        ensures
            match r {
                Ok(u) => coup_demande(self@, echiquier::vue_option(champ)) == Ok::<
                    Seq<char>,
                    RefusCoup,
                >(u@),
                Err(e) => coup_demande(self@, echiquier::vue_option(champ)) == Err::<
                    Seq<char>,
                    RefusCoup,
                >(e),
            },
    {
        match champ {
            None => Err(RefusCoup::ChampManquant),
            Some(t) => {
                if self.fin.is_some() {
                    Err(RefusCoup::PartieTerminee)
                } else if self.trait_blanc() != self.humain_blanc {
                    Err(RefusCoup::PasVotreTour)
                } else if !echiquier::est_uci_lisible(t.as_str()) {
                    Err(RefusCoup::Illisible)
                } else {
                    match echiquier::coup_legal(self.jeu.fen().as_str(), t.as_str()) {
                        Some(u) => match echiquier::apres_coup(
                            self.jeu.fen().as_str(),
                            u.as_str(),
                        ) {
                            Some(f) => if echiquier::lit_position(f.as_str()).is_some() {
                                Ok(u)
                            } else {
                                Err(RefusCoup::Illegal)
                            },
                            None => Err(RefusCoup::Illegal),
                        },
                        None => Err(RefusCoup::Illegal),
                    }
                }
            },
        }
    }

    /// The human's half of a request: judges the move and plays it.
    pub fn api_move(&mut self, corps: &str) -> (r: Result<(), RefusCoup>)
        requires
            session_en_regle(old(self)@),
        ensures
            session_en_regle(final(self)@),
            match coup_demande(old(self)@, champ_json(corps@, "uci"@)) {
                Ok(u) => r is Ok && session_suivante(old(self)@, u) == Some(final(self)@),
                Err(e) => r == Err::<(), RefusCoup>(e) && *final(self) == *old(self),
            },
    {
        match self.juge_coup(corps) {
            Err(e) => Err(e),
            Ok(u) => {
                let b: bool = self.jouer(u.as_str());
                Ok(())
            },
        }
    }

    /// Seed for the machine's next move; the following one is the next number.
    /// Nothing, and no change, once the game is over.
    pub fn prend_graine(&mut self) -> (r: Option<u64>)
        ensures
            old(self).fin is Some ==> r is None && *final(self) == *old(self),
            old(self).fin is None ==> r == Some(old(self).graine) && final(self)@ == (VueSession {
                graine: old(self).graine.wrapping_add(1),
                ..old(self)@
            }),
    {
        if self.fin.is_some() {
            return None;
        }
        let g: u64 = self.graine;
        self.graine = g.wrapping_add(1);
        proof {
            let v = VueSession { graine: g.wrapping_add(1), ..old(self)@ };
            assert(self@ =~= v);
        }
        Some(g)
    }

    /// Takes the machine's move and the time it took. `false`, with nothing
    /// but the time noted, when it has none that can be played.
    pub fn recoit_coup(&mut self, coup: Option<String>, ms: u64) -> (r: bool)
        requires
            session_en_regle(old(self)@),
        ensures
            session_en_regle(final(self)@),
            ({
                let s = VueSession { thinking_ms: ms, ..old(self)@ };
                let suite = match coup {
                    Some(u) => session_suivante(s, u@),
                    None => None,
                };
                match suite {
                    Some(t) => r && final(self)@ == t,
                    None => !r && final(self)@ == s,
                }
            }),
    {
        self.thinking_ms = ms;
        let ghost s = VueSession { thinking_ms: ms, ..old(self)@ };
        assert(self@ =~= s);
        match coup {
            Some(u) => self.jouer(u.as_str()),
            None => false,
        }
    }
}

/// A refused move leaves no move to play, and a move that is accepted can
/// always be played.
pub proof fn loi_coup_accepte_joue(s: VueSession, champ: Option<Seq<char>>)
    requires
        coup_demande(s, champ) is Ok,
    ensures
        session_suivante(s, coup_demande(s, champ)->Ok_0) is Some,
        au_tour_humain(s),
{
}

// ---------------------------------------------------------------------------
// Opponents
// ---------------------------------------------------------------------------

/// Name of the network kept after `h` hours.
pub open spec fn id_palier(h: u64) -> Seq<char> {
    "t"@ + texte::decimal(h as nat) + "h"@
}

/// File of the network kept after `h` hours.
pub open spec fn fichier_palier(h: u64) -> Seq<char> {
    "models/chess_t"@ + texte::decimal(h as nat) + "h.bin"@
}

/// File of a network opponent: the promoted network where there is one, else
/// the last one, for `latest`; the kept network for a milestone; none for any
/// other name.
pub open spec fn modele_de(id: Seq<char>, promu: bool) -> Option<Seq<char>> {
    if id == "latest"@ {
        Some(
            if promu {
                "models/chess_best.bin"@
            } else {
                "models/chess_latest.bin"@
            },
        )
    } else {
        modele_palier(id, 0)
    }
}

/// The milestone network of that name, from the `k`-th on.
pub open spec fn modele_palier(id: Seq<char>, k: int) -> Option<Seq<char>>
    decreases 5 - k,
{
    if k >= 5 {
        None
    } else if id == id_palier(MILESTONES_H@[k]) {
        Some(fichier_palier(MILESTONES_H@[k]))
    } else {
        modele_palier(id, k + 1)
    }
}

fn ecrit_palier(debut: &str, h: u64, fin: &str) -> (r: Vec<char>)
    ensures
        r@ == debut@ + texte::decimal(h as nat) + fin@,
{
    let mut v: Vec<char> = texte::caracteres(debut);
    let n: Vec<char> = texte::ecrit_naturel(h);
    texte::ajoute(&mut v, &n);
    texte::ajoute_texte(&mut v, fin);
    v
}

/// File of a network opponent; `promu` tells whether a promoted network is
/// there.
pub fn chemin_modele(id: &str, promu: bool) -> (r: Option<String>)
    ensures
        echiquier::vue_option(r) == modele_de(id@, promu),
{
    if texte::egal(id, "latest") {
        if promu {
            return Some("models/chess_best.bin".to_string());
        }
        return Some("models/chess_latest.bin".to_string());
    }
    let ids: Vec<char> = texte::caracteres(id);
    let mut k: usize = 0;
    while k < 5
        invariant
            k <= 5,
            ids@ == id@,
            id@ != "latest"@,
            modele_palier(id@, 0) == modele_palier(id@, k as int),
        decreases 5 - k,
    {
        let h: u64 = MILESTONES_H[k];
        let nom: Vec<char> = ecrit_palier("t", h, "h");
        if texte::memes(&ids, &nom) {
            let f: Vec<char> = ecrit_palier("models/chess_t", h, "h.bin");
            return Some(texte::texte(&f));
        }
        k += 1;
    }
    None
}

/// Who plays for the machine.
#[derive(Debug, Clone, Copy, PartialEq, Eq, Structural)]
pub enum Adversaire {
    Aleatoire,
    Materiel,
    Reseau,
    Inconnu,
}

/// The kind of an opponent by its name.
pub open spec fn genre(id: Seq<char>) -> Adversaire {
    if id == "random"@ {
        Adversaire::Aleatoire
    } else if id == "material"@ {
        Adversaire::Materiel
    } else if modele_de(id, true) is Some {
        Adversaire::Reseau
    } else {
        Adversaire::Inconnu
    }
}

pub fn adversaire(id: &str) -> (r: Adversaire)
    ensures
        r == genre(id@),
{
    if texte::egal(id, "random") {
        Adversaire::Aleatoire
    } else if texte::egal(id, "material") {
        Adversaire::Materiel
    } else if chemin_modele(id, true).is_some() {
        Adversaire::Reseau
    } else {
        Adversaire::Inconnu
    }
}

/// Whether an opponent is a network does not depend on which files are there.
pub proof fn loi_genre_sans_fichier(id: Seq<char>, promu: bool)
    ensures
        modele_de(id, promu) is Some <==> modele_de(id, true) is Some,
{
}

/// Depth of the search of the opponent on material.
pub const PROFONDEUR_MATERIEL: u32 = 2;

/// The move of an opponent that needs no network: any legal move, or one of
/// the best for a short search on material. Nothing where there is no move or
/// the opponent is another one.
pub fn coup_maison(a: Adversaire, graine: u64, fen: &str) -> (r: Option<String>)
    ensures
        match (a, r) {
            (Adversaire::Aleatoire, Some(u)) => bots::legal(fen@, u@),
            (Adversaire::Materiel, Some(u)) => bots::legal(fen@, u@) && bots::optimal(
                &bots::Materiel {  },
                fen@,
                PROFONDEUR_MATERIEL,
                u@,
            ),
            (Adversaire::Aleatoire, None) | (Adversaire::Materiel, None) => !bots::a_un_coup(fen@),
            (_, Some(_)) => false,
            (_, None) => true,
        },
{
    match a {
        Adversaire::Aleatoire => {
            let mut b: bots::RandomBot = bots::RandomBot::new(graine);
            b.choisit(fen)
        },
        Adversaire::Materiel => {
            let mut b: bots::MaterialBot = bots::MaterialBot::new(graine, PROFONDEUR_MATERIEL);
            b.choisit(fen)
        },
        _ => None,
    }
}

/// What is asked of a network opponent before it moves.
#[derive(Debug, Clone, Copy, PartialEq, Eq, Structural)]
pub enum ChoixBot {
    /// Make a new player from the network that was read.
    Recreer,
    /// Go on with the player of the game.
    Garder,
    /// Nothing to play with.
    Echec,
}

/// A player is made anew when there is none or the network has changed; where
/// the network cannot be read, the player of the game goes on.
pub fn choix_bot(reseau_lu: bool, bot_present: bool, meme_reseau: bool) -> (r: ChoixBot)
    ensures
        r == if reseau_lu {
            if bot_present && meme_reseau {
                ChoixBot::Garder
            } else {
                ChoixBot::Recreer
            }
        } else if bot_present {
            ChoixBot::Garder
        } else {
            ChoixBot::Echec
        },
{
    if reseau_lu {
        if bot_present && meme_reseau {
            ChoixBot::Garder
        } else {
            ChoixBot::Recreer
        }
    } else if bot_present {
        ChoixBot::Garder
    } else {
        ChoixBot::Echec
    }
}

/// The colour that the human asked for.
#[derive(Debug, Clone, Copy, PartialEq, Eq, Structural)]
pub enum CouleurDemandee {
    Blanc,
    Noir,
    Hasard,
}

/// The colour under a field that may be missing: by chance unless it says
/// which.
pub open spec fn couleur_de(champ: Option<Seq<char>>) -> CouleurDemandee {
    match champ {
        Some(c) => if c == "white"@ {
            CouleurDemandee::Blanc
        } else if c == "black"@ {
            CouleurDemandee::Noir
        } else {
            CouleurDemandee::Hasard
        },
        None => CouleurDemandee::Hasard,
    }
}

/// Why a new game is refused before any file is read.
#[derive(Debug, PartialEq, Eq)]
pub enum RefusPartie {
    /// The body has no text under `opponent`.
    ChampManquant,
    /// No opponent of that name.
    Inconnu(String),
}

/// What a request for a new game asks for.
#[derive(Debug)]
pub struct Demande {
    pub opponent: String,
    pub adversaire: Adversaire,
    pub couleur: CouleurDemandee,
}

/// Reads a request for a new game from its body.
pub fn api_new_game(corps: &str) -> (r: Result<Demande, RefusPartie>)
    ensures
        match champ_json(corps@, "opponent"@) {
            None => r == Err::<Demande, RefusPartie>(RefusPartie::ChampManquant),
            Some(id) => match r {
                Ok(d) => genre(id) != Adversaire::Inconnu && d.opponent@ == id && d.adversaire
                    == genre(id) && d.couleur == couleur_de(champ_json(corps@, "color"@)),
                Err(RefusPartie::Inconnu(x)) => genre(id) == Adversaire::Inconnu && x@ == id,
                Err(RefusPartie::ChampManquant) => false,
            },
        },
{
    let opponent: Option<String> = champ_texte(corps, "opponent");
    let couleur: Option<String> = champ_texte(corps, "color");
    demande(opponent, couleur)
}

/// Reads a request for a new game from its fields.
pub fn demande(opponent: Option<String>, couleur: Option<String>) -> (r: Result<
    Demande,
    RefusPartie,
>)
    ensures
        match opponent {
            None => r == Err::<Demande, RefusPartie>(RefusPartie::ChampManquant),
            Some(id) => match r {
                Ok(d) => genre(id@) != Adversaire::Inconnu && d.opponent@ == id@ && d.adversaire
                    == genre(id@) && d.couleur == couleur_de(echiquier::vue_option(couleur)),
                Err(RefusPartie::Inconnu(x)) => genre(id@) == Adversaire::Inconnu && x@ == id@,
                Err(RefusPartie::ChampManquant) => false,
            },
        },
{
    match opponent {
        None => Err(RefusPartie::ChampManquant),
        Some(id) => {
            let a: Adversaire = adversaire(id.as_str());
            match a {
                Adversaire::Inconnu => Err(RefusPartie::Inconnu(id)),
                _ => {
                    let c: CouleurDemandee = match couleur {
                        Some(c) => if texte::egal(c.as_str(), "white") {
                            CouleurDemandee::Blanc
                        } else if texte::egal(c.as_str(), "black") {
                            CouleurDemandee::Noir
                        } else {
                            CouleurDemandee::Hasard
                        },
                        None => CouleurDemandee::Hasard,
                    };
                    Ok(Demande { opponent: id, adversaire: a, couleur: c })
                },
            }
        },
    }
}

/// An opponent on offer: its name, its label, whether it can be played.
#[derive(Debug)]
pub struct Offre {
    pub id: String,
    pub label: String,
    pub available: bool,
}

/// What an offer says.
pub open spec fn vue_offre(o: Offre) -> (Seq<char>, Seq<char>, bool) {
    (o.id@, o.label@, o.available)
}

/// The opponents on offer: chance, material, a network per milestone, and the
/// last network, whose label tells whether it was promoted.
pub open spec fn offres(presents: Seq<bool>, promu: bool, dernier: bool) -> Seq<
    (Seq<char>, Seq<char>, bool),
> {
    seq![
        ("random"@, "Aléatoire"@, true),
        ("material"@, "Matériel (profondeur 2)"@, true),
    ] + Seq::new(
        5,
        |k: int|
            (
                id_palier(MILESTONES_H@[k]),
                "IA — "@ + texte::decimal(MILESTONES_H@[k] as nat) + " h d'entraînement"@,
                presents[k],
            ),
    ) + seq![
        (
            "latest"@,
            if promu {
                "IA — dernier modèle (gating)"@
            } else {
                "IA — dernier modèle"@
            },
            promu || dernier,
        ),
    ]
}

/// Lists the opponents on offer; `presents` tells which milestone files are
/// there.
pub fn checkpoints(presents: &Vec<bool>, promu: bool, dernier: bool) -> (r: Vec<Offre>)
    requires
        presents@.len() == 5,
    ensures
        r@.map_values(|o: Offre| vue_offre(o)) == offres(presents@, promu, dernier),
{
    let ghost f = |o: Offre| vue_offre(o);
    let ghost tout = offres(presents@, promu, dernier);
    let mut r: Vec<Offre> = Vec::new();
    r.push(Offre { id: "random".to_string(), label: "Aléatoire".to_string(), available: true });
    r.push(
        Offre {
            id: "material".to_string(),
            label: "Matériel (profondeur 2)".to_string(),
            available: true,
        },
    );
    assert(r@.map_values(f) =~= tout.take(2));
    let mut k: usize = 0;
    while k < 5
        invariant
            k <= 5,
            presents@.len() == 5,
            f == |o: Offre| vue_offre(o),
            tout == offres(presents@, promu, dernier),
            r@.map_values(f) == tout.take(2 + k as int),
        decreases 5 - k,
    {
        let ghost avant = r@.map_values(f);
        let h: u64 = MILESTONES_H[k];
        let id: Vec<char> = ecrit_palier("t", h, "h");
        let label: Vec<char> = ecrit_palier("IA — ", h, " h d'entraînement");
        let o: Offre = Offre {
            id: texte::texte(&id),
            label: texte::texte(&label),
            available: presents[k],
        };
        let ghost ov = vue_offre(o);
        r.push(o);
        assert(r@.map_values(f) =~= avant.push(ov));
        assert(tout[2 + k as int] == ov);
        assert(tout.take(3 + k as int) =~= tout.take(2 + k as int).push(ov));
        k += 1;
    }
    let ghost avant = r@.map_values(f);
    let label: String = if promu {
        "IA — dernier modèle (gating)".to_string()
    } else {
        "IA — dernier modèle".to_string()
    };
    let o: Offre = Offre { id: "latest".to_string(), label, available: promu || dernier };
    let ghost ov = vue_offre(o);
    r.push(o);
    assert(r@.map_values(f) =~= avant.push(ov));
    assert(r@.map_values(f) =~= tout);
    r
}

// ---------------------------------------------------------------------------
// Routes
// ---------------------------------------------------------------------------

/// Where a request goes.
#[derive(Debug, PartialEq, Eq)]
pub enum Route {
    Etat,
    Adversaires,
    Progression,
    NouvellePartie,
    Coup,
    /// Under `/api/`, but nothing there.
    ApiInconnue,
    /// A file, by the path of the request.
    Statique(String),
    Introuvable,
}

/// Path of a request: what stands before the first question mark.
pub open spec fn chemin(url: Seq<char>) -> Seq<char> {
    texte::morceaux(url, '?')[0]
}

/// The route of a path, as the number of its service: the five services, a
/// path under `/api/` that is none of them, a file, nothing.
pub open spec fn service(c: Seq<char>, est_get: bool, est_post: bool) -> int {
    if c == "/api/state"@ && est_get {
        0
    } else if c == "/api/checkpoints"@ && est_get {
        1
    } else if c == "/api/progress"@ && est_get {
        2
    } else if c == "/api/new-game"@ && est_post {
        3
    } else if c == "/api/move"@ && est_post {
        4
    } else if texte::commence_par(c, "/api/"@) {
        5
    } else if est_get {
        6
    } else {
        7
    }
}

/// Routes a request.
pub fn route(url: &str, est_get: bool, est_post: bool) -> (r: Route)
    ensures
        match r {
            Route::Etat => service(chemin(url@), est_get, est_post) == 0,
            Route::Adversaires => service(chemin(url@), est_get, est_post) == 1,
            Route::Progression => service(chemin(url@), est_get, est_post) == 2,
            Route::NouvellePartie => service(chemin(url@), est_get, est_post) == 3,
            Route::Coup => service(chemin(url@), est_get, est_post) == 4,
            Route::ApiInconnue => service(chemin(url@), est_get, est_post) == 5,
            Route::Statique(c) => service(chemin(url@), est_get, est_post) == 6 && c@ == chemin(
                url@,
            ),
            Route::Introuvable => service(chemin(url@), est_get, est_post) == 7,
        },
{
    let u: Vec<char> = texte::caracteres(url);
    let m: Vec<Vec<char>> = texte::decoupe(&u, '?');
    proof {
        texte::lemme_morceaux_non_vide(url@, '?');
        assert(texte::vues(m@).len() == m@.len());
        assert(texte::vues(m@)[0] == m@[0]@);
    }
    let c: &Vec<char> = &m[0];
    let t: String = texte::texte(c);
    if est_get && texte::egal(t.as_str(), "/api/state") {
        Route::Etat
    } else if est_get && texte::egal(t.as_str(), "/api/checkpoints") {
        Route::Adversaires
    } else if est_get && texte::egal(t.as_str(), "/api/progress") {
        Route::Progression
    } else if est_post && texte::egal(t.as_str(), "/api/new-game") {
        Route::NouvellePartie
    } else if est_post && texte::egal(t.as_str(), "/api/move") {
        Route::Coup
    } else if texte::debute_par(c, "/api/") {
        Route::ApiInconnue
    } else if est_get {
        Route::Statique(t)
    } else {
        Route::Introuvable
    }
}

/// The text without its leading slashes.
pub open spec fn sans_barre(s: Seq<char>) -> Seq<char>
    decreases s.len(),
{
    if s.len() > 0 && s[0] == '/' {
        sans_barre(s.skip(1))
    } else {
        s
    }
}

/// File that a path names, below the folder of the pages.
pub open spec fn relatif(c: Seq<char>) -> Seq<char> {
    if c == "/"@ {
        "index.html"@
    } else if c == "/training"@ {
        "training.html"@
    } else {
        sans_barre(c)
    }
}

/// Does the text hold two full stops in a row, or a backslash?
pub open spec fn remonte(s: Seq<char>) -> bool {
    ||| exists|i: int| 0 <= i < s.len() - 1 && #[trigger] s[i] == '.' && s[i + 1] == '.'
    ||| texte::contient(s, '\\')
}

fn est_remontee(s: &Vec<char>) -> (r: bool)
    ensures
        r == remonte(s@),
{
    let mut i: usize = 0;
    while i < s.len()
        invariant
            i <= s@.len(),
            forall|k: int|
                0 <= k < i ==> #[trigger] s@[k] != '\\' && !(k < s@.len() - 1 && s@[k] == '.' && s@[k
                    + 1] == '.'),
        decreases s.len() - i,
    {
        if s[i] == '\\' {
            assert(texte::contient(s@, '\\'));
            return true;
        }
        if s[i] == '.' && i < s.len() - 1 && s[i + 1] == '.' {
            assert(s@[i as int] == '.');
            return true;
        }
        i += 1;
    }
    false
}

/// File that a path names, below the folder of the pages; none for a path that
/// could leave it.
pub fn fichier_statique(c: &str) -> (r: Option<String>)
    ensures
        echiquier::vue_option(r) == if remonte(relatif(c@)) {
            None
        } else {
            Some(relatif(c@))
        },
{
    let v: Vec<char> = if texte::egal(c, "/") {
        texte::caracteres("index.html")
    } else if texte::egal(c, "/training") {
        texte::caracteres("training.html")
    } else {
        let t: Vec<char> = texte::caracteres(c);
        let mut i: usize = 0;
        assert(t@.skip(0) =~= t@);
        while i < t.len() && t[i] == '/'
            invariant
                i <= t@.len(),
                sans_barre(t@.skip(i as int)) == sans_barre(t@),
            decreases t.len() - i,
        {
            assert(t@.skip(i as int).skip(1) =~= t@.skip(i as int + 1));
            i += 1;
        }
        assert(t@.subrange(i as int, t@.len() as int) =~= t@.skip(i as int));
        texte::extrait(&t, i, t.len())
    };
    assert(v@ == relatif(c@));
    if est_remontee(&v) {
        None
    } else {
        Some(texte::texte(&v))
    }
}

/// A file that is served never has a step upwards in its name.
pub proof fn loi_pas_de_remontee(c: Seq<char>, i: int)
    requires
        !remonte(relatif(c)),
        0 <= i < relatif(c).len(),
    ensures
        relatif(c)[i] != '\\',
        i + 1 < relatif(c).len() ==> !(relatif(c)[i] == '.' && relatif(c)[i + 1] == '.'),
{
}

/// Kind of a file, by what stands behind its last full stop.
pub open spec fn type_de(nom: Seq<char>) -> Seq<char> {
    let ext = texte::morceaux(nom, '.').last();
    if ext == "html"@ {
        "text/html; charset=utf-8"@
    } else if ext == "js"@ {
        "application/javascript; charset=utf-8"@
    } else if ext == "css"@ {
        "text/css; charset=utf-8"@
    } else if ext == "json"@ {
        "application/json; charset=utf-8"@
    } else if ext == "svg"@ {
        "image/svg+xml"@
    } else if ext == "png"@ {
        "image/png"@
    } else if ext == "ico"@ {
        "image/x-icon"@
    } else {
        "application/octet-stream"@
    }
}

/// `Content-Type` of a file.
pub fn content_type(nom: &str) -> (r: &'static str)
    ensures
        r@ == type_de(nom@),
{
    let v: Vec<char> = texte::caracteres(nom);
    let m: Vec<Vec<char>> = texte::decoupe(&v, '.');
    proof {
        texte::lemme_morceaux_non_vide(nom@, '.');
        assert(texte::vues(m@).len() == m@.len());
        assert(texte::vues(m@)[m@.len() - 1] == m@[m@.len() - 1]@);
    }
    let ext: String = texte::texte(&m[m.len() - 1]);
    let e: &str = ext.as_str();
    if texte::egal(e, "html") {
        "text/html; charset=utf-8"
    } else if texte::egal(e, "js") {
        "application/javascript; charset=utf-8"
    } else if texte::egal(e, "css") {
        "text/css; charset=utf-8"
    } else if texte::egal(e, "json") {
        "application/json; charset=utf-8"
    } else if texte::egal(e, "svg") {
        "image/svg+xml"
    } else if texte::egal(e, "png") {
        "image/png"
    } else if texte::egal(e, "ico") {
        "image/x-icon"
    } else {
        "application/octet-stream"
    }
}

// ---------------------------------------------------------------------------
// Training curves
// ---------------------------------------------------------------------------

/// What rows of cells hold.
pub open spec fn vues_lignes(v: Seq<Vec<String>>) -> Seq<Seq<Seq<char>>> {
    v.map_values(|l: Vec<String>| texte::vues_textes(l@))
}

/// The cells of a line: what stands between its commas, trimmed.
pub open spec fn cellules_de(l: Seq<char>) -> Seq<Seq<char>> {
    texte::morceaux(l, ',').map_values(|c: Seq<char>| texte::rogne(c))
}

/// The cells of a table, the first line left out.
pub open spec fn cellules_du(contenu: Seq<char>) -> Seq<Seq<Seq<char>>> {
    let l = texte::lignes(contenu);
    if l.len() == 0 {
        Seq::empty()
    } else {
        l.skip(1).map_values(|x: Seq<char>| cellules_de(x))
    }
}

fn cellules_ligne(l: &Vec<char>) -> (r: Vec<String>)
    ensures
        texte::vues_textes(r@) == cellules_de(l@),
{
    let m: Vec<Vec<char>> = texte::decoupe(l, ',');
    let ghost mv = texte::morceaux(l@, ',');
    let mut r: Vec<String> = Vec::new();
    let mut i: usize = 0;
    while i < m.len()
        invariant
            i <= m@.len(),
            texte::vues(m@) == mv,
            mv == texte::morceaux(l@, ','),
            texte::vues_textes(r@) == cellules_de(l@).take(i as int),
        decreases m.len() - i,
    {
        assert(texte::vues(m@)[i as int] == m@[i as int]@);
        let ghost avant = texte::vues_textes(r@);
        let t: Vec<char> = texte::rogner(&m[i]);
        let s: String = texte::texte(&t);
        let ghost sv = s@;
        r.push(s);
        assert(texte::vues_textes(r@) =~= avant.push(sv));
        assert(cellules_de(l@).take(i as int + 1) =~= cellules_de(l@).take(i as int).push(sv));
        i += 1;
    }
    assert(cellules_de(l@).take(i as int) =~= cellules_de(l@));
    r
}

/// Splits a table into its cells, without its header.
pub fn cellules(contenu: &str) -> (r: Vec<Vec<String>>)
    ensures
        vues_lignes(r@) == cellules_du(contenu@),
{
    let l: Vec<Vec<char>> = texte::en_lignes(contenu);
    let ghost lv = texte::lignes(contenu@);
    let mut r: Vec<Vec<String>> = Vec::new();
    let n: usize = l.len();
    if n == 0 {
        assert(texte::vues(l@).len() == 0);
        assert(vues_lignes(r@) =~= cellules_du(contenu@));
        return r;
    }
    assert(texte::vues(l@).len() == n);
    let mut i: usize = 1;
    assert(vues_lignes(r@) =~= cellules_du(contenu@).take(0));
    while i < n
        invariant
            1 <= i <= n,
            n == l@.len(),
            texte::vues(l@) == lv,
            lv == texte::lignes(contenu@),
            lv.len() == n,
            vues_lignes(r@) == cellules_du(contenu@).take(i as int - 1),
        decreases n - i,
    {
        assert(texte::vues(l@)[i as int] == l@[i as int]@);
        let ghost avant = vues_lignes(r@);
        let c: Vec<String> = cellules_ligne(&l[i]);
        let ghost cv = texte::vues_textes(c@);
        r.push(c);
        assert(vues_lignes(r@) =~= avant.push(cv));
        assert(cellules_du(contenu@)[i as int - 1] == cv);
        assert(cellules_du(contenu@).take(i as int) =~= avant.push(cv));
        i += 1;
    }
    assert(cellules_du(contenu@).take(i as int - 1) =~= cellules_du(contenu@));
    r
}

/// Is the row kept: has it `n` cells or more, and are the first `n` readable?
pub open spec fn gardee(l: Seq<Option<u64>>, n: int) -> bool {
    l.len() >= n && forall|c: int| 0 <= c < n ==> (#[trigger] l[c]) is Some
}

/// What rows of readings hold.
pub open spec fn vues_valeurs(v: Seq<Vec<Option<u64>>>) -> Seq<Seq<Option<u64>>> {
    v.map_values(|l: Vec<Option<u64>>| l@)
}

/// Column `c` of the kept rows among the first `k`.
pub open spec fn colonne_de(v: Seq<Seq<Option<u64>>>, n: int, c: int, k: int) -> Seq<u64>
    decreases k,
{
    if k <= 0 {
        Seq::empty()
    } else {
        let d = colonne_de(v, n, c, k - 1);
        if gardee(v[k - 1], n) {
            d.push(v[k - 1][c]->0)
        } else {
            d
        }
    }
}

/// Column `c` of the kept rows.
pub open spec fn serie(v: Seq<Vec<Option<u64>>>, n: int, c: int) -> Seq<u64> {
    colonne_de(vues_valeurs(v), n, c, v.len() as int)
}

fn est_gardee(l: &Vec<Option<u64>>, n: usize) -> (r: bool)
    ensures
        r == gardee(l@, n as int),
{
    if l.len() < n {
        return false;
    }
    let mut c: usize = 0;
    while c < n
        invariant
            c <= n <= l@.len(),
            forall|k: int| 0 <= k < c ==> (#[trigger] l@[k]) is Some,
        decreases n - c,
    {
        if l[c].is_none() {
            assert(l@[c as int] is None);
            return false;
        }
        c += 1;
    }
    true
}

fn colonne(v: &Vec<Vec<Option<u64>>>, n: usize, c: usize) -> (r: Vec<u64>)
    requires
        c < n,
    ensures
        r@ == serie(v@, n as int, c as int),
{
    let ghost vv = vues_valeurs(v@);
    let mut r: Vec<u64> = Vec::new();
    let mut i: usize = 0;
    while i < v.len()
        invariant
            i <= v@.len(),
            c < n,
            vv == vues_valeurs(v@),
            r@ == colonne_de(vv, n as int, c as int, i as int),
        decreases v.len() - i,
    {
        assert(vv[i as int] == v@[i as int]@);
        if est_gardee(&v[i], n) {
            assert(v@[i as int]@[c as int] is Some);
            match v[i][c] {
                Some(x) => {
                    r.push(x);
                },
                None => {},
            }
        }
        i += 1;
    }
    r
}

/// The labelled events of the kept rows among the first `k`: a readable first
/// cell and a second cell.
pub open spec fn evenements_de(
    v: Seq<Seq<Option<u64>>>,
    t: Seq<Seq<Seq<char>>>,
    k: int,
) -> Seq<(u64, Seq<char>)>
    decreases k,
{
    if k <= 0 {
        Seq::empty()
    } else {
        let d = evenements_de(v, t, k - 1);
        if t[k - 1].len() >= 2 && v[k - 1].len() >= 1 && v[k - 1][0] is Some {
            d.push((v[k - 1][0]->0, t[k - 1][1]))
        } else {
            d
        }
    }
}

/// What events say.
pub open spec fn vues_evenements(e: Seq<(u64, String)>) -> Seq<(u64, Seq<char>)> {
    e.map_values(|x: (u64, String)| (x.0, x.1@))
}

fn evenements(v: &Vec<Vec<Option<u64>>>, t: &Vec<Vec<String>>) -> (r: Vec<(u64, String)>)
    requires
        v@.len() == t@.len(),
    ensures
        vues_evenements(r@) == evenements_de(vues_valeurs(v@), vues_lignes(t@), v@.len() as int),
{
    let ghost vv = vues_valeurs(v@);
    let ghost tv = vues_lignes(t@);
    let mut r: Vec<(u64, String)> = Vec::new();
    let mut i: usize = 0;
    assert(vues_evenements(r@) =~= evenements_de(vv, tv, 0));
    while i < v.len()
        invariant
            i <= v@.len(),
            v@.len() == t@.len(),
            vv == vues_valeurs(v@),
            tv == vues_lignes(t@),
            vues_evenements(r@) == evenements_de(vv, tv, i as int),
        decreases v.len() - i,
    {
        assert(vv[i as int] == v@[i as int]@);
        assert(tv[i as int] == texte::vues_textes(t@[i as int]@));
        if t[i].len() >= 2 && v[i].len() >= 1 {
            if let Some(h) = v[i][0] {
                let ghost avant = vues_evenements(r@);
                let s: String = t[i][1].clone();
                let ghost sv = s@;
                r.push((h, s));
                assert(tv[i as int][1] == sv);
                assert(vues_evenements(r@) =~= avant.push((h, sv)));
            }
        }
        i += 1;
    }
    r
}

/// The training curves, every number as the bits of an `f64`.
#[derive(Debug)]
pub struct Progression {
    pub elapsed_hours: Vec<u64>,
    pub games: Vec<u64>,
    pub loss: Vec<u64>,
    pub pct_vs_random: Vec<u64>,
    pub pct_vs_material: Vec<u64>,
    pub elo_hours: Vec<u64>,
    pub elo: Vec<u64>,
    pub gating_hours: Vec<u64>,
    pub gating_score: Vec<u64>,
    pub gating_promu: Vec<u64>,
    pub events: Vec<(u64, String)>,
}

/// Gathers the training curves from the readings of the four tables: metrics
/// (hours, games, positions, loss, two percentages), Elo (hours, Elo), gating
/// (hours, score, promoted), events (hours, label). A row that is cut short or
/// holds an unreadable number is left out.
pub fn progress(
    metrics: &Vec<Vec<Option<u64>>>,
    elo: &Vec<Vec<Option<u64>>>,
    gating: &Vec<Vec<Option<u64>>>,
    events: &Vec<Vec<Option<u64>>>,
    textes: &Vec<Vec<String>>,
) -> (r: Progression)
    requires
        events@.len() == textes@.len(),
    ensures
        r.elapsed_hours@ == serie(metrics@, 6, 0),
        r.games@ == serie(metrics@, 6, 1),
        r.loss@ == serie(metrics@, 6, 3),
        r.pct_vs_random@ == serie(metrics@, 6, 4),
        r.pct_vs_material@ == serie(metrics@, 6, 5),
        r.elo_hours@ == serie(elo@, 2, 0),
        r.elo@ == serie(elo@, 2, 1),
        r.gating_hours@ == serie(gating@, 3, 0),
        r.gating_score@ == serie(gating@, 3, 1),
        r.gating_promu@ == serie(gating@, 3, 2),
        vues_evenements(r.events@) == evenements_de(
            vues_valeurs(events@),
            vues_lignes(textes@),
            events@.len() as int,
        ),
{
    Progression {
        elapsed_hours: colonne(metrics, 6, 0),
        games: colonne(metrics, 6, 1),
        loss: colonne(metrics, 6, 3),
        pct_vs_random: colonne(metrics, 6, 4),
        pct_vs_material: colonne(metrics, 6, 5),
        elo_hours: colonne(elo, 2, 0),
        elo: colonne(elo, 2, 1),
        gating_hours: colonne(gating, 3, 0),
        gating_score: colonne(gating, 3, 1),
        gating_promu: colonne(gating, 3, 2),
        events: evenements(events, textes),
    }
}

/// The curves of one table stay aligned: every column has as many points.
pub proof fn loi_series_alignees(v: Seq<Seq<Option<u64>>>, n: int, a: int, b: int, k: int)
    ensures
        colonne_de(v, n, a, k).len() == colonne_de(v, n, b, k).len(),
    decreases k,
{
    if k > 0 {
        loi_series_alignees(v, n, a, b, k - 1);
    }
}

/// The state of the training as it is published, every field written as JSON.
pub struct EtatPublie {
    pub trained_secs: String,
    pub games: String,
    pub positions: String,
    pub cycles: String,
}

/// A field as it is published: zero where it is missing.
pub open spec fn ou_zero(champ: Option<Seq<char>>) -> Seq<char> {
    match champ {
        Some(t) => t,
        None => "0"@,
    }
}

/// A field as it is published: zero where it is missing.
pub fn champ_ou_zero(champ: Option<String>) -> (r: String)
    ensures
        r@ == ou_zero(echiquier::vue_option(champ)),
{
    match champ {
        Some(t) => t,
        None => "0".to_string(),
    }
}

/// The state of the training out of the text of its file, each field by itself:
/// one that is missing, or all of them where the text cannot be read, is zero.
pub fn etat_publie(corps: &str) -> (r: EtatPublie)
    ensures
        r.trained_secs@ == ou_zero(valeur_json(corps@, "trained_secs"@)),
        r.games@ == ou_zero(valeur_json(corps@, "games"@)),
        r.positions@ == ou_zero(valeur_json(corps@, "positions"@)),
        r.cycles@ == ou_zero(valeur_json(corps@, "cycles"@)),
{
    EtatPublie {
        trained_secs: champ_ou_zero(champ_brut(corps, "trained_secs")),
        games: champ_ou_zero(champ_brut(corps, "games")),
        positions: champ_ou_zero(champ_brut(corps, "positions")),
        cycles: champ_ou_zero(champ_brut(corps, "cycles")),
    }
}

// ---------------------------------------------------------------------------
// Laws of the server
// ---------------------------------------------------------------------------

/// Routes: the state, the checkpoints and the progress are read, a game and a
/// move are posted; any other path under `/api/` is unknown, any other path is
/// a file to read, and nothing else is accepted.
pub proof fn loi_routes(c: Seq<char>, est_get: bool, est_post: bool)
    requires
        !(est_get && est_post),
    ensures
        c == "/api/state"@ && est_get ==> service(c, est_get, est_post) == 0,
        c == "/api/checkpoints"@ && est_get ==> service(c, est_get, est_post) == 1,
        c == "/api/progress"@ && est_get ==> service(c, est_get, est_post) == 2,
        c == "/api/new-game"@ && est_post ==> service(c, est_get, est_post) == 3,
        c == "/api/move"@ && est_post ==> service(c, est_get, est_post) == 4,
        c == "/api/state"@ && !est_get ==> service(c, est_get, est_post) == 5,
        c == "/api/move"@ && !est_post ==> service(c, est_get, est_post) == 5,
        !texte::commence_par(c, "/api/"@) && est_get ==> service(c, est_get, est_post) == 6,
        !texte::commence_par(c, "/api/"@) && !est_get ==> service(c, est_get, est_post) == 7,
        service(c, est_get, est_post) == 5 ==> texte::commence_par(c, "/api/"@),
{
    reveal_strlit("/api/");
    reveal_strlit("/api/state");
    reveal_strlit("/api/checkpoints");
    reveal_strlit("/api/progress");
    reveal_strlit("/api/new-game");
    reveal_strlit("/api/move");
    assert("/api/state"@.len() == 10 && "/api/checkpoints"@.len() == 16 && "/api/progress"@.len()
        == 13 && "/api/new-game"@.len() == 13 && "/api/move"@.len() == 9);
    assert("/api/state"@.take(5) =~= "/api/"@);
    assert("/api/checkpoints"@.take(5) =~= "/api/"@);
    assert("/api/progress"@.take(5) =~= "/api/"@);
    assert("/api/new-game"@.take(5) =~= "/api/"@);
    assert("/api/move"@.take(5) =~= "/api/"@);
}

/// The path of a request is what stands before the question mark.
pub proof fn loi_chemin(a: Seq<char>, b: Seq<char>)
    requires
        !texte::contient(a, '?'),
        !texte::contient(b, '?'),
    ensures
        chemin(a) == a,
        chemin(a.push('?') + b) == a,
{
    texte::lemme_morceaux_sans(a, '?');
    texte::lemme_morceaux_ajout(a, b, '?');
}

/// Leading slashes are dropped, all of them and nothing else.
pub proof fn loi_sans_barre(s: Seq<char>)
    ensures
        sans_barre(s).len() <= s.len(),
        sans_barre(s) == s.skip(s.len() - sans_barre(s).len()),
        sans_barre(s).len() > 0 ==> sans_barre(s)[0] != '/',
        forall|i: int| 0 <= i < s.len() - sans_barre(s).len() ==> #[trigger] s[i] == '/',
    decreases s.len(),
{
    if s.len() > 0 && s[0] == '/' {
        let d = s.skip(1);
        loi_sans_barre(d);
        let n = sans_barre(d).len();
        assert(d.skip(d.len() - n) =~= s.skip(s.len() - n));
        assert forall|i: int| 0 <= i < s.len() - n implies #[trigger] s[i] == '/' by {
            if i > 0 {
                assert(d[i - 1] == s[i]);
            }
        }
    } else {
        assert(s.skip(0) =~= s);
    }
}

/// Two paths have a page of their own; any other one is the file it names.
pub proof fn loi_fichier_demande(c: Seq<char>)
    ensures
        relatif("/"@) == "index.html"@,
        relatif("/training"@) == "training.html"@,
        c != "/"@ && c != "/training"@ ==> relatif(c) == sans_barre(c),
{
    reveal_strlit("/");
    reveal_strlit("/training");
    assert("/"@.len() == 1 && "/training"@.len() == 9);
}

/// A name climbs out when it holds two points in a row or a backslash, and
/// only then.
pub proof fn loi_remontee(a: Seq<char>, b: Seq<char>, s: Seq<char>)
    ensures
        remonte(a.push('.').push('.') + b),
        remonte(a.push('\\') + b),
        !texte::contient(s, '.') && !texte::contient(s, '\\') ==> !remonte(s),
{
    let t = a.push('.').push('.') + b;
    assert(t[a.len() as int] == '.' && t[a.len() as int + 1] == '.');
    let u = a.push('\\') + b;
    assert(u[a.len() as int] == '\\');
    if !texte::contient(s, '.') {
        assert forall|i: int| 0 <= i < s.len() - 1 implies !(#[trigger] s[i] == '.' && s[i + 1]
            == '.') by {
            assert(s[i] != '.');
        }
    }
}

/// The type of a file comes from its extension.
pub proof fn loi_types(base: Seq<char>)
    ensures
        type_de(base.push('.') + "html"@) == "text/html; charset=utf-8"@,
        type_de(base.push('.') + "js"@) == "application/javascript; charset=utf-8"@,
        type_de(base.push('.') + "css"@) == "text/css; charset=utf-8"@,
        type_de(base.push('.') + "json"@) == "application/json; charset=utf-8"@,
        type_de(base.push('.') + "svg"@) == "image/svg+xml"@,
        type_de(base.push('.') + "png"@) == "image/png"@,
        type_de(base.push('.') + "ico"@) == "image/x-icon"@,
        type_de(base.push('.')) == "application/octet-stream"@,
{
    lemme_extensions();
    lemme_extension(base, "html"@);
    lemme_extension(base, "js"@);
    lemme_extension(base, "css"@);
    lemme_extension(base, "json"@);
    lemme_extension(base, "svg"@);
    lemme_extension(base, "png"@);
    lemme_extension(base, "ico"@);
    let vide = Seq::<char>::empty();
    assert(base.push('.') + vide =~= base.push('.'));
    lemme_extension(base, vide);
}

proof fn lemme_extension(base: Seq<char>, ext: Seq<char>)
    requires
        !texte::contient(ext, '.'),
    ensures
        texte::morceaux(base.push('.') + ext, '.').last() == ext,
{
    texte::lemme_morceaux_ajout(base, ext, '.');
}

proof fn lemme_extensions()
    ensures
        !texte::contient("html"@, '.') && "html"@.len() == 4 && "html"@[0] == 'h',
        !texte::contient("js"@, '.') && "js"@.len() == 2,
        !texte::contient("css"@, '.') && "css"@.len() == 3 && "css"@[0] == 'c',
        !texte::contient("json"@, '.') && "json"@.len() == 4 && "json"@[0] == 'j',
        !texte::contient("svg"@, '.') && "svg"@.len() == 3 && "svg"@[0] == 's',
        !texte::contient("png"@, '.') && "png"@.len() == 3 && "png"@[0] == 'p',
        !texte::contient("ico"@, '.') && "ico"@.len() == 3 && "ico"@[0] == 'i',
{
    reveal_strlit("html");
    reveal_strlit("js");
    reveal_strlit("css");
    reveal_strlit("json");
    reveal_strlit("svg");
    reveal_strlit("png");
    reveal_strlit("ico");
}

/// The side that a player asks for: white, black, or drawn for anything else.
pub proof fn loi_couleur_demandee(c: Seq<char>)
    ensures
        couleur_de(Some("white"@)) is Blanc,
        couleur_de(Some("black"@)) is Noir,
        c != "white"@ && c != "black"@ ==> couleur_de(Some(c)) is Hasard,
        couleur_de(None) is Hasard,
{
    reveal_strlit("white");
    reveal_strlit("black");
    assert("white"@[0] == 'w' && "black"@[0] == 'b');
}

/// Every snapshot is an opponent under its number of hours, and plays with its
/// own file; the latest is the promoted network where there is one.
pub proof fn loi_modeles(k: int)
    requires
        0 <= k < 5,
    ensures
        forall|promu: bool| #[trigger]
            modele_de(id_palier(MILESTONES_H@[k]), promu) == Some(fichier_palier(MILESTONES_H@[k])),
        modele_de("latest"@, true) == Some("models/chess_best.bin"@),
        modele_de("latest"@, false) == Some("models/chess_latest.bin"@),
        id_palier(MILESTONES_H@[k]) == "t"@ + texte::decimal(MILESTONES_H@[k] as nat) + "h"@,
        fichier_palier(MILESTONES_H@[k]) == "models/chess_t"@ + texte::decimal(
            MILESTONES_H@[k] as nat,
        ) + "h.bin"@,
{
    reveal_strlit("latest");
    reveal_strlit("t");
    assert("latest"@[0] == 'l' && "t"@[0] == 't' && "t"@.len() == 1);
    assert(id_palier(MILESTONES_H@[k])[0] == 't');
    lemme_id_palier(MILESTONES_H@[0], MILESTONES_H@[k]);
    lemme_id_palier(MILESTONES_H@[1], MILESTONES_H@[k]);
    lemme_id_palier(MILESTONES_H@[2], MILESTONES_H@[k]);
    lemme_id_palier(MILESTONES_H@[3], MILESTONES_H@[k]);
    lemme_id_palier(MILESTONES_H@[4], MILESTONES_H@[k]);
    reveal_with_fuel(modele_palier, 6);
}

proof fn lemme_id_palier(a: u64, b: u64)
    ensures
        id_palier(a) == id_palier(b) ==> a == b,
{
    reveal_strlit("t");
    reveal_strlit("h");
    let x = id_palier(a);
    let y = id_palier(b);
    let da = texte::decimal(a as nat);
    let db = texte::decimal(b as nat);
    if x == y {
        assert(x.len() == da.len() + 2 && y.len() == db.len() + 2);
        assert(x.subrange(1, 1 + da.len() as int) =~= da);
        assert(y.subrange(1, 1 + db.len() as int) =~= db);
        texte::lemme_decimal(a as nat);
        texte::lemme_decimal(b as nat);
    }
}

/// Opponents: chance, material, a network for every name that has a file, and
/// nobody for any other name.
pub proof fn loi_adversaires(id: Seq<char>)
    ensures
        genre("random"@) is Aleatoire,
        genre("material"@) is Materiel,
        genre("latest"@) is Reseau,
        id != "random"@ && id != "material"@ ==> (genre(id) is Reseau <==> modele_de(id, true) is Some),
        id != "random"@ && id != "material"@ && modele_de(id, true) is None ==> genre(id) is Inconnu,
{
    reveal_strlit("random");
    reveal_strlit("material");
    reveal_strlit("latest");
    assert("random"@[0] == 'r' && "material"@[0] == 'm' && "latest"@[0] == 'l');
}

/// The list of opponents: chance and material always, each snapshot where its
/// file is there, the latest where a network was promoted or saved.
pub proof fn loi_offres(presents: Seq<bool>, promu: bool, dernier: bool, k: int)
    requires
        0 <= k < 5,
    ensures
        ({
            let o = offres(presents, promu, dernier);
            &&& o.len() == 8
            &&& o[0].0 == "random"@ && o[0].2
            &&& o[1].0 == "material"@ && o[1].2
            &&& o[2 + k].0 == id_palier(MILESTONES_H@[k]) && o[2 + k].2 == presents[k]
            &&& o[7].0 == "latest"@ && (o[7].2 <==> promu || dernier)
        }),
{
}

/// Why a move is refused: none was given, the game is over, it is the other
/// side's turn, it cannot be read, it is not legal, in that order; a legal one
/// on one's own turn is accepted.
pub proof fn loi_coup_demande(s: VueSession, t: Seq<char>, p: echiquier::VuePosition)
    requires
        echiquier::position_de(s.jeu.fens.last()) == Some(p),
    ensures
        coup_demande(s, None) == Err::<Seq<char>, RefusCoup>(RefusCoup::ChampManquant),
        ({
            let r = coup_demande(s, Some(t));
            let u = echiquier::coup_nomme(s.jeu.fens.last(), t);
            &&& s.fin is Some <==> r == Err::<Seq<char>, RefusCoup>(RefusCoup::PartieTerminee)
            &&& s.fin is None && p.1 != s.humain_blanc <==> r == Err::<Seq<char>, RefusCoup>(
                RefusCoup::PasVotreTour,
            )
            &&& s.fin is None && p.1 == s.humain_blanc && !echiquier::uci_lisible(t) <==> r == Err::<
                Seq<char>,
                RefusCoup,
            >(RefusCoup::Illisible)
            &&& r is Ok <==> s.fin is None && p.1 == s.humain_blanc && echiquier::uci_lisible(t) && (
            u matches Some(x) && jeu::apres(s.jeu.fens.last(), x) is Some)
            &&& r is Ok ==> Some(r->Ok_0) == u
        }),
{
}

/// A session goes on as its game does: a move is added to the moves and to
/// their names, nothing else of the session changes, and once over it stays
/// over.
pub proof fn loi_session_suivante(s: VueSession, uci: Seq<char>)
    requires
        session_en_regle(s),
        session_suivante(s, uci) is Some,
    ensures
        ({
            let r = session_suivante(s, uci)->0;
            &&& r.jeu.coups == s.jeu.coups.push(uci)
            &&& s.jeu.fens.is_prefix_of(r.jeu.fens)
            &&& Some(r.jeu.fens.last()) == echiquier::suite_de(s.jeu.fens.last(), uci)
            &&& r.san.len() == s.san.len() + 1 && s.san.is_prefix_of(r.san)
            &&& r.humain_blanc == s.humain_blanc && r.opponent == s.opponent && r.graine == s.graine
                && r.thinking_ms == s.thinking_ms
            &&& s.fin is Some ==> r.fin is Some
            &&& s.fin is None ==> r.fin == rencontre::verdict(
                jeu::etat_de(r.jeu.fens.last())->0,
                jeu::repetitions(r.jeu.hachages) as int,
                0,
            )
        }),
{
}

/// A session starts at the start, nothing played, not over.
pub proof fn loi_session_neuve(opponent: Seq<char>, humain_blanc: bool, graine: u64)
    ensures
        ({
            let s = session_neuve(opponent, humain_blanc, graine);
            &&& s.jeu == jeu::jeu_neuf(echiquier::DEPART@)
            &&& s.san.len() == 0 && s.fin is None && s.thinking_ms == 0
            &&& s.humain_blanc == humain_blanc && s.opponent == opponent && s.graine == graine
        }),
{
}

/// The human plays on their own turn, until the game is over.
pub proof fn loi_tour_humain(s: VueSession, p: echiquier::VuePosition)
    requires
        echiquier::position_de(s.jeu.fens.last()) == Some(p),
    ensures
        au_tour_humain(s) <==> s.fin is None && p.1 == s.humain_blanc,
{
}

/// A column keeps, in order, the cells of the lines whose first cells can all
/// be read; a shorter line or one with a cell that cannot be read is left out.
pub proof fn loi_colonne(v: Seq<Seq<Option<u64>>>, n: int, c: int, k: int)
    requires
        0 <= k < v.len(),
        0 <= c < n,
    ensures
        v[k].len() < n ==> colonne_de(v, n, c, k + 1) == colonne_de(v, n, c, k),
        (exists|i: int| 0 <= i < n && i < v[k].len() && (#[trigger] v[k][i]) is None) ==> colonne_de(
            v,
            n,
            c,
            k + 1,
        ) == colonne_de(v, n, c, k),
        v[k].len() >= n && (forall|i: int| 0 <= i < n ==> (#[trigger] v[k][i]) is Some)
            ==> colonne_de(v, n, c, k + 1) == colonne_de(v, n, c, k).push(v[k][c]->0),
        colonne_de(v, n, c, 0).len() == 0,
{
}

/// Events keep, in order, the lines of two cells or more whose first cell is a
/// number.
pub proof fn loi_evenements(v: Seq<Seq<Option<u64>>>, t: Seq<Seq<Seq<char>>>, k: int)
    requires
        0 <= k < v.len(),
        0 <= k < t.len(),
    ensures
        t[k].len() >= 2 && v[k].len() >= 1 && v[k][0] is Some ==> evenements_de(v, t, k + 1)
            == evenements_de(v, t, k).push((v[k][0]->0, t[k][1])),
        t[k].len() < 2 || v[k].len() == 0 ==> evenements_de(v, t, k + 1) == evenements_de(v, t, k),
        v[k].len() >= 1 && v[k][0] is None ==> evenements_de(v, t, k + 1) == evenements_de(v, t, k),
        evenements_de(v, t, 0).len() == 0,
{
}

/// A table leaves its header out, and trims each of its cells.
pub proof fn loi_cellules(contenu: Seq<char>, k: int)
    requires
        0 <= k,
        k + 1 < texte::lignes(contenu).len(),
    ensures
        cellules_du(contenu).len() == texte::lignes(contenu).len() - 1,
        cellules_du(contenu)[k] == cellules_de(texte::lignes(contenu)[k + 1]),
        forall|l: Seq<char>, i: int|
            0 <= i < texte::morceaux(l, ',').len() ==> #[trigger] cellules_de(l)[i] == texte::rogne(
                texte::morceaux(l, ',')[i],
            ),
{
}

/// A number that was not given is zero.
pub proof fn loi_ou_zero(t: Seq<char>)
    ensures
        ou_zero(None) == "0"@,
        ou_zero(Some(t)) == t,
{
}

/// What a refused move is answered.
pub proof fn loi_messages_de_refus(t: Seq<char>)
    ensures
        message_refus(RefusCoup::ChampManquant, t) == "champ \"uci\" manquant"@,
        message_refus(RefusCoup::PartieTerminee, t)
            == "la partie est terminée : lancez une nouvelle partie"@,
        message_refus(RefusCoup::PasVotreTour, t) == "ce n'est pas à vous de jouer"@,
        message_refus(RefusCoup::Illisible, t) == "coup UCI illisible : "@ + t,
        message_refus(RefusCoup::Illegal, t) == "coup illégal : "@ + t,
{
}

/// A player is made anew from a network that was read, unless it is the one it
/// plays with; without a network the player there is goes on.
pub proof fn loi_choix_du_joueur(lu: bool, present: bool, meme: bool, r: ChoixBot)
    requires
        call_ensures(choix_bot, (lu, present, meme), r),
    ensures
        r is Recreer <==> lu && !(present && meme),
        r is Echec <==> !lu && !present,
        r is Garder <==> present && (!lu || meme),
{
}

} // verus!
