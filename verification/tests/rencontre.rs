//! Match games, their PGN, and the grading of a match as it is played.
use echec::arbitre::{coups_du_pgn, Classement, Phase, ScoreUci};
use echec::echiquier::DEPART;
use echec::jeu::{examine, Jeu};
use echec::pgn::{chemin_pgn, date_civile, date_pgn, ecrit_pgn, pv_en_san, EntetePgn};
use echec::rencontre::{
    arbitre, champion_a_les_blancs, demi_points_champion, garde_tt, vers_blancs, GardeTable, Motif,
    Partie, Reponse, Resultat,
};
use echec::suivi::{
    annote, assemble_live, change_de_partie, examen, garde_textes, lit_live, recoit, source_de_rattrapage, tour, Analyse, Examen, Live,
    Memoire, ReponseMoteur, Suite, Tour,
};
use shakmaty::fen::Fen;
use shakmaty::{Chess, EnPassantMode, Position};

fn coup(t: &str) -> Reponse {
    Reponse::Coup { texte: t.to_string(), score: None, ms: 10 }
}

fn joue_tout(p: &mut Partie, coups: &[&str]) {
    for c in coups {
        assert!(p.avance(&coup(c)), "{c}");
    }
}

fn textes(v: &[&str]) -> Vec<String> {
    v.iter().map(|s| s.to_string()).collect()
}

#[test]
fn depart_des_parties() {
    let attendu = Fen::from_position(Chess::default(), EnPassantMode::Legal).to_string();
    assert_eq!(DEPART, attendu);
    assert_eq!(Partie::neuve(true).jeu.fens, [attendu.clone()]);
    assert_eq!(Chess::default().legal_moves().len(), 20);
    assert_eq!(examine(&attendu).map(|e| (e.n_coups, e.echec, e.numero)), Some((20, false, 1)));
    assert!(examine("pas une position").is_none());
    assert!(Jeu::neuf("pas une position").is_none());
}

#[test]
fn mat_du_berger() {
    let mut p = Partie::neuve(true);
    assert!(p.trait_blanc() && p.tour_champion());
    joue_tout(&mut p, &["e2e4", "e7e5", "d1h5", "b8c6", "f1c4", "g8f6", "h5f7"]);
    assert_eq!(p.san, ["e4", "e5", "Qh5", "Nc6", "Bc4", "Nf6", "Qxf7#"]);
    assert_eq!(p.fin, Some((Resultat::Blancs, Motif::Mat)));
    assert_eq!((p.temps_champion_ms, p.temps_fantome_ms), (40, 30));
    assert_eq!(demi_points_champion(true, Resultat::Blancs), 2);
    assert_eq!(demi_points_champion(false, Resultat::Blancs), 0);
    assert_eq!(demi_points_champion(false, Resultat::Nulle), 1);
}

#[test]
fn trois_repetitions() {
    let mut p = Partie::neuve(false);
    let tour = ["g1f3", "g8f6", "f3g1", "f6g8"];
    joue_tout(&mut p, &tour);
    assert_eq!(p.fin, None);
    joue_tout(&mut p, &tour);
    assert_eq!(p.fin, Some((Resultat::Nulle, Motif::TroisRepetitions)));
    assert_eq!(p.jeu.repetitions(), 3);
}

#[test]
fn forfaits_du_moteur() {
    let mut p = Partie::neuve(true);
    assert!(!p.avance(&coup("e2e5")), "le champion ne forfaite pas");
    assert!(!p.avance(&Reponse::Erreur));
    assert_eq!(p.fin, None);
    joue_tout(&mut p, &["e2e4"]);
    assert!(p.avance(&coup("e7e4")));
    assert_eq!(p.fin, Some((Resultat::Blancs, Motif::CoupIllegal)));
    assert_eq!(p.temps_fantome_ms, 10);
    let mut p = Partie::neuve(false);
    assert!(p.avance(&Reponse::Erreur));
    assert_eq!(p.fin, Some((Resultat::Noirs, Motif::MoteurEnErreur)));
    assert_eq!(demi_points_champion(false, Resultat::Noirs), 2);
    assert_eq!(Motif::MoteurEnErreur.nom(), "forfait (moteur en erreur)");
}

#[test]
fn jauges_vues_des_blancs() {
    let mut p = Partie::neuve(true);
    let r = |t: &str, s: f32| Reponse::Coup { texte: t.to_string(), score: Some(s.to_bits()), ms: 1 };
    assert!(p.avance(&r("e2e4", 0.25)));
    assert!(p.avance(&r("e7e5", 0.5)));
    assert_eq!(p.v_champion.map(f32::from_bits), Some(0.25));
    assert_eq!(p.v_fantome.map(f32::from_bits), Some(-0.5));
    let v = |x: f32, b: bool| f32::from_bits(vers_blancs(x.to_bits(), b));
    assert_eq!(v(2.0, true), 1.0);
    assert_eq!(v(2.0, false), -1.0);
    assert_eq!(v(f32::NEG_INFINITY, true), -1.0);
    assert_eq!(v(0.75, false), -0.75);
    assert!(v(f32::NAN, true).is_nan());
}

#[test]
fn verdicts_de_l_arbitre() {
    let v = |fen: &str, n: usize, plis: usize| arbitre(&examine(fen).unwrap(), n, plis);
    assert_eq!(v("7k/5Q2/6K1/8/8/8/8/8 b - - 0 1", 1, 9), Some((Resultat::Nulle, Motif::Pat)));
    assert_eq!(v("7k/6Q1/6K1/8/8/8/8/8 b - - 0 1", 3, 999), Some((Resultat::Blancs, Motif::Mat)));
    assert_eq!(
        v("7k/8/6K1/8/8/8/8/6N1 w - - 0 1", 1, 9),
        Some((Resultat::Nulle, Motif::MaterielInsuffisant))
    );
    let tours = "7k/8/6K1/8/8/8/8/r5R1 w - - ";
    assert_eq!(
        v(&format!("{tours}100 80"), 1, 9),
        Some((Resultat::Nulle, Motif::CinquanteCoups))
    );
    assert_eq!(v(&format!("{tours}99 80"), 1, 512), Some((Resultat::Nulle, Motif::Plafond)));
    assert_eq!(v(&format!("{tours}99 80"), 2, 511), None);
    assert!(champion_a_les_blancs(0) && !champion_a_les_blancs(1));
    assert_eq!(garde_tt(5, Some(5)), GardeTable::Acceptee);
    assert_eq!(garde_tt(6, Some(5)), GardeTable::Refusee);
    assert_eq!(garde_tt(6, None), GardeTable::NonMesuree);
}

#[test]
fn dates_du_pgn() {
    assert_eq!(date_civile(0), (1970, 1, 1));
    assert_eq!(date_civile(11_016), (2000, 2, 29));
    assert_eq!(date_civile(20_514), (2026, 3, 2));
    assert_eq!(date_pgn(0), "1970.01.01");
    assert_eq!(date_pgn(951_782_400), "2000.02.29");
    assert_eq!(date_pgn(951_868_799), "2000.02.29");
    assert_eq!(date_pgn(951_868_800), "2000.03.01");
    assert_eq!(date_pgn(4_107_542_400), "2100.03.01");
}

#[test]
fn ligne_principale_numerotee() {
    let d = DEPART;
    assert_eq!(pv_en_san(d, &textes(&["e2e4", "e7e5", "g1f3"])), "1.e4 e5 2.Nf3");
    assert_eq!(pv_en_san(d, &textes(&["e2e4", "e7e4", "g1f3"])), "1.e4");
    assert_eq!(pv_en_san(d, &vec![]), "");
    let noirs = "rnbqkbnr/pppppppp/8/8/4P3/8/PPPP1PPP/RNBQKBNR b KQkq - 0 1";
    assert_eq!(pv_en_san(noirs, &textes(&["e7e5", "g1f3"])), "1...e5 2.Nf3");
}

fn entete(resultat: Resultat, motif: Motif) -> EntetePgn {
    EntetePgn {
        round: 3,
        champion_blanc: false,
        elo: 2700,
        date: "2026.07.01".to_string(),
        movetime_champion: 1000,
        movetime_adversaire: 500,
        threads: 4,
        tt_log2: 22,
        syzygy: String::new(),
        seed: 42,
        resultat,
        motif,
    }
}

#[test]
fn pgn_ecrit_puis_relu() {
    let san = textes(&["e4", "e5", "Qh5", "Nc6", "Bc4", "Nf6", "Qxf7#"]);
    let t = ecrit_pgn(&entete(Resultat::Blancs, Motif::Mat), &san);
    assert!(t.contains("[Round \"3\"]\n"));
    assert!(t.contains("[White \"Fantôme de Deep Blue (Stockfish UCI_Elo 2700)\"]\n"));
    assert!(t.contains("[Black \"Champion\"]\n"));
    assert!(t.contains("[Result \"1-0\"]\n"));
    assert!(t.ends_with("\n\n1. e4 e5 2. Qh5 Nc6 3. Bc4 Nf6 4. Qxf7# 1-0\n"));
    assert_eq!(coups_du_pgn(&t), san);
    assert_eq!(chemin_pgn("match", 7), "match/partie_007.pgn");
    assert_eq!(chemin_pgn("m", 1234), "m/partie_1234.pgn");
}

#[test]
fn pgn_plie_a_quatre_vingts_colonnes() {
    let tour = ["Nf3", "Nf6", "Ng1", "Ng8"];
    let san: Vec<String> = (0..60).map(|i| tour[i % 4].to_string()).collect();
    let t = ecrit_pgn(&entete(Resultat::Nulle, Motif::Plafond), &san);
    let corps = t.split("\n\n").nth(1).unwrap();
    assert!(corps.lines().count() > 3);
    assert!(corps.lines().all(|l| l.len() <= 80 + " 1/2-1/2".len()));
    assert!(corps.ends_with("1/2-1/2\n"));
    assert_eq!(coups_du_pgn(&t), san);
}

fn live(partie: u32, coups: &[&str], termine: bool) -> Live {
    let mut p = Partie::neuve(true);
    joue_tout(&mut p, coups);
    Live { partie, champion_blanc: true, termine, san: p.san, fen: p.jeu.fens }
}

#[test]
fn positions_sans_moteur() {
    assert!(matches!(examen("?"), Examen::Illisible));
    assert!(matches!(examen(DEPART), Examen::AEvaluer(true)));
    match examen("7k/6Q1/6K1/8/8/8/8/8 b - - 0 1") {
        Examen::Terminale(a) => assert_eq!((a.eval_blancs, a.meilleur.as_str()), (32_000, "")),
        _ => panic!("mat"),
    }
    match examen("7k/5Q2/6K1/8/8/8/8/8 b - - 0 1") {
        Examen::Terminale(a) => assert_eq!(a.eval_blancs, 0),
        _ => panic!("pat"),
    }
}

#[test]
fn reponses_du_moteur() {
    let d = DEPART;
    match recoit(d, true, 0, ReponseMoteur::Score("e2e4".to_string(), ScoreUci::Cp(31))) {
        Suite::Conclu(a) => assert_eq!((a.eval_blancs, a.meilleur.as_str()), (31, "e4")),
        _ => panic!("score"),
    }
    match recoit(d, false, 2, ReponseMoteur::Score("e2e5".to_string(), ScoreUci::Cp(31))) {
        Suite::Conclu(a) => assert_eq!((a.eval_blancs, a.meilleur.as_str()), (-31, "e2e5")),
        _ => panic!("score"),
    }
    assert!(matches!(recoit(d, true, 1, ReponseMoteur::Panne), Suite::Retente { relance: true }));
    assert!(matches!(
        recoit(d, true, 1, ReponseMoteur::SansScore),
        Suite::Retente { relance: false }
    ));
    assert!(matches!(recoit(d, true, 2, ReponseMoteur::Absent), Suite::Abandonne));
}

fn analyse(cp: i32, meilleur: &str) -> Analyse {
    Analyse { eval_blancs: cp, meilleur: meilleur.to_string() }
}

#[test]
fn notation_d_un_coup() {
    let l = live(2, &["e2e4", "e7e5"], false);
    let a = annote(&l, 1, &analyse(30, "d4"), &analyse(-80, "e5")).unwrap();
    assert_eq!((a.partie, a.ply, a.camp.as_str(), a.phase), (2, 1, "champion", Phase::Ouverture));
    assert_eq!((a.joue.as_str(), a.meilleur.as_str(), a.perte_cp), ("e4", "d4", 110));
    assert_eq!(a.classement, Classement::Imprecision);
    let a = annote(&l, 1, &analyse(30, "d4"), &analyse(-200, "e5")).unwrap();
    assert_eq!((a.perte_cp, a.classement), (230, Classement::Erreur));
    let a = annote(&l, 2, &analyse(30, "e5"), &analyse(30, "Nf3")).unwrap();
    assert_eq!((a.camp.as_str(), a.perte_cp, a.classement), ("fantome", 0, Classement::Meilleur));
    assert!(annote(&l, 3, &analyse(0, ""), &analyse(0, "")).is_none());
}

#[test]
fn tours_du_suivi() {
    let l = live(1, &["e2e4", "e7e5"], false);
    let mut m = Memoire::depuis(vec![]);
    assert_eq!(tour(&l, &m, None), Tour::Traite(1));
    assert!(!m.note_echec(1, 1));
    assert!(!m.note_echec(1, 1));
    assert!(m.note_echec(1, 1), "abandonné au troisième échec");
    assert_eq!(m.ignores(1), [1]);
    assert_eq!(m.ignores(2), Vec::<u32>::new());
    assert_eq!(tour(&l, &m, None), Tour::Traite(2));
    m.note_succes(annote(&l, 2, &analyse(0, "e5"), &analyse(0, "")).unwrap());
    assert_eq!(tour(&l, &m, None), Tour::AJour { publie: true, sort: false });
    assert_eq!(tour(&l, &m, Some((1, 1))), Tour::AJour { publie: false, sort: false });
    let fini = live(1, &["e2e4", "e7e5"], true);
    assert_eq!(tour(&fini, &m, Some((1, 0))), Tour::AJour { publie: true, sort: true });
    let autre = live(1, &["e2e4", "c7c5"], false);
    assert_eq!(tour(&autre, &m, None), Tour::Archive);
    m.oublie();
    assert_eq!(tour(&autre, &m, None), Tour::Traite(1));
    assert!(change_de_partie(1, &live(2, &[], false)));
    assert!(!change_de_partie(2, &live(2, &[], false)));
}

#[test]
fn annotations_par_pli_croissant() {
    let l = live(1, &["e2e4", "e7e5", "g1f3"], false);
    let note = |p: u32| annote(&l, p, &analyse(0, ""), &analyse(0, "")).unwrap();
    let m = Memoire::depuis(vec![note(3), note(1), note(2)]);
    let plis: Vec<u32> = m.annotations(1).iter().map(|a| a.ply).collect();
    assert_eq!(plis, [1, 2, 3]);
    assert!(m.annotations(9).is_empty());
}

#[test]
fn rattrapage_par_le_pgn() {
    let vu = live(1, &["e2e4", "e7e5"], true);
    let mut e = entete(Resultat::Blancs, Motif::Mat);
    e.champion_blanc = true;
    let plus = ecrit_pgn(&e, &textes(&["e4", "e5", "Nf3"]));
    let r = source_de_rattrapage(&vu, Some(&plus));
    assert_eq!(r.san, ["e4", "e5", "Nf3"]);
    assert_eq!(r.fen.len(), 4);
    assert_eq!(r.fen[..3], vu.fen[..]);
    let contraire = ecrit_pgn(&e, &textes(&["e4", "c5", "Nf3"]));
    assert_eq!(source_de_rattrapage(&vu, Some(&contraire)).san, ["e4", "e5"]);
    let illegal = ecrit_pgn(&e, &textes(&["e4", "e5", "Nf6"]));
    assert_eq!(source_de_rattrapage(&vu, Some(&illegal)).san, ["e4", "e5"]);
    assert_eq!(source_de_rattrapage(&vu, None).san, ["e4", "e5"]);
}

#[test]
fn direct_relu() {
    let corps = "{\"partie\": 4294967298, \"champion_blanc\": false, \"termine\": true, \
                 \"history_san\": [\"e4\", 3, \"c5\"], \"history_fen\": [\"a\", null, \"b\"]}";
    let l = lit_live(corps).expect("direct lisible");
    assert_eq!((l.partie, l.champion_blanc, l.termine), (2, false, true));
    assert_eq!(l.san, ["e4", "c5"]);
    assert_eq!(l.fen, ["a", "b"]);
    let l = lit_live("{\"history_fen\": [\"a\"], \"partie\": -1, \"termine\": 1}").expect("direct");
    assert_eq!((l.partie, l.champion_blanc, l.termine), (0, true, false));
    assert!(l.san.is_empty());
    for vide in ["", "pas du json", "[]", "{}", "{\"history_fen\": []}", "{\"history_fen\": [1]}"] {
        assert!(lit_live(vide).is_none(), "{vide}");
    }
    assert!(lit_live("{\"history_fen\": \"a\"}").is_none(), "pas une liste");
    assert!(garde_textes(&None).is_empty());
    assert_eq!(garde_textes(&Some(vec![None, Some("x".to_string())])), ["x"]);
    assert!(assemble_live(Some(1), None, None, vec![], vec![]).is_none());
}
