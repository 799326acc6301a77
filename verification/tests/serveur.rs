//! The game server: sessions, opponents, routes, files and training curves.
use echec::rencontre::{Motif, Resultat};
use echec::serveur::{
    adversaire, api_new_game, cellules, champ_ou_zero, checkpoints, chemin_modele, choix_bot, content_type,
    coup_maison, demande, etat_publie, fichier_statique, progress, route, Adversaire, ChoixBot,
    CouleurDemandee, RefusCoup, RefusPartie, Route, Session,
};

fn corps(uci: &str) -> String {
    format!("{{\"uci\":\"{uci}\"}}")
}

#[test]
fn coups_de_l_humain() {
    let mut s = Session::nouvelle("random", true, 7);
    assert!(s.trait_blanc());
    assert_eq!(s.coups_humain().len(), 20);
    assert_eq!(s.api_move("{}"), Err(RefusCoup::ChampManquant));
    assert_eq!(s.api_move("pas du json"), Err(RefusCoup::ChampManquant));
    assert_eq!(s.api_move("{\"uci\": 4}"), Err(RefusCoup::ChampManquant));
    assert_eq!(s.api_move(&corps("zz")), Err(RefusCoup::Illisible));
    assert_eq!(s.api_move(&corps("e2e5")), Err(RefusCoup::Illegal));
    assert!(s.san.is_empty(), "un coup refusé ne change rien");
    assert_eq!(s.juge_coup(&corps("e2e4")), Ok("e2e4".to_string()));
    assert_eq!(s.juge_champ(Some("e2e4".to_string())), Ok("e2e4".to_string()));
    assert_eq!(s.juge_champ(None), Err(RefusCoup::ChampManquant));
    assert_eq!(s.api_move(&corps("e2e4")), Ok(()));
    assert_eq!(s.san, ["e4"]);
    assert!(s.coups_humain().is_empty());
    assert_eq!(s.api_move(&corps("e7e5")), Err(RefusCoup::PasVotreTour));
}

#[test]
fn messages_des_refus() {
    assert_eq!(RefusCoup::ChampManquant.message("x"), "champ \"uci\" manquant");
    assert_eq!(RefusCoup::Illegal.message("e2e5"), "coup illégal : e2e5");
    assert_eq!(RefusCoup::Illisible.message("zz"), "coup UCI illisible : zz");
    assert_eq!(RefusCoup::Illegal.message_du_corps(&corps("e2e5")), "coup illégal : e2e5");
    assert_eq!(RefusCoup::Illisible.message_du_corps("{}"), "coup UCI illisible : ");
    assert_eq!(RefusCoup::PasVotreTour.message(""), "ce n'est pas à vous de jouer");
}

#[test]
fn mat_de_l_ecolier_au_serveur() {
    let mut s = Session::nouvelle("material", false, 0);
    assert!(s.recoit_coup(Some("f2f3".to_string()), 12));
    assert_eq!(s.thinking_ms, 12);
    assert_eq!(s.api_move(&corps("e7e5")), Ok(()));
    assert!(!s.recoit_coup(Some("e1e5".to_string()), 3));
    assert!(!s.recoit_coup(None, 4));
    assert_eq!(s.san, ["f3", "e5"]);
    assert!(s.recoit_coup(Some("g2g4".to_string()), 5));
    assert_eq!(s.api_move(&corps("d8h4")), Ok(()));
    assert_eq!(s.fin, Some((Resultat::Noirs, Motif::Mat)));
    assert_eq!(s.api_move(&corps("a7a6")), Err(RefusCoup::PartieTerminee));
    assert_eq!(s.prend_graine(), None);
}

#[test]
fn une_graine_par_coup() {
    let mut s = Session::nouvelle("random", false, u64::MAX);
    assert_eq!(s.prend_graine(), Some(u64::MAX));
    assert_eq!(s.prend_graine(), Some(0));
    let fen = s.jeu.fen().clone();
    let c = coup_maison(Adversaire::Aleatoire, 3, &fen).unwrap();
    assert!(s.recoit_coup(Some(c), 1), "un coup de la maison est légal");
    assert!(coup_maison(Adversaire::Reseau, 3, &fen).is_none());
    let mat = "6k1/5ppp/8/8/8/8/8/R5K1 w - - 0 1";
    assert_eq!(coup_maison(Adversaire::Materiel, 1, mat).as_deref(), Some("a1a8"));
    let pat = "7k/5Q2/6K1/8/8/8/8/8 b - - 0 1";
    assert!(coup_maison(Adversaire::Aleatoire, 1, pat).is_none());
}

#[test]
fn adversaires_par_nom() {
    assert_eq!(adversaire("random"), Adversaire::Aleatoire);
    assert_eq!(adversaire("material"), Adversaire::Materiel);
    assert_eq!(adversaire("t10h"), Adversaire::Reseau);
    assert_eq!(adversaire("t11h"), Adversaire::Inconnu);
    assert_eq!(chemin_modele("latest", true).as_deref(), Some("models/chess_best.bin"));
    assert_eq!(chemin_modele("latest", false).as_deref(), Some("models/chess_latest.bin"));
    assert_eq!(chemin_modele("t100h", false).as_deref(), Some("models/chess_t100h.bin"));
    assert_eq!(chemin_modele("random", true), None);
    assert_eq!(choix_bot(true, true, true), ChoixBot::Garder);
    assert_eq!(choix_bot(true, true, false), ChoixBot::Recreer);
    assert_eq!(choix_bot(true, false, true), ChoixBot::Recreer);
    assert_eq!(choix_bot(false, true, false), ChoixBot::Garder);
    assert_eq!(choix_bot(false, false, false), ChoixBot::Echec);
}

#[test]
fn demandes_de_partie() {
    let d = api_new_game("{\"opponent\":\"t3h\",\"color\":\"black\"}").unwrap();
    assert_eq!((d.opponent.as_str(), d.adversaire), ("t3h", Adversaire::Reseau));
    assert_eq!(d.couleur, CouleurDemandee::Noir);
    let d = api_new_game("{\"opponent\":\"random\"}").unwrap();
    assert_eq!(d.couleur, CouleurDemandee::Hasard);
    let d = demande(Some("material".to_string()), Some("white".to_string())).unwrap();
    assert_eq!(d.couleur, CouleurDemandee::Blanc);
    assert_eq!(api_new_game("{\"color\":\"white\"}").unwrap_err(), RefusPartie::ChampManquant);
    assert_eq!(
        api_new_game("{\"opponent\":\"hal\"}").unwrap_err(),
        RefusPartie::Inconnu("hal".to_string())
    );
}

#[test]
fn offres_du_serveur() {
    let o = checkpoints(&vec![true, false, false, false, true], false, false);
    let ids: Vec<(&str, bool)> = o.iter().map(|x| (x.id.as_str(), x.available)).collect();
    assert_eq!(
        ids,
        [
            ("random", true),
            ("material", true),
            ("t1h", true),
            ("t3h", false),
            ("t10h", false),
            ("t30h", false),
            ("t100h", true),
            ("latest", false)
        ]
    );
    assert_eq!(o[2].label, "IA — 1 h d'entraînement");
    let o = checkpoints(&vec![false; 5], true, false);
    assert_eq!((o[7].label.as_str(), o[7].available), ("IA — dernier modèle (gating)", true));
}

#[test]
fn routes_du_serveur() {
    assert_eq!(route("/api/state?x=1", true, false), Route::Etat);
    assert_eq!(route("/api/checkpoints", true, false), Route::Adversaires);
    assert_eq!(route("/api/progress", true, false), Route::Progression);
    assert_eq!(route("/api/new-game", false, true), Route::NouvellePartie);
    assert_eq!(route("/api/move", false, true), Route::Coup);
    assert_eq!(route("/api/move", true, false), Route::ApiInconnue);
    assert_eq!(route("/api/autre", false, true), Route::ApiInconnue);
    assert_eq!(route("/app.js?v=2", true, false), Route::Statique("/app.js".to_string()));
    assert_eq!(route("/app.js", false, true), Route::Introuvable);
}

#[test]
fn fichiers_servis() {
    assert_eq!(fichier_statique("/").as_deref(), Some("index.html"));
    assert_eq!(fichier_statique("/training").as_deref(), Some("training.html"));
    assert_eq!(fichier_statique("//css/a.css").as_deref(), Some("css/a.css"));
    assert_eq!(fichier_statique("/../secret"), None);
    assert_eq!(fichier_statique("/a\\b"), None);
    assert_eq!(content_type("index.html"), "text/html; charset=utf-8");
    assert_eq!(content_type("a.b.js"), "application/javascript; charset=utf-8");
    assert_eq!(content_type("logo.svg"), "image/svg+xml");
    assert_eq!(content_type("sans_extension"), "application/octet-stream");
}

/// The cells of a table read as numbers, where they are.
fn lus(t: &Vec<Vec<String>>) -> Vec<Vec<Option<u64>>> {
    t.iter()
        .map(|l| l.iter().map(|c| c.parse::<f64>().ok().map(|x| x.to_bits())).collect())
        .collect()
}

fn reels(v: &[u64]) -> Vec<f64> {
    v.iter().map(|b| f64::from_bits(*b)).collect()
}

#[test]
fn courbes_d_entrainement() {
    let m = cellules("h,g,p,l,r,m\n0.5,10,100,0.25,60,40\n1.0,20\n1.5,30,300,x,70,50\n2.0,40,400,0.125,80,55\n");
    let e = cellules("h,elo\n1.0,950\n");
    let g = cellules("h,score,promu\n1.0,0.55,1\n");
    let ev = cellules("h,label\n1.5,recherche\nx,ignoré\n");
    let p = progress(&lus(&m), &lus(&e), &lus(&g), &lus(&ev), &ev);
    assert_eq!(reels(&p.elapsed_hours), [0.5, 2.0]);
    assert_eq!(reels(&p.games), [10.0, 40.0]);
    assert_eq!(reels(&p.loss), [0.25, 0.125]);
    assert_eq!(reels(&p.pct_vs_random), [60.0, 80.0]);
    assert_eq!(reels(&p.pct_vs_material), [40.0, 55.0]);
    assert_eq!((reels(&p.elo_hours), reels(&p.elo)), (vec![1.0], vec![950.0]));
    assert_eq!((reels(&p.gating_score), reels(&p.gating_promu)), (vec![0.55], vec![1.0]));
    assert_eq!(p.events, [(1.5f64.to_bits(), "recherche".to_string())]);
    assert!(cellules("").is_empty());
}

#[test]
fn etat_champ_par_champ() {
    let e = etat_publie("{\"trained_secs\": 3600.5, \"games\": 12, \"cycles\": \"x\"}");
    assert_eq!(e.trained_secs, "3600.5");
    assert_eq!(e.games, "12");
    assert_eq!(e.positions, "0", "champ absent");
    assert_eq!(e.cycles, "\"x\"");
    for illisible in ["", "pas du json", "[]"] {
        let e = etat_publie(illisible);
        assert_eq!([e.trained_secs, e.games, e.positions, e.cycles], ["0", "0", "0", "0"]);
    }
    assert_eq!(champ_ou_zero(None), "0");
    assert_eq!(champ_ou_zero(Some("7".to_string())), "7");
}
