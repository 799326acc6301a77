//! Grading of moves: scores, losses, classes, phases, record, summary.
use echec::arbitre::{
    camp, classement, coups_du_pgn, cp_du_score, csv_coherent, fens_de_coups,
    lit_csv, moyenne, perte_cp, phase, prochain_pli, prochain_pli_hors,
    recolle_eval_apres, resume, vers_blancs, Annotation, Classement, Phase, ScoreUci, ENTETE_CSV,
    MAT_CP, PLAFOND_PERTE,
};

#[test]
fn conversion_scores_uci() {
    assert_eq!(cp_du_score(ScoreUci::Cp(35)), 35);
    assert_eq!(cp_du_score(ScoreUci::Cp(-120)), -120);
    assert_eq!(cp_du_score(ScoreUci::Mat(1)), 31_999);
    assert_eq!(cp_du_score(ScoreUci::Mat(7)), 31_993);
    assert!(cp_du_score(ScoreUci::Mat(1)) > cp_du_score(ScoreUci::Mat(7)));
    assert_eq!(cp_du_score(ScoreUci::Mat(-3)), -31_997);
    assert!(cp_du_score(ScoreUci::Mat(-1)) < cp_du_score(ScoreUci::Mat(-7)));
    assert_eq!(cp_du_score(ScoreUci::Mat(0)), -MAT_CP);
    assert_eq!(vers_blancs(35, true), 35);
    assert_eq!(vers_blancs(35, false), -35);
    assert_eq!(vers_blancs(-31_997, false), 31_997);
    assert_eq!(vers_blancs(cp_du_score(ScoreUci::Mat(2)), false), -31_998);
}

#[test]
fn scores_hors_bornes() {
    assert_eq!(cp_du_score(ScoreUci::Cp(i32::MAX)), MAT_CP);
    assert_eq!(cp_du_score(ScoreUci::Cp(i32::MIN)), -MAT_CP);
    assert_eq!(cp_du_score(ScoreUci::Mat(i32::MAX)), 0);
    assert_eq!(cp_du_score(ScoreUci::Mat(i32::MIN)), 0);
}

#[test]
fn calcul_perte_cp() {
    assert_eq!(perte_cp(50, 10, true), 40);
    assert_eq!(perte_cp(10, 90, true), 0);
    assert_eq!(perte_cp(-50, 120, false), 170);
    assert_eq!(perte_cp(-50, -200, false), 0);
    assert_eq!(perte_cp(0, 0, true), 0);
    assert_eq!(perte_cp(0, 0, false), 0);
    assert_eq!(perte_cp(300, -31_996, true), 300 + PLAFOND_PERTE);
    assert_eq!(perte_cp(31_990, 31_996, true), 0);
    assert_eq!(perte_cp(-31_990, -31_996, false), 0);
}

#[test]
fn perte_vue_des_deux_cotes() {
    for (avant, apres) in [(50, 10), (10, 90), (-400, 700), (2_000, -2_000)] {
        assert_eq!(perte_cp(avant, apres, true), perte_cp(-avant, -apres, false));
    }
}

#[test]
fn classement_par_seuils() {
    assert_eq!(classement(0, true), Classement::Meilleur);
    assert_eq!(classement(400, true), Classement::Meilleur);
    assert_eq!(classement(0, false), Classement::Excellent);
    assert_eq!(classement(19, false), Classement::Excellent);
    assert_eq!(classement(20, false), Classement::Bon);
    assert_eq!(classement(49, false), Classement::Bon);
    assert_eq!(classement(50, false), Classement::Imprecision);
    assert_eq!(classement(149, false), Classement::Imprecision);
    assert_eq!(classement(150, false), Classement::Erreur);
    assert_eq!(classement(299, false), Classement::Erreur);
    assert_eq!(classement(300, false), Classement::Gaffe);
    assert_eq!(classement(5_000, false), Classement::Gaffe);
    for c in [
        Classement::Meilleur,
        Classement::Excellent,
        Classement::Bon,
        Classement::Imprecision,
        Classement::Erreur,
        Classement::Gaffe,
    ] {
        assert_eq!(Classement::depuis_nom(c.nom()), Some(c));
    }
    assert_eq!(Classement::depuis_nom("brillant"), None);
}

#[test]
fn classement_de_phase() {
    assert_eq!(phase(1, 32), Phase::Ouverture);
    assert_eq!(phase(12, 20), Phase::Ouverture);
    assert_eq!(phase(13, 28), Phase::Ouverture);
    assert_eq!(phase(40, 30), Phase::Ouverture);
    assert_eq!(phase(13, 27), Phase::Milieu);
    assert_eq!(phase(30, 15), Phase::Milieu);
    assert_eq!(phase(30, 14), Phase::Transition);
    assert_eq!(phase(30, 10), Phase::Transition);
    assert_eq!(phase(30, 9), Phase::Finale);
    assert_eq!(phase(200, 3), Phase::Finale);
    for ply in 1..=60u32 {
        for pieces in 2..=32u32 {
            let p = phase(ply, pieces);
            assert!(Phase::TOUTES.contains(&p), "pli {ply}, {pieces} pièces");
        }
    }
}

#[test]
fn noms_des_phases() {
    for p in Phase::TOUTES {
        assert_eq!(Phase::depuis_nom(p.nom()), Some(p));
    }
    assert_eq!(Phase::depuis_nom("zugzwang"), None);
}

#[test]
fn camp_du_pli() {
    assert_eq!(camp(1, true), "champion");
    assert_eq!(camp(2, true), "fantome");
    assert_eq!(camp(1, false), "fantome");
    assert_eq!(camp(2, false), "champion");
    assert_eq!(camp(29, true), "champion");
    assert_eq!(camp(30, true), "fantome");
}

fn annot(partie: u32, ply: u32, champion_blanc: bool, perte: i32, ph: Phase) -> Annotation {
    Annotation {
        partie,
        ply,
        camp: camp(ply, champion_blanc).to_string(),
        phase: ph,
        eval_avant: 25,
        eval_apres: 25 - perte,
        meilleur: "Nf3".into(),
        joue: "Nc3".into(),
        perte_cp: perte,
        classement: classement(perte, false),
    }
}

#[test]
fn reprise_idempotente_depuis_csv_partiel() {
    let a = annot(1, 7, true, 42, Phase::Ouverture);
    let relu = Annotation::depuis_csv(&a.ligne_csv()).expect("ligne relisible");
    assert_eq!(relu.partie, a.partie);
    assert_eq!(relu.ply, a.ply);
    assert_eq!(relu.camp, a.camp);
    assert_eq!(relu.phase, a.phase);
    assert_eq!(relu.eval_avant, a.eval_avant);
    assert_eq!(relu.meilleur, a.meilleur);
    assert_eq!(relu.joue, a.joue);
    assert_eq!(relu.perte_cp, a.perte_cp);
    assert_eq!(relu.classement, a.classement);
    assert_eq!(relu.eval_apres, a.eval_apres);

    let mut csv = String::from(ENTETE_CSV);
    for ply in 1..=3u32 {
        csv.push('\n');
        csv.push_str(&annot(1, ply, true, 10 * ply as i32, Phase::Ouverture).ligne_csv());
    }
    csv.push_str("\n1,4,champion,ouverture,25,Nf3\n\n");
    let lues = lit_csv(&csv);
    assert_eq!(lues.len(), 3, "l'entête, la ligne tronquée et la vide sautées");
    assert_eq!(prochain_pli(&lues, 1), 4);
    assert_eq!(prochain_pli(&lues, 2), 1);
    assert_eq!(prochain_pli(&vec![], 1), 1);
    let desordre = vec![
        annot(1, 3, true, 0, Phase::Ouverture),
        annot(1, 1, true, 0, Phase::Ouverture),
        annot(1, 3, true, 0, Phase::Ouverture),
    ];
    assert_eq!(prochain_pli(&desordre, 1), 2, "le pli 2 manque : on le rebouche");
    let mut complet = desordre.clone();
    complet.push(annot(1, 2, true, 0, Phase::Ouverture));
    assert_eq!(prochain_pli(&complet, 1), 4);
    assert_eq!(prochain_pli_hors(&desordre, 1, &vec![2]), 4);
    assert_eq!(prochain_pli_hors(&vec![], 1, &vec![1, 2]), 3);
}

#[test]
fn trou_au_milieu_rebouche() {
    let mut csv = String::from(ENTETE_CSV);
    for ply in [1u32, 2, 4, 5] {
        csv.push('\n');
        csv.push_str(&annot(1, ply, true, 10, Phase::Ouverture).ligne_csv());
    }
    let lues = lit_csv(&csv);
    assert_eq!(lues.len(), 4);
    assert_eq!(prochain_pli(&lues, 1), 3, "le pli 3 manquant est repris");
}

#[test]
fn doublons_ecartes_a_la_relecture() {
    let mut a = annot(1, 1, true, 100, Phase::Ouverture);
    let mut csv = String::from(ENTETE_CSV);
    csv.push('\n');
    csv.push_str(&a.ligne_csv());
    csv.push('\n');
    a.perte_cp = 120;
    csv.push_str(&a.ligne_csv());
    csv.push('\n');
    csv.push_str(&annot(1, 2, true, 0, Phase::Ouverture).ligne_csv());
    let lues = lit_csv(&csv);
    assert_eq!(lues.len(), 2, "le pli 1 n'apparaît qu'une fois");
    assert_eq!(lues[0].ply, 1);
    assert_eq!(lues[0].perte_cp, 120, "la dernière analyse l'emporte");
    assert_eq!(lues[1].ply, 2);
    let r = resume(&lues);
    assert_eq!(r.champion.plis, 1);
    assert_eq!(r.champion.perte_moyenne, Some(1200));
    assert_eq!(r.fantome.plis, 1);
}

#[test]
fn eval_apres_recollee_depuis_le_pli_suivant() {
    let mut a1 = annot(1, 1, true, 0, Phase::Ouverture);
    a1.eval_avant = 300;
    a1.eval_apres = 333;
    let mut a2 = annot(1, 2, true, 0, Phase::Ouverture);
    a2.eval_avant = 333;
    a2.eval_apres = 320;
    let csv = format!("{ENTETE_CSV}\n{}\n{}", a1.ligne_csv(), a2.ligne_csv());
    let lues = lit_csv(&csv);
    assert_eq!(lues[0].eval_avant, 300);
    assert_eq!(lues[0].eval_apres, 333, "valeur exacte, pas le repli à 300");
    assert_eq!(lues[1].eval_apres, 333);
    assert_eq!(lues[0].perte_cp, 0);
}

#[test]
fn coherence_csv_avec_le_direct() {
    let san: Vec<String> = ["e4", "c5", "Nf3"].iter().map(|s| s.to_string()).collect();
    let mut a = annot(1, 1, true, 0, Phase::Ouverture);
    a.joue = "e4".into();
    let mut b = annot(1, 2, true, 0, Phase::Ouverture);
    b.joue = "c5".into();
    assert!(csv_coherent(&vec![], &san, san.len()));
    assert!(csv_coherent(&vec![a.clone(), b.clone()], &san, san.len()));
    let mut divergent = b.clone();
    divergent.joue = "e5".into();
    assert!(!csv_coherent(&vec![a.clone(), divergent], &san, san.len()));
    let mut trop_loin = a.clone();
    trop_loin.ply = 4;
    assert!(!csv_coherent(&vec![trop_loin], &san, san.len()));
    assert!(!csv_coherent(&vec![b.clone()], &san, 1));
    let mut zero = a.clone();
    zero.ply = 0;
    assert!(!csv_coherent(&vec![zero], &san, san.len()));
}

#[test]
fn relecture_du_pgn_et_reconstruction_des_fen() {
    let pgn = "[Event \"Match\"]\n[Result \"1-0\"]\n[Termination \"mat\"]\n\n\
               1. e4 c5 2. Nf3 d6 3. d4 cxd4 4. Nxd4 Nf6 5. Nc3 a6 1-0\n";
    let coups = coups_du_pgn(pgn);
    assert_eq!(coups.len(), 10, "les 10 demi-coups, sans les numéros ni 1-0");
    assert_eq!(coups[0], "e4");
    assert_eq!(coups[5], "cxd4");
    assert_eq!(coups[9], "a6");
    let colle = coups_du_pgn("1.e4 e5 2.O-O O-O-O 3.a8=Q+ Kb8 1/2-1/2\n");
    assert_eq!(colle, ["e4", "e5", "O-O", "O-O-O", "a8=Q+", "Kb8"]);
    assert!(coups_du_pgn("[White \"Champion e4\"]\n\n*\n").is_empty());

    let fens = fens_de_coups(&coups);
    assert_eq!(fens.len(), coups.len() + 1);
    assert_eq!(fens[0], "rnbqkbnr/pppppppp/8/8/8/8/PPPPPPPP/RNBQKBNR w KQkq - 0 1");
    assert_eq!(fens[1], "rnbqkbnr/pppppppp/8/8/4P3/8/PPPP1PPP/RNBQKBNR b KQkq - 0 1");
    let boiteux = vec!["e4".to_string(), "e4".to_string()];
    assert_eq!(fens_de_coups(&boiteux).len(), 2);
    assert_eq!(fens_de_coups(&vec![]).len(), 1);
}

#[test]
fn resume_par_camp_et_par_phase() {
    let annotations = vec![
        annot(1, 1, true, 0, Phase::Ouverture),
        annot(1, 3, true, 200, Phase::Milieu),
        annot(1, 5, true, 400, Phase::Milieu),
        annot(1, 2, true, 10, Phase::Ouverture),
        annot(1, 4, true, 30, Phase::Milieu),
    ];
    let r = resume(&annotations);
    assert_eq!(r.champion.plis, 3);
    assert_eq!(r.champion.perte_moyenne, Some(2000));
    assert_eq!(r.champion.gaffes, 1);
    assert_eq!(r.champion.erreurs, 1);
    assert_eq!(r.champion.imprecisions, 0);
    assert_eq!(r.champion.meilleurs, 0);
    assert_eq!(r.fantome.plis, 2);
    assert_eq!(r.fantome.perte_moyenne, Some(200));
    let ph = &r.phases_champion;
    assert_eq!(ph[0].perte_moyenne, Some(0));
    assert_eq!(ph[1].perte_moyenne, Some(3000));
    assert_eq!(ph[2].perte_moyenne, None, "aucune transition mesurée");
    assert_eq!(ph[3].perte_moyenne, None, "aucune finale mesurée");
    assert_eq!(ph[1].plis, 2);
    assert_eq!(ph[3].plis, 0);
    let vide = resume(&vec![]);
    assert_eq!(vide.champion.perte_moyenne, None);
    assert_eq!(vide.fantome.plis, 0);
}

#[test]
fn fichier_entier_relu() {
    let v = vec![
        annot(1, 1, true, 0, Phase::Ouverture),
        annot(1, 2, true, 250, Phase::Milieu),
        annot(2, 1, false, 0, Phase::Finale),
    ];
    let mut contenu = format!("{ENTETE_CSV}\n");
    for a in &v {
        contenu.push_str(&a.ligne_csv());
        contenu.push('\n');
    }
    let relu = lit_csv(&contenu);
    assert_eq!(relu.len(), 3);
    assert_eq!(relu[1].classement, Classement::Erreur);
    assert_eq!(relu[2].partie, 2);
}

#[test]
fn recollage_sans_successeur() {
    let mut v = vec![annot(1, 1, true, 0, Phase::Ouverture), annot(2, 2, true, 0, Phase::Milieu)];
    v[1].eval_avant = 400;
    let avant = v[0].eval_apres;
    recolle_eval_apres(&mut v);
    assert_eq!(v[0].eval_apres, avant, "le pli 2 d'une autre partie ne compte pas");
}

#[test]
fn lignes_illisibles_ecartees() {
    assert!(Annotation::depuis_csv("").is_none());
    assert!(Annotation::depuis_csv("1,2,champion").is_none());
    assert!(Annotation::depuis_csv("x,2,champion,milieu,25,Nf3,Nc3,10,bon").is_none());
    assert!(Annotation::depuis_csv("1,2,champion,lever,25,Nf3,Nc3,10,bon").is_none());
    assert!(Annotation::depuis_csv("1,2,champion,milieu,25,Nf3,Nc3,10,superbe").is_none());
    let a = Annotation::depuis_csv(" 1 , 2 ,champion, milieu ,25,Nf3,Nc3,10, bon ").expect("blancs");
    assert_eq!((a.partie, a.ply, a.perte_cp), (1, 2, 10));
    assert_eq!(a.eval_apres, 35);
}

#[test]
fn moyennes_au_dixieme() {
    assert_eq!(moyenne(0, 0), None);
    assert_eq!(moyenne(10, 3), Some(33));
    assert_eq!(moyenne(20, 3), Some(67));
    assert_eq!(moyenne(1, 4), Some(3), "un demi-dixième va vers le haut");
    assert_eq!(moyenne(-1, 4), Some(-3));
    assert_eq!(moyenne(600, 3), Some(2000));
}

#[test]
fn annotation_publiee() {
    let mut a = annot(3, 7, true, 40, Phase::Milieu);
    a.joue = "Nf3".into();
    a.meilleur = "d4".into();
    a.eval_avant = 35;
    a.eval_apres = -5;
    let v: serde_json::Value = serde_json::from_str(&a.json()).expect("objet JSON");
    assert_eq!(v["ply"], 7);
    assert_eq!(v["camp"], "champion");
    assert_eq!(v["phase"], "milieu");
    assert_eq!(v["eval_avant"], 35);
    assert_eq!(v["eval_apres"], -5);
    assert_eq!(v["meilleur"], "d4");
    assert_eq!(v["joue"], "Nf3");
    assert_eq!(v["perte_cp"], 40);
    assert_eq!(v["classement"], a.classement.nom());
    assert_eq!(v.as_object().map(|o| o.len()), Some(9));
    assert_eq!(a.champs_json().len(), 9);
}
