//! The rating ladder: plans, memory, duels and measures.
use echec::bots::{Bot, MaterialBot, RandomBot};
use echec::elo;
use echec::elo::{
    ancres, ancres_ecartees, ancres_jouables, duels_maison, duels_uci, echeance_resondage,
    empreinte_ancres, est_resondage, est_uci, mesure_informative, mesure_plan, mesure_uci,
    mesure_uci_plan, mesures_maison, mesures_uci, nom_de_journal, palier_moteur, plan_adaptatif,
    plan_adaptatif_eligibles, plan_complet, pour_le_fit, prepare_uci, rang_dans_genre,
    repli_necessaire, score_maison, scores_du_journal, DuelMaison, EtatEchelle, GenreAncre,
    MesureAncre, PlanAncre, PreparationUci, Score, PARTIES_RESONDAGE, PERIODE_RESONDAGE,
};
use echec::graines::derive_graine;

const MIN: f64 = 0.15;
const MAX: f64 = 0.85;
const BUDGET: usize = 168;

fn score(s: f64) -> Score {
    let ecart = if s < MIN {
        MIN - s
    } else if s > MAX {
        s - MAX
    } else {
        0.0
    };
    Score { bits: s.to_bits(), ecart: ecart.to_bits() }
}

fn lus(v: &[Option<f64>]) -> Vec<Option<Score>> {
    v.iter().map(|s| s.map(score)).collect()
}

fn total(plan: &[PlanAncre]) -> usize {
    plan.iter().map(|e| e.parties).sum()
}

fn indices(plan: &[PlanAncre]) -> Vec<usize> {
    plan.iter().map(|e| e.index).collect()
}

fn mesure(i: usize, s: f64, parties: usize) -> MesureAncre {
    let a = ancres()[i];
    MesureAncre { nom: a.nom, elo_ancre: a.elo, score: score(s), parties }
}

fn charge(contenu: &str) -> EtatEchelle {
    let scores: Vec<Option<Score>> = scores_du_journal(contenu)
        .iter()
        .map(|t| {
            let s: f64 = t.as_ref()?.parse().ok()?;
            if s.is_finite() {
                Some(score(s / 100.0))
            } else {
                None
            }
        })
        .collect();
    EtatEchelle::charge_csv(contenu, &scores, &ancres())
}

fn informative(mesures: &Vec<MesureAncre>) -> bool {
    let bornes: Vec<(u64, u64)> = mesures
        .iter()
        .map(|m| {
            let n = m.parties.max(1) as f64;
            ((1.0 / n).to_bits(), (1.0 - 1.0 / n).to_bits())
        })
        .collect();
    mesure_informative(mesures, &bornes)
}

/// Maximum likelihood over the measures, by ternary search.
fn ajuste(mesures: &[MesureAncre]) -> f64 {
    let ll = |r: f64| -> f64 {
        mesures
            .iter()
            .map(|m| {
                let n = m.parties as f64;
                let s = f64::from_bits(m.score.bits).clamp(0.5 / n, 1.0 - 0.5 / n);
                let p = 1.0 / (1.0 + 10f64.powf((m.elo_ancre as f64 - r) / 400.0));
                n * (s * p.ln() + (1.0 - s) * (1.0 - p).ln())
            })
            .sum()
    };
    let (mut lo, mut hi) = (0.0f64, 3200.0f64);
    for _ in 0..90 {
        let m1 = lo + (hi - lo) / 3.0;
        let m2 = hi - (hi - lo) / 3.0;
        if ll(m1) < ll(m2) {
            lo = m1;
        } else {
            hi = m2;
        }
    }
    (lo + hi) / 2.0
}

#[test]
fn moteur_absent_saute_les_ancres_uci() {
    let a = ancres();
    let plan = plan_complet(&a, 2);
    assert_eq!(prepare_uci(&a, &plan, ""), PreparationUci::Rien { annonce: true });
    assert_eq!(prepare_uci(&a, &plan, "moteur/inexistant.exe"), PreparationUci::Sonder);
    let duels = duels_uci(&a, &plan, 1320, 3190, 0);
    assert_eq!(duels.len(), 3);
    let aucune: Vec<Option<Score>> = vec![None; duels.len()];
    assert!(mesures_uci(&a, &duels, &aucune).is_empty());
}

#[test]
fn premier_demarrage_joue_toutes_les_ancres() {
    let a = ancres();
    let n = a.len();
    let plan = plan_adaptatif(&a, &vec![None; n], &vec![0; n], BUDGET);
    assert_eq!(indices(&plan), (0..n).collect::<Vec<_>>());
    assert_eq!(total(&plan), BUDGET);
    assert!(plan.iter().all(|e| e.parties % 2 == 0), "volumes pairs (couleurs)");
    assert!(plan.iter().all(|e| !e.resondage));
}

#[test]
fn ancres_saturees_ecartees_et_budget_redistribue() {
    let derniers = lus(&[
        Some(1.0),
        Some(0.99),
        Some(0.95),
        Some(0.90),
        Some(0.70),
        Some(0.40),
        Some(0.19),
        None,
    ]);
    let a = ancres();
    let plan = plan_adaptatif(&a, &derniers, &vec![0; a.len()], BUDGET);
    assert_eq!(indices(&plan), vec![4, 5, 6, 7]);
    assert_eq!(total(&plan), BUDGET);
    assert!(plan.iter().all(|e| e.parties == 42), "{plan:?}");
}

#[test]
fn plancher_de_trois_ancres_les_moins_saturees() {
    let derniers = lus(&[
        Some(1.00),
        Some(1.00),
        Some(0.95),
        Some(0.90),
        Some(0.88),
        Some(0.90),
        Some(0.95),
        Some(1.00),
    ]);
    let a = ancres();
    let plan = plan_adaptatif(&a, &derniers, &vec![0; a.len()], BUDGET);
    assert_eq!(indices(&plan), vec![3, 4, 5], "les trois moins saturées");
    assert_eq!(total(&plan), BUDGET);
    assert!(plan.iter().all(|e| e.parties == 56), "168 / 3 = 56 : {plan:?}");
}

#[test]
fn resondage_periodique_des_ancres_saturees() {
    let derniers = lus(&[
        Some(1.0),
        Some(1.0),
        Some(0.5),
        Some(0.5),
        Some(0.5),
        Some(0.9),
        Some(0.95),
        Some(1.0),
    ]);
    let a = ancres();
    let mut depuis = vec![0u64; a.len()];
    depuis[0] = echeance_resondage(0) + 10;
    depuis[1] = echeance_resondage(1) - 1;
    let plan = plan_adaptatif(&a, &derniers, &depuis, BUDGET);
    assert_eq!(indices(&plan), vec![0, 2, 3, 4]);
    let resondee = plan.iter().find(|e| e.index == 0).expect("ancre re-sondée");
    assert!(resondee.resondage);
    assert_eq!(resondee.parties, PARTIES_RESONDAGE);
    assert_eq!(total(&plan), BUDGET, "le re-sondage se prélève sur le budget");
    assert!(plan.iter().filter(|e| e.index != 0).all(|e| e.parties == 52), "{plan:?}");
}

#[test]
fn echeances_de_resondage_desynchronisees() {
    let a = ancres();
    let echeances: Vec<u64> = (0..a.len()).map(echeance_resondage).collect();
    let mut uniques = echeances.clone();
    uniques.sort_unstable();
    uniques.dedup();
    assert_eq!(uniques.len(), echeances.len(), "échéances confondues : {echeances:?}");
    assert!(echeances.iter().all(|&e| e >= PERIODE_RESONDAGE));
    let derniers = vec![Some(score(1.0)); a.len()];
    let depuis = vec![PERIODE_RESONDAGE + 1; a.len()];
    let plan = plan_adaptatif(&a, &derniers, &depuis, BUDGET);
    let rafale = plan.iter().filter(|e| e.resondage).count();
    assert!(rafale <= 1, "rafale de {rafale} re-sondages dans la même mesure : {plan:?}");
}

#[test]
fn hysteresis_garde_une_ancre_active_a_85_pourcent() {
    let a = ancres();
    let n = a.len();
    let derniers = lus(&[
        Some(1.000),
        Some(0.958),
        Some(0.979),
        Some(0.917),
        Some(0.854),
        Some(0.354),
        Some(0.188),
        None,
    ]);
    let depuis = vec![0u64; n];
    let actives = vec![true; n];
    let plan =
        plan_adaptatif_eligibles(&a, &derniers, &depuis, &actives, &vec![true; n], BUDGET);
    assert!(indices(&plan).contains(&4), "d4 doit rester active : {plan:?}");
    assert_eq!(indices(&plan), vec![4, 5, 6, 7]);
    let plan_entree = plan_adaptatif_eligibles(
        &a, &derniers, &depuis, &vec![false; n], &vec![true; n], BUDGET,
    );
    assert!(!indices(&plan_entree).contains(&4), "{plan_entree:?}");
    let mut franche = derniers.clone();
    franche[4] = Some(score(0.95));
    let plan_saturee =
        plan_adaptatif_eligibles(&a, &franche, &depuis, &actives, &vec![true; n], BUDGET);
    assert!(!indices(&plan_saturee).contains(&4), "{plan_saturee:?}");
}

#[test]
fn resondage_ne_rend_pas_une_ancre_active() {
    let a = ancres();
    let mut etat = EtatEchelle::neuf(a.len());
    let plan = vec![
        PlanAncre { index: 0, parties: PARTIES_RESONDAGE, resondage: true },
        PlanAncre { index: 5, parties: 56, resondage: false },
    ];
    let mesures = vec![mesure(0, 0.88, PARTIES_RESONDAGE), mesure(5, 0.88, 56)];
    etat.enregistre_plan(&a, &mesures, &plan);
    assert!(!etat.actives()[0], "un re-sondage ne réactive pas une ancre saturée");
    assert!(etat.actives()[5], "une ancre jouée à plein volume est active");
    let plan_suivant = etat.plan(&a, BUDGET);
    assert!(!indices(&plan_suivant).contains(&0), "{plan_suivant:?}");
    assert!(indices(&plan_suivant).contains(&5), "{plan_suivant:?}");
}

#[test]
fn ancres_ineligibles_ecartees_avant_selection() {
    let derniers = lus(&[
        Some(1.00),
        Some(0.96),
        Some(0.98),
        Some(0.92),
        Some(0.85),
        Some(0.35),
        Some(0.19),
        None,
    ]);
    let a = ancres();
    let depuis = vec![0u64; a.len()];
    let maison: Vec<bool> =
        a.iter().map(|x| matches!(x.genre, GenreAncre::Maison { .. })).collect();
    let plan = plan_adaptatif_eligibles(&a, &derniers, &depuis, &vec![], &maison, BUDGET);
    assert!(!plan.is_empty(), "une mesure sans moteur doit rester possible");
    assert!(
        plan.iter().all(|e| matches!(a[e.index].genre, GenreAncre::Maison { .. })),
        "aucune ancre UCI ne doit être planifiée sans moteur : {plan:?}"
    );
    assert_eq!(total(&plan), BUDGET, "tout le budget est dépensé");
    assert_eq!(indices(&plan), vec![1, 3, 4]);
    let toutes = plan_adaptatif(&a, &derniers, &depuis, BUDGET);
    assert_eq!(indices(&toutes), vec![4, 5, 6, 7]);
}

#[test]
fn rang_dans_genre_invariant() {
    let a = ancres();
    assert_eq!(rang_dans_genre(&a, 0), 0);
    assert_eq!(rang_dans_genre(&a, 4), 4);
    assert_eq!(rang_dans_genre(&a, 5), 0);
    assert_eq!(rang_dans_genre(&a, 6), 1);
    assert_eq!(rang_dans_genre(&a, 7), 2);
}

#[test]
fn etat_echelle_vieillit_les_ancres_non_jouees() {
    let a = ancres();
    let mut etat = EtatEchelle::neuf(a.len());
    let mesures = vec![mesure(5, 0.42, 56)];
    etat.enregistre(&a, &mesures);
    assert_eq!(etat.derniers()[5], Some(score(0.42)));
    assert_eq!(etat.depuis()[5], 0);
    assert_eq!(etat.derniers()[0], None);
    assert_eq!(etat.depuis()[0], 1);
    etat.enregistre(&a, &vec![]);
    assert_eq!(etat.depuis()[0], 2);
    assert_eq!(etat.depuis()[5], 1);
}

#[test]
fn etat_echelle_relu_du_journal() {
    let etat = charge(
        "heures,ancre,score_pct,parties\n\
         10.000,aleatoire,100.0,24\n\
         10.000,materiel d4,60.0,24\n\
         10.000,stockfish 1700,40.0,24\n\
         11.000,materiel d4,70.0,56\n\
         11.000,stockfish 1700,45.0,56\n\
         12.000,materiel d4,72.0,56\n\
         12.000,stockfish 1700,47.0,56\n",
    );
    let a = ancres();
    assert_eq!(etat.derniers()[0], Some(score(1.0)), "aleatoire : dernier score connu");
    assert_eq!(etat.depuis()[0], 2, "absente des deux dernières mesures");
    assert_eq!(etat.derniers()[4], Some(score(0.72)));
    assert_eq!(etat.depuis()[4], 0);
    assert_eq!(etat.derniers()[7], None, "stockfish 2300 : jamais mesurée");
    let plan = etat.plan(&a, BUDGET);
    assert!(!indices(&plan).contains(&0), "ancre saturée écartée : {plan:?}");
    assert!(indices(&plan).contains(&7), "ancre neuve sondée : {plan:?}");
    let vierge = charge("");
    assert_eq!(vierge.plan(&a, BUDGET).len(), a.len());
}

#[test]
fn fit_entierement_aux_bornes_detecte() {
    let clamp = |indices: &[usize], parties: usize| -> Vec<MesureAncre> {
        indices.iter().map(|&i| mesure(i, 1.0, parties)).collect()
    };
    let cinq_a_24 = clamp(&[0, 1, 2, 3, 4], 24);
    let trois_a_56 = clamp(&[2, 3, 4], 56);
    assert!(!informative(&cinq_a_24), "100 % partout : aucune information");
    assert!(!informative(&trois_a_56));
    let saut = ajuste(&trois_a_56) - ajuste(&cinq_a_24);
    assert!(saut > 150.0, "artefact de volume attendu, mesuré {saut:.0} Elo");
    let mut mixte = clamp(&[0, 1], 24);
    mixte.push(mesure(5, 0.40, 24));
    assert!(informative(&mixte));
    let un_point = |s: f64| informative(&vec![mesure(0, s, 24)]);
    assert!(!un_point(1.0));
    assert!(un_point(23.0 / 24.0));
    assert!(!un_point(23.5 / 24.0));
}

#[test]
fn empreinte_du_fit() {
    let reel = vec![mesure(4, 0.854, 24), mesure(5, 0.354, 24), mesure(6, 0.188, 24)];
    assert_eq!(empreinte_ancres(&ancres(), &reel), 0b111_0000);
    assert_eq!(empreinte_ancres(&ancres(), &vec![]), 0);
}

#[test]
fn resondage_relu_du_journal() {
    let etat = charge(
        "heures,ancre,score_pct,parties,resondage\n\
         10.000,aleatoire,100.0,24,0\n\
         10.000,materiel d4,86.0,24,0\n\
         11.000,materiel d4,86.0,56,0\n\
         11.000,aleatoire,88.0,12,1\n",
    );
    let a = ancres();
    assert_eq!(etat.derniers()[0], Some(score(0.88)));
    assert!(!etat.actives()[0], "jouée en re-sondage : reste saturée");
    assert!(etat.actives()[4], "jouée à plein volume : active");
    let plan = etat.plan(&a, BUDGET);
    assert!(indices(&plan).contains(&4), "{plan:?}");
    assert!(!indices(&plan).contains(&0), "{plan:?}");
}

#[test]
fn plan_lu_correctement() {
    let a = ancres();
    assert!(!est_uci(&a, 0), "aleatoire est une ancre maison");
    assert!(!est_uci(&a, 4), "materiel d4 est une ancre maison");
    assert!(est_uci(&a, 5), "stockfish 1700");
    assert!(est_uci(&a, 7), "stockfish 2300");
    assert!(!est_uci(&a, 99), "index hors échelle : jamais UCI");
    let plan = vec![
        PlanAncre { index: 0, parties: 12, resondage: true },
        PlanAncre { index: 5, parties: 78, resondage: false },
    ];
    assert!(est_resondage(&a, &plan, a[0].nom));
    assert!(!est_resondage(&a, &plan, a[5].nom));
    assert!(!est_resondage(&a, &plan, "ancre inconnue"));
}

#[test]
fn resondages_exclus_du_fit() {
    let a = ancres();
    let plan = vec![
        PlanAncre { index: 0, parties: 12, resondage: true },
        PlanAncre { index: 5, parties: 78, resondage: false },
        PlanAncre { index: 6, parties: 78, resondage: false },
    ];
    let mesures = vec![mesure(0, 1.0, 12), mesure(5, 0.40, 78), mesure(6, 0.20, 78)];
    let retenues = pour_le_fit(&a, &plan, &mesures);
    assert_eq!(retenues.len(), 2);
    assert!(retenues.iter().all(|m| m.nom != a[0].nom));
    assert!(informative(&retenues));
    let avec = ajuste(&mesures);
    let sans = ajuste(&retenues);
    assert!(sans > avec, "le re-sondage biaisait le fit : {avec:.0} contre {sans:.0}");
}

#[test]
fn repli_sur_les_ancres_maison_toujours_possible() {
    let echelle = charge(
        "heures,ancre,score_pct,parties\n\
         238.119,aleatoire,100.0,24\n\
         238.119,materiel d1,95.8,24\n\
         238.119,materiel d2,97.9,24\n\
         238.119,materiel d3,91.7,24\n\
         238.119,materiel d4,85.4,24\n\
         238.119,stockfish 1700,35.4,24\n\
         238.119,stockfish 2000,18.8,24\n",
    );
    let a = ancres();
    let avec = echelle.plan_eligibles(&a, &vec![true; a.len()], 168);
    assert!(avec.iter().any(|e| est_uci(&a, e.index)), "{avec:?}");
    let maison = ancres_jouables(&a, false);
    assert_eq!(maison, [true, true, true, true, true, false, false, false]);
    let repli = echelle.plan_eligibles(&a, &maison, 168);
    assert!(!repli.is_empty(), "le repli ne doit jamais rendre un plan vide");
    assert!(repli.iter().all(|e| !est_uci(&a, e.index)), "{repli:?}");
    assert_eq!(repli.iter().map(|e| e.parties).sum::<usize>(), 168);
    assert!(repli_necessaire(&a, &avec, &vec![]));
    assert!(!repli_necessaire(&a, &avec, &vec![mesure(5, 0.4, 10)]));
    assert!(!repli_necessaire(&a, &repli, &vec![]));
}

#[test]
fn ancres_hors_plan_nommees() {
    let plan = vec![
        PlanAncre { index: 4, parties: 84, resondage: false },
        PlanAncre { index: 3, parties: 84, resondage: false },
    ];
    let jouables = ancres_jouables(&ancres(), false);
    let (saturees, injouables) = ancres_ecartees(8, &plan, &jouables);
    assert_eq!(saturees, [0, 1, 2]);
    assert_eq!(injouables, [5, 6, 7]);
}

#[test]
fn duels_et_graines() {
    let a = ancres();
    let plan = plan_complet(&a, 4);
    let d = duels_maison(&a, &plan, 7);
    assert_eq!(d.len(), 5);
    assert_eq!(d[0].profondeur, None);
    assert_eq!(d[2].profondeur, Some(2));
    assert_eq!(d[2].graine, 9u64.wrapping_mul(0x9E37_79B9));
    let seul = duels_maison(&a, &vec![plan[2]], 7);
    assert_eq!(seul[0], d[2], "le duel d'une ancre ne dépend pas du reste du plan");
    let u = duels_uci(&a, &plan, 1800, 2200, 7);
    assert_eq!(u.len(), 3);
    assert_eq!((u[0].elo_reel, u[0].clampe), (1800, true));
    assert_eq!((u[1].elo_reel, u[1].clampe), (2000, false));
    assert_eq!((u[2].elo_reel, u[2].clampe), (2200, true));
    assert_eq!(u[1].graine, (7u64 + 0x5F00 + 1).wrapping_mul(0x9E37_79B9));
}

#[test]
fn mesures_des_duels() {
    let a = ancres();
    let plan = plan_complet(&a, 10);
    let d = duels_maison(&a, &plan, 1);
    let scores: Vec<Score> = vec![score(0.5); d.len()];
    let m = mesures_maison(&a, &d, &scores);
    assert_eq!(m.len(), 5);
    assert_eq!((m[4].nom, m[4].elo_ancre, m[4].parties), ("materiel d4", 1550, 10));
    let u = duels_uci(&a, &plan, 1320, 2200, 1);
    let s: Vec<Option<Score>> = vec![Some(score(0.25)), None, Some(score(0.1))];
    let mu = mesures_uci(&a, &u, &s);
    assert_eq!(mu.len(), 2);
    assert_eq!((mu[1].nom, mu[1].elo_ancre), ("stockfish 2300", 2200));
}

#[test]
fn duel_contre_le_hasard() {
    let duel = DuelMaison { index: 0, profondeur: None, parties: 4, graine: 11, resondage: false };
    let f = |g: u64| MaterialBot::new(g, 1);
    match score_maison(&duel, &f) {
        Ok((points, sur)) => {
            assert_eq!(sur, 8);
            assert!(points >= 4, "{points} demi-points sur {sur}");
        }
        Err(_) => panic!("duel interrompu"),
    }
    let a = ancres();
    let plan = vec![
        PlanAncre { index: 0, parties: 2, resondage: false },
        PlanAncre { index: 5, parties: 2, resondage: false },
    ];
    let g = |g: u64| RandomBot::new(g);
    match mesure_plan(&a, &plan, 3, &g) {
        Ok(v) => {
            assert_eq!(v.len(), 1);
            assert_eq!(v[0].1, 4);
        }
        Err(_) => panic!("mesure interrompue"),
    }
}

#[test]
fn budget_nul_sans_plan() {
    let a = ancres();
    let n = a.len();
    assert!(plan_adaptatif(&a, &vec![None; n], &vec![0; n], 0).is_empty());
    assert!(plan_adaptatif(&vec![], &vec![], &vec![], 100).is_empty());
}

#[test]
fn paliers_du_moteur_dans_ses_bornes() {
    let p = palier_moteur(1000, 0, 1320, 3190, 7);
    assert_eq!((p.nom.as_str(), p.elo_reel, p.clampe), ("stockfish-1320", 1320, true));
    assert_eq!(p.graine, derive_graine(7, 0x5F00));
    let p = palier_moteur(2000, 3, 1320, 3190, 7);
    assert_eq!((p.elo_reel, p.clampe), (2000, false));
    assert_eq!(p.graine, derive_graine(7, 0x5F03));
    assert_eq!(palier_moteur(4000, 0, 1320, 3190, 7).elo_reel, 3190);
    assert_eq!(nom_de_journal("a,b;c d"), "a_b_c d");
}

/// An engine that plays at random, or that never answers.
struct Moteur {
    hasard: Option<RandomBot>,
}

impl Bot for Moteur {
    fn choisit(&mut self, fen: &str) -> Option<String> {
        self.hasard.as_mut().and_then(|b| b.choisit(fen))
    }
}

#[test]
fn ancres_uci_jouees_par_un_moteur() {
    let a = ancres();
    let n = a.iter().filter(|x| matches!(x.genre, GenreAncre::Uci { .. })).count();
    let joueur = |g: u64| RandomBot::new(g);
    let moteur = |elo: u32, ms: u64| {
        assert!((1320..=1800).contains(&elo) && ms > 0);
        Moteur { hasard: Some(RandomBot::new(u64::from(elo))) }
    };
    let v = mesure_uci(&a, 2, 1320, 1800, 9, &joueur, &moteur);
    assert_eq!(v.len(), n);
    assert!(v.iter().all(|s| matches!(s, Some((p, 4)) if *p <= 4)));
}

#[test]
fn moteur_muet_ancre_sautee() {
    let a = ancres();
    let i = (0..a.len()).find(|i| est_uci(&a, *i)).unwrap();
    let plan = vec![
        PlanAncre { index: 0, parties: 2, resondage: false },
        PlanAncre { index: i, parties: 2, resondage: false },
        PlanAncre { index: i + 1, parties: 0, resondage: false },
    ];
    let joueur = |g: u64| RandomBot::new(g);
    let muet = |_: u32, _: u64| Moteur { hasard: None };
    assert_eq!(mesure_uci_plan(&a, &plan, 1320, 3190, 0, &joueur, &muet), [None]);
}

#[test]
fn mesure_de_toutes_les_ancres_maison() {
    let a: Vec<_> = ancres().into_iter().take(1).collect();
    let joueur = |g: u64| RandomBot::new(g);
    match elo::mesure(&a, 4, 3, &joueur) {
        Ok(v) => {
            assert_eq!(v.len(), 1);
            assert!(v[0].0 <= 8 && v[0].1 == 8);
            let plan = plan_complet(&a, 4);
            assert_eq!(mesure_plan(&a, &plan, 3, &joueur).ok(), Some(v), "mêmes graines");
        }
        Err(_) => panic!("partie suspendue"),
    }
}

#[test]
fn journal_tronque_sans_memoire() {
    let entier = "heures,ancre,score_pct,parties\n10.000,aleatoire,50.0,24\n";
    let e = charge(entier);
    assert_eq!(e.derniers()[0], Some(score(0.5)));
    assert!(e.actives()[0]);
    let n = ancres().len();
    for coupe in [
        "heures,ancre,score_pct,parties\n10.000,aleatoire,50.0,24\n11.000,mat",
        "heures,ancre,score_pct,parties\n10.000,aleatoire,50.0,24",
        "heures,anc",
        "",
    ] {
        let e = charge(coupe);
        assert_eq!(*e.derniers(), vec![None; n]);
        assert_eq!(*e.depuis(), vec![0; n]);
        assert_eq!(*e.actives(), vec![false; n]);
    }
}
