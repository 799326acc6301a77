//! Training: the command lines, the cycle, the memory, the milestones, the
//! game on the air, the test bench.
use echec::arbitre::{Classement, ScoreUci};
use echec::arena::paires_du_duel;
use echec::banc::{compte, mediane, perte, position_parlante};
use echec::checkpoints::{latest_path, milestone_crossed, milestone_path, state_path, TrainState};
use echec::commandes::{
    etiqueteurs_exclusifs, lit_options_calibration, lit_options_train, options_arbitre, options_banc, options_calibrate, options_calibration,
    options_distill, options_forensic, options_greffe, options_match, options_train,
    sorties_distinctes, ErreurCalibrate, ErreurGreffe, ErreurLigne, ModeGreffe, OptionsTrain, RefusGreffe,
    RefusSortie,
};
use echec::departs::RefusParts;
use echec::cycle::{
    ajout_csv, ancre_compatible, apres_cycle, couperet, couperet_du, duree_creditee, elo_du,
    etiqueteur, graine_du_depart, graines_de_travail, graines_du_cycle, lots, lots_de_rejeu,
    lots_du_cycle, marqueur_a_poser, marqueur_du_couperet, sort_de_mesure, utilise_departs,
    Couperet, Etiqueteur, SortMesure, MINIBATCH,
};
use echec::direct::Direct;
use echec::elo::{ancres, EtatEchelle};
use echec::features::N_FEATURES;
use echec::graines::derive_graine;
use echec::nn::SchemaFeatures;
use echec::options::ErreurOption;
use echec::rejeu::{Rejeu, RejeuCreux};
use rand::rngs::StdRng;
use rand::SeedableRng;

fn args(v: &[&str]) -> Vec<String> {
    v.iter().map(|s| s.to_string()).collect()
}

/// The arguments read as real numbers, where they are.
fn reels(v: &Vec<String>) -> Vec<Option<u32>> {
    v.iter().map(|s| s.parse::<f32>().ok().map(|x| x.to_bits())).collect()
}

fn train(v: &[&str]) -> OptionsTrain {
    let a = args(v);
    match options_train(&a, &reels(&a)) {
        Ok(o) => o,
        Err(e) => panic!("{}", e.message()),
    }
}

fn refus_train(v: &[&str]) -> ErreurOption {
    let a = args(v);
    match options_train(&a, &reels(&a)) {
        Ok(_) => panic!("accepté"),
        Err(e) => e,
    }
}

#[test]
fn gate_games_est_honore() {
    let opt = train(&["--gate-games", "512", "--gate-every", "40"]);
    assert_eq!(opt.gate_games, 512);
    assert_eq!(opt.gate_every, 40);
    assert_eq!(paires_du_duel(opt.gate_games as usize), 256);
    assert_eq!(2 * paires_du_duel(opt.gate_games as usize), 512, "budget réellement joué");
    assert_eq!(paires_du_duel(64), 32);
    assert_eq!(paires_du_duel(7), 3);
    assert_eq!(paires_du_duel(1), 0);
    assert_eq!(paires_du_duel(0), 0);
}

#[test]
fn budget_du_couperet_inchange_par_cycle() {
    let avant: f64 = 64.0 / 5.0;
    let apres: f64 = 512.0 / 40.0;
    assert!((avant - apres).abs() < 1e-9, "{avant} contre {apres} parties par cycle");
}

#[test]
fn elo_games_est_un_budget_total() {
    assert_eq!(train(&[]).elo_games, 168);
    let opt = train(&["--elo-games", "96"]);
    assert_eq!(opt.elo_games, 96);
    let a = ancres();
    let plan = EtatEchelle::neuf(a.len()).plan(&a, opt.elo_games as usize);
    let joue: usize = plan.iter().map(|e| e.parties).sum();
    assert!(joue <= opt.elo_games as usize, "{joue} parties");
}

#[test]
fn syzygy_absent_par_defaut() {
    assert!(train(&[]).syzygy.is_empty());
    let opt = train(&["--syzygy", "engines/syzygy"]);
    assert_eq!(opt.syzygy, "engines/syzygy");
}

#[test]
fn entrainement_par_defaut() {
    let o = train(&[]);
    assert_eq!(o.out, "models");
    assert_eq!((o.threads, o.games_per_cycle, o.eval_games, o.replay), (10, 128, 120, 1_200_000));
    assert_eq!((o.elo_every, o.seed, o.search_nodes), (15, 0, 1500));
    assert_eq!((o.gate_every, o.gate_games, o.oracle_movetime), (10, 64, 15));
    assert_eq!(f32::from_bits(o.temperature), 0.35);
    assert_eq!(f32::from_bits(o.lr), 0.001);
    assert_eq!(f32::from_bits(o.td_lambda), 0.3);
    assert_eq!(f32::from_bits(o.mentor_poids), 1.0);
    assert_eq!(f32::from_bits(o.ancre_lambda), 5.0);
    assert!(!o.int8);
}

#[test]
fn options_lues_dans_l_ordre() {
    let o = train(&["--int8", "--lr", "0.5", "--seed", "3", "--seed", "4", "--out", "--int8"]);
    assert!(o.int8);
    assert_eq!(f32::from_bits(o.lr), 0.5);
    assert_eq!(o.seed, 4, "la dernière valeur l'emporte");
    assert_eq!(o.out, "--int8", "la valeur d'une option n'est pas relue comme option");
}

#[test]
fn options_refusees() {
    assert_eq!(refus_train(&["--bidon"]).message(), "option inconnue : --bidon");
    assert_eq!(refus_train(&["--lr"]).message(), "option --lr : valeur manquante");
    let e = refus_train(&["--seed", "deux"]);
    assert!(matches!(&e, ErreurOption::Invalide(n, v) if n == "--seed" && v == "deux"));
    assert!(matches!(refus_train(&["--lr", "vite"]), ErreurOption::Invalide(_, _)));
    assert!(matches!(refus_train(&["--seed", "-1"]), ErreurOption::Invalide(_, _)));
}

#[test]
fn etiqueteurs_l_un_ou_l_autre() {
    assert!(etiqueteurs_exclusifs(&train(&["--mentor", "a.bin"])));
    assert!(etiqueteurs_exclusifs(&train(&["--oracle", "b"])));
    assert!(!etiqueteurs_exclusifs(&train(&["--mentor", "a.bin", "--oracle", "b"])));
}

#[test]
fn autres_lignes_de_commande() {
    let a = args(&["--games", "3"]);
    match options_match(&a, &reels(&a)) {
        Ok(o) => assert_eq!(o.games, 3),
        Err(e) => panic!("{}", e.message()),
    }
    let a = args(&["--movetime", "x"]);
    match options_arbitre(&a, &reels(&a)) {
        Ok(_) => panic!("accepté"),
        Err(e) => {
            assert_eq!(e.message_illisible(), "option --movetime : valeur illisible « x »");
        }
    }
    let a = args(&["--movetime", "250"]);
    match options_arbitre(&a, &reels(&a)) {
        Ok(o) => assert_eq!(o.movetime, 250),
        Err(e) => panic!("{}", e.message()),
    }
    let a = args(&["--positions", "12", "--int8"]);
    match options_banc(&a, &reels(&a)) {
        Ok(o) => assert_eq!(o.positions, 12),
        Err(e) => panic!("{}", e.message()),
    }
    let a = args(&["--append", "--departs-finales", "0.25"]);
    match options_calibration(&a, &reels(&a)) {
        Ok(o) => {
            assert!(o.append);
            assert_eq!(f32::from_bits(o.departs_finales), 0.25);
        }
        Err(e) => panic!("{}", e.message()),
    }
    let a = args(&["--net-b", "x.bin", "--seed", "9"]);
    match options_forensic(&a, &reels(&a)) {
        Ok(o) => {
            assert_eq!(o.net_b.as_deref(), Some("x.bin"));
            assert_eq!(o.seed, 9);
        }
        Err(e) => panic!("{}", e.message()),
    }
    let a = args(&["--sizes", "773,64,1", "--schema", "roi8"]);
    match options_distill(&a, &reels(&a)) {
        Ok(o) => {
            assert_eq!(o.sizes, [773, 64, 1]);
            assert!(o.sizes_explicites);
            assert_eq!(o.schema, SchemaFeatures::RoiZones8);
        }
        Err(e) => panic!("{}", e.message()),
    }
}

#[test]
fn calibrage_refuse_le_vide() {
    let lit = |v: &[&str]| {
        let a = args(v);
        options_calibrate(&a, &reels(&a))
    };
    match lit(&["--elos", "1500,2000", "--games", "4"]) {
        Ok(o) => {
            assert_eq!(o.elos, [1500, 2000]);
            assert_eq!(o.games, 4);
        }
        Err(_) => panic!("refusé"),
    }
    assert!(matches!(lit(&["--games", "0"]), Err(ErreurCalibrate::RienAJouer)));
    assert!(matches!(lit(&["--recherche-movetime", "0"]), Err(ErreurCalibrate::TempsNul)));
    assert!(matches!(lit(&["--elos", "15x"]), Err(ErreurCalibrate::Option(_))));
}

#[test]
fn modes_de_la_greffe() {
    let lit = |v: &[&str]| {
        let a = args(v);
        options_greffe(&a, &reels(&a))
    };
    match lit(&["--out", "g.bin"]) {
        Ok(o) => assert!(matches!(&o.mode, ModeGreffe::Greffe(s) if s == "g.bin")),
        Err(_) => panic!("refusé"),
    }
    match lit(&["--compare", "a.bin", "b.bin"]) {
        Ok(o) => assert!(matches!(&o.mode, ModeGreffe::Compare(a, b) if a == "a.bin" && b == "b.bin")),
        Err(_) => panic!("refusé"),
    }
    assert!(matches!(lit(&[]), Err(ErreurGreffe::Refus(RefusGreffe::PasUnMode))));
    assert!(matches!(
        lit(&["--out", "a", "--diagnose", "b"]),
        Err(ErreurGreffe::Refus(RefusGreffe::PasUnMode))
    ));
    assert!(matches!(
        lit(&["--out", "a", "--positions", "0"]),
        Err(ErreurGreffe::Refus(RefusGreffe::PositionsNulles)) | Err(ErreurGreffe::Option(_))
    ));
}

#[test]
fn sorties_sans_collision() {
    assert_eq!(sorties_distinctes(false, false, false), Ok(()));
    assert_eq!(sorties_distinctes(true, true, true), Err(RefusSortie::OutSurDirect));
    assert_eq!(sorties_distinctes(false, true, true), Err(RefusSortie::CsvSurDirect));
    assert_eq!(sorties_distinctes(false, false, true), Err(RefusSortie::MemeFichier));
}

#[test]
fn paliers_franchis() {
    let p = |a: f64, b: f64| milestone_crossed(a.to_bits(), b.to_bits());
    assert_eq!(p(0.9, 1.1), Some(1));
    assert_eq!(p(1.1, 2.9), None);
    assert_eq!(p(2.9, 10.5), Some(3));
    assert_eq!(p(100.0, 200.0), None);
    assert_eq!(p(0.5, 1.0), Some(1));
    assert_eq!(p(-0.0, 0.5), None);
    assert_eq!(p(f64::NAN, 5.0), None);
    assert_eq!(p(99.0, 100.0), Some(100));
}

#[test]
fn palier_franchi_une_fois() {
    let t = [0.0f64, 0.4, 1.0, 2.0, 3.5, 30.0, 31.0];
    let vus: Vec<u64> = t
        .windows(2)
        .filter_map(|w| milestone_crossed(w[0].to_bits(), w[1].to_bits()))
        .collect();
    assert_eq!(vus, [1, 3, 10], "le pas de 3,5 à 30 h franchit 10 et 30");
}

#[test]
fn chemins() {
    assert_eq!(milestone_path("models", 1), "models/chess_t1h.bin");
    assert_eq!(milestone_path("models", 10), "models/chess_t10h.bin");
    assert_eq!(latest_path("models"), "models/chess_latest.bin");
    assert_eq!(state_path("models"), "models/state.json");
}

#[test]
fn etat_de_reprise() {
    let vierge = TrainState::load(None);
    assert_eq!(vierge, TrainState::default());
    assert_eq!(vierge.games, 0);
    let e =
        TrainState { trained_secs: 12.5f64.to_bits(), games: 3, positions: 42, cycles: 7 };
    assert_eq!(TrainState::load(Some(e)), e);
    let s = apres_cycle(&e, 20.0f64.to_bits(), 128, 5000);
    assert_eq!((s.games, s.positions, s.cycles), (131, 5042, 8));
    assert_eq!(f64::from_bits(s.trained_secs), 20.0);
}

#[test]
fn graines_d_une_reprise() {
    let suite = graines_du_cycle(10, 0, 6);
    let reprise = graines_du_cycle(10, 4, 2);
    assert_eq!(&suite[4..], &reprise[..]);
    assert_eq!(graines_du_cycle(u64::MAX, 1, 2), [0, 1]);
    let e = TrainState { trained_secs: 0, games: 256, positions: 0, cycles: 2 };
    let g = graines_de_travail(7, &e);
    assert_eq!(g.melange, derive_graine(9, 0x5AFF1E));
    assert_eq!(g.rejeu, derive_graine(9, 0x8E3E0));
    assert_eq!(g.hasard, derive_graine(263, 0xA1EA));
    assert_eq!(g.materiel, derive_graine(263, 0x0A7E));
    assert_eq!(g.elo, derive_graine(10, 0xE10));
    assert_eq!(g.duel, derive_graine(10, 0x6A7E));
    assert_eq!(graine_du_depart(5), derive_graine(5, 0xDE9A47));
}

#[test]
fn chaque_position_une_fois() {
    let l = lots_du_cycle(600, 3);
    assert_eq!(l.len(), 3);
    assert_eq!((l[0].len(), l[1].len(), l[2].len()), (256, 256, 88));
    let mut tous: Vec<usize> = l.concat();
    assert_ne!(tous, (0..600).collect::<Vec<_>>(), "mélange sans effet");
    tous.sort_unstable();
    assert_eq!(tous, (0..600).collect::<Vec<_>>());
    assert!(lots_du_cycle(0, 3).is_empty());
    assert_eq!(lots(&(0..256).collect()).len(), 1);
    assert_eq!(lots_de_rejeu(600, MINIBATCH), 3);
    assert_eq!(lots_de_rejeu(600, MINIBATCH - 1), 0);
}

#[test]
fn decisions_d_un_cycle() {
    assert_eq!(etiqueteur(0, true, true, true), Etiqueteur::UnPli);
    assert_eq!(etiqueteur(9, true, true, false), Etiqueteur::Oracle);
    assert_eq!(etiqueteur(9, true, false, true), Etiqueteur::Eleve);
    assert_eq!(etiqueteur(9, false, false, true), Etiqueteur::Mentor);
    assert_eq!(etiqueteur(9, false, false, false), Etiqueteur::Eleve);
    assert!(utilise_departs(1, 0, 0, 0.1f32.to_bits()));
    assert!(!utilise_departs(0, 1.0f32.to_bits(), 0, 0));
    assert!(!utilise_departs(1, (-0.0f32).to_bits(), 0, f32::NAN.to_bits()));
    let c = SchemaFeatures::Classique773;
    assert!(ancre_compatible(&vec![773, 1], c, &vec![773, 1], c));
    assert!(!ancre_compatible(&vec![773, 1], c, &vec![773, 2], c));
    assert!(!ancre_compatible(&vec![773, 1], c, &vec![773, 1], SchemaFeatures::RoiZones8));
    assert!(elo_du(15, 1, 4));
    assert!(elo_du(15, 2, 30));
    assert!(!elo_du(15, 2, 31));
    assert!(!elo_du(0, 1, 30));
    assert!(couperet_du(1, 10, 20));
    assert!(!couperet_du(0, 10, 20));
    assert!(!couperet_du(1, 0, 20));
    assert_eq!(couperet(false, false), Couperet::PlaceLibre);
    assert_eq!(couperet(true, false), Couperet::Secours);
    assert_eq!(couperet(true, true), Couperet::Duel);
    assert_eq!(sort_de_mesure(0, true), SortMesure::Vide);
    assert_eq!(sort_de_mesure(2, false), SortMesure::Degeneree);
    assert_eq!(sort_de_mesure(2, true), SortMesure::Publiee);
    let d = |s: f64| f64::from_bits(duree_creditee(s.to_bits()));
    assert_eq!(d(180.5), 180.5);
    assert_eq!(d(900.0), 900.0);
    assert_eq!(d(60_840.0), 900.0);
}

#[test]
fn marqueurs_et_journaux() {
    assert_eq!(marqueur_du_couperet(512, 40), "couperet 512x40");
    assert!(marqueur_a_poser(None, "recherche"));
    assert!(marqueur_a_poser(Some("elapsed_hours,label\n"), "recherche"));
    let journal = ajout_csv(true, "elapsed_hours,label", "1.000,recherche");
    assert_eq!(journal, "elapsed_hours,label\n1.000,recherche\n");
    assert!(!marqueur_a_poser(Some(&journal), "recherche"));
    assert_eq!(ajout_csv(false, "elapsed_hours,label", "x"), "x\n");
    assert!(!marqueur_a_poser(Some("abc"), ""));
    assert!(marqueur_a_poser(Some("ab"), "abc"));
}

#[test]
fn anneau_creux() {
    let mut r = RejeuCreux::new(3);
    for k in 0..5u16 {
        r.push(&vec![k, k + 1], u32::from(k));
    }
    assert_eq!(r.len(), 3);
    assert_eq!(r.zs, [3, 4, 2], "la quatrième entrée remplace la première");
    assert_eq!(r.actifs[0], [3, 4]);
    let mut rng = StdRng::seed_from_u64(1);
    let lot = r.echantillonne(&mut rng, 40);
    assert_eq!(lot.len(), 40);
    for (a, z) in &lot {
        assert_eq!(u32::from(a[0]), *z);
        assert!((2..=4).contains(z));
    }
    assert!((2..=4u32).all(|z| lot.iter().any(|e| e.1 == z)), "chaque entrée est tirée");
}

#[test]
fn anneau_dense() {
    let mut r = Rejeu::new(2);
    for k in 0..3u32 {
        r.push(&vec![k; N_FEATURES], 10 + k);
    }
    assert_eq!(r.len(), 2);
    assert_eq!(r.zs, [12, 11]);
    assert_eq!(r.xs.len(), 2 * N_FEATURES);
    assert_eq!((r.xs[0], r.xs[N_FEATURES]), (2, 1));
    let mut rng = StdRng::seed_from_u64(1);
    let (xs, zs) = r.echantillonne(&mut rng, 20);
    assert_eq!(xs.len(), 20 * N_FEATURES);
    for k in 0..20 {
        assert!(xs[k * N_FEATURES..(k + 1) * N_FEATURES].iter().all(|&x| x + 10 == zs[k]));
    }
}

#[test]
fn micro_exclusif_puis_rendu() {
    let mut d = Direct::neuf();
    assert!(d.prendre_le_micro().is_none(), "personne n'a configuré le direct");
    d.configure("live.json");
    d.configure("autre.json");
    let j = d.prendre_le_micro().expect("micro libre");
    assert!(d.prendre_le_micro().is_none(), "le micro tenu ne doit pas être pris");
    let p = d.publie(&j, Some("1-0")).expect("publication");
    assert_eq!(p.chemin, "live.json", "seul le premier chemin compte");
    assert_eq!(p.provisoire, "live.json.tmp");
    assert!(p.precedent.is_none());
    d.rendre_le_micro(j);
    let j2 = d.prendre_le_micro().expect("micro rendu");
    let p = d.publie(&j2, None).expect("publication");
    assert_eq!(p.precedent.as_deref(), Some("1-0"));
    let p = d.publie(&j2, None).expect("publication");
    assert_eq!(p.precedent.as_deref(), Some("1-0"), "le résultat précédent survit");
    assert_eq!(d.cycle_courant(), 0);
    d.annonce_cycle(12);
    assert_eq!(d.cycle_courant(), 12);
}

#[test]
fn pertes_du_banc() {
    assert!(position_parlante(800));
    assert!(!position_parlante(801));
    assert!(!position_parlante(-32_000));
    assert_eq!(perte(50, None), 0);
    assert_eq!(perte(50, Some(ScoreUci::Cp(-50))), 0);
    assert_eq!(perte(50, Some(ScoreUci::Cp(30))), 80);
    assert_eq!(perte(0, Some(ScoreUci::Cp(-40))), 0);
    assert_eq!(perte(100, Some(ScoreUci::Mat(2))), 600);
    assert_eq!(mediane(&vec![]), 0);
    assert_eq!(mediane(&vec![5, 1, 9]), 5);
    assert_eq!(mediane(&vec![4, 1, 3, 2]), 3);
    assert_eq!(mediane(&vec![7, 7, 7, 0]), 7);
    let v = vec![0, 19, 20, 400, 300, 60];
    assert_eq!(compte(&v, Classement::Excellent), 2);
    assert_eq!(compte(&v, Classement::Bon), 1);
    assert_eq!(compte(&v, Classement::Imprecision), 1);
    assert_eq!(compte(&v, Classement::Gaffe), 2);
    assert_eq!(compte(&v, Classement::Meilleur), 0);
}

fn somme_des_parts(a: u32, b: u32, c: u32) -> u32 {
    (f32::from_bits(a) + f32::from_bits(b) + f32::from_bits(c)).to_bits()
}

#[test]
fn parts_gardees_a_la_lecture() {
    let refus = |v: &[&str]| {
        let a = args(v);
        match lit_options_train(&a, &reels(&a), &somme_des_parts) {
            Ok(_) => None,
            Err(ErreurLigne::Parts { refus, .. }) => Some(refus),
            Err(ErreurLigne::Option(e)) => panic!("{}", e.message()),
        }
    };
    assert_eq!(refus(&[]), None);
    assert_eq!(refus(&["--departs-finales", "2"]), Some(RefusParts::Part(1)));
    assert_eq!(refus(&["--departs-ouvertures", "-0.1"]), Some(RefusParts::Part(0)));
    assert_eq!(refus(&["--departs-transition", "nan"]), Some(RefusParts::Part(2)));
    let trop = ["--departs-ouvertures", "0.5", "--departs-finales", "0.4", "--departs-transition", "0.4"];
    assert_eq!(refus(&trop), Some(RefusParts::Somme));
    let a = args(&["--bidon"]);
    match lit_options_train(&a, &reels(&a), &somme_des_parts) {
        Err(ErreurLigne::Option(e)) => assert_eq!(e.message(), "option inconnue : --bidon"),
        _ => panic!("accepté"),
    }
    let a = args(&["--departs-finales", "0.5"]);
    match lit_options_calibration(&a, &reels(&a), &somme_des_parts) {
        Err(ErreurLigne::Parts { refus, parts, somme }) => {
            assert_eq!(refus, RefusParts::Somme);
            assert_eq!(f32::from_bits(parts.0), 0.6);
            assert_eq!(f32::from_bits(parts.1), 0.5);
            assert!(f32::from_bits(somme) > 1.0);
        }
        _ => panic!("0,6 + 0,5 accepté"),
    }
    let a = args(&["--departs-finales", "0.3"]);
    match lit_options_calibration(&a, &reels(&a), &somme_des_parts) {
        Ok(o) => assert_eq!(f32::from_bits(o.departs_finales), 0.3),
        Err(_) => panic!("refusé"),
    }
}

#[test]
fn refus_de_la_distillation() {
    let refus = |v: &[&str]| {
        let a = args(v);
        match options_distill(&a, &reels(&a)) {
            Ok(_) => panic!("accepté"),
            Err(e) => e.message(),
        }
    };
    assert_eq!(
        refus(&["--schema", "roi9"]),
        "option --schema : « roi9 » inconnu (attendu : classique | roi8)"
    );
    assert_eq!(
        refus(&["--epoques-max", "0"]),
        "option --epoques-max : 0 refuse (au moins une epoque)"
    );
    assert_eq!(
        refus(&["--epoques-max", "x"]),
        "option --epoques-max : valeur invalide « x »"
    );
}
