//! Players, games, duels and the positions drawn from them.
use echec::arena::{
    bilan, duel_gating, ecrit_ligne_duel, graines_de_paire, graines_du_duel, jouer_depuis,
    jouer_duel, ouverture_aleatoire, paires_du_duel, part_des_points, partie_de_serie,
    partie_gating, points_du_camp, promotion, score, Bilan,
};
use echec::bots::{
    branches, classe_fille, est_position_initiale, material_eval, materiel_trait, meilleurs_coups,
    negamax, Bot, Evaluation, Fille, MaterialBot, Materiel, NetBot, ParFonctions, RandomBot, BORNE,
};
use echec::corpus::{
    eleve_fidele, encore_une_epoque, famille_de_graine, graine_de_validation, graines_de_promenade,
    partie_corpus, partie_positions, partie_tiree, rassemble, taille_vague, verifie_eleve, BotDistrait,
    RefusEleve, MAX_PLIS,
};
use echec::departs::Famille;
use echec::graines::{derive_graine, graine_de_famille};
use echec::jeu::{examine, EtatPosition, Jeu};
use echec::nn::SchemaFeatures;
use rayon::iter::{IndexedParallelIterator, IntoParallelIterator, ParallelIterator};
use shakmaty::fen::Fen;
use shakmaty::zobrist::{Zobrist64, ZobristHash};
use shakmaty::{CastlingMode, Chess, EnPassantMode, Position};

const DEPART: &str = "rnbqkbnr/pppppppp/8/8/8/8/PPPPPPPP/RNBQKBNR w KQkq - 0 1";
/// The side to move is mated.
const MAT: &str = "rnb1kbnr/pppp1ppp/8/4p3/6Pq/5P2/PPPPP2P/RNBQKBNR w KQkq - 1 3";
/// The side to move has no move and is not in check.
const PAT: &str = "7k/5Q2/6K1/8/8/8/8/8 b - - 0 1";

fn position(fen: &str) -> Chess {
    fen.parse::<Fen>().expect("FEN").into_position(CastlingMode::Standard).expect("position")
}

fn etat(fen: &str) -> EtatPosition {
    examine(fen).expect("position lisible")
}

/// A player that never gives a move.
struct Muet;

impl Bot for Muet {
    fn choisit(&mut self, _fen: &str) -> Option<String> {
        None
    }
}

/// A player that repeats a list of moves.
struct Recitant(Vec<&'static str>, usize);

impl Bot for Recitant {
    fn choisit(&mut self, _fen: &str) -> Option<String> {
        let m = self.0[self.1 % self.0.len()];
        self.1 += 1;
        Some(m.to_string())
    }
}

#[test]
fn partie_aleatoire_se_termine() {
    for graine in 0..20u64 {
        let mut blanc = RandomBot::new(graine);
        let mut noir = RandomBot::new(graine + 1000);
        match jouer_duel(&mut blanc, &mut noir, 600) {
            Ok((j, _r)) => {
                let plis = j.coups.len();
                assert!(plis < 600, "partie non terminée naturellement (graine {graine}) : {plis}");
            }
            Err(_) => panic!("partie interrompue"),
        }
    }
}

#[test]
fn material_bat_random() {
    let a = |g: u64| MaterialBot::new(g, 2);
    let b = |g: u64| RandomBot::new(g);
    let (points, sur) = match score(&a, &b, 20, 42) {
        Ok(f) => f,
        Err(_) => panic!("partie interrompue"),
    };
    let s = points as f32 / sur as f32;
    assert!(s >= 0.8, "score MaterialBot(d2) vs RandomBot trop faible : {s}");
}

#[test]
fn serie_partie_par_partie() {
    let a = |g: u64| MaterialBot::new(g, 1);
    let b = |g: u64| RandomBot::new(g);
    let resultats: Vec<i32> = (0..4u64)
        .map(|i| match partie_de_serie(&a, &b, i, 7) {
            Ok(r) => r,
            Err(_) => panic!("partie interrompue"),
        })
        .collect();
    match score(&a, &b, 4, 7) {
        Ok(f) => assert_eq!(f, part_des_points(&resultats)),
        Err(_) => panic!("duel interrompu"),
    }
}

#[test]
fn fin_par_le_mat() {
    let mut blanc = Recitant(vec!["f2f3", "g2g4"], 0);
    let mut noir = Recitant(vec!["e7e5", "d8h4"], 0);
    match jouer_duel(&mut blanc, &mut noir, 300) {
        Ok((j, r)) => {
            assert_eq!(r, -1);
            assert_eq!(j.coups, ["f2f3", "e7e5", "g2g4", "d8h4"]);
            assert_eq!(j.fens.len(), 5);
            assert_eq!(j.fen(), MAT);
        }
        Err(_) => panic!("partie interrompue"),
    }
}

#[test]
fn fin_par_repetition() {
    let mut blanc = Recitant(vec!["g1f3", "f3g1"], 0);
    let mut noir = Recitant(vec!["g8f6", "f6g8"], 0);
    match jouer_duel(&mut blanc, &mut noir, 300) {
        Ok((j, r)) => {
            assert_eq!(r, 0);
            assert_eq!(j.coups.len(), 8, "troisième retour de la position de départ");
        }
        Err(_) => panic!("partie interrompue"),
    }
}

#[test]
fn fin_au_plafond() {
    let mut blanc = Recitant(vec!["e2e4", "d2d4"], 0);
    let mut noir = Recitant(vec!["e7e5", "d7d5"], 0);
    match jouer_duel(&mut blanc, &mut noir, 3) {
        Ok((j, r)) => assert_eq!((j.coups.len(), r), (3, 0)),
        Err(_) => panic!("partie interrompue"),
    }
}

#[test]
fn joueur_muet_ou_illegal() {
    let mut alea = RandomBot::new(1);
    match jouer_duel(&mut Muet, &mut alea, 300) {
        Ok(_) => panic!("partie jouée sans coup"),
        Err(j) => assert_eq!(j.coups.len(), 0),
    }
    let mut faux = Recitant(vec!["e2e5"], 0);
    match jouer_duel(&mut alea, &mut faux, 300) {
        Ok(_) => panic!("coup illégal joué"),
        Err(j) => assert_eq!(j.coups.len(), 1),
    }
    let a = |_g: u64| Muet;
    let b = |g: u64| RandomBot::new(g);
    assert!(score(&a, &b, 2, 1).is_err());
}

#[test]
fn points_et_parts() {
    assert_eq!(points_du_camp(1, true), 2);
    assert_eq!(points_du_camp(1, false), 0);
    assert_eq!(points_du_camp(0, false), 1);
    assert_eq!(part_des_points(&vec![]), (1, 2));
    assert_eq!(part_des_points(&vec![1, 1, 0]), (3, 6));
    let a = |g: u64| RandomBot::new(g);
    assert!(matches!(score(&a, &a, 0, 1), Ok((1, 2))));
    assert_eq!(graines_du_duel(10, 3), (16, 17));
}

#[test]
fn seuil_de_promotion_a_52_5_pourcent() {
    let p = |s: f32| promotion(s.to_bits());
    assert!(!p(0.5), "un duel nul ne promeut pas");
    assert!(!p(0.524), "juste sous le seuil : refus");
    assert!(p(0.525), "le seuil lui-même promeut");
    assert!(p(0.60));
    assert!(p(0.53), "53 % promeut");
    assert!(!p(f32::NAN));
}

#[test]
fn duel_de_promotion() {
    assert_eq!(paires_du_duel(7), 3);
    let a = |g: u64| MaterialBot::new(g, 1);
    let b = |g: u64| RandomBot::new(g);
    match duel_gating(&a, &b, 5, 9) {
        Ok((points, sur)) => {
            assert_eq!(sur, 8, "deux paires de deux parties");
            assert!(points >= 5, "{points} demi-points");
        }
        Err(_) => panic!("duel interrompu"),
    }
    assert!(matches!(duel_gating(&a, &b, 1, 9), Ok((1, 2))));
    let o = ouverture_aleatoire(3);
    assert_eq!(o.coups.len(), 4);
    let mut x = RandomBot::new(1);
    let mut y = RandomBot::new(2);
    match partie_gating(&mut x, &mut y, false, o.clone()) {
        Ok((j, _)) => assert_eq!(&j.coups[..4], &o.coups[..]),
        Err(_) => panic!("partie interrompue"),
    }
    let (go, g1, g2) = graines_de_paire(5, 2);
    assert_eq!(go, derive_graine(5, 4));
    assert_eq!(g1, derive_graine(5, 5));
    assert_eq!(g2, g1.wrapping_add(2));
}

#[test]
fn partie_reprise_d_une_position() {
    let j = Jeu::neuf(MAT).expect("position");
    let mut a = RandomBot::new(1);
    let mut b = RandomBot::new(2);
    match jouer_depuis(j, &mut a, &mut b, 300) {
        Ok((j, r)) => assert_eq!((j.coups.len(), r), (0, -1)),
        Err(_) => panic!("partie interrompue"),
    }
    assert!(Jeu::neuf("rien").is_none());
}

#[test]
fn journal_d_un_duel() {
    assert_eq!(ecrit_ligne_duel("a.bin", None, 3, true, 2), "a.bin,3,blanc,1");
    assert_eq!(ecrit_ligne_duel("a.bin", Some("b.bin"), 4, false, 1), "a.bin,b.bin,4,noir,0.5");
    let b = bilan(&vec![2, 1, 0, 2]);
    assert_eq!(b, Bilan { victoires: 2, nulles: 1, defaites: 1 });
}

#[test]
fn jeu_suit_les_regles() {
    let mut j = Jeu::neuf(DEPART).expect("départ");
    assert!(j.joue("e2e4"));
    assert!(!j.joue("e2e4"), "coup illégal refusé");
    assert!(!j.joue("zz"));
    assert_eq!(j.coups, ["e2e4"]);
    assert_eq!(j.fen(), "rnbqkbnr/pppppppp/8/8/4P3/8/PPPP1PPP/RNBQKBNR b KQkq - 0 1");
    let h = position(DEPART).zobrist_hash::<Zobrist64>(EnPassantMode::Legal).0;
    assert_eq!(j.hachages[0], h);
    assert_eq!(j.repetitions(), 1);
    for u in ["g8f6", "g1f3", "f6g8", "f3g1"] {
        assert!(j.joue(u));
    }
    assert_eq!(j.repetitions(), 2, "le trait et les droits de roque comptent");
    let copie = j.clone();
    assert_eq!(copie.coups, j.coups);
    assert_eq!(copie.fens, j.fens);
    assert_eq!(copie.hachages, j.hachages);
}

#[test]
fn etats_des_positions() {
    let d = etat(DEPART);
    assert_eq!((d.n_coups, d.echec, d.insuffisant), (20, false, false));
    assert!(!d.mat() && !d.pat() && !d.nulle());
    assert!(etat(MAT).mat());
    assert!(etat(PAT).pat());
    assert!(etat("4k3/8/8/8/8/8/8/4K3 w - - 0 1").nulle(), "matériel insuffisant");
    assert!(etat("4k3/8/8/8/8/8/7P/4K3 w - - 100 90").nulle(), "cinquante coups");
    assert!(examine("4k3/8/8/8").is_none());
    assert_eq!(classe_fille(&etat(MAT)), Fille::Mat);
    assert_eq!(classe_fille(&etat(PAT)), Fille::Nulle);
    assert_eq!(classe_fille(&d), Fille::Ouverte);
}

#[test]
fn materiel_et_recherche() {
    assert_eq!(material_eval(DEPART), 20, "vingt coups, matériel égal");
    assert_eq!(material_eval("4k3/8/8/8/8/8/8/3QK3 w - - 0 1"), 921);
    assert_eq!(material_eval("4k3/8/8/8/8/8/8/3QK3 b - - 0 1"), -897);
    assert_eq!(material_eval("rien"), 0);
    assert_eq!(materiel_trait(&vec![(4, 6, true), (60, 6, false), (0, 4, true)], true), 500);
    let m = Materiel {};
    assert_eq!(negamax(&m, MAT, 3, 0, -BORNE, BORNE), m.evalue_mat(0));
    assert_eq!(negamax(&m, PAT, 3, 0, -BORNE, BORNE), 0);
    let prise = "4k3/8/8/3q4/8/8/8/3RK3 w - - 0 1";
    let apres = "4k3/8/8/3R4/8/8/8/4K3 b - - 0 1";
    assert_eq!(negamax(&m, prise, 1, 0, -BORNE, BORNE), -material_eval(apres));
    let mut b = MaterialBot::new(7, 2);
    assert_eq!(b.choisit(prise).as_deref(), Some("d1d5"));
    let mat_en_un = "6k1/5ppp/8/8/8/8/8/R3K3 w - - 0 1";
    for graine in 0..5 {
        let mut b = MaterialBot::new(graine, 1);
        assert_eq!(b.choisit(mat_en_un).as_deref(), Some("a1a8"));
    }
    let mut b = MaterialBot::new(1, 2);
    assert!(b.choisit(MAT).is_none());
}

#[test]
fn recherche_conforme_au_minimax() {
    // The pruned search gives the value of the full one, and its best moves
    // are those of the full one.
    fn complet(fen: &str, depth: u32, ply: u32) -> i64 {
        let e = etat(fen);
        let m = Materiel {};
        if e.mat() {
            return m.evalue_mat(ply);
        }
        if e.pat() || e.nulle() {
            return 0;
        }
        if depth == 0 {
            return material_eval(fen);
        }
        let v = branches(fen).expect("position");
        v.iter().map(|b| -complet(&b.fen, depth - 1, ply + 1)).max().unwrap()
    }
    for fen in [
        "r1bqkb1r/pppp1ppp/2n2n2/4p3/2B1P3/5N2/PPPP1PPP/RNBQK2R w KQkq - 4 4",
        "8/2k5/8/3p4/4P3/8/2K5/8 w - - 0 1",
        "6k1/5ppp/8/8/8/8/5PPP/R5K1 w - - 0 1",
    ] {
        let m = Materiel {};
        assert_eq!(negamax(&m, fen, 2, 0, -BORNE, BORNE), complet(fen, 2, 0), "{fen}");
        let pos = position(fen);
        let coups: Vec<(String, bool, String)> = pos
            .legal_moves()
            .iter()
            .map(|x| {
                let suite = pos.clone().play(x).unwrap();
                (
                    x.to_uci(CastlingMode::Standard).to_string(),
                    x.is_capture(),
                    Fen::from_position(suite, EnPassantMode::Legal).to_string(),
                )
            })
            .collect();
        let valeurs: Vec<i64> =
            branches(fen).unwrap().iter().map(|b| -complet(&b.fen, 1, 1)).collect();
        let top = *valeurs.iter().max().unwrap();
        let attendus: Vec<usize> = (0..valeurs.len()).filter(|&k| valeurs[k] == top).collect();
        assert_eq!(meilleurs_coups(&m, fen, 2, &coups), attendus, "{fen}");
    }
}

#[test]
fn coups_et_positions_filles() {
    let v = branches(DEPART).expect("départ");
    assert_eq!(v.len(), 20);
    assert!(v.iter().any(|b| b.uci == "e2e4"
        && b.fen == "rnbqkbnr/pppppppp/8/8/4P3/8/PPPP1PPP/RNBQKBNR b KQkq - 0 1"));
    assert!(v.iter().all(|b| b.fille == Fille::Ouverte));
    let m = branches("6k1/5ppp/8/8/8/8/8/R3K3 w - - 0 1").expect("position");
    assert!(m.iter().any(|b| b.uci == "a1a8" && b.fille == Fille::Mat));
    assert!(branches("rien").is_none());
}

/// Values a position by the square of the white queen.
fn gout(fen: &str) -> i64 {
    let pos = position(fen);
    let dames = pos.board().queens() & pos.board().white();
    let v = dames.first().map_or(0, |c| i64::from(u8::from(c)));
    if pos.turn().is_white() {
        v
    } else {
        -v
    }
}

#[test]
fn joueur_a_evaluation() {
    let fen = "8/p6k/8/8/8/8/8/Q6K w - - 0 1";
    for depth in [0u32, 1] {
        let e = ParFonctions::new(gout, |ply: u32| i64::from(ply) - 1000, 0);
        assert_eq!(e.evalue_mat(3), -997);
        let mut b = NetBot::new(e, 3, depth);
        assert_eq!(b.choisit(fen).as_deref(), Some("a1h8"), "la case la plus haute");
    }
}

#[test]
fn ex_aequo_a_la_tolerance_pres() {
    let fen = "8/p6k/8/8/8/8/8/Q6K w - - 0 1";
    let b = branches(fen).expect("position");
    let coups: Vec<(String, bool, String)> =
        b.iter().map(|x| (x.uci.clone(), false, x.fen.clone())).collect();
    let valeurs: Vec<i64> = b.iter().map(|x| -gout(&x.fen)).collect();
    for tolerance in [0i64, 1, 4, 7, 8, 20, 1000] {
        let e = ParFonctions::new(gout, |ply: u32| i64::from(ply) - 1000, tolerance);
        assert_eq!(e.tolerance(), tolerance);
        let mut meilleur = i64::MIN / 2;
        let mut attendus: Vec<usize> = Vec::new();
        for (k, v) in valeurs.iter().enumerate() {
            if *v > meilleur + tolerance {
                meilleur = *v;
                attendus = vec![k];
            } else if (v - meilleur).abs() <= tolerance {
                attendus.push(k);
            }
        }
        assert_eq!(meilleurs_coups(&e, fen, 1, &coups), attendus, "tolérance {tolerance}");
        if tolerance == 1000 {
            assert_eq!(attendus.len(), coups.len());
        }
    }
    assert_eq!(Materiel {}.tolerance(), 0);
}

#[test]
fn position_initiale_reconnue() {
    assert!(est_position_initiale(DEPART));
    assert!(!est_position_initiale("rnbqkbnr/pppppppp/8/8/4P3/8/PPPP1PPP/RNBQKBNR b KQkq - 0 1"));
    assert!(!est_position_initiale("rnbqkbnr/pppppppp/8/8/8/8/PPPPPPPP/RNBQKBNR w KQkq - 4 3"));
    assert!(!est_position_initiale("rien"));
}

#[test]
fn graines_derivees() {
    assert_ne!(derive_graine(1, 2), derive_graine(1, 3));
    assert_ne!(derive_graine(1, 2), derive_graine(2, 2));
    assert_eq!(derive_graine(9, 9), derive_graine(9, 9));
    let attendu = "abc".bytes().fold(7u64, |g, o| g.wrapping_mul(0x0100_0000_01B3) ^ o as u64);
    assert_eq!(graine_de_famille(7, "abc"), attendu);
}

#[test]
fn promenade_aleatoire() {
    let (_, g) = graines_de_promenade(4);
    let mut bot = RandomBot::new(g);
    let v = partie_positions(DEPART, &mut bot);
    assert!(v.len() > 1 && v.len() <= MAX_PLIS + 1);
    assert_eq!(v[0], DEPART);
    for w in v.windows(2) {
        let p = position(&w[0]);
        assert!(p.legal_moves().iter().any(|m| {
            let q = p.clone().play(m).unwrap();
            Fen::from_position(q, EnPassantMode::Legal).to_string() == w[1]
        }));
    }
    let fini = partie_positions(MAT, &mut bot);
    assert_eq!(fini, [MAT]);
    assert_eq!(famille_de_graine(3), Famille::Ouverture);
    assert_eq!(famille_de_graine(9), Famille::Finale);
    assert_eq!(famille_de_graine(5), Famille::Initiale);
    assert_eq!(graines_de_promenade(1).0, 0x9E37_79B9_7F4A_7C15);
}

#[test]
fn parties_du_professeur() {
    match partie_corpus(RandomBot::new(5), 8) {
        Ok(v) => {
            assert_eq!(v[0], DEPART);
            assert!(v.len() <= 300);
        }
        Err(_) => panic!("partie interrompue"),
    }
    assert!(partie_corpus(Muet, 8).is_err());
    // Every draw names the teacher, or the random player.
    let mut prof = BotDistrait::new(Recitant(vec!["g1f3", "g8f6", "f3g1", "f6g8"], 0), 3);
    match partie_tiree(&mut prof, &vec![1; 300]) {
        Ok(j) => assert_eq!(j.coups.len(), 8, "troisième retour de la position de départ"),
        Err(_) => panic!("partie interrompue"),
    }
    let mut hasard = BotDistrait::new(Muet, 3);
    match partie_tiree(&mut hasard, &vec![0; 300]) {
        Ok(j) => assert!(j.coups.len() > 8),
        Err(_) => panic!("le professeur muet n'est pas interrogé"),
    }
    let mut tirages = vec![0; 300];
    tirages[2] = 5;
    let mut melange = BotDistrait::new(Muet, 3);
    match partie_tiree(&mut melange, &tirages) {
        Ok(_) => panic!("le professeur muet a joué"),
        Err(j) => assert_eq!(j.coups.len(), 2),
    }
    assert_eq!(prof.coup_tire(1, DEPART).as_deref(), Some("g1f3"));
    // One move in six is random: a reciter of one move is soon interrupted, a
    // distracted one is not always.
    let mut b = BotDistrait::new(Recitant(vec!["e2e4"], 0), 3);
    let coups: Vec<Option<String>> = (0..60).map(|_| b.choisit(DEPART)).collect();
    let autres = coups.iter().filter(|c| c.as_deref() != Some("e2e4")).count();
    assert!(autres > 0 && autres < 30, "{autres} coups au hasard sur 60");
}

#[test]
fn positions_rassemblees() {
    let p = |a: &[&str]| -> Vec<String> { a.iter().map(|s| s.to_string()).collect() };
    let parties = vec![p(&["a", "b"]), p(&[]), p(&["c", "d", "e"])];
    assert_eq!(rassemble(&parties, 10), ["a", "b", "c", "d", "e"]);
    assert_eq!(rassemble(&parties, 3), ["a", "b", "c"]);
    assert!(rassemble(&parties, 0).is_empty());
    assert_eq!(taille_vague(100, 40, 1), 3);
    assert_eq!(taille_vague(0, 40, 8), 8);
}

#[test]
fn eleve_verifie() {
    let c = SchemaFeatures::Classique773;
    let r = SchemaFeatures::RoiZones8;
    assert_eq!(verifie_eleve(c, c, &vec![773, 8, 1], None), Ok(()));
    assert_eq!(verifie_eleve(c, r, &vec![773, 8, 1], None), Err(RefusEleve::Schema));
    assert_eq!(verifie_eleve(c, c, &vec![773, 8, 1], Some(&vec![773, 8, 1])), Ok(()));
    assert_eq!(
        verifie_eleve(c, c, &vec![773, 8, 1], Some(&vec![773, 9, 1])),
        Err(RefusEleve::Tailles)
    );
    assert_eq!(verifie_eleve(c, c, &vec![773, 1], Some(&vec![773])), Err(RefusEleve::Tailles));
    assert!(encore_une_epoque(1, 6, 0.01f32.to_bits()));
    assert!(!encore_une_epoque(6, 6, 0.01f32.to_bits()));
    assert!(!encore_une_epoque(1, 6, 0.000_399f32.to_bits()));
    assert!(encore_une_epoque(1, 6, 0.0004f32.to_bits()));
    assert!(encore_une_epoque(1, 6, f32::NAN.to_bits()));
    assert!(eleve_fidele(0.0019f32.to_bits()));
    assert!(!eleve_fidele(0.002f32.to_bits()));
    assert_ne!(graine_de_validation(5), 5);
}
