//! Starting positions: the book, generated endgames and late middlegames, and
//! the draw among them.
use echec::bots::Bot;
use echec::departs::{
    acheve, apres_essai, apres_essai_calme, bande_transition, famille, genere_finale, genere_transition, retient, tirage,
    tirage_complet, valide_parts, Famille, RefusParts, SuiteEssai, ESSAIS, SEUIL_PRISE_GAGNANTE,
};
use echec::livre::{coup_du_livre, lignes_du_livre, LigneFautive, Livre};
use rand::rngs::StdRng;
use rand::{Rng, SeedableRng};
use shakmaty::fen::Fen;
use shakmaty::san::{San, SanPlus};
use shakmaty::uci::UciMove;
use shakmaty::zobrist::{Zobrist64, ZobristHash};
use shakmaty::{
    Board, CastlingMode, Chess, Color, EnPassantMode, FromSetup, Position, Rank, Role,
};
use std::collections::HashMap;

const DEPART: &str = "rnbqkbnr/pppppppp/8/8/8/8/PPPPPPPP/RNBQKBNR w KQkq - 0 1";

fn position(fen: &str) -> Chess {
    fen.parse::<Fen>().expect("FEN").into_position(CastlingMode::Standard).expect("position")
}

fn texte(pos: &Chess) -> String {
    Fen::from_position(pos.clone(), EnPassantMode::Legal).to_string()
}

fn livre() -> Livre {
    match Livre::charge(&lignes_du_livre()) {
        Ok(l) => l,
        Err(e) => panic!("ligne {} coup {}", e.ligne, e.coup),
    }
}

fn valeur(role: Role) -> i32 {
    match role {
        Role::Pawn => 100,
        Role::Knight | Role::Bishop => 300,
        Role::Rook => 500,
        Role::Queen => 900,
        Role::King => 0,
    }
}

/// What a capture is worth once the exchange on its square is played out.
fn echange(fen: &str, uci: &str) -> i32 {
    let pos = position(fen);
    let m = uci.parse::<UciMove>().unwrap().to_move(&pos).unwrap();
    let gain = valeur(m.capture().expect("prise"));
    let apres = pos.play(&m).unwrap();
    let suite = texte(&apres);
    let reponse = apres
        .legal_moves()
        .iter()
        .filter(|r| r.to() == m.to() && r.is_capture())
        .map(|r| echange(&suite, &r.to_uci(CastlingMode::Standard).to_string()))
        .max()
        .unwrap_or(0);
    gain - reponse.max(0)
}

fn somme(a: f32, b: f32, c: f32) -> (u32, u32, u32) {
    (a.to_bits(), (a + b).to_bits(), (a + b + c).to_bits())
}

fn parts(a: f32, b: f32, c: f32) -> Result<(), RefusParts> {
    valide_parts(a.to_bits(), b.to_bits(), c.to_bits(), (a + b + c).to_bits())
}

#[test]
fn livre_entier_parse() {
    let lignes = lignes_du_livre();
    assert!(lignes.len() >= 120, "livre trop maigre : {} lignes (minimum 120)", lignes.len());
    for (etiquette, sans) in &lignes {
        assert!(etiquette.starts_with("ouverture:"), "étiquette « {etiquette} »");
        let n = sans.split_whitespace().count();
        assert!((6..=12).contains(&n), "ligne « {etiquette} » : {n} demi-coups");
        let mut pos = Chess::default();
        for san in sans.split_whitespace() {
            let coup = san
                .parse::<SanPlus>()
                .unwrap_or_else(|e| panic!("« {etiquette} » : SAN « {san} » ({e})"))
                .san
                .to_move(&pos)
                .unwrap_or_else(|e| panic!("« {etiquette} » : coup « {san} » ({e})"));
            pos = pos.play(&coup).expect("coup légal donc jouable");
        }
    }
    assert_eq!(livre().finales_de_lignes.len(), lignes.len());
}

#[test]
fn fins_de_lignes_exactes() {
    let l = livre();
    let lignes = lignes_du_livre();
    for (k, (etiquette, sans)) in lignes.iter().enumerate() {
        let mut pos = Chess::default();
        for san in sans.split_whitespace() {
            let m = san.parse::<San>().unwrap().to_move(&pos).unwrap();
            pos = pos.play(&m).unwrap();
        }
        assert_eq!(&l.finales_de_lignes[k].0, etiquette);
        assert_eq!(l.finales_de_lignes[k].1, texte(&pos));
    }
}

#[test]
fn livre_repond_a_ses_lignes() {
    let l = livre();
    let mut rng = StdRng::seed_from_u64(5);
    for (etiquette, sans) in lignes_du_livre().iter().take(20) {
        let mut pos = Chess::default();
        for san in sans.split_whitespace() {
            let coup = coup_du_livre(&l, &texte(&pos), &mut rng);
            assert!(coup.is_some(), "« {etiquette} » sans réponse avant {san}");
            let m = coup.unwrap().parse::<UciMove>().unwrap().to_move(&pos);
            assert!(m.is_ok(), "« {etiquette} » : coup illégal");
            let m = san.parse::<San>().unwrap().to_move(&pos).unwrap();
            pos = pos.play(&m).unwrap();
        }
    }
}

#[test]
fn ligne_fautive_nommee() {
    let lignes = vec![
        ("bonne".to_string(), "e4 e5".to_string()),
        ("mauvaise".to_string(), "e4 e5 Ke3 Nf6".to_string()),
        ("autre".to_string(), "zz".to_string()),
    ];
    match Livre::charge(&lignes) {
        Ok(_) => panic!("ligne illégale acceptée"),
        Err(e) => assert_eq!(e, LigneFautive { ligne: 1, coup: 2 }),
    }
    assert!(Livre::charge(&vec![]).is_ok());
}

#[test]
fn continuations_par_hachage() {
    let lignes = vec![
        ("a".to_string(), "e4 e5".to_string()),
        ("b".to_string(), "d4 d5".to_string()),
        ("c".to_string(), "e4 c5".to_string()),
    ];
    let l = match Livre::charge(&lignes) {
        Ok(l) => l,
        Err(_) => panic!("livre"),
    };
    let h = Chess::default().zobrist_hash::<Zobrist64>(EnPassantMode::Legal).0;
    let premiers: Vec<&str> =
        l.continuations.iter().filter(|c| c.0 == h).map(|c| c.1.as_str()).collect();
    assert_eq!(premiers, ["e2e4", "d2d4", "e2e4"]);
    let mut rng = StdRng::seed_from_u64(1);
    assert!(coup_du_livre(&l, "pas une position", &mut rng).is_none());
}

#[test]
fn finales_500_legales() {
    let mut rng = StdRng::seed_from_u64(42);
    for i in 0..500 {
        let d = tire_finale(&mut rng);
        assert!(d.1.starts_with("finale:"), "étiquette « {} »", d.1);
        let pos = position(&d.0);
        let setup = pos.clone().into_setup(EnPassantMode::Legal);
        let rois = setup.board.kings();
        let (a, b) = (rois.first().expect("roi"), rois.last().expect("roi"));
        assert!(a.distance(b) >= 2, "finale {i} ({}) : rois adjacents", d.1);
        for sq in setup.board.pawns() {
            assert!(
                sq.rank() != Rank::First && sq.rank() != Rank::Eighth,
                "finale {i} ({}) : pion en {sq}",
                d.1
            );
        }
        assert_eq!(materiel(&setup.board), d.1["finale:".len()..]);
        assert!(Chess::from_setup(setup, CastlingMode::Standard).is_ok());
        assert!(!pos.legal_moves().is_empty(), "finale {i} : partie déjà finie");
    }
}

fn tire_finale(rng: &mut StdRng) -> (String, String) {
    let (s1, s2, _) = somme(0.0, 1.0, 0.0);
    let d = tirage(&livre_vide(), rng, 0.5f32.to_bits(), s1, s2).expect("finale");
    assert_eq!(d.plis_chauds, 0);
    (d.fen, d.etiquette)
}

fn livre_vide() -> Livre {
    Livre { finales_de_lignes: vec![], continuations: vec![] }
}

/// The material of a board in the writing of the templates.
fn materiel(board: &Board) -> String {
    let camp = |c: Color| -> String {
        let mut t = String::from("K");
        for (r, l) in [
            (Role::Queen, 'Q'),
            (Role::Rook, 'R'),
            (Role::Bishop, 'B'),
            (Role::Knight, 'N'),
            (Role::Pawn, 'P'),
        ] {
            for _ in 0..(board.by_color(c) & board.by_role(r)).count() {
                t.push(l);
            }
        }
        t
    };
    format!("{}v{}", camp(Color::White), camp(Color::Black))
}

fn valeur_camp(board: &Board, couleur: Color) -> i32 {
    [(Role::Pawn, 1), (Role::Knight, 3), (Role::Bishop, 3), (Role::Rook, 5), (Role::Queen, 9)]
        .iter()
        .map(|&(role, v)| (board.by_color(couleur) & board.by_role(role)).count() as i32 * v)
        .sum()
}

#[test]
fn transition_200_legales() {
    let mut rng = StdRng::seed_from_u64(9);
    let mut par_compte: HashMap<u32, u32> = HashMap::new();
    for i in 0..200 {
        let g = genere_transition(&mut rng, &echange).expect("transition");
        let pos = position(&g.fen);
        let setup = pos.clone().into_setup(EnPassantMode::Legal);
        let n = setup.board.occupied().count() as u32;
        assert!((10..=16).contains(&n), "transition {i} : {n} pièces");
        *par_compte.entry(n).or_default() += 1;
        let ecart =
            (valeur_camp(&setup.board, Color::White) - valeur_camp(&setup.board, Color::Black)).abs();
        assert!(ecart <= 1, "transition {i} : écart {ecart} pions");
        let roi_blanc = setup.board.king_of(Color::White).expect("roi blanc");
        let roi_noir = setup.board.king_of(Color::Black).expect("roi noir");
        assert!(u32::from(roi_blanc.rank()) <= 1, "transition {i} : roi blanc {roi_blanc}");
        assert!(u32::from(roi_noir.rank()) >= 6, "transition {i} : roi noir {roi_noir}");
        for sq in setup.board.pawns() {
            assert!(
                sq.rank() != Rank::First && sq.rank() != Rank::Eighth,
                "transition {i} : pion en {sq}"
            );
        }
        assert!(!pos.is_check(), "transition {i} : au trait en échec");
        assert!(!pos.legal_moves().is_empty(), "transition {i} : partie déjà finie");
        for m in pos.capture_moves() {
            let v = echange(&g.fen, &m.to_uci(CastlingMode::Standard).to_string());
            assert!(v < SEUIL_PRISE_GAGNANTE, "transition {i} : prise gagnante {m:?} ({v})");
        }
        assert!(Chess::from_setup(setup, CastlingMode::Standard).is_ok());
    }
    assert!(par_compte.len() >= 5, "distribution étroite : {par_compte:?}");
    let mut comptes: Vec<_> = par_compte.into_iter().collect();
    comptes.sort();
    println!("distribution du compte de pièces (200 transitions) : {comptes:?}");
}

#[test]
fn tirage_complet_quatre_familles() {
    let l = livre();
    let mut rng = StdRng::seed_from_u64(77);
    let (s1, s2, s3) = somme(0.3, 0.2, 0.2);
    let (mut ouvertures, mut finales, mut transitions, mut initiales) = (0i32, 0i32, 0i32, 0i32);
    for _ in 0..2000 {
        let u: f32 = rng.gen();
        let d = tirage_complet(&l, &mut rng, u.to_bits(), s1, s2, s3, &echange).expect("départ");
        if d.etiquette.starts_with("ouverture:") {
            assert_eq!(d.plis_chauds, 2);
            ouvertures += 1;
        } else if d.etiquette.starts_with("finale:") {
            assert_eq!(d.plis_chauds, 0);
            finales += 1;
        } else if d.etiquette.starts_with("transition:") {
            assert_eq!(d.plis_chauds, 0);
            let m = materiel(position(&d.fen).board());
            assert_eq!(m, d.etiquette["transition:".len()..]);
            transitions += 1;
        } else {
            assert_eq!(d.etiquette, "initiale");
            assert_eq!(d.plis_chauds, 8);
            assert_eq!(position(&d.fen), Chess::default());
            initiales += 1;
        }
    }
    assert!((ouvertures - 600).abs() <= 120, "ouvertures : {ouvertures}");
    assert!((finales - 400).abs() <= 120, "finales : {finales}");
    assert!((transitions - 400).abs() <= 120, "transitions : {transitions}");
    assert!((initiales - 600).abs() <= 120, "initiales : {initiales}");
    let mut a = StdRng::seed_from_u64(4242);
    let mut b = StdRng::seed_from_u64(4242);
    let (t1, t2, t3) = somme(0.5, 0.25, 0.0);
    for _ in 0..200 {
        let ua: f32 = a.gen();
        let ub: f32 = b.gen();
        let da = tirage(&l, &mut a, ua.to_bits(), t1, t2).expect("départ");
        let db = tirage_complet(&l, &mut b, ub.to_bits(), t1, t2, t3, &echange).expect("départ");
        assert_eq!(da.etiquette, db.etiquette);
        assert_eq!(da.fen, db.fen);
        assert_eq!(da.plis_chauds, db.plis_chauds);
    }
}

#[test]
fn valide_parts_refuse_les_parts_incoherentes() {
    assert!(parts(0.0, 0.0, 0.0).is_ok());
    assert!(parts(0.5, 0.2, 0.2).is_ok());
    assert!(parts(0.5, 0.25, 0.25).is_ok());
    assert!(parts(0.3, 0.3, 0.4).is_ok());
    assert_eq!(parts(0.5, 0.4, 0.4), Err(RefusParts::Somme));
    assert_eq!(parts(-0.1, 0.2, 0.2), Err(RefusParts::Part(0)));
    assert_eq!(parts(0.2, 1.5, 0.0), Err(RefusParts::Part(1)));
    assert_eq!(parts(0.2, f32::NAN, 0.2), Err(RefusParts::Part(1)));
}

#[test]
fn parts_aux_bornes() {
    assert!(parts(1.0, 0.0, 0.0).is_ok());
    assert!(parts(-0.0, 0.0, 1.0).is_ok());
    assert_eq!(parts(0.0, 0.0, f32::INFINITY), Err(RefusParts::Part(2)));
    let seuil: f32 = 1.0 + 1e-6;
    let juste = seuil.to_bits();
    let z = 0.5f32.to_bits();
    assert!(valide_parts(z, z, 0, juste).is_ok());
    assert_eq!(valide_parts(z, z, 0, juste + 1), Err(RefusParts::Somme));
    assert_eq!(RefusParts::Part(0).nom(), "ouvertures");
    assert_eq!(RefusParts::Part(1).nom(), "finales");
    assert_eq!(RefusParts::Part(2).nom(), "transition");
    assert_eq!(RefusParts::Somme.nom(), "somme");
}

#[test]
fn coup_du_livre_position_initiale() {
    let l = livre();
    let mut rng = StdRng::seed_from_u64(7);
    let pos = Chess::default();
    let coup = coup_du_livre(&l, DEPART, &mut rng).expect("position initiale au livre");
    let premiers: Vec<String> = lignes_du_livre()
        .iter()
        .map(|(_, sans)| {
            let premier = sans.split_whitespace().next().expect("ligne non vide");
            premier
                .parse::<SanPlus>()
                .expect("SAN lisible")
                .san
                .to_move(&pos)
                .expect("premier coup légal")
                .to_uci(CastlingMode::Standard)
                .to_string()
        })
        .collect();
    assert!(premiers.contains(&coup), "coup {coup:?} absent des premiers coups du livre");
    let e4 = "e4".parse::<San>().unwrap().to_move(&pos).unwrap();
    let apres_e4 = texte(&pos.play(&e4).unwrap());
    assert!(coup_du_livre(&l, &apres_e4, &mut rng).is_some(), "aucune continuation après 1.e4");
}

#[test]
fn coup_du_livre_hors_livre() {
    let l = livre();
    let mut rng = StdRng::seed_from_u64(7);
    let pos = Chess::default();
    let h4 = "h4".parse::<San>().unwrap().to_move(&pos).unwrap();
    let apres_h4 = texte(&pos.play(&h4).unwrap());
    assert!(coup_du_livre(&l, &apres_h4, &mut rng).is_none());
}

#[test]
fn tirage_respecte_les_probabilites() {
    let l = livre();
    let mut rng = StdRng::seed_from_u64(2024);
    let (s1, s2, _) = somme(0.5, 0.25, 0.0);
    let (mut ouvertures, mut finales, mut initiales) = (0i32, 0i32, 0i32);
    for _ in 0..2000 {
        let u: f32 = rng.gen();
        let d = tirage(&l, &mut rng, u.to_bits(), s1, s2).expect("départ");
        if d.etiquette.starts_with("ouverture:") {
            assert_eq!(d.plis_chauds, 2);
            ouvertures += 1;
        } else if d.etiquette.starts_with("finale:") {
            assert_eq!(d.plis_chauds, 0);
            finales += 1;
        } else {
            assert_eq!(d.etiquette, "initiale");
            assert_eq!(d.plis_chauds, 8);
            assert_eq!(position(&d.fen), Chess::default());
            initiales += 1;
        }
    }
    assert!((ouvertures - 1000).abs() <= 120, "ouvertures : {ouvertures}");
    assert!((finales - 500).abs() <= 120, "finales : {finales}");
    assert!((initiales - 500).abs() <= 120, "initiales : {initiales}");
}

#[test]
fn familles_par_seuils() {
    let (s1, s2, s3) = somme(0.25, 0.25, 0.25);
    let f = |u: f32| famille(u.to_bits(), s1, s2, s3);
    assert_eq!(f(0.0), Famille::Ouverture);
    assert_eq!(f(0.25), Famille::Finale);
    assert_eq!(f(0.5), Famille::Transition);
    assert_eq!(f(0.75), Famille::Initiale);
    assert_eq!(f(0.999), Famille::Initiale);
    assert_eq!(famille(0.6f32.to_bits(), s1, s2, s2), Famille::Initiale);
}

#[test]
fn livre_vide_sans_depart() {
    let mut rng = StdRng::seed_from_u64(3);
    let (s1, s2, _) = somme(1.0, 0.0, 0.0);
    assert!(tirage(&livre_vide(), &mut rng, 0, s1, s2).is_none());
}

#[test]
fn bandes_des_pieces() {
    assert_eq!(bande_transition(6, true), (0, 1));
    assert_eq!(bande_transition(6, false), (6, 7));
    assert_eq!(bande_transition(1, true), (1, 5));
    assert_eq!(bande_transition(1, false), (2, 6));
    assert_eq!(bande_transition(5, false), (0, 7));
}

#[test]
fn plateau_acheve() {
    let mut p = vec![0u8; 64];
    p[4] = 6;
    p[60] = 12;
    p[8] = 1;
    let g = acheve(3, p.clone(), true).expect("position légale");
    assert_eq!(g.fen, "4k3/8/8/8/8/8/P7/4K3 w - - 0 1");
    assert_eq!(position(&g.fen).board().occupied().count(), 3);
    let n = acheve(3, p.clone(), false).expect("position légale");
    assert_eq!(n.fen, "4k3/8/8/8/8/8/P7/4K3 b - - 0 1");
    p[12] = 12;
    assert!(acheve(0, p, true).is_none(), "deux rois noirs");
    let mut mat = vec![0u8; 64];
    mat[56] = 12;
    mat[42] = 6;
    mat[49] = 5;
    assert!(acheve(0, mat, false).is_none(), "mat : aucun coup");
}

#[test]
fn plateau_retenu() {
    let mut p = vec![0u8; 64];
    p[4] = 6;
    p[56] = 12;
    p[36] = 10;
    let g = retient(false, 5, p.clone(), true).expect("finale");
    assert_eq!(g.fen, "k7/8/8/4r3/8/8/8/4K3 w - - 0 1");
    assert_eq!(g.gabarit, 5);
    assert_eq!(g.plateau, p);
    assert!(g.trait_blanc);
    assert!(retient(true, 5, p.clone(), true).is_none(), "échec");
    assert!(retient(false, 5, p.clone(), false).is_none(), "échec sans le trait");
    p[36] = 0;
    p[35] = 10;
    let t = retient(true, 5, p.clone(), true).expect("milieu");
    assert_eq!(t.fen, "k7/8/8/3r4/8/8/8/4K3 w - - 0 1");
    p[56] = 0;
    p[12] = 12;
    assert!(retient(false, 5, p, true).is_none(), "rois voisins");
}

#[test]
fn generateur_sans_trait_de_chance() {
    let mut a = StdRng::seed_from_u64(11);
    let mut b = StdRng::seed_from_u64(11);
    let x = genere_finale(&mut a).expect("finale");
    let y = genere_finale(&mut b).expect("finale");
    assert_eq!(x.fen, y.fen);
    assert_eq!(x.gabarit, y.gabarit);
    let mut alea = echec::bots::RandomBot::new(1);
    assert!(alea.choisit(&x.fen).is_some());
}

#[test]
fn suite_des_essais() {
    let mut p = vec![0u8; 64];
    p[4] = 6;
    p[56] = 12;
    p[36] = 10;
    match apres_essai(false, 5, 0, p.clone(), true) {
        SuiteEssai::Garde(d) => assert_eq!(d.fen, "k7/8/8/4r3/8/8/8/4K3 w - - 0 1"),
        _ => panic!("finale gardée"),
    }
    assert!(matches!(apres_essai(true, 5, 0, p.clone(), true), SuiteEssai::Encore));
    assert!(matches!(apres_essai(true, 5, ESSAIS - 2, p.clone(), true), SuiteEssai::Encore));
    assert!(matches!(apres_essai(true, 5, ESSAIS - 1, p.clone(), true), SuiteEssai::Abandon));
    assert!(matches!(
        apres_essai(false, 5, ESSAIS - 1, p.clone(), true),
        SuiteEssai::Garde(_)
    ));
    // The king takes the rook that stands beside it.
    p[36] = 0;
    p[11] = 10;
    let gagne = |_: &str, _: &str| SEUIL_PRISE_GAGNANTE;
    let rien = |_: &str, _: &str| SEUIL_PRISE_GAGNANTE - 1;
    assert!(matches!(apres_essai_calme(&gagne, 5, 3, p.clone(), true), SuiteEssai::Encore));
    assert!(matches!(
        apres_essai_calme(&gagne, 5, ESSAIS - 1, p.clone(), true),
        SuiteEssai::Abandon
    ));
    assert!(matches!(apres_essai_calme(&rien, 5, 3, p, true), SuiteEssai::Garde(_)));
}

#[test]
fn tirages_sans_transition_pareils() {
    let l = livre();
    let (s1, s2, _) = somme(0.3, 0.3, 0.0);
    let see = |_: &str, _: &str| 0;
    for k in 0..40u64 {
        let u = (k as f32 / 40.0).to_bits();
        let mut a = StdRng::seed_from_u64(k);
        let mut b = StdRng::seed_from_u64(k);
        let x = tirage(&l, &mut a, u, s1, s2).expect("départ");
        let y = tirage_complet(&l, &mut b, u, s1, s2, s2, &see).expect("départ");
        assert_eq!((x.fen, x.etiquette.clone(), x.plis_chauds), (y.fen, y.etiquette, y.plis_chauds));
        let debut = match famille(u, s1, s2, s2) {
            Famille::Ouverture => "ouverture:",
            Famille::Finale => "finale:",
            Famille::Transition => panic!("aucune part de transition"),
            Famille::Initiale => "initiale",
        };
        assert!(x.etiquette.starts_with(debut), "{}", x.etiquette);
    }
}

#[test]
fn lignes_du_livre_en_forme() {
    let l = lignes_du_livre();
    assert!(l.len() >= 120);
    for (nom, suite) in &l {
        assert!(nom.starts_with("ouverture:"), "{nom}");
        let n = suite.split_whitespace().count();
        assert!((6..=12).contains(&n), "{nom} : {n} coups");
    }
}
