//! Network inputs: the dense encoding and the active features by king zone.
use echec::echiquier::Position as Plateau;
use echec::entree::{entree, zone_de_fen, Entree};
use echec::features::{encode, N_FEATURES};
use echec::features_roi::{actifs, actifs_perspective, zone_roi, N_FEATURES_ROI, N_ZONES_ROI};
use echec::nn::SchemaFeatures;
use rand::rngs::StdRng;
use rand::{Rng, SeedableRng};
use shakmaty::fen::Fen;
use shakmaty::{CastlingMode, CastlingSide, Chess, Color, EnPassantMode, Position};

const DEPART: &str = "rnbqkbnr/pppppppp/8/8/8/8/PPPPPPPP/RNBQKBNR w KQkq - 0 1";

fn pos_de_fen(fen: &str) -> Chess {
    fen.parse::<Fen>().expect("FEN").into_position(CastlingMode::Standard).expect("position")
}

fn texte(pos: &Chess) -> String {
    Fen::from_position(pos.clone(), EnPassantMode::Legal).to_string()
}

fn plateau(fen: &str) -> Plateau {
    let pos = pos_de_fen(fen);
    let r = |c, s| pos.castles().has(c, s);
    Plateau {
        pieces: pos
            .board()
            .iter()
            .map(|(c, p)| (u8::from(c), u8::from(p.role), p.color.is_white()))
            .collect(),
        trait_blanc: pos.turn().is_white(),
        roques: (
            r(Color::White, CastlingSide::KingSide),
            r(Color::White, CastlingSide::QueenSide),
            r(Color::Black, CastlingSide::KingSide),
            r(Color::Black, CastlingSide::QueenSide),
        ),
        en_passant: pos.ep_square(EnPassantMode::Legal).is_some(),
        demi_coups: pos.halfmoves(),
        numero: pos.fullmoves().get(),
        n_coups: pos.legal_moves().len(),
        echec: pos.is_check(),
        insuffisant: pos.is_insufficient_material(),
    }
}

fn dense(fen: &str) -> Vec<u8> {
    match entree(SchemaFeatures::Classique773, fen) {
        Some(Entree::Dense(x)) => x,
        _ => panic!("entrée dense attendue"),
    }
}

fn creuse(fen: &str) -> Vec<u16> {
    match entree(SchemaFeatures::RoiZones8, fen) {
        Some(Entree::Creuse(a)) => a,
        _ => panic!("entrée creuse attendue"),
    }
}

fn positions_aleatoires(n: usize, graine: u64) -> Vec<Chess> {
    let mut rng = StdRng::seed_from_u64(graine);
    let mut sortie = Vec::with_capacity(n);
    let mut pos = Chess::default();
    let mut plis = 0usize;
    while sortie.len() < n {
        let coups = pos.legal_moves();
        if coups.is_empty()
            || plis >= 120
            || pos.is_insufficient_material()
            || pos.halfmoves() >= 100
        {
            pos = Chess::default();
            plis = 0;
            continue;
        }
        let coup = coups[rng.gen_range(0..coups.len())].clone();
        pos = pos.play(&coup).expect("coup légal");
        plis += 1;
        sortie.push(pos.clone());
    }
    sortie
}

#[test]
fn position_initiale_32_pieces_et_drapeaux() {
    let out = dense(DEPART);
    assert_eq!(out.len(), N_FEATURES);
    let somme: u32 = out[..768].iter().map(|&v| v as u32).sum();
    assert_eq!(somme, 32);
    assert!(out.iter().all(|&v| v == 0 || v == 1));
    let a_nous: u32 = out[..6 * 64].iter().map(|&v| v as u32).sum();
    let a_eux: u32 = out[6 * 64..768].iter().map(|&v| v as u32).sum();
    assert_eq!(a_nous, 16);
    assert_eq!(a_eux, 16);
    assert_eq!(out[12], 1);
    assert_eq!(out[5 * 64 + 4], 1);
    assert_eq!(out[10 * 64 + 59], 1);
    assert_eq!(&out[768..772], &[1, 1, 1, 1]);
    assert_eq!(out[772], 0);
}

#[test]
fn symetrie_miroir_blancs_noirs() {
    let vu_blancs = dense(DEPART);
    let vu_noirs = dense("rnbqkbnr/pppppppp/8/8/8/8/PPPPPPPP/RNBQKBNR b KQkq - 0 1");
    assert_eq!(vu_blancs, vu_noirs);
}

#[test]
fn symetrie_miroir_position_asymetrique() {
    let enc_a = dense("r1bqkbnr/pppp1ppp/2n5/4p3/4P3/5N2/PPPP1PPP/RNBQKB1R w KQkq - 2 3");
    let enc_b = dense("rnbqkb1r/pppp1ppp/5n2/4p3/4P3/2N5/PPPP1PPP/R1BQKBNR b KQkq - 2 3");
    assert_eq!(enc_a, enc_b);
}

#[test]
fn drapeau_en_passant_legal_seulement() {
    let sans = dense("rnbqkbnr/pppppppp/8/8/4P3/8/PPPP1PPP/RNBQKBNR b KQkq e3 0 1");
    assert_eq!(sans[772], 0);
    let avec = dense("rnbqkbnr/ppp1pppp/8/3pP3/8/8/PPPP1PPP/RNBQKBNR w KQkq d6 0 3");
    assert_eq!(avec[772], 1);
}

#[test]
fn droits_de_roque_perspective_du_trait() {
    let out = dense("rnbqk2r/pppppppp/8/8/8/8/PPPPPPPP/R3KBNR b Qk - 0 1");
    assert_eq!(&out[768..772], &[1, 0, 0, 1]);
}

#[test]
fn encode_vide_ce_qui_precede() {
    let p = plateau("4k3/8/8/8/8/8/8/4K3 w - - 0 1");
    let mut out = vec![9u8; 3];
    encode(&p, &mut out);
    assert_eq!(out.len(), N_FEATURES);
    assert_eq!(out.iter().filter(|&&v| v == 1).count(), 2);
}

#[test]
fn position_illisible_sans_entree() {
    assert!(entree(SchemaFeatures::Classique773, "rien").is_none());
    assert!(entree(SchemaFeatures::RoiZones8, "8/8/8/8/8/8/8/4K3 w - - 0 1").is_none());
    assert!(zone_de_fen("rien").is_none());
}

#[test]
fn zone_roi_partitionne_exactement_les_64_cases() {
    let mut effectifs = [0usize; N_ZONES_ROI];
    for case in 0..64 {
        let z = zone_roi(case);
        assert!(z < N_ZONES_ROI, "case {case} : zone {z} hors bornes");
        effectifs[z] += 1;
    }
    assert_eq!(effectifs.iter().sum::<usize>(), 64);
    assert_eq!(effectifs, [8; N_ZONES_ROI]);
    assert_eq!(zone_roi(0), 0);
    assert_eq!(zone_roi(2), 0);
    assert_eq!(zone_roi(4), 2);
    assert_eq!(zone_roi(6), 2);
    assert_eq!(zone_roi(24), 1);
    assert_eq!(zone_roi(36), 6);
    assert_eq!(zone_roi(56), 5);
    assert_eq!(zone_roi(63), 7);
}

#[test]
fn position_initiale_32_pieces_plus_4_roques() {
    let sortie = creuse(DEPART);
    assert_eq!(sortie.len(), 36);
    let mut tri = sortie.clone();
    tri.sort_unstable();
    tri.dedup();
    assert_eq!(tri.len(), 36, "indice actif en double");
    assert!(tri.iter().all(|&i| usize::from(i) < N_FEATURES_ROI));
    let pieces: Vec<usize> =
        tri.iter().map(|&i| usize::from(i)).filter(|&i| i < N_ZONES_ROI * 768).collect();
    assert_eq!(pieces.len(), 32);
    assert!(pieces.iter().all(|&i| (1536..2304).contains(&i)));
    assert_eq!(pieces.iter().filter(|&&i| i < 1536 + 6 * 64).count(), 16);
    assert!(tri.contains(&1548));
    assert!(tri.contains(&1860));
    assert!(tri.contains(&2235));
    for k in 0..4u16 {
        assert!(tri.contains(&(6144 + k)));
    }
    assert!(!tri.contains(&6148));
}

#[test]
fn perspectives_symetriques_sur_la_position_initiale() {
    let pos = plateau(DEPART);
    let (mut blancs, mut noirs, mut du_trait) = (Vec::new(), Vec::new(), Vec::new());
    actifs_perspective(&pos, true, &mut blancs);
    actifs_perspective(&pos, false, &mut noirs);
    actifs(&pos, &mut du_trait);
    assert_eq!(du_trait, blancs);
    blancs.sort_unstable();
    noirs.sort_unstable();
    assert_eq!(blancs, noirs);
}

#[test]
fn exemple_de_la_doc_apres_1_e4() {
    let fen = "rnbqkbnr/pppppppp/8/8/4P3/8/PPPP1PPP/RNBQKBNR b KQkq e3 0 1";
    let noirs = creuse(fen);
    assert_eq!(noirs.len(), 36);
    assert!(noirs.contains(&1548));
    assert!(noirs.contains(&1956));
    assert!(noirs.contains(&2300));
    assert!(!noirs.contains(&6148));
    let mut blancs = Vec::new();
    actifs_perspective(&plateau(fen), true, &mut blancs);
    assert_eq!(blancs.len(), 36);
    assert!(blancs.contains(&1564));
    assert!(blancs.contains(&2300));
    for liste in [&noirs, &blancs] {
        for k in 0..4u16 {
            assert!(liste.contains(&(6144 + k)));
        }
    }
}

#[test]
fn coherence_avec_l_encodage_classique_773() {
    for pos in &positions_aleatoires(60, 20260726) {
        let fen = texte(pos);
        let plein = dense(&fen);
        let creux = creuse(&fen);
        let zones: Vec<usize> = creux
            .iter()
            .map(|&i| usize::from(i))
            .filter(|&i| i < N_ZONES_ROI * 768)
            .map(|i| i / 768)
            .collect();
        assert!(zones.windows(2).all(|w| w[0] == w[1]));
        assert_eq!(zone_de_fen(&fen), Some(zones[0]));
        let mut depuis_creux: Vec<usize> = creux
            .iter()
            .map(|&i| {
                let i = usize::from(i);
                if i < N_ZONES_ROI * 768 {
                    i % 768
                } else {
                    768 + (i - N_ZONES_ROI * 768)
                }
            })
            .collect();
        depuis_creux.sort_unstable();
        let depuis_dense: Vec<usize> =
            plein.iter().enumerate().filter(|(_, &v)| v == 1).map(|(k, _)| k).collect();
        assert_eq!(depuis_creux, depuis_dense);
    }
}

#[test]
fn zone_change_quand_le_roi_traverse_une_frontiere() {
    let a = creuse("4k3/8/8/8/8/8/8/4K3 w - - 0 1");
    let b = creuse("4k3/8/8/8/8/8/8/3K4 w - - 0 1");
    assert_eq!(a.len(), 2);
    assert_eq!(b.len(), 2);
    assert!(a.iter().all(|&i| (1536..2304).contains(&usize::from(i))));
    assert!(b.iter().all(|&i| usize::from(i) < 768));
}
