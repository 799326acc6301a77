//! Networks: their files, their shapes, the graft onto another input, the
//! columns that a lesson touches.
use echec::entree::{entree, Entree};
use echec::features::N_FEATURES;
use echec::features_roi::N_FEATURES_ROI;
use echec::nn::{
    colonnes_touchees, greffer, indices_valides, pose_colonnes, rang_colonne, tailles_par_defaut,
    verifie_tailles, ErreurModele, ErreurTailles, Mlp, SchemaFeatures,
};

/// A network of that shape whose parameters are all different.
fn reseau(sizes: Vec<usize>, graine: u32) -> Mlp {
    let mut x = graine;
    let mut suivant = || {
        x = x.wrapping_mul(1_664_525).wrapping_add(1_013_904_223);
        x
    };
    let mut poids: Vec<Vec<u32>> = Vec::new();
    for l in 0..sizes.len() - 1 {
        poids.push((0..sizes[l] * sizes[l + 1]).map(|_| suivant()).collect());
    }
    let mut m = Mlp::avec_tailles(sizes, poids);
    m.steps = 0x0102_0304_0506_0708;
    for g in [&mut m.biases, &mut m.adam_mw, &mut m.adam_vw, &mut m.adam_mb, &mut m.adam_vb] {
        for c in g.iter_mut() {
            for v in c.iter_mut() {
                *v = suivant();
            }
        }
    }
    m
}

fn identiques(a: &Mlp, b: &Mlp) -> bool {
    a.sizes == b.sizes
        && a.steps == b.steps
        && a.weights == b.weights
        && a.biases == b.biases
        && a.adam_mw == b.adam_mw
        && a.adam_vw == b.adam_vw
        && a.adam_mb == b.adam_mb
        && a.adam_vb == b.adam_vb
}

fn lu(b: &Vec<u8>) -> Mlp {
    match Mlp::load(b) {
        Ok(m) => m,
        Err(e) => panic!("{e:?}"),
    }
}

fn refus(b: &Vec<u8>) -> ErreurModele {
    match Mlp::load(b) {
        Ok(_) => panic!("accepté"),
        Err(e) => e,
    }
}

#[test]
fn nouveau_reseau_par_defaut() {
    let t = tailles_par_defaut();
    assert_eq!(t, vec![N_FEATURES, 512, 64, 1]);
    let poids = vec![vec![0; 773 * 512], vec![0; 512 * 64], vec![0; 64]];
    let net = Mlp::new_avec_tailles(t, poids);
    assert_eq!(net.steps, 0);
    assert_eq!(net.taille_tampon(), 773);
    assert_eq!(net.schema(), SchemaFeatures::Classique773);
}

#[test]
fn sauvegarde_puis_chargement_exact() {
    let net = reseau(vec![7, 5, 3, 1], 42);
    let relu = lu(&net.save());
    assert!(identiques(&relu, &net));
}

#[test]
fn chargement_refuse_mauvais_magic() {
    assert_eq!(refus(&b"PASBONNN00000000".to_vec()), ErreurModele::MauvaisMagic);
}

#[test]
fn grand_reseau_aller_retour() {
    let net = reseau(vec![N_FEATURES, 32, 16, 8, 1], 9);
    let relu = lu(&net.save());
    assert_eq!(relu.sizes, vec![N_FEATURES, 32, 16, 8, 1]);
    assert!(identiques(&relu, &net));
}

#[test]
fn new_avec_tailles_refuse_mauvaise_entree() {
    assert_eq!(verifie_tailles(&vec![10, 4, 1], N_FEATURES), Err(ErreurTailles::MauvaiseEntree));
}

#[test]
fn new_avec_tailles_refuse_sortie_non_scalaire() {
    assert_eq!(
        verifie_tailles(&vec![N_FEATURES, 8, 2], N_FEATURES),
        Err(ErreurTailles::SortieNonScalaire)
    );
}

#[test]
fn new_avec_tailles_refuse_moins_de_deux_couches() {
    assert_eq!(verifie_tailles(&vec![N_FEATURES], N_FEATURES), Err(ErreurTailles::MoinsDeDeux));
    assert_eq!(verifie_tailles(&vec![N_FEATURES, 8, 1], N_FEATURES), Ok(()));
}

#[test]
fn sauvegarde_v2_roi_zones_aller_retour_exact() {
    let net = reseau(vec![N_FEATURES_ROI, 8, 1], 42);
    let octets = net.save();
    assert_eq!(&octets[..8], b"ECHECNN2");
    assert_eq!(octets[8 + 4 + 3 * 4], 1);
    let relu = lu(&octets);
    assert_eq!(relu.schema(), SchemaFeatures::RoiZones8);
    assert!(identiques(&relu, &net));
}

#[test]
fn sauvegarde_v2_classique_octet_schema_zero() {
    let net = reseau(vec![7, 5, 3, 1], 42);
    let octets = net.save();
    assert_eq!(&octets[..8], b"ECHECNN2");
    assert_eq!(octets[8 + 4 + 4 * 4], 0);
    let relu = lu(&octets);
    assert_eq!(relu.schema(), SchemaFeatures::Classique773);
    assert_eq!(relu.weights, net.weights);
}

fn fichier_v1(net: &Mlp) -> Vec<u8> {
    let mut w = b"ECHECNN1".to_vec();
    w.extend((net.sizes.len() as u32).to_le_bytes());
    for &s in &net.sizes {
        w.extend((s as u32).to_le_bytes());
    }
    w.extend(net.steps.to_le_bytes());
    for groupe in
        [&net.weights, &net.biases, &net.adam_mw, &net.adam_vw, &net.adam_mb, &net.adam_vb]
    {
        for couche in groupe {
            for &x in couche {
                w.extend(x.to_le_bytes());
            }
        }
    }
    w
}

#[test]
fn chargement_v1_synthetique_schema_classique() {
    let net = reseau(vec![9, 6, 1], 13);
    let relu = lu(&fichier_v1(&net));
    assert_eq!(relu.schema(), SchemaFeatures::Classique773);
    assert!(identiques(&relu, &net));
}

#[test]
fn chargement_v2_refuse_schema_incoherent_ou_inconnu() {
    let net = reseau(vec![7, 5, 3, 1], 2);
    let position_octet = 8 + 4 + 4 * 4;
    let mut octets = net.save();
    octets[position_octet] = 1;
    assert_eq!(refus(&octets), ErreurModele::SchemaIncoherent);
    octets[position_octet] = 9;
    assert_eq!(refus(&octets), ErreurModele::SchemaInconnu(9));
}

#[test]
fn fichiers_tronques() {
    let octets = reseau(vec![3, 2, 1], 5).save();
    for n in [0usize, 7, 11, 12, 20, 30, octets.len() - 1] {
        assert_eq!(refus(&octets[..n].to_vec()), ErreurModele::Tronque, "{n} octets");
    }
    let mut court = b"ECHECNN2".to_vec();
    court.extend(1u32.to_le_bytes());
    court.extend(7u32.to_le_bytes());
    assert_eq!(refus(&court), ErreurModele::TropPeuDeCouches);
    let mut long = octets.clone();
    long.push(77);
    assert!(identiques(&lu(&long), &lu(&octets)), "ce qui suit est ignoré");
}

#[test]
fn evalue_position_route_selon_le_schema() {
    let fen = "rnbqkbnr/pppppppp/8/8/8/8/PPPPPPPP/RNBQKBNR w KQkq - 0 1";
    let classique = reseau(vec![N_FEATURES, 8, 1], 3);
    let roi = reseau(vec![N_FEATURES_ROI, 8, 1], 4);
    assert_eq!(classique.schema(), SchemaFeatures::Classique773);
    assert_eq!(roi.schema(), SchemaFeatures::RoiZones8);
    assert!(matches!(entree(classique.schema(), fen), Some(Entree::Dense(x)) if x.len() == 773));
    assert!(matches!(entree(roi.schema(), fen), Some(Entree::Creuse(a)) if a.len() == 36));
}

#[test]
fn new_roi_zones_refuse_entree_classique() {
    assert_eq!(
        verifie_tailles(&vec![N_FEATURES, 8, 1], N_FEATURES_ROI),
        Err(ErreurTailles::MauvaiseEntree)
    );
}

#[test]
fn new_roi_zones_refuse_sortie_non_scalaire() {
    assert_eq!(
        verifie_tailles(&vec![N_FEATURES_ROI, 8, 2], N_FEATURES_ROI),
        Err(ErreurTailles::SortieNonScalaire)
    );
}

#[test]
fn new_roi_zones_refuse_moins_de_deux_tailles() {
    assert_eq!(
        verifie_tailles(&vec![N_FEATURES_ROI], N_FEATURES_ROI),
        Err(ErreurTailles::MoinsDeDeux)
    );
}

#[test]
fn schemas_en_octets() {
    assert_eq!(SchemaFeatures::Classique773.en_u8(), 0);
    assert_eq!(SchemaFeatures::RoiZones8.en_u8(), 1);
    assert_eq!(SchemaFeatures::depuis_u8(0), Some(SchemaFeatures::Classique773));
    assert_eq!(SchemaFeatures::depuis_u8(1), Some(SchemaFeatures::RoiZones8));
    assert_eq!(SchemaFeatures::depuis_u8(2), None);
}

#[test]
fn greffe_colonne_par_colonne() {
    let prof = reseau(vec![N_FEATURES, 3, 1], 8);
    let g = greffer(&prof);
    assert_eq!(g.sizes, vec![N_FEATURES_ROI, 3, 1]);
    assert_eq!(g.biases, prof.biases);
    assert_eq!(g.weights[1], prof.weights[1]);
    for j in 0..3 {
        for z in 0..8 {
            for k in [0usize, 100, 767] {
                assert_eq!(
                    g.weights[0][j * N_FEATURES_ROI + z * 768 + k],
                    prof.weights[0][j * N_FEATURES + k]
                );
            }
        }
        for k in 0..5 {
            assert_eq!(
                g.weights[0][j * N_FEATURES_ROI + 6144 + k],
                prof.weights[0][j * N_FEATURES + 768 + k]
            );
        }
    }
}

#[test]
fn colonnes_d_une_lecon() {
    let lots = vec![vec![5u16, 3, 5], vec![], vec![9, 3]];
    assert!(indices_valides(&lots, 10));
    assert!(!indices_valides(&lots, 9));
    let cols = colonnes_touchees(&lots);
    assert_eq!(cols, [3, 5, 9]);
    assert_eq!(rang_colonne(&cols, 5), Some(1));
    assert_eq!(rang_colonne(&cols, 4), None);
}

#[test]
fn colonne_libre_figee() {
    let mut w: Vec<u32> = (0..8).collect();
    pose_colonnes(&mut w, 4, 2, &vec![1, 3], &vec![100, 101, 102, 103]);
    assert_eq!((w[0], w[2], w[4], w[6]), (0, 2, 4, 6), "colonnes libres intactes");
    assert_eq!((w[1], w[3], w[5], w[7]), (100, 102, 101, 103));
}

#[test]
fn reseau_neuf_aux_zones_du_roi() {
    let sizes = vec![N_FEATURES_ROI, 2, 1];
    let poids = vec![vec![7; 2 * N_FEATURES_ROI], vec![9; 2]];
    let m = Mlp::new_roi_zones(sizes.clone(), poids);
    assert_eq!(m.sizes, sizes);
    assert_eq!(m.schema(), SchemaFeatures::RoiZones8);
    assert_eq!((m.weights[0][3], m.weights[1][1]), (7, 9));
    assert_eq!(m.biases, [vec![0; 2], vec![0]]);
    assert_eq!(m.adam_mw[0], vec![0; 2 * N_FEATURES_ROI]);
    assert_eq!(m.steps, 0);
}
