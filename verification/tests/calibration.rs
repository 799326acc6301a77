//! Calibration measures, and the readings of text and numbers they rest on.
use echec::calibration::{
    assemble, champs_du_csv, noeuds, palier, rangs, taille_vague, temperature_du_pli, tranche,
    triplets_lus, tronque, verifie_table, ErreurTriplets, Mesure,
};
use echec::echiquier::DEPART;
use echec::reels::{cle_f32, est_au_moins, est_nan, oppose_f32};
use echec::texte::{
    caracteres, decoupe, depasse, ecrit_large, ecrit_naturel, ecrit_relatif, en_lignes, en_mots,
    est_blanc, joindre, lit_i32, lit_naturel, rogner, texte,
};

#[test]
fn partie_tranchee_par_une_serie() {
    let seuil = 0.9f32.to_bits();
    let mut m = Mesure::neuve(DEPART).unwrap();
    assert!(!m.finie);
    m.mesure(0, 1, Some(0.95f32.to_bits()), seuil, 2);
    assert_eq!((m.serie, m.finie), (1, false));
    assert!(!m.joue("e2e5"));
    assert!(m.joue("e2e4"));
    // Black to move: the label is seen from their side.
    m.mesure((-0.99f32).to_bits(), 2, None, seuil, 2);
    assert_eq!((m.serie, m.finie), (2, true));
    assert_eq!(m.lignes.len(), 2);
    assert_eq!((m.lignes[0].fen.as_str(), m.lignes[0].v_champion), (DEPART, 1));
    assert_eq!((m.lignes[1].v_champion, m.lignes[1].label1), (2, None));
}

#[test]
fn serie_rompue_ou_retournee() {
    let seuil = 0.9f32.to_bits();
    let mut m = Mesure::neuve(DEPART).unwrap();
    m.mesure(1.0f32.to_bits(), 0, None, seuil, 0);
    assert_eq!(m.serie, 1);
    assert!(m.joue("g1f3"));
    m.mesure(1.0f32.to_bits(), 0, None, seuil, 0);
    assert_eq!(m.serie, -1, "l'avantage change de camp");
    assert!(m.joue("g8f6"));
    m.mesure(0.1f32.to_bits(), 0, None, seuil, 0);
    assert_eq!(m.serie, 0);
    assert!(!m.finie, "zéro pli : aucun arbitrage");
    assert!(Mesure::neuve("rien").is_none());
    assert!(Mesure::neuve("7k/8/6K1/8/8/8/8/6N1 w - - 0 1").unwrap().finie);
}

#[test]
fn mesure_arretee_a_la_troisieme_repetition() {
    let mut m = Mesure::neuve(DEPART).unwrap();
    let tour = ["g1f3", "g8f6", "f3g1", "f6g8"];
    for i in 0..8 {
        assert!(!m.finie, "pli {i}");
        m.mesure(0, 0, None, 0.9f32.to_bits(), 4);
        assert!(m.joue(tour[i % 4]));
    }
    assert!(m.finie);
}

#[test]
fn corpus_tronque_a_la_cible() {
    let p = vec![vec![true, false, true], vec![false, true, true], vec![true]];
    assert_eq!(tronque(&p, 3), [3, 2, 0]);
    assert_eq!(tronque(&p, 0), [0, 0, 0]);
    assert_eq!(tronque(&p, 99), [3, 3, 1]);
    assert_eq!(taille_vague(600, 4), 11);
    assert_eq!(taille_vague(1, 4), 4);
}

#[test]
fn triplets_assembles() {
    let (t, n) = assemble(&vec![(1, Some(2)), (3, None), (4, Some(5))], &vec![Some(6), Some(7), None]);
    assert_eq!((t, n), (vec![(1, 2, 6)], 2));
    let lit = |s: &str| {
        let l = champs_du_csv(s);
        let n: Vec<usize> = l.iter().map(|x| x.0).collect();
        let v: Vec<Vec<Option<u64>>> = l
            .iter()
            .map(|x| x.1.iter().map(|c| c.parse::<f64>().ok().map(|y| y.to_bits())).collect())
            .collect();
        triplets_lus(&n, &v)
    };
    let b = |x: f64| x.to_bits();
    assert_eq!(
        lit("v_champion,label1,label2\n0.5,0.25,-1\n\n 1 , 0,0.5\n"),
        Ok(vec![(b(0.5), b(0.25), b(-1.0)), (b(1.0), b(0.0), b(0.5))])
    );
    assert_eq!(lit("v_champion,a,b\n1,2,3\n1,2\n"), Err(ErreurTriplets::Imparsable(3)));
    assert_eq!(lit("1,2,x\n"), Err(ErreurTriplets::Imparsable(1)));
    assert_eq!(lit("v_champion,label1,label2\n"), Err(ErreurTriplets::Aucun));
}

#[test]
fn rangs_moyens() {
    assert_eq!(rangs(&vec![10, 30, 20]), [2, 6, 4]);
    assert_eq!(rangs(&vec![5, 5, 1, 9]), [5, 5, 2, 8]);
    assert!(rangs(&vec![]).is_empty());
}

#[test]
fn paliers_de_l_escalier() {
    let xs = vec![-5, 0, 7];
    assert_eq!(palier(&xs, -9), 0);
    assert_eq!(palier(&xs, -5), 0);
    assert_eq!(palier(&xs, 6), 1);
    assert_eq!(palier(&xs, 7), 2);
    assert_eq!(palier(&xs, 99), 2);
}

#[test]
fn tranches_bout_a_bout() {
    let mut fin = 0;
    for q in 0..20 {
        let (a, b) = tranche(q, 137);
        assert_eq!(a, fin);
        fin = b;
    }
    assert_eq!(fin, 137);
}

#[test]
fn noeuds_de_la_table() {
    let tri: Vec<i64> = (0..127).collect();
    let n = noeuds(&tri);
    assert_eq!(n, (0..64).map(|k| 2 * k).collect::<Vec<usize>>());
    assert_eq!(noeuds(&vec![3; 50]), [0]);
    assert!(verifie_table(&vec![-10, 0, 10], &vec![-10, 4, 10], -10, 10));
    assert!(!verifie_table(&vec![-10, 0, 9], &vec![-10, 4, 10], -10, 10));
    assert!(!verifie_table(&vec![-10, 0, 10], &vec![-10, 4, 4], -10, 10));
    assert!(!verifie_table(&vec![-10, 0, 10], &vec![-10, 4, 11], -10, 10));
    assert!(!verifie_table(&vec![-10], &vec![-10], -10, -10));
}

#[test]
fn reels_par_leurs_bits() {
    let v = [f32::NEG_INFINITY, -2.5, -1e-40, 0.0, 1e-40, 0.5, 3.0, f32::INFINITY];
    for a in v {
        assert_eq!(oppose_f32(a.to_bits()), (-a).to_bits());
        for b in v {
            assert_eq!(cle_f32(a.to_bits()) < cle_f32(b.to_bits()), a < b);
            assert_eq!(est_au_moins(a.to_bits(), b.to_bits()), a >= b);
        }
    }
    assert!(est_au_moins((-0.0f32).to_bits(), 0.0f32.to_bits()));
    assert!(est_nan(f32::NAN.to_bits()) && !est_nan(f32::INFINITY.to_bits()));
    assert!(!est_au_moins(f32::NAN.to_bits(), 0.0f32.to_bits()));
}

#[test]
fn blancs_du_texte() {
    for u in 0..0x11_0000u32 {
        if let Some(c) = char::from_u32(u) {
            assert_eq!(est_blanc(c), c.is_whitespace(), "{u:x}");
        }
    }
}

fn mots(v: &Vec<Vec<char>>) -> Vec<String> {
    v.iter().map(texte).collect()
}

#[test]
fn textes_comme_ceux_de_rust() {
    for t in ["", "a", "a\nb", "a\r\nb\n", "\n\n", "  x  y\tz ", "é ñ\u{2003}ç", ",a,,b,"] {
        let l: Vec<String> = t.lines().map(|x| x.to_string()).collect();
        assert_eq!(mots(&en_lignes(t)), l, "{t:?}");
        let v = caracteres(t);
        let w: Vec<String> = t.split_whitespace().map(|x| x.to_string()).collect();
        assert_eq!(mots(&en_mots(&v)), w, "{t:?}");
        let d: Vec<String> = t.split(',').map(|x| x.to_string()).collect();
        assert_eq!(mots(&decoupe(&v, ',')), d, "{t:?}");
        assert_eq!(joindre(&decoupe(&v, ','), ','), v);
        assert_eq!(texte(&rogner(&v)), t.trim());
    }
}

#[test]
fn nombres_ecrits_puis_relus() {
    for n in [0, 1, 9, 10, 999, 1000, u64::MAX] {
        let v = ecrit_naturel(n);
        assert_eq!(texte(&v), n.to_string());
        assert_eq!(lit_naturel(&v, u64::MAX), Some(n));
        assert_eq!(texte(&ecrit_large(n, 4)), format!("{n:04}"));
    }
    for i in [0, 7, -7, i64::MIN, i64::MAX] {
        assert_eq!(texte(&ecrit_relatif(i)), i.to_string());
    }
    for t in ["", "-", "+", "+7", "-0", "007", "-2147483648", "2147483648", "1 ", "a", "٣"] {
        let v = caracteres(t);
        assert_eq!(lit_i32(&v), t.parse::<i32>().ok(), "{t:?}");
        assert_eq!(lit_naturel(&v, u64::from(u32::MAX)), t.parse::<u32>().ok().map(u64::from), "{t:?}");
    }
    assert!(depasse(&caracteres("aé€"), 5), "six octets en UTF-8");
    assert!(!depasse(&caracteres("aé€"), 6));
}

#[test]
fn temperature_des_plis_chauds() {
    let (chaude, froide) = (1.2f32.to_bits(), 0.3f32.to_bits());
    assert_eq!(temperature_du_pli(0, 8, chaude, froide), chaude);
    assert_eq!(temperature_du_pli(7, 8, chaude, froide), chaude);
    assert_eq!(temperature_du_pli(8, 8, chaude, froide), froide);
    assert_eq!(temperature_du_pli(0, 0, chaude, froide), froide);
}
