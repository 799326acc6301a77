//! Sparse encoding relative to the king: every piece feature is repeated for
//! each zone that our king can be in.
use vstd::prelude::*;

use crate::echiquier;
use crate::echiquier::Position;
use crate::features;

verus! {

/// Zones of our king.
pub const N_ZONES_ROI: usize = 8;

/// Eight zones of 768 piece features, then five flags.
pub const N_FEATURES_ROI: usize = N_ZONES_ROI * 768 + 5;

/// Zone of a king square seen from its side: two wings by four bands of two
/// ranks, numbered by quadrant and half.
pub open spec fn zone(case: int) -> int {
    let colonne = case % 8;
    let rangee = case / 8;
    4 * (rangee / 4) + 2 * (colonne / 4) + (rangee / 2) % 2
}

/// Zone of a king square, seen from its side.
pub fn zone_roi(case_roi_perspective: usize) -> (r: usize)
    requires
        case_roi_perspective < 64,
    ensures
        r == zone(case_roi_perspective as int),
        r < N_ZONES_ROI,
{
    let colonne: usize = case_roi_perspective % 8;
    let rangee: usize = case_roi_perspective / 8;
    let quadrant: usize = (rangee / 4) * 2 + colonne / 4;
    let moitie: usize = (rangee / 2) % 2;
    quadrant * 2 + moitie
}

/// The square of a zone by its file and rank within the zone.
pub open spec fn case_de_zone(z: int, i: int, j: int) -> int {
    let rangee = 4 * (z / 4) + 2 * (z % 2) + j;
    let colonne = 4 * ((z / 2) % 2) + i;
    8 * rangee + colonne
}

proof fn lemme_zone_de_case(c: int, r: int)
    requires
        0 <= c < 8,
        0 <= r < 8,
    ensures
        ({
            let z = 4 * (r / 4) + 2 * (c / 4) + (r / 2) % 2;
            &&& 0 <= z < 8
            &&& 4 * (z / 4) + 2 * (z % 2) + r % 2 == r
            &&& 4 * ((z / 2) % 2) + c % 4 == c
        }),
{
    let x = r / 4;
    let y = c / 4;
    let m = (r / 2) % 2;
    assert(0 <= x < 2 && 0 <= y < 2 && 0 <= m < 2);
    let z = 4 * x + 2 * y + m;
    assert(z / 4 == x);
    assert(z % 2 == m);
    assert((z / 2) % 2 == y);
    assert(r == 4 * x + 2 * m + r % 2);
}

proof fn lemme_case_de_zone(z: int, i: int, j: int)
    requires
        0 <= z < 8,
        0 <= i < 4,
        0 <= j < 2,
    ensures
        ({
            let k = case_de_zone(z, i, j);
            &&& 0 <= k < 64
            &&& zone(k) == z
            &&& (k % 8) % 4 == i
            &&& (k / 8) % 2 == j
        }),
{
    let x = z / 4;
    let y = (z / 2) % 2;
    let m = z % 2;
    assert(z == 4 * x + 2 * y + m && 0 <= x < 2 && 0 <= y < 2 && 0 <= m < 2);
    let r = 4 * x + 2 * m + j;
    let c = 4 * y + i;
    assert(0 <= r < 8 && 0 <= c < 8);
    let k = 8 * r + c;
    assert(k / 8 == r && k % 8 == c);
    assert(r / 4 == x);
    assert((r / 2) % 2 == m);
    assert(r % 2 == j);
    assert(c / 4 == y && c % 4 == i);
}

/// The zones share out the board: every square lies in exactly one of the
/// eight zones, and every zone has four files by two ranks.
pub proof fn loi_zones_partitionnent(case: int, z: int, i: int, j: int)
    requires
        0 <= case < 64,
        0 <= z < 8,
        0 <= i < 4,
        0 <= j < 2,
    ensures
        0 <= zone(case) < 8,
        case == case_de_zone(zone(case), (case % 8) % 4, (case / 8) % 2),
        0 <= case_de_zone(z, i, j) < 64,
        zone(case_de_zone(z, i, j)) == z,
        (case_de_zone(z, i, j) % 8) % 4 == i,
        (case_de_zone(z, i, j) / 8) % 2 == j,
{
    lemme_case_de_zone(z, i, j);
    lemme_zone_de_case(case % 8, case / 8);
}

/// Square of our king, seen from our side.
pub open spec fn case_du_roi(p: Seq<(u8, u8, bool)>, blanc: bool) -> int {
    let i = choose|i: int| echiquier::seul_roi(p, blanc, i);
    features::case_vue(p[i].0 as int, blanc)
}

/// Zone of our king.
pub open spec fn zone_de(p: echiquier::VuePosition, blanc: bool) -> int {
    zone(case_du_roi(p.0, blanc))
}

/// The active flags below `k`, by growing index.
pub open spec fn drapeaux_actifs(p: echiquier::VuePosition, blanc: bool, k: int) -> Seq<u16>
    decreases k,
{
    if k <= 0 {
        Seq::empty()
    } else {
        let d = drapeaux_actifs(p, blanc, k - 1);
        if features::drapeau(p, blanc, k - 1) {
            d.push((6144 + k - 1) as u16)
        } else {
            d
        }
    }
}

/// The active features of a position seen from a side: the pieces by growing
/// square, in the block of our king's zone, then the flags.
pub open spec fn actifs_attendus(p: echiquier::VuePosition, blanc: bool) -> Seq<u16> {
    Seq::new(
        p.0.len(),
        |k: int| (zone_de(p, blanc) * 768 + features::indice_piece(p.0[k], blanc)) as u16,
    ) + drapeaux_actifs(p, blanc, 5)
}

/// Place of our king among the pieces.
fn place_du_roi(pieces: &Vec<(u8, u8, bool)>, blanc: bool) -> (r: usize)
    requires
        exists|i: int| echiquier::seul_roi(pieces@, blanc, i),
    ensures
        echiquier::seul_roi(pieces@, blanc, r as int),
{
    let ghost roi = choose|i: int| echiquier::seul_roi(pieces@, blanc, i);
    let mut k: usize = 0;
    while k < pieces.len() && !(pieces[k].1 == 6 && pieces[k].2 == blanc)
        invariant
            k <= pieces@.len(),
            echiquier::seul_roi(pieces@, blanc, roi),
            k <= roi,
        decreases pieces.len() - k,
    {
        assert(k != roi);
        k += 1;
    }
    assert(k < pieces@.len());
    assert(pieces@[k as int].1 == 6 && pieces@[k as int].2 == blanc);
    k
}

/// Fills `sortie` with the active features of the position, seen by White or
/// by Black.
pub fn actifs_perspective(pos: &Position, blanc: bool, sortie: &mut Vec<u16>)
    requires
        echiquier::plateau_valide(pos.pieces@),
    ensures
        final(sortie)@ == actifs_attendus(pos@, blanc),
{
    sortie.clear();
    let roi: usize = place_du_roi(&pos.pieces, blanc);
    let case_roi: usize = features::vue_de_case(pos.pieces[roi].0, blanc);
    proof {
        let c = choose|i: int| echiquier::seul_roi(pos.pieces@, blanc, i);
        assert(c == roi);
    }
    let base: usize = zone_roi(case_roi) * 768;
    let ghost attendu = Seq::new(
        pos@.0.len(),
        |k: int| (zone_de(pos@, blanc) * 768 + features::indice_piece(pos@.0[k], blanc)) as u16,
    );
    let mut k: usize = 0;
    while k < pos.pieces.len()
        invariant
            k <= pos.pieces@.len(),
            echiquier::cases_rangees(pos.pieces@),
            base == zone_de(pos@, blanc) * 768,
            base <= 7 * 768,
            attendu == Seq::new(
                pos@.0.len(),
                |k: int|
                    (zone_de(pos@, blanc) * 768 + features::indice_piece(pos@.0[k], blanc)) as u16,
            ),
            sortie@ == attendu.take(k as int),
        decreases pos.pieces.len() - k,
    {
        let i: usize = base + features::indice_de_piece(pos.pieces[k], blanc);
        sortie.push(i as u16);
        assert(sortie@ =~= attendu.take(k as int + 1));
        k += 1;
    }
    assert(attendu.take(k as int) =~= attendu);
    let f: [bool; 5] = features::drapeaux(pos, blanc);
    let mut j: usize = 0;
    assert(sortie@ =~= attendu + drapeaux_actifs(pos@, blanc, 0));
    while j < 5
        invariant
            j <= 5,
            forall|k: int| 0 <= k < 5 ==> #[trigger] f@[k] == features::drapeau(pos@, blanc, k),
            sortie@ == attendu + drapeaux_actifs(pos@, blanc, j as int),
        decreases 5 - j,
    {
        let b: bool = f[j];
        assert(b == f@[j as int]);
        if b {
            sortie.push((6144 + j) as u16);
            assert(sortie@ =~= attendu + drapeaux_actifs(pos@, blanc, j as int + 1));
        }
        j += 1;
    }
}

/// The active features of the position, seen by the side to move.
pub fn actifs(pos: &Position, sortie: &mut Vec<u16>)
    requires
        echiquier::plateau_valide(pos.pieces@),
    ensures
        final(sortie)@ == actifs_attendus(pos@, pos.trait_blanc),
{
    actifs_perspective(pos, pos.trait_blanc, sortie);
}

/// Zone (0 to 7) of the king of the side to move.
pub fn zone_du_trait(pos: &Position) -> (r: usize)
    requires
        echiquier::plateau_valide(pos.pieces@),
    ensures
        r == zone_de(pos@, pos.trait_blanc),
        r < N_ZONES_ROI,
{
    let blanc: bool = pos.trait_blanc;
    let roi: usize = place_du_roi(&pos.pieces, blanc);
    let case_roi: usize = features::vue_de_case(pos.pieces[roi].0, blanc);
    proof {
        let c = choose|i: int| echiquier::seul_roi(pos.pieces@, blanc, i);
        assert(c == roi);
    }
    zone_roi(case_roi)
}

/// The dense feature that a sparse one stands for: the zone block is taken
/// away.
pub open spec fn sans_zone(i: int) -> int {
    if i < 6144 {
        i % 768
    } else {
        i - 6144 + 768
    }
}

proof fn lemme_drapeaux(p: echiquier::VuePosition, blanc: bool, k: int)
    requires
        0 <= k <= 5,
    ensures
        drapeaux_actifs(p, blanc, k).len() <= k,
        forall|m: int|
            0 <= m < drapeaux_actifs(p, blanc, k).len() ==> 6144 <= #[trigger] drapeaux_actifs(
                p,
                blanc,
                k,
            )[m] < 6144 + k && features::drapeau(p, blanc, drapeaux_actifs(p, blanc, k)[m] - 6144),
        forall|m: int, n: int|
            0 <= m < n < drapeaux_actifs(p, blanc, k).len() ==> #[trigger] drapeaux_actifs(
                p,
                blanc,
                k,
            )[m] < #[trigger] drapeaux_actifs(p, blanc, k)[n],
        forall|d: int|
            0 <= d < k && #[trigger] features::drapeau(p, blanc, d) ==> drapeaux_actifs(
                p,
                blanc,
                k,
            ).contains((6144 + d) as u16),
    decreases k,
{
    if k > 0 {
        lemme_drapeaux(p, blanc, k - 1);
        let a = drapeaux_actifs(p, blanc, k - 1);
        let b = drapeaux_actifs(p, blanc, k);
        assert forall|d: int| 0 <= d < k && #[trigger] features::drapeau(p, blanc, d) implies b.contains(
            (6144 + d) as u16,
        ) by {
            if d == k - 1 {
                assert(b[a.len() as int] == (6144 + d) as u16);
            } else {
                let x = (6144 + d) as u16;
                assert(a.contains(x));
                let m = a.index_of(x);
                assert(b[m] == x);
            }
        }
    }
}

proof fn lemme_piece(p: echiquier::VuePosition, blanc: bool, k: int)
    requires
        echiquier::plateau_valide(p.0),
        0 <= k < p.0.len(),
    ensures
        0 <= features::indice_piece(p.0[k], blanc) < 768,
        0 <= zone_de(p, blanc) < 8,
        actifs_attendus(p, blanc)[k] == zone_de(p, blanc) * 768 + features::indice_piece(
            p.0[k],
            blanc,
        ),
{
    let x = p.0[k];
    assert(x.0 < 64 && 1 <= x.1 <= 6);
    let i = choose|i: int| echiquier::seul_roi(p.0, blanc, i);
    assert(echiquier::seul_roi(p.0, blanc, i));
    assert(p.0[i].0 < 64);
}

proof fn lemme_drapeau_place(p: echiquier::VuePosition, blanc: bool, k: int)
    requires
        p.0.len() <= k < actifs_attendus(p, blanc).len(),
    ensures
        ({
            let x = actifs_attendus(p, blanc)[k];
            &&& x == drapeaux_actifs(p, blanc, 5)[k - p.0.len()]
            &&& 6144 <= x < 6149
            &&& features::drapeau(p, blanc, x - 6144)
        }),
{
    lemme_drapeaux(p, blanc, 5);
    let d = drapeaux_actifs(p, blanc, 5);
    assert(actifs_attendus(p, blanc)[k] == d[k - p.0.len()]);
}

proof fn lemme_vue_injective(a: int, b: int, blanc: bool)
    requires
        0 <= a < 64,
        0 <= b < 64,
        a != b,
    ensures
        features::case_vue(a, blanc) != features::case_vue(b, blanc),
        0 <= features::case_vue(a, blanc) < 64,
        0 <= features::case_vue(b, blanc) < 64,
{
}

/// Active features are all distinct, at most thirty-seven, and inside the
/// input layer.
pub proof fn loi_actifs_distincts(p: echiquier::VuePosition, blanc: bool, k: int, m: int)
    requires
        echiquier::plateau_valide(p.0),
        0 <= k < m < actifs_attendus(p, blanc).len(),
    ensures
        actifs_attendus(p, blanc).len() <= 37,
        actifs_attendus(p, blanc)[k] < N_FEATURES_ROI,
        actifs_attendus(p, blanc)[m] < N_FEATURES_ROI,
        actifs_attendus(p, blanc)[k] != actifs_attendus(p, blanc)[m],
{
    let n = p.0.len() as int;
    lemme_drapeaux(p, blanc, 5);
    if m < n {
        lemme_piece(p, blanc, k);
        lemme_piece(p, blanc, m);
        assert(p.0[k].0 < p.0[m].0);
        assert(p.0[k].0 < 64 && p.0[m].0 < 64);
        lemme_vue_injective(p.0[k].0 as int, p.0[m].0 as int, blanc);
    } else if k < n {
        lemme_piece(p, blanc, k);
        lemme_drapeau_place(p, blanc, m);
    } else {
        lemme_drapeau_place(p, blanc, k);
        lemme_drapeau_place(p, blanc, m);
    }
}

/// The sparse encoding is the dense one, moved as a whole into the block of our
/// king's zone: every active sparse feature stands for an active dense one.
pub proof fn loi_creux_vers_dense(p: echiquier::VuePosition, blanc: bool, k: int)
    requires
        echiquier::plateau_valide(p.0),
        0 <= k < actifs_attendus(p, blanc).len(),
    ensures
        features::active(p, blanc, sans_zone(actifs_attendus(p, blanc)[k] as int)),
        k < p.0.len() ==> actifs_attendus(p, blanc)[k] as int / 768 == zone_de(p, blanc),
{
    if k < p.0.len() {
        lemme_piece(p, blanc, k);
        let i = features::indice_piece(p.0[k], blanc);
        let z = zone_de(p, blanc);
        assert((z * 768 + i) % 768 == i && (z * 768 + i) / 768 == z);
        assert(sans_zone(actifs_attendus(p, blanc)[k] as int) == i);
    } else {
        lemme_drapeau_place(p, blanc, k);
    }
}

/// Every active dense feature is stood for by an active sparse one.
pub proof fn loi_dense_vers_creux(p: echiquier::VuePosition, blanc: bool, i: int)
    requires
        echiquier::plateau_valide(p.0),
        features::active(p, blanc, i),
    ensures
        exists|k: int|
            0 <= k < actifs_attendus(p, blanc).len() && sans_zone(
                #[trigger] actifs_attendus(p, blanc)[k] as int,
            ) == i,
{
    let a = actifs_attendus(p, blanc);
    let n = p.0.len() as int;
    if i < 768 {
        let k = choose|k: int|
            0 <= k < p.0.len() && features::indice_piece(#[trigger] p.0[k], blanc) == i;
        lemme_piece(p, blanc, k);
        let z = zone_de(p, blanc);
        assert((z * 768 + i) % 768 == i);
        assert(sans_zone(a[k] as int) == i);
    } else {
        lemme_drapeaux(p, blanc, 5);
        let d = drapeaux_actifs(p, blanc, 5);
        assert(features::drapeau(p, blanc, i - 768));
        let x = (6144 + (i - 768)) as u16;
        assert(d.contains(x));
        let m = d.index_of(x);
        assert(a[n + m] == x);
        assert(sans_zone(a[n + m] as int) == i);
    }
}

/// An active sparse feature lies inside the input layer.
pub proof fn loi_actif_borne(p: echiquier::VuePosition, blanc: bool, k: int)
    requires
        echiquier::plateau_valide(p.0),
        0 <= k < actifs_attendus(p, blanc).len(),
    ensures
        actifs_attendus(p, blanc)[k] < N_FEATURES_ROI,
{
    if k < p.0.len() {
        lemme_piece(p, blanc, k);
    } else {
        lemme_drapeau_place(p, blanc, k);
    }
}

proof fn lemme_retour(p: echiquier::VuePosition, blanc: bool, k: int)
    requires
        echiquier::plateau_valide(p.0),
        0 <= k < actifs_attendus(p, blanc).len(),
    ensures
        ({
            let x = actifs_attendus(p, blanc)[k] as int;
            x == if sans_zone(x) < 768 {
                zone_de(p, blanc) * 768 + sans_zone(x)
            } else {
                sans_zone(x) + 5376
            }
        }),
{
    if k < p.0.len() {
        lemme_piece(p, blanc, k);
        let i = features::indice_piece(p.0[k], blanc);
        let z = zone_de(p, blanc);
        assert((z * 768 + i) % 768 == i);
    } else {
        lemme_drapeau_place(p, blanc, k);
    }
}

/// Two active sparse features of one position never stand for the same dense
/// feature.
pub proof fn loi_sans_zone_injective(p: echiquier::VuePosition, blanc: bool, k: int, m: int)
    requires
        echiquier::plateau_valide(p.0),
        0 <= k < actifs_attendus(p, blanc).len(),
        0 <= m < actifs_attendus(p, blanc).len(),
        sans_zone(actifs_attendus(p, blanc)[k] as int) == sans_zone(
            actifs_attendus(p, blanc)[m] as int,
        ),
    ensures
        k == m,
{
    lemme_retour(p, blanc, k);
    lemme_retour(p, blanc, m);
    if k < m {
        loi_actifs_distincts(p, blanc, k, m);
    } else if m < k {
        loi_actifs_distincts(p, blanc, m, k);
    }
}

/// Zones of the king: the upper half of the board counts four, the right half
/// two, and the upper half of each half one.
pub proof fn loi_zones_en_chiffres(case: int)
    requires
        0 <= case < 64,
    ensures
        zone(case) >= 4 <==> case >= 32,
        zone(case) % 4 >= 2 <==> case % 8 >= 4,
        zone(case) % 2 == 1 <==> (case / 8) % 4 >= 2,
        0 <= zone(case) < 8,
{
}

/// The zone of a side is that of its only king, seen from that side.
pub proof fn loi_zone_du_roi(p: echiquier::VuePosition, blanc: bool, i: int)
    requires
        echiquier::seul_roi(p.0, blanc, i),
        p.0[i].0 < 64,
    ensures
        blanc ==> zone_de(p, blanc) == zone(p.0[i].0 as int),
        !blanc ==> zone_de(p, blanc) == zone(8 * (7 - p.0[i].0 as int / 8) + p.0[i].0 as int % 8),
{
    let k = choose|k: int| echiquier::seul_roi(p.0, blanc, k);
    assert(echiquier::seul_roi(p.0, blanc, k));
    assert(k == i);
}

/// Piece features come first, one per piece in order, each at its dense place
/// within the 768 places of the king's zone; the flags follow at 6144.
pub proof fn loi_place_des_actifs(p: echiquier::VuePosition, blanc: bool, k: int)
    requires
        echiquier::plateau_valide(p.0),
    ensures
        0 <= k < p.0.len() ==> actifs_attendus(p, blanc)[k] == 768 * zone_de(p, blanc)
            + features::indice_piece(p.0[k], blanc),
        0 <= k < 5 ==> (actifs_attendus(p, blanc).contains((6144 + k) as u16) <==> features::drapeau(
            p,
            blanc,
            k,
        )),
{
    let a = actifs_attendus(p, blanc);
    if 0 <= k < p.0.len() {
        lemme_piece(p, blanc, k);
    }
    if 0 <= k < 5 {
        lemme_drapeaux_actifs(p, blanc, 5, k);
        let d = drapeaux_actifs(p, blanc, 5);
        if d.contains((6144 + k) as u16) {
            let j = d.index_of((6144 + k) as u16);
            assert(a[p.0.len() + j] == d[j]);
        }
        if a.contains((6144 + k) as u16) {
            let j = a.index_of((6144 + k) as u16);
            if j < p.0.len() {
                lemme_piece(p, blanc, j);
            } else {
                assert(d[j - p.0.len()] == a[j]);
            }
        }
    }
}

proof fn lemme_drapeaux_actifs(p: echiquier::VuePosition, blanc: bool, n: int, k: int)
    requires
        0 <= n <= 5,
        0 <= k < 5,
    ensures
        drapeaux_actifs(p, blanc, n).contains((6144 + k) as u16) <==> k < n && features::drapeau(
            p,
            blanc,
            k,
        ),
    decreases n,
{
    if n > 0 {
        lemme_drapeaux_actifs(p, blanc, n - 1, k);
        let d = drapeaux_actifs(p, blanc, n - 1);
        let x = (6144 + n - 1) as u16;
        let e = d.push(x);
        let y = (6144 + k) as u16;
        if d.contains(y) {
            assert(e[d.index_of(y)] == y);
        }
        assert(e[d.len() as int] == x);
        if e.contains(y) && y != x {
            assert(d[e.index_of(y)] == y);
        }
    }
}

/// Without the zone, a piece feature is its dense place and a flag keeps its
/// order after the 768 places.
pub proof fn loi_sans_zone(z: int, i: int, k: int)
    requires
        0 <= z < 8,
        0 <= i < 768,
        0 <= k < 5,
    ensures
        sans_zone(768 * z + i) == i,
        sans_zone(6144 + k) == 768 + k,
{
}

} // verus!
