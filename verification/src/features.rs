//! Dense encoding of a position for the value network.
//!
//! The encoding is that of the side to move: when Black moves, the board is
//! turned upside down and the colours are exchanged, so that the network always
//! sees its own pieces start from the bottom.
use vstd::prelude::*;

use crate::echiquier;
use crate::echiquier::Position;

verus! {

/// Twelve piece kinds (ours, then theirs: pawn, knight, bishop, rook, queen,
/// king) on sixty-four squares, four castling rights, one flag for a legal
/// capture en passant.
pub const N_FEATURES: usize = 773;

/// A square seen from a side: Black turns the board upside down.
pub open spec fn case_vue(case: int, blanc: bool) -> int {
    if blanc {
        case
    } else {
        8 * (7 - case / 8) + case % 8
    }
}

/// Plane of a piece: ours from 0 to 5, theirs from 6 to 11.
pub open spec fn plan_de(role: int, notre: bool) -> int {
    if notre {
        role - 1
    } else {
        role + 5
    }
}

/// Place of a piece among the 768 piece features, seen from a side.
pub open spec fn indice_piece(p: (u8, u8, bool), blanc: bool) -> int {
    plan_de(p.1 as int, p.2 == blanc) * 64 + case_vue(p.0 as int, blanc)
}

/// The five flags seen from a side: our castling short and long, theirs short
/// and long, a legal capture en passant.
pub open spec fn drapeau(p: echiquier::VuePosition, blanc: bool, k: int) -> bool {
    let r = p.2;
    if k == 0 {
        if blanc {
            r.0
        } else {
            r.2
        }
    } else if k == 1 {
        if blanc {
            r.1
        } else {
            r.3
        }
    } else if k == 2 {
        if blanc {
            r.2
        } else {
            r.0
        }
    } else if k == 3 {
        if blanc {
            r.3
        } else {
            r.1
        }
    } else {
        p.3
    }
}

/// Is feature `i` active in the position, seen from a side?
pub open spec fn active(p: echiquier::VuePosition, blanc: bool, i: int) -> bool {
    ||| 0 <= i < 768 && exists|k: int| 0 <= k < p.0.len() && indice_piece(#[trigger] p.0[k], blanc) == i
    ||| 768 <= i < 773 && drapeau(p, blanc, i - 768)
}

/// A square seen from a side.
pub fn vue_de_case(case: u8, blanc: bool) -> (r: usize)
    requires
        case < 64,
    ensures
        r == case_vue(case as int, blanc),
        r < 64,
{
    if blanc {
        case as usize
    } else {
        8 * (7 - (case / 8) as usize) + (case % 8) as usize
    }
}

/// Place of a piece among the 768 piece features.
pub fn indice_de_piece(p: (u8, u8, bool), blanc: bool) -> (r: usize)
    requires
        p.0 < 64,
        1 <= p.1 <= 6,
    ensures
        r == indice_piece(p, blanc),
        r < 768,
{
    let plan: usize = if p.2 == blanc {
        (p.1 - 1) as usize
    } else {
        (p.1 + 5) as usize
    };
    plan * 64 + vue_de_case(p.0, blanc)
}

/// The flags seen from a side.
pub fn drapeaux(pos: &Position, blanc: bool) -> (r: [bool; 5])
    ensures
        forall|k: int| 0 <= k < 5 ==> #[trigger] r@[k] == drapeau(pos@, blanc, k),
{
    let q: (bool, bool, bool, bool) = pos.roques;
    if blanc {
        [q.0, q.1, q.2, q.3, pos.en_passant]
    } else {
        [q.2, q.3, q.0, q.1, pos.en_passant]
    }
}

/// Fills `sortie` with the encoding of the position, one or zero, from the
/// side to move.
pub fn encode(pos: &Position, sortie: &mut Vec<u8>)
    requires
        echiquier::cases_rangees(pos.pieces@),
    ensures
        final(sortie)@.len() == N_FEATURES,
        forall|i: int|
            0 <= i < N_FEATURES ==> #[trigger] final(sortie)@[i] == if active(
                pos@,
                pos.trait_blanc,
                i,
            ) {
                1u8
            } else {
                0u8
            },
{
    let blanc: bool = pos.trait_blanc;
    sortie.clear();
    let mut n: usize = 0;
    while n < N_FEATURES
        invariant
            n <= N_FEATURES,
            sortie@.len() == n,
            forall|i: int| 0 <= i < n ==> #[trigger] sortie@[i] == 0u8,
        decreases N_FEATURES - n,
    {
        sortie.push(0);
        n += 1;
    }
    let mut k: usize = 0;
    while k < pos.pieces.len()
        invariant
            k <= pos.pieces@.len(),
            echiquier::cases_rangees(pos.pieces@),
            sortie@.len() == N_FEATURES,
            forall|i: int|
                0 <= i < N_FEATURES ==> #[trigger] sortie@[i] == if exists|m: int|
                    0 <= m < k && indice_piece(#[trigger] pos.pieces@[m], blanc) == i {
                    1u8
                } else {
                    0u8
                },
        decreases pos.pieces.len() - k,
    {
        let i: usize = indice_de_piece(pos.pieces[k], blanc);
        sortie.set(i, 1);
        assert(indice_piece(pos.pieces@[k as int], blanc) == i);
        k += 1;
    }
    let f: [bool; 5] = drapeaux(pos, blanc);
    assert forall|m: int| 0 <= m < pos.pieces@.len() implies 0 <= indice_piece(
        #[trigger] pos.pieces@[m],
        blanc,
    ) < 768 by {
        let p = pos.pieces@[m];
        assert(p.0 < 64 && 1 <= p.1 <= 6);
    }
    assert(pos@.0 == pos.pieces@);
    assert forall|i: int| 0 <= i < N_FEATURES implies #[trigger] sortie@[i] == if i < 768 && active(
        pos@,
        blanc,
        i,
    ) {
        1u8
    } else {
        0u8
    } by {
        if exists|m: int| 0 <= m < k && indice_piece(#[trigger] pos.pieces@[m], blanc) == i {
            let m = choose|m: int| 0 <= m < k && indice_piece(#[trigger] pos.pieces@[m], blanc) == i;
            assert(indice_piece(pos@.0[m], blanc) == i);
        } else if i < 768 && active(pos@, blanc, i) {
            let m = choose|m: int|
                0 <= m < pos@.0.len() && indice_piece(#[trigger] pos@.0[m], blanc) == i;
            assert(indice_piece(pos.pieces@[m], blanc) == i);
        }
    }
    let mut j: usize = 0;
    while j < 5
        invariant
            j <= 5,
            blanc == pos.trait_blanc,
            sortie@.len() == N_FEATURES,
            forall|k: int| 0 <= k < 5 ==> #[trigger] f@[k] == drapeau(pos@, blanc, k),
            forall|i: int|
                0 <= i < 768 ==> #[trigger] sortie@[i] == if active(pos@, blanc, i) {
                    1u8
                } else {
                    0u8
                },
            forall|i: int|
                768 <= i < N_FEATURES ==> #[trigger] sortie@[i] == if i < 768 + j && active(
                    pos@,
                    blanc,
                    i,
                ) {
                    1u8
                } else {
                    0u8
                },
        decreases 5 - j,
    {
        let b: bool = f[j];
        assert(b == f@[j as int]);
        if b {
            sortie.set(768 + j, 1);
        }
        j += 1;
    }
}

/// The position turned upside down, with the colours exchanged.
pub open spec fn renversee(p: echiquier::VuePosition) -> echiquier::VuePosition {
    (
        p.0.map_values(|x: (u8, u8, bool)| (case_vue(x.0 as int, false) as u8, x.1, !x.2)),
        !p.1,
        (p.2.2, p.2.3, p.2.0, p.2.1),
        p.3,
        p.4,
        p.5,
        p.6,
        p.7,
        p.8,
    )
}

/// The network sees a position and the same position turned upside down, with
/// the colours exchanged, alike.
pub proof fn loi_symetrie(p: echiquier::VuePosition, blanc: bool, i: int)
    requires
        echiquier::cases_rangees(p.0),
    ensures
        active(renversee(p), !blanc, i) == active(p, blanc, i),
{
    let q = renversee(p);
    assert forall|k: int| 0 <= k < p.0.len() implies indice_piece(#[trigger] q.0[k], !blanc)
        == indice_piece(p.0[k], blanc) by {
        let x = p.0[k];
        assert(x.0 < 64);
        assert(q.0[k] == (case_vue(x.0 as int, false) as u8, x.1, !x.2));
    }
    if 0 <= i < 768 {
        if active(p, blanc, i) {
            let k = choose|k: int|
                0 <= k < p.0.len() && indice_piece(#[trigger] p.0[k], blanc) == i;
            assert(indice_piece(q.0[k], !blanc) == i);
        }
        if active(q, !blanc, i) {
            let k = choose|k: int|
                0 <= k < q.0.len() && indice_piece(#[trigger] q.0[k], !blanc) == i;
            assert(indice_piece(p.0[k], blanc) == i);
        }
    }
}

/// The place of a piece tells the piece: seen from the same side, two pieces
/// that differ in their square, their kind or their colour stand at different
/// places.
pub proof fn loi_place_unique(p: (u8, u8, bool), q: (u8, u8, bool), blanc: bool)
    requires
        p.0 < 64,
        q.0 < 64,
        1 <= p.1 <= 6,
        1 <= q.1 <= 6,
        p != q,
    ensures
        indice_piece(p, blanc) != indice_piece(q, blanc),
{
    assert(p.0 != q.0 || p.1 != q.1 || p.2 != q.2);
}

/// Planes of sixty-four squares: our pawns, knights, bishops, rooks, queens
/// and king from 0 to 5, theirs in the same order from 6 to 11. White sees its
/// squares as they are numbered; Black sees the rank mirrored and the file
/// kept.
pub proof fn loi_plans_des_pieces(case: u8, role: u8, blanc: bool)
    requires
        case < 64,
        1 <= role <= 6,
    ensures
        ({
            let notre = indice_piece((case, role, blanc), blanc);
            let leur = indice_piece((case, role, !blanc), blanc);
            &&& role == 1 ==> 0 <= notre < 64
            &&& role == 2 ==> 64 <= notre < 128
            &&& role == 3 ==> 128 <= notre < 192
            &&& role == 4 ==> 192 <= notre < 256
            &&& role == 5 ==> 256 <= notre < 320
            &&& role == 6 ==> 320 <= notre < 384
            &&& leur == notre + 384
            &&& blanc ==> notre % 64 == case
            &&& !blanc ==> (notre % 64) / 8 + case / 8 == 7 && (notre % 64) % 8 == case % 8
        }),
{
}

/// A square seen from Black, then seen from Black again, is the square; its
/// rank is mirrored and its file kept.
pub proof fn loi_retournement(case: int)
    requires
        0 <= case < 64,
    ensures
        0 <= case_vue(case, false) < 64,
        case_vue(case_vue(case, false), false) == case,
        case_vue(case, true) == case,
        case_vue(case, false) % 8 == case % 8,
        case_vue(case, false) / 8 + case / 8 == 7,
{
}

/// Castling rights are ours first, then theirs, the short side before the long
/// one; the last flag is the capture en passant. Turning the point of view
/// exchanges the two pairs and keeps the last.
pub proof fn loi_drapeaux(p: echiquier::VuePosition)
    ensures
        drapeau(p, true, 0) == p.2.0,
        drapeau(p, true, 1) == p.2.1,
        drapeau(p, true, 2) == p.2.2,
        drapeau(p, true, 3) == p.2.3,
        forall|b: bool| #[trigger] drapeau(p, b, 4) == p.3,
        drapeau(p, false, 0) == drapeau(p, true, 2),
        drapeau(p, false, 1) == drapeau(p, true, 3),
        drapeau(p, false, 2) == drapeau(p, true, 0),
        drapeau(p, false, 3) == drapeau(p, true, 1),
{
}

/// A piece feature is active exactly when the piece of that kind and colour
/// stands on that square; nothing outside the 773 features is active.
pub proof fn loi_piece_encodee(p: echiquier::VuePosition, case: u8, role: u8, blanc: bool)
    requires
        echiquier::cases_rangees(p.0),
        case < 64,
        1 <= role <= 6,
    ensures
        forall|b: bool|
            #![trigger indice_piece((case, role, b), blanc)]
            active(p, blanc, indice_piece((case, role, b), blanc)) == p.0.contains((case, role, b)),
        forall|i: int| active(p, blanc, i) ==> 0 <= i < 773,
        forall|k: int|
            #![trigger drapeau(p, blanc, k)]
            0 <= k < 5 ==> active(p, blanc, 768 + k) == drapeau(p, blanc, k),
{
    assert forall|b: bool|
        #![trigger indice_piece((case, role, b), blanc)]
        active(p, blanc, indice_piece((case, role, b), blanc)) == p.0.contains((case, role, b)) by {
        let x = (case, role, b);
        let i = indice_piece(x, blanc);
        loi_plans_des_pieces(case, role, blanc);
        assert(0 <= i < 768);
        if p.0.contains(x) {
            let k = p.0.index_of(x);
            assert(indice_piece(p.0[k], blanc) == i);
        }
        if active(p, blanc, i) {
            let k = choose|k: int| 0 <= k < p.0.len() && indice_piece(#[trigger] p.0[k], blanc) == i;
            assert(p.0[k].0 < 64 && 1 <= p.0[k].1 <= 6);
            if p.0[k] != x {
                loi_place_unique(p.0[k], x, blanc);
            }
        }
    }
}

} // verus!
