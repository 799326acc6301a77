//! The test bench: what the moves of the network lose, position by position,
//! in the eyes of a stronger engine.
use crate::arbitre;
use crate::arbitre::{Classement, ScoreUci};
use vstd::prelude::*;

verus! {

/// A position whose value exceeds this, in centipawns, is already decided.
pub const SEUIL_TRANCHE: i32 = 800;

/// No move loses more than this, in centipawns.
pub const PERTE_MAX: i32 = 600;

/// Does a position, by its value before the move, tell anything of the
/// quality of a move? One that is already decided does not.
pub fn position_parlante(avant: i32) -> (r: bool)
    ensures
        r == (-SEUIL_TRANCHE <= avant <= SEUIL_TRANCHE),
{
    -SEUIL_TRANCHE <= avant && avant <= SEUIL_TRANCHE
}

/// What a move loses: the value before it, against the value after it, which
/// the engine gives for the opponent. A move that ends the game loses nothing.
pub open spec fn perte_de(avant: int, apres: Option<ScoreUci>) -> int {
    match apres {
        None => 0,
        Some(s) => arbitre::borne(avant + arbitre::cp_attendu(s), 0, 600),
    }
}

/// What a move loses, in centipawns.
pub fn perte(avant: i32, apres: Option<ScoreUci>) -> (r: i32)
    requires
        -arbitre::MAT_CP <= avant <= arbitre::MAT_CP,
    ensures
        r == perte_de(avant as int, apres),
        0 <= r <= PERTE_MAX,
{
    match apres {
        None => 0,
        Some(s) => {
            let d: i32 = avant + arbitre::cp_du_score(s);
            if d < 0 {
                0
            } else if d > PERTE_MAX {
                PERTE_MAX
            } else {
                d
            }
        },
    }
}

/// A move that leaves the position as good as it was loses nothing, whoever
/// announces it.
pub proof fn loi_coup_neutre(cp: i32)
    requires
        -32_000 <= cp <= 32_000,
    ensures
        perte_de(cp as int, Some(ScoreUci::Cp((-cp) as i32))) == 0,
{
}

/// Entries below `x` among the first `n`.
pub open spec fn sous(v: Seq<i32>, x: int, n: int) -> int
    decreases n,
{
    if n <= 0 {
        0
    } else {
        sous(v, x, n - 1) + if v[n - 1] < x {
            1int
        } else {
            0
        }
    }
}

/// `m` is the entry that stands in the middle once they are in order: no more
/// than half lie below it, and more than half are no greater.
pub open spec fn au_milieu(v: Seq<i32>, m: i32) -> bool {
    &&& v.contains(m)
    &&& sous(v, m as int, v.len() as int) <= v.len() as int / 2
    &&& sous(v, m + 1, v.len() as int) > v.len() as int / 2
}

fn compte_sous(v: &Vec<i32>, x: i64) -> (r: usize)
    ensures
        r == sous(v@, x as int, v@.len() as int),
{
    let n: usize = v.len();
    let mut i: usize = 0;
    let mut c: usize = 0;
    while i < n
        invariant
            n == v@.len(),
            i <= n,
            c <= i,
            c == sous(v@, x as int, i as int),
        decreases n - i,
    {
        if (v[i] as i64) < x {
            c += 1;
        }
        i += 1;
    }
    c
}

proof fn lemme_sous_croit(v: Seq<i32>, x: int, y: int, n: int)
    requires
        x <= y,
        0 <= n <= v.len(),
    ensures
        0 <= sous(v, x, n) <= sous(v, y, n) <= n,
    decreases n,
{
    if n > 0 {
        lemme_sous_croit(v, x, y, n - 1);
    }
}

/// An entry lies between two bounds that are counted differently.
proof fn lemme_saut(v: Seq<i32>, x: int, n: int)
    requires
        0 <= n <= v.len(),
        sous(v, x, n) < sous(v, x + 1, n),
    ensures
        exists|i: int| 0 <= i < n && #[trigger] v[i] == x,
    decreases n,
{
    if v[n - 1] != x {
        lemme_saut(v, x, n - 1);
    }
}

/// The entry that stands in the middle, if there is one at all.
proof fn lemme_milieu_existe(v: Seq<i32>, bas: int, haut: int)
    requires
        v.len() > 0,
        bas <= haut,
        sous(v, bas, v.len() as int) <= v.len() as int / 2,
        sous(v, haut, v.len() as int) > v.len() as int / 2,
    ensures
        exists|i: int| 0 <= i < v.len() && au_milieu(v, #[trigger] v[i]),
    decreases haut - bas,
{
    let n = v.len() as int;
    if bas == haut {
    } else if sous(v, bas + 1, n) > n / 2 {
        lemme_saut(v, bas, n);
        let i = choose|i: int| 0 <= i < n && #[trigger] v[i] == bas;
        assert(au_milieu(v, v[i]));
    } else {
        lemme_milieu_existe(v, bas + 1, haut);
    }
}

proof fn lemme_bornes(v: Seq<i32>, n: int)
    requires
        0 <= n <= v.len(),
    ensures
        sous(v, i32::MIN as int, n) == 0,
        sous(v, i32::MAX + 1, n) == n,
    decreases n,
{
    if n > 0 {
        lemme_bornes(v, n - 1);
    }
}

/// The loss that stands in the middle once they are in order, nought for none.
pub fn mediane(v: &Vec<i32>) -> (r: i32)
    ensures
        v@.len() == 0 ==> r == 0,
        v@.len() > 0 ==> au_milieu(v@, r),
{
    let n: usize = v.len();
    let mut i: usize = 0;
    while i < n
        invariant
            n == v@.len(),
            i <= n,
            forall|j: int| 0 <= j < i ==> !au_milieu(v@, #[trigger] v@[j]),
        decreases n - i,
    {
        let x: i32 = v[i];
        if compte_sous(v, x as i64) <= n / 2 && compte_sous(v, x as i64 + 1) > n / 2 {
            return x;
        }
        i += 1;
    }
    proof {
        if n > 0 {
            lemme_bornes(v@, n as int);
            lemme_milieu_existe(v@, i32::MIN as int, i32::MAX + 1);
        }
    }
    0
}

/// The middle is one value only.
pub proof fn loi_milieu_unique(v: Seq<i32>, a: i32, b: i32)
    requires
        au_milieu(v, a),
        au_milieu(v, b),
    ensures
        a == b,
{
    let n = v.len() as int;
    if a < b {
        lemme_sous_croit(v, a + 1, b as int, n);
    } else if b < a {
        lemme_sous_croit(v, b + 1, a as int, n);
    }
}

/// Moves of a class among the first `n`, by what they lose.
pub open spec fn compte_de(v: Seq<i32>, c: Classement, n: int) -> int
    decreases n,
{
    if n <= 0 {
        0
    } else {
        compte_de(v, c, n - 1) + if arbitre::classement_attendu(v[n - 1] as int, false) == c {
            1int
        } else {
            0
        }
    }
}

/// How many moves are of a class.
pub fn compte(v: &Vec<i32>, c: Classement) -> (r: usize)
    ensures
        r == compte_de(v@, c, v@.len() as int),
{
    let n: usize = v.len();
    let mut i: usize = 0;
    let mut k: usize = 0;
    while i < n
        invariant
            n == v@.len(),
            i <= n,
            k <= i,
            k == compte_de(v@, c, i as int),
        decreases n - i,
    {
        if arbitre::classement(v[i], false) == c {
            k += 1;
        }
        i += 1;
    }
    k
}

/// Every move is of one class: the counts add up to all of them, and none is
/// the engine's own.
pub proof fn loi_comptes_complets(v: Seq<i32>, n: int)
    requires
        0 <= n <= v.len(),
    ensures
        compte_de(v, Classement::Meilleur, n) == 0,
        compte_de(v, Classement::Excellent, n) + compte_de(v, Classement::Bon, n) + compte_de(
            v,
            Classement::Imprecision,
            n,
        ) + compte_de(v, Classement::Erreur, n) + compte_de(v, Classement::Gaffe, n) == n,
    decreases n,
{
    if n > 0 {
        loi_comptes_complets(v, n - 1);
    }
}

/// What a move loses is what the two sides' evaluations add up to, cut to six
/// hundred and never negative; without a score after it, nothing.
pub proof fn loi_perte_mesuree(avant: int, x: i32)
    requires
        -32_000 <= x <= 32_000,
    ensures
        0 <= avant + x <= 600 ==> perte_de(avant, Some(ScoreUci::Cp(x))) == avant + x,
        avant + x < 0 ==> perte_de(avant, Some(ScoreUci::Cp(x))) == 0,
        avant + x > 600 ==> perte_de(avant, Some(ScoreUci::Cp(x))) == 600,
        perte_de(avant, None) == 0,
{
}

/// A loss is counted in the class that its size gives: under 20, 50, 150 and
/// 300 hundredths of a pawn, or more.
pub proof fn loi_pertes_classees(v: Seq<i32>, n: int)
    requires
        0 <= n < v.len(),
    ensures
        compte_de(v, Classement::Excellent, n + 1) - compte_de(v, Classement::Excellent, n) == if v[n]
            < 20 {
            1int
        } else {
            0int
        },
        compte_de(v, Classement::Bon, n + 1) - compte_de(v, Classement::Bon, n) == if 20 <= v[n] < 50 {
            1int
        } else {
            0int
        },
        compte_de(v, Classement::Imprecision, n + 1) - compte_de(v, Classement::Imprecision, n) == if 50
            <= v[n] < 150 {
            1int
        } else {
            0int
        },
        compte_de(v, Classement::Erreur, n + 1) - compte_de(v, Classement::Erreur, n) == if 150 <= v[n]
            < 300 {
            1int
        } else {
            0int
        },
        compte_de(v, Classement::Gaffe, n + 1) - compte_de(v, Classement::Gaffe, n) == if v[n] >= 300 {
            1int
        } else {
            0int
        },
        compte_de(v, Classement::Gaffe, 0) == 0,
{
}

/// The middle value of a list: no more than half of the list is below it, and
/// more than half is at most it; for a list of one, it is that one.
pub proof fn loi_milieu(v: Seq<i32>, m: i32)
    requires
        au_milieu(v, m),
    ensures
        2 * sous(v, m as int, v.len() as int) <= v.len(),
        2 * sous(v, m + 1, v.len() as int) > v.len() - 1,
        v.len() == 1 ==> m == v[0],
        v.contains(m),
{
}

/// Counting what is below a value, one more at a time.
pub proof fn loi_compte_sous(v: Seq<i32>, x: int, n: int)
    requires
        0 <= n < v.len(),
    ensures
        sous(v, x, n + 1) == sous(v, x, n) + if v[n] < x {
            1int
        } else {
            0int
        },
        sous(v, x, 0) == 0,
{
}

/// A position is worth grading while it is not decided: up to eight hundred
/// hundredths of a pawn either way.
pub proof fn loi_position_parlante(avant: i32, r: bool)
    requires
        call_ensures(position_parlante, (avant,), r),
    ensures
        r <==> -800 <= avant <= 800,
{
}

} // verus!
