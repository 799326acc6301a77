//! Starting positions: the book, generated endgames, generated late
//! middlegames, and the usual one.
use crate::bots;
use crate::echiquier;
use crate::livre;
use crate::reels;
use crate::texte;
use rand::rngs::StdRng;
use rand::Rng as _;
use vstd::prelude::*;

verus! {

// ---------------------------------------------------------------------------
// Chance
// ---------------------------------------------------------------------------

/// A number between two bounds, both within reach, by `Rng::gen_range` of
/// rand. Claimed: the number lies between the bounds; which one is left to
/// chance.
#[verifier::external_body]
fn tire_entre(min: u32, max: u32, rng: &mut StdRng) -> (r: u32)
    requires
        min <= max,
    ensures
        min <= r <= max,
{
    rng.gen_range(min..=max)
}

/// A place in a list of `n`, by `Rng::gen_range` of rand. Claimed: the place
/// is in the list; which one is left to chance.
#[verifier::external_body]
pub(crate) fn tire_place(n: usize, rng: &mut StdRng) -> (r: usize)
    requires
        0 < n,
    ensures
        r < n,
{
    rng.gen_range(0..n)
}

/// Heads or tails, by `Rng::gen` of rand on a boolean. Nothing is claimed of
/// the side that comes up.
#[verifier::external_body]
fn pile_ou_face(rng: &mut StdRng) -> (r: bool) {
    rng.gen::<bool>()
}

// ---------------------------------------------------------------------------
// Material
// ---------------------------------------------------------------------------

/// Material of the endgames, kings left out: queens, rooks, bishops, knights
/// and pawns of White, then of Black.
pub const GABARITS: [[u8; 10]; 17] = [
    [0, 0, 0, 0, 1, 0, 0, 0, 0, 0],
    [0, 0, 0, 0, 2, 0, 0, 0, 0, 0],
    [0, 0, 0, 0, 2, 0, 0, 0, 0, 1],
    [0, 0, 0, 0, 3, 0, 0, 0, 0, 2],
    [0, 1, 0, 0, 0, 0, 1, 0, 0, 0],
    [0, 1, 0, 0, 1, 0, 1, 0, 0, 0],
    [0, 1, 0, 0, 2, 0, 1, 0, 0, 1],
    [1, 0, 0, 0, 0, 1, 0, 0, 0, 0],
    [1, 0, 0, 0, 1, 1, 0, 0, 0, 0],
    [0, 0, 1, 0, 1, 0, 0, 1, 0, 0],
    [0, 0, 0, 1, 1, 0, 0, 0, 1, 0],
    [0, 0, 1, 0, 1, 0, 0, 0, 1, 0],
    [0, 1, 0, 0, 0, 0, 0, 0, 0, 1],
    [1, 0, 0, 0, 0, 0, 1, 0, 0, 0],
    [1, 0, 0, 0, 0, 0, 0, 0, 0, 0],
    [0, 1, 0, 0, 0, 0, 0, 0, 0, 0],
    [0, 0, 1, 1, 0, 0, 0, 0, 0, 0],
];

/// Material of the late middlegames, in the same order.
pub const GABARITS_TRANSITION: [[u8; 10]; 26] = [
    [0, 1, 0, 1, 2, 0, 1, 0, 1, 2],
    [0, 1, 1, 0, 2, 0, 1, 0, 1, 2],
    [1, 0, 0, 0, 3, 1, 0, 0, 0, 3],
    [1, 0, 0, 1, 2, 1, 0, 1, 0, 2],
    [0, 2, 0, 0, 2, 0, 2, 0, 0, 3],
    [0, 1, 0, 1, 3, 0, 1, 0, 1, 2],
    [1, 1, 0, 0, 3, 1, 1, 0, 0, 2],
    [0, 1, 0, 1, 3, 0, 1, 0, 1, 3],
    [0, 1, 1, 0, 3, 0, 1, 0, 1, 3],
    [0, 2, 0, 0, 3, 0, 2, 0, 0, 3],
    [1, 1, 0, 0, 3, 1, 1, 0, 0, 3],
    [0, 1, 1, 1, 2, 0, 1, 1, 1, 2],
    [0, 2, 0, 1, 2, 0, 2, 1, 0, 2],
    [1, 0, 1, 0, 3, 1, 0, 0, 1, 3],
    [1, 1, 1, 0, 2, 1, 1, 0, 1, 2],
    [0, 1, 0, 1, 4, 0, 1, 1, 0, 3],
    [0, 0, 1, 1, 4, 0, 0, 1, 1, 4],
    [0, 1, 1, 0, 4, 0, 1, 0, 1, 4],
    [0, 1, 0, 2, 3, 0, 1, 2, 0, 3],
    [1, 0, 1, 1, 3, 1, 0, 1, 1, 3],
    [0, 2, 1, 1, 2, 0, 2, 1, 1, 2],
    [1, 1, 1, 1, 2, 1, 1, 1, 1, 2],
    [1, 1, 1, 0, 3, 1, 1, 0, 1, 4],
    [0, 1, 1, 1, 3, 0, 1, 1, 1, 4],
    [0, 1, 1, 1, 4, 0, 1, 1, 1, 4],
    [1, 1, 1, 1, 3, 1, 1, 1, 1, 3],
];

/// Number of templates of a family.
pub open spec fn n_gabarits(transition: bool) -> int {
    if transition {
        26
    } else {
        17
    }
}

/// The template of that number.
pub open spec fn gabarit_de(transition: bool, k: int) -> Seq<u8> {
    if transition {
        GABARITS_TRANSITION@[k]@
    } else {
        GABARITS@[k]@
    }
}

/// The same piece several times.
pub open spec fn repete(code: u8, n: nat) -> Seq<u8> {
    Seq::new(n, |i: int| code)
}

/// Pieces of one side, king left out, strongest first. A white piece is its
/// role (pawn 1, knight 2, bishop 3, rook 4, queen 5, king 6); a black one is
/// its role and six.
pub open spec fn camp_de(g: Seq<u8>, noir: bool) -> Seq<u8> {
    if noir {
        repete(11, g[5] as nat) + repete(10, g[6] as nat) + repete(9, g[7] as nat) + repete(
            8,
            g[8] as nat,
        ) + repete(7, g[9] as nat)
    } else {
        repete(5, g[0] as nat) + repete(4, g[1] as nat) + repete(3, g[2] as nat) + repete(
            2,
            g[3] as nat,
        ) + repete(1, g[4] as nat)
    }
}

fn ajoute_pieces(v: &mut Vec<u8>, code: u8, n: u8)
    ensures
        final(v)@ == old(v)@ + repete(code, n as nat),
{
    let ghost avant = v@;
    let mut i: u8 = 0;
    assert(v@ =~= avant + repete(code, 0));
    while i < n
        invariant
            i <= n,
            v@ == avant + repete(code, i as nat),
        decreases n - i,
    {
        v.push(code);
        i += 1;
        assert(v@ =~= avant + repete(code, i as nat));
    }
}

fn gabarit(transition: bool, k: usize) -> (r: Vec<u8>)
    requires
        k < n_gabarits(transition),
    ensures
        r@ == gabarit_de(transition, k as int),
        r@.len() == 10,
{
    let mut r: Vec<u8> = Vec::new();
    let g: [u8; 10] = if transition {
        GABARITS_TRANSITION[k]
    } else {
        GABARITS[k]
    };
    let mut i: usize = 0;
    while i < 10
        invariant
            i <= 10,
            r@ == g@.take(i as int),
        decreases 10 - i,
    {
        r.push(g[i]);
        assert(g@.take(i as int + 1) =~= g@.take(i as int).push(g@[i as int]));
        i += 1;
    }
    assert(g@.take(10) =~= g@);
    r
}

fn camp(g: &Vec<u8>, noir: bool) -> (r: Vec<u8>)
    requires
        g@.len() == 10,
    ensures
        r@ == camp_de(g@, noir),
{
    let mut r: Vec<u8> = Vec::new();
    if noir {
        ajoute_pieces(&mut r, 11, g[5]);
        ajoute_pieces(&mut r, 10, g[6]);
        ajoute_pieces(&mut r, 9, g[7]);
        ajoute_pieces(&mut r, 8, g[8]);
        ajoute_pieces(&mut r, 7, g[9]);
    } else {
        ajoute_pieces(&mut r, 5, g[0]);
        ajoute_pieces(&mut r, 4, g[1]);
        ajoute_pieces(&mut r, 3, g[2]);
        ajoute_pieces(&mut r, 2, g[3]);
        ajoute_pieces(&mut r, 1, g[4]);
    }
    assert(r@ =~= camp_de(g@, noir));
    r
}

// ---------------------------------------------------------------------------
// Writing
// ---------------------------------------------------------------------------

/// Letter of a piece: a capital for White.
pub open spec fn lettre(code: u8) -> char {
    if code == 1 {
        'P'
    } else if code == 2 {
        'N'
    } else if code == 3 {
        'B'
    } else if code == 4 {
        'R'
    } else if code == 5 {
        'Q'
    } else if code == 6 {
        'K'
    } else if code == 7 {
        'p'
    } else if code == 8 {
        'n'
    } else if code == 9 {
        'b'
    } else if code == 10 {
        'r'
    } else if code == 11 {
        'q'
    } else {
        'k'
    }
}

fn ecrit_lettre(code: u8) -> (r: char)
    ensures
        r == lettre(code),
{
    if code == 1 {
        'P'
    } else if code == 2 {
        'N'
    } else if code == 3 {
        'B'
    } else if code == 4 {
        'R'
    } else if code == 5 {
        'Q'
    } else if code == 6 {
        'K'
    } else if code == 7 {
        'p'
    } else if code == 8 {
        'n'
    } else if code == 9 {
        'b'
    } else if code == 10 {
        'r'
    } else if code == 11 {
        'q'
    } else {
        'k'
    }
}

/// Name of a template: the family, then the pieces of both sides by their
/// capitals, each side with its king, such as `finale:KRPvKR`.
pub open spec fn etiquette_de(transition: bool, k: int) -> Seq<char> {
    let g = gabarit_de(transition, k);
    (if transition {
        "transition:K"@
    } else {
        "finale:K"@
    }) + camp_de(g, false).map_values(|c: u8| lettre(c)) + "vK"@ + camp_de(g, true).map_values(
        |c: u8| lettre((c - 6) as u8),
    )
}

fn etiquette(transition: bool, k: usize) -> (r: String)
    requires
        k < n_gabarits(transition),
    ensures
        r@ == etiquette_de(transition, k as int),
{
    let g: Vec<u8> = gabarit(transition, k);
    let blancs: Vec<u8> = camp(&g, false);
    let noirs: Vec<u8> = camp(&g, true);
    let debut: &str = if transition {
        "transition:K"
    } else {
        "finale:K"
    };
    let mut t: Vec<char> = texte::caracteres(debut);
    let ghost t0 = t@;
    let ghost lb = blancs@.map_values(|c: u8| lettre(c));
    let ghost ln = noirs@.map_values(|c: u8| lettre((c - 6) as u8));
    let mut i: usize = 0;
    assert(t@ =~= t0 + lb.take(0));
    while i < blancs.len()
        invariant
            i <= blancs.len(),
            lb == blancs@.map_values(|c: u8| lettre(c)),
            t@ == t0 + lb.take(i as int),
        decreases blancs.len() - i,
    {
        t.push(ecrit_lettre(blancs[i]));
        i += 1;
        assert(t@ =~= t0 + lb.take(i as int));
    }
    assert(lb.take(lb.len() as int) =~= lb);
    texte::ajoute_texte(&mut t, "vK");
    let ghost t1 = t@;
    let mut j: usize = 0;
    assert(t@ =~= t1 + ln.take(0));
    proof {
        lemme_noirs(g@);
    }
    while j < noirs.len()
        invariant
            j <= noirs.len(),
            ln == noirs@.map_values(|c: u8| lettre((c - 6) as u8)),
            forall|i: int| 0 <= i < noirs@.len() ==> 7 <= (#[trigger] noirs@[i]) <= 11,
            t@ == t1 + ln.take(j as int),
        decreases noirs.len() - j,
    {
        t.push(ecrit_lettre(noirs[j] - 6));
        j += 1;
        assert(t@ =~= t1 + ln.take(j as int));
    }
    assert(ln.take(ln.len() as int) =~= ln);
    texte::texte(&t)
}

proof fn lemme_noirs(g: Seq<u8>)
    ensures
        forall|i: int| 0 <= i < camp_de(g, true).len() ==> 7 <= (#[trigger] camp_de(g, true)[i]) <= 11,
        forall|i: int| 0 <= i < camp_de(g, false).len() ==> 1 <= (#[trigger] camp_de(g, false)[i])
            <= 5,
{
}

/// One rank of a board, from a file on, when the squares just before it are
/// empty and not written yet.
pub open spec fn rangee_de(p: Seq<u8>, r: int, f: int, vides: int) -> Seq<char>
    decreases 8 - f,
{
    if f >= 8 {
        vides_de(vides)
    } else if p[8 * r + f] == 0 {
        rangee_de(p, r, f + 1, vides + 1)
    } else {
        vides_de(vides).push(lettre(p[8 * r + f])) + rangee_de(p, r, f + 1, 0)
    }
}

/// A run of empty squares.
pub open spec fn vides_de(n: int) -> Seq<char> {
    if n == 0 {
        Seq::empty()
    } else {
        seq![texte::chiffre(n)]
    }
}

/// The ranks of a board from one down to the first.
pub open spec fn rangees_de(p: Seq<u8>, r: int) -> Seq<char>
    decreases r,
{
    if r <= 0 {
        rangee_de(p, 0, 0, 0)
    } else {
        rangee_de(p, r, 0, 0).push('/') + rangees_de(p, r - 1)
    }
}

/// FEN text of a board (a1 is square 0, h8 square 63; 0 is an empty square)
/// with nothing to castle or to take en passant, at its first move.
pub open spec fn fen_de(p: Seq<u8>, trait_blanc: bool) -> Seq<char> {
    rangees_de(p, 7) + (if trait_blanc {
        " w - - 0 1"@
    } else {
        " b - - 0 1"@
    })
}

fn ecrit_vides(t: &mut Vec<char>, n: u8)
    requires
        n <= 8,
    ensures
        final(t)@ == old(t)@ + vides_de(n as int),
{
    let ghost avant = t@;
    if n > 0 {
        let d: Vec<char> = texte::ecrit_naturel(n as u64);
        texte::ajoute(t, &d);
        assert(texte::decimal(n as nat) =~= seq![texte::chiffre(n as int)]);
    }
    assert(t@ =~= avant + vides_de(n as int));
}

fn ecrit_rangee(t: &mut Vec<char>, p: &Vec<u8>, r: usize)
    requires
        p@.len() == 64,
        r < 8,
    ensures
        final(t)@ == old(t)@ + rangee_de(p@, r as int, 0, 0),
{
    let ghost but = t@ + rangee_de(p@, r as int, 0, 0);
    let mut f: usize = 0;
    let mut vides: u8 = 0;
    while f < 8
        invariant
            p@.len() == 64,
            r < 8,
            f <= 8,
            vides <= f,
            t@ + rangee_de(p@, r as int, f as int, vides as int) == but,
        decreases 8 - f,
    {
        let c: u8 = p[8 * r + f];
        if c == 0 {
            vides += 1;
        } else {
            let ghost avant = t@;
            ecrit_vides(t, vides);
            t.push(ecrit_lettre(c));
            assert(t@ + rangee_de(p@, r as int, f + 1, 0) =~= avant + (vides_de(vides as int).push(
                lettre(c),
            ) + rangee_de(p@, r as int, f + 1, 0)));
            vides = 0;
        }
        f += 1;
    }
    ecrit_vides(t, vides);
    assert(t@ =~= but);
}

fn ecrit_fen(p: &Vec<u8>, trait_blanc: bool) -> (r: String)
    requires
        p@.len() == 64,
    ensures
        r@ == fen_de(p@, trait_blanc),
{
    let mut t: Vec<char> = Vec::new();
    let mut r: usize = 7;
    assert(t@ + rangees_de(p@, 7) =~= rangees_de(p@, 7));
    while r > 0
        invariant
            p@.len() == 64,
            r <= 7,
            t@ + rangees_de(p@, r as int) == rangees_de(p@, 7),
        decreases r,
    {
        let ghost avant = t@;
        ecrit_rangee(&mut t, p, r);
        t.push('/');
        assert(t@ + rangees_de(p@, r - 1) =~= avant + (rangee_de(p@, r as int, 0, 0).push('/')
            + rangees_de(p@, r - 1)));
        r -= 1;
    }
    ecrit_rangee(&mut t, p, 0);
    if trait_blanc {
        texte::ajoute_texte(&mut t, " w - - 0 1");
    } else {
        texte::ajoute_texte(&mut t, " b - - 0 1");
    }
    texte::texte(&t)
}

// ---------------------------------------------------------------------------
// Counting
// ---------------------------------------------------------------------------

/// What the squares of a board, or the pieces of a list, amount to when each
/// counts for what `f` says.
pub open spec fn somme(s: Seq<u8>, f: spec_fn(u8) -> int) -> int
    decreases s.len(),
{
    if s.len() == 0 {
        0
    } else {
        somme(s.drop_last(), f) + f(s.last())
    }
}

/// Two collections hold the same pieces: they amount to the same, whatever
/// each piece counts for, as long as an empty square counts for nothing.
pub open spec fn meme_materiel(a: Seq<u8>, b: Seq<u8>) -> bool {
    forall|f: spec_fn(u8) -> int| f(0) == 0 ==> #[trigger] somme(a, f) == somme(b, f)
}

proof fn lemme_somme_ajout(a: Seq<u8>, b: Seq<u8>, f: spec_fn(u8) -> int)
    ensures
        somme(a + b, f) == somme(a, f) + somme(b, f),
    decreases b.len(),
{
    if b.len() == 0 {
        assert(a + b =~= a);
    } else {
        assert((a + b).drop_last() =~= a + b.drop_last());
        lemme_somme_ajout(a, b.drop_last(), f);
    }
}

proof fn lemme_somme_pose(s: Seq<u8>, i: int, x: u8, f: spec_fn(u8) -> int)
    requires
        0 <= i < s.len(),
    ensures
        somme(s.update(i, x), f) == somme(s, f) - f(s[i]) + f(x),
    decreases s.len(),
{
    if i < s.len() - 1 {
        assert(s.update(i, x).drop_last() =~= s.drop_last().update(i, x));
        lemme_somme_pose(s.drop_last(), i, x, f);
    } else {
        assert(s.update(i, x).drop_last() =~= s.drop_last());
    }
}

proof fn lemme_somme_repete(code: u8, n: nat, f: spec_fn(u8) -> int)
    ensures
        somme(repete(code, n), f) == n * f(code),
    decreases n,
{
    if n > 0 {
        assert(repete(code, n).drop_last() =~= repete(code, (n - 1) as nat));
        lemme_somme_repete(code, (n - 1) as nat, f);
        assert((n - 1) * f(code) + f(code) == n * f(code)) by (nonlinear_arith);
    } else {
        assert(0 * f(code) == 0);
    }
}

proof fn lemme_somme_vide(n: nat, f: spec_fn(u8) -> int)
    requires
        f(0) == 0,
    ensures
        somme(repete(0, n), f) == 0,
{
    lemme_somme_repete(0, n, f);
    assert(n * f(0) == 0) by (nonlinear_arith)
        requires
            f(0) == 0,
    ;
}

proof fn lemme_somme_camp(g: Seq<u8>, noir: bool, f: spec_fn(u8) -> int)
    ensures
        !noir ==> somme(camp_de(g, noir), f) == g[0] * f(5) + g[1] * f(4) + g[2] * f(3) + g[3] * f(
            2,
        ) + g[4] * f(1),
        noir ==> somme(camp_de(g, noir), f) == g[5] * f(11) + g[6] * f(10) + g[7] * f(9) + g[8] * f(
            8,
        ) + g[9] * f(7),
{
    let d: int = if noir {
        5
    } else {
        0
    };
    let c: int = if noir {
        6
    } else {
        0
    };
    let q = repete((5 + c) as u8, g[d] as nat);
    let r = repete((4 + c) as u8, g[d + 1] as nat);
    let b = repete((3 + c) as u8, g[d + 2] as nat);
    let n = repete((2 + c) as u8, g[d + 3] as nat);
    let p = repete((1 + c) as u8, g[d + 4] as nat);
    lemme_somme_ajout(q, r, f);
    lemme_somme_ajout(q + r, b, f);
    lemme_somme_ajout(q + r + b, n, f);
    lemme_somme_ajout(q + r + b + n, p, f);
    lemme_somme_repete((5 + c) as u8, g[d] as nat, f);
    lemme_somme_repete((4 + c) as u8, g[d + 1] as nat, f);
    lemme_somme_repete((3 + c) as u8, g[d + 2] as nat, f);
    lemme_somme_repete((2 + c) as u8, g[d + 3] as nat, f);
    lemme_somme_repete((1 + c) as u8, g[d + 4] as nat, f);
}

/// All the pieces of a template, both kings with them.
pub open spec fn pieces_de(g: Seq<u8>) -> Seq<u8> {
    seq![6u8, 12u8] + camp_de(g, false) + camp_de(g, true)
}

proof fn lemme_somme_pieces(g: Seq<u8>, f: spec_fn(u8) -> int)
    ensures
        somme(pieces_de(g), f) == f(6) + f(12) + somme(camp_de(g, false), f) + somme(
            camp_de(g, true),
            f,
        ),
{
    let rois = seq![6u8, 12u8];
    lemme_somme_ajout(rois, camp_de(g, false), f);
    lemme_somme_ajout(rois + camp_de(g, false), camp_de(g, true), f);
    reveal_with_fuel(somme, 3);
    assert(rois.drop_last() =~= seq![6u8]);
    assert(seq![6u8].drop_last() =~= Seq::<u8>::empty());
}

// ---------------------------------------------------------------------------
// Placing
// ---------------------------------------------------------------------------

/// Ranks (the first is 0) on which a piece of a late middlegame may stand: a
/// king on its first two ranks, a pawn neither on its first rank nor on its
/// last two.
pub open spec fn bande_de_transition(role: u8, blanc: bool) -> (u32, u32) {
    if role == 6 {
        if blanc {
            (0, 1)
        } else {
            (6, 7)
        }
    } else if role == 1 {
        if blanc {
            (1, 5)
        } else {
            (2, 6)
        }
    } else {
        (0, 7)
    }
}

/// Ranks on which a piece of a late middlegame may stand, both bounds within
/// reach.
pub fn bande_transition(role: u8, blanc: bool) -> (r: (u32, u32))
    ensures
        r == bande_de_transition(role, blanc),
{
    if role == 6 {
        if blanc {
            (0, 1)
        } else {
            (6, 7)
        }
    } else if role == 1 {
        if blanc {
            (1, 5)
        } else {
            (2, 6)
        }
    } else {
        (0, 7)
    }
}

/// Ranks on which a piece may stand. In an endgame only the pawns are held,
/// off the first and the last rank.
pub open spec fn bande_de(transition: bool, code: u8) -> (u32, u32) {
    if transition {
        if code <= 6 {
            bande_de_transition(code, true)
        } else {
            bande_de_transition((code - 6) as u8, false)
        }
    } else if code == 1 || code == 7 {
        (1, 6)
    } else {
        (0, 7)
    }
}

/// Each piece of a board stands on a rank that is open to it.
pub open spec fn bien_place(p: Seq<u8>, transition: bool) -> bool {
    forall|i: int|
        0 <= i < p.len() && #[trigger] p[i] != 0 ==> 1 <= p[i] <= 12 && bande_de(
            transition,
            p[i],
        ).0 <= i / 8 <= bande_de(transition, p[i]).1
}

fn bande(transition: bool, code: u8) -> (r: (u32, u32))
    requires
        1 <= code <= 12,
    ensures
        r == bande_de(transition, code),
        r.0 <= r.1 <= 7,
{
    if transition {
        if code <= 6 {
            bande_transition(code, true)
        } else {
            bande_transition(code - 6, false)
        }
    } else if code == 1 || code == 7 {
        (1, 6)
    } else {
        (0, 7)
    }
}

/// How many squares are drawn before the free ones are looked for in order. A
/// board of these families leaves more than half of any band free.
const TIRAGES: u32 = 10_000;

/// Is the square free, and on the given ranks?
pub open spec fn est_libre(p: Seq<u8>, min: u32, max: u32, c: int) -> bool {
    0 <= c < p.len() && p[c] == 0 && min <= c / 8 <= max
}

/// Is no square free on the given ranks?
pub open spec fn pleine(p: Seq<u8>, min: u32, max: u32) -> bool {
    forall|c: int| !#[trigger] est_libre(p, min, max, c)
}

/// A free square on the given ranks, drawn until one is free. There is one to
/// be had unless every square of the ranks is taken.
fn case_libre(p: &Vec<u8>, min: u32, max: u32, rng: &mut StdRng) -> (r: Option<usize>)
    requires
        p@.len() == 64,
        min <= max <= 7,
    ensures
        match r {
            Some(c) => est_libre(p@, min, max, c as int),
            None => pleine(p@, min, max),
        },
{
    let mut k: u32 = 0;
    while k < TIRAGES
        invariant
            p@.len() == 64,
            min <= max <= 7,
            k <= TIRAGES,
        decreases TIRAGES - k,
    {
        let colonne: u32 = tire_entre(0, 7, rng);
        let rang: u32 = tire_entre(min, max, rng);
        let c: usize = 8 * rang as usize + colonne as usize;
        if p[c] == 0 {
            return Some(c);
        }
        k += 1;
    }
    let mut c: usize = 8 * min as usize;
    let fin: usize = 8 * max as usize + 8;
    while c < fin
        invariant
            p@.len() == 64,
            min <= max <= 7,
            8 * min <= c <= fin,
            fin == 8 * max + 8,
            forall|x: int| 8 * min <= x < c ==> #[trigger] p@[x] != 0,
        decreases fin - c,
    {
        if p[c] == 0 {
            return Some(c);
        }
        c += 1;
    }
    None
}

/// A board after the pieces of a list were put on free squares.
pub open spec fn garni(avant: Seq<u8>, apres: Seq<u8>, codes: Seq<u8>) -> bool {
    &&& apres.len() == avant.len()
    &&& forall|i: int|
        0 <= i < apres.len() && #[trigger] apres[i] != avant[i] ==> avant[i] == 0 && codes.contains(
            apres[i],
        )
    &&& forall|f: spec_fn(u8) -> int|
        f(0) == 0 ==> #[trigger] somme(apres, f) == somme(avant, f) + somme(codes, f)
}

/// Squares of a board that are taken, or pieces of a list.
pub open spec fn occupees(p: Seq<u8>) -> int {
    somme(p, |c: u8| presence(c))
}

/// The first `k` pieces of a list were put on free squares, and there is none
/// for the next.
pub open spec fn bloque(
    avant: Seq<u8>,
    apres: Seq<u8>,
    codes: Seq<u8>,
    transition: bool,
    k: int,
) -> bool {
    &&& 0 <= k < codes.len()
    &&& garni(avant, apres, codes.take(k))
    &&& pleine(apres, bande_de(transition, codes[k]).0, bande_de(transition, codes[k]).1)
}

proof fn lemme_occupees_liste(s: Seq<u8>)
    requires
        forall|i: int| 0 <= i < s.len() ==> 1 <= #[trigger] s[i],
    ensures
        occupees(s) == s.len(),
    decreases s.len(),
{
    if s.len() > 0 {
        lemme_occupees_liste(s.drop_last());
    }
}

proof fn lemme_occupees_plage(s: Seq<u8>, a: int, b: int)
    requires
        0 <= a <= b,
        forall|i: int| a <= i < b && i < s.len() ==> #[trigger] s[i] != 0,
    ensures
        occupees(s) >= 0,
        b <= s.len() ==> occupees(s) >= b - a,
        a <= s.len() < b ==> occupees(s) >= s.len() - a,
    decreases s.len(),
{
    if s.len() > 0 {
        let d = s.drop_last();
        assert(forall|i: int| a <= i < b && i < d.len() ==> d[i] == s[i]);
        lemme_occupees_plage(d, a, b);
    }
}

/// A piece finds a square wherever fifteen squares or fewer are taken: every
/// band has sixteen or more.
proof fn lemme_place_pour_tous(p: Seq<u8>, transition: bool, code: u8)
    requires
        p.len() == 64,
        1 <= code <= 12,
        occupees(p) <= 15,
    ensures
        !pleine(p, bande_de(transition, code).0, bande_de(transition, code).1),
{
    let (min, max) = bande_de(transition, code);
    if pleine(p, min, max) {
        assert forall|i: int| 8 * min <= i < 8 * max + 8 && i < p.len() implies #[trigger] p[i] != 0 by {
            assert(!est_libre(p, min, max, i));
        }
        lemme_occupees_plage(p, 8 * min, 8 * max + 8);
    }
}

/// Puts the pieces of a list on free squares, one after the other. False when
/// there was no free square for one of them, which cannot be on a board of
/// sixteen pieces or fewer.
fn pose_toutes(p: &mut Vec<u8>, codes: &Vec<u8>, transition: bool, rng: &mut StdRng) -> (r: bool)
    requires
        old(p)@.len() == 64,
        bien_place(old(p)@, transition),
        forall|i: int| 0 <= i < codes@.len() ==> 1 <= #[trigger] codes@[i] <= 12,
    ensures
        final(p)@.len() == 64,
        bien_place(final(p)@, transition),
        r ==> garni(old(p)@, final(p)@, codes@),
        !r ==> exists|k: int| bloque(old(p)@, final(p)@, codes@, transition, k),
        occupees(old(p)@) + codes@.len() <= 16 ==> r,
{
    let ghost avant = p@;
    let mut k: usize = 0;
    proof {
        assert(codes@.take(0) =~= Seq::empty());
        assert forall|f: spec_fn(u8) -> int| f(0) == 0 implies #[trigger] somme(p@, f) == somme(
            avant,
            f,
        ) + somme(codes@.take(0), f) by {}
    }
    while k < codes.len()
        invariant
            k <= codes.len(),
            p@.len() == 64,
            avant == old(p)@,
            avant.len() == 64,
            bien_place(p@, transition),
            forall|i: int| 0 <= i < codes@.len() ==> 1 <= #[trigger] codes@[i] <= 12,
            garni(avant, p@, codes@.take(k as int)),
        decreases codes.len() - k,
    {
        let code: u8 = codes[k];
        let (min, max) = bande(transition, code);
        match case_libre(p, min, max, rng) {
            None => {
                proof {
                    assert(bloque(avant, p@, codes@, transition, k as int));
                    let f = |c: u8| presence(c);
                    assert(somme(p@, f) == somme(avant, f) + somme(codes@.take(k as int), f));
                    lemme_occupees_liste(codes@.take(k as int));
                    if occupees(p@) <= 15 {
                        lemme_place_pour_tous(p@, transition, code);
                    }
                }
                return false;
            },
            Some(c) => {
                let ghost p0 = p@;
                let ghost faits = codes@.take(k as int);
                let ghost faits1 = codes@.take(k as int + 1);
                p.set(c, code);
                proof {
                    assert(faits1 =~= faits.push(code));
                    assert forall|i: int|
                        0 <= i < p@.len() && #[trigger] p@[i] != avant[i] implies avant[i] == 0
                        && faits1.contains(p@[i]) by {
                        if i == c {
                            assert(faits1[k as int] == code);
                            assert(p0[i] == 0);
                        } else {
                            assert(p@[i] == p0[i]);
                            let j = choose|j: int| 0 <= j < faits.len() && faits[j] == p0[i];
                            assert(faits1[j] == p0[i]);
                        }
                    }
                    assert forall|f: spec_fn(u8) -> int| f(0) == 0 implies #[trigger] somme(p@, f)
                        == somme(avant, f) + somme(faits1, f) by {
                        lemme_somme_pose(p0, c as int, code, f);
                        assert(faits1.drop_last() =~= faits);
                        assert(somme(p0, f) == somme(avant, f) + somme(faits, f));
                    }
                }
                k += 1;
            },
        }
    }
    assert(codes@.take(codes@.len() as int) =~= codes@);
    true
}

fn plateau_vide() -> (r: Vec<u8>)
    ensures
        r@ == repete(0, 64),
{
    let mut r: Vec<u8> = Vec::new();
    let mut i: usize = 0;
    while i < 64
        invariant
            i <= 64,
            r@ == repete(0, i as nat),
        decreases 64 - i,
    {
        r.push(0);
        i += 1;
        assert(r@ =~= repete(0, i as nat));
    }
    r
}

// ---------------------------------------------------------------------------
// Generated positions
// ---------------------------------------------------------------------------

/// A generated position: its template, its board, who is to move, its text.
pub struct Genere {
    pub gabarit: usize,
    pub plateau: Vec<u8>,
    pub trait_blanc: bool,
    pub fen: String,
}

/// Number of king's moves between two squares.
pub open spec fn distance_de(a: int, b: int) -> int {
    let r = a / 8 - b / 8;
    let c = a % 8 - b % 8;
    let r = if r < 0 {
        -r
    } else {
        r
    };
    let c = if c < 0 {
        -c
    } else {
        c
    };
    if r < c {
        c
    } else {
        r
    }
}

/// The kings do not touch.
pub open spec fn rois_ecartes(p: Seq<u8>) -> bool {
    forall|a: int, b: int|
        0 <= a < p.len() && 0 <= b < p.len() && #[trigger] p[a] == 6 && #[trigger] p[b] == 12
            ==> distance_de(a, b) >= 2
}

/// A position generated from a template: its material, each piece on a rank
/// that is open to it, the kings apart; the rules accept it and the game goes
/// on.
pub open spec fn genere_de(d: Genere, transition: bool) -> bool {
    &&& d.gabarit < n_gabarits(transition)
    &&& d.plateau@.len() == 64
    &&& meme_materiel(d.plateau@, pieces_de(gabarit_de(transition, d.gabarit as int)))
    &&& bien_place(d.plateau@, transition)
    &&& rois_ecartes(d.plateau@)
    &&& d.fen@ == fen_de(d.plateau@, d.trait_blanc)
    &&& echiquier::position_de(d.fen@) is Some
    &&& echiquier::coups_de(d.fen@) is Some
    &&& echiquier::coups_de(d.fen@).unwrap().len() > 0
}

fn distance(a: usize, b: usize) -> (r: usize)
    requires
        a < 64,
        b < 64,
    ensures
        r == distance_de(a as int, b as int),
{
    let r: usize = if a / 8 < b / 8 {
        b / 8 - a / 8
    } else {
        a / 8 - b / 8
    };
    let c: usize = if a % 8 < b % 8 {
        b % 8 - a % 8
    } else {
        a % 8 - b % 8
    };
    if r < c {
        c
    } else {
        r
    }
}

/// The position of a board, if the rules accept it and there is a move to
/// play.
pub fn acheve(gabarit: usize, plateau: Vec<u8>, trait_blanc: bool) -> (r: Option<Genere>)
    requires
        plateau@.len() == 64,
    ensures
        match r {
            Some(d) => {
                &&& d.gabarit == gabarit && d.plateau@ == plateau@ && d.trait_blanc == trait_blanc
                &&& d.fen@ == fen_de(plateau@, trait_blanc)
                &&& echiquier::position_de(d.fen@) is Some
                &&& echiquier::coups_de(d.fen@) is Some
                &&& echiquier::coups_de(d.fen@).unwrap().len() > 0
            },
            None => echiquier::coups_de(fen_de(plateau@, trait_blanc)) is None
                || echiquier::coups_de(fen_de(plateau@, trait_blanc)).unwrap().len() == 0,
        },
{
    let fen: String = ecrit_fen(&plateau, trait_blanc);
    match echiquier::coups_legaux(fen.as_str()) {
        Some(coups) => {
            assert(echiquier::vues_coups(coups@).len() == coups@.len());
            if coups.len() > 0 {
                Some(Genere { gabarit, plateau, trait_blanc, fen })
            } else {
                None
            }
        },
        None => None,
    }
}

/// A board that was drawn for a template: its material, each piece on a rank
/// that is open to it.
pub open spec fn candidat(transition: bool, k: int, p: Seq<u8>) -> bool {
    &&& p.len() == 64
    &&& meme_materiel(p, pieces_de(gabarit_de(transition, k)))
    &&& bien_place(p, transition)
}

/// Is a board kept: are the kings apart, do the rules accept it, is there a
/// move to play and, in a late middlegame, is nobody in check?
pub open spec fn retenue(transition: bool, p: Seq<u8>, trait_blanc: bool) -> bool {
    let fen = fen_de(p, trait_blanc);
    &&& rois_ecartes(p)
    &&& echiquier::coups_de(fen) is Some
    &&& echiquier::coups_de(fen).unwrap().len() > 0
    &&& transition ==> sans_echec(fen)
}

/// A board that an attempt can draw: the whole board of a template or, of an
/// endgame, the kings alone, which come first, on squares that touch.
pub open spec fn essaye(transition: bool, k: int, p: Seq<u8>) -> bool {
    ||| candidat(transition, k, p)
    ||| !transition && p.len() == 64 && meme_materiel(p, seq![6u8, 12u8]) && !rois_ecartes(p)
}

/// The side to move is not in check.
pub open spec fn sans_echec(fen: Seq<char>) -> bool {
    match echiquier::position_de(fen) {
        Some(p) => !p.7,
        None => false,
    }
}

/// Do the kings of a board stand apart?
fn sont_ecartes(p: &Vec<u8>) -> (r: bool)
    requires
        p@.len() == 64,
    ensures
        r == rois_ecartes(p@),
{
    let mut a: usize = 0;
    while a < 64
        invariant
            a <= 64,
            p@.len() == 64,
            forall|x: int, y: int|
                0 <= x < a && 0 <= y < 64 && #[trigger] p@[x] == 6 && #[trigger] p@[y] == 12
                    ==> distance_de(x, y) >= 2,
        decreases 64 - a,
    {
        if p[a] == 6 {
            let mut b: usize = 0;
            while b < 64
                invariant
                    a < 64,
                    b <= 64,
                    p@.len() == 64,
                    p@[a as int] == 6,
                    forall|y: int|
                        0 <= y < b && #[trigger] p@[y] == 12 ==> distance_de(a as int, y) >= 2,
                decreases 64 - b,
            {
                if p[b] == 12 && distance(a, b) < 2 {
                    return false;
                }
                b += 1;
            }
        }
        a += 1;
    }
    true
}

/// The position of a board that was drawn, if it is one to keep.
pub fn retient(transition: bool, gabarit: usize, plateau: Vec<u8>, trait_blanc: bool) -> (r: Option<
    Genere,
>)
    requires
        plateau@.len() == 64,
    ensures
        match r {
            Some(d) => {
                &&& tiree_de(d, gabarit, plateau@, trait_blanc)
                &&& retenue(transition, plateau@, trait_blanc)
            },
            None => !retenue(transition, plateau@, trait_blanc),
        },
{
    if !sont_ecartes(&plateau) {
        return None;
    }
    match acheve(gabarit, plateau, trait_blanc) {
        Some(d) => {
            if transition {
                match echiquier::lit_position(d.fen.as_str()) {
                    Some(p) => if p.echec {
                        None
                    } else {
                        Some(d)
                    },
                    None => None,
                }
            } else {
                Some(d)
            }
        },
        None => None,
    }
}

/// How many boards are tried before a template is given up.
pub const ESSAIS: u32 = 100_000;

/// What follows an attempt.
pub enum SuiteEssai {
    /// The position is kept.
    Garde(Genere),
    /// Another board is drawn.
    Encore,
    /// The template is given up.
    Abandon,
}

/// What follows an attempt whose board is turned down, after `deja` others.
pub open spec fn refus_apres(r: SuiteEssai, deja: u32) -> bool {
    match r {
        SuiteEssai::Garde(_) => false,
        SuiteEssai::Encore => deja + 1 < ESSAIS,
        SuiteEssai::Abandon => deja + 1 >= ESSAIS,
    }
}

/// The position of a board that was drawn, out of the template.
pub open spec fn tiree_de(d: Genere, gabarit: usize, p: Seq<u8>, trait_blanc: bool) -> bool {
    &&& d.gabarit == gabarit && d.plateau@ == p && d.trait_blanc == trait_blanc
    &&& d.fen@ == fen_de(p, trait_blanc)
    &&& echiquier::position_de(d.fen@) is Some
}

fn refuse(deja: u32) -> (r: SuiteEssai)
    ensures
        refus_apres(r, deja),
{
    if deja < ESSAIS - 1 {
        SuiteEssai::Encore
    } else {
        SuiteEssai::Abandon
    }
}

/// What follows the draw of a board, after `deja` others that were turned down:
/// a board to keep is kept, and the template is given up where `ESSAIS` boards
/// were turned down.
pub fn apres_essai(
    transition: bool,
    gabarit: usize,
    deja: u32,
    plateau: Vec<u8>,
    trait_blanc: bool,
) -> (r: SuiteEssai)
    requires
        plateau@.len() == 64,
    ensures
        if retenue(transition, plateau@, trait_blanc) {
            r matches SuiteEssai::Garde(d) && tiree_de(d, gabarit, plateau@, trait_blanc)
        } else {
            refus_apres(r, deja)
        },
{
    match retient(transition, gabarit, plateau, trait_blanc) {
        Some(d) => SuiteEssai::Garde(d),
        None => refuse(deja),
    }
}

proof fn lemme_effectif(transition: bool, k: int)
    requires
        0 <= k < n_gabarits(transition),
    ensures
        camp_de(gabarit_de(transition, k), false).len() + camp_de(
            gabarit_de(transition, k),
            true,
        ).len() <= 14,
{
    let g = gabarit_de(transition, k);
    assert(camp_de(g, false).len() == g[0] + g[1] + g[2] + g[3] + g[4]);
    assert(camp_de(g, true).len() == g[5] + g[6] + g[7] + g[8] + g[9]);
    if transition {
        lemme_table_equilibree(k);
    } else {
        lemme_table_finales(k);
    }
}

proof fn lemme_table_finales(k: int)
    requires
        0 <= k < 17,
    ensures
        effectif(gabarit_de(false, k)) <= 16,
{
}

/// What a board amounts to that holds the two kings and nothing else.
proof fn lemme_deux_rois(a: int, b: int)
    requires
        0 <= a < 64,
        0 <= b < 64,
        a != b,
    ensures
        ({
            let p = repete(0, 64).update(a, 6).update(b, 12);
            &&& meme_materiel(p, seq![6u8, 12u8])
            &&& bien_place(p, false)
            &&& occupees(p) == 2
        }),
{
    let p = repete(0, 64).update(a, 6).update(b, 12);
    assert forall|f: spec_fn(u8) -> int| f(0) == 0 implies #[trigger] somme(p, f) == somme(
        seq![6u8, 12u8],
        f,
    ) by {
        lemme_somme_vide(64, f);
        lemme_somme_pose(repete(0, 64), a, 6, f);
        lemme_somme_pose(repete(0, 64).update(a, 6), b, 12, f);
        reveal_with_fuel(somme, 3);
        assert(seq![6u8, 12u8].drop_last() =~= seq![6u8]);
        assert(seq![6u8].drop_last() =~= Seq::<u8>::empty());
    }
    let f = |c: u8| presence(c);
    assert(f(0) == 0);
    assert(somme(p, f) == somme(seq![6u8, 12u8], f));
    lemme_occupees_liste(seq![6u8, 12u8]);
}

/// Draws the board of one attempt at an endgame and its side to move: the
/// kings first, then the other pieces unless the kings touch.
fn essaie_finale(k: usize, rng: &mut StdRng) -> (r: (Vec<u8>, bool))
    requires
        k < 17,
    ensures
        essaye(false, k as int, r.0@),
{
    let g: Vec<u8> = gabarit(false, k);
    let mut p: Vec<u8> = plateau_vide();
    let ghost vide = p@;
    let a: usize = match case_libre(&p, 0, 7, rng) {
        Some(c) => c,
        None => {
            assert(est_libre(vide, 0, 7, 0));
            0
        },
    };
    p.set(a, 6);
    let ghost un = p@;
    let b: usize = match case_libre(&p, 0, 7, rng) {
        Some(c) => c,
        None => {
            assert(est_libre(un, 0, 7, 0) || est_libre(un, 0, 7, 1));
            0
        },
    };
    p.set(b, 12);
    let ghost p2 = p@;
    proof {
        lemme_deux_rois(a as int, b as int);
        assert(p2[a as int] == 6 && p2[b as int] == 12);
    }
    if distance(a, b) < 2 {
        return (p, true);
    }
    let mut codes: Vec<u8> = camp(&g, false);
    let noirs: Vec<u8> = camp(&g, true);
    let ghost cb = codes@;
    ajoute_codes(&mut codes, &noirs);
    proof {
        lemme_noirs(g@);
        lemme_effectif(false, k as int);
        assert forall|i: int| 0 <= i < codes@.len() implies 1 <= #[trigger] codes@[i] <= 12 by {
            if i < cb.len() {
                assert(codes@[i] == cb[i]);
            } else {
                assert(codes@[i] == noirs@[i - cb.len()]);
            }
        }
    }
    let posees: bool = pose_toutes(&mut p, &codes, false, rng);
    assert(posees);
    proof {
        assert forall|f: spec_fn(u8) -> int| f(0) == 0 implies #[trigger] somme(p@, f) == somme(
            pieces_de(g@),
            f,
        ) by {
            assert(somme(p2, f) == somme(seq![6u8, 12u8], f));
            lemme_somme_ajout(seq![6u8, 12u8], cb, f);
            lemme_somme_ajout(seq![6u8, 12u8] + cb, noirs@, f);
            lemme_somme_ajout(cb, noirs@, f);
        }
    }
    let trait_blanc: bool = pile_ou_face(rng);
    assert(candidat(false, k as int, p@));
    (p, trait_blanc)
}

/// An endgame drawn from the templates. Nothing where `ESSAIS` boards were
/// turned down, see `apres_essai`.
pub fn genere_finale(rng: &mut StdRng) -> (r: Option<Genere>)
    ensures
        r matches Some(d) ==> genere_de(d, false),
{
    let rangs: Vec<usize> = bots::indices(17);
    let k: usize = match bots::pioche(&rangs, rng) {
        Some(k) => k,
        None => {
            return None;
        },
    };
    let mut deja: u32 = 0;
    while deja < ESSAIS
        invariant
            deja <= ESSAIS,
            k < 17,
        decreases ESSAIS - deja,
    {
        let (plateau, trait_blanc) = essaie_finale(k, rng);
        match apres_essai(false, k, deja, plateau, trait_blanc) {
            SuiteEssai::Garde(d) => {
                assert(candidat(false, k as int, d.plateau@));
                return Some(d);
            },
            SuiteEssai::Encore => {},
            SuiteEssai::Abandon => {
                return None;
            },
        }
        deja += 1;
    }
    None
}

/// Draws the board of one attempt at a late middlegame and its side to move:
/// White first, then Black, the king of each before its other pieces.
fn essaie_transition(k: usize, rng: &mut StdRng) -> (r: (Vec<u8>, bool))
    requires
        k < 26,
    ensures
        candidat(true, k as int, r.0@),
{
    let g: Vec<u8> = gabarit(true, k);
    let mut p: Vec<u8> = plateau_vide();
    let ghost p0 = p@;
    let mut codes: Vec<u8> = Vec::new();
    codes.push(6);
    let blancs: Vec<u8> = camp(&g, false);
    ajoute_codes(&mut codes, &blancs);
    codes.push(12);
    let noirs: Vec<u8> = camp(&g, true);
    ajoute_codes(&mut codes, &noirs);
    proof {
        lemme_noirs(g@);
        lemme_effectif(true, k as int);
        let f = |c: u8| presence(c);
        assert(f(0) == 0);
        lemme_somme_vide(64, f);
        assert(codes@ =~= seq![6u8] + blancs@ + seq![12u8] + noirs@);
        assert forall|i: int| 0 <= i < codes@.len() implies 1 <= #[trigger] codes@[i] <= 12 by {
            if 1 <= i && i < 1 + blancs@.len() {
                assert(codes@[i] == blancs@[i - 1]);
            } else if i >= 2 + blancs@.len() {
                assert(codes@[i] == noirs@[i - 2 - blancs@.len()]);
            }
        }
    }
    let posees: bool = pose_toutes(&mut p, &codes, true, rng);
    assert(posees);
    proof {
        assert forall|f: spec_fn(u8) -> int| f(0) == 0 implies #[trigger] somme(p@, f) == somme(
            pieces_de(g@),
            f,
        ) by {
            lemme_somme_vide(64, f);
            let un = seq![6u8];
            let deux = seq![12u8];
            lemme_somme_ajout(un, blancs@, f);
            lemme_somme_ajout(un + blancs@, deux, f);
            lemme_somme_ajout(un + blancs@ + deux, noirs@, f);
            reveal_with_fuel(somme, 2);
            assert(un.drop_last() =~= Seq::<u8>::empty());
            assert(deux.drop_last() =~= Seq::<u8>::empty());
            lemme_somme_pieces(g@, f);
        }
    }
    let trait_blanc: bool = pile_ou_face(rng);
    (p, trait_blanc)
}

fn ajoute_codes(v: &mut Vec<u8>, w: &Vec<u8>)
    ensures
        final(v)@ == old(v)@ + w@,
{
    let ghost avant = v@;
    let mut i: usize = 0;
    assert(v@ =~= avant + w@.take(0));
    while i < w.len()
        invariant
            i <= w.len(),
            v@ == avant + w@.take(i as int),
        decreases w.len() - i,
    {
        v.push(w[i]);
        i += 1;
        assert(v@ =~= avant + w@.take(i as int));
    }
    assert(w@.take(w@.len() as int) =~= w@);
}

/// On the ranks of a late middlegame the kings never touch.
pub proof fn loi_bandes_ecartent(p: Seq<u8>)
    requires
        bien_place(p, true),
    ensures
        rois_ecartes(p),
{
}

/// A capture wins clearly when the exchange is worth a pawn or more, in
/// hundredths of a pawn.
pub const SEUIL_PRISE_GAGNANTE: i32 = 100;

/// What the captures of a position were found to be worth: no more than
/// under the threshold, each as `see` says.
pub open spec fn calme<F: Fn(&str, &str) -> i32>(see: F, fen: Seq<char>) -> bool {
    let coups = echiquier::coups_de(fen);
    forall|i: int|
        0 <= i < coups.unwrap().len() && (#[trigger] coups.unwrap()[i]).1 ==> prise_vue(
            see,
            fen,
            coups.unwrap()[i].0,
        )
}

/// `see` was asked about a capture, and found it to win less than a pawn.
pub open spec fn prise_vue<F: Fn(&str, &str) -> i32>(see: F, fen: Seq<char>, uci: Seq<char>) -> bool {
    exists|f: &str, u: &str, v: i32|
        f@ == fen && u@ == uci && v < SEUIL_PRISE_GAGNANTE && #[trigger] call_ensures(
            see,
            (f, u),
            v,
        )
}

/// `see` was asked about a capture of the position, and found it to win a pawn
/// or more.
pub open spec fn prise_gagnante<F: Fn(&str, &str) -> i32>(see: F, fen: Seq<char>) -> bool {
    exists|i: int, f: &str, u: &str, v: i32|
        0 <= i < echiquier::coups_de(fen).unwrap().len() && (
        #[trigger] echiquier::coups_de(fen).unwrap()[i]).1 && f@ == fen && u@
            == echiquier::coups_de(fen).unwrap()[i].0 && v >= SEUIL_PRISE_GAGNANTE
            && #[trigger] call_ensures(see, (f, u), v)
}

/// Does no capture of the position win a pawn or more?
fn est_calme<F: Fn(&str, &str) -> i32>(see: &F, fen: &String) -> (r: bool)
    requires
        forall|f: &str, u: &str| call_requires(*see, (f, u)),
        echiquier::coups_de(fen@) is Some,
    ensures
        r ==> calme(*see, fen@),
        !r ==> prise_gagnante(*see, fen@),
{
    match echiquier::coups_legaux(fen.as_str()) {
        None => false,
        Some(coups) => {
            let ghost vc = echiquier::vues_coups(coups@);
            let mut i: usize = 0;
            while i < coups.len()
                invariant
                    i <= coups.len(),
                    vc == echiquier::vues_coups(coups@),
                    echiquier::coups_de(fen@) == Some(vc),
                    forall|f: &str, u: &str| call_requires(*see, (f, u)),
                    forall|j: int|
                        0 <= j < i && (#[trigger] vc[j]).1 ==> prise_vue(*see, fen@, vc[j].0),
                decreases coups.len() - i,
            {
                assert(vc[i as int] == (coups@[i as int].0@, coups@[i as int].1));
                if coups[i].1 {
                    let f: &str = fen.as_str();
                    let u: &str = coups[i].0.as_str();
                    let v: i32 = see(f, u);
                    if v >= SEUIL_PRISE_GAGNANTE {
                        assert(echiquier::coups_de(fen@).unwrap()[i as int].1);
                        assert(call_ensures(*see, (f, u), v));
                        return false;
                    }
                    assert(call_ensures(*see, (f, u), v));
                }
                i += 1;
            }
            true
        },
    }
}

/// What follows the draw of the board of a late middlegame, after `deja` others
/// that were turned down: as `apres_essai`, and a board on which a capture
/// wins is turned down too.
pub fn apres_essai_calme<F: Fn(&str, &str) -> i32>(
    see: &F,
    gabarit: usize,
    deja: u32,
    plateau: Vec<u8>,
    trait_blanc: bool,
) -> (r: SuiteEssai)
    requires
        plateau@.len() == 64,
        forall|f: &str, u: &str| call_requires(*see, (f, u)),
    ensures
        match r {
            SuiteEssai::Garde(d) => tiree_de(d, gabarit, plateau@, trait_blanc) && retenue(
                true,
                plateau@,
                trait_blanc,
            ) && calme(*see, d.fen@),
            _ => refus_apres(r, deja) && (retenue(true, plateau@, trait_blanc) ==> prise_gagnante(
                *see,
                fen_de(plateau@, trait_blanc),
            )),
        },
{
    match apres_essai(true, gabarit, deja, plateau, trait_blanc) {
        SuiteEssai::Garde(d) => if est_calme(see, &d.fen) {
            SuiteEssai::Garde(d)
        } else {
            refuse(deja)
        },
        suite => suite,
    }
}

/// A quiet late middlegame drawn from the templates: not in check, and no
/// capture wins a pawn or more. `see` says what a capture is worth once the
/// exchange is played out, in hundredths of a pawn. Nothing where `ESSAIS`
/// boards were turned down, see `apres_essai_calme`.
pub fn genere_transition<F: Fn(&str, &str) -> i32>(rng: &mut StdRng, see: &F) -> (r: Option<Genere>)
    requires
        forall|f: &str, u: &str| call_requires(*see, (f, u)),
    ensures
        r matches Some(d) ==> genere_de(d, true) && sans_echec(d.fen@) && calme(*see, d.fen@),
{
    let rangs: Vec<usize> = bots::indices(26);
    let k: usize = match bots::pioche(&rangs, rng) {
        Some(k) => k,
        None => {
            return None;
        },
    };
    let mut deja: u32 = 0;
    while deja < ESSAIS
        invariant
            deja <= ESSAIS,
            k < 26,
            forall|f: &str, u: &str| call_requires(*see, (f, u)),
        decreases ESSAIS - deja,
    {
        let (plateau, trait_blanc) = essaie_transition(k, rng);
        match apres_essai_calme(see, k, deja, plateau, trait_blanc) {
            SuiteEssai::Garde(d) => {
                return Some(d);
            },
            SuiteEssai::Encore => {},
            SuiteEssai::Abandon => {
                return None;
            },
        }
        deja += 1;
    }
    None
}

// ---------------------------------------------------------------------------
// Balance
// ---------------------------------------------------------------------------

/// Worth of a piece in pawns, a black one counted against.
pub open spec fn valeur(code: u8) -> int {
    if code == 0 {
        0
    } else if code > 6 {
        -valeur_role((code - 6) as u8)
    } else {
        valeur_role(code)
    }
}

pub open spec fn valeur_role(role: u8) -> int {
    if role == 1 {
        1
    } else if role == 2 || role == 3 {
        3
    } else if role == 4 {
        5
    } else if role == 5 {
        9
    } else {
        0
    }
}

/// One for each piece.
pub open spec fn presence(code: u8) -> int {
    if code == 0 {
        0
    } else {
        1
    }
}

/// Pieces of a template, both kings with them.
pub open spec fn effectif(g: Seq<u8>) -> int {
    2 + g[0] + g[1] + g[2] + g[3] + g[4] + g[5] + g[6] + g[7] + g[8] + g[9]
}

/// How far White is ahead in a template, in pawns.
pub open spec fn avance(g: Seq<u8>) -> int {
    9 * g[0] + 5 * g[1] + 3 * g[2] + 3 * g[3] + g[4] - 9 * g[5] - 5 * g[6] - 3 * g[7] - 3 * g[8]
        - g[9]
}

/// A generated late middlegame has ten to sixteen pieces, and neither side is
/// more than a pawn ahead.
pub proof fn loi_transition_equilibree(d: Genere)
    requires
        genere_de(d, true),
    ensures
        10 <= somme(d.plateau@, |c: u8| presence(c)) <= 16,
        -1 <= somme(d.plateau@, |c: u8| valeur(c)) <= 1,
{
    let k = d.gabarit as int;
    let g = gabarit_de(true, k);
    let f = |c: u8| presence(c);
    let v = |c: u8| valeur(c);
    assert(f(0) == 0 && v(0) == 0);
    assert(somme(d.plateau@, f) == somme(pieces_de(g), f));
    assert(somme(d.plateau@, v) == somme(pieces_de(g), v));
    lemme_somme_pieces(g, f);
    lemme_somme_pieces(g, v);
    lemme_somme_camp(g, false, f);
    lemme_somme_camp(g, true, f);
    lemme_somme_camp(g, false, v);
    lemme_somme_camp(g, true, v);
    lemme_table_equilibree(k);
    assert(v(1) == 1 && v(2) == 3 && v(3) == 3 && v(4) == 5 && v(5) == 9 && v(6) == 0);
    assert(v(7) == -1 && v(8) == -3 && v(9) == -3 && v(10) == -5 && v(11) == -9 && v(12) == 0);
    assert(somme(camp_de(g, false), v) == 9 * g[0] + 5 * g[1] + 3 * g[2] + 3 * g[3] + g[4]);
    lemme_negatifs(g[5] as int, g[6] as int, g[7] as int, g[8] as int, g[9] as int);
    assert(somme(camp_de(g, true), v) == -9 * g[5] - 5 * g[6] - 3 * g[7] - 3 * g[8] - g[9]);
}

proof fn lemme_negatifs(a: int, b: int, c: int, d: int, e: int)
    ensures
        a * (-9) == -9 * a,
        b * (-5) == -5 * b,
        c * (-3) == -3 * c,
        d * (-3) == -3 * d,
        e * (-1) == -e,
{
}

proof fn lemme_table_equilibree(k: int)
    requires
        0 <= k < 26,
    ensures
        10 <= effectif(gabarit_de(true, k)) <= 16,
        -1 <= avance(gabarit_de(true, k)) <= 1,
{
}

// ---------------------------------------------------------------------------
// Shares of the families
// ---------------------------------------------------------------------------

/// A refused share, by its place, or shares that exceed the whole together.
#[derive(Clone, Copy, Debug, PartialEq, Eq)]
pub enum RefusParts {
    Part(usize),
    Somme,
}

/// `f32` bits of one.
pub const UN: u32 = 0x3f80_0000;

/// `f32` bits of one and a millionth, rounded.
pub const UN_ET_MILLIONIEME: u32 = 0x3f80_0008;

/// Is the number between nought and one?
pub open spec fn part_admise(p: u32) -> bool {
    !reels::nan(p) && 0 <= reels::cle(p) <= UN
}

fn est_part_admise(p: u32) -> (r: bool)
    ensures
        r == part_admise(p),
{
    let k: i64 = reels::cle_f32(p);
    !reels::est_nan(p) && 0 <= k && k <= UN as i64
}

/// What is wrong with the shares of book openings, endgames and late
/// middlegames, given with their sum: the first share that does not lie between
/// nought and one, else a sum that exceeds one by more than a rounding error.
pub open spec fn refus_des_parts(
    p_ouverture: u32,
    p_finale: u32,
    p_transition: u32,
    somme: u32,
) -> Option<RefusParts> {
    if !part_admise(p_ouverture) {
        Some(RefusParts::Part(0))
    } else if !part_admise(p_finale) {
        Some(RefusParts::Part(1))
    } else if !part_admise(p_transition) {
        Some(RefusParts::Part(2))
    } else if !reels::nan(somme) && reels::cle(somme) > UN_ET_MILLIONIEME {
        Some(RefusParts::Somme)
    } else {
        None
    }
}

/// Are the shares of book openings, endgames and late middlegames, and their
/// sum, within bounds? Each share must lie between nought and one, and the sum
/// may not exceed one by more than a rounding error. All are `f32` bits.
pub fn valide_parts(
    p_ouverture: u32,
    p_finale: u32,
    p_transition: u32,
    somme: u32,
) -> (r: Result<(), RefusParts>)
    ensures
        match r {
            Ok(_) => refus_des_parts(p_ouverture, p_finale, p_transition, somme) is None,
            Err(e) => refus_des_parts(p_ouverture, p_finale, p_transition, somme) == Some(e),
        },
{
    if !est_part_admise(p_ouverture) {
        return Err(RefusParts::Part(0));
    }
    if !est_part_admise(p_finale) {
        return Err(RefusParts::Part(1));
    }
    if !est_part_admise(p_transition) {
        return Err(RefusParts::Part(2));
    }
    if !reels::est_nan(somme) && reels::cle_f32(somme) > UN_ET_MILLIONIEME as i64 {
        return Err(RefusParts::Somme);
    }
    Ok(())
}

impl RefusParts {
    /// Name of the share that was refused.
    pub open spec fn nom_de(self) -> Seq<char> {
        match self {
            RefusParts::Part(0) => "ouvertures"@,
            RefusParts::Part(1) => "finales"@,
            RefusParts::Part(_) => "transition"@,
            RefusParts::Somme => "somme"@,
        }
    }

    /// Name of the share that was refused.
    pub fn nom(&self) -> (r: &'static str)
        ensures
            r@ == self.nom_de(),
    {
        match *self {
            RefusParts::Part(k) => {
                if k == 0 {
                    "ouvertures"
                } else if k == 1 {
                    "finales"
                } else {
                    "transition"
                }
            },
            RefusParts::Somme => "somme",
        }
    }
}

// ---------------------------------------------------------------------------
// The draw
// ---------------------------------------------------------------------------

/// The four families of starting positions.
#[derive(Clone, Copy, Debug, PartialEq, Eq, Structural)]
pub enum Famille {
    Ouverture,
    Finale,
    Transition,
    Initiale,
}

/// Is the first number below the second?
pub open spec fn sous(a: u32, b: u32) -> bool {
    !reels::nan(a) && !reels::nan(b) && reels::cle(a) < reels::cle(b)
}

/// The family that a number drawn between nought and one falls into, given
/// the running sums of the shares. All are `f32` bits.
pub open spec fn famille_de(u: u32, s_ouverture: u32, s_finale: u32, s_transition: u32) -> Famille {
    if sous(u, s_ouverture) {
        Famille::Ouverture
    } else if sous(u, s_finale) {
        Famille::Finale
    } else if sous(u, s_transition) {
        Famille::Transition
    } else {
        Famille::Initiale
    }
}

fn est_sous(a: u32, b: u32) -> (r: bool)
    ensures
        r == sous(a, b),
{
    !reels::est_nan(a) && !reels::est_nan(b) && reels::cle_f32(a) < reels::cle_f32(b)
}

/// The family that a number drawn between nought and one falls into.
pub fn famille(u: u32, s_ouverture: u32, s_finale: u32, s_transition: u32) -> (r: Famille)
    ensures
        r == famille_de(u, s_ouverture, s_finale, s_transition),
{
    if est_sous(u, s_ouverture) {
        Famille::Ouverture
    } else if est_sous(u, s_finale) {
        Famille::Finale
    } else if est_sous(u, s_transition) {
        Famille::Transition
    } else {
        Famille::Initiale
    }
}

/// Where a game starts.
pub struct Depart {
    /// The position.
    pub fen: String,
    /// Where it comes from.
    pub etiquette: String,
    /// Half-moves then played at the temperature of the opening.
    pub plis_chauds: u32,
}

/// Half-moves played at the temperature of the opening, by family.
pub open spec fn plis_chauds_de(f: Famille) -> u32 {
    match f {
        Famille::Ouverture => 2,
        Famille::Finale => 0,
        Famille::Transition => 0,
        Famille::Initiale => 8,
    }
}

/// The starting position is a generated one.
pub open spec fn depart_genere(d: Depart, g: Genere, transition: bool) -> bool {
    genere_de(g, transition) && d.fen@ == g.fen@ && d.etiquette@ == etiquette_de(
        transition,
        g.gabarit as int,
    )
}

/// A starting position of a family: the end of a line of the book, a
/// generated position with the name of its template, or the usual one.
pub open spec fn depart_de(d: Depart, f: Famille, l: livre::VueLivre) -> bool {
    &&& d.plis_chauds == plis_chauds_de(f)
    &&& match f {
        Famille::Ouverture => l.0.contains((d.etiquette@, d.fen@)),
        Famille::Finale => exists|g: Genere| depart_genere(d, g, false),
        Famille::Transition => exists|g: Genere| depart_genere(d, g, true),
        Famille::Initiale => d.etiquette@ == "initiale"@ && d.fen@ == echiquier::DEPART@,
    }
}

fn depart_du_livre(livre: &livre::Livre, rng: &mut StdRng) -> (r: Option<Depart>)
    ensures
        match r {
            Some(d) => depart_de(d, Famille::Ouverture, livre@),
            None => livre@.0.len() == 0,
        },
{
    let rangs: Vec<usize> = bots::indices(livre.finales_de_lignes.len());
    match bots::pioche(&rangs, rng) {
        Some(k) => {
            let d: Depart = Depart {
                fen: livre.finales_de_lignes[k].1.clone(),
                etiquette: livre.finales_de_lignes[k].0.clone(),
                plis_chauds: 2,
            };
            assert(livre@.0[k as int] == (d.etiquette@, d.fen@));
            Some(d)
        },
        None => None,
    }
}

fn depart_de_finale(rng: &mut StdRng, Ghost(l): Ghost<livre::VueLivre>) -> (r: Option<Depart>)
    ensures
        r matches Some(d) ==> depart_de(d, Famille::Finale, l),
{
    match genere_finale(rng) {
        Some(g) => {
            let d: Depart = Depart {
                fen: g.fen.clone(),
                etiquette: etiquette(false, g.gabarit),
                plis_chauds: 0,
            };
            assert(depart_genere(d, g, false));
            Some(d)
        },
        None => None,
    }
}

fn depart_initial(Ghost(l): Ghost<livre::VueLivre>) -> (r: Depart)
    ensures
        depart_de(r, Famille::Initiale, l),
{
    Depart {
        fen: echiquier::position_initiale(),
        etiquette: "initiale".to_string(),
        plis_chauds: 8,
    }
}

/// What a draw can give for a number drawn between nought and one: a starting
/// position of the family that the number falls into; nothing where that is
/// the book and the book is empty, or where a generated position was given up.
pub open spec fn depart_possible(
    r: Option<Depart>,
    u: u32,
    s_ouverture: u32,
    s_finale: u32,
    s_transition: u32,
    l: livre::VueLivre,
) -> bool {
    match r {
        Some(d) => depart_de(d, famille_de(u, s_ouverture, s_finale, s_transition), l),
        None => match famille_de(u, s_ouverture, s_finale, s_transition) {
            Famille::Ouverture => l.0.len() == 0,
            Famille::Initiale => false,
            _ => true,
        },
    }
}

/// Without a share for the late middlegames, whose threshold is then not above
/// that of the endgames, the draw among four families gives what the draw
/// among three gives: no late middlegame ever comes.
pub proof fn loi_sans_transition(u: u32, s_ouverture: u32, s_finale: u32, s_transition: u32)
    requires
        !reels::nan(s_finale),
        !sous(s_finale, s_transition),
    ensures
        famille_de(u, s_ouverture, s_finale, s_transition) != Famille::Transition,
        famille_de(u, s_ouverture, s_finale, s_transition) == famille_de(
            u,
            s_ouverture,
            s_finale,
            s_finale,
        ),
        forall|r: Option<Depart>, l: livre::VueLivre|
            #[trigger] depart_possible(r, u, s_ouverture, s_finale, s_transition, l)
                == depart_possible(r, u, s_ouverture, s_finale, s_finale, l),
{
}

/// The name of a starting position tells its family.
pub proof fn loi_noms_des_familles(d: Depart, f: Famille, l: livre::VueLivre)
    requires
        depart_de(d, f, l),
        forall|i: int|
            0 <= i < l.0.len() ==> texte::commence_par((#[trigger] l.0[i]).0, "ouverture:"@),
    ensures
        match f {
            Famille::Ouverture => texte::commence_par(d.etiquette@, "ouverture:"@),
            Famille::Finale => texte::commence_par(d.etiquette@, "finale:"@),
            Famille::Transition => texte::commence_par(d.etiquette@, "transition:"@),
            Famille::Initiale => d.etiquette@ == "initiale"@,
        },
{
    reveal_strlit("finale:");
    reveal_strlit("finale:K");
    reveal_strlit("transition:");
    reveal_strlit("transition:K");
    match f {
        Famille::Ouverture => {
            let i = choose|i: int| 0 <= i < l.0.len() && l.0[i] == (d.etiquette@, d.fen@);
            assert(texte::commence_par(l.0[i].0, "ouverture:"@));
        },
        Famille::Finale => {
            let g = choose|g: Genere| depart_genere(d, g, false);
            assert(d.etiquette@.take(7) =~= "finale:"@);
        },
        Famille::Transition => {
            let g = choose|g: Genere| depart_genere(d, g, true);
            assert(d.etiquette@.take(11) =~= "transition:"@);
        },
        Famille::Initiale => {},
    }
}

/// Draws a starting position among the book, the endgames and the usual one.
/// `u` is a number drawn between nought and one; the others are the share of
/// the book and that share with the share of the endgames. All are `f32`
/// bits. Nothing where the book is empty or an endgame was given up.
pub fn tirage(
    livre: &livre::Livre,
    rng: &mut StdRng,
    u: u32,
    s_ouverture: u32,
    s_finale: u32,
) -> (r: Option<Depart>)
    ensures
        depart_possible(r, u, s_ouverture, s_finale, s_finale, livre@),
{
    match famille(u, s_ouverture, s_finale, s_finale) {
        Famille::Ouverture => depart_du_livre(livre, rng),
        Famille::Finale => depart_de_finale(rng, Ghost(livre@)),
        _ => Some(depart_initial(Ghost(livre@))),
    }
}

/// Draws a starting position among the four families. `u` is a number drawn
/// between nought and one; the others are the running sums of the shares of
/// the book, the endgames and the late middlegames. All are `f32` bits.
/// Nothing where the book is empty or a generated position was given up.
pub fn tirage_complet<F: Fn(&str, &str) -> i32>(
    livre: &livre::Livre,
    rng: &mut StdRng,
    u: u32,
    s_ouverture: u32,
    s_finale: u32,
    s_transition: u32,
    see: &F,
) -> (r: Option<Depart>)
    requires
        forall|f: &str, u: &str| call_requires(*see, (f, u)),
    ensures
        depart_possible(r, u, s_ouverture, s_finale, s_transition, livre@),
        r matches Some(d) ==> famille_de(u, s_ouverture, s_finale, s_transition)
            == Famille::Transition ==> sans_echec(d.fen@) && calme(
            *see,
            d.fen@,
        ),
        famille_de(u, s_ouverture, s_finale, s_transition) != Famille::Transition ==> exists|
            m: &mut StdRng,
        |
            *m == *old(rng) && *final(m) == *final(rng) && #[trigger] call_ensures(
                tirage,
                (livre, m, u, s_ouverture, s_finale),
                r,
            ),
{
    match famille(u, s_ouverture, s_finale, s_transition) {
        Famille::Transition => match genere_transition(rng, see) {
            Some(g) => {
                let d: Depart = Depart {
                    fen: g.fen.clone(),
                    etiquette: etiquette(true, g.gabarit),
                    plis_chauds: 0,
                };
                assert(depart_genere(d, g, true));
                Some(d)
            },
            None => None,
        },
        _ => tirage(livre, rng, u, s_ouverture, s_finale),
    }
}

// ---------------------------------------------------------------------------
// Laws of the starts
// ---------------------------------------------------------------------------

/// Letters of a board: white pieces in capitals, black ones in the same small
/// letters, pawn, knight, bishop, rook, queen, king.
pub proof fn loi_lettres(role: u8)
    requires
        1 <= role <= 6,
    ensures
        lettre(1) == 'P' && lettre(2) == 'N' && lettre(3) == 'B' && lettre(4) == 'R' && lettre(5)
            == 'Q' && lettre(6) == 'K',
        lettre((role + 6) as u8) as int == lettre(role) as int + 32,
{
}

/// Worth of the pieces of a material: pawn 1, knight and bishop 3, rook 5,
/// queen 9, king nothing; black pieces count against.
pub proof fn loi_valeur_du_materiel(code: u8)
    ensures
        valeur(0) == 0 && valeur(1) == 1 && valeur(2) == 3 && valeur(3) == 3 && valeur(4) == 5
            && valeur(5) == 9 && valeur(6) == 0,
        1 <= code <= 6 ==> valeur((code + 6) as u8) == -valeur(code),
        presence(code) == 1 <==> code != 0,
        presence(0) == 0,
{
}

/// A side has as many pieces as its material says, the strongest first.
pub proof fn loi_effectif_d_un_camp(g: Seq<u8>)
    requires
        g.len() == 10,
    ensures
        camp_de(g, false).len() == g[0] + g[1] + g[2] + g[3] + g[4],
        camp_de(g, true).len() == g[5] + g[6] + g[7] + g[8] + g[9],
        g[0] > 0 ==> camp_de(g, false)[0] == 5,
        g[5] > 0 ==> camp_de(g, true)[0] == 11,
        forall|i: int|
            0 <= i < camp_de(g, false).len() ==> 1 <= #[trigger] camp_de(g, false)[i] <= 5,
        forall|i: int|
            0 <= i < camp_de(g, true).len() ==> 7 <= #[trigger] camp_de(g, true)[i] <= 11,
        pieces_de(g).len() == effectif(g),
{
}

/// How many pieces of a kind a material has.
pub proof fn loi_pieces_d_une_sorte(g: Seq<u8>)
    requires
        g.len() == 10,
    ensures
        somme(pieces_de(g), |c: u8| if c == 5 { 1int } else { 0int }) == g[0],
        somme(pieces_de(g), |c: u8| if c == 4 { 1int } else { 0int }) == g[1],
        somme(pieces_de(g), |c: u8| if c == 3 { 1int } else { 0int }) == g[2],
        somme(pieces_de(g), |c: u8| if c == 2 { 1int } else { 0int }) == g[3],
        somme(pieces_de(g), |c: u8| if c == 1 { 1int } else { 0int }) == g[4],
        somme(pieces_de(g), |c: u8| if c == 11 { 1int } else { 0int }) == g[5],
        somme(pieces_de(g), |c: u8| if c == 10 { 1int } else { 0int }) == g[6],
        somme(pieces_de(g), |c: u8| if c == 9 { 1int } else { 0int }) == g[7],
        somme(pieces_de(g), |c: u8| if c == 8 { 1int } else { 0int }) == g[8],
        somme(pieces_de(g), |c: u8| if c == 7 { 1int } else { 0int }) == g[9],
        somme(pieces_de(g), |c: u8| if c == 6 { 1int } else { 0int }) == 1,
        somme(pieces_de(g), |c: u8| if c == 12 { 1int } else { 0int }) == 1,
{
    lemme_sorte(g, |c: u8| if c == 5 { 1int } else { 0int });
    lemme_sorte(g, |c: u8| if c == 4 { 1int } else { 0int });
    lemme_sorte(g, |c: u8| if c == 3 { 1int } else { 0int });
    lemme_sorte(g, |c: u8| if c == 2 { 1int } else { 0int });
    lemme_sorte(g, |c: u8| if c == 1 { 1int } else { 0int });
    lemme_sorte(g, |c: u8| if c == 11 { 1int } else { 0int });
    lemme_sorte(g, |c: u8| if c == 10 { 1int } else { 0int });
    lemme_sorte(g, |c: u8| if c == 9 { 1int } else { 0int });
    lemme_sorte(g, |c: u8| if c == 8 { 1int } else { 0int });
    lemme_sorte(g, |c: u8| if c == 7 { 1int } else { 0int });
    lemme_sorte(g, |c: u8| if c == 6 { 1int } else { 0int });
    lemme_sorte(g, |c: u8| if c == 12 { 1int } else { 0int });
}

proof fn lemme_sorte(g: Seq<u8>, f: spec_fn(u8) -> int)
    requires
        forall|c: u8| #[trigger] f(c) == 0 || f(c) == 1,
    ensures
        somme(pieces_de(g), f) == f(6) + f(12) + (if f(5) == 1 { g[0] as int } else { 0 }) + (if f(4)
            == 1 { g[1] as int } else { 0 }) + (if f(3) == 1 { g[2] as int } else { 0 }) + (if f(2)
            == 1 { g[3] as int } else { 0 }) + (if f(1) == 1 { g[4] as int } else { 0 }) + (if f(11)
            == 1 { g[5] as int } else { 0 }) + (if f(10) == 1 { g[6] as int } else { 0 }) + (if f(9)
            == 1 { g[7] as int } else { 0 }) + (if f(8) == 1 { g[8] as int } else { 0 }) + (if f(7)
            == 1 { g[9] as int } else { 0 }),
{
    lemme_somme_pieces(g, f);
    lemme_somme_camp(g, false, f);
    lemme_somme_camp(g, true, f);
    assert(f(5) == 0 || f(5) == 1);
    assert(f(4) == 0 || f(4) == 1);
    assert(f(3) == 0 || f(3) == 1);
    assert(f(2) == 0 || f(2) == 1);
    assert(f(1) == 0 || f(1) == 1);
    assert(f(11) == 0 || f(11) == 1);
    assert(f(10) == 0 || f(10) == 1);
    assert(f(9) == 0 || f(9) == 1);
    assert(f(8) == 0 || f(8) == 1);
    assert(f(7) == 0 || f(7) == 1);
}

/// Ranks are numbered from 0. In an endgame a pawn stands neither on the first
/// nor on the last one and the other pieces anywhere; in a late middlegame the
/// kings stay on their two home ranks, pawns on neither of the two ranks before
/// promotion nor on their first, and both colours are mirror images.
pub proof fn loi_rangs_permis(code: u8)
    requires
        1 <= code <= 6,
    ensures
        bande_de(false, 1) == (1u32, 6u32) && bande_de(false, 7) == (1u32, 6u32),
        code != 1 ==> bande_de(false, code) == (0u32, 7u32),
        bande_de(true, 6) == (0u32, 1u32),
        bande_de(true, 1) == (1u32, 5u32),
        code != 1 && code != 6 ==> bande_de(true, code) == (0u32, 7u32),
        forall|t: bool|
            #![trigger bande_de(t, code)]
            bande_de(t, (code + 6) as u8).0 + bande_de(t, code).1 == 7 && bande_de(
                t,
                (code + 6) as u8,
            ).1 + bande_de(t, code).0 == 7,
{
}

/// Two squares are within one king's step exactly when neither their ranks nor
/// their files differ by two or more; the distance is the same both ways.
pub proof fn loi_distance(a: int, b: int)
    requires
        0 <= a < 64,
        0 <= b < 64,
    ensures
        distance_de(a, b) == distance_de(b, a),
        distance_de(a, b) == 0 <==> a == b,
        distance_de(a, b) <= 1 <==> -1 <= a / 8 - b / 8 <= 1 && -1 <= a % 8 - b % 8 <= 1,
        0 <= distance_de(a, b) <= 7,
        a / 8 - b / 8 <= distance_de(a, b) && a % 8 - b % 8 <= distance_de(a, b),
{
}

/// What a written row stands for: a digit for as many empty squares, a letter
/// for its piece.
pub open spec fn developpe(s: Seq<char>) -> Seq<char>
    decreases s.len(),
{
    if s.len() == 0 {
        Seq::empty()
    } else {
        let d = developpe(s.drop_last());
        if texte::est_chiffre(s.last()) {
            d + Seq::new((s.last() as int - 48) as nat, |i: int| '.')
        } else {
            d.push(s.last())
        }
    }
}

proof fn lemme_developpe_ajout(a: Seq<char>, b: Seq<char>)
    ensures
        developpe(a + b) == developpe(a) + developpe(b),
    decreases b.len(),
{
    if b.len() == 0 {
        assert(a + b =~= a);
        assert(developpe(a) + developpe(b) =~= developpe(a));
    } else {
        lemme_developpe_ajout(a, b.drop_last());
        assert((a + b).drop_last() =~= a + b.drop_last());
        assert((a + b).last() == b.last());
        assert(developpe(a + b) =~= developpe(a) + developpe(b));
    }
}

/// A row of the board is written so that it can be read again: developed, it
/// is the eight squares of the rank from the first file to the last.
pub proof fn loi_rangee_relue(p: Seq<u8>, r: int)
    requires
        p.len() == 64,
        0 <= r < 8,
    ensures
        developpe(rangee_de(p, r, 0, 0)) == Seq::new(
            8,
            |f: int|
                if p[8 * r + f] == 0 {
                    '.'
                } else {
                    lettre(p[8 * r + f])
                },
        ),
{
    lemme_rangee_relue(p, r, 0, 0);
    let s = Seq::new(
        8,
        |f: int|
            if p[8 * r + f] == 0 {
                '.'
            } else {
                lettre(p[8 * r + f])
            },
    );
    assert(Seq::new(0, |i: int| '.') + suite_de_rangee(p, r, 0) =~= s);
}

spec fn suite_de_rangee(p: Seq<u8>, r: int, f: int) -> Seq<char> {
    Seq::new(
        (8 - f) as nat,
        |i: int|
            if p[8 * r + f + i] == 0 {
                '.'
            } else {
                lettre(p[8 * r + f + i])
            },
    )
}

proof fn lemme_rangee_relue(p: Seq<u8>, r: int, f: int, vides: int)
    requires
        p.len() == 64,
        0 <= r < 8,
        0 <= f <= 8,
        0 <= vides <= f,
    ensures
        developpe(rangee_de(p, r, f, vides)) == Seq::new(vides as nat, |i: int| '.')
            + suite_de_rangee(p, r, f),
    decreases 8 - f,
{
    let v = vides_de(vides);
    assert(developpe(v) =~= Seq::new(vides as nat, |i: int| '.')) by {
        if vides > 0 {
            assert(v.len() == 1);
            assert(v.drop_last() =~= Seq::empty());
            assert(developpe(v.drop_last()) =~= Seq::empty());
            assert(v.last() == texte::chiffre(vides));
            assert(v.last() as int == 48 + vides);
            assert(texte::est_chiffre(v.last()));
            assert(developpe(v) == developpe(v.drop_last()) + Seq::new(
                (v.last() as int - 48) as nat,
                |i: int| '.',
            ));
        } else {
            assert(v =~= Seq::empty());
        }
    }
    if f >= 8 {
        assert(suite_de_rangee(p, r, f) =~= Seq::empty());
        assert(developpe(rangee_de(p, r, f, vides)) =~= Seq::new(vides as nat, |i: int| '.')
            + suite_de_rangee(p, r, f));
    } else if p[8 * r + f] == 0 {
        lemme_rangee_relue(p, r, f + 1, vides + 1);
        assert(Seq::new((vides + 1) as nat, |i: int| '.') + suite_de_rangee(p, r, f + 1)
            =~= Seq::new(vides as nat, |i: int| '.') + suite_de_rangee(p, r, f));
    } else {
        lemme_rangee_relue(p, r, f + 1, 0);
        let c = lettre(p[8 * r + f]);
        let s = rangee_de(p, r, f + 1, 0);
        lemme_developpe_ajout(v.push(c), s);
        assert(v.push(c).drop_last() =~= v);
        assert(developpe(v.push(c)) == developpe(v).push(c));
        assert(Seq::new(0, |i: int| '.') + suite_de_rangee(p, r, f + 1) =~= suite_de_rangee(
            p,
            r,
            f + 1,
        ));
        assert(developpe(v).push(c) + suite_de_rangee(p, r, f + 1) =~= Seq::new(
            vides as nat,
            |i: int| '.',
        ) + suite_de_rangee(p, r, f));
    }
}

proof fn lemme_joint_devant(a: Seq<char>, m: Seq<Seq<char>>, sep: char)
    requires
        m.len() > 0,
    ensures
        texte::joint(seq![a] + m, sep) == a.push(sep) + texte::joint(m, sep),
    decreases m.len(),
{
    let t = seq![a] + m;
    if m.len() == 1 {
        assert(t.drop_last() =~= seq![a]);
        assert(texte::joint(seq![a], sep) == a);
        assert(t.last() == m[0]);
    } else {
        lemme_joint_devant(a, m.drop_last(), sep);
        assert(t.drop_last() =~= seq![a] + m.drop_last());
        assert(t.last() == m.last());
        assert((a.push(sep) + texte::joint(m.drop_last(), sep)).push(sep) + m.last() =~= a.push(sep)
            + (texte::joint(m.drop_last(), sep).push(sep) + m.last()));
    }
}

/// A board is written from its last rank down to its first, the rows parted by
/// slashes, then the side to move, no castling, no en passant, fresh clocks.
pub proof fn loi_plateau_ecrit(p: Seq<u8>, trait_blanc: bool)
    ensures
        fen_de(p, trait_blanc) == texte::joint(
            Seq::new(8, |i: int| rangee_de(p, 7 - i, 0, 0)),
            '/',
        ) + (if trait_blanc {
            " w - - 0 1"@
        } else {
            " b - - 0 1"@
        }),
{
    lemme_rangees_jointes(p, 7);
}

proof fn lemme_rangees_jointes(p: Seq<u8>, r: int)
    requires
        0 <= r,
    ensures
        rangees_de(p, r) == texte::joint(
            Seq::new((r + 1) as nat, |i: int| rangee_de(p, r - i, 0, 0)),
            '/',
        ),
    decreases r,
{
    let m = Seq::new((r + 1) as nat, |i: int| rangee_de(p, r - i, 0, 0));
    if r == 0 {
        assert(m.len() == 1 && m[0] == rangee_de(p, 0, 0, 0));
    } else {
        lemme_rangees_jointes(p, r - 1);
        let d = Seq::new(r as nat, |i: int| rangee_de(p, r - 1 - i, 0, 0));
        lemme_joint_devant(rangee_de(p, r, 0, 0), d, '/');
        assert(m =~= seq![rangee_de(p, r, 0, 0)] + d);
    }
}

/// Shares are numbers from zero to one.
pub proof fn loi_part_admise(p: u32)
    ensures
        p < 0x8000_0000 ==> (part_admise(p) <==> p <= 0x3f80_0000),
        p >= 0x8000_0000 ==> (part_admise(p) <==> p == 0x8000_0000),
{
    reels::loi_pas_un_nombre(p);
}

/// Shares are refused in order: the first one that is no share, or else a sum
/// above one by more than a millionth; good shares are not refused.
pub proof fn loi_refus_des_parts(a: u32, b: u32, c: u32, somme: u32)
    requires
        somme < 0x7f80_0000,
    ensures
        refus_des_parts(a, b, c, somme) == Some(RefusParts::Part(0)) <==> !part_admise(a),
        refus_des_parts(a, b, c, somme) == Some(RefusParts::Part(1)) <==> part_admise(a)
            && !part_admise(b),
        refus_des_parts(a, b, c, somme) == Some(RefusParts::Part(2)) <==> part_admise(a)
            && part_admise(b) && !part_admise(c),
        refus_des_parts(a, b, c, somme) == Some(RefusParts::Somme) <==> part_admise(a)
            && part_admise(b) && part_admise(c) && somme > 0x3f80_0008,
        refus_des_parts(a, b, c, somme) is None <==> part_admise(a) && part_admise(b)
            && part_admise(c) && somme <= 0x3f80_0008,
{
    reels::loi_pas_un_nombre(somme);
}

/// A draw picks a family by growing thresholds: below the first an opening,
/// then an endgame, then a late middlegame, and the starting position for the
/// rest.
pub proof fn loi_famille_tiree(u: u32, a: u32, b: u32, c: u32)
    requires
        u < 0x7f80_0000,
        a <= b <= c < 0x7f80_0000,
    ensures
        famille_de(u, a, b, c) is Ouverture <==> u < a,
        famille_de(u, a, b, c) is Finale <==> a <= u < b,
        famille_de(u, a, b, c) is Transition <==> b <= u < c,
        famille_de(u, a, b, c) is Initiale <==> c <= u,
{
    reels::loi_pas_un_nombre(u);
    reels::loi_pas_un_nombre(a);
    reels::loi_pas_un_nombre(b);
    reels::loi_pas_un_nombre(c);
}

/// Half-moves played warm: two from an opening, eight from the start, none
/// from an endgame or a late middlegame.
pub proof fn loi_plis_chauds()
    ensures
        plis_chauds_de(Famille::Ouverture) == 2,
        plis_chauds_de(Famille::Finale) == 0,
        plis_chauds_de(Famille::Transition) == 0,
        plis_chauds_de(Famille::Initiale) == 8,
{
}

/// A generator gives up at its hundred thousandth refusal, not before.
pub proof fn loi_abandon(deja: u32)
    ensures
        refus_apres(SuiteEssai::Encore, deja) <==> deja < 99_999,
        refus_apres(SuiteEssai::Abandon, deja) <==> deja >= 99_999,
{
}

/// A quiet position has no capture that wins a pawn or more.
pub proof fn loi_position_calme<F: Fn(&str, &str) -> i32>(see: F, fen: Seq<char>, i: int)
    requires
        calme(see, fen),
        echiquier::coups_de(fen) is Some,
        0 <= i < echiquier::coups_de(fen)->0.len(),
        (echiquier::coups_de(fen)->0)[i].1,
    ensures
        exists|f: &str, u: &str, v: i32|
            f@ == fen && u@ == (echiquier::coups_de(fen)->0)[i].0 && v < 100 && #[trigger] call_ensures(
                see,
                (f, u),
                v,
            ),
{
    assert(prise_vue(see, fen, echiquier::coups_de(fen).unwrap()[i].0));
}

/// A start without check: the side to move is not in check.
pub proof fn loi_sans_echec(fen: Seq<char>, p: echiquier::VuePosition)
    requires
        echiquier::position_de(fen) == Some(p),
    ensures
        sans_echec(fen) <==> !p.7,
{
}

/// Twenty-six materials of late middlegames, seventeen of endgames; an endgame
/// has three to seven pieces, and White is never behind.
pub proof fn loi_gabarits_de_finale(k: int)
    requires
        0 <= k < n_gabarits(false),
    ensures
        n_gabarits(false) == 17,
        n_gabarits(true) == 26,
        3 <= effectif(gabarit_de(false, k)) <= 7,
        0 <= avance(gabarit_de(false, k)) <= 9,
{
}

/// The name of a start: its family, White's king and pieces, Black's king and
/// pieces, the strongest first.
pub proof fn loi_nom_du_depart(k: int)
    ensures
        ({
            let g = gabarit_de(false, k);
            let h = gabarit_de(true, k);
            &&& etiquette_de(false, k) == "finale:K"@ + camp_de(g, false).map_values(
                |c: u8| lettre(c),
            ) + "vK"@ + camp_de(g, true).map_values(|c: u8| lettre((c - 6) as u8))
            &&& etiquette_de(true, k) == "transition:K"@ + camp_de(h, false).map_values(
                |c: u8| lettre(c),
            ) + "vK"@ + camp_de(h, true).map_values(|c: u8| lettre((c - 6) as u8))
        }),
{
}

/// A square can take a piece when it is empty and its rank is open; a band is
/// full when none can.
pub proof fn loi_case_libre(p: Seq<u8>, min: u32, max: u32, c: int)
    ensures
        est_libre(p, min, max, c) <==> 0 <= c < p.len() && p[c] == 0 && min <= c / 8 && c / 8 <= max,
        pleine(p, min, max) && 0 <= c < p.len() && min <= c / 8 <= max ==> p[c] != 0,
{
    if pleine(p, min, max) {
        assert(!est_libre(p, min, max, c));
    }
}

/// Setting pieces on a board moves none: an occupied square keeps its piece,
/// and every kind of piece is as many as before and as were set.
pub proof fn loi_plateau_garni(avant: Seq<u8>, apres: Seq<u8>, codes: Seq<u8>, i: int)
    requires
        garni(avant, apres, codes),
        0 <= i < avant.len(),
    ensures
        apres.len() == avant.len(),
        avant[i] != 0 ==> apres[i] == avant[i],
        apres[i] != avant[i] ==> codes.contains(apres[i]),
        somme(apres, |c: u8| presence(c)) == somme(avant, |c: u8| presence(c)) + somme(
            codes,
            |c: u8| presence(c),
        ),
        somme(apres, |c: u8| valeur(c)) == somme(avant, |c: u8| valeur(c)) + somme(
            codes,
            |c: u8| valeur(c),
        ),
{
    let f = |c: u8| presence(c);
    let v = |c: u8| valeur(c);
    assert(f(0) == 0 && v(0) == 0);
    assert(somme(apres, f) == somme(avant, f) + somme(codes, f));
    assert(somme(apres, v) == somme(avant, v) + somme(codes, v));
}

/// A drawn board is kept when its kings stand apart and the side to move has a
/// legal move; in a late middlegame it must not be in check either.
pub proof fn loi_plateau_retenu(p: Seq<u8>, trait_blanc: bool, c: Seq<(Seq<char>, bool)>)
    requires
        echiquier::coups_de(fen_de(p, trait_blanc)) == Some(c),
    ensures
        retenue(false, p, trait_blanc) <==> rois_ecartes(p) && c.len() > 0,
        retenue(true, p, trait_blanc) <==> rois_ecartes(p) && c.len() > 0 && sans_echec(
            fen_de(p, trait_blanc),
        ),
{
}

/// Kings stand apart: never on the same square, never on two that touch.
pub proof fn loi_rois_ecartes(p: Seq<u8>, a: int, b: int)
    requires
        p.len() == 64,
        rois_ecartes(p),
        0 <= a < 64,
        0 <= b < 64,
        p[a] == 6,
        p[b] == 12,
    ensures
        !(-1 <= a / 8 - b / 8 <= 1 && -1 <= a % 8 - b % 8 <= 1),
{
    loi_distance(a, b);
    assert(distance_de(a, b) >= 2);
}

/// What a generated start is: the pieces of its material and no others, each on
/// a rank that is open to it.
pub proof fn loi_depart_genere(d: Genere, transition: bool, i: int)
    requires
        genere_de(d, transition),
        0 <= i < 64,
        d.plateau@[i] != 0,
    ensures
        1 <= d.plateau@[i] <= 12,
        bande_de(transition, d.plateau@[i]).0 <= i / 8 <= bande_de(transition, d.plateau@[i]).1,
        d.plateau@[i] == 1 || d.plateau@[i] == 7 ==> 8 <= i < 56,
        rois_ecartes(d.plateau@),
        d.fen@ == fen_de(d.plateau@, d.trait_blanc),
        somme(d.plateau@, |c: u8| presence(c)) == somme(
            pieces_de(gabarit_de(transition, d.gabarit as int)),
            |c: u8| presence(c),
        ),
{
    let f = |c: u8| presence(c);
    assert(f(0) == 0);
    assert(somme(d.plateau@, f) == somme(
        pieces_de(gabarit_de(transition, d.gabarit as int)),
        f,
    ));
}

/// Names of the refused shares.
pub proof fn loi_noms_des_refus()
    ensures
        RefusParts::Part(0).nom_de() == "ouvertures"@,
        RefusParts::Part(1).nom_de() == "finales"@,
        RefusParts::Part(2).nom_de() == "transition"@,
        RefusParts::Somme.nom_de() == "somme"@,
{
}

/// What a start of each family is: the starting position under its own name, a
/// line of the book, or a generated board with its name; each with its warm
/// half-moves.
pub proof fn loi_depart(d: Depart, f: Famille, l: livre::VueLivre)
    requires
        depart_de(d, f, l),
    ensures
        f is Initiale ==> d.fen@ == echiquier::DEPART@ && d.etiquette@ == "initiale"@
            && d.plis_chauds == 8,
        f is Ouverture ==> l.0.contains((d.etiquette@, d.fen@)) && d.plis_chauds == 2,
        f is Finale ==> d.plis_chauds == 0 && exists|g: Genere|
            genere_de(g, false) && d.fen@ == g.fen@ && d.etiquette@ == #[trigger] etiquette_de(
                false,
                g.gabarit as int,
            ),
        f is Transition ==> d.plis_chauds == 0 && exists|g: Genere|
            genere_de(g, true) && d.fen@ == g.fen@ && d.etiquette@ == #[trigger] etiquette_de(
                true,
                g.gabarit as int,
            ),
{
    if f is Finale {
        let g = choose|g: Genere| depart_genere(d, g, false);
        assert(d.etiquette@ == etiquette_de(false, g.gabarit as int));
    }
    if f is Transition {
        let g = choose|g: Genere| depart_genere(d, g, true);
        assert(d.etiquette@ == etiquette_de(true, g.gabarit as int));
    }
}

} // verus!
