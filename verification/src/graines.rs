//! Seeds: one seed gives many, all apart.
use vstd::prelude::*;

use crate::texte;

verus! {

/// The mixing of a base seed with a selector.
pub open spec fn melange(base: u64, sel: u64) -> u64 {
    finition(base ^ sel.wrapping_mul(0x9E37_79B9_7F4A_7C15))
}

/// Three folds of the high bits onto the low ones, a product between them.
pub open spec fn finition(z: u64) -> u64 {
    let a = (z ^ (z >> 30)).wrapping_mul(0xBF58_476D_1CE4_E5B9);
    let b = (a ^ (a >> 27)).wrapping_mul(0x94D0_49BB_1331_11EB);
    b ^ (b >> 31)
}

/// Derives a seed from a base seed and a selector.
pub fn derive_graine(base: u64, sel: u64) -> (r: u64)
    ensures
        r == melange(base, sel),
{
    let mut z: u64 = base ^ sel.wrapping_mul(0x9E37_79B9_7F4A_7C15);
    z = (z ^ (z >> 30)).wrapping_mul(0xBF58_476D_1CE4_E5B9);
    z = (z ^ (z >> 27)).wrapping_mul(0x94D0_49BB_1331_11EB);
    z ^ (z >> 31)
}

/// Multiplying by `c` modulo 2^64 can be undone where `c` has an inverse.
proof fn lemme_produit(x: u64, c: u64, i: u64, k: int)
    requires
        c * i == 1 + k * 0x1_0000_0000_0000_0000,
    ensures
        (x.wrapping_mul(c) as int * i as int) % 0x1_0000_0000_0000_0000 == x,
{
    let m: int = 0x1_0000_0000_0000_0000;
    let p: int = x as int * c as int;
    assert(x.wrapping_mul(c) as int == p % m) by {
        assert(x as nat * c as nat == p);
        assert(0 <= p) by (nonlinear_arith)
            requires
                p == x as int * c as int,
        ;
    }
    vstd::arithmetic::div_mod::lemma_mul_mod_noop_left(p, i as int, m);
    assert(p * (i as int) == x as int + (x as int * k) * m) by (nonlinear_arith)
        requires
            p == x as int * c as int,
            c * i == 1 + k * m,
    ;
    vstd::arithmetic::div_mod::lemma_mod_multiples_vanish(x as int * k, x as int, m);
    assert((m * (x as int * k) + x as int) == x as int + (x as int * k) * m) by (nonlinear_arith);
    vstd::arithmetic::div_mod::lemma_small_mod(x as nat, m as nat);
}

proof fn lemme_produit_injectif(x: u64, y: u64, c: u64, i: u64, k: int)
    requires
        c * i == 1 + k * 0x1_0000_0000_0000_0000,
        x.wrapping_mul(c) == y.wrapping_mul(c),
    ensures
        x == y,
{
    lemme_produit(x, c, i, k);
    lemme_produit(y, c, i, k);
}

proof fn lemme_finition_injective(x: u64, y: u64)
    requires
        finition(x) == finition(y),
    ensures
        x == y,
{
    let fx = x ^ (x >> 30);
    let fy = y ^ (y >> 30);
    let ax = fx.wrapping_mul(0xBF58_476D_1CE4_E5B9);
    let ay = fy.wrapping_mul(0xBF58_476D_1CE4_E5B9);
    let gx = ax ^ (ax >> 27);
    let gy = ay ^ (ay >> 27);
    let bx = gx.wrapping_mul(0x94D0_49BB_1331_11EB);
    let by_ = gy.wrapping_mul(0x94D0_49BB_1331_11EB);
    assert(bx ^ (bx >> 31) == by_ ^ (by_ >> 31) ==> bx == by_) by (bit_vector);
    assert(0x94D0_49BB_1331_11EB * 0x3196_42B2_D24D_8EC3 == 1 + 2_077_064_247_507_883_091
        * 0x1_0000_0000_0000_0000);
    lemme_produit_injectif(
        gx,
        gy,
        0x94D0_49BB_1331_11EB,
        0x3196_42B2_D24D_8EC3,
        2_077_064_247_507_883_091,
    );
    assert(ax ^ (ax >> 27) == ay ^ (ay >> 27) ==> ax == ay) by (bit_vector);
    assert(0xBF58_476D_1CE4_E5B9 * 0x96DE_1B17_3F11_9089 == 1 + 8_125_545_580_553_827_436
        * 0x1_0000_0000_0000_0000);
    lemme_produit_injectif(
        fx,
        fy,
        0xBF58_476D_1CE4_E5B9,
        0x96DE_1B17_3F11_9089,
        8_125_545_580_553_827_436,
    );
    assert(x ^ (x >> 30) == y ^ (y >> 30) ==> x == y) by (bit_vector);
}

/// Two base seeds never give the same seed under one selector.
pub proof fn loi_bases_distinctes(a: u64, b: u64, sel: u64)
    requires
        melange(a, sel) == melange(b, sel),
    ensures
        a == b,
{
    let s = sel.wrapping_mul(0x9E37_79B9_7F4A_7C15);
    lemme_finition_injective(a ^ s, b ^ s);
    assert(a ^ s == b ^ s ==> a == b) by (bit_vector);
}

/// Two selectors never give the same seed of one base.
pub proof fn loi_selecteurs_distincts(base: u64, s: u64, t: u64)
    requires
        melange(base, s) == melange(base, t),
    ensures
        s == t,
{
    let x = s.wrapping_mul(0x9E37_79B9_7F4A_7C15);
    let y = t.wrapping_mul(0x9E37_79B9_7F4A_7C15);
    lemme_finition_injective(base ^ x, base ^ y);
    assert(base ^ x == base ^ y ==> x == y) by (bit_vector);
    assert(0x9E37_79B9_7F4A_7C15 * 0xF1DE_83E1_9937_733D == 1 + 10_771_413_168_148_108_919
        * 0x1_0000_0000_0000_0000);
    lemme_produit_injectif(
        s,
        t,
        0x9E37_79B9_7F4A_7C15,
        0xF1DE_83E1_9937_733D,
        10_771_413_168_148_108_919,
    );
}

/// A seed folded with the letters of a name.
pub open spec fn graine_nommee(seed: u64, nom: Seq<char>) -> u64
    decreases nom.len(),
{
    if nom.len() == 0 {
        seed
    } else {
        graine_nommee(seed, nom.drop_last()).wrapping_mul(0x0100_0000_01B3) ^ (nom.last() as u64)
    }
}

/// Folds a seed with the letters of a name, so that every family of positions
/// has its own.
pub fn graine_de_famille(seed: u64, nom: &str) -> (r: u64)
    requires
        forall|i: int| 0 <= i < nom@.len() ==> (#[trigger] nom@[i] as int) < 128,
    ensures
        r == graine_nommee(seed, nom@),
{
    let c: Vec<char> = texte::caracteres(nom);
    let mut g: u64 = seed;
    let mut i: usize = 0;
    while i < c.len()
        invariant
            i <= c@.len(),
            c@ == nom@,
            g == graine_nommee(seed, nom@.take(i as int)),
        decreases c.len() - i,
    {
        let u: u32 = texte::code(c[i]);
        g = g.wrapping_mul(0x0100_0000_01B3) ^ (u as u64);
        assert(nom@.take(i as int + 1).drop_last() =~= nom@.take(i as int));
        i += 1;
    }
    assert(nom@.take(i as int) =~= nom@);
    g
}

/// The seed of a family mixes the characters of its name one by one: an empty
/// name keeps the seed, and one character more multiplies and mixes it in.
pub proof fn loi_graine_nommee(seed: u64, nom: Seq<char>, c: char)
    ensures
        graine_nommee(seed, Seq::empty()) == seed,
        graine_nommee(seed, nom.push(c)) == graine_nommee(seed, nom).wrapping_mul(0x0100_0000_01B3)
            ^ (c as u64),
{
    assert(nom.push(c).drop_last() =~= nom);
}

} // verus!
