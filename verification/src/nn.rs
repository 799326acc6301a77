//! Value network: its shape, its file format, the columns that a sparse batch
//! touches, and the graft of a dense network into the king-relative encoding.
//!
//! Parameters are the binary32 patterns of the weights. Computing with them is
//! the business of the caller.
use vstd::prelude::*;

use crate::features::N_FEATURES;
use crate::features_roi::{N_FEATURES_ROI, N_ZONES_ROI};

verus! {

/// Encoding of a network's input.
#[derive(Debug, Clone, Copy, PartialEq, Eq, Structural)]
pub enum SchemaFeatures {
    /// Dense, 773 features.
    Classique773,
    /// Sparse and relative to the king, 6149 features.
    RoiZones8,
}

/// The byte that stands for an encoding.
pub open spec fn octet_schema(s: SchemaFeatures) -> u8 {
    match s {
        SchemaFeatures::Classique773 => 0,
        SchemaFeatures::RoiZones8 => 1,
    }
}

/// The encoding that a byte stands for.
pub open spec fn schema_de_octet(x: u8) -> Option<SchemaFeatures> {
    if x == 0 {
        Some(SchemaFeatures::Classique773)
    } else if x == 1 {
        Some(SchemaFeatures::RoiZones8)
    } else {
        None
    }
}

/// The encoding of a network with an input layer of that size.
pub open spec fn schema_de_taille(n: int) -> SchemaFeatures {
    if n == 6149 {
        SchemaFeatures::RoiZones8
    } else {
        SchemaFeatures::Classique773
    }
}

impl SchemaFeatures {
    /// Byte of the file format.
    pub fn en_u8(self) -> (r: u8)
        ensures
            r == octet_schema(self),
            schema_de_octet(r) == Some(self),
    {
        match self {
            SchemaFeatures::Classique773 => 0,
            SchemaFeatures::RoiZones8 => 1,
        }
    }

    /// Encoding of a byte of the file format.
    pub fn depuis_u8(x: u8) -> (r: Option<SchemaFeatures>)
        ensures
            r == schema_de_octet(x),
    {
        if x == 0 {
            Some(SchemaFeatures::Classique773)
        } else if x == 1 {
            Some(SchemaFeatures::RoiZones8)
        } else {
            None
        }
    }
}

/// A network: layer sizes, weights (rows by output), biases, and the two
/// moments of the optimiser for each; parameters as binary32 patterns.
pub struct Mlp {
    pub sizes: Vec<usize>,
    pub weights: Vec<Vec<u32>>,
    pub biases: Vec<Vec<u32>>,
    pub adam_mw: Vec<Vec<u32>>,
    pub adam_vw: Vec<Vec<u32>>,
    pub adam_mb: Vec<Vec<u32>>,
    pub adam_vb: Vec<Vec<u32>>,
    /// Steps of the optimiser.
    pub steps: u64,
}

/// What a network holds.
#[verifier::ext_equal]
pub struct VueMlp {
    pub sizes: Seq<usize>,
    pub weights: Seq<Seq<u32>>,
    pub biases: Seq<Seq<u32>>,
    pub adam_mw: Seq<Seq<u32>>,
    pub adam_vw: Seq<Seq<u32>>,
    pub adam_mb: Seq<Seq<u32>>,
    pub adam_vb: Seq<Seq<u32>>,
    pub steps: u64,
}

/// The views of a group of layers.
pub open spec fn couches(v: Seq<Vec<u32>>) -> Seq<Seq<u32>> {
    v.map_values(|x: Vec<u32>| x@)
}

impl View for Mlp {
    type V = VueMlp;

    open spec fn view(&self) -> VueMlp {
        VueMlp {
            sizes: self.sizes@,
            weights: couches(self.weights@),
            biases: couches(self.biases@),
            adam_mw: couches(self.adam_mw@),
            adam_vw: couches(self.adam_vw@),
            adam_mb: couches(self.adam_mb@),
            adam_vb: couches(self.adam_vb@),
            steps: self.steps,
        }
    }
}

/// Numbers of weights, layer by layer.
pub open spec fn tailles_poids(sizes: Seq<usize>) -> Seq<int> {
    Seq::new((sizes.len() - 1) as nat, |l: int| sizes[l] * sizes[l + 1])
}

/// Numbers of biases, layer by layer.
pub open spec fn tailles_biais(sizes: Seq<usize>) -> Seq<int> {
    Seq::new((sizes.len() - 1) as nat, |l: int| sizes[l + 1] as int)
}

/// The layers of a group have those sizes.
pub open spec fn groupe_forme(g: Seq<Seq<u32>>, tailles: Seq<int>) -> bool {
    g.len() == tailles.len() && forall|l: int|
        0 <= l < g.len() ==> (#[trigger] g[l]).len() == tailles[l]
}

/// A network whose parameters have the shape that its layer sizes ask for.
pub open spec fn forme(m: VueMlp) -> bool {
    &&& m.sizes.len() >= 2
    &&& groupe_forme(m.weights, tailles_poids(m.sizes))
    &&& groupe_forme(m.biases, tailles_biais(m.sizes))
    &&& groupe_forme(m.adam_mw, tailles_poids(m.sizes))
    &&& groupe_forme(m.adam_vw, tailles_poids(m.sizes))
    &&& groupe_forme(m.adam_mb, tailles_biais(m.sizes))
    &&& groupe_forme(m.adam_vb, tailles_biais(m.sizes))
}

// ---------------------------------------------------------------------------
// Bytes
// ---------------------------------------------------------------------------

/// The four bytes of a number, the lowest first.
pub open spec fn octets_u32(x: u32) -> Seq<u8> {
    seq![
        (x % 256) as u8,
        ((x / 256) % 256) as u8,
        ((x / 65536) % 256) as u8,
        (x / 16777216) as u8,
    ]
}

/// The eight bytes of a number, the lowest first.
pub open spec fn octets_u64(x: u64) -> Seq<u8> {
    octets_u32((x % 0x1_0000_0000) as u32) + octets_u32((x / 0x1_0000_0000) as u32)
}

/// The number that the four bytes at `p` write.
pub open spec fn u32_en(b: Seq<u8>, p: int) -> u32 {
    (b[p] + 256 * b[p + 1] + 65536 * b[p + 2] + 16777216 * b[p + 3]) as u32
}

/// The number that the eight bytes at `p` write.
pub open spec fn u64_en(b: Seq<u8>, p: int) -> u64 {
    (u32_en(b, p) + 0x1_0000_0000 * u32_en(b, p + 4)) as u64
}

/// The `t` numbers written from `p` on.
pub open spec fn mots_en(b: Seq<u8>, p: int, t: int) -> Seq<u32> {
    Seq::new(t as nat, |k: int| u32_en(b, p + 4 * k))
}

/// The bytes of the first `k` numbers.
pub open spec fn octets_mots(s: Seq<u32>, k: int) -> Seq<u8>
    decreases k,
{
    if k <= 0 {
        Seq::empty()
    } else {
        octets_mots(s, k - 1) + octets_u32(s[k - 1])
    }
}

/// The bytes of the first `k` layers of a group.
pub open spec fn octets_groupe(g: Seq<Seq<u32>>, k: int) -> Seq<u8>
    decreases k,
{
    if k <= 0 {
        Seq::empty()
    } else {
        octets_groupe(g, k - 1) + octets_mots(g[k - 1], g[k - 1].len() as int)
    }
}

/// The bytes of all parameters: weights, biases, first then second moments of
/// the weights, first then second moments of the biases.
#[verifier::opaque]
pub open spec fn octets_parametres(m: VueMlp) -> Seq<u8> {
    octets_groupe(m.weights, m.weights.len() as int) + octets_groupe(
        m.biases,
        m.biases.len() as int,
    ) + octets_groupe(m.adam_mw, m.adam_mw.len() as int) + octets_groupe(
        m.adam_vw,
        m.adam_vw.len() as int,
    ) + octets_groupe(m.adam_mb, m.adam_mb.len() as int) + octets_groupe(
        m.adam_vb,
        m.adam_vb.len() as int,
    )
}

/// Layer sizes as they are written, on thirty-two bits.
pub open spec fn tailles_ecrites(sizes: Seq<usize>) -> Seq<u32> {
    sizes.map_values(|s: usize| s as u32)
}

/// Mark of the current format: "ECHECNN2".
pub open spec fn magie2() -> Seq<u8> {
    seq![69u8, 67, 72, 69, 67, 78, 78, 50]
}

/// Mark of the older format: "ECHECNN1".
pub open spec fn magie1() -> Seq<u8> {
    seq![69u8, 67, 72, 69, 67, 78, 78, 49]
}

/// The file of a network: mark, number of layers, their sizes, byte of the
/// encoding, steps, parameters.
pub open spec fn fichier(m: VueMlp) -> Seq<u8> {
    magie2() + octets_u32(m.sizes.len() as u32) + octets_mots(
        tailles_ecrites(m.sizes),
        m.sizes.len() as int,
    ) + seq![octet_schema(schema_de_taille(m.sizes[0] as int))] + octets_u64(m.steps)
        + octets_parametres(m)
}

/// The file of a network in the older format, without the byte of the
/// encoding.
pub open spec fn fichier_v1(m: VueMlp) -> Seq<u8> {
    magie1() + octets_u32(m.sizes.len() as u32) + octets_mots(
        tailles_ecrites(m.sizes),
        m.sizes.len() as int,
    ) + octets_u64(m.steps) + octets_parametres(m)
}

/// Why a file is not a network.
#[derive(Debug, Clone, Copy, PartialEq, Eq, Structural)]
pub enum ErreurModele {
    /// The file ends too early.
    Tronque,
    /// The mark is neither that of the current nor that of the older format.
    MauvaisMagic,
    /// Fewer than two layers.
    TropPeuDeCouches,
    /// Unknown byte of the encoding.
    SchemaInconnu(u8),
    /// The encoding does not go with the size of the input layer.
    SchemaIncoherent,
}

/// The first `k` layers of those sizes from `p` on, and where they end.
pub open spec fn groupe_lu(b: Seq<u8>, p: int, tailles: Seq<int>, k: int) -> Option<
    (Seq<Seq<u32>>, int),
>
    decreases k,
{
    if k <= 0 {
        Some((Seq::empty(), p))
    } else {
        match groupe_lu(b, p, tailles, k - 1) {
            None => None,
            Some((g, q)) => if q + 4 * tailles[k - 1] <= b.len() {
                Some((g.push(mots_en(b, q, tailles[k - 1])), q + 4 * tailles[k - 1]))
            } else {
                None
            },
        }
    }
}

/// The group of all layers of those sizes.
pub open spec fn tout_groupe(b: Seq<u8>, p: int, tailles: Seq<int>) -> Option<
    (Seq<Seq<u32>>, int),
> {
    groupe_lu(b, p, tailles, tailles.len() as int)
}

/// The network whose sizes and steps are known and whose parameters start at
/// `p`.
#[verifier::opaque]
pub open spec fn parametres_lus(b: Seq<u8>, p: int, sizes: Seq<usize>, steps: u64) -> Result<
    VueMlp,
    ErreurModele,
> {
    let tw = tailles_poids(sizes);
    let tb = tailles_biais(sizes);
    match tout_groupe(b, p, tw) {
        None => Err(ErreurModele::Tronque),
        Some((weights, p1)) => match tout_groupe(b, p1, tb) {
            None => Err(ErreurModele::Tronque),
            Some((biases, p2)) => match tout_groupe(b, p2, tw) {
                None => Err(ErreurModele::Tronque),
                Some((adam_mw, p3)) => match tout_groupe(b, p3, tw) {
                    None => Err(ErreurModele::Tronque),
                    Some((adam_vw, p4)) => match tout_groupe(b, p4, tb) {
                        None => Err(ErreurModele::Tronque),
                        Some((adam_mb, p5)) => match tout_groupe(b, p5, tb) {
                            None => Err(ErreurModele::Tronque),
                            Some((adam_vb, p6)) => Ok(
                                VueMlp {
                                    sizes,
                                    weights,
                                    biases,
                                    adam_mw,
                                    adam_vw,
                                    adam_mb,
                                    adam_vb,
                                    steps,
                                },
                            ),
                        },
                    },
                },
            },
        },
    }
}

/// The network in a file whose steps start at `p`.
pub open spec fn suite_lue(b: Seq<u8>, p: int, sizes: Seq<usize>) -> Result<VueMlp, ErreurModele> {
    if p + 8 > b.len() {
        Err(ErreurModele::Tronque)
    } else {
        parametres_lus(b, p + 8, sizes, u64_en(b, p))
    }
}

/// The network in a file. What follows it is ignored.
#[verifier::opaque]
pub open spec fn modele_lu(b: Seq<u8>) -> Result<VueMlp, ErreurModele> {
    if b.len() < 8 {
        Err(ErreurModele::Tronque)
    } else if b.take(8) != magie2() && b.take(8) != magie1() {
        Err(ErreurModele::MauvaisMagic)
    } else if b.len() < 12 {
        Err(ErreurModele::Tronque)
    } else {
        let n = u32_en(b, 8) as int;
        let fin = 12 + 4 * n;
        let sizes = Seq::new(n as nat, |k: int| u32_en(b, 12 + 4 * k) as usize);
        if n < 2 {
            Err(ErreurModele::TropPeuDeCouches)
        } else if fin > b.len() {
            Err(ErreurModele::Tronque)
        } else if b.take(8) == magie1() {
            suite_lue(b, fin, sizes)
        } else if fin + 1 > b.len() {
            Err(ErreurModele::Tronque)
        } else {
            match schema_de_octet(b[fin]) {
                None => Err(ErreurModele::SchemaInconnu(b[fin])),
                Some(s) => if s != schema_de_taille(sizes[0] as int) {
                    Err(ErreurModele::SchemaIncoherent)
                } else {
                    suite_lue(b, fin + 1, sizes)
                },
            }
        }
    }
}

/// What a result of reading says.
pub open spec fn vue_resultat(r: Result<Mlp, ErreurModele>) -> Result<VueMlp, ErreurModele> {
    match r {
        Ok(m) => Ok(m@),
        Err(e) => Err(e),
    }
}

fn lit_u32(b: &Vec<u8>, p: usize) -> (r: u32)
    requires
        p + 4 <= b@.len(),
    ensures
        r == u32_en(b@, p as int),
{
    let total: usize = b.len();
    assert(p + 4 <= total);
    let b0: u64 = b[p] as u64;
    let b1: u64 = b[p + 1] as u64;
    let b2: u64 = b[p + 2] as u64;
    let b3: u64 = b[p + 3] as u64;
    (b0 + 256 * b1 + 65536 * b2 + 16777216 * b3) as u32
}

fn lit_mots(b: &Vec<u8>, p: usize, t: usize) -> (r: Vec<u32>)
    requires
        p + 4 * t <= b@.len(),
    ensures
        r@ == mots_en(b@, p as int, t as int),
{
    let total: usize = b.len();
    let mut r: Vec<u32> = Vec::new();
    let mut k: usize = 0;
    while k < t
        invariant
            k <= t,
            total == b@.len(),
            p + 4 * t <= b@.len(),
            r@.len() == k,
            forall|i: int| 0 <= i < k ==> #[trigger] r@[i] == u32_en(b@, p + 4 * i),
        decreases t - k,
    {
        r.push(lit_u32(b, p + 4 * k));
        k += 1;
    }
    assert(r@ =~= mots_en(b@, p as int, t as int));
    r
}

/// The sizes of a group, as numbers that may be large.
spec fn tailles_vraies(t: Seq<u64>) -> Seq<int> {
    t.map_values(|x: u64| x as int)
}

/// Reads the layers of a group.
fn lit_groupe(b: &Vec<u8>, p: usize, tailles: &Vec<u64>) -> (r: Option<(Vec<Vec<u32>>, usize)>)
    requires
        p <= b@.len(),
    ensures
        match r {
            Some((g, q)) => tout_groupe(b@, p as int, tailles_vraies(tailles@)) == Some(
                (couches(g@), q as int),
            ) && q <= b@.len(),
            None => tout_groupe(b@, p as int, tailles_vraies(tailles@)) is None,
        },
{
    let ghost tv = tailles_vraies(tailles@);
    let mut g: Vec<Vec<u32>> = Vec::new();
    let mut q: usize = p;
    let mut k: usize = 0;
    assert(couches(g@) =~= Seq::<Seq<u32>>::empty());
    while k < tailles.len()
        invariant
            k <= tailles@.len(),
            tv == tailles_vraies(tailles@),
            q <= b@.len(),
            groupe_lu(b@, p as int, tv, k as int) == Some((couches(g@), q as int)),
        decreases tailles.len() - k,
    {
        let t: u64 = tailles[k];
        assert(tv[k as int] == t);
        let reste: usize = b.len() - q;
        if t > (reste / 4) as u64 {
            assert(groupe_lu(b@, p as int, tv, k as int + 1) is None);
            proof {
                lemme_groupe_echec(b@, p as int, tv, k as int + 1, tv.len() as int);
            }
            return None;
        }
        let t: usize = t as usize;
        let ghost avant = couches(g@);
        let couche: Vec<u32> = lit_mots(b, q, t);
        let ghost vue = couche@;
        g.push(couche);
        assert(couches(g@) =~= avant.push(vue));
        q = q + 4 * t;
        k += 1;
    }
    Some((g, q))
}

proof fn lemme_groupe_echec(b: Seq<u8>, p: int, tailles: Seq<int>, k: int, n: int)
    requires
        k <= n,
        groupe_lu(b, p, tailles, k) is None,
    ensures
        groupe_lu(b, p, tailles, n) is None,
    decreases n - k,
{
    if k < n {
        lemme_groupe_echec(b, p, tailles, k, n - 1);
    }
}

proof fn lemme_groupe_lu_forme(b: Seq<u8>, p: int, tailles: Seq<int>, k: int)
    requires
        0 <= k <= tailles.len(),
        groupe_lu(b, p, tailles, k) is Some,
        forall|l: int| 0 <= l < tailles.len() ==> #[trigger] tailles[l] >= 0,
    ensures
        (groupe_lu(b, p, tailles, k)->0).0.len() == k,
        forall|l: int|
            0 <= l < k ==> (#[trigger] (groupe_lu(b, p, tailles, k)->0).0[l]).len() == tailles[l],
    decreases k,
{
    if k > 0 {
        lemme_groupe_lu_forme(b, p, tailles, k - 1);
    }
}

/// Does the file start with the eight bytes of a mark ending in `fin`?
fn marque(b: &Vec<u8>, fin: u8) -> (r: bool)
    requires
        b@.len() >= 8,
    ensures
        r == (b@.take(8) == seq![69u8, 67, 72, 69, 67, 78, 78, fin]),
{
    let r: bool = b[0] == 69 && b[1] == 67 && b[2] == 72 && b[3] == 69 && b[4] == 67 && b[5] == 78
        && b[6] == 78 && b[7] == fin;
    let ghost m = seq![69u8, 67, 72, 69, 67, 78, 78, fin];
    proof {
        if r {
            assert(b@.take(8) =~= m);
        } else {
            assert(b@.take(8)[0] == b@[0] && b@.take(8)[1] == b@[1] && b@.take(8)[2] == b@[2]
                && b@.take(8)[3] == b@[3] && b@.take(8)[4] == b@[4] && b@.take(8)[5] == b@[5]
                && b@.take(8)[6] == b@[6] && b@.take(8)[7] == b@[7]);
            assert(m[0] == 69 && m[1] == 67 && m[2] == 72 && m[3] == 69 && m[4] == 67 && m[5] == 78
                && m[6] == 78 && m[7] == fin);
        }
    }
    r
}

/// Numbers of weights and of biases, layer by layer.
fn tailles_des_couches(sizes: &Vec<usize>) -> (r: (Vec<u64>, Vec<u64>))
    requires
        sizes@.len() >= 1,
        forall|i: int| 0 <= i < sizes@.len() ==> #[trigger] sizes@[i] <= 0xFFFF_FFFF,
    ensures
        tailles_vraies(r.0@) == tailles_poids(sizes@),
        tailles_vraies(r.1@) == tailles_biais(sizes@),
{
    let mut w: Vec<u64> = Vec::new();
    let mut b: Vec<u64> = Vec::new();
    let n: usize = sizes.len() - 1;
    let mut l: usize = 0;
    while l < n
        invariant
            n == sizes@.len() - 1,
            l <= n,
            forall|i: int| 0 <= i < sizes@.len() ==> #[trigger] sizes@[i] <= 0xFFFF_FFFF,
            w@.len() == l,
            b@.len() == l,
            forall|i: int| 0 <= i < l ==> #[trigger] w@[i] == sizes@[i] * sizes@[i + 1],
            forall|i: int| 0 <= i < l ==> #[trigger] b@[i] == sizes@[i + 1],
        decreases n - l,
    {
        let x: u64 = sizes[l] as u64;
        let y: u64 = sizes[l + 1] as u64;
        assert(x * y <= 0xFFFF_FFFF * 0xFFFF_FFFF) by (nonlinear_arith)
            requires
                x <= 0xFFFF_FFFF,
                y <= 0xFFFF_FFFF,
        ;
        w.push(x * y);
        b.push(y);
        l += 1;
    }
    assert(tailles_vraies(w@) =~= tailles_poids(sizes@));
    assert(tailles_vraies(b@) =~= tailles_biais(sizes@));
    (w, b)
}

fn lit_parametres(b: &Vec<u8>, p: usize, sizes: Vec<usize>, steps: u64) -> (r: Result<
    Mlp,
    ErreurModele,
>)
    requires
        p <= b@.len(),
        sizes@.len() >= 2,
        forall|i: int| 0 <= i < sizes@.len() ==> #[trigger] sizes@[i] <= 0xFFFF_FFFF,
    ensures
        vue_resultat(r) == parametres_lus(b@, p as int, sizes@, steps),
{
    proof {
        reveal(parametres_lus);
    }
    let (tw, tb) = tailles_des_couches(&sizes);
    let (weights, p1) = match lit_groupe(b, p, &tw) {
        Some(x) => x,
        None => return Err(ErreurModele::Tronque),
    };
    let (biases, p2) = match lit_groupe(b, p1, &tb) {
        Some(x) => x,
        None => return Err(ErreurModele::Tronque),
    };
    let (adam_mw, p3) = match lit_groupe(b, p2, &tw) {
        Some(x) => x,
        None => return Err(ErreurModele::Tronque),
    };
    let (adam_vw, p4) = match lit_groupe(b, p3, &tw) {
        Some(x) => x,
        None => return Err(ErreurModele::Tronque),
    };
    let (adam_mb, p5) = match lit_groupe(b, p4, &tb) {
        Some(x) => x,
        None => return Err(ErreurModele::Tronque),
    };
    let (adam_vb, _p6) = match lit_groupe(b, p5, &tb) {
        Some(x) => x,
        None => return Err(ErreurModele::Tronque),
    };
    Ok(Mlp { sizes, weights, biases, adam_mw, adam_vw, adam_mb, adam_vb, steps })
}

fn lit_suite(b: &Vec<u8>, p: usize, sizes: Vec<usize>) -> (r: Result<Mlp, ErreurModele>)
    requires
        p <= b@.len(),
        sizes@.len() >= 2,
        forall|i: int| 0 <= i < sizes@.len() ==> #[trigger] sizes@[i] <= 0xFFFF_FFFF,
    ensures
        vue_resultat(r) == suite_lue(b@, p as int, sizes@),
{
    if b.len() - p < 8 {
        return Err(ErreurModele::Tronque);
    }
    let bas: u64 = lit_u32(b, p) as u64;
    let haut: u64 = lit_u32(b, p + 4) as u64;
    let steps: u64 = bas + 0x1_0000_0000 * haut;
    lit_parametres(b, p + 8, sizes, steps)
}

impl Mlp {
    /// Reads a network out of the bytes of its file, in the current or the
    /// older format.
    pub fn load(b: &Vec<u8>) -> (r: Result<Mlp, ErreurModele>)
        ensures
            vue_resultat(r) == modele_lu(b@),
            r matches Ok(m) ==> forme(m@),
    {
        let r: Result<Mlp, ErreurModele> = Self::lit(b);
        proof {
            if r is Ok {
                lemme_lu_forme(b@);
            }
        }
        r
    }

    fn lit(b: &Vec<u8>) -> (r: Result<Mlp, ErreurModele>)
        ensures
            vue_resultat(r) == modele_lu(b@),
    {
        proof {
            reveal(modele_lu);
        }
        if b.len() < 8 {
            return Err(ErreurModele::Tronque);
        }
        let v2: bool = marque(b, 50);
        let v1: bool = marque(b, 49);
        proof {
            assert(magie1()[7] == 49 && magie2()[7] == 50);
        }
        if !v2 && !v1 {
            return Err(ErreurModele::MauvaisMagic);
        }
        if b.len() < 12 {
            return Err(ErreurModele::Tronque);
        }
        let n: usize = lit_u32(b, 8) as usize;
        if n < 2 {
            return Err(ErreurModele::TropPeuDeCouches);
        }
        if n > (b.len() - 12) / 4 {
            return Err(ErreurModele::Tronque);
        }
        let ghost attendu = Seq::new(n as nat, |k: int| u32_en(b@, 12 + 4 * k) as usize);
        let total: usize = b.len();
        let mut sizes: Vec<usize> = Vec::new();
        let mut k: usize = 0;
        while k < n
            invariant
                k <= n,
                total == b@.len(),
                12 + 4 * n <= b@.len(),
                sizes@.len() == k,
                forall|i: int|
                    0 <= i < k ==> #[trigger] sizes@[i] == u32_en(b@, 12 + 4 * i) as usize,
                forall|i: int| 0 <= i < k ==> #[trigger] sizes@[i] <= 0xFFFF_FFFF,
            decreases n - k,
        {
            sizes.push(lit_u32(b, 12 + 4 * k) as usize);
            k += 1;
        }
        assert(sizes@ =~= attendu);
        let fin: usize = 12 + 4 * n;
        if v1 {
            return lit_suite(b, fin, sizes);
        }
        if fin >= b.len() {
            return Err(ErreurModele::Tronque);
        }
        let octet: u8 = b[fin];
        match SchemaFeatures::depuis_u8(octet) {
            None => Err(ErreurModele::SchemaInconnu(octet)),
            Some(s) => {
                let voulu: SchemaFeatures = if sizes[0] == N_FEATURES_ROI {
                    SchemaFeatures::RoiZones8
                } else {
                    SchemaFeatures::Classique773
                };
                if s != voulu {
                    Err(ErreurModele::SchemaIncoherent)
                } else {
                    lit_suite(b, fin + 1, sizes)
                }
            },
        }
    }

    /// Encoding of the network's input, told by the size of its input layer.
    pub fn schema(&self) -> (r: SchemaFeatures)
        requires
            self@.sizes.len() >= 1,
        ensures
            r == schema_de_taille(self@.sizes[0] as int),
    {
        if self.sizes[0] == N_FEATURES_ROI {
            SchemaFeatures::RoiZones8
        } else {
            SchemaFeatures::Classique773
        }
    }
}

proof fn lemme_suite_forme(b: Seq<u8>, p: int, sizes: Seq<usize>)
    requires
        sizes.len() >= 2,
        suite_lue(b, p, sizes) is Ok,
    ensures
        forme(suite_lue(b, p, sizes)->Ok_0),
{
    reveal(parametres_lus);
    let tw = tailles_poids(sizes);
    let tb = tailles_biais(sizes);
    assert forall|l: int| 0 <= l < tw.len() implies #[trigger] tw[l] >= 0 by {
        assert(sizes[l] * sizes[l + 1] >= 0) by (nonlinear_arith)
            requires
                sizes[l] >= 0,
                sizes[l + 1] >= 0,
        ;
    }
    let p0 = p + 8;
    let g1 = tout_groupe(b, p0, tw)->0;
    lemme_groupe_lu_forme(b, p0, tw, tw.len() as int);
    let g2 = tout_groupe(b, g1.1, tb)->0;
    lemme_groupe_lu_forme(b, g1.1, tb, tb.len() as int);
    let g3 = tout_groupe(b, g2.1, tw)->0;
    lemme_groupe_lu_forme(b, g2.1, tw, tw.len() as int);
    let g4 = tout_groupe(b, g3.1, tw)->0;
    lemme_groupe_lu_forme(b, g3.1, tw, tw.len() as int);
    let g5 = tout_groupe(b, g4.1, tb)->0;
    lemme_groupe_lu_forme(b, g4.1, tb, tb.len() as int);
    lemme_groupe_lu_forme(b, g5.1, tb, tb.len() as int);
}

proof fn lemme_lu_forme(b: Seq<u8>)
    requires
        modele_lu(b) is Ok,
    ensures
        forme(modele_lu(b)->Ok_0),
{
    reveal(modele_lu);
    let n = u32_en(b, 8) as int;
    let fin = 12 + 4 * n;
    let sizes = Seq::new(n as nat, |k: int| u32_en(b, 12 + 4 * k) as usize);
    if b.take(8) == magie1() {
        lemme_suite_forme(b, fin, sizes);
    } else {
        lemme_suite_forme(b, fin + 1, sizes);
    }
}


// ---------------------------------------------------------------------------
// Writing
// ---------------------------------------------------------------------------

fn ecrit_u32(b: &mut Vec<u8>, x: u32)
    ensures
        final(b)@ == old(b)@ + octets_u32(x),
{
    b.push((x % 256) as u8);
    b.push(((x / 256) % 256) as u8);
    b.push(((x / 65536) % 256) as u8);
    b.push((x / 16777216) as u8);
    assert(b@ =~= old(b)@ + octets_u32(x));
}

fn ecrit_mots(b: &mut Vec<u8>, s: &Vec<u32>)
    ensures
        final(b)@ == old(b)@ + octets_mots(s@, s@.len() as int),
{
    let mut k: usize = 0;
    assert(old(b)@ + octets_mots(s@, 0) =~= old(b)@);
    while k < s.len()
        invariant
            k <= s@.len(),
            b@ == old(b)@ + octets_mots(s@, k as int),
        decreases s.len() - k,
    {
        ecrit_u32(b, s[k]);
        assert(b@ =~= old(b)@ + octets_mots(s@, k as int + 1));
        k += 1;
    }
}

fn ecrit_groupe(b: &mut Vec<u8>, g: &Vec<Vec<u32>>)
    ensures
        final(b)@ == old(b)@ + octets_groupe(couches(g@), g@.len() as int),
{
    let ghost gv = couches(g@);
    let mut k: usize = 0;
    assert(old(b)@ + octets_groupe(gv, 0) =~= old(b)@);
    while k < g.len()
        invariant
            k <= g@.len(),
            gv == couches(g@),
            b@ == old(b)@ + octets_groupe(gv, k as int),
        decreases g.len() - k,
    {
        assert(gv[k as int] == g@[k as int]@);
        ecrit_mots(b, &g[k]);
        assert(b@ =~= old(b)@ + octets_groupe(gv, k as int + 1));
        k += 1;
    }
}

impl Mlp {
    /// The bytes of the network's file, in the current format. Sizes are
    /// written on thirty-two bits.
    pub fn save(&self) -> (r: Vec<u8>)
        requires
            self@.sizes.len() >= 1,
        ensures
            r@ == fichier(self@),
    {
        proof {
            reveal(octets_parametres);
        }
        let mut b: Vec<u8> = Vec::new();
        b.push(69);
        b.push(67);
        b.push(72);
        b.push(69);
        b.push(67);
        b.push(78);
        b.push(78);
        b.push(50);
        assert(b@ =~= magie2());
        ecrit_u32(&mut b, self.sizes.len() as u32);
        let ghost avant = b@;
        let ghost te = tailles_ecrites(self.sizes@);
        let mut k: usize = 0;
        assert(avant + octets_mots(te, 0) =~= avant);
        while k < self.sizes.len()
            invariant
                k <= self.sizes@.len(),
                te == tailles_ecrites(self.sizes@),
                b@ == avant + octets_mots(te, k as int),
            decreases self.sizes.len() - k,
        {
            assert(te[k as int] == self.sizes@[k as int] as u32);
            ecrit_u32(&mut b, self.sizes[k] as u32);
            assert(b@ =~= avant + octets_mots(te, k as int + 1));
            k += 1;
        }
        let octet: u8 = self.schema().en_u8();
        let ghost avant = b@;
        b.push(octet);
        assert(b@ =~= avant + seq![octet]);
        ecrit_u32(&mut b, (self.steps % 0x1_0000_0000) as u32);
        ecrit_u32(&mut b, (self.steps / 0x1_0000_0000) as u32);
        assert(b@ =~= avant + seq![octet] + octets_u64(self.steps));
        let ghost avant = b@;
        ecrit_groupe(&mut b, &self.weights);
        ecrit_groupe(&mut b, &self.biases);
        ecrit_groupe(&mut b, &self.adam_mw);
        ecrit_groupe(&mut b, &self.adam_vw);
        ecrit_groupe(&mut b, &self.adam_mb);
        ecrit_groupe(&mut b, &self.adam_vb);
        assert(b@ =~= avant + octets_parametres(self@));
        b
    }
}

// ---------------------------------------------------------------------------
// What is written is read back
// ---------------------------------------------------------------------------

proof fn lemme_u32(b: Seq<u8>, p: int, x: u32)
    requires
        0 <= p,
        p + 4 <= b.len(),
        b.subrange(p, p + 4) == octets_u32(x),
    ensures
        u32_en(b, p) == x,
{
    let s = b.subrange(p, p + 4);
    assert(s[0] == b[p] && s[1] == b[p + 1] && s[2] == b[p + 2] && s[3] == b[p + 3]);
    let o = octets_u32(x);
    assert(o[0] == (x % 256) as u8 && o[1] == ((x / 256) % 256) as u8);
    assert(o[2] == ((x / 65536) % 256) as u8 && o[3] == (x / 16777216) as u8);
    assert(x == x % 256 + 256 * ((x / 256) % 256) + 65536 * ((x / 65536) % 256) + 16777216 * (x
        / 16777216));
}

proof fn lemme_len_mots(s: Seq<u32>, k: int)
    requires
        0 <= k,
    ensures
        octets_mots(s, k).len() == 4 * k,
    decreases k,
{
    if k > 0 {
        lemme_len_mots(s, k - 1);
    }
}

proof fn lemme_mots(b: Seq<u8>, p: int, s: Seq<u32>, k: int)
    requires
        0 <= p,
        0 <= k <= s.len(),
        p + 4 * k <= b.len(),
        b.subrange(p, p + 4 * k) == octets_mots(s, k),
    ensures
        forall|i: int| 0 <= i < k ==> u32_en(b, p + 4 * i) == #[trigger] s[i],
    decreases k,
{
    if k > 0 {
        let t = octets_mots(s, k);
        lemme_len_mots(s, k - 1);
        let q = p + 4 * (k - 1);
        assert(b.subrange(p, q) =~= octets_mots(s, k - 1)) by {
            assert forall|i: int| 0 <= i < 4 * (k - 1) implies #[trigger] b.subrange(p, q)[i] == octets_mots(
                s,
                k - 1,
            )[i] by {
                assert(b.subrange(p, p + 4 * k)[i] == t[i]);
            }
        }
        assert(b.subrange(q, q + 4) =~= octets_u32(s[k - 1])) by {
            assert forall|i: int| 0 <= i < 4 implies #[trigger] b.subrange(q, q + 4)[i] == octets_u32(
                s[k - 1],
            )[i] by {
                assert(b.subrange(p, p + 4 * k)[4 * (k - 1) + i] == t[4 * (k - 1) + i]);
            }
        }
        lemme_mots(b, p, s, k - 1);
        lemme_u32(b, q, s[k - 1]);
    }
}

/// Length of the first `k` layers of those sizes, in bytes.
pub open spec fn octets_des_tailles(tailles: Seq<int>, k: int) -> int
    decreases k,
{
    if k <= 0 {
        0
    } else {
        octets_des_tailles(tailles, k - 1) + 4 * tailles[k - 1]
    }
}

proof fn lemme_len_groupe(g: Seq<Seq<u32>>, tailles: Seq<int>, k: int)
    requires
        groupe_forme(g, tailles),
        0 <= k <= g.len(),
    ensures
        octets_groupe(g, k).len() == octets_des_tailles(tailles, k),
        octets_des_tailles(tailles, k) >= 0,
    decreases k,
{
    if k > 0 {
        lemme_len_groupe(g, tailles, k - 1);
        lemme_len_mots(g[k - 1], g[k - 1].len() as int);
    }
}

/// A group that stands at `p` is read back.
proof fn lemme_groupe_relu(b: Seq<u8>, p: int, g: Seq<Seq<u32>>, tailles: Seq<int>, k: int)
    requires
        groupe_forme(g, tailles),
        0 <= k <= g.len(),
        0 <= p,
        p + octets_des_tailles(tailles, k) <= b.len(),
        b.subrange(p, p + octets_des_tailles(tailles, k)) == octets_groupe(g, k),
    ensures
        groupe_lu(b, p, tailles, k) == Some((g.take(k), p + octets_des_tailles(tailles, k))),
    decreases k,
{
    if k > 0 {
        let n = octets_des_tailles(tailles, k);
        let m = octets_des_tailles(tailles, k - 1);
        lemme_len_groupe(g, tailles, k - 1);
        lemme_len_groupe(g, tailles, k);
        let t = octets_groupe(g, k);
        let c = g[k - 1];
        lemme_len_mots(c, c.len() as int);
        assert(b.subrange(p, p + m) =~= octets_groupe(g, k - 1)) by {
            assert forall|i: int| 0 <= i < m implies #[trigger] b.subrange(p, p + m)[i] == octets_groupe(
                g,
                k - 1,
            )[i] by {
                assert(b.subrange(p, p + n)[i] == t[i]);
            }
        }
        lemme_groupe_relu(b, p, g, tailles, k - 1);
        let q = p + m;
        assert(b.subrange(q, q + 4 * c.len()) =~= octets_mots(c, c.len() as int)) by {
            assert forall|i: int| 0 <= i < 4 * c.len() implies #[trigger] b.subrange(q, q + 4 * c.len())[i]
                == octets_mots(c, c.len() as int)[i] by {
                assert(b.subrange(p, p + n)[m + i] == t[m + i]);
            }
        }
        lemme_mots(b, q, c, c.len() as int);
        assert(mots_en(b, q, tailles[k - 1]) =~= c);
        assert(g.take(k - 1).push(c) =~= g.take(k));
    } else {
        assert(g.take(0) =~= Seq::empty());
    }
}

proof fn lemme_groupe_entier(b: Seq<u8>, pre: Seq<u8>, g: Seq<Seq<u32>>, tailles: Seq<int>, post: Seq<u8>)
    requires
        groupe_forme(g, tailles),
        b == pre + octets_groupe(g, g.len() as int) + post,
    ensures
        tout_groupe(b, pre.len() as int, tailles) == Some(
            (g, (pre + octets_groupe(g, g.len() as int)).len() as int),
        ),
{
    let n = g.len() as int;
    lemme_len_groupe(g, tailles, n);
    let p = pre.len() as int;
    assert(b.subrange(p, p + octets_des_tailles(tailles, n)) =~= octets_groupe(g, n));
    lemme_groupe_relu(b, p, g, tailles, n);
    assert(g.take(n) =~= g);
}

proof fn lemme_six_groupes(
    pre: Seq<u8>,
    o1: Seq<u8>,
    o2: Seq<u8>,
    o3: Seq<u8>,
    o4: Seq<u8>,
    o5: Seq<u8>,
    o6: Seq<u8>,
    post: Seq<u8>,
)
    ensures
        ({
            let b = pre + (o1 + o2 + o3 + o4 + o5 + o6) + post;
            let p1 = pre + o1;
            let p2 = p1 + o2;
            let p3 = p2 + o3;
            let p4 = p3 + o4;
            let p5 = p4 + o5;
            let s5 = o6 + post;
            let s4 = o5 + s5;
            let s3 = o4 + s4;
            let s2 = o3 + s3;
            let s1 = o2 + s2;
            &&& b == pre + o1 + s1
            &&& b == p1 + o2 + s2
            &&& b == p2 + o3 + s3
            &&& b == p3 + o4 + s4
            &&& b == p4 + o5 + s5
            &&& b == p5 + o6 + post
        }),
{
    let p1 = pre + o1;
    let p2 = p1 + o2;
    let p3 = p2 + o3;
    let p4 = p3 + o4;
    let p5 = p4 + o5;
    let s5 = o6 + post;
    let s4 = o5 + s5;
    let s3 = o4 + s4;
    let s2 = o3 + s3;
    let s1 = o2 + s2;
    assert(pre + (o1 + o2 + o3 + o4 + o5 + o6) + post =~= p5 + o6 + post);
    assert(p5 + o6 + post =~= p5 + s5);
    assert(p4 + o5 + s5 =~= p4 + s4);
    assert(p3 + o4 + s4 =~= p3 + s3);
    assert(p2 + o3 + s3 =~= p2 + s2);
    assert(p1 + o2 + s2 =~= p1 + s1);
}

/// Parameters that stand behind `pre` are read back.
proof fn lemme_parametres_relus(b: Seq<u8>, pre: Seq<u8>, m: VueMlp, post: Seq<u8>)
    requires
        forme(m),
        b == pre + octets_parametres(m) + post,
    ensures
        parametres_lus(b, pre.len() as int, m.sizes, m.steps) == Ok::<VueMlp, ErreurModele>(m),
{
    reveal(parametres_lus);
    reveal(octets_parametres);
    let o1 = octets_groupe(m.weights, m.weights.len() as int);
    let o2 = octets_groupe(m.biases, m.biases.len() as int);
    let o3 = octets_groupe(m.adam_mw, m.adam_mw.len() as int);
    let o4 = octets_groupe(m.adam_vw, m.adam_vw.len() as int);
    let o5 = octets_groupe(m.adam_mb, m.adam_mb.len() as int);
    let o6 = octets_groupe(m.adam_vb, m.adam_vb.len() as int);
    let tw = tailles_poids(m.sizes);
    let tb = tailles_biais(m.sizes);
    lemme_six_groupes(pre, o1, o2, o3, o4, o5, o6, post);
    let p1 = pre + o1;
    let p2 = p1 + o2;
    let p3 = p2 + o3;
    let p4 = p3 + o4;
    let p5 = p4 + o5;
    let s5 = o6 + post;
    let s4 = o5 + s5;
    let s3 = o4 + s4;
    let s2 = o3 + s3;
    let s1 = o2 + s2;
    lemme_groupe_entier(b, pre, m.weights, tw, s1);
    lemme_groupe_entier(b, p1, m.biases, tb, s2);
    lemme_groupe_entier(b, p2, m.adam_mw, tw, s3);
    lemme_groupe_entier(b, p3, m.adam_vw, tw, s4);
    lemme_groupe_entier(b, p4, m.adam_mb, tb, s5);
    lemme_groupe_entier(b, p5, m.adam_vb, tb, post);
}

proof fn lemme_suite_relue(b: Seq<u8>, pre: Seq<u8>, m: VueMlp, post: Seq<u8>)
    requires
        forme(m),
        b == pre + octets_u64(m.steps) + octets_parametres(m) + post,
    ensures
        suite_lue(b, pre.len() as int, m.sizes) == Ok::<VueMlp, ErreurModele>(m),
{
    let p = pre.len() as int;
    let x = m.steps;
    let bas = (x % 0x1_0000_0000) as u32;
    let haut = (x / 0x1_0000_0000) as u32;
    assert(b.subrange(p, p + 4) =~= octets_u32(bas));
    assert(b.subrange(p + 4, p + 8) =~= octets_u32(haut));
    lemme_u32(b, p, bas);
    lemme_u32(b, p + 4, haut);
    assert(u64_en(b, p) == x);
    let q = pre + octets_u64(x);
    assert(q.len() == p + 8);
    assert(b =~= q + octets_parametres(m) + post);
    lemme_parametres_relus(b, q, m, post);
}

/// Sizes that fit the file format.
pub open spec fn tailles_ecrivables(sizes: Seq<usize>) -> bool {
    &&& 2 <= sizes.len() <= u32::MAX
    &&& forall|i: int| 0 <= i < sizes.len() ==> #[trigger] sizes[i] <= u32::MAX
}

proof fn lemme_entete(b: Seq<u8>, magie: Seq<u8>, sizes: Seq<usize>, reste: Seq<u8>)
    requires
        magie.len() == 8,
        tailles_ecrivables(sizes),
        b == magie + octets_u32(sizes.len() as u32) + octets_mots(
            tailles_ecrites(sizes),
            sizes.len() as int,
        ) + reste,
    ensures
        b.take(8) == magie,
        b.len() == 12 + 4 * sizes.len() + reste.len(),
        u32_en(b, 8) == sizes.len(),
        Seq::new(sizes.len(), |k: int| u32_en(b, 12 + 4 * k) as usize) == sizes,
        reste.len() > 0 ==> b[12 + 4 * sizes.len() as int] == reste[0],
{
    let n = sizes.len() as int;
    let te = tailles_ecrites(sizes);
    lemme_len_mots(te, n);
    assert(b.take(8) =~= magie);
    assert(b.subrange(8, 12) =~= octets_u32(n as u32));
    lemme_u32(b, 8, n as u32);
    assert(b.subrange(12, 12 + 4 * n) =~= octets_mots(te, n));
    lemme_mots(b, 12, te, n);
    assert forall|k: int| 0 <= k < n implies (#[trigger] u32_en(b, 12 + 4 * k)) as usize == sizes[k] by {
        assert(te[k] == sizes[k] as u32);
        assert(u32_en(b, 12 + 4 * k) == te[k]);
    }
    assert(Seq::new(sizes.len(), |k: int| u32_en(b, 12 + 4 * k) as usize) =~= sizes);
}

proof fn lemme_fichier_reparti(
    h: Seq<u8>,
    n: Seq<u8>,
    t: Seq<u8>,
    o: Seq<u8>,
    p: Seq<u8>,
    q: Seq<u8>,
    reste: Seq<u8>,
)
    ensures
        h + n + t + o + p + q + reste == h + n + t + (o + (p + q) + reste),
        h + n + t + o + p + q + reste == (h + n + t + o) + p + q + reste,
        h + n + t + p + q + reste == h + n + t + ((p + q) + reste),
{
    let e = h + n + t;
    assert(e + o + p + q + reste =~= e + (o + (p + q) + reste));
    assert(e + p + q + reste =~= e + ((p + q) + reste));
}

proof fn lemme_modele_courant(b: Seq<u8>, sizes: Seq<usize>)
    requires
        sizes.len() >= 2,
        b.len() >= 13 + 4 * sizes.len(),
        b.take(8) == magie2(),
        u32_en(b, 8) == sizes.len(),
        Seq::new(sizes.len(), |k: int| u32_en(b, 12 + 4 * k) as usize) == sizes,
        b[12 + 4 * sizes.len() as int] == octet_schema(schema_de_taille(sizes[0] as int)),
    ensures
        modele_lu(b) == suite_lue(b, 13 + 4 * sizes.len() as int, sizes),
{
    reveal(modele_lu);
    reveal(modele_lu);
    assert(magie1()[7] == 49 && magie2()[7] == 50);
}

proof fn lemme_modele_ancien(b: Seq<u8>, sizes: Seq<usize>)
    requires
        sizes.len() >= 2,
        b.len() >= 12 + 4 * sizes.len(),
        b.take(8) == magie1(),
        u32_en(b, 8) == sizes.len(),
        Seq::new(sizes.len(), |k: int| u32_en(b, 12 + 4 * k) as usize) == sizes,
    ensures
        modele_lu(b) == suite_lue(b, 12 + 4 * sizes.len() as int, sizes),
{
    reveal(modele_lu);
}

/// A saved network is loaded again exactly, whatever follows it in the file.
pub proof fn loi_sauvegarde_relue(m: VueMlp, reste: Seq<u8>)
    requires
        forme(m),
        tailles_ecrivables(m.sizes),
    ensures
        modele_lu(fichier(m) + reste) == Ok::<VueMlp, ErreurModele>(m),
{
    let b = fichier(m) + reste;
    let octet = octet_schema(schema_de_taille(m.sizes[0] as int));
    let o = seq![octet];
    let n = octets_u32(m.sizes.len() as u32);
    let t = octets_mots(tailles_ecrites(m.sizes), m.sizes.len() as int);
    let p = octets_u64(m.steps);
    let q = octets_parametres(m);
    let corps = o + (p + q) + reste;
    lemme_fichier_reparti(magie2(), n, t, o, p, q, reste);
    lemme_entete(b, magie2(), m.sizes, corps);
    assert(corps.len() >= 1 && corps[0] == octet);
    lemme_modele_courant(b, m.sizes);
    let pre = magie2() + n + t + o;
    assert(pre.len() == 13 + 4 * m.sizes.len()) by {
        lemme_len_mots(tailles_ecrites(m.sizes), m.sizes.len() as int);
    }
    lemme_suite_relue(b, pre, m, reste);
}

/// Files in the older format stay readable: they load exactly, whatever
/// follows.
pub proof fn loi_ancien_format_relu(m: VueMlp, reste: Seq<u8>)
    requires
        forme(m),
        tailles_ecrivables(m.sizes),
    ensures
        modele_lu(fichier_v1(m) + reste) == Ok::<VueMlp, ErreurModele>(m),
{
    let b = fichier_v1(m) + reste;
    let n = octets_u32(m.sizes.len() as u32);
    let t = octets_mots(tailles_ecrites(m.sizes), m.sizes.len() as int);
    let p = octets_u64(m.steps);
    let q = octets_parametres(m);
    let corps = (p + q) + reste;
    lemme_fichier_reparti(magie1(), n, t, Seq::empty(), p, q, reste);
    lemme_entete(b, magie1(), m.sizes, corps);
    lemme_modele_ancien(b, m.sizes);
    let pre = magie1() + n + t;
    assert(pre.len() == 12 + 4 * m.sizes.len()) by {
        lemme_len_mots(tailles_ecrites(m.sizes), m.sizes.len() as int);
    }
    lemme_suite_relue(b, pre, m, reste);
}


// ---------------------------------------------------------------------------
// Making networks
// ---------------------------------------------------------------------------

/// Why layer sizes do not make a network.
#[derive(Debug, Clone, Copy, PartialEq, Eq, Structural)]
pub enum ErreurTailles {
    /// Fewer than two sizes.
    MoinsDeDeux,
    /// The input layer has the wrong size.
    MauvaiseEntree,
    /// The output is not a single number.
    SortieNonScalaire,
}

/// What is wrong with layer sizes, if anything.
pub open spec fn defaut_tailles(tailles: Seq<usize>, entree: int) -> Option<ErreurTailles> {
    if tailles.len() < 2 {
        Some(ErreurTailles::MoinsDeDeux)
    } else if tailles[0] != entree {
        Some(ErreurTailles::MauvaiseEntree)
    } else if tailles.last() != 1 {
        Some(ErreurTailles::SortieNonScalaire)
    } else {
        None
    }
}

/// Checks layer sizes: two or more, the input layer of size `entree`, a single
/// output.
pub fn verifie_tailles(tailles: &Vec<usize>, entree: usize) -> (r: Result<(), ErreurTailles>)
    ensures
        r == match defaut_tailles(tailles@, entree as int) {
            Some(e) => Err::<(), ErreurTailles>(e),
            None => Ok(()),
        },
{
    if tailles.len() < 2 {
        Err(ErreurTailles::MoinsDeDeux)
    } else if tailles[0] != entree {
        Err(ErreurTailles::MauvaiseEntree)
    } else if tailles[tailles.len() - 1] != 1 {
        Err(ErreurTailles::SortieNonScalaire)
    } else {
        Ok(())
    }
}

/// A layer of zeros.
pub open spec fn zeros(n: nat) -> Seq<u32> {
    Seq::new(n, |i: int| 0u32)
}

/// Layers of zeros with the shape of a group.
pub open spec fn zeros_comme(g: Seq<Seq<u32>>) -> Seq<Seq<u32>> {
    g.map_values(|c: Seq<u32>| zeros(c.len()))
}

/// Layers of zeros for the biases.
pub open spec fn zeros_biais(sizes: Seq<usize>) -> Seq<Seq<u32>> {
    Seq::new((sizes.len() - 1) as nat, |l: int| zeros(sizes[l + 1] as nat))
}

/// A fresh network with those weights: biases, moments and steps at zero.
pub open spec fn reseau_neuf(sizes: Seq<usize>, poids: Seq<Seq<u32>>) -> VueMlp {
    VueMlp {
        sizes,
        weights: poids,
        biases: zeros_biais(sizes),
        adam_mw: zeros_comme(poids),
        adam_vw: zeros_comme(poids),
        adam_mb: zeros_biais(sizes),
        adam_vb: zeros_biais(sizes),
        steps: 0,
    }
}

fn couche_nulle(n: usize) -> (r: Vec<u32>)
    ensures
        r@ == zeros(n as nat),
{
    let mut r: Vec<u32> = Vec::new();
    while r.len() < n
        invariant
            r@.len() <= n,
            r@ == zeros(r@.len()),
        decreases n - r.len(),
    {
        r.push(0);
        assert(r@ =~= zeros(r@.len()));
    }
    r
}

fn groupe_nul(g: &Vec<Vec<u32>>) -> (r: Vec<Vec<u32>>)
    ensures
        couches(r@) == zeros_comme(couches(g@)),
{
    let mut r: Vec<Vec<u32>> = Vec::new();
    let mut k: usize = 0;
    while k < g.len()
        invariant
            k <= g@.len(),
            couches(r@) == zeros_comme(couches(g@)).take(k as int),
        decreases g.len() - k,
    {
        let ghost avant = couches(r@);
        let c: Vec<u32> = couche_nulle(g[k].len());
        let ghost cv = c@;
        r.push(c);
        assert(couches(r@) =~= avant.push(cv));
        assert(couches(r@) =~= zeros_comme(couches(g@)).take(k as int + 1));
        k += 1;
    }
    assert(zeros_comme(couches(g@)).take(k as int) =~= zeros_comme(couches(g@)));
    r
}

fn biais_nuls(sizes: &Vec<usize>) -> (r: Vec<Vec<u32>>)
    requires
        sizes@.len() >= 1,
    ensures
        couches(r@) == zeros_biais(sizes@),
{
    let n: usize = sizes.len() - 1;
    let mut r: Vec<Vec<u32>> = Vec::new();
    let mut k: usize = 0;
    while k < n
        invariant
            n == sizes@.len() - 1,
            k <= n,
            couches(r@) == zeros_biais(sizes@).take(k as int),
        decreases n - k,
    {
        let ghost avant = couches(r@);
        let c: Vec<u32> = couche_nulle(sizes[k + 1]);
        let ghost cv = c@;
        r.push(c);
        assert(couches(r@) =~= avant.push(cv));
        assert(couches(r@) =~= zeros_biais(sizes@).take(k as int + 1));
        k += 1;
    }
    assert(zeros_biais(sizes@).take(k as int) =~= zeros_biais(sizes@));
    r
}

impl Mlp {
    /// A fresh network of any shape, with weights drawn by the caller.
    pub fn avec_tailles(sizes: Vec<usize>, poids: Vec<Vec<u32>>) -> (r: Mlp)
        requires
            sizes@.len() >= 2,
            groupe_forme(couches(poids@), tailles_poids(sizes@)),
        ensures
            r@ == reseau_neuf(sizes@, couches(poids@)),
            forme(r@),
    {
        let biases: Vec<Vec<u32>> = biais_nuls(&sizes);
        let adam_mw: Vec<Vec<u32>> = groupe_nul(&poids);
        let adam_vw: Vec<Vec<u32>> = groupe_nul(&poids);
        let adam_mb: Vec<Vec<u32>> = biais_nuls(&sizes);
        let adam_vb: Vec<Vec<u32>> = biais_nuls(&sizes);
        let r: Mlp = Mlp {
            sizes,
            weights: poids,
            biases,
            adam_mw,
            adam_vw,
            adam_mb,
            adam_vb,
            steps: 0,
        };
        assert(r@ =~= reseau_neuf(r.sizes@, couches(r.weights@)));
        r
    }

    /// A fresh network with a dense input.
    pub fn new_avec_tailles(tailles: Vec<usize>, poids: Vec<Vec<u32>>) -> (r: Mlp)
        requires
            defaut_tailles(tailles@, N_FEATURES as int) is None,
            groupe_forme(couches(poids@), tailles_poids(tailles@)),
        ensures
            r@ == reseau_neuf(tailles@, couches(poids@)),
            forme(r@),
            schema_de_taille(r@.sizes[0] as int) == SchemaFeatures::Classique773,
    {
        Self::avec_tailles(tailles, poids)
    }

    /// A fresh network with a sparse input relative to the king.
    pub fn new_roi_zones(tailles: Vec<usize>, poids: Vec<Vec<u32>>) -> (r: Mlp)
        requires
            defaut_tailles(tailles@, N_FEATURES_ROI as int) is None,
            groupe_forme(couches(poids@), tailles_poids(tailles@)),
        ensures
            r@ == reseau_neuf(tailles@, couches(poids@)),
            forme(r@),
            schema_de_taille(r@.sizes[0] as int) == SchemaFeatures::RoiZones8,
    {
        Self::avec_tailles(tailles, poids)
    }

    /// Largest layer: room that one pass through the network needs.
    pub fn taille_tampon(&self) -> (r: usize)
        ensures
            forall|i: int| 0 <= i < self@.sizes.len() ==> #[trigger] self@.sizes[i] <= r,
            self@.sizes.len() > 0 ==> self@.sizes.contains(r),
            self@.sizes.len() == 0 ==> r == 0,
    {
        let mut r: usize = 0;
        let mut i: usize = 0;
        while i < self.sizes.len()
            invariant
                i <= self.sizes@.len(),
                forall|k: int| 0 <= k < i ==> #[trigger] self.sizes@[k] <= r,
                i == 0 ==> r == 0,
                i > 0 ==> exists|k: int| 0 <= k < i && #[trigger] self.sizes@[k] == r,
            decreases self.sizes.len() - i,
        {
            if i == 0 || self.sizes[i] > r {
                r = self.sizes[i];
                assert(self.sizes@[i as int] == r);
            }
            i += 1;
        }
        r
    }
}

/// Layer sizes of the network that training starts from.
pub fn tailles_par_defaut() -> (r: Vec<usize>)
    ensures
        r@ == seq![773usize, 512, 64, 1],
        defaut_tailles(r@, N_FEATURES as int) is None,
{
    let mut r: Vec<usize> = Vec::new();
    r.push(N_FEATURES);
    r.push(512);
    r.push(64);
    r.push(1);
    assert(r@ =~= seq![773usize, 512, 64, 1]);
    r
}

// ---------------------------------------------------------------------------
// Graft
// ---------------------------------------------------------------------------

/// First layer of the graft: the weights of the teacher's 768 piece columns in
/// each zone block, then those of its five flags.
pub open spec fn couche_greffee(w: Seq<u32>, n1: int) -> Seq<u32> {
    Seq::new(
        (n1 * 6149) as nat,
        |x: int| w[(x / 6149) * 773 + crate::features_roi::sans_zone(x % 6149)],
    )
}

/// The graft of a dense network into the encoding relative to the king.
pub open spec fn greffe(m: VueMlp) -> VueMlp {
    let poids = m.weights.update(0, couche_greffee(m.weights[0], m.sizes[1] as int));
    VueMlp {
        sizes: m.sizes.update(0, 6149),
        weights: poids,
        biases: m.biases,
        adam_mw: zeros_comme(poids),
        adam_vw: zeros_comme(poids),
        adam_mb: zeros_comme(m.biases),
        adam_vb: zeros_comme(m.biases),
        steps: 0,
    }
}

fn copie_couche(c: &Vec<u32>) -> (r: Vec<u32>)
    ensures
        r@ == c@,
{
    let mut r: Vec<u32> = Vec::new();
    let mut k: usize = 0;
    while k < c.len()
        invariant
            k <= c@.len(),
            r@ == c@.take(k as int),
        decreases c.len() - k,
    {
        r.push(c[k]);
        assert(r@ =~= c@.take(k as int + 1));
        k += 1;
    }
    assert(c@.take(k as int) =~= c@);
    r
}

fn greffe_couche(w: &Vec<u32>, n1: usize) -> (r: Vec<u32>)
    requires
        w@.len() == n1 * 773,
    ensures
        r@ == couche_greffee(w@, n1 as int),
{
    let total: usize = w.len();
    let mut r: Vec<u32> = Vec::new();
    let mut j: usize = 0;
    while j < n1
        invariant
            j <= n1,
            total == w@.len(),
            w@.len() == n1 * 773,
            r@.len() == j * 6149,
            forall|x: int|
                0 <= x < r@.len() ==> #[trigger] r@[x] == w@[(x / 6149) * 773
                    + crate::features_roi::sans_zone(x % 6149)],
        decreases n1 - j,
    {
        let mut c: usize = 0;
        while c < N_FEATURES_ROI
            invariant
                j < n1,
                total == w@.len(),
                w@.len() == n1 * 773,
                c <= N_FEATURES_ROI,
                r@.len() == j * 6149 + c,
                forall|x: int|
                    0 <= x < r@.len() ==> #[trigger] r@[x] == w@[(x / 6149) * 773
                        + crate::features_roi::sans_zone(x % 6149)],
            decreases N_FEATURES_ROI - c,
        {
            let source: usize = if c < N_ZONES_ROI * 768 {
                c % 768
            } else {
                c - N_ZONES_ROI * 768 + 768
            };
            assert(source < 773);
            assert(j * 773 + 773 <= total);
            let x: u32 = w[j * 773 + source];
            proof {
                let k = r@.len() as int;
                assert(k / 6149 == j && k % 6149 == c);
            }
            r.push(x);
            c += 1;
        }
        j += 1;
    }
    assert(r@ =~= couche_greffee(w@, n1 as int));
    r
}

fn copie_groupe(g: &Vec<Vec<u32>>, debut: usize, r: &mut Vec<Vec<u32>>)
    requires
        debut <= g@.len(),
    ensures
        couches(final(r)@) == couches(old(r)@) + couches(g@).subrange(
            debut as int,
            g@.len() as int,
        ),
{
    let mut k: usize = debut;
    assert(couches(r@) =~= couches(old(r)@) + couches(g@).subrange(debut as int, debut as int));
    while k < g.len()
        invariant
            debut <= k <= g@.len(),
            couches(r@) == couches(old(r)@) + couches(g@).subrange(debut as int, k as int),
        decreases g.len() - k,
    {
        let ghost avant = couches(r@);
        let c: Vec<u32> = copie_couche(&g[k]);
        let ghost cv = c@;
        r.push(c);
        assert(couches(r@) =~= avant.push(cv));
        assert(couches(r@) =~= couches(old(r)@) + couches(g@).subrange(debut as int, k as int + 1));
        k += 1;
    }
}

/// Transplants a dense network into the encoding relative to the king: its
/// piece columns are repeated in every zone block, everything else is kept,
/// and the optimiser starts afresh.
pub fn greffer(prof: &Mlp) -> (r: Mlp)
    requires
        forme(prof@),
        prof@.sizes[0] == N_FEATURES,
    ensures
        r@ == greffe(prof@),
        forme(r@),
        schema_de_taille(r@.sizes[0] as int) == SchemaFeatures::RoiZones8,
{
    let n: usize = prof.sizes.len();
    let n1: usize = prof.sizes[1];
    let ghost pv = prof@;
    assert(pv.weights[0].len() == tailles_poids(pv.sizes)[0]);
    assert(pv.weights[0] == prof.weights@[0]@);
    let mut sizes: Vec<usize> = Vec::new();
    sizes.push(N_FEATURES_ROI);
    let mut k: usize = 1;
    while k < n
        invariant
            1 <= k <= n,
            n == prof.sizes@.len(),
            sizes@.len() == k,
            sizes@[0] == 6149,
            forall|i: int| 1 <= i < k ==> #[trigger] sizes@[i] == prof.sizes@[i],
        decreases n - k,
    {
        sizes.push(prof.sizes[k]);
        k += 1;
    }
    assert(sizes@ =~= prof.sizes@.update(0, 6149));
    let mut weights: Vec<Vec<u32>> = Vec::new();
    let w0: Vec<u32> = greffe_couche(&prof.weights[0], n1);
    let ghost w0v = w0@;
    weights.push(w0);
    assert(couches(weights@) =~= seq![w0v]);
    copie_groupe(&prof.weights, 1, &mut weights);
    let ghost poids = pv.weights.update(0, couche_greffee(pv.weights[0], n1 as int));
    assert(couches(weights@) =~= poids);
    let mut biases: Vec<Vec<u32>> = Vec::new();
    copie_groupe(&prof.biases, 0, &mut biases);
    assert(couches(biases@) =~= pv.biases);
    let adam_mw: Vec<Vec<u32>> = groupe_nul(&weights);
    let adam_vw: Vec<Vec<u32>> = groupe_nul(&weights);
    let adam_mb: Vec<Vec<u32>> = groupe_nul(&biases);
    let adam_vb: Vec<Vec<u32>> = groupe_nul(&biases);
    let r: Mlp = Mlp { sizes, weights, biases, adam_mw, adam_vw, adam_mb, adam_vb, steps: 0 };
    assert(r@ =~= greffe(pv));
    proof {
        lemme_greffe_forme(pv);
    }
    r
}

proof fn lemme_greffe_forme(m: VueMlp)
    requires
        forme(m),
        m.sizes[0] == 773,
    ensures
        forme(greffe(m)),
{
    let g = greffe(m);
    let tw = tailles_poids(m.sizes);
    let tg = tailles_poids(g.sizes);
    let n1 = m.sizes[1] as int;
    assert(tg[0] == 6149 * n1);
    assert(n1 * 6149 == 6149 * n1);
    assert forall|l: int| 0 <= l < g.weights.len() implies (#[trigger] g.weights[l]).len() == tg[l] by {
        if l > 0 {
            assert(g.weights[l] == m.weights[l]);
            assert(tg[l] == tw[l]);
        }
    }
    assert forall|l: int| 0 <= l < g.adam_mw.len() implies (#[trigger] g.adam_mw[l]).len() == tg[l] by {
        assert(g.weights[l].len() == tg[l]);
    }
    assert forall|l: int| 0 <= l < g.adam_vw.len() implies (#[trigger] g.adam_vw[l]).len() == tg[l] by {
        assert(g.weights[l].len() == tg[l]);
    }
    assert(tailles_biais(g.sizes) =~= tailles_biais(m.sizes));
    assert forall|l: int| 0 <= l < g.adam_mb.len() implies (#[trigger] g.adam_mb[l]).len()
        == tailles_biais(g.sizes)[l] by {
        assert(m.biases[l].len() == tailles_biais(m.sizes)[l]);
    }
    assert forall|l: int| 0 <= l < g.adam_vb.len() implies (#[trigger] g.adam_vb[l]).len()
        == tailles_biais(g.sizes)[l] by {
        assert(m.biases[l].len() == tailles_biais(m.sizes)[l]);
    }
}

/// The graft computes what the teacher computes: on every position, neuron `j`
/// of the first layer reads for the `k`-th active sparse feature the very
/// weight that the teacher reads for the dense feature it stands for, the
/// dense features that are read are the active ones, each of them once, and
/// everything behind the first layer is the teacher's.
pub proof fn loi_greffe_fidele(m: VueMlp, p: crate::echiquier::VuePosition, blanc: bool, j: int, k: int)
    requires
        forme(m),
        m.sizes[0] == 773,
        crate::echiquier::plateau_valide(p.0),
        0 <= j < m.sizes[1],
        0 <= k < crate::features_roi::actifs_attendus(p, blanc).len(),
    ensures
        ({
            let a = crate::features_roi::actifs_attendus(p, blanc);
            let dense = crate::features_roi::sans_zone(a[k] as int);
            let g = greffe(m);
            &&& g.weights[0][j * 6149 + a[k]] == m.weights[0][j * 773 + dense]
            &&& crate::features::active(p, blanc, dense)
            &&& forall|i: int|
                0 <= i < a.len() && crate::features_roi::sans_zone(#[trigger] a[i] as int) == dense
                    ==> i == k
            &&& g.biases == m.biases
            &&& forall|l: int| 1 <= l < m.weights.len() ==> #[trigger] g.weights[l] == m.weights[l]
        }),
{
    let a = crate::features_roi::actifs_attendus(p, blanc);
    let x = j * 6149 + a[k];
    crate::features_roi::loi_creux_vers_dense(p, blanc, k);
    crate::features_roi::loi_actif_borne(p, blanc, k);
    assert(x / 6149 == j && x % 6149 == a[k]);
    assert(x < m.sizes[1] * 6149);
    assert forall|i: int|
        0 <= i < a.len() && crate::features_roi::sans_zone(#[trigger] a[i] as int)
            == crate::features_roi::sans_zone(a[k] as int) implies i == k by {
        crate::features_roi::loi_sans_zone_injective(p, blanc, i, k);
    }
}

// ---------------------------------------------------------------------------
// Columns of a sparse batch
// ---------------------------------------------------------------------------

/// Does the batch touch input column `c`?
pub open spec fn touchee(lots: Seq<Vec<u16>>, c: u16) -> bool {
    exists|i: int| 0 <= i < lots.len() && (#[trigger] lots[i])@.contains(c)
}

/// Strictly growing columns.
pub open spec fn croissantes(s: Seq<u16>) -> bool {
    forall|i: int, j: int| 0 <= i < j < s.len() ==> #[trigger] s[i] < #[trigger] s[j]
}

/// Are all active features of the batch inside the input layer?
pub fn indices_valides(lots: &Vec<Vec<u16>>, n_in: usize) -> (r: bool)
    ensures
        r == forall|c: u16| #[trigger] touchee(lots@, c) ==> c < n_in,
{
    let mut i: usize = 0;
    while i < lots.len()
        invariant
            i <= lots@.len(),
            forall|m: int, q: int|
                0 <= m < i && 0 <= q < lots@[m]@.len() ==> #[trigger] lots@[m]@[q] < n_in,
        decreases lots.len() - i,
    {
        let mut k: usize = 0;
        while k < lots[i].len()
            invariant
                i < lots@.len(),
                k <= lots@[i as int]@.len(),
                forall|q: int| 0 <= q < k ==> #[trigger] lots@[i as int]@[q] < n_in,
            decreases lots@[i as int]@.len() - k,
        {
            let c: u16 = lots[i][k];
            if c as usize >= n_in {
                assert(lots@[i as int]@.contains(c));
                assert(touchee(lots@, c));
                return false;
            }
            k += 1;
        }
        i += 1;
    }
    assert forall|c: u16| #[trigger] touchee(lots@, c) implies c < n_in by {
        let m = choose|m: int| 0 <= m < lots@.len() && (#[trigger] lots@[m])@.contains(c);
        let q = lots@[m]@.index_of(c);
        assert(lots@[m]@[q] < n_in);
    }
    true
}

proof fn lemme_take_contient(s: Seq<u16>, k: int)
    requires
        0 <= k < s.len(),
    ensures
        forall|x: u16| #[trigger]
            s.take(k + 1).contains(x) <==> s.take(k).contains(x) || x == s[k],
{
    assert forall|x: u16| #[trigger] s.take(k + 1).contains(x) <==> s.take(k).contains(x) || x
        == s[k] by {
        if s.take(k + 1).contains(x) {
            let q = s.take(k + 1).index_of(x);
            if q < k {
                assert(s.take(k)[q] == x);
            }
        }
        if s.take(k).contains(x) {
            let q = s.take(k).index_of(x);
            assert(s.take(k + 1)[q] == x);
        }
        assert(s.take(k + 1)[k] == s[k]);
    }
}

proof fn lemme_touchee_suivant(lots: Seq<Vec<u16>>, i: int, c: u16)
    requires
        0 <= i < lots.len(),
    ensures
        touchee(lots.take(i + 1), c) <==> touchee(lots.take(i), c) || lots[i]@.contains(c),
{
    let a = lots.take(i);
    let b = lots.take(i + 1);
    if touchee(b, c) {
        let m = choose|m: int| 0 <= m < b.len() && (#[trigger] b[m])@.contains(c);
        if m < i {
            assert(a[m]@.contains(c));
        }
    }
    if touchee(a, c) {
        let m = choose|m: int| 0 <= m < a.len() && (#[trigger] a[m])@.contains(c);
        assert(b[m]@.contains(c));
    }
    assert(b[i] == lots[i]);
}

/// The columns that a batch touches, each once, by growing index.
pub fn colonnes_touchees(lots: &Vec<Vec<u16>>) -> (r: Vec<u16>)
    ensures
        croissantes(r@),
        forall|c: u16| r@.contains(c) <==> #[trigger] touchee(lots@, c),
{
    let mut vues: Vec<bool> = Vec::new();
    while vues.len() < 65536
        invariant
            vues@.len() <= 65536,
            forall|c: int| 0 <= c < vues@.len() ==> !#[trigger] vues@[c],
        decreases 65536 - vues.len(),
    {
        vues.push(false);
    }
    let mut i: usize = 0;
    while i < lots.len()
        invariant
            i <= lots@.len(),
            vues@.len() == 65536,
            forall|c: u16| #[trigger] vues@[c as int] <==> touchee(lots@.take(i as int), c),
        decreases lots.len() - i,
    {
        let ghost avant = vues@;
        let mut k: usize = 0;
        while k < lots[i].len()
            invariant
                i < lots@.len(),
                k <= lots@[i as int]@.len(),
                vues@.len() == 65536,
                avant.len() == 65536,
                forall|c: u16| #[trigger]
                    vues@[c as int] <==> avant[c as int] || lots@[i as int]@.take(
                        k as int,
                    ).contains(c),
            decreases lots@[i as int]@.len() - k,
        {
            let c: u16 = lots[i][k];
            let ghost v0 = vues@;
            vues.set(c as usize, true);
            proof {
                lemme_take_contient(lots@[i as int]@, k as int);
                assert forall|x: u16| #[trigger] vues@[x as int] <==> avant[x as int]
                    || lots@[i as int]@.take(k + 1).contains(x) by {
                    assert(x != c ==> vues@[x as int] == v0[x as int]);
                }
            }
            k += 1;
        }
        proof {
            assert(lots@[i as int]@.take(k as int) =~= lots@[i as int]@);
            assert forall|x: u16| #[trigger] vues@[x as int] <==> touchee(lots@.take(i + 1), x) by {
                lemme_touchee_suivant(lots@, i as int, x);
            }
        }
        i += 1;
    }
    assert(lots@.take(i as int) =~= lots@);
    let mut r: Vec<u16> = Vec::new();
    let mut c: usize = 0;
    while c < 65536
        invariant
            c <= 65536,
            vues@.len() == 65536,
            croissantes(r@),
            forall|q: int| 0 <= q < r@.len() ==> #[trigger] r@[q] < c && vues@[r@[q] as int],
            forall|x: u16| x < c && vues@[x as int] ==> #[trigger] r@.contains(x),
        decreases 65536 - c,
    {
        if vues[c] {
            let ghost avant = r@;
            r.push(c as u16);
            assert forall|x: u16| x < c + 1 && vues@[x as int] implies #[trigger] r@.contains(x) by {
                if x < c {
                    let q = avant.index_of(x);
                    assert(avant.contains(x));
                    assert(r@[q] == x);
                } else {
                    assert(r@[avant.len() as int] == x);
                }
            }
        }
        c += 1;
    }
    assert forall|x: u16| r@.contains(x) <==> #[trigger] touchee(lots@, x) by {
        if r@.contains(x) {
            let q = r@.index_of(x);
            assert(vues@[r@[q] as int]);
        }
    }
    r
}

/// Rank of a column among growing columns, by halving.
pub fn rang_colonne(cols: &Vec<u16>, c: u16) -> (r: Option<usize>)
    requires
        croissantes(cols@),
    ensures
        match r {
            Some(i) => i < cols@.len() && cols@[i as int] == c,
            None => !cols@.contains(c),
        },
{
    let mut bas: usize = 0;
    let mut haut: usize = cols.len();
    while bas < haut
        invariant
            bas <= haut <= cols@.len(),
            croissantes(cols@),
            forall|i: int| 0 <= i < bas ==> #[trigger] cols@[i] < c,
            forall|i: int| haut <= i < cols@.len() ==> #[trigger] cols@[i] > c,
        decreases haut - bas,
    {
        let milieu: usize = bas + (haut - bas) / 2;
        let x: u16 = cols[milieu];
        if x == c {
            return Some(milieu);
        } else if x < c {
            bas = milieu + 1;
        } else {
            haut = milieu;
        }
    }
    None
}

/// Row-major weights after the columns `cols` were given new values, those of
/// column `cols[r]` being `valeurs[r * n_out + j]`; all others stay.
pub open spec fn colonnes_posees(
    w: Seq<u32>,
    n_in: int,
    n_out: int,
    cols: Seq<u16>,
    valeurs: Seq<u32>,
    j: int,
    c: int,
) -> u32 {
    if exists|r: int| 0 <= r < cols.len() && #[trigger] cols[r] == c {
        let r = choose|r: int| 0 <= r < cols.len() && #[trigger] cols[r] == c;
        valeurs[r * n_out + j]
    } else {
        w[j * n_in + c]
    }
}

proof fn lemme_place(j: int, c: int, n_in: int, n_out: int)
    requires
        0 <= j < n_out,
        0 <= c < n_in,
    ensures
        0 <= j * n_in + c < n_in * n_out,
        0 <= j * n_in,
{
    assert(0 <= j * n_in && j * n_in + c < n_in * n_out) by (nonlinear_arith)
        requires
            0 <= j < n_out,
            0 <= c < n_in,
    ;
}

proof fn lemme_places_distinctes(j: int, c: int, i: int, d: int, n_in: int)
    requires
        0 <= c < n_in,
        0 <= d < n_in,
        j * n_in + c == i * n_in + d,
    ensures
        j == i,
        c == d,
{
    assert(j == i) by (nonlinear_arith)
        requires
            0 <= c < n_in,
            0 <= d < n_in,
            j * n_in + c == i * n_in + d,
    ;
}

/// Gives the touched columns their new values and leaves every other column
/// as it was.
pub fn pose_colonnes(
    w: &mut Vec<u32>,
    n_in: usize,
    n_out: usize,
    cols: &Vec<u16>,
    valeurs: &Vec<u32>,
)
    requires
        old(w)@.len() == n_in * n_out,
        croissantes(cols@),
        forall|r: int| 0 <= r < cols@.len() ==> #[trigger] cols@[r] < n_in,
        valeurs@.len() == cols@.len() * n_out,
    ensures
        final(w)@.len() == old(w)@.len(),
        forall|j: int, c: int|
            #![trigger final(w)@[j * n_in + c]]
            0 <= j < n_out && 0 <= c < n_in ==> final(w)@[j * n_in + c] == colonnes_posees(
                old(w)@,
                n_in as int,
                n_out as int,
                cols@,
                valeurs@,
                j,
                c,
            ),
{
    let ghost w0 = w@;
    let lw: usize = w.len();
    let lv: usize = valeurs.len();
    let mut r: usize = 0;
    assert(forall|j: int, c: int| #![trigger w@[j * n_in + c]] w@[j * n_in + c] == w0[j * n_in + c]);
    while r < cols.len()
        invariant
            r <= cols@.len(),
            lw == w@.len(),
            lv == valeurs@.len(),
            w@.len() == n_in * n_out,
            croissantes(cols@),
            forall|q: int| 0 <= q < cols@.len() ==> #[trigger] cols@[q] < n_in,
            valeurs@.len() == cols@.len() * n_out,
            forall|j: int, c: int|
                #![trigger w@[j * n_in + c]]
                0 <= j < n_out && 0 <= c < n_in ==> w@[j * n_in + c] == if exists|q: int|
                    0 <= q < r && #[trigger] cols@[q] == c {
                    colonnes_posees(w0, n_in as int, n_out as int, cols@, valeurs@, j, c)
                } else {
                    w0[j * n_in + c]
                },
        decreases cols.len() - r,
    {
        let col: usize = cols[r] as usize;
        let ghost avant = w@;
        let mut j: usize = 0;
        while j < n_out
            invariant
                j <= n_out,
                r < cols@.len(),
                col == cols@[r as int],
                col < n_in,
                lw == w@.len(),
                lv == valeurs@.len(),
                w@.len() == n_in * n_out,
                avant.len() == n_in * n_out,
                valeurs@.len() == cols@.len() * n_out,
                forall|i: int, c: int|
                    #![trigger w@[i * n_in + c]]
                    0 <= i < n_out && 0 <= c < n_in ==> w@[i * n_in + c] == if c == col && i < j {
                        valeurs@[r * n_out + i]
                    } else {
                        avant[i * n_in + c]
                    },
            decreases n_out - j,
        {
            proof {
                lemme_place(j as int, col as int, n_in as int, n_out as int);
                lemme_place(r as int, j as int, n_out as int, cols@.len() as int);
                assert(n_out * cols@.len() == cols@.len() * n_out) by (nonlinear_arith);
            }
            let ghost w1 = w@;
            let ghost place = j * n_in + col;
            let v: u32 = valeurs[r * n_out + j];
            w.set(j * n_in + col, v);
            assert forall|i: int, c: int|
                #![trigger w@[i * n_in + c]]
                0 <= i < n_out && 0 <= c < n_in implies w@[i * n_in + c] == if c == col && i < j
                + 1 {
                valeurs@[r * n_out + i]
            } else {
                avant[i * n_in + c]
            } by {
                lemme_place(i, c, n_in as int, n_out as int);
                if i * n_in + c == place {
                    lemme_places_distinctes(i, c, j as int, col as int, n_in as int);
                } else {
                    assert(w@[i * n_in + c] == w1[i * n_in + c]);
                    assert(!(i == j && c == col));
                }
            }
            j += 1;
        }
        assert forall|j: int, c: int|
            #![trigger w@[j * n_in + c]]
            0 <= j < n_out && 0 <= c < n_in implies w@[j * n_in + c] == if exists|q: int|
            0 <= q < r + 1 && #[trigger] cols@[q] == c {
            colonnes_posees(w0, n_in as int, n_out as int, cols@, valeurs@, j, c)
        } else {
            w0[j * n_in + c]
        } by {
            assert(w@[j * n_in + c] == if c == col {
                valeurs@[r * n_out + j]
            } else {
                avant[j * n_in + c]
            });
            if c == col {
                assert(cols@[r as int] == c);
                let q = choose|q: int| 0 <= q < cols@.len() && #[trigger] cols@[q] == c;
                assert(q == r);
            }
        }
        r += 1;
    }
}

/// A column that the batch does not touch is strictly frozen.
pub proof fn loi_colonne_libre_figee(
    w: Seq<u32>,
    n_in: int,
    n_out: int,
    cols: Seq<u16>,
    valeurs: Seq<u32>,
    j: int,
    c: int,
)
    requires
        forall|r: int| 0 <= r < cols.len() ==> #[trigger] cols[r] != c,
    ensures
        colonnes_posees(w, n_in, n_out, cols, valeurs, j, c) == w[j * n_in + c],
{
}

// ---------------------------------------------------------------------------
// The file of a network, in numbers
// ---------------------------------------------------------------------------

/// Schemas are written 0 for the classic one and 1 for the zoned one, and no
/// other byte names one; a network of 6149 inputs is zoned, any other classic.
pub proof fn loi_schemas(s: SchemaFeatures, x: u8, n: int)
    ensures
        octet_schema(SchemaFeatures::Classique773) == 0,
        octet_schema(SchemaFeatures::RoiZones8) == 1,
        schema_de_octet(octet_schema(s)) == Some(s),
        x > 1 ==> schema_de_octet(x) is None,
        schema_de_taille(n) is RoiZones8 <==> n == 6149,
        schema_de_taille(n) is Classique773 <==> n != 6149,
{
}

/// Numbers are written with their lowest byte first.
pub proof fn loi_petit_boutisme(x: u32, y: u64)
    ensures
        octets_u32(x).len() == 4,
        octets_u32(x)[0] + 256 * octets_u32(x)[1] + 65536 * octets_u32(x)[2] + 16777216
            * octets_u32(x)[3] == x,
        u32_en(octets_u32(x), 0) == x,
        octets_u64(y).len() == 8,
        u64_en(octets_u64(y), 0) == y,
        octets_u64(y)[0] == y % 256,
{
    let b = octets_u64(y);
    let bas = (y % 0x1_0000_0000) as u32;
    let haut = (y / 0x1_0000_0000) as u32;
    assert(bas as int == y as int % 0x1_0000_0000 && haut as int == y as int / 0x1_0000_0000);
    assert forall|k: int| 0 <= k < 4 implies b[k] == octets_u32(bas)[k] && b[4 + k] == octets_u32(
        haut,
    )[k] by {}
    assert(octets_u32(x).subrange(0, 0int + 4) =~= octets_u32(x));
    assert(b.subrange(0, 0int + 4) =~= octets_u32(bas));
    assert(b.subrange(4, 4int + 4) =~= octets_u32(haut));
    lemme_u32(octets_u32(x), 0, x);
    lemme_u32(b, 0, bas);
    lemme_u32(b, 4, haut);
}

/// Layout of a saved network: the eight letters of the format, the number of
/// layers, their sizes, the schema, the steps; then the weights, the biases and
/// the four groups of moments in that order.
pub proof fn loi_disposition(m: VueMlp)
    requires
        m.sizes.len() >= 2,
    ensures
        fichier(m).take(8) == seq![69u8, 67, 72, 69, 67, 78, 78, 50],
        fichier_v1(m).take(8) == seq![69u8, 67, 72, 69, 67, 78, 78, 49],
        ({
            let tailles = octets_mots(tailles_ecrites(m.sizes), m.sizes.len() as int);
            let schema = if m.sizes[0] == 6149 {
                1u8
            } else {
                0u8
            };
            let suite = octets_u64(m.steps) + octets_groupe(m.weights, m.weights.len() as int)
                + octets_groupe(m.biases, m.biases.len() as int) + octets_groupe(
                m.adam_mw,
                m.adam_mw.len() as int,
            ) + octets_groupe(m.adam_vw, m.adam_vw.len() as int) + octets_groupe(
                m.adam_mb,
                m.adam_mb.len() as int,
            ) + octets_groupe(m.adam_vb, m.adam_vb.len() as int);
            &&& fichier(m) == fichier(m).take(8) + octets_u32(m.sizes.len() as u32) + tailles
                + seq![schema] + suite
            &&& fichier_v1(m) == fichier_v1(m).take(8) + octets_u32(m.sizes.len() as u32) + tailles
                + suite
        }),
{
    reveal(octets_parametres);
    assert(fichier(m).take(8) =~= magie2());
    assert(fichier_v1(m).take(8) =~= magie1());
    let tailles = octets_mots(tailles_ecrites(m.sizes), m.sizes.len() as int);
    let t2 = magie2() + octets_u32(m.sizes.len() as u32) + tailles + seq![octet_schema(
        schema_de_taille(m.sizes[0] as int),
    )];
    let t1 = magie1() + octets_u32(m.sizes.len() as u32) + tailles;
    let a = octets_groupe(m.weights, m.weights.len() as int);
    let b = octets_groupe(m.biases, m.biases.len() as int);
    let c = octets_groupe(m.adam_mw, m.adam_mw.len() as int);
    let d = octets_groupe(m.adam_vw, m.adam_vw.len() as int);
    let e = octets_groupe(m.adam_mb, m.adam_mb.len() as int);
    let f = octets_groupe(m.adam_vb, m.adam_vb.len() as int);
    lemme_mis_bout_a_bout(t2, octets_u64(m.steps), a, b, c, d, e, f);
    lemme_mis_bout_a_bout(t1, octets_u64(m.steps), a, b, c, d, e, f);
}

proof fn lemme_mis_bout_a_bout(
    t: Seq<u8>,
    s: Seq<u8>,
    a: Seq<u8>,
    b: Seq<u8>,
    c: Seq<u8>,
    d: Seq<u8>,
    e: Seq<u8>,
    f: Seq<u8>,
)
    ensures
        t + s + (a + b + c + d + e + f) == t + (s + a + b + c + d + e + f),
{
    let g = a + b + c + d + e;
    assert(s + g =~= s + a + b + c + d + e) by {
        assert(s + (a + b) =~= s + a + b);
        assert(s + (a + b + c) =~= s + (a + b) + c);
        assert(s + (a + b + c + d) =~= s + (a + b + c) + d);
        assert(s + g =~= s + (a + b + c + d) + e);
    }
    assert(t + s + (g + f) =~= t + (s + g + f));
}

/// A group is its layers one after the other, each its numbers one after the
/// other, four bytes a number.
pub proof fn loi_groupe_ecrit(g: Seq<Seq<u32>>, s: Seq<u32>, k: int)
    requires
        0 <= k,
    ensures
        k < g.len() ==> octets_groupe(g, k + 1) == octets_groupe(g, k) + octets_mots(
            g[k],
            g[k].len() as int,
        ),
        k < s.len() ==> octets_mots(s, k + 1) == octets_mots(s, k) + octets_u32(s[k]),
        octets_mots(s, k).len() == 4 * k,
        octets_groupe(g, 0).len() == 0,
{
    lemme_len_mots(s, k);
}

/// Why a file is refused: too short for its letters, other letters, too short
/// for its header, fewer than two layers, an unknown schema, a schema that the
/// first layer does not have.
pub proof fn loi_fichier_refuse(b: Seq<u8>)
    ensures
        b.len() < 8 ==> modele_lu(b) == Err::<VueMlp, ErreurModele>(ErreurModele::Tronque),
        b.len() >= 8 && b.take(8) != seq![69u8, 67, 72, 69, 67, 78, 78, 50] && b.take(8)
            != seq![69u8, 67, 72, 69, 67, 78, 78, 49] ==> modele_lu(b) == Err::<VueMlp, ErreurModele>(
            ErreurModele::MauvaisMagic,
        ),
        b.len() >= 12 && (b.take(8) == magie1() || b.take(8) == magie2()) && u32_en(b, 8) < 2
            ==> modele_lu(b) == Err::<VueMlp, ErreurModele>(ErreurModele::TropPeuDeCouches),
        modele_lu(b) is Ok ==> b.len() >= 12 + 4 * u32_en(b, 8) + 8,
        b.len() >= 12 && b.take(8) == magie2() && u32_en(b, 8) >= 2 && b.len() > 12 + 4 * u32_en(b, 8)
            && b[12 + 4 * u32_en(b, 8)] > 1 ==> modele_lu(b) == Err::<VueMlp, ErreurModele>(
            ErreurModele::SchemaInconnu(b[12 + 4 * u32_en(b, 8)]),
        ),
        b.len() >= 20 && b.take(8) == magie2() && u32_en(b, 8) >= 2 && b.len() > 12 + 4 * u32_en(b, 8)
            && b[12 + 4 * u32_en(b, 8)] == 1 && u32_en(b, 12) != 6149 ==> modele_lu(b) == Err::<
            VueMlp,
            ErreurModele,
        >(ErreurModele::SchemaIncoherent),
        b.len() >= 20 && b.take(8) == magie2() && u32_en(b, 8) >= 2 && b.len() > 12 + 4 * u32_en(b, 8)
            && b[12 + 4 * u32_en(b, 8)] == 0 && u32_en(b, 12) == 6149 ==> modele_lu(b) == Err::<
            VueMlp,
            ErreurModele,
        >(ErreurModele::SchemaIncoherent),
{
    reveal(modele_lu);
    assert(magie1()[7] == 49 && magie2()[7] == 50);
}

/// Layers asked for: at least two, from the features to a single output.
pub proof fn loi_tailles_admises(t: Seq<usize>, entree: int)
    ensures
        defaut_tailles(t, entree) is None <==> t.len() >= 2 && t[0] == entree && t[t.len() - 1] == 1,
        t.len() < 2 <==> defaut_tailles(t, entree) == Some(ErreurTailles::MoinsDeDeux),
        t.len() >= 2 && t[0] != entree <==> defaut_tailles(t, entree) == Some(
            ErreurTailles::MauvaiseEntree,
        ),
        t.len() >= 2 && t[0] == entree && t[t.len() - 1] != 1 <==> defaut_tailles(t, entree) == Some(
            ErreurTailles::SortieNonScalaire,
        ),
{
}

/// A new network has its weights, and zeros everywhere else: no bias, no
/// moment, no step.
pub proof fn loi_reseau_neuf(sizes: Seq<usize>, poids: Seq<Seq<u32>>)
    requires
        sizes.len() >= 2,
        groupe_forme(poids, tailles_poids(sizes)),
    ensures
        ({
            let m = reseau_neuf(sizes, poids);
            &&& forme(m)
            &&& m.weights == poids && m.sizes == sizes && m.steps == 0
            &&& forall|l: int, i: int|
                0 <= l < m.biases.len() && 0 <= i < m.biases[l].len() ==> #[trigger] m.biases[l][i] == 0
            &&& forall|l: int, i: int|
                0 <= l < m.adam_mw.len() && 0 <= i < m.adam_mw[l].len() ==> #[trigger] m.adam_mw[l][i]
                    == 0
            &&& forall|l: int, i: int|
                0 <= l < m.adam_vw.len() && 0 <= i < m.adam_vw[l].len() ==> #[trigger] m.adam_vw[l][i]
                    == 0
        }),
{
    let m = reseau_neuf(sizes, poids);
    let tw = tailles_poids(sizes);
    assert forall|l: int| 0 <= l < m.adam_mw.len() implies (#[trigger] m.adam_mw[l]).len() == tw[l] by {
        assert(poids[l].len() == tw[l]);
    }
    assert forall|l: int| 0 <= l < m.adam_vw.len() implies (#[trigger] m.adam_vw[l]).len() == tw[l] by {
        assert(poids[l].len() == tw[l]);
    }
}

/// Shape of a network: between two layers a weight for every pair of neurons,
/// and a bias for every neuron of the second.
pub proof fn loi_forme(m: VueMlp, l: int)
    requires
        forme(m),
        0 <= l < m.sizes.len() - 1,
    ensures
        m.weights.len() == m.sizes.len() - 1 && m.biases.len() == m.sizes.len() - 1,
        m.weights[l].len() == m.sizes[l] * m.sizes[l + 1],
        m.biases[l].len() == m.sizes[l + 1],
        m.adam_mw[l].len() == m.weights[l].len() && m.adam_vw[l].len() == m.weights[l].len(),
        m.adam_mb[l].len() == m.biases[l].len() && m.adam_vb[l].len() == m.biases[l].len(),
{
    assert(m.weights[l].len() == tailles_poids(m.sizes)[l]);
    assert(m.biases[l].len() == tailles_biais(m.sizes)[l]);
    assert(m.adam_mw[l].len() == tailles_poids(m.sizes)[l]);
    assert(m.adam_vw[l].len() == tailles_poids(m.sizes)[l]);
    assert(m.adam_mb[l].len() == tailles_biais(m.sizes)[l]);
    assert(m.adam_vb[l].len() == tailles_biais(m.sizes)[l]);
}

/// A graft copies a neuron's weights into every zone of the king, and those of
/// the flags once; the first layer grows to 6149 inputs, the other layers and
/// the biases stay, and the training starts afresh.
pub proof fn loi_greffe(m: VueMlp, j: int, z: int, i: int, k: int)
    requires
        forme(m),
        m.sizes[0] == 773,
        0 <= j < m.sizes[1],
        0 <= z < 8,
        0 <= i < 768,
        0 <= k < 5,
    ensures
        ({
            let g = greffe(m);
            &&& g.weights[0][j * 6149 + 768 * z + i] == m.weights[0][j * 773 + i]
            &&& g.weights[0][j * 6149 + 6144 + k] == m.weights[0][j * 773 + 768 + k]
            &&& g.sizes[0] == 6149 && g.sizes.len() == m.sizes.len()
            &&& forall|l: int| 1 <= l < m.sizes.len() ==> #[trigger] g.sizes[l] == m.sizes[l]
            &&& forall|l: int| 1 <= l < m.weights.len() ==> #[trigger] g.weights[l] == m.weights[l]
            &&& g.biases == m.biases && g.steps == 0
            &&& forme(g)
            &&& forall|l: int, x: int|
                0 <= l < g.adam_mw.len() && 0 <= x < g.adam_mw[l].len() ==> #[trigger] g.adam_mw[l][x]
                    == 0
        }),
{
    let n1 = m.sizes[1] as int;
    lemme_greffe_forme(m);
    lemme_case_greffee(m.weights[0], n1, j, 768 * z + i);
    lemme_case_greffee(m.weights[0], n1, j, 6144 + k);
    crate::features_roi::loi_sans_zone(z, i, k);
    assert(j * 6149 + 768 * z + i == j * 6149 + (768 * z + i));
    assert(j * 773 + 768 + k == j * 773 + (768 + k));
}

proof fn lemme_case_greffee(w: Seq<u32>, n1: int, j: int, x: int)
    requires
        0 <= j < n1,
        0 <= x < 6149,
    ensures
        couche_greffee(w, n1)[j * 6149 + x] == w[j * 773 + crate::features_roi::sans_zone(x)],
{
    assert(0 <= j * 6149 + x < n1 * 6149) by (nonlinear_arith)
        requires
            0 <= j < n1,
            0 <= x < 6149,
    ;
    assert((j * 6149 + x) / 6149 == j && (j * 6149 + x) % 6149 == x);
}

/// A stored column is the one that was given for it.
pub proof fn loi_colonne_posee(
    w: Seq<u32>,
    n_in: int,
    n_out: int,
    cols: Seq<u16>,
    valeurs: Seq<u32>,
    j: int,
    r: int,
)
    requires
        croissantes(cols),
        0 <= r < cols.len(),
    ensures
        colonnes_posees(w, n_in, n_out, cols, valeurs, j, cols[r] as int) == valeurs[r * n_out + j],
{
    let c = cols[r] as int;
    assert(cols[r] == c);
    let q = choose|q: int| 0 <= q < cols.len() && #[trigger] cols[q] == c;
    assert(cols[q] == cols[r]);
    if q < r {
        assert(cols[q] < cols[r]);
    } else if r < q {
        assert(cols[r] < cols[q]);
    }
}

/// A column is touched when some entry of the batch activates it.
pub proof fn loi_touchee(lots: Seq<Vec<u16>>, c: u16, i: int)
    requires
        0 <= i < lots.len(),
    ensures
        lots[i]@.contains(c) ==> touchee(lots, c),
        (forall|k: int| 0 <= k < lots.len() ==> !(#[trigger] lots[k])@.contains(c)) ==> !touchee(
            lots,
            c,
        ),
{
}

/// Layers of a new network, when none are asked for.
pub proof fn loi_tailles_par_defaut(r: Vec<usize>)
    requires
        call_ensures(tailles_par_defaut, (), r),
    ensures
        r@.len() == 4,
        r@[0] == 773 && r@[1] == 512 && r@[2] == 64 && r@[3] == 1,
{
}

/// A group is read layer after layer, each where the one before ended; it is
/// cut short as soon as one does not fit.
pub proof fn loi_groupe_lu(b: Seq<u8>, p: int, tailles: Seq<int>, k: int)
    requires
        0 <= k < tailles.len(),
        tailles[k] >= 0,
    ensures
        groupe_lu(b, p, tailles, 0) == Some((Seq::<Seq<u32>>::empty(), p)),
        groupe_lu(b, p, tailles, k) is None ==> groupe_lu(b, p, tailles, k + 1) is None,
        match groupe_lu(b, p, tailles, k) {
            Some((g, q)) => {
                &&& q + 4 * tailles[k] > b.len() ==> groupe_lu(b, p, tailles, k + 1) is None
                &&& q + 4 * tailles[k] <= b.len() ==> (groupe_lu(b, p, tailles, k + 1) matches Some(
                    (h, s),
                ) && s == q + 4 * tailles[k] && h.len() == g.len() + 1 && h.last().len()
                    == tailles[k] && forall|i: int|
                    0 <= i < tailles[k] ==> #[trigger] h.last()[i] == u32_en(b, q + 4 * i))
            },
            None => true,
        },
{
}

} // verus!
