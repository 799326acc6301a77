//! Snapshots of the network at milestones of the time spent in training.
use crate::texte;
use vstd::prelude::*;

verus! {

/// Number of milestones.
pub const N_PALIERS: usize = 5;

/// Hours of training at which a snapshot is kept.
pub const MILESTONES_H: [u64; 5] = [1, 3, 10, 30, 100];

/// `f64` bits of the milestones.
pub const MILESTONES_BITS: [u64; 5] = [
    0x3ff0_0000_0000_0000,
    0x4008_0000_0000_0000,
    0x4024_0000_0000_0000,
    0x403e_0000_0000_0000,
    0x4059_0000_0000_0000,
];

/// Are the `f64` bits those of no number?
pub open spec fn nan(bits: u64) -> bool {
    bits & 0x7fff_ffff_ffff_ffff > 0x7ff0_0000_0000_0000
}

/// An integer that orders `f64` bits as the numbers are ordered; both zeros
/// are zero.
pub open spec fn cle(bits: u64) -> int {
    if bits < 0x8000_0000_0000_0000 {
        bits as int
    } else {
        -(bits - 0x8000_0000_0000_0000)
    }
}

fn est_nan(bits: u64) -> (r: bool)
    ensures
        r == nan(bits),
{
    bits & 0x7fff_ffff_ffff_ffff > 0x7ff0_0000_0000_0000
}

fn cle_f64(bits: u64) -> (r: i128)
    ensures
        r == cle(bits),
{
    if bits < 0x8000_0000_0000_0000 {
        bits as i128
    } else {
        -((bits - 0x8000_0000_0000_0000) as i128)
    }
}

/// The milestone lies after the first moment and not after the second.
pub open spec fn franchi(before_h: u64, after_h: u64, k: int) -> bool {
    &&& !nan(before_h) && !nan(after_h)
    &&& cle(before_h) < cle(MILESTONES_BITS@[k]) <= cle(after_h)
}

/// The milestone crossed between two moments, both in hours as `f64` bits:
/// the smallest one after the first and not after the second, in hours.
pub fn milestone_crossed(before_h: u64, after_h: u64) -> (r: Option<u64>)
    ensures
        match r {
            Some(h) => exists|k: int|
                #![trigger MILESTONES_H@[k]]
                0 <= k < N_PALIERS && h == MILESTONES_H@[k] && franchi(before_h, after_h, k)
                    && forall|j: int| 0 <= j < k ==> !#[trigger] franchi(before_h, after_h, j),
            None => forall|k: int| 0 <= k < N_PALIERS ==> !#[trigger] franchi(before_h, after_h, k),
        },
{
    let mut k: usize = 0;
    while k < N_PALIERS
        invariant
            k <= N_PALIERS,
            forall|j: int| 0 <= j < k ==> !#[trigger] franchi(before_h, after_h, j),
        decreases N_PALIERS - k,
    {
        let m: u64 = MILESTONES_BITS[k];
        if !est_nan(before_h) && !est_nan(after_h) && cle_f64(before_h) < cle_f64(m) && cle_f64(m)
            <= cle_f64(after_h) {
            let h: u64 = MILESTONES_H[k];
            assert(franchi(before_h, after_h, k as int));
            assert(h == MILESTONES_H@[k as int]);
            return Some(h);
        }
        k += 1;
    }
    None
}

/// When time goes on in steps, each milestone is crossed in one step and in no
/// other.
pub proof fn loi_palier_unique(a: u64, b: u64, c: u64, k: int)
    requires
        0 <= k < N_PALIERS,
        !nan(a) && !nan(b) && !nan(c),
        cle(a) <= cle(b) <= cle(c),
    ensures
        franchi(a, c, k) == (franchi(a, b, k) || franchi(b, c, k)),
        !(franchi(a, b, k) && franchi(b, c, k)),
{
}

/// Path of the snapshot of a milestone.
pub open spec fn chemin_du_palier(dir: Seq<char>, hours: u64) -> Seq<char> {
    dir + "/chess_t"@ + texte::decimal(hours as nat) + "h.bin"@
}

/// Path of the snapshot of a milestone, in whole hours.
pub fn milestone_path(dir: &str, hours: u64) -> (r: String)
    ensures
        r@ == chemin_du_palier(dir@, hours),
{
    let mut t: Vec<char> = texte::caracteres(dir);
    texte::ajoute_texte(&mut t, "/chess_t");
    let h: Vec<char> = texte::ecrit_naturel(hours);
    texte::ajoute(&mut t, &h);
    texte::ajoute_texte(&mut t, "h.bin");
    texte::texte(&t)
}

/// Path of the latest network.
pub fn latest_path(dir: &str) -> (r: String)
    ensures
        r@ == dir@ + "/chess_latest.bin"@,
{
    let mut t: Vec<char> = texte::caracteres(dir);
    texte::ajoute_texte(&mut t, "/chess_latest.bin");
    texte::texte(&t)
}

/// Path of the file that keeps the state of the training.
pub fn state_path(dir: &str) -> (r: String)
    ensures
        r@ == dir@ + "/state.json"@,
{
    let mut t: Vec<char> = texte::caracteres(dir);
    texte::ajoute_texte(&mut t, "/state.json");
    texte::texte(&t)
}

/// What a training has done since it began.
#[derive(Clone, Copy, Debug, PartialEq, Eq, Structural)]
pub struct TrainState {
    /// Seconds spent, as `f64` bits.
    pub trained_secs: u64,
    pub games: u64,
    pub positions: u64,
    pub cycles: u64,
}

impl Default for TrainState {
    /// A training that has not begun.
    fn default() -> (r: TrainState)
        ensures
            r == (TrainState { trained_secs: 0, games: 0, positions: 0, cycles: 0 }),
    {
        TrainState { trained_secs: 0, games: 0, positions: 0, cycles: 0 }
    }
}

impl TrainState {
    /// The state of a training that is taken up again: the one that was kept,
    /// or none where there was no file or it could not be read.
    pub fn load(lu: Option<TrainState>) -> (r: TrainState)
        ensures
            match lu {
                Some(e) => r == e,
                None => r == (TrainState { trained_secs: 0, games: 0, positions: 0, cycles: 0 }),
            },
    {
        match lu {
            Some(e) => e,
            None => TrainState::default(),
        }
    }
}

/// Snapshots are kept at 1, 3, 10, 30 and 100 hours: from before a milestone
/// to that milestone or later it is passed, and not otherwise.
pub proof fn loi_paliers(before_h: u64, after_h: u64)
    requires
        before_h < 0x7ff0_0000_0000_0000,
        after_h < 0x7ff0_0000_0000_0000,
    ensures
        franchi(before_h, after_h, 0) <==> before_h < 0x3ff0_0000_0000_0000 <= after_h,
        franchi(before_h, after_h, 1) <==> before_h < 0x4008_0000_0000_0000 <= after_h,
        franchi(before_h, after_h, 2) <==> before_h < 0x4024_0000_0000_0000 <= after_h,
        franchi(before_h, after_h, 3) <==> before_h < 0x403e_0000_0000_0000 <= after_h,
        franchi(before_h, after_h, 4) <==> before_h < 0x4059_0000_0000_0000 <= after_h,
        MILESTONES_H@[0] == 1 && MILESTONES_H@[1] == 3 && MILESTONES_H@[2] == 10 && MILESTONES_H@[3]
            == 30 && MILESTONES_H@[4] == 100,
{
    loi_pas_un_nombre(before_h);
    loi_pas_un_nombre(after_h);
}

/// No number: every exponent bit set and a fraction that is not zero.
pub proof fn loi_pas_un_nombre(bits: u64)
    ensures
        bits <= 0x7ff0_0000_0000_0000 ==> !nan(bits),
        0x7ff0_0000_0000_0000 < bits < 0x8000_0000_0000_0000 ==> nan(bits),
        0x8000_0000_0000_0000 <= bits <= 0xfff0_0000_0000_0000 ==> !nan(bits),
        bits > 0xfff0_0000_0000_0000 ==> nan(bits),
{
    assert(bits < 0x8000_0000_0000_0000 ==> bits & 0x7fff_ffff_ffff_ffff == bits) by (bit_vector);
    assert(bits >= 0x8000_0000_0000_0000 ==> bits & 0x7fff_ffff_ffff_ffff == bits
        - 0x8000_0000_0000_0000) by (bit_vector);
}

/// Patterns are ordered like their numbers: positive ones by pattern, negative
/// ones by the reverse, and every negative one below every positive one.
pub proof fn loi_ordre_des_motifs(a: u64, b: u64)
    ensures
        a < 0x8000_0000_0000_0000 && b < 0x8000_0000_0000_0000 ==> (cle(a) < cle(b) <==> a < b),
        a >= 0x8000_0000_0000_0000 && b >= 0x8000_0000_0000_0000 ==> (cle(a) < cle(b) <==> a > b),
        a < 0x8000_0000_0000_0000 && b >= 0x8000_0000_0000_0000 ==> cle(a) >= cle(b),
{
}

/// Two milestones never share a snapshot.
pub proof fn loi_chemins_distincts(dir: Seq<char>, a: u64, b: u64)
    ensures
        chemin_du_palier(dir, a) == chemin_du_palier(dir, b) ==> a == b,
        dir.is_prefix_of(chemin_du_palier(dir, a)),
{
    reveal_strlit("/chess_t");
    reveal_strlit("h.bin");
    let p = dir + "/chess_t"@;
    let da = texte::decimal(a as nat);
    let db = texte::decimal(b as nat);
    let ca = chemin_du_palier(dir, a);
    let cb = chemin_du_palier(dir, b);
    assert(dir =~= ca.take(dir.len() as int));
    if ca == cb {
        assert(ca.len() == p.len() + da.len() + "h.bin"@.len());
        assert(cb.len() == p.len() + db.len() + "h.bin"@.len());
        assert(da.len() == db.len());
        assert(da =~= ca.subrange(p.len() as int, (p.len() + da.len()) as int));
        assert(db =~= cb.subrange(p.len() as int, (p.len() + db.len()) as int));
        texte::lemme_decimal(a as nat);
        texte::lemme_decimal(b as nat);
    }
}

} // verus!
