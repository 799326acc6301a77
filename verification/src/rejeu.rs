//! The memory that a training draws its lessons from: the last positions
//! played, each with the value to learn.
use crate::departs;
use crate::features::N_FEATURES;
use rand::rngs::StdRng;
use vstd::prelude::*;

verus! {

// ---------------------------------------------------------------------------
// A ring
// ---------------------------------------------------------------------------

/// What a ring holds, and the place of its next entry.
pub struct VueAnneau<E> {
    pub places: Seq<E>,
    pub tete: int,
    pub capacite: int,
}

/// A ring that can hold `capacite` entries and holds none.
pub open spec fn anneau_neuf<E>(capacite: int) -> VueAnneau<E> {
    VueAnneau { places: Seq::empty(), tete: 0, capacite }
}

/// One more entry: in a new place while there is room, else in place of the
/// oldest one.
pub open spec fn anneau_suivant<E>(a: VueAnneau<E>, e: E) -> VueAnneau<E> {
    VueAnneau {
        places: if a.places.len() < a.capacite {
            a.places.push(e)
        } else {
            a.places.update(a.tete, e)
        },
        tete: (a.tete + 1) % a.capacite,
        capacite: a.capacite,
    }
}

/// The ring after a history of entries.
pub open spec fn anneau_de<E>(h: Seq<E>, capacite: int) -> VueAnneau<E>
    decreases h.len(),
{
    if h.len() == 0 {
        anneau_neuf(capacite)
    } else {
        anneau_suivant(anneau_de(h.drop_last(), capacite), h.last())
    }
}

/// A ring that came about by entries: full, or with its next place at the end.
pub open spec fn anneau_sain<E>(a: VueAnneau<E>) -> bool {
    &&& 0 < a.capacite
    &&& a.places.len() <= a.capacite
    &&& 0 <= a.tete < a.capacite
    &&& a.places.len() < a.capacite ==> a.tete == a.places.len()
}

proof fn lemme_anneau<E>(h: Seq<E>, capacite: int)
    requires
        0 < capacite,
    ensures
        anneau_sain(anneau_de(h, capacite)),
        anneau_de(h, capacite).capacite == capacite,
        anneau_de(h, capacite).tete == h.len() as int % capacite,
        anneau_de(h, capacite).places.len() == if h.len() < capacite {
            h.len() as int
        } else {
            capacite
        },
    decreases h.len(),
{
    if h.len() == 0 {
        assert(0int % capacite == 0) by (nonlinear_arith)
            requires
                0 < capacite,
        ;
    } else {
        lemme_anneau(h.drop_last(), capacite);
        lemme_suivant(h.len() - 1, capacite);
        if h.len() - 1 < capacite {
            lemme_petit(h.len() - 1, capacite);
        }
        if h.len() < capacite {
            lemme_petit(h.len() as int, capacite);
        }
    }
}

proof fn lemme_suivant(n: int, c: int)
    requires
        0 <= n,
        0 < c,
    ensures
        (n % c + 1) % c == (n + 1) % c,
        0 <= (n + 1) % c < c,
{
    vstd::arithmetic::div_mod::lemma_add_mod_noop(n, 1, c);
    vstd::arithmetic::div_mod::lemma_add_mod_noop(n % c, 1, c);
    vstd::arithmetic::div_mod::lemma_mod_twice(n, c);
    vstd::arithmetic::div_mod::lemma_mod_bound(n + 1, c);
}

proof fn lemme_petit(n: int, c: int)
    requires
        0 <= n < c,
    ensures
        n % c == n,
{
    vstd::arithmetic::div_mod::lemma_small_mod(n as nat, c as nat);
}

/// Two numbers less than `c` apart fall in different places.
proof fn lemme_places_distinctes(i: int, j: int, c: int)
    requires
        0 <= i < j < i + c,
        0 < c,
    ensures
        i % c != j % c,
{
    vstd::arithmetic::div_mod::lemma_fundamental_div_mod(i, c);
    vstd::arithmetic::div_mod::lemma_fundamental_div_mod(j, c);
    if i % c == j % c {
        let d = j / c - i / c;
        assert(j - i == c * d) by (nonlinear_arith)
            requires
                i == c * (i / c) + i % c,
                j == c * (j / c) + j % c,
                i % c == j % c,
                d == j / c - i / c,
        ;
        assert(d > 0) by (nonlinear_arith)
            requires
                c * d > 0,
                c > 0,
        ;
        assert(c * d >= c) by (nonlinear_arith)
            requires
                d >= 1,
                c > 0,
        ;
    }
}

/// A ring holds the last entries of its history, as many as it can: the one
/// that came in as number `j` stands at the place `j` modulo the capacity.
pub proof fn loi_dernieres_entrees<E>(h: Seq<E>, capacite: int, j: int)
    requires
        0 < capacite,
        0 <= j < h.len(),
        h.len() - capacite <= j,
    ensures
        0 <= j % capacite < anneau_de(h, capacite).places.len(),
        anneau_de(h, capacite).places[j % capacite] == h[j],
    decreases h.len(),
{
    let n = h.len() as int;
    let d = h.drop_last();
    let a = anneau_de(d, capacite);
    lemme_anneau(h, capacite);
    lemme_anneau(d, capacite);
    vstd::arithmetic::div_mod::lemma_mod_bound(j, capacite);
    if n <= capacite {
        lemme_petit(j, capacite);
    }
    if j == n - 1 {
        if n - 1 < capacite {
            lemme_petit(j, capacite);
        }
    } else {
        loi_dernieres_entrees(d, capacite, j);
        assert(h[j] == d[j]);
        if n - 1 >= capacite {
            lemme_places_distinctes(j, n - 1, capacite);
        }
    }
}

/// A ring never holds more than it can.
pub proof fn loi_anneau_borne<E>(h: Seq<E>, capacite: int)
    requires
        0 < capacite,
    ensures
        anneau_de(h, capacite).places.len() <= capacite,
        anneau_sain(anneau_de(h, capacite)),
{
    lemme_anneau(h, capacite);
}

// ---------------------------------------------------------------------------
// Positions by their active features
// ---------------------------------------------------------------------------

/// Positions by their active features, each with the value to learn as `f32`
/// bits.
pub struct RejeuCreux {
    pub actifs: Vec<Vec<u16>>,
    pub zs: Vec<u32>,
    pub capacite: usize,
    pub tete: usize,
}

impl View for RejeuCreux {
    type V = VueAnneau<(Seq<u16>, u32)>;

    open spec fn view(&self) -> VueAnneau<(Seq<u16>, u32)> {
        VueAnneau {
            places: Seq::new(self.zs@.len(), |i: int| (self.actifs@[i]@, self.zs@[i])),
            tete: self.tete as int,
            capacite: self.capacite as int,
        }
    }
}

/// The two lists of a memory keep step, and it came about by entries.
pub open spec fn creux_sain(m: RejeuCreux) -> bool {
    m.actifs@.len() == m.zs@.len() && anneau_sain(m@)
}

fn copie_indices(a: &Vec<u16>) -> (r: Vec<u16>)
    ensures
        r@ == a@,
{
    let mut r: Vec<u16> = Vec::new();
    let mut i: usize = 0;
    while i < a.len()
        invariant
            i <= a.len(),
            r@ == a@.take(i as int),
        decreases a.len() - i,
    {
        r.push(a[i]);
        assert(a@.take(i as int + 1) =~= a@.take(i as int).push(a@[i as int]));
        i += 1;
    }
    assert(a@.take(a@.len() as int) =~= a@);
    r
}

impl RejeuCreux {
    /// A memory for `capacite` positions.
    pub fn new(capacite: usize) -> (r: RejeuCreux)
        requires
            0 < capacite,
        ensures
            r@ == anneau_neuf::<(Seq<u16>, u32)>(capacite as int),
            creux_sain(r),
    {
        let r: RejeuCreux = RejeuCreux { actifs: Vec::new(), zs: Vec::new(), capacite, tete: 0 };
        assert(r@.places =~= Seq::empty());
        r
    }

    /// Keeps one more position.
    pub fn push(&mut self, a: &Vec<u16>, z: u32)
        requires
            creux_sain(*old(self)),
        ensures
            final(self)@ == anneau_suivant(old(self)@, (a@, z)),
            creux_sain(*final(self)),
    {
        let ghost avant = self@;
        let c: Vec<u16> = copie_indices(a);
        if self.zs.len() < self.capacite {
            self.actifs.push(c);
            self.zs.push(z);
            assert(self@.places =~= avant.places.push((a@, z)));
        } else {
            self.actifs.set(self.tete, c);
            self.zs.set(self.tete, z);
            assert(self@.places =~= avant.places.update(avant.tete, (a@, z)));
        }
        proof {
            if avant.tete + 1 < avant.capacite {
                lemme_petit(avant.tete + 1, avant.capacite);
            } else {
                vstd::arithmetic::div_mod::lemma_mod_self_0(avant.capacite);
            }
        }
        self.tete = if self.tete + 1 < self.capacite {
            self.tete + 1
        } else {
            0
        };
    }

    /// How many positions are kept.
    pub fn len(&self) -> (r: usize)
        ensures
            r == self@.places.len(),
    {
        self.zs.len()
    }

    /// Draws `n` positions, each among all that are kept.
    pub fn echantillonne(&self, rng: &mut StdRng, n: usize) -> (r: Vec<(Vec<u16>, u32)>)
        requires
            creux_sain(*self),
            0 < self@.places.len(),
        ensures
            r@.len() == n,
            forall|k: int|
                0 <= k < n ==> self@.places.contains(((#[trigger] r@[k]).0@, r@[k].1)),
    {
        let mut r: Vec<(Vec<u16>, u32)> = Vec::new();
        while r.len() < n
            invariant
                r@.len() <= n,
                creux_sain(*self),
                0 < self@.places.len(),
                forall|k: int|
                    0 <= k < r@.len() ==> self@.places.contains(((#[trigger] r@[k]).0@, r@[k].1)),
            decreases n - r.len(),
        {
            let i: usize = departs::tire_place(self.zs.len(), rng);
            let a: Vec<u16> = copie_indices(&self.actifs[i]);
            let z: u32 = self.zs[i];
            assert(self@.places[i as int] == (a@, z));
            r.push((a, z));
        }
        r
    }
}

// ---------------------------------------------------------------------------
// Positions by their whole encoding
// ---------------------------------------------------------------------------

/// Positions by their whole encoding, one after the other, each with the value
/// to learn. All numbers are `f32` bits.
pub struct Rejeu {
    pub xs: Vec<u32>,
    pub zs: Vec<u32>,
    pub capacite: usize,
    pub tete: usize,
}

/// The encoding of the position at a place.
pub open spec fn bloc(xs: Seq<u32>, i: int) -> Seq<u32> {
    xs.subrange(i * N_FEATURES, (i + 1) * N_FEATURES)
}

impl View for Rejeu {
    type V = VueAnneau<(Seq<u32>, u32)>;

    open spec fn view(&self) -> VueAnneau<(Seq<u32>, u32)> {
        VueAnneau {
            places: Seq::new(self.zs@.len(), |i: int| (bloc(self.xs@, i), self.zs@[i])),
            tete: self.tete as int,
            capacite: self.capacite as int,
        }
    }
}

/// The two lists of a memory keep step, and it came about by entries.
pub open spec fn dense_sain(m: Rejeu) -> bool {
    m.xs@.len() == m.zs@.len() * N_FEATURES && anneau_sain(m@)
}

impl Rejeu {
    /// A memory for `capacite` positions.
    pub fn new(capacite: usize) -> (r: Rejeu)
        requires
            0 < capacite,
        ensures
            r@ == anneau_neuf::<(Seq<u32>, u32)>(capacite as int),
            dense_sain(r),
    {
        let r: Rejeu = Rejeu { xs: Vec::new(), zs: Vec::new(), capacite, tete: 0 };
        assert(r@.places =~= Seq::empty());
        r
    }

    /// Keeps one more position.
    pub fn push(&mut self, x: &Vec<u32>, z: u32)
        requires
            dense_sain(*old(self)),
            x@.len() == N_FEATURES,
        ensures
            final(self)@ == anneau_suivant(old(self)@, (x@, z)),
            dense_sain(*final(self)),
    {
        let ghost avant = self@;
        let ghost xs0 = self.xs@;
        let ghost n0 = self.zs@.len() as int;
        if self.zs.len() < self.capacite {
            let mut k: usize = 0;
            assert(self.xs@ =~= xs0 + x@.take(0));
            while k < N_FEATURES
                invariant
                    k <= N_FEATURES,
                    x@.len() == N_FEATURES,
                    self.xs@ == xs0 + x@.take(k as int),
                    self.zs == old(self).zs,
                    self.capacite == old(self).capacite,
                    self.tete == old(self).tete,
                decreases N_FEATURES - k,
            {
                self.xs.push(x[k]);
                k += 1;
                assert(self.xs@ =~= xs0 + x@.take(k as int));
            }
            self.zs.push(z);
            assert(x@.take(N_FEATURES as int) =~= x@);
            assert forall|i: int| 0 <= i <= n0 implies #[trigger] bloc(self.xs@, i) == if i < n0 {
                bloc(xs0, i)
            } else {
                x@
            } by {
                assert(bloc(self.xs@, i) =~= if i < n0 {
                    bloc(xs0, i)
                } else {
                    x@
                });
            }
            assert(self@.places =~= avant.places.push((x@, z)));
        } else {
            let t: usize = self.tete;
            let total: usize = self.xs.len();
            let mut k: usize = 0;
            assert(bloc(xs0, t as int).take(0) =~= x@.take(0));
            while k < N_FEATURES
                invariant
                    k <= N_FEATURES,
                    x@.len() == N_FEATURES,
                    t < n0,
                    xs0.len() == n0 * N_FEATURES,
                    total == xs0.len(),
                    self.xs@.len() == xs0.len(),
                    forall|p: int|
                        0 <= p < xs0.len() ==> #[trigger] self.xs@[p] == if t * N_FEATURES <= p < t
                            * N_FEATURES + k {
                            x@[p - t * N_FEATURES]
                        } else {
                            xs0[p]
                        },
                    self.zs == old(self).zs,
                    self.capacite == old(self).capacite,
                    self.tete == old(self).tete,
                decreases N_FEATURES - k,
            {
                assert(t * N_FEATURES + k < xs0.len()) by (nonlinear_arith)
                    requires
                        t < n0,
                        k < N_FEATURES,
                        xs0.len() == n0 * N_FEATURES,
                ;
                let p: usize = t * N_FEATURES + k;
                self.xs.set(p, x[k]);
                k += 1;
            }
            self.zs.set(t, z);
            assert forall|i: int| 0 <= i < n0 implies #[trigger] bloc(self.xs@, i) == if i == t {
                x@
            } else {
                bloc(xs0, i)
            } by {
                assert((i + 1) * N_FEATURES <= n0 * N_FEATURES) by (nonlinear_arith)
                    requires
                        i < n0,
                ;
                assert(bloc(self.xs@, i) =~= if i == t {
                    x@
                } else {
                    bloc(xs0, i)
                });
            }
            assert(self@.places =~= avant.places.update(avant.tete, (x@, z)));
        }
        proof {
            if avant.tete + 1 < avant.capacite {
                lemme_petit(avant.tete + 1, avant.capacite);
            } else {
                vstd::arithmetic::div_mod::lemma_mod_self_0(avant.capacite);
            }
        }
        self.tete = if self.tete + 1 < self.capacite {
            self.tete + 1
        } else {
            0
        };
    }

    /// How many positions are kept.
    pub fn len(&self) -> (r: usize)
        ensures
            r == self@.places.len(),
    {
        self.zs.len()
    }

    /// Draws `n` positions, each among all that are kept: their encodings one
    /// after the other, and their values.
    pub fn echantillonne(&self, rng: &mut StdRng, n: usize) -> (r: (Vec<u32>, Vec<u32>))
        requires
            dense_sain(*self),
            0 < self@.places.len(),
        ensures
            r.1@.len() == n,
            r.0@.len() == n * N_FEATURES,
            forall|k: int|
                0 <= k < n ==> self@.places.contains((#[trigger] bloc(r.0@, k), r.1@[k])),
    {
        let mut lot_xs: Vec<u32> = Vec::new();
        let mut lot_zs: Vec<u32> = Vec::new();
        while lot_zs.len() < n
            invariant
                lot_zs@.len() <= n,
                lot_xs@.len() == lot_zs@.len() * N_FEATURES,
                dense_sain(*self),
                0 < self@.places.len(),
                forall|k: int|
                    0 <= k < lot_zs@.len() ==> self@.places.contains(
                        (#[trigger] bloc(lot_xs@, k), lot_zs@[k]),
                    ),
            decreases n - lot_zs.len(),
        {
            let i: usize = departs::tire_place(self.zs.len(), rng);
            let ghost xs0 = lot_xs@;
            let ghost zs0 = lot_zs@;
            let ghost b = bloc(self.xs@, i as int);
            let total: usize = self.xs.len();
            let mut k: usize = 0;
            assert((i + 1) * N_FEATURES <= self.xs@.len()) by (nonlinear_arith)
                requires
                    i < self.zs@.len(),
                    self.xs@.len() == self.zs@.len() * N_FEATURES,
            ;
            assert(lot_xs@ =~= xs0 + b.take(0));
            while k < N_FEATURES
                invariant
                    k <= N_FEATURES,
                    b == bloc(self.xs@, i as int),
                    (i + 1) * N_FEATURES <= self.xs@.len(),
                    total == self.xs@.len(),
                    lot_xs@ == xs0 + b.take(k as int),
                decreases N_FEATURES - k,
            {
                lot_xs.push(self.xs[i * N_FEATURES + k]);
                k += 1;
                assert(lot_xs@ =~= xs0 + b.take(k as int));
            }
            assert(b.take(N_FEATURES as int) =~= b);
            lot_zs.push(self.zs[i]);
            proof {
                let m = zs0.len() as int;
                assert(self@.places[i as int] == (b, self.zs@[i as int]));
                assert forall|k: int| 0 <= k <= m implies self@.places.contains(
                    (#[trigger] bloc(lot_xs@, k), lot_zs@[k]),
                ) by {
                    if k < m {
                        assert((k + 1) * N_FEATURES <= m * N_FEATURES) by (nonlinear_arith)
                            requires
                                k < m,
                        ;
                        assert(bloc(lot_xs@, k) =~= bloc(xs0, k));
                        assert(lot_zs@[k] == zs0[k]);
                    } else {
                        assert(bloc(lot_xs@, k) =~= b);
                    }
                }
            }
        }
        (lot_xs, lot_zs)
    }
}

/// A full memory forgets its oldest entry: adding one to a memory that is not
/// full lengthens it by one, and to a full one replaces one place and keeps
/// the others; places are filled round and round.
pub proof fn loi_ajout_a_l_anneau<E>(a: VueAnneau<E>, e: E, i: int)
    requires
        anneau_sain(a),
        0 <= i < a.places.len(),
    ensures
        ({
            let b = anneau_suivant(a, e);
            &&& a.places.len() < a.capacite ==> b.places.len() == a.places.len() + 1
                && b.places.last() == e && b.places[i] == a.places[i]
            &&& a.places.len() == a.capacite ==> b.places.len() == a.places.len() && b.places[a.tete]
                == e && (i != a.tete ==> b.places[i] == a.places[i])
            &&& a.tete + 1 < a.capacite ==> b.tete == a.tete + 1
            &&& a.tete + 1 == a.capacite ==> b.tete == 0
            &&& b.capacite == a.capacite
        }),
{
    if a.tete + 1 < a.capacite {
        vstd::arithmetic::div_mod::lemma_small_mod((a.tete + 1) as nat, a.capacite as nat);
    } else {
        vstd::arithmetic::div_mod::lemma_mod_self_0(a.capacite);
    }
}

/// A memory that has seen no more entries than it can hold keeps them all, in
/// order.
pub proof fn loi_anneau_avant_le_tour<E>(h: Seq<E>, capacite: int)
    requires
        0 < capacite,
        h.len() <= capacite,
    ensures
        anneau_de(h, capacite).places == h,
        anneau_de(h, capacite).capacite == capacite,
    decreases h.len(),
{
    if h.len() > 0 {
        loi_anneau_avant_le_tour(h.drop_last(), capacite);
        assert(h.drop_last().push(h.last()) =~= h);
    } else {
        assert(anneau_de(h, capacite).places =~= h);
    }
}

/// Entries of a dense memory stand one after the other, 773 numbers each.
pub proof fn loi_bloc(xs: Seq<u32>, i: int, k: int)
    requires
        0 <= i,
        (i + 1) * 773 <= xs.len(),
        0 <= k < 773,
    ensures
        bloc(xs, i).len() == 773,
        bloc(xs, i)[k] == xs[773 * i + k],
{
}

} // verus!
