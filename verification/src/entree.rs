//! What a network is fed for a position.
use crate::echiquier;
use crate::features;
use crate::features_roi;
use crate::nn::SchemaFeatures;
use vstd::prelude::*;

verus! {

/// The input of a network: every feature, one or zero, or the active ones by
/// their numbers.
pub enum Entree {
    Dense(Vec<u8>),
    Creuse(Vec<u16>),
}

/// The input for a position, seen by the side to move.
pub open spec fn entree_de(e: Entree, p: echiquier::VuePosition, schema: SchemaFeatures) -> bool {
    match (schema, e) {
        (SchemaFeatures::Classique773, Entree::Dense(x)) => x@.len() == features::N_FEATURES
            && forall|i: int|
            0 <= i < features::N_FEATURES ==> #[trigger] x@[i] == if features::active(p, p.1, i) {
                1u8
            } else {
                0u8
            },
        (SchemaFeatures::RoiZones8, Entree::Creuse(a)) => a@ == features_roi::actifs_attendus(
            p,
            p.1,
        ),
        _ => false,
    }
}

/// The input of a network for a position, by the features of the network.
/// Nothing where the position cannot be read.
pub fn entree(schema: SchemaFeatures, fen: &str) -> (r: Option<Entree>)
    ensures
        match (r, echiquier::position_de(fen@)) {
            (Some(e), Some(p)) => entree_de(e, p, schema),
            (None, None) => true,
            _ => false,
        },
{
    match echiquier::lit_position(fen) {
        None => None,
        Some(p) => match schema {
            SchemaFeatures::Classique773 => {
                let mut x: Vec<u8> = Vec::new();
                features::encode(&p, &mut x);
                Some(Entree::Dense(x))
            },
            SchemaFeatures::RoiZones8 => {
                let mut a: Vec<u16> = Vec::new();
                features_roi::actifs(&p, &mut a);
                Some(Entree::Creuse(a))
            },
        },
    }
}

/// Zone of the king of the side to move. Nothing where the position cannot be
/// read.
pub fn zone_de_fen(fen: &str) -> (r: Option<usize>)
    ensures
        match (r, echiquier::position_de(fen@)) {
            (Some(z), Some(p)) => z == features_roi::zone_de(p, p.1) && z < features_roi::N_ZONES_ROI,
            (None, None) => true,
            _ => false,
        },
{
    match echiquier::lit_position(fen) {
        None => None,
        Some(p) => Some(features_roi::zone_du_trait(&p)),
    }
}

/// What a network is fed: under the classic schema the 773 features, one or
/// zero; under the zoned schema the numbers of the active ones; both from the
/// side to move. A position has one such entry.
pub proof fn loi_entree_unique(
    a: Entree,
    b: Entree,
    p: echiquier::VuePosition,
    schema: SchemaFeatures,
)
    requires
        entree_de(a, p, schema),
        entree_de(b, p, schema),
    ensures
        match (a, b) {
            (Entree::Dense(x), Entree::Dense(y)) => schema is Classique773 && x@ == y@ && x@.len()
                == 773 && forall|i: int|
                0 <= i < 773 ==> (#[trigger] x@[i] == 1 <==> features::active(p, p.1, i)),
            (Entree::Creuse(x), Entree::Creuse(y)) => schema is RoiZones8 && x@ == y@,
            _ => false,
        },
{
}

} // verus!
