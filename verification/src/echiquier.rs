//! The board, as the rules of chess see it.
//!
//! A position is its FEN text; a move is its UCI text. The rules themselves
//! come from the `shakmaty` crate: each function of this module hands a text
//! to it and takes plain values back.
use shakmaty::fen::Fen;
use shakmaty::san::{San, SanPlus};
use shakmaty::uci::UciMove;
use shakmaty::zobrist::{Zobrist64, ZobristHash};
use shakmaty::CastlingSide::{KingSide, QueenSide};
use shakmaty::Color::{Black, White};
use shakmaty::CastlingMode::Standard;
use shakmaty::Chess;
use shakmaty::EnPassantMode::Legal;
use shakmaty::Position as _;
use vstd::prelude::*;

verus! {

/// The starting position.
pub const DEPART: &'static str = "rnbqkbnr/pppppppp/8/8/8/8/PPPPPPPP/RNBQKBNR w KQkq - 0 1";

/// What a FEN text describes: the pieces by growing square, each with its
/// square (a1 is 0, h8 is 63), its role (pawn 1, knight 2, bishop 3, rook 4,
/// queen 5, king 6) and whether it is white; whether White is to move; the
/// castling rights (White short, White long, Black short, Black long); whether
/// a capture en passant is legal; the half-moves since the last capture or
/// pawn move; the number of the move; how many moves are legal; whether the
/// side to move is in check; whether neither side can win with what is left.
pub type VuePosition = (
    Seq<(u8, u8, bool)>,
    bool,
    (bool, bool, bool, bool),
    bool,
    u32,
    u32,
    usize,
    bool,
    bool,
);

/// A position in plain values; see `VuePosition`.
pub struct Position {
    pub pieces: Vec<(u8, u8, bool)>,
    pub trait_blanc: bool,
    pub roques: (bool, bool, bool, bool),
    pub en_passant: bool,
    pub demi_coups: u32,
    pub numero: u32,
    pub n_coups: usize,
    pub echec: bool,
    pub insuffisant: bool,
}

impl View for Position {
    type V = VuePosition;

    open spec fn view(&self) -> VuePosition {
        (
            self.pieces@,
            self.trait_blanc,
            self.roques,
            self.en_passant,
            self.demi_coups,
            self.numero,
            self.n_coups,
            self.echec,
            self.insuffisant,
        )
    }
}

/// A position as the rules hand it over; see `VuePosition`.
pub type Description = (
    Vec<(u8, u8, bool)>,
    bool,
    (bool, bool, bool, bool),
    bool,
    u32,
    u32,
    usize,
    bool,
    bool,
);

pub open spec fn vue_description(d: Description) -> VuePosition {
    (d.0@, d.1, d.2, d.3, d.4, d.5, d.6, d.7, d.8)
}

/// One piece per square, by growing square.
pub open spec fn cases_rangees(p: Seq<(u8, u8, bool)>) -> bool {
    &&& forall|i: int| 0 <= i < p.len() ==> (#[trigger] p[i]).0 < 64 && 1 <= p[i].1 <= 6
    &&& forall|i: int, j: int| 0 <= i < j < p.len() ==> (#[trigger] p[i]).0 < (#[trigger] p[j]).0
}

/// `i` is the place of the only king of that colour.
pub open spec fn seul_roi(p: Seq<(u8, u8, bool)>, blanc: bool, i: int) -> bool {
    &&& 0 <= i < p.len()
    &&& p[i].1 == 6 && p[i].2 == blanc
    &&& forall|j: int| 0 <= j < p.len() && (#[trigger] p[j]).1 == 6 && p[j].2 == blanc ==> j == i
}

/// A board that a game can have: at most thirty-two pieces, one king a side,
/// no pawn on the first or last rank.
pub open spec fn plateau_valide(p: Seq<(u8, u8, bool)>) -> bool {
    &&& cases_rangees(p)
    &&& p.len() <= 32
    &&& exists|i: int| seul_roi(p, true, i)
    &&& exists|i: int| seul_roi(p, false, i)
    &&& forall|i: int| 0 <= i < p.len() && (#[trigger] p[i]).1 == 1 ==> 8 <= p[i].0 < 56
}

/// What a list of moves says: the UCI text of each, and whether it captures.
pub open spec fn vues_coups(v: Seq<(String, bool)>) -> Seq<(Seq<char>, bool)> {
    v.map_values(|c: (String, bool)| (c.0@, c.1))
}

/// Is the move one of the legal ones?
pub open spec fn legal(coups: Option<Seq<(Seq<char>, bool)>>, u: Seq<char>) -> bool {
    coups is Some && parmi(coups.unwrap(), u)
}

/// Is the move in the list?
pub open spec fn parmi(coups: Seq<(Seq<char>, bool)>, u: Seq<char>) -> bool {
    exists|i: int| 0 <= i < coups.len() && (#[trigger] coups[i]).0 == u
}

/// How many legal moves a position announces.
pub open spec fn n_coups_annonces(p: Option<VuePosition>) -> nat {
    match p {
        Some(p) => p.6 as nat,
        None => 0,
    }
}

/// What an optional text says.
pub open spec fn vue_option(t: Option<String>) -> Option<Seq<char>> {
    match t {
        Some(s) => Some(s@),
        None => None,
    }
}

// ---------------------------------------------------------------------------
// Results of the rules
// ---------------------------------------------------------------------------

/// The position that a FEN text describes, if it describes a valid one.
pub uninterp spec fn position_de(fen: Seq<char>) -> Option<VuePosition>;

/// The legal moves of a position, in the order of generation.
pub uninterp spec fn coups_de(fen: Seq<char>) -> Option<Seq<(Seq<char>, bool)>>;

/// The position after a move.
pub uninterp spec fn suite_de(fen: Seq<char>, uci: Seq<char>) -> Option<Seq<char>>;

/// Is the text written like a move?
pub uninterp spec fn uci_lisible(texte: Seq<char>) -> bool;

/// The legal move that a text names, in its usual writing.
pub uninterp spec fn coup_nomme(fen: Seq<char>, texte: Seq<char>) -> Option<Seq<char>>;

/// The legal move that a SAN text names.
pub uninterp spec fn coup_de_san(fen: Seq<char>, san: Seq<char>) -> Option<Seq<char>>;

/// The SAN writing of a move, without a sign for check or mate.
pub uninterp spec fn san_de(fen: Seq<char>, uci: Seq<char>) -> Option<Seq<char>>;

/// The SAN writing of a move, with the sign for check or mate.
pub uninterp spec fn san_signe_de(fen: Seq<char>, uci: Seq<char>) -> Option<Seq<char>>;

/// The hash of a position for the rule of repetition.
pub uninterp spec fn hachage_de(fen: Seq<char>) -> Option<u64>;

// ---------------------------------------------------------------------------
// Calls into the rules
// ---------------------------------------------------------------------------

/// What reading the starting position gives: White to move, all castling
/// rights, no capture en passant and no move played.
pub open spec fn depart_lu(p: Option<VuePosition>) -> bool {
    match p {
        Some(p) => p.1 && p.2 == (true, true, true, true) && !p.3 && p.4 == 0 && p.5 == 1,
        None => false,
    }
}

/// The starting position, by `Chess::default` and `Fen::from_position` of
/// shakmaty. Claimed: it is written `DEPART`, and read back it has White to
/// move, all castling rights, no capture en passant and no move played.
#[verifier::external_body]
pub(crate) fn position_initiale() -> (r: String)
    ensures
        r@ == DEPART@,
        depart_lu(position_de(r@)),
{
    Fen::from_position(Chess::default(), Legal).to_string()
}

/// Reads a FEN text with `Fen::from_str` and `Fen::into_position` of shakmaty,
/// castling in the standard way, and asks the position about its pieces, its
/// counters, its moves (`Position::legal_moves`), check (`is_check`) and the
/// material left (`is_insufficient_material`). Claimed: the result depends on
/// the text alone; a position that is accepted has its pieces by growing
/// square, one king a side, at most thirty-two pieces, no pawn on the first or
/// last rank, and at most two hundred and fifty-six legal moves.
#[verifier::external_body]
fn decrit(fen: &str) -> (r: Option<Description>)
    ensures
        match r {
            Some(d) => position_de(fen@) == Some(vue_description(d)),
            None => position_de(fen@) is None,
        },
        r matches Some(d) ==> plateau_valide(d.0@) && d.6 <= 256,
{
    let pos: Chess = fen.parse::<Fen>().ok()?.into_position(Standard).ok()?;
    let r = pos.castles();
    Some((
        pos.board().iter().map(|(c, p)| (c.into(), p.role.into(), p.color.is_white())).collect(),
        pos.turn().is_white(),
        (r.has(White, KingSide), r.has(White, QueenSide), r.has(Black, KingSide), r.has(Black, QueenSide)),
        pos.ep_square(Legal).is_some(),
        pos.halfmoves(),
        pos.fullmoves().get(),
        pos.legal_moves().len(),
        pos.is_check(),
        pos.is_insufficient_material(),
    ))
}

/// Reads a position; nothing when the text is none.
pub(crate) fn lit_position(fen: &str) -> (r: Option<Position>)
    ensures
        match r {
            Some(p) => position_de(fen@) == Some(p@),
            None => position_de(fen@) is None,
        },
        r matches Some(p) ==> plateau_valide(p.pieces@) && p.n_coups <= 256,
{
    match decrit(fen) {
        Some(d) => Some(
            Position {
                pieces: d.0,
                trait_blanc: d.1,
                roques: d.2,
                en_passant: d.3,
                demi_coups: d.4,
                numero: d.5,
                n_coups: d.6,
                echec: d.7,
                insuffisant: d.8,
            },
        ),
        None => None,
    }
}

/// What a list of moves with the positions after them says of the moves.
pub open spec fn vues_filles(v: Seq<(String, bool, String)>) -> Seq<(Seq<char>, bool)> {
    v.map_values(|c: (String, bool, String)| (c.0@, c.1))
}

/// The legal moves, each with the position after it, by `legal_moves` and
/// `play` of shakmaty's `Position`. Claimed: the moves are those of the
/// position, in the same order, at most two hundred and fifty-six, and each
/// position is the one after its move.
#[verifier::external_body]
pub(crate) fn filles(fen: &str) -> (r: Option<Vec<(String, bool, String)>>)
    ensures
        match r {
            Some(v) => coups_de(fen@) == Some(vues_filles(v@)),
            None => coups_de(fen@) is None,
        },
        r is Some <==> position_de(fen@) is Some,
        r matches Some(v) ==> v@.len() == n_coups_annonces(position_de(fen@)) && v@.len() <= 256,
        r matches Some(v) ==> forall|i: int|
            0 <= i < v@.len() ==> suite_de(fen@, (#[trigger] v@[i]).0@) == Some(v@[i].2@),
{
    let pos: Chess = fen.parse::<Fen>().ok()?.into_position(Standard).ok()?;
    pos.legal_moves()
        .iter()
        .map(|m| {
            let apres = pos.clone().play(m).ok()?;
            let suite = Fen::from_position(apres, Legal).to_string();
            Some((m.to_uci(Standard).to_string(), m.is_capture(), suite))
        })
        .collect()
}

/// The legal moves, each in UCI and with whether it captures, in the order of
/// generation.
pub(crate) fn coups_legaux(fen: &str) -> (r: Option<Vec<(String, bool)>>)
    ensures
        match r {
            Some(v) => coups_de(fen@) == Some(vues_coups(v@)),
            None => coups_de(fen@) is None,
        },
        r is Some <==> position_de(fen@) is Some,
        r matches Some(v) ==> v@.len() == n_coups_annonces(position_de(fen@)) && v@.len() <= 256,
        r matches Some(v) ==> forall|i: int|
            0 <= i < v@.len() ==> suite_de(fen@, (#[trigger] v@[i]).0@) is Some,
{
    match filles(fen) {
        None => None,
        Some(f) => {
            let mut v: Vec<(String, bool)> = Vec::new();
            let mut i: usize = 0;
            while i < f.len()
                invariant
                    i <= f@.len(),
                    v@.len() == i,
                    forall|k: int|
                        0 <= k < i ==> (#[trigger] v@[k]).0@ == f@[k].0@ && v@[k].1 == f@[k].1,
                decreases f.len() - i,
            {
                v.push((f[i].0.clone(), f[i].1));
                i += 1;
            }
            assert(vues_coups(v@) =~= vues_filles(f@));
            Some(v)
        },
    }
}

/// The position after a move, by `Position::play` of shakmaty, written with
/// the square en passant only where a capture is legal. Nothing when the
/// position or the move is unreadable, or the move is illegal. Claimed: the
/// result depends on the two texts alone.
#[verifier::external_body]
pub(crate) fn apres_coup(fen: &str, uci: &str) -> (r: Option<String>)
    ensures
        vue_option(r) == suite_de(fen@, uci@),
{
    let pos: Chess = fen.parse::<Fen>().ok()?.into_position(Standard).ok()?;
    let m = uci.parse::<UciMove>().ok()?.to_move(&pos).ok()?;
    let apres = pos.play(&m).ok()?;
    Some(Fen::from_position(apres, Legal).to_string())
}

/// Is the text a move in UCI notation, by `UciMove::from_ascii` of shakmaty?
/// Claimed: the answer depends on the text alone.
#[verifier::external_body]
pub(crate) fn est_uci_lisible(texte: &str) -> (r: bool)
    ensures
        r == uci_lisible(texte@),
{
    UciMove::from_ascii(texte.as_bytes()).is_ok()
}

/// The legal move that a UCI text names, by `UciMove::to_move` of shakmaty, in
/// its standard writing. Claimed: the result depends on the two texts alone,
/// and the move can be played.
#[verifier::external_body]
pub(crate) fn coup_legal(fen: &str, texte: &str) -> (r: Option<String>)
    ensures
        vue_option(r) == coup_nomme(fen@, texte@),
        r matches Some(u) ==> suite_de(fen@, u@) is Some,
        r is Some ==> uci_lisible(texte@) && position_de(fen@) is Some,
{
    let pos: Chess = fen.parse::<Fen>().ok()?.into_position(Standard).ok()?;
    let m = UciMove::from_ascii(texte.as_bytes()).ok()?.to_move(&pos).ok()?;
    Some(m.to_uci(Standard).to_string())
}

/// The legal move that a SAN text names, by `San::from_ascii` and
/// `San::to_move` of shakmaty, in UCI. A sign for check or mate at the end of
/// the text is passed over. Claimed: the result depends on the two texts
/// alone, the move can be played, and it is one of the legal moves.
#[verifier::external_body]
pub(crate) fn coup_du_san(fen: &str, san: &str) -> (r: Option<String>)
    ensures
        vue_option(r) == coup_de_san(fen@, san@),
        r matches Some(u) ==> suite_de(fen@, u@) is Some,
        r matches Some(u) ==> legal(coups_de(fen@), u@),
{
    let pos: Chess = fen.parse::<Fen>().ok()?.into_position(Standard).ok()?;
    let m = San::from_ascii(san.as_bytes()).ok()?.to_move(&pos).ok()?;
    Some(m.to_uci(Standard).to_string())
}

/// The SAN writing of a legal move, by `San::from_move` of shakmaty. Claimed:
/// the result depends on the two texts alone, and is there for every move that
/// can be played.
#[verifier::external_body]
pub(crate) fn san_du_coup(fen: &str, uci: &str) -> (r: Option<String>)
    ensures
        vue_option(r) == san_de(fen@, uci@),
        r is Some <==> suite_de(fen@, uci@) is Some,
{
    let pos: Chess = fen.parse::<Fen>().ok()?.into_position(Standard).ok()?;
    let m = uci.parse::<UciMove>().ok()?.to_move(&pos).ok()?;
    Some(San::from_move(&pos, &m).to_string())
}

/// The SAN writing of a legal move with the sign for check or mate, by
/// `SanPlus::from_move` of shakmaty. Claimed: the result depends on the two
/// texts alone, and is there for every move that can be played.
#[verifier::external_body]
pub(crate) fn san_signe_du_coup(fen: &str, uci: &str) -> (r: Option<String>)
    ensures
        vue_option(r) == san_signe_de(fen@, uci@),
        r is Some <==> suite_de(fen@, uci@) is Some,
{
    let pos: Chess = fen.parse::<Fen>().ok()?.into_position(Standard).ok()?;
    let m = uci.parse::<UciMove>().ok()?.to_move(&pos).ok()?;
    Some(SanPlus::from_move(pos, &m).to_string())
}

/// The Zobrist hash of a position, by `ZobristHash::zobrist_hash` of shakmaty
/// on sixty-four bits, the square en passant counting only where a capture is
/// legal. Claimed: the hash depends on the position alone, and is there for
/// every readable one.
#[verifier::external_body]
pub(crate) fn hachage(fen: &str) -> (r: Option<u64>)
    ensures
        r == hachage_de(fen@),
        r is Some <==> position_de(fen@) is Some,
{
    let pos: Chess = fen.parse::<Fen>().ok()?.into_position(Standard).ok()?;
    Some(pos.zobrist_hash::<Zobrist64>(Legal).0)
}

/// A move is legal when the list of moves holds it.
pub proof fn loi_legal(c: Seq<(Seq<char>, bool)>, u: Seq<char>, i: int)
    requires
        0 <= i < c.len(),
    ensures
        legal(Some(c), c[i].0),
        !legal(None, u),
        (forall|k: int| 0 <= k < c.len() ==> (#[trigger] c[k]).0 != u) ==> !legal(Some(c), u),
{
    assert(c[i].0 == c[i].0);
}

} // verus!
