//! The opening book: lines of theory, the positions that they reach and the
//! moves that continue them.
use crate::bots;
use crate::echiquier;
use crate::livre_lois;
use crate::texte;
use rand::rngs::StdRng;
use vstd::prelude::*;

verus! {

/// Number of lines in the book.
pub const N_LIGNES: usize = 141;

/// Name of each line.
pub const ETIQUETTES: [&'static str; 141] = [
    "ouverture:italienne-giuoco-piano",
    "ouverture:italienne-pianissimo",
    "ouverture:italienne-deux-cavaliers",
    "ouverture:italienne-deux-cavaliers-ng5",
    "ouverture:italienne-gambit-evans",
    "ouverture:italienne-evans-refuse",
    "ouverture:italienne-hongroise",
    "ouverture:espagnole-fermee",
    "ouverture:espagnole-ouverte",
    "ouverture:espagnole-echange",
    "ouverture:espagnole-berlin",
    "ouverture:espagnole-anti-berlin",
    "ouverture:espagnole-steinitz",
    "ouverture:espagnole-schliemann",
    "ouverture:espagnole-arkhangelsk",
    "ouverture:sicilienne-najdorf",
    "ouverture:sicilienne-najdorf-be2",
    "ouverture:sicilienne-najdorf-anglaise",
    "ouverture:sicilienne-najdorf-bg5",
    "ouverture:sicilienne-dragon",
    "ouverture:sicilienne-dragon-yougoslave",
    "ouverture:sicilienne-dragon-accelere",
    "ouverture:sicilienne-sveshnikov",
    "ouverture:sicilienne-classique",
    "ouverture:sicilienne-richter-rauzer",
    "ouverture:sicilienne-sozin",
    "ouverture:sicilienne-scheveningue",
    "ouverture:sicilienne-taimanov",
    "ouverture:sicilienne-kan",
    "ouverture:sicilienne-alapin",
    "ouverture:sicilienne-alapin-d5",
    "ouverture:sicilienne-fermee",
    "ouverture:sicilienne-rossolimo",
    "ouverture:sicilienne-moscou",
    "ouverture:sicilienne-grand-prix",
    "ouverture:francaise-avance",
    "ouverture:francaise-tarrasch",
    "ouverture:francaise-tarrasch-c5",
    "ouverture:francaise-winawer",
    "ouverture:francaise-classique",
    "ouverture:francaise-steinitz",
    "ouverture:francaise-rubinstein",
    "ouverture:francaise-echange",
    "ouverture:caro-kann-classique",
    "ouverture:caro-kann-nd7",
    "ouverture:caro-kann-avance",
    "ouverture:caro-kann-avance-shirov",
    "ouverture:caro-kann-panov",
    "ouverture:caro-kann-echange",
    "ouverture:caro-kann-deux-cavaliers",
    "ouverture:caro-kann-fantaisie",
    "ouverture:gambit-dame-accepte",
    "ouverture:gambit-dame-accepte-e4",
    "ouverture:gambit-dame-orthodoxe",
    "ouverture:gambit-dame-echange",
    "ouverture:gambit-dame-tartakover",
    "ouverture:gambit-dame-tarrasch",
    "ouverture:gambit-dame-semi-tarrasch",
    "ouverture:gambit-dame-chigorin",
    "ouverture:contre-gambit-albin",
    "ouverture:slave-principale",
    "ouverture:slave-echange",
    "ouverture:slave-chebanenko",
    "ouverture:semi-slave-meran",
    "ouverture:semi-slave-anti-meran",
    "ouverture:semi-slave-botvinnik",
    "ouverture:est-indienne-classique",
    "ouverture:est-indienne-samisch",
    "ouverture:est-indienne-averbakh",
    "ouverture:est-indienne-fianchetto",
    "ouverture:est-indienne-quatre-pions",
    "ouverture:nimzo-indienne-rubinstein",
    "ouverture:nimzo-indienne-classique",
    "ouverture:nimzo-indienne-samisch",
    "ouverture:nimzo-indienne-leningrad",
    "ouverture:ouest-indienne",
    "ouverture:ouest-indienne-petrosian",
    "ouverture:bogo-indienne",
    "ouverture:grunfeld-echange",
    "ouverture:grunfeld-russe",
    "ouverture:grunfeld-bf4",
    "ouverture:catalane-ouverte",
    "ouverture:catalane-fermee",
    "ouverture:anglaise-symetrique",
    "ouverture:anglaise-quatre-cavaliers",
    "ouverture:anglaise-sicilienne-inversee",
    "ouverture:anglaise-botvinnik",
    "ouverture:anglaise-herisson",
    "ouverture:anglaise-mikenas",
    "ouverture:anglaise-agincourt",
    "ouverture:reti",
    "ouverture:reti-slave",
    "ouverture:attaque-est-indienne",
    "ouverture:reti-double-fianchetto",
    "ouverture:london",
    "ouverture:london-indienne",
    "ouverture:trompowsky",
    "ouverture:trompowsky-e6",
    "ouverture:jobava",
    "ouverture:colle",
    "ouverture:attaque-torre",
    "ouverture:gambit-blackmar-diemer",
    "ouverture:ecossaise-classique",
    "ouverture:ecossaise-mieses",
    "ouverture:gambit-ecossais",
    "ouverture:petrov-classique",
    "ouverture:petrov-moderne",
    "ouverture:philidor",
    "ouverture:philidor-moderne",
    "ouverture:pirc-classique",
    "ouverture:pirc-autrichienne",
    "ouverture:pirc-150",
    "ouverture:moderne",
    "ouverture:scandinave-qa5",
    "ouverture:scandinave-qd6",
    "ouverture:scandinave-nf6",
    "ouverture:alekhine-quatre-pions",
    "ouverture:alekhine-moderne",
    "ouverture:alekhine-echange",
    "ouverture:benoni-moderne",
    "ouverture:benoni-fianchetto",
    "ouverture:gambit-benko",
    "ouverture:gambit-budapest",
    "ouverture:hollandaise-leningrad",
    "ouverture:hollandaise-stonewall",
    "ouverture:hollandaise-classique",
    "ouverture:hollandaise-gambit-staunton",
    "ouverture:gambit-roi-kieseritzky",
    "ouverture:gambit-roi-refuse",
    "ouverture:gambit-roi-moderne",
    "ouverture:vienne-gambit",
    "ouverture:vienne-fianchetto",
    "ouverture:partie-du-centre",
    "ouverture:ponziani",
    "ouverture:quatre-cavaliers",
    "ouverture:quatre-cavaliers-ecossais",
    "ouverture:partie-du-fou",
    "ouverture:bird",
    "ouverture:larsen",
    "ouverture:owen",
    "ouverture:nimzowitsch",
];

/// Moves of each line, in SAN.
pub const SUITES: [&'static str; 141] = [
    "e4 e5 Nf3 Nc6 Bc4 Bc5 c3 Nf6 d4 exd4 cxd4 Bb4+",
    "e4 e5 Nf3 Nc6 Bc4 Bc5 d3 Nf6 c3 d6 O-O a6",
    "e4 e5 Nf3 Nc6 Bc4 Nf6 d3 Be7 O-O O-O",
    "e4 e5 Nf3 Nc6 Bc4 Nf6 Ng5 d5 exd5 Na5 Bb5+ c6",
    "e4 e5 Nf3 Nc6 Bc4 Bc5 b4 Bxb4 c3 Ba5 d4 exd4",
    "e4 e5 Nf3 Nc6 Bc4 Bc5 b4 Bb6 a4 a6",
    "e4 e5 Nf3 Nc6 Bc4 Be7 d4 d6",
    "e4 e5 Nf3 Nc6 Bb5 a6 Ba4 Nf6 O-O Be7 Re1 b5",
    "e4 e5 Nf3 Nc6 Bb5 a6 Ba4 Nf6 O-O Nxe4 d4 b5",
    "e4 e5 Nf3 Nc6 Bb5 a6 Bxc6 dxc6 O-O f6 d4 exd4",
    "e4 e5 Nf3 Nc6 Bb5 Nf6 O-O Nxe4 d4 Nd6 Bxc6 dxc6",
    "e4 e5 Nf3 Nc6 Bb5 Nf6 d3 Bc5 c3 O-O O-O d6",
    "e4 e5 Nf3 Nc6 Bb5 d6 d4 exd4 Nxd4 Bd7",
    "e4 e5 Nf3 Nc6 Bb5 f5 Nc3 fxe4 Nxe4 d5",
    "e4 e5 Nf3 Nc6 Bb5 a6 Ba4 Nf6 O-O b5 Bb3 Bb7",
    "e4 c5 Nf3 d6 d4 cxd4 Nxd4 Nf6 Nc3 a6",
    "e4 c5 Nf3 d6 d4 cxd4 Nxd4 Nf6 Nc3 a6 Be2 e5",
    "e4 c5 Nf3 d6 d4 cxd4 Nxd4 Nf6 Nc3 a6 Be3 e5",
    "e4 c5 Nf3 d6 d4 cxd4 Nxd4 Nf6 Nc3 a6 Bg5 e6",
    "e4 c5 Nf3 d6 d4 cxd4 Nxd4 Nf6 Nc3 g6 Be3 Bg7",
    "e4 c5 Nf3 d6 d4 cxd4 Nxd4 Nf6 Nc3 g6 f3 Bg7",
    "e4 c5 Nf3 Nc6 d4 cxd4 Nxd4 g6 Nc3 Bg7 Be3 Nf6",
    "e4 c5 Nf3 Nc6 d4 cxd4 Nxd4 Nf6 Nc3 e5 Ndb5 d6",
    "e4 c5 Nf3 d6 d4 cxd4 Nxd4 Nf6 Nc3 Nc6",
    "e4 c5 Nf3 d6 d4 cxd4 Nxd4 Nf6 Nc3 Nc6 Bg5 e6",
    "e4 c5 Nf3 d6 d4 cxd4 Nxd4 Nf6 Nc3 Nc6 Bc4 e6",
    "e4 c5 Nf3 d6 d4 cxd4 Nxd4 Nf6 Nc3 e6 Be2 Be7",
    "e4 c5 Nf3 e6 d4 cxd4 Nxd4 Nc6 Nc3 Qc7",
    "e4 c5 Nf3 e6 d4 cxd4 Nxd4 a6 Nc3 Qc7",
    "e4 c5 c3 Nf6 e5 Nd5 d4 cxd4 Nf3 Nc6 cxd4 d6",
    "e4 c5 c3 d5 exd5 Qxd5 d4 Nf6 Nf3 e6",
    "e4 c5 Nc3 Nc6 g3 g6 Bg2 Bg7 d3 d6",
    "e4 c5 Nf3 Nc6 Bb5 g6 Bxc6 dxc6 d3 Bg7",
    "e4 c5 Nf3 d6 Bb5+ Bd7 Bxd7+ Qxd7 O-O Nf6",
    "e4 c5 Nc3 Nc6 f4 g6 Nf3 Bg7 Bb5 Nd4",
    "e4 e6 d4 d5 e5 c5 c3 Nc6 Nf3 Qb6",
    "e4 e6 d4 d5 Nd2 Nf6 e5 Nfd7 Bd3 c5 c3 Nc6",
    "e4 e6 d4 d5 Nd2 c5 exd5 exd5 Ngf3 Nc6 Bb5 Bd6",
    "e4 e6 d4 d5 Nc3 Bb4 e5 c5 a3 Bxc3+ bxc3 Ne7",
    "e4 e6 d4 d5 Nc3 Nf6 Bg5 Be7 e5 Nfd7 Bxe7 Qxe7",
    "e4 e6 d4 d5 Nc3 Nf6 e5 Nfd7 f4 c5 Nf3 Nc6",
    "e4 e6 d4 d5 Nc3 dxe4 Nxe4 Nd7 Nf3 Ngf6 Nxf6+ Nxf6",
    "e4 e6 d4 d5 exd5 exd5 Nf3 Nf6 Bd3 Bd6 O-O O-O",
    "e4 c6 d4 d5 Nc3 dxe4 Nxe4 Bf5 Ng3 Bg6 h4 h6",
    "e4 c6 d4 d5 Nc3 dxe4 Nxe4 Nd7 Nf3 Ngf6 Nxf6+ Nxf6",
    "e4 c6 d4 d5 e5 Bf5 Nf3 e6 Be2 c5",
    "e4 c6 d4 d5 e5 Bf5 Nc3 e6 g4 Bg6",
    "e4 c6 d4 d5 exd5 cxd5 c4 Nf6 Nc3 e6 Nf3 Bb4",
    "e4 c6 d4 d5 exd5 cxd5 Bd3 Nc6 c3 Nf6 Bf4 Bg4",
    "e4 c6 Nc3 d5 Nf3 Bg4 h3 Bxf3 Qxf3 e6",
    "e4 c6 d4 d5 f3 dxe4 fxe4 e5 Nf3 exd4",
    "d4 d5 c4 dxc4 Nf3 Nf6 e3 e6 Bxc4 c5 O-O a6",
    "d4 d5 c4 dxc4 e4 e5 Nf3 exd4 Bxc4 Nc6",
    "d4 d5 c4 e6 Nc3 Nf6 Bg5 Be7 e3 O-O Nf3 Nbd7",
    "d4 d5 c4 e6 Nc3 Nf6 cxd5 exd5 Bg5 Be7 e3 c6",
    "d4 d5 c4 e6 Nc3 Nf6 Nf3 Be7 Bg5 h6 Bh4 O-O",
    "d4 d5 c4 e6 Nc3 c5 cxd5 exd5 Nf3 Nc6 g3 Nf6",
    "d4 d5 c4 e6 Nc3 Nf6 Nf3 c5 cxd5 Nxd5",
    "d4 d5 c4 Nc6 Nf3 Bg4 cxd5 Bxf3 gxf3 Qxd5 e3 e5",
    "d4 d5 c4 e5 dxe5 d4 Nf3 Nc6",
    "d4 d5 c4 c6 Nf3 Nf6 Nc3 dxc4 a4 Bf5 e3 e6",
    "d4 d5 c4 c6 cxd5 cxd5 Nc3 Nf6 Nf3 Nc6 Bf4 Bf5",
    "d4 d5 c4 c6 Nf3 Nf6 Nc3 a6 e3 b5",
    "d4 d5 c4 c6 Nf3 Nf6 Nc3 e6 e3 Nbd7 Bd3 dxc4",
    "d4 d5 c4 c6 Nf3 Nf6 Nc3 e6 Bg5 h6 Bxf6 Qxf6",
    "d4 d5 c4 c6 Nf3 Nf6 Nc3 e6 Bg5 dxc4 e4 b5",
    "d4 Nf6 c4 g6 Nc3 Bg7 e4 d6 Nf3 O-O Be2 e5",
    "d4 Nf6 c4 g6 Nc3 Bg7 e4 d6 f3 O-O Be3 e5",
    "d4 Nf6 c4 g6 Nc3 Bg7 e4 d6 Be2 O-O Bg5 c5",
    "d4 Nf6 c4 g6 Nf3 Bg7 g3 O-O Bg2 d6 O-O Nbd7",
    "d4 Nf6 c4 g6 Nc3 Bg7 e4 d6 f4 O-O Nf3 c5",
    "d4 Nf6 c4 e6 Nc3 Bb4 e3 O-O Bd3 d5 Nf3 c5",
    "d4 Nf6 c4 e6 Nc3 Bb4 Qc2 O-O a3 Bxc3+ Qxc3 b6",
    "d4 Nf6 c4 e6 Nc3 Bb4 a3 Bxc3+ bxc3 c5 f3 d5",
    "d4 Nf6 c4 e6 Nc3 Bb4 Bg5 h6 Bh4 c5 d5 d6",
    "d4 Nf6 c4 e6 Nf3 b6 g3 Bb7 Bg2 Be7 O-O O-O",
    "d4 Nf6 c4 e6 Nf3 b6 a3 Bb7 Nc3 d5 cxd5 Nxd5",
    "d4 Nf6 c4 e6 Nf3 Bb4+ Bd2 Qe7 g3 Nc6",
    "d4 Nf6 c4 g6 Nc3 d5 cxd5 Nxd5 e4 Nxc3 bxc3 Bg7",
    "d4 Nf6 c4 g6 Nc3 d5 Nf3 Bg7 Qb3 dxc4 Qxc4 O-O",
    "d4 Nf6 c4 g6 Nc3 d5 Bf4 Bg7 e3 O-O",
    "d4 Nf6 c4 e6 g3 d5 Bg2 dxc4 Nf3 a6 O-O Nc6",
    "d4 Nf6 c4 e6 g3 d5 Bg2 Be7 Nf3 O-O O-O Nbd7",
    "c4 c5 Nf3 Nf6 Nc3 Nc6 g3 g6 Bg2 Bg7 O-O O-O",
    "c4 e5 Nc3 Nf6 Nf3 Nc6 g3 d5 cxd5 Nxd5 Bg2 Nb6",
    "c4 e5 Nc3 Nf6 g3 d5 cxd5 Nxd5 Bg2 Nb6 Nf3 Nc6",
    "c4 e5 Nc3 Nc6 g3 g6 Bg2 Bg7 e4 d6",
    "c4 c5 Nf3 Nf6 Nc3 e6 g3 b6 Bg2 Bb7 O-O Be7",
    "c4 Nf6 Nc3 e6 e4 d5 e5 d4 exf6 dxc3 bxc3 Qxf6",
    "c4 e6 Nf3 d5 g3 Nf6 Bg2 Be7 O-O O-O",
    "Nf3 d5 c4 e6 g3 Nf6 Bg2 Be7 O-O O-O",
    "Nf3 d5 c4 c6 g3 Nf6 Bg2 Bf5 O-O e6",
    "Nf3 d5 g3 Nf6 Bg2 e6 O-O Be7 d3 O-O Nbd2 c5",
    "Nf3 Nf6 g3 g6 b3 Bg7 Bb2 O-O Bg2 d6 O-O e5",
    "d4 d5 Nf3 Nf6 Bf4 c5 e3 Nc6 c3 e6 Nbd2 Bd6",
    "d4 Nf6 Nf3 g6 Bf4 Bg7 e3 O-O h3 d6",
    "d4 Nf6 Bg5 Ne4 Bf4 d5 e3 c5 Bd3 Nf6",
    "d4 Nf6 Bg5 e6 e4 h6 Bxf6 Qxf6 Nc3 d6",
    "d4 Nf6 Nc3 d5 Bf4 e6 e3 Bd6 Bg3 O-O",
    "d4 d5 Nf3 Nf6 e3 e6 Bd3 c5 c3 Nc6 Nbd2 Bd6",
    "d4 Nf6 Nf3 e6 Bg5 c5 e3 h6 Bh4 b6",
    "d4 d5 e4 dxe4 Nc3 Nf6 f3 exf3 Nxf3 g6",
    "e4 e5 Nf3 Nc6 d4 exd4 Nxd4 Bc5 Be3 Qf6 c3 Nge7",
    "e4 e5 Nf3 Nc6 d4 exd4 Nxd4 Nf6 Nxc6 bxc6 e5 Qe7",
    "e4 e5 Nf3 Nc6 d4 exd4 Bc4 Bc5 c3 Nf6 cxd4 Bb4+",
    "e4 e5 Nf3 Nf6 Nxe5 d6 Nf3 Nxe4 d4 d5 Bd3 Be7",
    "e4 e5 Nf3 Nf6 d4 Nxe4 Bd3 d5 Nxe5 Nd7",
    "e4 e5 Nf3 d6 d4 exd4 Nxd4 Nf6 Nc3 Be7",
    "e4 d6 d4 Nf6 Nc3 e5 Nf3 Nbd7 Bc4 Be7",
    "e4 d6 d4 Nf6 Nc3 g6 Nf3 Bg7 Be2 O-O O-O c6",
    "e4 d6 d4 Nf6 Nc3 g6 f4 Bg7 Nf3 O-O Bd3 Na6",
    "e4 d6 d4 Nf6 Nc3 g6 Be3 Bg7 Qd2 c6 f3 b5",
    "e4 g6 d4 Bg7 Nc3 d6 Be3 a6 Qd2 b5",
    "e4 d5 exd5 Qxd5 Nc3 Qa5 d4 Nf6 Nf3 c6 Bc4 Bf5",
    "e4 d5 exd5 Qxd5 Nc3 Qd6 d4 Nf6 Nf3 a6",
    "e4 d5 exd5 Nf6 d4 Nxd5 Nf3 g6 Be2 Bg7",
    "e4 Nf6 e5 Nd5 d4 d6 c4 Nb6 f4 dxe5 fxe5 Nc6",
    "e4 Nf6 e5 Nd5 d4 d6 Nf3 g6 Bc4 Nb6 Bb3 Bg7",
    "e4 Nf6 e5 Nd5 d4 d6 c4 Nb6 exd6 cxd6",
    "d4 Nf6 c4 c5 d5 e6 Nc3 exd5 cxd5 d6 e4 g6",
    "d4 Nf6 c4 c5 d5 e6 Nc3 exd5 cxd5 d6 Nf3 g6",
    "d4 Nf6 c4 c5 d5 b5 cxb5 a6 bxa6 Bxa6 Nc3 d6",
    "d4 Nf6 c4 e5 dxe5 Ng4 Bf4 Nc6 Nf3 Bb4+ Nbd2 Qe7",
    "d4 f5 g3 Nf6 Bg2 g6 Nf3 Bg7 O-O O-O c4 d6",
    "d4 f5 g3 Nf6 Bg2 e6 Nf3 d5 O-O Bd6 c4 c6",
    "d4 f5 c4 Nf6 g3 e6 Bg2 Be7 Nf3 O-O O-O d6",
    "d4 f5 e4 fxe4 Nc3 Nf6 Bg5 Nc6",
    "e4 e5 f4 exf4 Nf3 g5 h4 g4 Ne5 Nf6",
    "e4 e5 f4 Bc5 Nf3 d6 Nc3 Nf6 Bc4 Nc6 d3 a6",
    "e4 e5 f4 exf4 Nf3 d5 exd5 Nf6 Bb5+ c6",
    "e4 e5 Nc3 Nf6 f4 d5 fxe5 Nxe4 Nf3 Be7",
    "e4 e5 Nc3 Nc6 g3 g6 Bg2 Bg7 d3 d6",
    "e4 e5 d4 exd4 Qxd4 Nc6 Qe3 Nf6 Nc3 Bb4 Bd2 O-O",
    "e4 e5 Nf3 Nc6 c3 Nf6 d4 Nxe4 d5 Ne7 Nxe5 Ng6",
    "e4 e5 Nf3 Nc6 Nc3 Nf6 Bb5 Bb4 O-O O-O d3 d6",
    "e4 e5 Nf3 Nc6 Nc3 Nf6 d4 exd4 Nxd4 Bb4 Nxc6 bxc6",
    "e4 e5 Bc4 Nf6 d3 c6 Nf3 d5 Bb3 Bd6",
    "f4 d5 Nf3 Nf6 e3 g6 Be2 Bg7 O-O O-O d3 c5",
    "b3 e5 Bb2 Nc6 e3 Nf6 Bb5 Bd6 Nf3 Qe7",
    "e4 b6 d4 Bb7 Bd3 e6 Nf3 c5 c3 Nf6 Qe2 Be7",
    "e4 Nc6 d4 d5 e5 Bf5 c3 e6",
];

/// What a line of the book says: its name and its moves.
pub open spec fn vue_ligne(l: (String, String)) -> (Seq<char>, Seq<char>) {
    (l.0@, l.1@)
}

/// The lines of the book, each with its name and its moves in SAN. A match
/// gives each line to both sides in turn, so that two engines that never vary
/// do not play the same game again.
pub fn lignes_du_livre() -> (r: Vec<(String, String)>)
    ensures
        r@.len() == N_LIGNES,
        forall|i: int|
            0 <= i < r@.len() ==> vue_ligne(#[trigger] r@[i]) == (ETIQUETTES@[i]@, SUITES@[i]@),
        forall|i: int|
            0 <= i < r@.len() ==> livre_lois::conforme((#[trigger] r@[i]).0@, r@[i].1@),
{
    let mut r: Vec<(String, String)> = Vec::new();
    let mut i: usize = 0;
    while i < N_LIGNES
        invariant
            i <= N_LIGNES,
            r@.len() == i,
            forall|j: int|
                0 <= j < r@.len() ==> vue_ligne(#[trigger] r@[j]) == (ETIQUETTES@[j]@, SUITES@[j]@),
            forall|j: int|
                0 <= j < r@.len() ==> livre_lois::conforme((#[trigger] r@[j]).0@, r@[j].1@),
        decreases N_LIGNES - i,
    {
        let e: &str = ETIQUETTES[i];
        let s: &str = SUITES[i];
        proof {
            livre_lois::loi_lignes_conformes(i as int);
        }
        r.push((e.to_string(), s.to_string()));
        i += 1;
    }
    r
}

// ---------------------------------------------------------------------------
// The book played out
// ---------------------------------------------------------------------------

/// Where a line stands after some moves: the hash of each position met with
/// the move that was played there, and the position reached.
pub type VueChemin = (Seq<(u64, Seq<char>)>, Seq<char>);

/// The first `n` moves of a line, from the starting position. Nothing where
/// one of them cannot be read or played.
pub open spec fn chemin_de(mots: Seq<Seq<char>>, n: int) -> Option<VueChemin>
    decreases n,
{
    if n <= 0 {
        Some((Seq::empty(), echiquier::DEPART@))
    } else {
        match chemin_de(mots, n - 1) {
            None => None,
            Some(c) => pas_de(c, mots[n - 1]),
        }
    }
}

/// One move more on a line.
pub open spec fn pas_de(c: VueChemin, san: Seq<char>) -> Option<VueChemin> {
    match (echiquier::coup_de_san(c.1, san), echiquier::hachage_de(c.1)) {
        (Some(u), Some(h)) => match echiquier::suite_de(c.1, u) {
            Some(f) => Some((c.0.push((h, u)), f)),
            None => None,
        },
        _ => None,
    }
}

/// A line played to its end.
pub open spec fn ligne_de(suite: Seq<char>) -> Option<VueChemin> {
    let mots = texte::mots(suite);
    chemin_de(mots, mots.len() as int)
}

/// What a book holds: the name and the last position of each line; the moves
/// that continue a position, by its hash, in the order of the lines.
pub type VueLivre = (Seq<(Seq<char>, Seq<char>)>, Seq<(u64, Seq<char>)>);

/// The book made of the first `n` lines. Nothing where a line cannot be
/// played.
pub open spec fn livre_de(lignes: Seq<(Seq<char>, Seq<char>)>, n: int) -> Option<VueLivre>
    decreases n,
{
    if n <= 0 {
        Some((Seq::empty(), Seq::empty()))
    } else {
        match (livre_de(lignes, n - 1), ligne_de(lignes[n - 1].1)) {
            (Some(l), Some(c)) => Some((l.0.push((lignes[n - 1].0, c.1)), l.1 + c.0)),
            _ => None,
        }
    }
}

/// An opening book, every line played to its end.
pub struct Livre {
    /// Name and last position of each line.
    pub finales_de_lignes: Vec<(String, String)>,
    /// Hash of a position and a move that continues it, once per line that
    /// goes through it: a popular move weighs more.
    pub continuations: Vec<(u64, String)>,
}

pub open spec fn vues_lignes(v: Seq<(String, String)>) -> Seq<(Seq<char>, Seq<char>)> {
    v.map_values(|l: (String, String)| vue_ligne(l))
}

pub open spec fn vues_continuations(v: Seq<(u64, String)>) -> Seq<(u64, Seq<char>)> {
    v.map_values(|c: (u64, String)| (c.0, c.1@))
}

impl View for Livre {
    type V = VueLivre;

    open spec fn view(&self) -> VueLivre {
        (vues_lignes(self.finales_de_lignes@), vues_continuations(self.continuations@))
    }
}

/// A line that cannot be played.
#[derive(Clone, Copy, Debug, PartialEq, Eq)]
pub struct LigneFautive {
    /// Place of the line.
    pub ligne: usize,
    /// Place, in the line, of the first move that fails.
    pub coup: usize,
}

/// The first `k` moves of the line can be played, and the next one cannot.
pub open spec fn butte(suite: Seq<char>, k: int) -> bool {
    let mots = texte::mots(suite);
    &&& 0 <= k < mots.len()
    &&& chemin_de(mots, k) is Some
    &&& chemin_de(mots, k + 1) is None
}

proof fn lemme_chemin_perdu(mots: Seq<Seq<char>>, k: int, n: int)
    requires
        0 <= k <= n,
        chemin_de(mots, k) is None,
    ensures
        chemin_de(mots, n) is None,
    decreases n - k,
{
    if k < n {
        lemme_chemin_perdu(mots, k, n - 1);
    }
}

proof fn lemme_livre_perdu(lignes: Seq<(Seq<char>, Seq<char>)>, k: int, n: int)
    requires
        0 <= k <= n,
        livre_de(lignes, k) is None,
    ensures
        livre_de(lignes, n) is None,
    decreases n - k,
{
    if k < n {
        lemme_livre_perdu(lignes, k, n - 1);
    }
}

/// The move that a line plays after its first `k` moves is legal there.
pub open spec fn jouable(suite: Seq<char>, k: int) -> bool {
    let mots = texte::mots(suite);
    match (chemin_de(mots, k), chemin_de(mots, k + 1)) {
        (Some(a), Some(b)) => echiquier::legal(echiquier::coups_de(a.1), b.0[k].1),
        _ => false,
    }
}

/// The book has, for the position after the first `k` moves of a line, the
/// move that the line plays there.
pub open spec fn repond(l: VueLivre, suite: Seq<char>, k: int) -> bool {
    let mots = texte::mots(suite);
    match (chemin_de(mots, k), chemin_de(mots, k + 1)) {
        (Some(a), Some(b)) => candidats(l, a.1).contains(b.0[k].1),
        _ => false,
    }
}

proof fn lemme_chemin(mots: Seq<Seq<char>>, k: int, n: int)
    requires
        0 <= k < n,
        chemin_de(mots, n) is Some,
    ensures
        chemin_de(mots, k) is Some,
        chemin_de(mots, k + 1) is Some,
        chemin_de(mots, k).unwrap().0.len() == k,
        chemin_de(mots, k + 1).unwrap().0.len() == k + 1,
        chemin_de(mots, n).unwrap().0.len() == n,
        chemin_de(mots, n).unwrap().0[k] == chemin_de(mots, k + 1).unwrap().0[k],
        echiquier::hachage_de(chemin_de(mots, k).unwrap().1) == Some(
            chemin_de(mots, n).unwrap().0[k].0,
        ),
    decreases n,
{
    if k < n - 1 {
        lemme_chemin(mots, k, n - 1);
    } else {
        lemme_longueur(mots, k);
    }
}

proof fn lemme_longueur(mots: Seq<Seq<char>>, n: int)
    requires
        0 <= n,
        chemin_de(mots, n) is Some,
    ensures
        chemin_de(mots, n).unwrap().0.len() == n,
    decreases n,
{
    if n > 0 {
        lemme_longueur(mots, n - 1);
    }
}

proof fn lemme_continuation_gardee(
    lignes: Seq<(Seq<char>, Seq<char>)>,
    n: int,
    i: int,
    k: int,
)
    requires
        0 <= i < n,
        livre_de(lignes, n) is Some,
        ligne_de(lignes[i].1) is Some,
        0 <= k < ligne_de(lignes[i].1).unwrap().0.len(),
    ensures
        livre_de(lignes, n).unwrap().1.contains(ligne_de(lignes[i].1).unwrap().0[k]),
    decreases n,
{
    let a = livre_de(lignes, n - 1).unwrap().1;
    let c = ligne_de(lignes[n - 1].1).unwrap().0;
    let x = ligne_de(lignes[i].1).unwrap().0[k];
    if i < n - 1 {
        lemme_continuation_gardee(lignes, n - 1, i, k);
        let p = choose|p: int| 0 <= p < a.len() && a[p] == x;
        assert((a + c)[p] == x);
    } else {
        assert((a + c)[a.len() + k] == x);
    }
}

proof fn lemme_candidat_garde(
    c: Seq<(u64, Seq<char>)>,
    n: int,
    h: u64,
    coups: Seq<(Seq<char>, bool)>,
    p: int,
)
    requires
        0 <= p < n,
        c[p].0 == h,
        echiquier::parmi(coups, c[p].1),
    ensures
        candidats_de(c, n, h, coups).contains(c[p].1),
    decreases n,
{
    let r = candidats_de(c, n, h, coups);
    if p < n - 1 {
        lemme_candidat_garde(c, n - 1, h, coups, p);
        let moins = candidats_de(c, n - 1, h, coups);
        let q = choose|q: int| 0 <= q < moins.len() && moins[q] == c[p].1;
        assert(r[q] == c[p].1);
    } else {
        assert(r[r.len() - 1] == c[p].1);
    }
}

proof fn lemme_livre_repond(lignes: Seq<(Seq<char>, Seq<char>)>, n: int, i: int, k: int)
    requires
        0 <= i < n,
        livre_de(lignes, n) is Some,
        ligne_de(lignes[i].1) is Some,
        0 <= k < texte::mots(lignes[i].1).len(),
        jouable(lignes[i].1, k),
    ensures
        repond(livre_de(lignes, n).unwrap(), lignes[i].1, k),
{
    let l = livre_de(lignes, n).unwrap();
    let mots = texte::mots(lignes[i].1);
    lemme_chemin(mots, k, mots.len() as int);
    lemme_continuation_gardee(lignes, n, i, k);
    let a = chemin_de(mots, k).unwrap();
    let x = chemin_de(mots, mots.len() as int).unwrap().0[k];
    let p = choose|p: int| 0 <= p < l.1.len() && l.1[p] == x;
    lemme_candidat_garde(l.1, l.1.len() as int, x.0, echiquier::coups_de(a.1).unwrap(), p);
}

/// Plays one line: adds its continuations to those that are there and gives
/// its last position, or the place of the move that fails.
fn joue_ligne(suite: &str, continuations: &mut Vec<(u64, String)>) -> (r: Result<String, usize>)
    ensures
        match r {
            Ok(f) => match ligne_de(suite@) {
                Some(c) => f@ == c.1 && vues_continuations(final(continuations)@)
                    == vues_continuations(old(continuations)@) + c.0,
                None => false,
            },
            Err(k) => butte(suite@, k as int),
        },
        r is Ok ==> forall|k: int|
            0 <= k < texte::mots(suite@).len() ==> #[trigger] jouable(suite@, k),
{
    let mots: Vec<Vec<char>> = texte::en_mots(&texte::caracteres(suite));
    let ghost m = texte::mots(suite@);
    let ghost avant = vues_continuations(continuations@);
    let mut fen: String = echiquier::position_initiale();
    let ghost mut faits: Seq<(u64, Seq<char>)> = Seq::empty();
    let mut i: usize = 0;
    assert(vues_continuations(continuations@) =~= avant + faits);
    while i < mots.len()
        invariant
            i <= mots.len(),
            texte::vues(mots@) == m,
            m == texte::mots(suite@),
            chemin_de(m, i as int) == Some((faits, fen@)),
            vues_continuations(continuations@) == avant + faits,
            forall|k: int| 0 <= k < i ==> #[trigger] jouable(suite@, k),
        decreases mots.len() - i,
    {
        let san: String = texte::texte(&mots[i]);
        assert(san@ == m[i as int]);
        let coup: Option<String> = echiquier::coup_du_san(fen.as_str(), san.as_str());
        let h: Option<u64> = echiquier::hachage(fen.as_str());
        match (coup, h) {
            (Some(u), Some(h)) => {
                let apres: Option<String> = echiquier::apres_coup(fen.as_str(), u.as_str());
                match apres {
                    Some(f) => {
                        let ghost pas = (h, u@);
                        let ghost c0 = continuations@;
                        continuations.push((h, u));
                        proof {
                            assert(vues_continuations(continuations@)
                                =~= vues_continuations(c0).push(pas));
                            assert((avant + faits).push(pas) =~= avant + faits.push(pas));
                            lemme_longueur(m, i as int);
                            assert(chemin_de(m, i + 1) == Some((faits.push(pas), f@)));
                            assert(jouable(suite@, i as int));
                            faits = faits.push(pas);
                        }
                        fen = f;
                        i += 1;
                    },
                    None => {
                        return Err(i);
                    },
                }
            },
            _ => {
                return Err(i);
            },
        }
    }
    Ok(fen)
}

impl Livre {
    /// Plays every line of a book. Where one cannot be played, the first such
    /// line is named, with its first move that fails. The book that comes out
    /// answers every position that one of its lines goes through.
    pub fn charge(lignes: &Vec<(String, String)>) -> (r: Result<Livre, LigneFautive>)
        ensures
            match r {
                Ok(l) => livre_de(vues_lignes(lignes@), lignes@.len() as int) == Some(l@),
                Err(e) => {
                    &&& e.ligne < lignes@.len()
                    &&& livre_de(vues_lignes(lignes@), e.ligne as int) is Some
                    &&& butte(lignes@[e.ligne as int].1@, e.coup as int)
                    &&& livre_de(vues_lignes(lignes@), lignes@.len() as int) is None
                },
            },
            r matches Ok(l) ==> l.finales_de_lignes@.len() == lignes@.len(),
            r matches Ok(l) ==> forall|i: int, k: int|
                #![trigger repond(l@, lignes@[i].1@, k)]
                0 <= i < lignes@.len() && 0 <= k < texte::mots(lignes@[i].1@).len() ==> repond(
                    l@,
                    lignes@[i].1@,
                    k,
                ),
    {
        let ghost v = vues_lignes(lignes@);
        let mut finales: Vec<(String, String)> = Vec::new();
        let mut continuations: Vec<(u64, String)> = Vec::new();
        let mut i: usize = 0;
        assert(vues_lignes(finales@) =~= Seq::empty());
        assert(vues_continuations(continuations@) =~= Seq::empty());
        while i < lignes.len()
            invariant
                i <= lignes.len(),
                v == vues_lignes(lignes@),
                finales@.len() == i,
                livre_de(v, i as int) == Some(
                    (vues_lignes(finales@), vues_continuations(continuations@)),
                ),
                forall|j: int, k: int|
                    #![trigger jouable(v[j].1, k)]
                    0 <= j < i && 0 <= k < texte::mots(v[j].1).len() ==> jouable(v[j].1, k),
                forall|j: int| 0 <= j < i ==> ligne_de((#[trigger] v[j]).1) is Some,
            decreases lignes.len() - i,
        {
            assert(v[i as int] == vue_ligne(lignes@[i as int]));
            match joue_ligne(lignes[i].1.as_str(), &mut continuations) {
                Ok(f) => {
                    let nom: String = lignes[i].0.clone();
                    let ghost f0 = finales@;
                    let ghost fin = (nom@, f@);
                    finales.push((nom, f));
                    assert(vues_lignes(finales@) =~= vues_lignes(f0).push(fin));
                    i += 1;
                },
                Err(k) => {
                    proof {
                        let mots = texte::mots(v[i as int].1);
                        lemme_chemin_perdu(mots, k + 1, mots.len() as int);
                        assert(livre_de(v, i + 1) is None);
                        lemme_livre_perdu(v, i + 1, v.len() as int);
                    }
                    return Err(LigneFautive { ligne: i, coup: k });
                },
            }
        }
        let l: Livre = Livre { finales_de_lignes: finales, continuations };
        assert forall|j: int, k: int|
            #![trigger repond(l@, lignes@[j].1@, k)]
            0 <= j < lignes@.len() && 0 <= k < texte::mots(lignes@[j].1@).len() implies repond(
            l@,
            lignes@[j].1@,
            k,
        ) by {
            assert(v[j].1 == lignes@[j].1@);
            assert(jouable(v[j].1, k));
            lemme_livre_repond(v, v.len() as int, j, k);
        }
        Ok(l)
    }
}

// ---------------------------------------------------------------------------
// A move out of the book
// ---------------------------------------------------------------------------

/// Moves of the book for a position, among its first `n` continuations: those
/// with the hash of the position that are legal in it.
pub open spec fn candidats_de(
    c: Seq<(u64, Seq<char>)>,
    n: int,
    h: u64,
    coups: Seq<(Seq<char>, bool)>,
) -> Seq<Seq<char>>
    decreases n,
{
    if n <= 0 {
        Seq::empty()
    } else if c[n - 1].0 == h && echiquier::parmi(coups, c[n - 1].1) {
        candidats_de(c, n - 1, h, coups).push(c[n - 1].1)
    } else {
        candidats_de(c, n - 1, h, coups)
    }
}

/// Moves of the book for a position. None where it cannot be read.
pub open spec fn candidats(l: VueLivre, fen: Seq<char>) -> Seq<Seq<char>> {
    match (echiquier::hachage_de(fen), echiquier::coups_de(fen)) {
        (Some(h), Some(coups)) => candidats_de(l.1, l.1.len() as int, h, coups),
        _ => Seq::empty(),
    }
}

/// Every move that the book has for a position is legal there.
pub proof fn loi_livre_legal(l: VueLivre, fen: Seq<char>, i: int)
    requires
        0 <= i < candidats(l, fen).len(),
    ensures
        echiquier::legal(echiquier::coups_de(fen), candidats(l, fen)[i]),
{
    lemme_candidats_legaux(
        l.1,
        l.1.len() as int,
        echiquier::hachage_de(fen).unwrap(),
        echiquier::coups_de(fen).unwrap(),
        i,
    );
}

/// Every move of every line of a loaded book is legal where the line plays it.
pub proof fn loi_lignes_legales(l: VueLivre, suite: Seq<char>, k: int)
    requires
        repond(l, suite, k),
    ensures
        jouable(suite, k),
{
    let mots = texte::mots(suite);
    let fen = (chemin_de(mots, k)->0).1;
    let coup = (chemin_de(mots, k + 1)->0).0[k].1;
    let i = candidats(l, fen).index_of(coup);
    loi_livre_legal(l, fen, i);
}

proof fn lemme_candidats_legaux(
    c: Seq<(u64, Seq<char>)>,
    n: int,
    h: u64,
    coups: Seq<(Seq<char>, bool)>,
    i: int,
)
    requires
        0 <= i < candidats_de(c, n, h, coups).len(),
    ensures
        echiquier::parmi(coups, candidats_de(c, n, h, coups)[i]),
    decreases n,
{
    if n > 0 && i < candidats_de(c, n - 1, h, coups).len() {
        lemme_candidats_legaux(c, n - 1, h, coups, i);
    }
}

fn est_legal(coups: &Vec<(String, bool)>, u: &String) -> (r: bool)
    ensures
        r == echiquier::parmi(echiquier::vues_coups(coups@), u@),
{
    let mut i: usize = 0;
    while i < coups.len()
        invariant
            i <= coups.len(),
            forall|j: int| 0 <= j < i ==> (#[trigger] coups@[j]).0@ != u@,
        decreases coups.len() - i,
    {
        if texte::egal(coups[i].0.as_str(), u.as_str()) {
            let ghost vc = echiquier::vues_coups(coups@);
            assert(0 <= i < vc.len() && vc[i as int].0 == u@);
            return true;
        }
        i += 1;
    }
    assert forall|j: int| 0 <= j < coups@.len() implies (#[trigger] echiquier::vues_coups(
        coups@,
    )[j]).0 != u@ by {
        assert(coups@[j].0@ != u@);
    }
    false
}

/// Places, in the book, of the moves for a position.
fn places_des_candidats(livre: &Livre, fen: &str) -> (r: Vec<usize>)
    ensures
        candidats(livre@, fen@) == r@.map_values(|k: usize| livre@.1[k as int].1),
        forall|i: int| 0 <= i < r@.len() ==> (#[trigger] r@[i]) < livre.continuations@.len(),
{
    let mut r: Vec<usize> = Vec::new();
    let ghost c = livre@.1;
    match (echiquier::hachage(fen), echiquier::coups_legaux(fen)) {
        (Some(h), Some(coups)) => {
            let ghost vc = echiquier::vues_coups(coups@);
            let mut k: usize = 0;
            assert(candidats_de(c, 0, h, vc) =~= r@.map_values(|k: usize| c[k as int].1));
            while k < livre.continuations.len()
                invariant
                    k <= livre.continuations.len(),
                    c == vues_continuations(livre.continuations@),
                    vc == echiquier::vues_coups(coups@),
                    candidats_de(c, k as int, h, vc) == r@.map_values(|k: usize| c[k as int].1),
                    forall|i: int| 0 <= i < r@.len() ==> (#[trigger] r@[i]) < k,
                decreases livre.continuations.len() - k,
            {
                assert(c[k as int] == (
                    livre.continuations@[k as int].0,
                    livre.continuations@[k as int].1@,
                ));
                if livre.continuations[k].0 == h && est_legal(&coups, &livre.continuations[k].1) {
                    let ghost r0 = r@;
                    r.push(k);
                    assert(r@.map_values(|k: usize| c[k as int].1) =~= r0.map_values(
                        |k: usize| c[k as int].1,
                    ).push(c[k as int].1));
                }
                k += 1;
            }
        },
        _ => {
            assert(candidats(livre@, fen@) =~= r@.map_values(|k: usize| livre@.1[k as int].1));
        },
    }
    r
}

/// A move of the book for a position, drawn among those that its lines play
/// there. Nothing where the position is out of the book.
pub fn coup_du_livre(livre: &Livre, fen: &str, rng: &mut StdRng) -> (r: Option<String>)
    ensures
        match r {
            Some(u) => candidats(livre@, fen@).contains(u@),
            None => candidats(livre@, fen@).len() == 0,
        },
{
    let places: Vec<usize> = places_des_candidats(livre, fen);
    match bots::pioche(&places, rng) {
        Some(k) => {
            proof {
                let i = choose|i: int| 0 <= i < places@.len() && places@[i] == k;
                assert(candidats(livre@, fen@)[i] == livre@.1[k as int].1);
                assert(livre@.1[k as int].1 == livre.continuations@[k as int].1@);
            }
            Some(livre.continuations[k].1.clone())
        },
        None => None,
    }
}

// ---------------------------------------------------------------------------
// Laws of the reading
// ---------------------------------------------------------------------------

/// A line of the book is played from the start, word by word: each word names
/// a move of the position reached, kept with that position's fingerprint.
pub proof fn loi_pas_de_ligne(mots: Seq<Seq<char>>, n: int)
    requires
        0 <= n < mots.len(),
        chemin_de(mots, n + 1) is Some,
    ensures
        chemin_de(mots, n) is Some,
        ({
            let a = chemin_de(mots, n)->0;
            let b = chemin_de(mots, n + 1)->0;
            let u = echiquier::coup_de_san(a.1, mots[n]);
            &&& u is Some
            &&& echiquier::suite_de(a.1, u->0) == Some(b.1)
            &&& b.0.len() == a.0.len() + 1 && a.0.is_prefix_of(b.0)
            &&& b.0.last() == (echiquier::hachage_de(a.1)->0, u->0)
        }),
        chemin_de(mots, 0) == Some((Seq::<(u64, Seq<char>)>::empty(), echiquier::DEPART@)),
{
}

/// A path has as many moves as words were read.
pub proof fn loi_longueur_de_ligne(mots: Seq<Seq<char>>, n: int)
    requires
        0 <= n <= mots.len(),
        chemin_de(mots, n) is Some,
    ensures
        (chemin_de(mots, n)->0).0.len() == n,
    decreases n,
{
    if n > 0 {
        loi_pas_de_ligne(mots, n - 1);
        loi_longueur_de_ligne(mots, n - 1);
    }
}

/// A book that can be read has one end per line, with the line's name, in
/// order, and every continuation of every line.
pub proof fn loi_livre_lu(lignes: Seq<(Seq<char>, Seq<char>)>, n: int, i: int)
    requires
        0 <= i < n <= lignes.len(),
        livre_de(lignes, n) is Some,
    ensures
        ({
            let l = livre_de(lignes, n)->0;
            let c = ligne_de(lignes[i].1);
            &&& l.0.len() == n
            &&& l.0[i].0 == lignes[i].0
            &&& c is Some
            &&& l.0[i].1 == (c->0).1
            &&& forall|k: int|
                0 <= k < (c->0).0.len() ==> l.1.contains(#[trigger] (c->0).0[k])
        }),
    decreases n,
{
    let d = livre_de(lignes, n - 1)->0;
    let e = ligne_de(lignes[n - 1].1)->0;
    let l = livre_de(lignes, n)->0;
    if n - 1 > 0 {
        loi_livre_lu(lignes, n - 1, if i < n - 1 { i } else { 0 });
    } else {
        assert(d.0.len() == 0);
    }
    let c = ligne_de(lignes[i].1)->0;
    assert forall|k: int| 0 <= k < c.0.len() implies l.1.contains(#[trigger] c.0[k]) by {
        if i == n - 1 {
            assert(l.1[d.1.len() + k] == c.0[k]);
        } else {
            assert(d.1.contains(c.0[k]));
            let q = d.1.index_of(c.0[k]);
            assert(l.1[q] == c.0[k]);
        }
    }
}

/// The moves that a book answers with are its continuations that carry the
/// fingerprint of the position and are legal there, in order, as often as they
/// stand in the book.
pub proof fn loi_candidats(
    c: Seq<(u64, Seq<char>)>,
    n: int,
    h: u64,
    coups: Seq<(Seq<char>, bool)>,
    u: Seq<char>,
)
    requires
        0 <= n <= c.len(),
    ensures
        candidats_de(c, n, h, coups).contains(u) <==> echiquier::parmi(coups, u) && exists|i: int|
            0 <= i < n && #[trigger] c[i] == (h, u),
        candidats_de(c, n, h, coups).len() <= n,
    decreases n,
{
    if n > 0 {
        loi_candidats(c, n - 1, h, coups, u);
        let d = candidats_de(c, n - 1, h, coups);
        let x = c[n - 1].1;
        let e = d.push(x);
        if d.contains(u) {
            assert(e[d.index_of(u)] == u);
        }
        assert(e[d.len() as int] == x);
        if e.contains(u) && x != u {
            assert(d[e.index_of(u)] == u);
        }
        if c[n - 1].0 == h && x == u {
            assert(c[n - 1] == (h, u));
        }
    }
}

} // verus!
