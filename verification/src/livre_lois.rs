//! What holds of every line of the opening book.
use vstd::prelude::*;

use crate::livre;
use crate::livre::{ETIQUETTES, N_LIGNES, SUITES};
use crate::texte;

verus! {

/// How many words begin among the first `k` characters of a text.
pub open spec fn debuts(s: Seq<char>, k: int) -> int
    decreases k,
{
    if k <= 0 {
        0
    } else if s[k - 1] != ' ' && (k == 1 || s[k - 2] == ' ') {
        debuts(s, k - 1) + 1
    } else {
        debuts(s, k - 1)
    }
}

/// Are the first `k` characters printable ASCII, so that the space is the only
/// white space among them?
pub open spec fn imprimables(s: Seq<char>, k: int) -> bool
    decreases k,
{
    k <= 0 || (' ' <= s[k - 1] <= '~' && imprimables(s, k - 1))
}

proof fn lemme_debuts_comptent(s: Seq<char>, k: int)
    requires
        0 <= k <= s.len(),
        imprimables(s, k),
    ensures
        texte::mots(s.take(k)).len() == debuts(s, k),
        k > 0 && s[k - 1] != ' ' ==> texte::mots(s.take(k)).len() > 0,
        k > 0 ==> texte::blanc(s[k - 1]) == (s[k - 1] == ' '),
    decreases k,
{
    if k > 0 {
        lemme_debuts_comptent(s, k - 1);
        assert(s.take(k).drop_last() =~= s.take(k - 1));
    }
}

/// Does the name of a line begin as those of the openings do, and has the line
/// six to twelve moves?
pub open spec fn conforme(etiquette: Seq<char>, suite: Seq<char>) -> bool {
    &&& texte::commence_par(etiquette, "ouverture:"@)
    &&& 6 <= texte::mots(suite).len() <= 12
}

proof fn lemme_conforme(etiquette: Seq<char>, suite: Seq<char>)
    requires
        etiquette.len() >= 10,
        etiquette[0] == 'o',
        etiquette[1] == 'u',
        etiquette[2] == 'v',
        etiquette[3] == 'e',
        etiquette[4] == 'r',
        etiquette[5] == 't',
        etiquette[6] == 'u',
        etiquette[7] == 'r',
        etiquette[8] == 'e',
        etiquette[9] == ':',
        imprimables(suite, suite.len() as int),
        6 <= debuts(suite, suite.len() as int) <= 12,
    ensures
        conforme(etiquette, suite),
{
    reveal_strlit("ouverture:");
    assert(etiquette.take(10) =~= "ouverture:"@);
    lemme_debuts_comptent(suite, suite.len() as int);
    assert(suite.take(suite.len() as int) =~= suite);
}

proof fn lemme_lignes_0(i: int)
    requires
        0 <= i < 6,
    ensures
        conforme(ETIQUETTES@[i]@, SUITES@[i]@),
{
    reveal_with_fuel(debuts, 47);
    reveal_with_fuel(imprimables, 47);
    if i == 0 {
        reveal_strlit("ouverture:italienne-giuoco-piano");
        reveal_strlit("e4 e5 Nf3 Nc6 Bc4 Bc5 c3 Nf6 d4 exd4 cxd4 Bb4+");
        lemme_conforme(ETIQUETTES@[0]@, SUITES@[0]@);
    } else if i == 1 {
        reveal_strlit("ouverture:italienne-pianissimo");
        reveal_strlit("e4 e5 Nf3 Nc6 Bc4 Bc5 d3 Nf6 c3 d6 O-O a6");
        lemme_conforme(ETIQUETTES@[1]@, SUITES@[1]@);
    } else if i == 2 {
        reveal_strlit("ouverture:italienne-deux-cavaliers");
        reveal_strlit("e4 e5 Nf3 Nc6 Bc4 Nf6 d3 Be7 O-O O-O");
        lemme_conforme(ETIQUETTES@[2]@, SUITES@[2]@);
    } else if i == 3 {
        reveal_strlit("ouverture:italienne-deux-cavaliers-ng5");
        reveal_strlit("e4 e5 Nf3 Nc6 Bc4 Nf6 Ng5 d5 exd5 Na5 Bb5+ c6");
        lemme_conforme(ETIQUETTES@[3]@, SUITES@[3]@);
    } else if i == 4 {
        reveal_strlit("ouverture:italienne-gambit-evans");
        reveal_strlit("e4 e5 Nf3 Nc6 Bc4 Bc5 b4 Bxb4 c3 Ba5 d4 exd4");
        lemme_conforme(ETIQUETTES@[4]@, SUITES@[4]@);
    } else if i == 5 {
        reveal_strlit("ouverture:italienne-evans-refuse");
        reveal_strlit("e4 e5 Nf3 Nc6 Bc4 Bc5 b4 Bb6 a4 a6");
        lemme_conforme(ETIQUETTES@[5]@, SUITES@[5]@);
    }
}

proof fn lemme_lignes_6(i: int)
    requires
        6 <= i < 12,
    ensures
        conforme(ETIQUETTES@[i]@, SUITES@[i]@),
{
    reveal_with_fuel(debuts, 48);
    reveal_with_fuel(imprimables, 48);
    if i == 6 {
        reveal_strlit("ouverture:italienne-hongroise");
        reveal_strlit("e4 e5 Nf3 Nc6 Bc4 Be7 d4 d6");
        lemme_conforme(ETIQUETTES@[6]@, SUITES@[6]@);
    } else if i == 7 {
        reveal_strlit("ouverture:espagnole-fermee");
        reveal_strlit("e4 e5 Nf3 Nc6 Bb5 a6 Ba4 Nf6 O-O Be7 Re1 b5");
        lemme_conforme(ETIQUETTES@[7]@, SUITES@[7]@);
    } else if i == 8 {
        reveal_strlit("ouverture:espagnole-ouverte");
        reveal_strlit("e4 e5 Nf3 Nc6 Bb5 a6 Ba4 Nf6 O-O Nxe4 d4 b5");
        lemme_conforme(ETIQUETTES@[8]@, SUITES@[8]@);
    } else if i == 9 {
        reveal_strlit("ouverture:espagnole-echange");
        reveal_strlit("e4 e5 Nf3 Nc6 Bb5 a6 Bxc6 dxc6 O-O f6 d4 exd4");
        lemme_conforme(ETIQUETTES@[9]@, SUITES@[9]@);
    } else if i == 10 {
        reveal_strlit("ouverture:espagnole-berlin");
        reveal_strlit("e4 e5 Nf3 Nc6 Bb5 Nf6 O-O Nxe4 d4 Nd6 Bxc6 dxc6");
        lemme_conforme(ETIQUETTES@[10]@, SUITES@[10]@);
    } else if i == 11 {
        reveal_strlit("ouverture:espagnole-anti-berlin");
        reveal_strlit("e4 e5 Nf3 Nc6 Bb5 Nf6 d3 Bc5 c3 O-O O-O d6");
        lemme_conforme(ETIQUETTES@[11]@, SUITES@[11]@);
    }
}

proof fn lemme_lignes_12(i: int)
    requires
        12 <= i < 18,
    ensures
        conforme(ETIQUETTES@[i]@, SUITES@[i]@),
{
    reveal_with_fuel(debuts, 44);
    reveal_with_fuel(imprimables, 44);
    if i == 12 {
        reveal_strlit("ouverture:espagnole-steinitz");
        reveal_strlit("e4 e5 Nf3 Nc6 Bb5 d6 d4 exd4 Nxd4 Bd7");
        lemme_conforme(ETIQUETTES@[12]@, SUITES@[12]@);
    } else if i == 13 {
        reveal_strlit("ouverture:espagnole-schliemann");
        reveal_strlit("e4 e5 Nf3 Nc6 Bb5 f5 Nc3 fxe4 Nxe4 d5");
        lemme_conforme(ETIQUETTES@[13]@, SUITES@[13]@);
    } else if i == 14 {
        reveal_strlit("ouverture:espagnole-arkhangelsk");
        reveal_strlit("e4 e5 Nf3 Nc6 Bb5 a6 Ba4 Nf6 O-O b5 Bb3 Bb7");
        lemme_conforme(ETIQUETTES@[14]@, SUITES@[14]@);
    } else if i == 15 {
        reveal_strlit("ouverture:sicilienne-najdorf");
        reveal_strlit("e4 c5 Nf3 d6 d4 cxd4 Nxd4 Nf6 Nc3 a6");
        lemme_conforme(ETIQUETTES@[15]@, SUITES@[15]@);
    } else if i == 16 {
        reveal_strlit("ouverture:sicilienne-najdorf-be2");
        reveal_strlit("e4 c5 Nf3 d6 d4 cxd4 Nxd4 Nf6 Nc3 a6 Be2 e5");
        lemme_conforme(ETIQUETTES@[16]@, SUITES@[16]@);
    } else if i == 17 {
        reveal_strlit("ouverture:sicilienne-najdorf-anglaise");
        reveal_strlit("e4 c5 Nf3 d6 d4 cxd4 Nxd4 Nf6 Nc3 a6 Be3 e5");
        lemme_conforme(ETIQUETTES@[17]@, SUITES@[17]@);
    }
}

proof fn lemme_lignes_18(i: int)
    requires
        18 <= i < 24,
    ensures
        conforme(ETIQUETTES@[i]@, SUITES@[i]@),
{
    reveal_with_fuel(debuts, 46);
    reveal_with_fuel(imprimables, 46);
    if i == 18 {
        reveal_strlit("ouverture:sicilienne-najdorf-bg5");
        reveal_strlit("e4 c5 Nf3 d6 d4 cxd4 Nxd4 Nf6 Nc3 a6 Bg5 e6");
        lemme_conforme(ETIQUETTES@[18]@, SUITES@[18]@);
    } else if i == 19 {
        reveal_strlit("ouverture:sicilienne-dragon");
        reveal_strlit("e4 c5 Nf3 d6 d4 cxd4 Nxd4 Nf6 Nc3 g6 Be3 Bg7");
        lemme_conforme(ETIQUETTES@[19]@, SUITES@[19]@);
    } else if i == 20 {
        reveal_strlit("ouverture:sicilienne-dragon-yougoslave");
        reveal_strlit("e4 c5 Nf3 d6 d4 cxd4 Nxd4 Nf6 Nc3 g6 f3 Bg7");
        lemme_conforme(ETIQUETTES@[20]@, SUITES@[20]@);
    } else if i == 21 {
        reveal_strlit("ouverture:sicilienne-dragon-accelere");
        reveal_strlit("e4 c5 Nf3 Nc6 d4 cxd4 Nxd4 g6 Nc3 Bg7 Be3 Nf6");
        lemme_conforme(ETIQUETTES@[21]@, SUITES@[21]@);
    } else if i == 22 {
        reveal_strlit("ouverture:sicilienne-sveshnikov");
        reveal_strlit("e4 c5 Nf3 Nc6 d4 cxd4 Nxd4 Nf6 Nc3 e5 Ndb5 d6");
        lemme_conforme(ETIQUETTES@[22]@, SUITES@[22]@);
    } else if i == 23 {
        reveal_strlit("ouverture:sicilienne-classique");
        reveal_strlit("e4 c5 Nf3 d6 d4 cxd4 Nxd4 Nf6 Nc3 Nc6");
        lemme_conforme(ETIQUETTES@[23]@, SUITES@[23]@);
    }
}

proof fn lemme_lignes_24(i: int)
    requires
        24 <= i < 30,
    ensures
        conforme(ETIQUETTES@[i]@, SUITES@[i]@),
{
    reveal_with_fuel(debuts, 45);
    reveal_with_fuel(imprimables, 45);
    if i == 24 {
        reveal_strlit("ouverture:sicilienne-richter-rauzer");
        reveal_strlit("e4 c5 Nf3 d6 d4 cxd4 Nxd4 Nf6 Nc3 Nc6 Bg5 e6");
        lemme_conforme(ETIQUETTES@[24]@, SUITES@[24]@);
    } else if i == 25 {
        reveal_strlit("ouverture:sicilienne-sozin");
        reveal_strlit("e4 c5 Nf3 d6 d4 cxd4 Nxd4 Nf6 Nc3 Nc6 Bc4 e6");
        lemme_conforme(ETIQUETTES@[25]@, SUITES@[25]@);
    } else if i == 26 {
        reveal_strlit("ouverture:sicilienne-scheveningue");
        reveal_strlit("e4 c5 Nf3 d6 d4 cxd4 Nxd4 Nf6 Nc3 e6 Be2 Be7");
        lemme_conforme(ETIQUETTES@[26]@, SUITES@[26]@);
    } else if i == 27 {
        reveal_strlit("ouverture:sicilienne-taimanov");
        reveal_strlit("e4 c5 Nf3 e6 d4 cxd4 Nxd4 Nc6 Nc3 Qc7");
        lemme_conforme(ETIQUETTES@[27]@, SUITES@[27]@);
    } else if i == 28 {
        reveal_strlit("ouverture:sicilienne-kan");
        reveal_strlit("e4 c5 Nf3 e6 d4 cxd4 Nxd4 a6 Nc3 Qc7");
        lemme_conforme(ETIQUETTES@[28]@, SUITES@[28]@);
    } else if i == 29 {
        reveal_strlit("ouverture:sicilienne-alapin");
        reveal_strlit("e4 c5 c3 Nf6 e5 Nd5 d4 cxd4 Nf3 Nc6 cxd4 d6");
        lemme_conforme(ETIQUETTES@[29]@, SUITES@[29]@);
    }
}

proof fn lemme_lignes_30(i: int)
    requires
        30 <= i < 36,
    ensures
        conforme(ETIQUETTES@[i]@, SUITES@[i]@),
{
    reveal_with_fuel(debuts, 41);
    reveal_with_fuel(imprimables, 41);
    if i == 30 {
        reveal_strlit("ouverture:sicilienne-alapin-d5");
        reveal_strlit("e4 c5 c3 d5 exd5 Qxd5 d4 Nf6 Nf3 e6");
        lemme_conforme(ETIQUETTES@[30]@, SUITES@[30]@);
    } else if i == 31 {
        reveal_strlit("ouverture:sicilienne-fermee");
        reveal_strlit("e4 c5 Nc3 Nc6 g3 g6 Bg2 Bg7 d3 d6");
        lemme_conforme(ETIQUETTES@[31]@, SUITES@[31]@);
    } else if i == 32 {
        reveal_strlit("ouverture:sicilienne-rossolimo");
        reveal_strlit("e4 c5 Nf3 Nc6 Bb5 g6 Bxc6 dxc6 d3 Bg7");
        lemme_conforme(ETIQUETTES@[32]@, SUITES@[32]@);
    } else if i == 33 {
        reveal_strlit("ouverture:sicilienne-moscou");
        reveal_strlit("e4 c5 Nf3 d6 Bb5+ Bd7 Bxd7+ Qxd7 O-O Nf6");
        lemme_conforme(ETIQUETTES@[33]@, SUITES@[33]@);
    } else if i == 34 {
        reveal_strlit("ouverture:sicilienne-grand-prix");
        reveal_strlit("e4 c5 Nc3 Nc6 f4 g6 Nf3 Bg7 Bb5 Nd4");
        lemme_conforme(ETIQUETTES@[34]@, SUITES@[34]@);
    } else if i == 35 {
        reveal_strlit("ouverture:francaise-avance");
        reveal_strlit("e4 e6 d4 d5 e5 c5 c3 Nc6 Nf3 Qb6");
        lemme_conforme(ETIQUETTES@[35]@, SUITES@[35]@);
    }
}

proof fn lemme_lignes_36(i: int)
    requires
        36 <= i < 42,
    ensures
        conforme(ETIQUETTES@[i]@, SUITES@[i]@),
{
    reveal_with_fuel(debuts, 50);
    reveal_with_fuel(imprimables, 50);
    if i == 36 {
        reveal_strlit("ouverture:francaise-tarrasch");
        reveal_strlit("e4 e6 d4 d5 Nd2 Nf6 e5 Nfd7 Bd3 c5 c3 Nc6");
        lemme_conforme(ETIQUETTES@[36]@, SUITES@[36]@);
    } else if i == 37 {
        reveal_strlit("ouverture:francaise-tarrasch-c5");
        reveal_strlit("e4 e6 d4 d5 Nd2 c5 exd5 exd5 Ngf3 Nc6 Bb5 Bd6");
        lemme_conforme(ETIQUETTES@[37]@, SUITES@[37]@);
    } else if i == 38 {
        reveal_strlit("ouverture:francaise-winawer");
        reveal_strlit("e4 e6 d4 d5 Nc3 Bb4 e5 c5 a3 Bxc3+ bxc3 Ne7");
        lemme_conforme(ETIQUETTES@[38]@, SUITES@[38]@);
    } else if i == 39 {
        reveal_strlit("ouverture:francaise-classique");
        reveal_strlit("e4 e6 d4 d5 Nc3 Nf6 Bg5 Be7 e5 Nfd7 Bxe7 Qxe7");
        lemme_conforme(ETIQUETTES@[39]@, SUITES@[39]@);
    } else if i == 40 {
        reveal_strlit("ouverture:francaise-steinitz");
        reveal_strlit("e4 e6 d4 d5 Nc3 Nf6 e5 Nfd7 f4 c5 Nf3 Nc6");
        lemme_conforme(ETIQUETTES@[40]@, SUITES@[40]@);
    } else if i == 41 {
        reveal_strlit("ouverture:francaise-rubinstein");
        reveal_strlit("e4 e6 d4 d5 Nc3 dxe4 Nxe4 Nd7 Nf3 Ngf6 Nxf6+ Nxf6");
        lemme_conforme(ETIQUETTES@[41]@, SUITES@[41]@);
    }
}

proof fn lemme_lignes_42(i: int)
    requires
        42 <= i < 48,
    ensures
        conforme(ETIQUETTES@[i]@, SUITES@[i]@),
{
    reveal_with_fuel(debuts, 50);
    reveal_with_fuel(imprimables, 50);
    if i == 42 {
        reveal_strlit("ouverture:francaise-echange");
        reveal_strlit("e4 e6 d4 d5 exd5 exd5 Nf3 Nf6 Bd3 Bd6 O-O O-O");
        lemme_conforme(ETIQUETTES@[42]@, SUITES@[42]@);
    } else if i == 43 {
        reveal_strlit("ouverture:caro-kann-classique");
        reveal_strlit("e4 c6 d4 d5 Nc3 dxe4 Nxe4 Bf5 Ng3 Bg6 h4 h6");
        lemme_conforme(ETIQUETTES@[43]@, SUITES@[43]@);
    } else if i == 44 {
        reveal_strlit("ouverture:caro-kann-nd7");
        reveal_strlit("e4 c6 d4 d5 Nc3 dxe4 Nxe4 Nd7 Nf3 Ngf6 Nxf6+ Nxf6");
        lemme_conforme(ETIQUETTES@[44]@, SUITES@[44]@);
    } else if i == 45 {
        reveal_strlit("ouverture:caro-kann-avance");
        reveal_strlit("e4 c6 d4 d5 e5 Bf5 Nf3 e6 Be2 c5");
        lemme_conforme(ETIQUETTES@[45]@, SUITES@[45]@);
    } else if i == 46 {
        reveal_strlit("ouverture:caro-kann-avance-shirov");
        reveal_strlit("e4 c6 d4 d5 e5 Bf5 Nc3 e6 g4 Bg6");
        lemme_conforme(ETIQUETTES@[46]@, SUITES@[46]@);
    } else if i == 47 {
        reveal_strlit("ouverture:caro-kann-panov");
        reveal_strlit("e4 c6 d4 d5 exd5 cxd5 c4 Nf6 Nc3 e6 Nf3 Bb4");
        lemme_conforme(ETIQUETTES@[47]@, SUITES@[47]@);
    }
}

proof fn lemme_lignes_48(i: int)
    requires
        48 <= i < 54,
    ensures
        conforme(ETIQUETTES@[i]@, SUITES@[i]@),
{
    reveal_with_fuel(debuts, 45);
    reveal_with_fuel(imprimables, 45);
    if i == 48 {
        reveal_strlit("ouverture:caro-kann-echange");
        reveal_strlit("e4 c6 d4 d5 exd5 cxd5 Bd3 Nc6 c3 Nf6 Bf4 Bg4");
        lemme_conforme(ETIQUETTES@[48]@, SUITES@[48]@);
    } else if i == 49 {
        reveal_strlit("ouverture:caro-kann-deux-cavaliers");
        reveal_strlit("e4 c6 Nc3 d5 Nf3 Bg4 h3 Bxf3 Qxf3 e6");
        lemme_conforme(ETIQUETTES@[49]@, SUITES@[49]@);
    } else if i == 50 {
        reveal_strlit("ouverture:caro-kann-fantaisie");
        reveal_strlit("e4 c6 d4 d5 f3 dxe4 fxe4 e5 Nf3 exd4");
        lemme_conforme(ETIQUETTES@[50]@, SUITES@[50]@);
    } else if i == 51 {
        reveal_strlit("ouverture:gambit-dame-accepte");
        reveal_strlit("d4 d5 c4 dxc4 Nf3 Nf6 e3 e6 Bxc4 c5 O-O a6");
        lemme_conforme(ETIQUETTES@[51]@, SUITES@[51]@);
    } else if i == 52 {
        reveal_strlit("ouverture:gambit-dame-accepte-e4");
        reveal_strlit("d4 d5 c4 dxc4 e4 e5 Nf3 exd4 Bxc4 Nc6");
        lemme_conforme(ETIQUETTES@[52]@, SUITES@[52]@);
    } else if i == 53 {
        reveal_strlit("ouverture:gambit-dame-orthodoxe");
        reveal_strlit("d4 d5 c4 e6 Nc3 Nf6 Bg5 Be7 e3 O-O Nf3 Nbd7");
        lemme_conforme(ETIQUETTES@[53]@, SUITES@[53]@);
    }
}

proof fn lemme_lignes_54(i: int)
    requires
        54 <= i < 60,
    ensures
        conforme(ETIQUETTES@[i]@, SUITES@[i]@),
{
    reveal_with_fuel(debuts, 47);
    reveal_with_fuel(imprimables, 47);
    if i == 54 {
        reveal_strlit("ouverture:gambit-dame-echange");
        reveal_strlit("d4 d5 c4 e6 Nc3 Nf6 cxd5 exd5 Bg5 Be7 e3 c6");
        lemme_conforme(ETIQUETTES@[54]@, SUITES@[54]@);
    } else if i == 55 {
        reveal_strlit("ouverture:gambit-dame-tartakover");
        reveal_strlit("d4 d5 c4 e6 Nc3 Nf6 Nf3 Be7 Bg5 h6 Bh4 O-O");
        lemme_conforme(ETIQUETTES@[55]@, SUITES@[55]@);
    } else if i == 56 {
        reveal_strlit("ouverture:gambit-dame-tarrasch");
        reveal_strlit("d4 d5 c4 e6 Nc3 c5 cxd5 exd5 Nf3 Nc6 g3 Nf6");
        lemme_conforme(ETIQUETTES@[56]@, SUITES@[56]@);
    } else if i == 57 {
        reveal_strlit("ouverture:gambit-dame-semi-tarrasch");
        reveal_strlit("d4 d5 c4 e6 Nc3 Nf6 Nf3 c5 cxd5 Nxd5");
        lemme_conforme(ETIQUETTES@[57]@, SUITES@[57]@);
    } else if i == 58 {
        reveal_strlit("ouverture:gambit-dame-chigorin");
        reveal_strlit("d4 d5 c4 Nc6 Nf3 Bg4 cxd5 Bxf3 gxf3 Qxd5 e3 e5");
        lemme_conforme(ETIQUETTES@[58]@, SUITES@[58]@);
    } else if i == 59 {
        reveal_strlit("ouverture:contre-gambit-albin");
        reveal_strlit("d4 d5 c4 e5 dxe5 d4 Nf3 Nc6");
        lemme_conforme(ETIQUETTES@[59]@, SUITES@[59]@);
    }
}

proof fn lemme_lignes_60(i: int)
    requires
        60 <= i < 66,
    ensures
        conforme(ETIQUETTES@[i]@, SUITES@[i]@),
{
    reveal_with_fuel(debuts, 46);
    reveal_with_fuel(imprimables, 46);
    if i == 60 {
        reveal_strlit("ouverture:slave-principale");
        reveal_strlit("d4 d5 c4 c6 Nf3 Nf6 Nc3 dxc4 a4 Bf5 e3 e6");
        lemme_conforme(ETIQUETTES@[60]@, SUITES@[60]@);
    } else if i == 61 {
        reveal_strlit("ouverture:slave-echange");
        reveal_strlit("d4 d5 c4 c6 cxd5 cxd5 Nc3 Nf6 Nf3 Nc6 Bf4 Bf5");
        lemme_conforme(ETIQUETTES@[61]@, SUITES@[61]@);
    } else if i == 62 {
        reveal_strlit("ouverture:slave-chebanenko");
        reveal_strlit("d4 d5 c4 c6 Nf3 Nf6 Nc3 a6 e3 b5");
        lemme_conforme(ETIQUETTES@[62]@, SUITES@[62]@);
    } else if i == 63 {
        reveal_strlit("ouverture:semi-slave-meran");
        reveal_strlit("d4 d5 c4 c6 Nf3 Nf6 Nc3 e6 e3 Nbd7 Bd3 dxc4");
        lemme_conforme(ETIQUETTES@[63]@, SUITES@[63]@);
    } else if i == 64 {
        reveal_strlit("ouverture:semi-slave-anti-meran");
        reveal_strlit("d4 d5 c4 c6 Nf3 Nf6 Nc3 e6 Bg5 h6 Bxf6 Qxf6");
        lemme_conforme(ETIQUETTES@[64]@, SUITES@[64]@);
    } else if i == 65 {
        reveal_strlit("ouverture:semi-slave-botvinnik");
        reveal_strlit("d4 d5 c4 c6 Nf3 Nf6 Nc3 e6 Bg5 dxc4 e4 b5");
        lemme_conforme(ETIQUETTES@[65]@, SUITES@[65]@);
    }
}

proof fn lemme_lignes_66(i: int)
    requires
        66 <= i < 72,
    ensures
        conforme(ETIQUETTES@[i]@, SUITES@[i]@),
{
    reveal_with_fuel(debuts, 44);
    reveal_with_fuel(imprimables, 44);
    if i == 66 {
        reveal_strlit("ouverture:est-indienne-classique");
        reveal_strlit("d4 Nf6 c4 g6 Nc3 Bg7 e4 d6 Nf3 O-O Be2 e5");
        lemme_conforme(ETIQUETTES@[66]@, SUITES@[66]@);
    } else if i == 67 {
        reveal_strlit("ouverture:est-indienne-samisch");
        reveal_strlit("d4 Nf6 c4 g6 Nc3 Bg7 e4 d6 f3 O-O Be3 e5");
        lemme_conforme(ETIQUETTES@[67]@, SUITES@[67]@);
    } else if i == 68 {
        reveal_strlit("ouverture:est-indienne-averbakh");
        reveal_strlit("d4 Nf6 c4 g6 Nc3 Bg7 e4 d6 Be2 O-O Bg5 c5");
        lemme_conforme(ETIQUETTES@[68]@, SUITES@[68]@);
    } else if i == 69 {
        reveal_strlit("ouverture:est-indienne-fianchetto");
        reveal_strlit("d4 Nf6 c4 g6 Nf3 Bg7 g3 O-O Bg2 d6 O-O Nbd7");
        lemme_conforme(ETIQUETTES@[69]@, SUITES@[69]@);
    } else if i == 70 {
        reveal_strlit("ouverture:est-indienne-quatre-pions");
        reveal_strlit("d4 Nf6 c4 g6 Nc3 Bg7 e4 d6 f4 O-O Nf3 c5");
        lemme_conforme(ETIQUETTES@[70]@, SUITES@[70]@);
    } else if i == 71 {
        reveal_strlit("ouverture:nimzo-indienne-rubinstein");
        reveal_strlit("d4 Nf6 c4 e6 Nc3 Bb4 e3 O-O Bd3 d5 Nf3 c5");
        lemme_conforme(ETIQUETTES@[71]@, SUITES@[71]@);
    }
}

proof fn lemme_lignes_72(i: int)
    requires
        72 <= i < 78,
    ensures
        conforme(ETIQUETTES@[i]@, SUITES@[i]@),
{
    reveal_with_fuel(debuts, 46);
    reveal_with_fuel(imprimables, 46);
    if i == 72 {
        reveal_strlit("ouverture:nimzo-indienne-classique");
        reveal_strlit("d4 Nf6 c4 e6 Nc3 Bb4 Qc2 O-O a3 Bxc3+ Qxc3 b6");
        lemme_conforme(ETIQUETTES@[72]@, SUITES@[72]@);
    } else if i == 73 {
        reveal_strlit("ouverture:nimzo-indienne-samisch");
        reveal_strlit("d4 Nf6 c4 e6 Nc3 Bb4 a3 Bxc3+ bxc3 c5 f3 d5");
        lemme_conforme(ETIQUETTES@[73]@, SUITES@[73]@);
    } else if i == 74 {
        reveal_strlit("ouverture:nimzo-indienne-leningrad");
        reveal_strlit("d4 Nf6 c4 e6 Nc3 Bb4 Bg5 h6 Bh4 c5 d5 d6");
        lemme_conforme(ETIQUETTES@[74]@, SUITES@[74]@);
    } else if i == 75 {
        reveal_strlit("ouverture:ouest-indienne");
        reveal_strlit("d4 Nf6 c4 e6 Nf3 b6 g3 Bb7 Bg2 Be7 O-O O-O");
        lemme_conforme(ETIQUETTES@[75]@, SUITES@[75]@);
    } else if i == 76 {
        reveal_strlit("ouverture:ouest-indienne-petrosian");
        reveal_strlit("d4 Nf6 c4 e6 Nf3 b6 a3 Bb7 Nc3 d5 cxd5 Nxd5");
        lemme_conforme(ETIQUETTES@[76]@, SUITES@[76]@);
    } else if i == 77 {
        reveal_strlit("ouverture:bogo-indienne");
        reveal_strlit("d4 Nf6 c4 e6 Nf3 Bb4+ Bd2 Qe7 g3 Nc6");
        lemme_conforme(ETIQUETTES@[77]@, SUITES@[77]@);
    }
}

proof fn lemme_lignes_78(i: int)
    requires
        78 <= i < 84,
    ensures
        conforme(ETIQUETTES@[i]@, SUITES@[i]@),
{
    reveal_with_fuel(debuts, 47);
    reveal_with_fuel(imprimables, 47);
    if i == 78 {
        reveal_strlit("ouverture:grunfeld-echange");
        reveal_strlit("d4 Nf6 c4 g6 Nc3 d5 cxd5 Nxd5 e4 Nxc3 bxc3 Bg7");
        lemme_conforme(ETIQUETTES@[78]@, SUITES@[78]@);
    } else if i == 79 {
        reveal_strlit("ouverture:grunfeld-russe");
        reveal_strlit("d4 Nf6 c4 g6 Nc3 d5 Nf3 Bg7 Qb3 dxc4 Qxc4 O-O");
        lemme_conforme(ETIQUETTES@[79]@, SUITES@[79]@);
    } else if i == 80 {
        reveal_strlit("ouverture:grunfeld-bf4");
        reveal_strlit("d4 Nf6 c4 g6 Nc3 d5 Bf4 Bg7 e3 O-O");
        lemme_conforme(ETIQUETTES@[80]@, SUITES@[80]@);
    } else if i == 81 {
        reveal_strlit("ouverture:catalane-ouverte");
        reveal_strlit("d4 Nf6 c4 e6 g3 d5 Bg2 dxc4 Nf3 a6 O-O Nc6");
        lemme_conforme(ETIQUETTES@[81]@, SUITES@[81]@);
    } else if i == 82 {
        reveal_strlit("ouverture:catalane-fermee");
        reveal_strlit("d4 Nf6 c4 e6 g3 d5 Bg2 Be7 Nf3 O-O O-O Nbd7");
        lemme_conforme(ETIQUETTES@[82]@, SUITES@[82]@);
    } else if i == 83 {
        reveal_strlit("ouverture:anglaise-symetrique");
        reveal_strlit("c4 c5 Nf3 Nf6 Nc3 Nc6 g3 g6 Bg2 Bg7 O-O O-O");
        lemme_conforme(ETIQUETTES@[83]@, SUITES@[83]@);
    }
}

proof fn lemme_lignes_84(i: int)
    requires
        84 <= i < 90,
    ensures
        conforme(ETIQUETTES@[i]@, SUITES@[i]@),
{
    reveal_with_fuel(debuts, 46);
    reveal_with_fuel(imprimables, 46);
    if i == 84 {
        reveal_strlit("ouverture:anglaise-quatre-cavaliers");
        reveal_strlit("c4 e5 Nc3 Nf6 Nf3 Nc6 g3 d5 cxd5 Nxd5 Bg2 Nb6");
        lemme_conforme(ETIQUETTES@[84]@, SUITES@[84]@);
    } else if i == 85 {
        reveal_strlit("ouverture:anglaise-sicilienne-inversee");
        reveal_strlit("c4 e5 Nc3 Nf6 g3 d5 cxd5 Nxd5 Bg2 Nb6 Nf3 Nc6");
        lemme_conforme(ETIQUETTES@[85]@, SUITES@[85]@);
    } else if i == 86 {
        reveal_strlit("ouverture:anglaise-botvinnik");
        reveal_strlit("c4 e5 Nc3 Nc6 g3 g6 Bg2 Bg7 e4 d6");
        lemme_conforme(ETIQUETTES@[86]@, SUITES@[86]@);
    } else if i == 87 {
        reveal_strlit("ouverture:anglaise-herisson");
        reveal_strlit("c4 c5 Nf3 Nf6 Nc3 e6 g3 b6 Bg2 Bb7 O-O Be7");
        lemme_conforme(ETIQUETTES@[87]@, SUITES@[87]@);
    } else if i == 88 {
        reveal_strlit("ouverture:anglaise-mikenas");
        reveal_strlit("c4 Nf6 Nc3 e6 e4 d5 e5 d4 exf6 dxc3 bxc3 Qxf6");
        lemme_conforme(ETIQUETTES@[88]@, SUITES@[88]@);
    } else if i == 89 {
        reveal_strlit("ouverture:anglaise-agincourt");
        reveal_strlit("c4 e6 Nf3 d5 g3 Nf6 Bg2 Be7 O-O O-O");
        lemme_conforme(ETIQUETTES@[89]@, SUITES@[89]@);
    }
}

proof fn lemme_lignes_90(i: int)
    requires
        90 <= i < 96,
    ensures
        conforme(ETIQUETTES@[i]@, SUITES@[i]@),
{
    reveal_with_fuel(debuts, 44);
    reveal_with_fuel(imprimables, 44);
    if i == 90 {
        reveal_strlit("ouverture:reti");
        reveal_strlit("Nf3 d5 c4 e6 g3 Nf6 Bg2 Be7 O-O O-O");
        lemme_conforme(ETIQUETTES@[90]@, SUITES@[90]@);
    } else if i == 91 {
        reveal_strlit("ouverture:reti-slave");
        reveal_strlit("Nf3 d5 c4 c6 g3 Nf6 Bg2 Bf5 O-O e6");
        lemme_conforme(ETIQUETTES@[91]@, SUITES@[91]@);
    } else if i == 92 {
        reveal_strlit("ouverture:attaque-est-indienne");
        reveal_strlit("Nf3 d5 g3 Nf6 Bg2 e6 O-O Be7 d3 O-O Nbd2 c5");
        lemme_conforme(ETIQUETTES@[92]@, SUITES@[92]@);
    } else if i == 93 {
        reveal_strlit("ouverture:reti-double-fianchetto");
        reveal_strlit("Nf3 Nf6 g3 g6 b3 Bg7 Bb2 O-O Bg2 d6 O-O e5");
        lemme_conforme(ETIQUETTES@[93]@, SUITES@[93]@);
    } else if i == 94 {
        reveal_strlit("ouverture:london");
        reveal_strlit("d4 d5 Nf3 Nf6 Bf4 c5 e3 Nc6 c3 e6 Nbd2 Bd6");
        lemme_conforme(ETIQUETTES@[94]@, SUITES@[94]@);
    } else if i == 95 {
        reveal_strlit("ouverture:london-indienne");
        reveal_strlit("d4 Nf6 Nf3 g6 Bf4 Bg7 e3 O-O h3 d6");
        lemme_conforme(ETIQUETTES@[95]@, SUITES@[95]@);
    }
}

proof fn lemme_lignes_96(i: int)
    requires
        96 <= i < 102,
    ensures
        conforme(ETIQUETTES@[i]@, SUITES@[i]@),
{
    reveal_with_fuel(debuts, 43);
    reveal_with_fuel(imprimables, 43);
    if i == 96 {
        reveal_strlit("ouverture:trompowsky");
        reveal_strlit("d4 Nf6 Bg5 Ne4 Bf4 d5 e3 c5 Bd3 Nf6");
        lemme_conforme(ETIQUETTES@[96]@, SUITES@[96]@);
    } else if i == 97 {
        reveal_strlit("ouverture:trompowsky-e6");
        reveal_strlit("d4 Nf6 Bg5 e6 e4 h6 Bxf6 Qxf6 Nc3 d6");
        lemme_conforme(ETIQUETTES@[97]@, SUITES@[97]@);
    } else if i == 98 {
        reveal_strlit("ouverture:jobava");
        reveal_strlit("d4 Nf6 Nc3 d5 Bf4 e6 e3 Bd6 Bg3 O-O");
        lemme_conforme(ETIQUETTES@[98]@, SUITES@[98]@);
    } else if i == 99 {
        reveal_strlit("ouverture:colle");
        reveal_strlit("d4 d5 Nf3 Nf6 e3 e6 Bd3 c5 c3 Nc6 Nbd2 Bd6");
        lemme_conforme(ETIQUETTES@[99]@, SUITES@[99]@);
    } else if i == 100 {
        reveal_strlit("ouverture:attaque-torre");
        reveal_strlit("d4 Nf6 Nf3 e6 Bg5 c5 e3 h6 Bh4 b6");
        lemme_conforme(ETIQUETTES@[100]@, SUITES@[100]@);
    } else if i == 101 {
        reveal_strlit("ouverture:gambit-blackmar-diemer");
        reveal_strlit("d4 d5 e4 dxe4 Nc3 Nf6 f3 exf3 Nxf3 g6");
        lemme_conforme(ETIQUETTES@[101]@, SUITES@[101]@);
    }
}

proof fn lemme_lignes_102(i: int)
    requires
        102 <= i < 108,
    ensures
        conforme(ETIQUETTES@[i]@, SUITES@[i]@),
{
    reveal_with_fuel(debuts, 48);
    reveal_with_fuel(imprimables, 48);
    if i == 102 {
        reveal_strlit("ouverture:ecossaise-classique");
        reveal_strlit("e4 e5 Nf3 Nc6 d4 exd4 Nxd4 Bc5 Be3 Qf6 c3 Nge7");
        lemme_conforme(ETIQUETTES@[102]@, SUITES@[102]@);
    } else if i == 103 {
        reveal_strlit("ouverture:ecossaise-mieses");
        reveal_strlit("e4 e5 Nf3 Nc6 d4 exd4 Nxd4 Nf6 Nxc6 bxc6 e5 Qe7");
        lemme_conforme(ETIQUETTES@[103]@, SUITES@[103]@);
    } else if i == 104 {
        reveal_strlit("ouverture:gambit-ecossais");
        reveal_strlit("e4 e5 Nf3 Nc6 d4 exd4 Bc4 Bc5 c3 Nf6 cxd4 Bb4+");
        lemme_conforme(ETIQUETTES@[104]@, SUITES@[104]@);
    } else if i == 105 {
        reveal_strlit("ouverture:petrov-classique");
        reveal_strlit("e4 e5 Nf3 Nf6 Nxe5 d6 Nf3 Nxe4 d4 d5 Bd3 Be7");
        lemme_conforme(ETIQUETTES@[105]@, SUITES@[105]@);
    } else if i == 106 {
        reveal_strlit("ouverture:petrov-moderne");
        reveal_strlit("e4 e5 Nf3 Nf6 d4 Nxe4 Bd3 d5 Nxe5 Nd7");
        lemme_conforme(ETIQUETTES@[106]@, SUITES@[106]@);
    } else if i == 107 {
        reveal_strlit("ouverture:philidor");
        reveal_strlit("e4 e5 Nf3 d6 d4 exd4 Nxd4 Nf6 Nc3 Be7");
        lemme_conforme(ETIQUETTES@[107]@, SUITES@[107]@);
    }
}

proof fn lemme_lignes_108(i: int)
    requires
        108 <= i < 114,
    ensures
        conforme(ETIQUETTES@[i]@, SUITES@[i]@),
{
    reveal_with_fuel(debuts, 46);
    reveal_with_fuel(imprimables, 46);
    if i == 108 {
        reveal_strlit("ouverture:philidor-moderne");
        reveal_strlit("e4 d6 d4 Nf6 Nc3 e5 Nf3 Nbd7 Bc4 Be7");
        lemme_conforme(ETIQUETTES@[108]@, SUITES@[108]@);
    } else if i == 109 {
        reveal_strlit("ouverture:pirc-classique");
        reveal_strlit("e4 d6 d4 Nf6 Nc3 g6 Nf3 Bg7 Be2 O-O O-O c6");
        lemme_conforme(ETIQUETTES@[109]@, SUITES@[109]@);
    } else if i == 110 {
        reveal_strlit("ouverture:pirc-autrichienne");
        reveal_strlit("e4 d6 d4 Nf6 Nc3 g6 f4 Bg7 Nf3 O-O Bd3 Na6");
        lemme_conforme(ETIQUETTES@[110]@, SUITES@[110]@);
    } else if i == 111 {
        reveal_strlit("ouverture:pirc-150");
        reveal_strlit("e4 d6 d4 Nf6 Nc3 g6 Be3 Bg7 Qd2 c6 f3 b5");
        lemme_conforme(ETIQUETTES@[111]@, SUITES@[111]@);
    } else if i == 112 {
        reveal_strlit("ouverture:moderne");
        reveal_strlit("e4 g6 d4 Bg7 Nc3 d6 Be3 a6 Qd2 b5");
        lemme_conforme(ETIQUETTES@[112]@, SUITES@[112]@);
    } else if i == 113 {
        reveal_strlit("ouverture:scandinave-qa5");
        reveal_strlit("e4 d5 exd5 Qxd5 Nc3 Qa5 d4 Nf6 Nf3 c6 Bc4 Bf5");
        lemme_conforme(ETIQUETTES@[113]@, SUITES@[113]@);
    }
}

proof fn lemme_lignes_114(i: int)
    requires
        114 <= i < 120,
    ensures
        conforme(ETIQUETTES@[i]@, SUITES@[i]@),
{
    reveal_with_fuel(debuts, 44);
    reveal_with_fuel(imprimables, 44);
    if i == 114 {
        reveal_strlit("ouverture:scandinave-qd6");
        reveal_strlit("e4 d5 exd5 Qxd5 Nc3 Qd6 d4 Nf6 Nf3 a6");
        lemme_conforme(ETIQUETTES@[114]@, SUITES@[114]@);
    } else if i == 115 {
        reveal_strlit("ouverture:scandinave-nf6");
        reveal_strlit("e4 d5 exd5 Nf6 d4 Nxd5 Nf3 g6 Be2 Bg7");
        lemme_conforme(ETIQUETTES@[115]@, SUITES@[115]@);
    } else if i == 116 {
        reveal_strlit("ouverture:alekhine-quatre-pions");
        reveal_strlit("e4 Nf6 e5 Nd5 d4 d6 c4 Nb6 f4 dxe5 fxe5 Nc6");
        lemme_conforme(ETIQUETTES@[116]@, SUITES@[116]@);
    } else if i == 117 {
        reveal_strlit("ouverture:alekhine-moderne");
        reveal_strlit("e4 Nf6 e5 Nd5 d4 d6 Nf3 g6 Bc4 Nb6 Bb3 Bg7");
        lemme_conforme(ETIQUETTES@[117]@, SUITES@[117]@);
    } else if i == 118 {
        reveal_strlit("ouverture:alekhine-echange");
        reveal_strlit("e4 Nf6 e5 Nd5 d4 d6 c4 Nb6 exd6 cxd6");
        lemme_conforme(ETIQUETTES@[118]@, SUITES@[118]@);
    } else if i == 119 {
        reveal_strlit("ouverture:benoni-moderne");
        reveal_strlit("d4 Nf6 c4 c5 d5 e6 Nc3 exd5 cxd5 d6 e4 g6");
        lemme_conforme(ETIQUETTES@[119]@, SUITES@[119]@);
    }
}

proof fn lemme_lignes_120(i: int)
    requires
        120 <= i < 126,
    ensures
        conforme(ETIQUETTES@[i]@, SUITES@[i]@),
{
    reveal_with_fuel(debuts, 48);
    reveal_with_fuel(imprimables, 48);
    if i == 120 {
        reveal_strlit("ouverture:benoni-fianchetto");
        reveal_strlit("d4 Nf6 c4 c5 d5 e6 Nc3 exd5 cxd5 d6 Nf3 g6");
        lemme_conforme(ETIQUETTES@[120]@, SUITES@[120]@);
    } else if i == 121 {
        reveal_strlit("ouverture:gambit-benko");
        reveal_strlit("d4 Nf6 c4 c5 d5 b5 cxb5 a6 bxa6 Bxa6 Nc3 d6");
        lemme_conforme(ETIQUETTES@[121]@, SUITES@[121]@);
    } else if i == 122 {
        reveal_strlit("ouverture:gambit-budapest");
        reveal_strlit("d4 Nf6 c4 e5 dxe5 Ng4 Bf4 Nc6 Nf3 Bb4+ Nbd2 Qe7");
        lemme_conforme(ETIQUETTES@[122]@, SUITES@[122]@);
    } else if i == 123 {
        reveal_strlit("ouverture:hollandaise-leningrad");
        reveal_strlit("d4 f5 g3 Nf6 Bg2 g6 Nf3 Bg7 O-O O-O c4 d6");
        lemme_conforme(ETIQUETTES@[123]@, SUITES@[123]@);
    } else if i == 124 {
        reveal_strlit("ouverture:hollandaise-stonewall");
        reveal_strlit("d4 f5 g3 Nf6 Bg2 e6 Nf3 d5 O-O Bd6 c4 c6");
        lemme_conforme(ETIQUETTES@[124]@, SUITES@[124]@);
    } else if i == 125 {
        reveal_strlit("ouverture:hollandaise-classique");
        reveal_strlit("d4 f5 c4 Nf6 g3 e6 Bg2 Be7 Nf3 O-O O-O d6");
        lemme_conforme(ETIQUETTES@[125]@, SUITES@[125]@);
    }
}

proof fn lemme_lignes_126(i: int)
    requires
        126 <= i < 132,
    ensures
        conforme(ETIQUETTES@[i]@, SUITES@[i]@),
{
    reveal_with_fuel(debuts, 42);
    reveal_with_fuel(imprimables, 42);
    if i == 126 {
        reveal_strlit("ouverture:hollandaise-gambit-staunton");
        reveal_strlit("d4 f5 e4 fxe4 Nc3 Nf6 Bg5 Nc6");
        lemme_conforme(ETIQUETTES@[126]@, SUITES@[126]@);
    } else if i == 127 {
        reveal_strlit("ouverture:gambit-roi-kieseritzky");
        reveal_strlit("e4 e5 f4 exf4 Nf3 g5 h4 g4 Ne5 Nf6");
        lemme_conforme(ETIQUETTES@[127]@, SUITES@[127]@);
    } else if i == 128 {
        reveal_strlit("ouverture:gambit-roi-refuse");
        reveal_strlit("e4 e5 f4 Bc5 Nf3 d6 Nc3 Nf6 Bc4 Nc6 d3 a6");
        lemme_conforme(ETIQUETTES@[128]@, SUITES@[128]@);
    } else if i == 129 {
        reveal_strlit("ouverture:gambit-roi-moderne");
        reveal_strlit("e4 e5 f4 exf4 Nf3 d5 exd5 Nf6 Bb5+ c6");
        lemme_conforme(ETIQUETTES@[129]@, SUITES@[129]@);
    } else if i == 130 {
        reveal_strlit("ouverture:vienne-gambit");
        reveal_strlit("e4 e5 Nc3 Nf6 f4 d5 fxe5 Nxe4 Nf3 Be7");
        lemme_conforme(ETIQUETTES@[130]@, SUITES@[130]@);
    } else if i == 131 {
        reveal_strlit("ouverture:vienne-fianchetto");
        reveal_strlit("e4 e5 Nc3 Nc6 g3 g6 Bg2 Bg7 d3 d6");
        lemme_conforme(ETIQUETTES@[131]@, SUITES@[131]@);
    }
}

proof fn lemme_lignes_132(i: int)
    requires
        132 <= i < 138,
    ensures
        conforme(ETIQUETTES@[i]@, SUITES@[i]@),
{
    reveal_with_fuel(debuts, 49);
    reveal_with_fuel(imprimables, 49);
    if i == 132 {
        reveal_strlit("ouverture:partie-du-centre");
        reveal_strlit("e4 e5 d4 exd4 Qxd4 Nc6 Qe3 Nf6 Nc3 Bb4 Bd2 O-O");
        lemme_conforme(ETIQUETTES@[132]@, SUITES@[132]@);
    } else if i == 133 {
        reveal_strlit("ouverture:ponziani");
        reveal_strlit("e4 e5 Nf3 Nc6 c3 Nf6 d4 Nxe4 d5 Ne7 Nxe5 Ng6");
        lemme_conforme(ETIQUETTES@[133]@, SUITES@[133]@);
    } else if i == 134 {
        reveal_strlit("ouverture:quatre-cavaliers");
        reveal_strlit("e4 e5 Nf3 Nc6 Nc3 Nf6 Bb5 Bb4 O-O O-O d3 d6");
        lemme_conforme(ETIQUETTES@[134]@, SUITES@[134]@);
    } else if i == 135 {
        reveal_strlit("ouverture:quatre-cavaliers-ecossais");
        reveal_strlit("e4 e5 Nf3 Nc6 Nc3 Nf6 d4 exd4 Nxd4 Bb4 Nxc6 bxc6");
        lemme_conforme(ETIQUETTES@[135]@, SUITES@[135]@);
    } else if i == 136 {
        reveal_strlit("ouverture:partie-du-fou");
        reveal_strlit("e4 e5 Bc4 Nf6 d3 c6 Nf3 d5 Bb3 Bd6");
        lemme_conforme(ETIQUETTES@[136]@, SUITES@[136]@);
    } else if i == 137 {
        reveal_strlit("ouverture:bird");
        reveal_strlit("f4 d5 Nf3 Nf6 e3 g6 Be2 Bg7 O-O O-O d3 c5");
        lemme_conforme(ETIQUETTES@[137]@, SUITES@[137]@);
    }
}

proof fn lemme_lignes_138(i: int)
    requires
        138 <= i < 141,
    ensures
        conforme(ETIQUETTES@[i]@, SUITES@[i]@),
{
    reveal_with_fuel(debuts, 42);
    reveal_with_fuel(imprimables, 42);
    if i == 138 {
        reveal_strlit("ouverture:larsen");
        reveal_strlit("b3 e5 Bb2 Nc6 e3 Nf6 Bb5 Bd6 Nf3 Qe7");
        lemme_conforme(ETIQUETTES@[138]@, SUITES@[138]@);
    } else if i == 139 {
        reveal_strlit("ouverture:owen");
        reveal_strlit("e4 b6 d4 Bb7 Bd3 e6 Nf3 c5 c3 Nf6 Qe2 Be7");
        lemme_conforme(ETIQUETTES@[139]@, SUITES@[139]@);
    } else if i == 140 {
        reveal_strlit("ouverture:nimzowitsch");
        reveal_strlit("e4 Nc6 d4 d5 e5 Bf5 c3 e6");
        lemme_conforme(ETIQUETTES@[140]@, SUITES@[140]@);
    }
}

/// Every line of the book bears a name of the openings and has six to twelve
/// moves.
pub proof fn loi_lignes_conformes(i: int)
    requires
        0 <= i < N_LIGNES,
    ensures
        conforme(ETIQUETTES@[i]@, SUITES@[i]@),
{
    if i < 6 {
        lemme_lignes_0(i);
    } else if i < 12 {
        lemme_lignes_6(i);
    } else if i < 18 {
        lemme_lignes_12(i);
    } else if i < 24 {
        lemme_lignes_18(i);
    } else if i < 30 {
        lemme_lignes_24(i);
    } else if i < 36 {
        lemme_lignes_30(i);
    } else if i < 42 {
        lemme_lignes_36(i);
    } else if i < 48 {
        lemme_lignes_42(i);
    } else if i < 54 {
        lemme_lignes_48(i);
    } else if i < 60 {
        lemme_lignes_54(i);
    } else if i < 66 {
        lemme_lignes_60(i);
    } else if i < 72 {
        lemme_lignes_66(i);
    } else if i < 78 {
        lemme_lignes_72(i);
    } else if i < 84 {
        lemme_lignes_78(i);
    } else if i < 90 {
        lemme_lignes_84(i);
    } else if i < 96 {
        lemme_lignes_90(i);
    } else if i < 102 {
        lemme_lignes_96(i);
    } else if i < 108 {
        lemme_lignes_102(i);
    } else if i < 114 {
        lemme_lignes_108(i);
    } else if i < 120 {
        lemme_lignes_114(i);
    } else if i < 126 {
        lemme_lignes_120(i);
    } else if i < 132 {
        lemme_lignes_126(i);
    } else if i < 138 {
        lemme_lignes_132(i);
    } else {
        lemme_lignes_138(i);
    }
}

/// A book names the end of every line as the line is named: where all lines
/// bear a name of the openings, so does every position that it offers.
pub proof fn loi_noms_gardes(lignes: Seq<(Seq<char>, Seq<char>)>, n: int)
    requires
        0 <= n <= lignes.len(),
        livre::livre_de(lignes, n) is Some,
    ensures
        (livre::livre_de(lignes, n)->0).0.len() == n,
        forall|i: int|
            0 <= i < n ==> (#[trigger] (livre::livre_de(lignes, n)->0).0[i]).0 == lignes[i].0,
    decreases n,
{
    if n > 0 {
        loi_noms_gardes(lignes, n - 1);
        let avant = livre::livre_de(lignes, n - 1)->0;
        let l = livre::livre_de(lignes, n)->0;
        assert forall|i: int| 0 <= i < n implies (#[trigger] l.0[i]).0 == lignes[i].0 by {
            if i < n - 1 {
                assert(l.0[i] == avant.0[i]);
            }
        }
    }
}

} // verus!
