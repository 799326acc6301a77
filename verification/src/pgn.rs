//! Games as text: the PGN of a match game, its date, its file, and a main line
//! in numbered SAN.
use vstd::prelude::*;

use crate::arbitre;
use crate::echiquier;
use crate::jeu;
use crate::rencontre;
use crate::rencontre::{Motif, Resultat};
use crate::texte;

verus! {

// ---------------------------------------------------------------------------
// Dates
// ---------------------------------------------------------------------------

/// Leap years of the Gregorian calendar.
pub open spec fn bissextile(a: int) -> bool {
    a % 4 == 0 && (a % 100 != 0 || a % 400 == 0)
}

/// Days of a month.
pub open spec fn longueur_mois(m: int, b: bool) -> int {
    if m == 2 {
        if b {
            29
        } else {
            28
        }
    } else if m == 4 || m == 6 || m == 9 || m == 11 {
        30
    } else {
        31
    }
}

/// Days of a year before its month `m`.
pub open spec fn avant_mois(m: int, b: bool) -> int
    decreases m,
{
    if m <= 1 {
        0
    } else {
        avant_mois(m - 1, b) + longueur_mois(m - 1, b)
    }
}

/// Days from the first day of year 0 to the first day of year `a`: one more
/// for every leap year between them.
pub open spec fn avant_annee(a: int) -> int {
    365 * a + (a + 3) / 4 - (a + 99) / 100 + (a + 399) / 400
}

/// Is it a day of the calendar?
pub open spec fn date_valide(a: int, m: int, j: int) -> bool {
    1 <= m <= 12 && 1 <= j <= longueur_mois(m, bissextile(a))
}

/// Days from the first of January 1970 to a date.
pub open spec fn jours_unix(a: int, m: int, j: int) -> int {
    avant_annee(a) + avant_mois(m, bissextile(a)) + (j - 1) - 719_528
}

/// Years that begin in March: number of the year within its 400, and days
/// since its first of March.
proof fn lemme_annee_de_mars(doe: int)
    requires
        0 <= doe < 146_097,
    ensures
        ({
            let yoe = (doe - doe / 1460 + doe / 36_524 - doe / 146_096) / 365;
            let doy = doe - (365 * yoe + yoe / 4 - yoe / 100);
            &&& 0 <= yoe < 400
            &&& 0 <= doy <= 365
            &&& doy == 365 ==> (yoe % 4 == 3 && (yoe % 100 != 99 || yoe == 399))
        }),
{
    let siecle = if doe / 36_524 > 3 {
        3
    } else {
        doe / 36_524
    };
    let r = doe - 36_524 * siecle;
    assert(0 <= r <= 36_524);
    let q = r / 1461;
    let t = r - 1461 * q;
    let u = if t / 365 > 3 {
        3
    } else {
        t / 365
    };
    let yoe = (doe - doe / 1460 + doe / 36_524 - doe / 146_096) / 365;
    assert(yoe == 100 * siecle + 4 * q + u);
}

/// The date of a day counted from the first of January 1970.
pub fn date_civile(jours: u64) -> (r: (u64, u64, u64))
    requires
        jours <= 1_000_000_000_000_000,
    ensures
        date_valide(r.0 as int, r.1 as int, r.2 as int),
        jours_unix(r.0 as int, r.1 as int, r.2 as int) == jours,
{
    let z: u64 = jours + 719_468;
    let ere: u64 = z / 146_097;
    let doe: u64 = z % 146_097;
    let yoe: u64 = (doe - doe / 1460 + doe / 36_524 - doe / 146_096) / 365;
    proof {
        lemme_annee_de_mars(doe as int);
    }
    let y: u64 = yoe + ere * 400;
    let doy: u64 = doe - (365 * yoe + yoe / 4 - yoe / 100);
    let mp: u64 = (5 * doy + 2) / 153;
    let j: u64 = doy - (153 * mp + 2) / 5 + 1;
    let m: u64 = if mp < 10 {
        mp + 3
    } else {
        mp - 9
    };
    let a: u64 = if m <= 2 {
        y + 1
    } else {
        y
    };
    proof {
        lemme_date(yoe as int, ere as int, doy as int);
    }
    (a, m, j)
}

proof fn lemme_mois(b: bool)
    ensures
        avant_mois(1, b) == 0,
        avant_mois(2, b) == 31,
        forall|m: int|
            3 <= m <= 12 ==> #[trigger] avant_mois(m, b) == (153 * (m - 3) + 2) / 5 + 59 + if b {
                1int
            } else {
                0int
            },
{
    reveal_with_fuel(avant_mois, 13);
}

proof fn lemme_date(yoe: int, ere: int, doy: int)
    requires
        0 <= yoe < 400,
        0 <= ere,
        0 <= doy <= 365,
        doy == 365 ==> (yoe % 4 == 3 && (yoe % 100 != 99 || yoe == 399)),
    ensures
        ({
            let y = yoe + ere * 400;
            let mp = (5 * doy + 2) / 153;
            let j = doy - (153 * mp + 2) / 5 + 1;
            let m = if mp < 10 {
                mp + 3
            } else {
                mp - 9
            };
            let a = if m <= 2 {
                y + 1
            } else {
                y
            };
            &&& 0 <= mp <= 11
            &&& j >= 1
            &&& date_valide(a, m, j)
            &&& jours_unix(a, m, j) == ere * 146_097 + 365 * yoe + yoe / 4 - yoe / 100 + doy
                - 719_468
        }),
{
    let y = yoe + ere * 400;
    let mp = (5 * doy + 2) / 153;
    let j = doy - (153 * mp + 2) / 5 + 1;
    lemme_jour(doy);
    lemme_annees(yoe, ere);
    if mp < 10 {
        lemme_mois(bissextile(y));
        lemme_printemps(yoe);
    } else {
        lemme_mois(bissextile(y + 1));
        if doy == 365 {
            lemme_quotients(yoe + 1, ere);
            assert((yoe + 1) % 4 == 0);
            assert((yoe + 1) % 100 != 0 || (yoe + 1) % 400 == 0);
        }
    }
}

/// Month and day of a day counted from the first of March.
proof fn lemme_jour(doy: int)
    requires
        0 <= doy <= 365,
    ensures
        ({
            let mp = (5 * doy + 2) / 153;
            let j = doy - (153 * mp + 2) / 5 + 1;
            &&& 0 <= mp <= 11
            &&& mp < 10 ==> 1 <= j <= longueur_mois(mp + 3, false)
            &&& mp == 10 ==> 1 <= j <= 31 && doy == 305 + j
            &&& mp == 11 ==> 1 <= j <= 29 && doy == 336 + j
        }),
{
    let mp = (5 * doy + 2) / 153;
    assert(0 <= mp <= 11);
    assert(mp == 0 || mp == 1 || mp == 2 || mp == 3 || mp == 4 || mp == 5 || mp == 6 || mp == 7
        || mp == 8 || mp == 9 || mp == 10 || mp == 11);
}

/// A leap day comes before March.
proof fn lemme_printemps(yoe: int)
    requires
        0 <= yoe < 400,
    ensures
        (yoe + 3) / 4 - (yoe + 99) / 100 + (yoe + 399) / 400 + (if bissextile(yoe) {
            1int
        } else {
            0int
        }) == yoe / 4 - yoe / 100 + 1,
{
    lemme_pas(yoe);
    assert((yoe + 4) / 4 == yoe / 4 + 1);
    assert((yoe + 100) / 100 == yoe / 100 + 1);
    assert((yoe + 400) / 400 == 1);
}

proof fn lemme_annees(yoe: int, ere: int)
    requires
        0 <= yoe < 400,
        0 <= ere,
    ensures
        ({
            let y = yoe + ere * 400;
            &&& avant_annee(y) == ere * 146_097 + 365 * yoe + (yoe + 3) / 4 - (yoe + 99) / 100 + (yoe
                + 399) / 400
            &&& avant_annee(y + 1) == ere * 146_097 + 365 * yoe + 365 + yoe / 4 - yoe / 100
                + 1
            &&& bissextile(y) == bissextile(yoe)
            &&& bissextile(y + 1) == bissextile(yoe + 1)
        }),
{
    lemme_quotients(yoe + 3, ere);
    lemme_quotients(yoe + 99, ere);
    lemme_quotients(yoe + 399, ere);
    lemme_quotients(yoe + 4, ere);
    lemme_quotients(yoe + 100, ere);
    lemme_quotients(yoe + 400, ere);
    lemme_quotients(yoe, ere);
    lemme_quotients(yoe + 1, ere);
    assert((yoe + 4) / 4 == yoe / 4 + 1);
    assert((yoe + 100) / 100 == yoe / 100 + 1);
    assert((yoe + 400) / 400 == 1);
}

/// Whole cycles of 400 years leave the remainders alone.
proof fn lemme_quotients(x: int, ere: int)
    requires
        0 <= x,
        0 <= ere,
    ensures
        (x + ere * 400) / 4 == x / 4 + ere * 100,
        (x + ere * 400) / 100 == x / 100 + ere * 4,
        (x + ere * 400) / 400 == x / 400 + ere,
        (x + ere * 400) % 4 == x % 4,
        (x + ere * 400) % 100 == x % 100,
        (x + ere * 400) % 400 == x % 400,
{
}

proof fn lemme_pas(a: int)
    requires
        0 <= a,
    ensures
        (a + 4) / 4 - (a + 3) / 4 == if a % 4 == 0 {
            1int
        } else {
            0int
        },
        (a + 100) / 100 - (a + 99) / 100 == if a % 100 == 0 {
            1int
        } else {
            0int
        },
        (a + 400) / 400 - (a + 399) / 400 == if a % 400 == 0 {
            1int
        } else {
            0int
        },
        a % 400 == 0 ==> a % 100 == 0,
        a % 100 == 0 ==> a % 4 == 0,
{
}

/// Today's date in PGN, `AAAA.MM.JJ`, from the seconds since the first of
/// January 1970.
pub fn date_pgn(secs: u64) -> (r: String)
    ensures
        exists|a: int, m: int, j: int|
            date_valide(a, m, j) && #[trigger] jours_unix(a, m, j) == secs as int / 86_400 && r@
                == texte::decimal_large(a as nat, 4) + "."@ + texte::decimal_large(m as nat, 2)
                + "."@ + texte::decimal_large(j as nat, 2),
{
    let (a, m, j) = date_civile(secs / 86_400);
    let mut v: Vec<char> = texte::ecrit_large(a, 4);
    texte::ajoute_texte(&mut v, ".");
    let mois: Vec<char> = texte::ecrit_large(m, 2);
    texte::ajoute(&mut v, &mois);
    texte::ajoute_texte(&mut v, ".");
    let jour: Vec<char> = texte::ecrit_large(j, 2);
    texte::ajoute(&mut v, &jour);
    assert(jours_unix(a as int, m as int, j as int) == secs as int / 86_400);
    texte::texte(&v)
}

/// Two dates of the calendar are the same day only if they are the same date.
pub proof fn loi_date_unique(a: int, m: int, j: int, c: int, n: int, k: int)
    requires
        0 <= a,
        0 <= c,
        date_valide(a, m, j),
        date_valide(c, n, k),
        jours_unix(a, m, j) == jours_unix(c, n, k),
    ensures
        a == c,
        m == n,
        j == k,
{
    lemme_dans_l_annee(a, m, j);
    lemme_dans_l_annee(c, n, k);
    if a < c {
        lemme_annees_croissent(a + 1, c);
    } else if c < a {
        lemme_annees_croissent(c + 1, a);
    }
    lemme_mois(bissextile(a));
}

proof fn lemme_dans_l_annee(a: int, m: int, j: int)
    requires
        0 <= a,
        date_valide(a, m, j),
    ensures
        avant_annee(a) <= jours_unix(a, m, j) + 719_528 < avant_annee(a + 1),
{
    lemme_mois(bissextile(a));
    lemme_annees_croissent(a, a);
}

proof fn lemme_annees_croissent(a: int, c: int)
    requires
        0 <= a <= c,
    ensures
        avant_annee(a) <= avant_annee(c),
        avant_annee(a + 1) == avant_annee(a) + 365 + if bissextile(a) {
            1int
        } else {
            0int
        },
    decreases c - a,
{
    lemme_pas(a);
    if a < c {
        lemme_annees_croissent(a + 1, c);
    }
}

// ---------------------------------------------------------------------------
// Main line
// ---------------------------------------------------------------------------

/// What stands before a move of a main line: the number before a move of
/// White, `N...` before a first move of Black, a blank between moves.
pub open spec fn avant_coup(numero: nat, blanc: bool, premier: bool) -> Seq<char> {
    let tete = if premier {
        Seq::<char>::empty()
    } else {
        " "@
    };
    if blanc {
        tete + texte::decimal(numero) + "."@
    } else if premier {
        texte::decimal(numero) + "..."@
    } else {
        tete
    }
}

/// A main line in numbered SAN, cut before the first move that is not legal.
pub open spec fn ligne_pv(fen: Seq<char>, pv: Seq<Seq<char>>, premier: bool) -> Seq<char>
    decreases pv.len(),
{
    if pv.len() == 0 {
        Seq::empty()
    } else {
        match (
            echiquier::position_de(fen),
            echiquier::san_signe_de(fen, pv[0]),
            echiquier::suite_de(fen, pv[0]),
        ) {
            (Some(p), Some(san), Some(f)) => avant_coup(p.5 as nat, p.1, premier) + san + ligne_pv(
                f,
                pv.skip(1),
                false,
            ),
            _ => Seq::empty(),
        }
    }
}

fn ecrit_avant_coup(v: &mut Vec<char>, numero: u32, blanc: bool, premier: bool)
    ensures
        final(v)@ == old(v)@ + avant_coup(numero as nat, blanc, premier),
{
    let n: Vec<char> = texte::ecrit_naturel(numero as u64);
    if blanc {
        if !premier {
            texte::ajoute_texte(v, " ");
        }
        texte::ajoute(v, &n);
        texte::ajoute_texte(v, ".");
    } else if premier {
        texte::ajoute(v, &n);
        texte::ajoute_texte(v, "...");
    } else {
        texte::ajoute_texte(v, " ");
    }
    assert(v@ =~= old(v)@ + avant_coup(numero as nat, blanc, premier));
}

/// Writes a main line from `fen` on in numbered SAN; an illegal move cuts it.
pub fn pv_en_san(fen: &str, pv: &Vec<String>) -> (r: String)
    ensures
        r@ == ligne_pv(fen@, texte::vues_textes(pv@), true),
{
    let ghost tout = ligne_pv(fen@, texte::vues_textes(pv@), true);
    let mut v: Vec<char> = Vec::new();
    let mut courante: String = fen.to_string();
    let mut i: usize = 0;
    assert(texte::vues_textes(pv@).skip(0) =~= texte::vues_textes(pv@));
    assert(v@ + tout =~= tout);
    while i < pv.len()
        invariant
            i <= pv@.len(),
            tout == ligne_pv(fen@, texte::vues_textes(pv@), true),
            tout == v@ + ligne_pv(
                courante@,
                texte::vues_textes(pv@).skip(i as int),
                i == 0,
            ),
        decreases pv.len() - i,
    {
        let ghost reste = texte::vues_textes(pv@).skip(i as int);
        let ghost avant = v@;
        assert(reste[0] == pv@[i as int]@);
        assert(reste.skip(1) =~= texte::vues_textes(pv@).skip(i as int + 1));
        match (
            echiquier::lit_position(courante.as_str()),
            echiquier::san_signe_du_coup(courante.as_str(), pv[i].as_str()),
            echiquier::apres_coup(courante.as_str(), pv[i].as_str()),
        ) {
            (Some(p), Some(san), Some(f)) => {
                ecrit_avant_coup(&mut v, p.numero, p.trait_blanc, i == 0);
                texte::ajoute_texte(&mut v, san.as_str());
                proof {
                    let a = avant_coup(p.numero as nat, p.trait_blanc, i == 0);
                    let l = ligne_pv(f@, reste.skip(1), false);
                    assert(v@ + l =~= avant + (a + san@ + l));
                }
                courante = f;
            },
            _ => {
                assert(v@ =~= tout);
                return texte::texte(&v);
            },
        }
        i += 1;
    }
    assert(v@ =~= tout);
    texte::texte(&v)
}

// ---------------------------------------------------------------------------
// PGN of a match game
// ---------------------------------------------------------------------------

/// What the tags of a match game say.
pub struct EntetePgn {
    pub round: u64,
    pub champion_blanc: bool,
    pub elo: u32,
    pub date: String,
    pub movetime_champion: u64,
    pub movetime_adversaire: u64,
    pub threads: u32,
    pub tt_log2: u32,
    /// Folder of the endgame tables; empty without tables.
    pub syzygy: String,
    pub seed: u64,
    pub resultat: Resultat,
    pub motif: Motif,
}

/// A tag line.
pub open spec fn etiquette(nom: Seq<char>, valeur: Seq<char>) -> Seq<char> {
    "["@ + nom + " \""@ + valeur + "\"]"@
}

/// Name of the engine at a strength.
pub open spec fn nom_fantome(elo: u32) -> Seq<char> {
    "Fantôme de Deep Blue (Stockfish UCI_Elo "@ + texte::decimal(elo as nat) + ")"@
}

/// The tags, with their values.
pub open spec fn etiquettes(h: EntetePgn) -> Seq<(Seq<char>, Seq<char>)> {
    let blanc = if h.champion_blanc {
        "Champion"@
    } else {
        nom_fantome(h.elo)
    };
    let noir = if h.champion_blanc {
        nom_fantome(h.elo)
    } else {
        "Champion"@
    };
    let syzygy = if h.syzygy@.len() == 0 {
        "-"@
    } else {
        h.syzygy@
    };
    seq![
        ("Event"@, "Match Champion vs Fantôme de Deep Blue"@),
        ("Site"@, "local (match.exe)"@),
        ("Date"@, h.date@),
        ("Round"@, texte::decimal(h.round as nat)),
        ("White"@, blanc),
        ("Black"@, noir),
        ("Result"@, rencontre::nom_resultat(h.resultat)),
        ("TimeControl"@, "-"@),
        ("MovetimeChampionMs"@, texte::decimal(h.movetime_champion as nat)),
        ("MovetimeAdversaireMs"@, texte::decimal(h.movetime_adversaire as nat)),
        ("ThreadsRecherche"@, texte::decimal(h.threads as nat)),
        ("TTLog2"@, texte::decimal(h.tt_log2 as nat)),
        ("Syzygy"@, syzygy),
        ("Seed"@, texte::decimal(h.seed as nat)),
        ("Termination"@, rencontre::nom_motif(h.motif)),
    ]
}

/// Move `i` of the text, with its number before a move of White.
pub open spec fn jeton(i: int, san: Seq<char>) -> Seq<char> {
    if i % 2 == 0 {
        texte::decimal((i / 2 + 1) as nat) + ". "@ + san
    } else {
        san
    }
}

/// The first `n` moves, folded: the lines that are full and the line under
/// way. A line is closed where the next move would make it longer than eighty
/// bytes.
pub open spec fn pliage(san: Seq<Seq<char>>, n: int) -> (Seq<Seq<char>>, Seq<char>)
    decreases n,
{
    if n <= 0 {
        (Seq::empty(), Seq::empty())
    } else {
        let (faites, ligne) = pliage(san, n - 1);
        let j = jeton(n - 1, san[n - 1]);
        if texte::octets(ligne + j) + 1 > 80 {
            (faites.push(ligne), j)
        } else if ligne.len() == 0 {
            (faites, j)
        } else {
            (faites, ligne.push(' ') + j)
        }
    }
}

/// The lines of the moves, the result behind the last move.
pub open spec fn lignes_des_coups(san: Seq<Seq<char>>, resultat: Seq<char>) -> Seq<Seq<char>> {
    let (faites, ligne) = pliage(san, san.len() as int);
    faites.push(
        if ligne.len() == 0 {
            resultat
        } else {
            ligne.push(' ') + resultat
        },
    )
}

/// The lines of a PGN: tags, a blank line, the moves.
pub open spec fn lignes_pgn(h: EntetePgn, san: Seq<Seq<char>>) -> Seq<Seq<char>> {
    etiquettes(h).map_values(|e: (Seq<char>, Seq<char>)| etiquette(e.0, e.1)).push(
        Seq::<char>::empty(),
    ) + lignes_des_coups(san, rencontre::nom_resultat(h.resultat))
}

/// The PGN of a match game.
pub open spec fn texte_pgn(h: EntetePgn, san: Seq<Seq<char>>) -> Seq<char> {
    texte::joint(lignes_pgn(h, san), '\n').push('\n')
}

fn ecrit_etiquette(l: &mut Vec<Vec<char>>, nom: &str, valeur: &Vec<char>)
    ensures
        texte::vues(final(l)@) == texte::vues(old(l)@).push(etiquette(nom@, valeur@)),
{
    let mut v: Vec<char> = Vec::new();
    texte::ajoute_texte(&mut v, "[");
    texte::ajoute_texte(&mut v, nom);
    texte::ajoute_texte(&mut v, " \"");
    texte::ajoute(&mut v, valeur);
    texte::ajoute_texte(&mut v, "\"]");
    let ghost vv = v@;
    assert(vv =~= etiquette(nom@, valeur@));
    l.push(v);
    assert(texte::vues(l@) =~= texte::vues(old(l)@).push(vv));
}

fn ecrit_fantome(elo: u32) -> (r: Vec<char>)
    ensures
        r@ == nom_fantome(elo),
{
    let mut v: Vec<char> = texte::caracteres("Fantôme de Deep Blue (Stockfish UCI_Elo ");
    let n: Vec<char> = texte::ecrit_naturel(elo as u64);
    texte::ajoute(&mut v, &n);
    texte::ajoute_texte(&mut v, ")");
    v
}

fn ecrit_etiquettes(h: &EntetePgn) -> (r: Vec<Vec<char>>)
    ensures
        texte::vues(r@) == etiquettes(*h).map_values(
            |e: (Seq<char>, Seq<char>)| etiquette(e.0, e.1),
        ),
{
    let champion: Vec<char> = texte::caracteres("Champion");
    let fantome: Vec<char> = ecrit_fantome(h.elo);
    let mut l: Vec<Vec<char>> = Vec::new();
    let event: Vec<char> = texte::caracteres("Match Champion vs Fantôme de Deep Blue");
    ecrit_etiquette(&mut l, "Event", &event);
    let site: Vec<char> = texte::caracteres("local (match.exe)");
    ecrit_etiquette(&mut l, "Site", &site);
    let date: Vec<char> = texte::caracteres(h.date.as_str());
    ecrit_etiquette(&mut l, "Date", &date);
    let round: Vec<char> = texte::ecrit_naturel(h.round);
    ecrit_etiquette(&mut l, "Round", &round);
    if h.champion_blanc {
        ecrit_etiquette(&mut l, "White", &champion);
        ecrit_etiquette(&mut l, "Black", &fantome);
    } else {
        ecrit_etiquette(&mut l, "White", &fantome);
        ecrit_etiquette(&mut l, "Black", &champion);
    }
    let resultat: Vec<char> = texte::caracteres(h.resultat.nom());
    ecrit_etiquette(&mut l, "Result", &resultat);
    let cadence: Vec<char> = texte::caracteres("-");
    ecrit_etiquette(&mut l, "TimeControl", &cadence);
    let mc: Vec<char> = texte::ecrit_naturel(h.movetime_champion);
    ecrit_etiquette(&mut l, "MovetimeChampionMs", &mc);
    let ma: Vec<char> = texte::ecrit_naturel(h.movetime_adversaire);
    ecrit_etiquette(&mut l, "MovetimeAdversaireMs", &ma);
    let threads: Vec<char> = texte::ecrit_naturel(h.threads as u64);
    ecrit_etiquette(&mut l, "ThreadsRecherche", &threads);
    let tt: Vec<char> = texte::ecrit_naturel(h.tt_log2 as u64);
    ecrit_etiquette(&mut l, "TTLog2", &tt);
    let tables: Vec<char> = texte::caracteres(h.syzygy.as_str());
    if tables.len() == 0 {
        ecrit_etiquette(&mut l, "Syzygy", &cadence);
    } else {
        ecrit_etiquette(&mut l, "Syzygy", &tables);
    }
    let seed: Vec<char> = texte::ecrit_naturel(h.seed);
    ecrit_etiquette(&mut l, "Seed", &seed);
    let motif: Vec<char> = texte::caracteres(h.motif.nom());
    ecrit_etiquette(&mut l, "Termination", &motif);
    assert(texte::vues(l@) =~= etiquettes(*h).map_values(
        |e: (Seq<char>, Seq<char>)| etiquette(e.0, e.1),
    ));
    l
}

fn ecrit_jeton(i: usize, san: &str) -> (r: Vec<char>)
    ensures
        r@ == jeton(i as int, san@),
{
    let mut v: Vec<char> = Vec::new();
    if i % 2 == 0 {
        v = texte::ecrit_naturel(i as u64 / 2 + 1);
        texte::ajoute_texte(&mut v, ". ");
    }
    texte::ajoute_texte(&mut v, san);
    assert(v@ =~= jeton(i as int, san@));
    v
}

/// Writes the PGN of a match game: its tags, its moves folded at eighty
/// columns, its result.
pub fn ecrit_pgn(h: &EntetePgn, san: &Vec<String>) -> (r: String)
    ensures
        r@ == texte_pgn(*h, texte::vues_textes(san@)),
{
    let ghost sv = texte::vues_textes(san@);
    let mut l: Vec<Vec<char>> = ecrit_etiquettes(h);
    let ghost tete = texte::vues(l@);
    l.push(Vec::new());
    let ghost tete1 = tete.push(Seq::<char>::empty());
    assert(texte::vues(l@) =~= tete1);
    let mut ligne: Vec<char> = Vec::new();
    let mut i: usize = 0;
    assert(tete1 + pliage(sv, 0).0 =~= tete1);
    while i < san.len()
        invariant
            i <= san@.len(),
            sv == texte::vues_textes(san@),
            texte::vues(l@) == tete1 + pliage(sv, i as int).0,
            ligne@ == pliage(sv, i as int).1,
        decreases san.len() - i,
    {
        let ghost l0 = texte::vues(l@);
        let ghost ligne0 = ligne@;
        assert(sv[i as int] == san@[i as int]@);
        let j: Vec<char> = ecrit_jeton(i, san[i].as_str());
        let mut essai: Vec<char> = Vec::new();
        texte::ajoute(&mut essai, &ligne);
        texte::ajoute(&mut essai, &j);
        assert(essai@ =~= ligne@ + j@);
        if texte::depasse(&essai, 79) {
            l.push(ligne);
            assert(texte::vues(l@) =~= l0.push(ligne0));
            ligne = j;
        } else {
            if ligne.len() > 0 {
                ligne.push(' ');
            }
            texte::ajoute(&mut ligne, &j);
        }
        proof {
            let (f, c) = pliage(sv, i as int + 1);
            assert(ligne@ =~= c);
            assert(texte::vues(l@) =~= tete1 + f);
        }
        i += 1;
    }
    let ghost l0 = texte::vues(l@);
    if ligne.len() > 0 {
        ligne.push(' ');
    }
    texte::ajoute_texte(&mut ligne, h.resultat.nom());
    let ghost dl = ligne@;
    l.push(ligne);
    assert(texte::vues(l@) =~= l0.push(dl));
    proof {
        let rn = rencontre::nom_resultat(h.resultat);
        assert(dl =~= lignes_des_coups(sv, rn).last());
        assert(texte::vues(l@) =~= lignes_pgn(*h, sv));
    }
    let mut v: Vec<char> = texte::joindre(&l, '\n');
    v.push('\n');
    texte::texte(&v)
}

/// File of a game, numbered from one on at least three digits.
pub fn chemin_pgn(dossier: &str, partie: u64) -> (r: String)
    ensures
        r@ == dossier@ + "/partie_"@ + texte::decimal_large(partie as nat, 3) + ".pgn"@,
{
    let mut v: Vec<char> = texte::caracteres(dossier);
    texte::ajoute_texte(&mut v, "/partie_");
    let n: Vec<char> = texte::ecrit_large(partie, 3);
    texte::ajoute(&mut v, &n);
    texte::ajoute_texte(&mut v, ".pgn");
    texte::texte(&v)
}

// ---------------------------------------------------------------------------
// A written PGN is read back
// ---------------------------------------------------------------------------

/// A move as SAN writes it: it begins with a letter and holds neither white
/// space nor a full stop.
pub open spec fn san_net(s: Seq<char>) -> bool {
    arbitre::est_coup(s) && texte::sans_blanc(s) && !texte::contient(s, '.')
}

/// A line of moves: no line feed, no white space at its ends, no bracket in
/// front.
spec fn ligne_nette(x: Seq<char>) -> bool {
    &&& !texte::contient(x, '\n')
    &&& x.len() > 0 ==> !texte::blanc(x[0]) && x[0] != '[' && !texte::blanc(x.last())
}

/// All moves among words.
spec fn coups_des(m: Seq<Seq<char>>) -> Seq<Seq<char>> {
    arbitre::coups_des_mots(m, m.len() as int)
}

proof fn lemme_contient(a: Seq<char>, b: Seq<char>, c: char)
    ensures
        texte::contient(a + b, c) <==> texte::contient(a, c) || texte::contient(b, c),
{
    let s = a + b;
    if texte::contient(s, c) {
        let i = choose|i: int| 0 <= i < s.len() && s[i] == c;
        if i < a.len() {
            assert(a[i] == c);
        } else {
            assert(b[i - a.len()] == c);
        }
    }
    if texte::contient(a, c) {
        let i = choose|i: int| 0 <= i < a.len() && a[i] == c;
        assert(s[i] == c);
    }
    if texte::contient(b, c) {
        let i = choose|i: int| 0 <= i < b.len() && b[i] == c;
        assert(s[a.len() + i] == c);
    }
}

proof fn lemme_mots_coups(a: Seq<Seq<char>>, b: Seq<Seq<char>>, k: int)
    requires
        0 <= k <= b.len(),
    ensures
        arbitre::coups_des_mots(a + b, a.len() + k) == coups_des(a) + arbitre::coups_des_mots(b, k),
    decreases k,
{
    if k == 0 {
        lemme_prefixe_mots(a, b, a.len() as int);
        assert(arbitre::coups_des_mots(b, 0) =~= Seq::empty());
        assert(coups_des(a) + arbitre::coups_des_mots(b, 0) =~= coups_des(a));
    } else {
        lemme_mots_coups(a, b, k - 1);
        assert((a + b)[a.len() + k - 1] == b[k - 1]);
        assert(arbitre::coups_des_mots(a + b, a.len() + k) =~= coups_des(a)
            + arbitre::coups_des_mots(b, k));
    }
}

proof fn lemme_prefixe_mots(a: Seq<Seq<char>>, b: Seq<Seq<char>>, n: int)
    requires
        0 <= n <= a.len(),
    ensures
        arbitre::coups_des_mots(a + b, n) == arbitre::coups_des_mots(a, n),
    decreases n,
{
    if n > 0 {
        lemme_prefixe_mots(a, b, n - 1);
        assert((a + b)[n - 1] == a[n - 1]);
    }
}

proof fn lemme_lignes_coups(a: Seq<Seq<char>>, b: Seq<Seq<char>>, k: int)
    requires
        0 <= k <= b.len(),
    ensures
        arbitre::coups_des_lignes(a + b, a.len() + k) == arbitre::coups_des_lignes(
            a,
            a.len() as int,
        ) + arbitre::coups_des_lignes(b, k),
    decreases k,
{
    if k == 0 {
        lemme_prefixe_lignes(a, b, a.len() as int);
        assert(arbitre::coups_des_lignes(b, 0) =~= Seq::empty());
        assert(arbitre::coups_des_lignes(a, a.len() as int) + arbitre::coups_des_lignes(b, 0)
            =~= arbitre::coups_des_lignes(a, a.len() as int));
    } else {
        lemme_lignes_coups(a, b, k - 1);
        assert((a + b)[a.len() + k - 1] == b[k - 1]);
        assert(arbitre::coups_des_lignes(a + b, a.len() + k) =~= arbitre::coups_des_lignes(
            a,
            a.len() as int,
        ) + arbitre::coups_des_lignes(b, k));
    }
}

proof fn lemme_prefixe_lignes(a: Seq<Seq<char>>, b: Seq<Seq<char>>, n: int)
    requires
        0 <= n <= a.len(),
    ensures
        arbitre::coups_des_lignes(a + b, n) == arbitre::coups_des_lignes(a, n),
    decreases n,
{
    if n > 0 {
        lemme_prefixe_lignes(a, b, n - 1);
        assert((a + b)[n - 1] == a[n - 1]);
    }
}

/// On a clean line the moves are those among its words.
proof fn lemme_ligne_nette(x: Seq<char>)
    requires
        ligne_nette(x),
    ensures
        arbitre::coups_de_ligne(x) == coups_des(texte::mots(x)),
        texte::sans_retour(x) == x,
{
    texte::lemme_rogne_fixe(x);
    if x.len() == 0 {
        assert(texte::mots(x) =~= Seq::empty());
        assert(coups_des(texte::mots(x)) =~= Seq::empty());
    }
}

/// A word without a full stop that is a move gives itself, one that is not
/// gives nothing.
proof fn lemme_mot_seul(x: Seq<char>)
    requires
        x.len() > 0,
        texte::sans_blanc(x),
    ensures
        texte::mots(x) == seq![x],
        coups_des(texte::mots(x)) == if arbitre::est_coup(arbitre::apres_point(x)) {
            seq![arbitre::apres_point(x)]
        } else {
            Seq::empty()
        },
{
    texte::lemme_un_mot(x);
    reveal_with_fuel(arbitre::coups_des_mots, 2);
    assert(coups_des(texte::mots(x)) =~= if arbitre::est_coup(arbitre::apres_point(x)) {
        seq![arbitre::apres_point(x)]
    } else {
        Seq::empty()
    });
}

proof fn lemme_sans_point(x: Seq<char>)
    requires
        !texte::contient(x, '.'),
    ensures
        arbitre::apres_point(x) == x,
{
    texte::lemme_morceaux_sans(x, '.');
}

/// Words of one move of the text.
proof fn lemme_jeton(i: int, san: Seq<char>)
    requires
        0 <= i,
        san_net(san),
    ensures
        ({
            let j = jeton(i, san);
            &&& j.len() > 0
            &&& ligne_nette(j)
            &&& coups_des(texte::mots(j)) == seq![san]
        }),
{
    let j = jeton(i, san);
    lemme_sans_point(san);
    lemme_mot_seul(san);
    assert(!texte::blanc(san[0]) && !texte::blanc(san[san.len() - 1]));
    assert(!texte::contient(san, '\n')) by {
        if texte::contient(san, '\n') {
            let k = choose|k: int| 0 <= k < san.len() && san[k] == '\n';
            assert(texte::blanc(san[k]));
        }
    }
    if i % 2 == 0 {
        let n = (i / 2 + 1) as nat;
        let d = texte::decimal(n);
        texte::lemme_decimal(n);
        let w = d.push('.');
        reveal_strlit(". ");
        assert(j =~= w.push(' ') + san);
        assert(texte::sans_blanc(w)) by {
            assert forall|k: int| 0 <= k < w.len() implies !texte::blanc(#[trigger] w[k]) by {
                if k < d.len() {
                    assert(texte::est_chiffre(d[k]));
                }
            }
        }
        texte::lemme_mots_ajout(w, san);
        lemme_mot_seul(w);
        assert(w.drop_last() =~= d);
        assert(texte::morceaux(w, '.').last() =~= Seq::<char>::empty());
        lemme_mots_coups(texte::mots(w), texte::mots(san), texte::mots(san).len() as int);
        assert(coups_des(texte::mots(j)) =~= seq![san]);
        assert(texte::est_chiffre(d[0]));
        assert(j[0] == d[0]);
        assert(!texte::contient(w.push(' '), '\n')) by {
            let t = w.push(' ');
            if texte::contient(t, '\n') {
                let k = choose|k: int| 0 <= k < t.len() && t[k] == '\n';
                if k < d.len() {
                    assert(texte::est_chiffre(d[k]));
                }
            }
        }
        lemme_contient(w.push(' '), san, '\n');
    }
}

proof fn lemme_jointure(ligne: Seq<char>, x: Seq<char>)
    requires
        ligne.len() > 0,
        x.len() > 0,
        ligne_nette(ligne),
        ligne_nette(x),
    ensures
        ligne_nette(ligne.push(' ') + x),
        coups_des(texte::mots(ligne.push(' ') + x)) == coups_des(texte::mots(ligne)) + coups_des(
            texte::mots(x),
        ),
{
    texte::lemme_mots_ajout(ligne, x);
    lemme_mots_coups(texte::mots(ligne), texte::mots(x), texte::mots(x).len() as int);
    lemme_contient(ligne.push(' '), x, '\n');
    lemme_contient(ligne, seq![' '], '\n');
    assert(ligne.push(' ') =~= ligne + seq![' ']);
    assert((ligne.push(' ') + x)[0] == ligne[0]);
    assert((ligne.push(' ') + x).last() == x.last());
}

proof fn lemme_pliage(san: Seq<Seq<char>>, n: int)
    requires
        0 <= n <= san.len(),
        forall|i: int| 0 <= i < san.len() ==> san_net(#[trigger] san[i]),
    ensures
        ({
            let (f, l) = pliage(san, n);
            &&& forall|i: int| 0 <= i < f.len() ==> ligne_nette(#[trigger] f[i])
            &&& ligne_nette(l)
            &&& arbitre::coups_des_lignes(f, f.len() as int) + coups_des(texte::mots(l))
                == san.take(n)
        }),
    decreases n,
{
    if n == 0 {
        let l = Seq::<char>::empty();
        assert(texte::mots(l) =~= Seq::empty());
        assert(coups_des(texte::mots(l)) =~= Seq::empty());
        assert(arbitre::coups_des_lignes(Seq::empty(), 0) =~= Seq::empty());
        assert(arbitre::coups_des_lignes(Seq::empty(), 0) + coups_des(texte::mots(l))
            =~= san.take(0));
    } else {
        lemme_pliage(san, n - 1);
        let (f, l) = pliage(san, n - 1);
        let j = jeton(n - 1, san[n - 1]);
        lemme_jeton(n - 1, san[n - 1]);
        let cf = arbitre::coups_des_lignes(f, f.len() as int);
        let cl = coups_des(texte::mots(l));
        assert(san.take(n) =~= san.take(n - 1).push(san[n - 1]));
        if texte::octets(l + j) + 1 > 80 {
            lemme_ligne_nette(l);
            lemme_prefixe_lignes(f, seq![l], f.len() as int);
            assert(f + seq![l] =~= f.push(l));
            let g = f.push(l);
            assert(g[f.len() as int] == l);
            assert(arbitre::coups_des_lignes(g, g.len() as int) == cf + cl);
            assert(arbitre::coups_des_lignes(g, g.len() as int) + coups_des(texte::mots(j))
                =~= san.take(n));
        } else if l.len() == 0 {
            assert(texte::mots(l) =~= Seq::empty());
            assert(cl =~= Seq::empty());
            assert(cf + coups_des(texte::mots(j)) =~= san.take(n));
        } else {
            lemme_jointure(l, j);
            assert(cf + (cl + coups_des(texte::mots(j))) =~= san.take(n));
        }
    }
}

proof fn lemme_resultat_net(r: Resultat)
    ensures
        ({
            let x = rencontre::nom_resultat(r);
            &&& x.len() > 0
            &&& ligne_nette(x)
            &&& coups_des(texte::mots(x)) == Seq::<Seq<char>>::empty()
        }),
{
    let x = rencontre::nom_resultat(r);
    reveal_strlit("1-0");
    reveal_strlit("0-1");
    reveal_strlit("1/2-1/2");
    assert(forall|i: int| 0 <= i < x.len() ==> 45 <= #[trigger] x[i] as int <= 50 && x[i] != '.');
    assert(texte::est_chiffre(x[0]));
    assert(!texte::contient(x, '.'));
    assert(!texte::contient(x, '\n'));
    assert(texte::sans_blanc(x));
    lemme_sans_point(x);
    lemme_mot_seul(x);
}

proof fn lemme_corps(san: Seq<Seq<char>>, r: Resultat)
    requires
        forall|i: int| 0 <= i < san.len() ==> san_net(#[trigger] san[i]),
    ensures
        ({
            let m = lignes_des_coups(san, rencontre::nom_resultat(r));
            &&& forall|i: int| 0 <= i < m.len() ==> ligne_nette(#[trigger] m[i])
            &&& arbitre::coups_des_lignes(m, m.len() as int) == san
        }),
{
    let n = san.len() as int;
    lemme_pliage(san, n);
    lemme_resultat_net(r);
    assert(san.take(n) =~= san);
    let x = rencontre::nom_resultat(r);
    let (f, l) = pliage(san, n);
    let m = lignes_des_coups(san, x);
    let d = m.last();
    let cf = arbitre::coups_des_lignes(f, f.len() as int);
    if l.len() == 0 {
        assert(texte::mots(l) =~= Seq::empty());
        assert(coups_des(texte::mots(l)) =~= Seq::empty());
    } else {
        lemme_jointure(l, x);
    }
    assert(coups_des(texte::mots(d)) =~= coups_des(texte::mots(l)));
    lemme_ligne_nette(d);
    assert(m =~= f + seq![d]);
    lemme_prefixe_lignes(f, seq![d], f.len() as int);
    assert(arbitre::coups_des_lignes(m, m.len() as int) =~= san);
}

proof fn lemme_chiffres_nets(n: nat)
    ensures
        !texte::contient(texte::decimal(n), '\n'),
{
    texte::lemme_decimal(n);
    let d = texte::decimal(n);
    if texte::contient(d, '\n') {
        let k = choose|k: int| 0 <= k < d.len() && d[k] == '\n';
        assert(texte::est_chiffre(d[k]));
    }
}

proof fn lemme_motif_net(m: Motif)
    ensures
        !texte::contient(rencontre::nom_motif(m), '\n'),
{
    reveal_strlit("mat");
    reveal_strlit("pat");
    reveal_strlit("matériel insuffisant");
    reveal_strlit("50 coups");
    reveal_strlit("3 répétitions");
    reveal_strlit("plafond de 512 plis");
    reveal_strlit("forfait (coup illégal du moteur)");
    reveal_strlit("forfait (moteur en erreur)");
}

proof fn lemme_fantome_net(elo: u32)
    ensures
        !texte::contient(nom_fantome(elo), '\n'),
{
    let a = "Fantôme de Deep Blue (Stockfish UCI_Elo "@;
    let b = ")"@;
    reveal_strlit("Fantôme de Deep Blue (Stockfish UCI_Elo ");
    reveal_strlit(")");
    let d = texte::decimal(elo as nat);
    lemme_chiffres_nets(elo as nat);
    lemme_contient(a, d, '\n');
    lemme_contient(a + d, b, '\n');
}

proof fn lemme_etiquette(nom: Seq<char>, valeur: Seq<char>)
    requires
        !texte::contient(nom, '\n'),
        !texte::contient(valeur, '\n'),
    ensures
        ({
            let e = etiquette(nom, valeur);
            &&& !texte::contient(e, '\n')
            &&& texte::sans_retour(e) == e
            &&& arbitre::coups_de_ligne(e) == Seq::<Seq<char>>::empty()
        }),
{
    let a = "["@;
    let b = " \""@;
    let c = "\"]"@;
    reveal_strlit("[");
    reveal_strlit(" \"");
    reveal_strlit("\"]");
    lemme_contient(a, nom, '\n');
    lemme_contient(a + nom, b, '\n');
    lemme_contient(a + nom + b, valeur, '\n');
    lemme_contient(a + nom + b + valeur, c, '\n');
    let e = etiquette(nom, valeur);
    assert(e[0] == '[');
    assert(e.last() == ']');
    texte::lemme_rogne_fixe(e);
}

proof fn lemme_noms_nets()
    ensures
        !texte::contient("Event"@, '\n'),
        !texte::contient("Match Champion vs Fantôme de Deep Blue"@, '\n'),
        !texte::contient("Site"@, '\n'),
        !texte::contient("local (match.exe)"@, '\n'),
        !texte::contient("Date"@, '\n'),
        !texte::contient("Round"@, '\n'),
        !texte::contient("White"@, '\n'),
        !texte::contient("Black"@, '\n'),
        !texte::contient("Champion"@, '\n'),
        !texte::contient("Result"@, '\n'),
        !texte::contient("TimeControl"@, '\n'),
        !texte::contient("-"@, '\n'),
        !texte::contient("MovetimeChampionMs"@, '\n'),
        !texte::contient("MovetimeAdversaireMs"@, '\n'),
        !texte::contient("ThreadsRecherche"@, '\n'),
        !texte::contient("TTLog2"@, '\n'),
        !texte::contient("Syzygy"@, '\n'),
        !texte::contient("Seed"@, '\n'),
        !texte::contient("Termination"@, '\n'),
{
    reveal_strlit("Event");
    reveal_strlit("Match Champion vs Fantôme de Deep Blue");
    reveal_strlit("Site");
    reveal_strlit("local (match.exe)");
    reveal_strlit("Date");
    reveal_strlit("Round");
    reveal_strlit("White");
    reveal_strlit("Black");
    reveal_strlit("Champion");
    reveal_strlit("Result");
    reveal_strlit("TimeControl");
    reveal_strlit("-");
    reveal_strlit("MovetimeChampionMs");
    reveal_strlit("MovetimeAdversaireMs");
    reveal_strlit("ThreadsRecherche");
    reveal_strlit("TTLog2");
    reveal_strlit("Syzygy");
    reveal_strlit("Seed");
    reveal_strlit("Termination");
}

proof fn lemme_etiquettes_nettes(h: EntetePgn, i: int)
    requires
        !texte::contient(h.date@, '\n'),
        !texte::contient(h.syzygy@, '\n'),
        0 <= i < etiquettes(h).len(),
    ensures
        !texte::contient(etiquettes(h)[i].0, '\n'),
        !texte::contient(etiquettes(h)[i].1, '\n'),
{
    lemme_noms_nets();
    lemme_fantome_net(h.elo);
    lemme_motif_net(h.motif);
    lemme_resultat_net(h.resultat);
    lemme_chiffres_nets(h.round as nat);
    lemme_chiffres_nets(h.movetime_champion as nat);
    lemme_chiffres_nets(h.movetime_adversaire as nat);
    lemme_chiffres_nets(h.threads as nat);
    lemme_chiffres_nets(h.tt_log2 as nat);
    lemme_chiffres_nets(h.seed as nat);
}

proof fn lemme_aucun_coup(l: Seq<Seq<char>>, n: int)
    requires
        0 <= n <= l.len(),
        forall|i: int|
            0 <= i < l.len() ==> arbitre::coups_de_ligne(#[trigger] l[i]) == Seq::<
                Seq<char>,
            >::empty(),
    ensures
        arbitre::coups_des_lignes(l, n) == Seq::<Seq<char>>::empty(),
    decreases n,
{
    if n > 0 {
        lemme_aucun_coup(l, n - 1);
        assert(arbitre::coups_de_ligne(l[n - 1]) == Seq::<Seq<char>>::empty());
        assert(arbitre::coups_des_lignes(l, n) =~= Seq::empty());
    } else {
        assert(arbitre::coups_des_lignes(l, 0) =~= Seq::empty());
    }
}

/// Reading the PGN of a game gives its moves back, all of them and in order:
/// tags, numbers, folding and the result leave no trace.
pub proof fn loi_pgn_relu(h: EntetePgn, san: Seq<Seq<char>>)
    requires
        !texte::contient(h.date@, '\n'),
        !texte::contient(h.syzygy@, '\n'),
        forall|i: int| 0 <= i < san.len() ==> san_net(#[trigger] san[i]),
    ensures
        arbitre::coups_lus(texte_pgn(h, san)) == san,
{
    let e = etiquettes(h).map_values(|e: (Seq<char>, Seq<char>)| etiquette(e.0, e.1));
    let tete = e.push(Seq::<char>::empty());
    let corps = lignes_des_coups(san, rencontre::nom_resultat(h.resultat));
    let l = lignes_pgn(h, san);
    assert(l == tete + corps);
    lemme_corps(san, h.resultat);
    assert forall|i: int| 0 <= i < tete.len() implies !texte::contient(#[trigger] tete[i], '\n')
        && texte::sans_retour(tete[i]) == tete[i] && arbitre::coups_de_ligne(tete[i]) == Seq::<
        Seq<char>,
    >::empty() by {
        if i < e.len() {
            lemme_etiquettes_nettes(h, i);
            lemme_etiquette(etiquettes(h)[i].0, etiquettes(h)[i].1);
        } else {
            texte::lemme_rogne_fixe(tete[i]);
        }
    }
    assert forall|i: int| 0 <= i < l.len() implies !texte::contient(#[trigger] l[i], '\n')
        && texte::sans_retour(l[i]) == l[i] by {
        if i < tete.len() {
            assert(l[i] == tete[i]);
        } else {
            assert(l[i] == corps[i - tete.len()]);
            lemme_ligne_nette(corps[i - tete.len()]);
        }
    }
    texte::loi_lignes_relues(l);
    lemme_aucun_coup(tete, tete.len() as int);
    lemme_lignes_coups(tete, corps, corps.len() as int);
    assert(arbitre::coups_des_lignes(l, l.len() as int) =~= san);
}

/// The calendar: leap years every four years but centuries, and every four
/// centuries; twelve months of their lengths; from a day to the next the count
/// grows by one, through months and years; day zero is the first of January
/// 1970.
pub proof fn loi_calendrier(a: int, m: int, j: int)
    requires
        0 <= a,
        date_valide(a, m, j),
    ensures
        date_valide(a, m, j + 1) ==> jours_unix(a, m, j + 1) == jours_unix(a, m, j) + 1,
        !date_valide(a, m, j + 1) && m < 12 ==> jours_unix(a, m + 1, 1) == jours_unix(a, m, j) + 1,
        !date_valide(a, m, j + 1) && m == 12 ==> jours_unix(a + 1, 1, 1) == jours_unix(a, m, j) + 1,
        jours_unix(1970, 1, 1) == 0,
{
    lemme_decembre(bissextile(a));
    if m == 12 {
        lemme_nouvel_an(a);
    }
}

proof fn lemme_decembre(b: bool)
    ensures
        avant_mois(12, b) == if b {
            335int
        } else {
            334int
        },
{
    reveal_with_fuel(avant_mois, 13);
}

proof fn lemme_nouvel_an(a: int)
    requires
        0 <= a,
    ensures
        avant_annee(a + 1) == avant_annee(a) + if bissextile(a) {
            366int
        } else {
            365int
        },
{
}

/// Lengths of the months.
pub proof fn loi_mois(m: int, b: bool)
    ensures
        m == 4 || m == 6 || m == 9 || m == 11 ==> longueur_mois(m, b) == 30,
        m == 1 || m == 3 || m == 5 || m == 7 || m == 8 || m == 10 || m == 12 ==> longueur_mois(m, b)
            == 31,
        longueur_mois(2, false) == 28,
        longueur_mois(2, true) == 29,
{
}

/// Leap years.
pub proof fn loi_annees_bissextiles(k: int)
    ensures
        bissextile(400 * k),
        !bissextile(400 * k + 100) && !bissextile(400 * k + 200) && !bissextile(400 * k + 300),
        (4 * k) % 100 != 0 ==> bissextile(4 * k),
        !bissextile(4 * k + 1) && !bissextile(4 * k + 2) && !bissextile(4 * k + 3),
{
}

/// A line of play numbers White's moves with one point, and Black's first move
/// with three; moves are parted by a blank.
pub proof fn loi_numero_de_coup(numero: nat)
    ensures
        avant_coup(numero, true, true) == texte::decimal(numero) + "."@,
        avant_coup(numero, false, true) == texte::decimal(numero) + "..."@,
        avant_coup(numero, true, false) == " "@ + avant_coup(numero, true, true),
        avant_coup(numero, false, false) == " "@,
{
    assert(avant_coup(numero, true, true) =~= texte::decimal(numero) + "."@);
    assert(avant_coup(numero, true, false) =~= " "@ + avant_coup(numero, true, true));
}

/// A line of play goes on as long as its moves can be played, and stops at the
/// first that cannot.
pub proof fn loi_ligne_de_jeu(fen: Seq<char>, pv: Seq<Seq<char>>, premier: bool)
    requires
        pv.len() > 0,
    ensures
        echiquier::suite_de(fen, pv[0]) is None ==> ligne_pv(fen, pv, premier).len() == 0,
        echiquier::san_signe_de(fen, pv[0]) is None ==> ligne_pv(fen, pv, premier).len() == 0,
        match (
            echiquier::position_de(fen),
            echiquier::san_signe_de(fen, pv[0]),
            echiquier::suite_de(fen, pv[0]),
        ) {
            (Some(p), Some(s), Some(f)) => ligne_pv(fen, pv, premier) == (avant_coup(
                p.5 as nat,
                p.1,
                premier,
            ) + s) + ligne_pv(f, pv.skip(1), false),
            _ => true,
        },
{
}

/// A tag is its name and its value in quotes, between brackets.
pub proof fn loi_etiquette(nom: Seq<char>, valeur: Seq<char>)
    ensures
        etiquette(nom, valeur).len() == nom.len() + valeur.len() + 5,
        etiquette(nom, valeur)[0] == '[',
        etiquette(nom, valeur).last() == ']',
        etiquette(nom, valeur).subrange(1, 1 + nom.len() as int) == nom,
        etiquette(nom, valeur).subrange(3 + nom.len() as int, 3 + nom.len() + valeur.len() as int)
            == valeur,
{
    reveal_strlit("[");
    reveal_strlit(" \"");
    reveal_strlit("\"]");
    let e = etiquette(nom, valeur);
    assert(e.subrange(1, 1 + nom.len() as int) =~= nom);
    assert(e.subrange(3 + nom.len() as int, 3 + nom.len() + valeur.len() as int) =~= valeur);
}

/// The champion is named on its own colour and the engine on the other; the
/// result and the reason are those of the game.
pub proof fn loi_etiquettes(h: EntetePgn)
    ensures
        etiquettes(h).len() == 15,
        h.champion_blanc ==> etiquettes(h)[4] == ("White"@, "Champion"@) && etiquettes(h)[5] == (
            "Black"@,
            nom_fantome(h.elo),
        ),
        !h.champion_blanc ==> etiquettes(h)[5] == ("Black"@, "Champion"@) && etiquettes(h)[4] == (
            "White"@,
            nom_fantome(h.elo),
        ),
        etiquettes(h)[2] == ("Date"@, h.date@),
        etiquettes(h)[3] == ("Round"@, texte::decimal(h.round as nat)),
        etiquettes(h)[6] == ("Result"@, rencontre::nom_resultat(h.resultat)),
        etiquettes(h)[8] == (
            "MovetimeChampionMs"@,
            texte::decimal(h.movetime_champion as nat),
        ),
        etiquettes(h)[9] == (
            "MovetimeAdversaireMs"@,
            texte::decimal(h.movetime_adversaire as nat),
        ),
        etiquettes(h)[10] == ("ThreadsRecherche"@, texte::decimal(h.threads as nat)),
        etiquettes(h)[11] == ("TTLog2"@, texte::decimal(h.tt_log2 as nat)),
        h.syzygy@.len() == 0 ==> etiquettes(h)[12] == ("Syzygy"@, "-"@),
        h.syzygy@.len() > 0 ==> etiquettes(h)[12] == ("Syzygy"@, h.syzygy@),
        etiquettes(h)[13] == ("Seed"@, texte::decimal(h.seed as nat)),
        etiquettes(h)[14] == ("Termination"@, rencontre::nom_motif(h.motif)),
{
}

/// White's moves carry their number, Black's do not.
pub proof fn loi_jeton(k: nat, san: Seq<char>)
    ensures
        jeton(2 * k as int, san) == texte::decimal(k + 1) + ". "@ + san,
        jeton(2 * k as int + 1, san) == san,
{
}

/// Moves fold into lines: a token joins the line it fits in, with a blank,
/// while the line stays under eighty bytes, and starts the next line otherwise.
pub proof fn loi_pliage(san: Seq<Seq<char>>, n: int)
    requires
        0 < n <= san.len(),
    ensures
        ({
            let a = pliage(san, n - 1);
            let b = pliage(san, n);
            let j = jeton(n - 1, san[n - 1]);
            &&& texte::octets(a.1 + j) + 1 > 80 ==> b.0 == a.0.push(a.1) && b.1 == j
            &&& texte::octets(a.1 + j) + 1 <= 80 && a.1.len() > 0 ==> b.0 == a.0 && b.1 == a.1.push(
                ' ',
            ) + j
            &&& texte::octets(a.1 + j) + 1 <= 80 && a.1.len() == 0 ==> b.0 == a.0 && b.1 == j
        }),
        pliage(san, 0).0.len() == 0 && pliage(san, 0).1.len() == 0,
{
}

/// A folded line never exceeds eighty bytes, save for a single token that
/// does by itself.
pub proof fn loi_lignes_courtes(san: Seq<Seq<char>>, n: int)
    requires
        0 <= n <= san.len(),
        forall|i: int|
            0 <= i < san.len() ==> texte::octets(jeton(i, #[trigger] san[i])) <= 80,
    ensures
        texte::octets(pliage(san, n).1) <= 80,
        forall|i: int|
            0 <= i < pliage(san, n).0.len() ==> texte::octets(#[trigger] pliage(san, n).0[i]) <= 80,
    decreases n,
{
    if n > 0 {
        loi_lignes_courtes(san, n - 1);
        let a = pliage(san, n - 1);
        let j = jeton(n - 1, san[n - 1]);
        assert(texte::octets(jeton(n - 1, san[n - 1])) <= 80);
        texte::loi_octets_ajoutes(a.1, j);
        texte::loi_octets_ajoutes(a.1.push(' '), j);
        assert(a.1.push(' ').drop_last() =~= a.1);
        assert(texte::octets(a.1.push(' ')) == texte::octets(a.1) + texte::octets_car(' '));
        assert(texte::octets_car(' ') == 1);
    } else {
        assert(texte::octets(pliage(san, n).1) == 0);
    }
}

/// The last line of the moves ends in the result.
pub proof fn loi_resultat_en_fin(san: Seq<Seq<char>>, resultat: Seq<char>)
    ensures
        lignes_des_coups(san, resultat).len() == pliage(san, san.len() as int).0.len() + 1,
        lignes_des_coups(san, resultat).last().len() >= resultat.len(),
        lignes_des_coups(san, resultat).last().skip(
            lignes_des_coups(san, resultat).last().len() - resultat.len(),
        ) == resultat,
        san.len() == 0 ==> lignes_des_coups(san, resultat) == seq![resultat],
{
    let l = lignes_des_coups(san, resultat).last();
    assert(l.skip(l.len() - resultat.len()) =~= resultat);
}

/// Files of the games are numbered on three digits at least.
pub proof fn loi_chemin_pgn(dossier: &str, partie: u64, r: String)
    requires
        call_ensures(chemin_pgn, (dossier, partie), r),
    ensures
        r@ == dossier@ + "/partie_"@ + texte::decimal_large(partie as nat, 3) + ".pgn"@,
        texte::decimal_large(partie as nat, 3).len() >= 3,
{
    texte::loi_ecriture_large(partie as nat, 3);
}

/// A file is its tags, an empty line, and its moves.
pub proof fn loi_lignes_du_fichier(h: EntetePgn, san: Seq<Seq<char>>, i: int)
    requires
        0 <= i < 15,
    ensures
        lignes_pgn(h, san)[i] == etiquette(etiquettes(h)[i].0, etiquettes(h)[i].1),
        lignes_pgn(h, san)[15].len() == 0,
        lignes_pgn(h, san).skip(16) == lignes_des_coups(san, rencontre::nom_resultat(h.resultat)),
{
    let l = lignes_pgn(h, san);
    loi_etiquettes(h);
    assert(l.skip(16) =~= lignes_des_coups(san, rencontre::nom_resultat(h.resultat)));
}

} // verus!
