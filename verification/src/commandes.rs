//! The command lines of the programs: their options, their usual values and
//! what each program refuses.
//!
//! A real number is held as its `f32` bits.
use vstd::prelude::*;

use crate::departs;
use crate::departs::RefusParts;
use crate::echiquier;
use crate::features::N_FEATURES;
use crate::features_roi::N_FEATURES_ROI;
use crate::nn::SchemaFeatures;
use crate::options;
use crate::options::{ErreurOption, Genre, Reglage};
use crate::texte;

verus! {

// ---------------------------------------------------------------------------
// Train
// ---------------------------------------------------------------------------

/// The options of the trainer.
pub open spec fn reglages_train() -> Seq<(Seq<char>, Genre)> {
    seq![
        ("--out"@, Genre::Texte),
        ("--threads"@, Genre::Naturel(usize::MAX as u64)),
        ("--games-per-cycle"@, Genre::Naturel(usize::MAX as u64)),
        ("--temperature"@, Genre::Reel),
        ("--lr"@, Genre::Reel),
        ("--eval-games"@, Genre::Naturel(usize::MAX as u64)),
        ("--replay"@, Genre::Naturel(usize::MAX as u64)),
        ("--elo-every"@, Genre::Naturel(18_446_744_073_709_551_615)),
        ("--elo-games"@, Genre::Naturel(usize::MAX as u64)),
        ("--seed"@, Genre::Naturel(18_446_744_073_709_551_615)),
        ("--search-nodes"@, Genre::Naturel(18_446_744_073_709_551_615)),
        ("--td-lambda"@, Genre::Reel),
        ("--gate-every"@, Genre::Naturel(18_446_744_073_709_551_615)),
        ("--gate-games"@, Genre::Naturel(usize::MAX as u64)),
        ("--mentor"@, Genre::Texte),
        ("--mentor-poids"@, Genre::Reel),
        ("--oracle"@, Genre::Texte),
        ("--oracle-movetime"@, Genre::Naturel(4_294_967_295)),
        ("--departs-ouvertures"@, Genre::Reel),
        ("--departs-finales"@, Genre::Reel),
        ("--departs-transition"@, Genre::Reel),
        ("--ancre"@, Genre::Texte),
        ("--ancre-lambda"@, Genre::Reel),
        ("--recalibrage"@, Genre::Texte),
        ("--syzygy"@, Genre::Texte),
        ("--int8"@, Genre::Drapeau),
    ]
}

fn table_train() -> (r: Vec<Reglage>)
    ensures
        options::vue_table(r@) == reglages_train(),
{
    let mut r: Vec<Reglage> = Vec::new();
    r.push(Reglage { nom: "--out", genre: Genre::Texte });
    r.push(Reglage { nom: "--threads", genre: Genre::Naturel(usize::MAX as u64) });
    r.push(Reglage { nom: "--games-per-cycle", genre: Genre::Naturel(usize::MAX as u64) });
    r.push(Reglage { nom: "--temperature", genre: Genre::Reel });
    r.push(Reglage { nom: "--lr", genre: Genre::Reel });
    r.push(Reglage { nom: "--eval-games", genre: Genre::Naturel(usize::MAX as u64) });
    r.push(Reglage { nom: "--replay", genre: Genre::Naturel(usize::MAX as u64) });
    r.push(Reglage { nom: "--elo-every", genre: Genre::Naturel(18_446_744_073_709_551_615) });
    r.push(Reglage { nom: "--elo-games", genre: Genre::Naturel(usize::MAX as u64) });
    r.push(Reglage { nom: "--seed", genre: Genre::Naturel(18_446_744_073_709_551_615) });
    r.push(Reglage { nom: "--search-nodes", genre: Genre::Naturel(18_446_744_073_709_551_615) });
    r.push(Reglage { nom: "--td-lambda", genre: Genre::Reel });
    r.push(Reglage { nom: "--gate-every", genre: Genre::Naturel(18_446_744_073_709_551_615) });
    r.push(Reglage { nom: "--gate-games", genre: Genre::Naturel(usize::MAX as u64) });
    r.push(Reglage { nom: "--mentor", genre: Genre::Texte });
    r.push(Reglage { nom: "--mentor-poids", genre: Genre::Reel });
    r.push(Reglage { nom: "--oracle", genre: Genre::Texte });
    r.push(Reglage { nom: "--oracle-movetime", genre: Genre::Naturel(4_294_967_295) });
    r.push(Reglage { nom: "--departs-ouvertures", genre: Genre::Reel });
    r.push(Reglage { nom: "--departs-finales", genre: Genre::Reel });
    r.push(Reglage { nom: "--departs-transition", genre: Genre::Reel });
    r.push(Reglage { nom: "--ancre", genre: Genre::Texte });
    r.push(Reglage { nom: "--ancre-lambda", genre: Genre::Reel });
    r.push(Reglage { nom: "--recalibrage", genre: Genre::Texte });
    r.push(Reglage { nom: "--syzygy", genre: Genre::Texte });
    r.push(Reglage { nom: "--int8", genre: Genre::Drapeau });
    assert(options::vue_table(r@) =~= reglages_train());
    r
}

/// What was asked of the trainer.
#[derive(Debug)]
pub struct OptionsTrain {
    pub out: String,
    pub threads: u64,
    pub games_per_cycle: u64,
    pub temperature: u32,
    pub lr: u32,
    pub eval_games: u64,
    pub replay: u64,
    pub elo_every: u64,
    pub elo_games: u64,
    pub seed: u64,
    pub search_nodes: u64,
    pub td_lambda: u32,
    pub gate_every: u64,
    pub gate_games: u64,
    pub mentor: String,
    pub mentor_poids: u32,
    pub oracle: String,
    pub oracle_movetime: u64,
    pub departs_ouvertures: u32,
    pub departs_finales: u32,
    pub departs_transition: u32,
    pub ancre: String,
    pub ancre_lambda: u32,
    pub recalibrage: String,
    pub syzygy: String,
    pub int8: bool,
}

/// Every option has the value last given for it, else its usual one.
pub open spec fn train_conforme(o: OptionsTrain, a: Seq<(int, options::VueValeur)>) -> bool {
    &&& o.out@ == options::texte_ou(a, 0, "models"@)
    &&& o.threads == options::naturel_ou(a, 1, 10)
    &&& o.games_per_cycle == options::naturel_ou(a, 2, 128)
    &&& o.temperature == options::reel_ou(a, 3, 0x3eb3_3333)
    &&& o.lr == options::reel_ou(a, 4, 0x3a83_126f)
    &&& o.eval_games == options::naturel_ou(a, 5, 120)
    &&& o.replay == options::naturel_ou(a, 6, 1_200_000)
    &&& o.elo_every == options::naturel_ou(a, 7, 15)
    &&& o.elo_games == options::naturel_ou(a, 8, 168)
    &&& o.seed == options::naturel_ou(a, 9, 0)
    &&& o.search_nodes == options::naturel_ou(a, 10, 1500)
    &&& o.td_lambda == options::reel_ou(a, 11, 0x3e99_999a)
    &&& o.gate_every == options::naturel_ou(a, 12, 10)
    &&& o.gate_games == options::naturel_ou(a, 13, 64)
    &&& o.mentor@ == options::texte_ou(a, 14, ""@)
    &&& o.mentor_poids == options::reel_ou(a, 15, 0x3f80_0000)
    &&& o.oracle@ == options::texte_ou(a, 16, ""@)
    &&& o.oracle_movetime == options::naturel_ou(a, 17, 15)
    &&& o.departs_ouvertures == options::reel_ou(a, 18, 0)
    &&& o.departs_finales == options::reel_ou(a, 19, 0)
    &&& o.departs_transition == options::reel_ou(a, 20, 0)
    &&& o.ancre@ == options::texte_ou(a, 21, ""@)
    &&& o.ancre_lambda == options::reel_ou(a, 22, 0x40a0_0000)
    &&& o.recalibrage@ == options::texte_ou(a, 23, ""@)
    &&& o.syzygy@ == options::texte_ou(a, 24, ""@)
    &&& o.int8 == options::donnee(a, 25)
}

/// Reads the command line of the trainer.
pub fn options_train(args: &Vec<String>, reels: &Vec<Option<u32>>) -> (r: Result<
    OptionsTrain,
    ErreurOption,
>)
    requires
        reels@.len() == args@.len(),
    ensures
        match options::lecture(reglages_train(), texte::vues_textes(args@), reels@, 0) {
            Ok(a) => r matches Ok(o) && train_conforme(o, a),
            Err(e) => r matches Err(x) && x@ == e,
        },
{
    let t: Vec<Reglage> = table_train();
    match options::lit(&t, args, reels) {
        Err(e) => Err(e),
        Ok(a) => Ok(
            OptionsTrain {
                out: options::texte_ou_defaut(&a, 0, "models"),
                threads: options::naturel_ou_defaut(&a, 1, 10),
                games_per_cycle: options::naturel_ou_defaut(&a, 2, 128),
                temperature: options::reel_ou_defaut(&a, 3, 0x3eb3_3333),
                lr: options::reel_ou_defaut(&a, 4, 0x3a83_126f),
                eval_games: options::naturel_ou_defaut(&a, 5, 120),
                replay: options::naturel_ou_defaut(&a, 6, 1_200_000),
                elo_every: options::naturel_ou_defaut(&a, 7, 15),
                elo_games: options::naturel_ou_defaut(&a, 8, 168),
                seed: options::naturel_ou_defaut(&a, 9, 0),
                search_nodes: options::naturel_ou_defaut(&a, 10, 1500),
                td_lambda: options::reel_ou_defaut(&a, 11, 0x3e99_999a),
                gate_every: options::naturel_ou_defaut(&a, 12, 10),
                gate_games: options::naturel_ou_defaut(&a, 13, 64),
                mentor: options::texte_ou_defaut(&a, 14, ""),
                mentor_poids: options::reel_ou_defaut(&a, 15, 0x3f80_0000),
                oracle: options::texte_ou_defaut(&a, 16, ""),
                oracle_movetime: options::naturel_ou_defaut(&a, 17, 15),
                departs_ouvertures: options::reel_ou_defaut(&a, 18, 0),
                departs_finales: options::reel_ou_defaut(&a, 19, 0),
                departs_transition: options::reel_ou_defaut(&a, 20, 0),
                ancre: options::texte_ou_defaut(&a, 21, ""),
                ancre_lambda: options::reel_ou_defaut(&a, 22, 0x40a0_0000),
                recalibrage: options::texte_ou_defaut(&a, 23, ""),
                syzygy: options::texte_ou_defaut(&a, 24, ""),
                int8: options::est_donnee(&a, 25),
            },
        ),
    }
}

/// Why a command line with shares of starting positions is refused.
#[derive(Debug, PartialEq, Eq)]
pub enum ErreurLigne {
    /// It cannot be read.
    Option(ErreurOption),
    /// Its shares, given with their sum, cannot stand together.
    Parts { refus: RefusParts, parts: (u32, u32, u32), somme: u32 },
}

/// Reads the command line of the trainer and refuses shares of starting
/// positions that cannot stand together. `additionne` gives the `f32` bits of
/// the sum of three numbers.
pub fn lit_options_train<F: Fn(u32, u32, u32) -> u32>(
    args: &Vec<String>,
    reels: &Vec<Option<u32>>,
    additionne: &F,
) -> (r: Result<OptionsTrain, ErreurLigne>)
    requires
        reels@.len() == args@.len(),
        forall|a: u32, b: u32, c: u32| #[trigger] call_requires(*additionne, (a, b, c)),
    ensures
        match options::lecture(reglages_train(), texte::vues_textes(args@), reels@, 0) {
            Err(e) => r matches Err(ErreurLigne::Option(x)) && x@ == e,
            Ok(a) => {
                let po = options::reel_ou(a, 18, 0);
                let pf = options::reel_ou(a, 19, 0);
                let pt = options::reel_ou(a, 20, 0);
                exists|s: u32| #[trigger]
                    call_ensures(*additionne, (po, pf, pt), s) && match departs::refus_des_parts(
                        po,
                        pf,
                        pt,
                        s,
                    ) {
                        None => r matches Ok(o) && train_conforme(o, a),
                        Some(e) => r matches Err(
                            ErreurLigne::Parts { refus, parts, somme },
                        ) && refus == e && parts == (po, pf, pt) && somme == s,
                    }
            },
        },
{
    match options_train(args, reels) {
        Err(e) => Err(ErreurLigne::Option(e)),
        Ok(o) => {
            let s: u32 = additionne(o.departs_ouvertures, o.departs_finales, o.departs_transition);
            match departs::valide_parts(
                o.departs_ouvertures,
                o.departs_finales,
                o.departs_transition,
                s,
            ) {
                Ok(_) => Ok(o),
                Err(refus) => Err(
                    ErreurLigne::Parts {
                        refus,
                        parts: (o.departs_ouvertures, o.departs_finales, o.departs_transition),
                        somme: s,
                    },
                ),
            }
        },
    }
}

// ---------------------------------------------------------------------------
// Match
// ---------------------------------------------------------------------------

/// The options of a match.
pub open spec fn reglages_match() -> Seq<(Seq<char>, Genre)> {
    seq![
        ("--net"@, Genre::Texte),
        ("--engine"@, Genre::Texte),
        ("--uci-elo"@, Genre::Naturel(4_294_967_295)),
        ("--movetime-champion"@, Genre::Naturel(18_446_744_073_709_551_615)),
        ("--movetime-adversaire"@, Genre::Naturel(18_446_744_073_709_551_615)),
        ("--threads-recherche"@, Genre::Naturel(4_294_967_295)),
        ("--tt-log2"@, Genre::Naturel(4_294_967_295)),
        ("--int8"@, Genre::Drapeau),
        ("--syzygy"@, Genre::Texte),
        ("--games"@, Genre::Naturel(usize::MAX as u64)),
        ("--pgn"@, Genre::Texte),
        ("--seed"@, Genre::Naturel(18_446_744_073_709_551_615)),
    ]
}

fn table_match() -> (r: Vec<Reglage>)
    ensures
        options::vue_table(r@) == reglages_match(),
{
    let mut r: Vec<Reglage> = Vec::new();
    r.push(Reglage { nom: "--net", genre: Genre::Texte });
    r.push(Reglage { nom: "--engine", genre: Genre::Texte });
    r.push(Reglage { nom: "--uci-elo", genre: Genre::Naturel(4_294_967_295) });
    r.push(Reglage { nom: "--movetime-champion", genre: Genre::Naturel(18_446_744_073_709_551_615) });
    r.push(Reglage { nom: "--movetime-adversaire", genre: Genre::Naturel(18_446_744_073_709_551_615) });
    r.push(Reglage { nom: "--threads-recherche", genre: Genre::Naturel(4_294_967_295) });
    r.push(Reglage { nom: "--tt-log2", genre: Genre::Naturel(4_294_967_295) });
    r.push(Reglage { nom: "--int8", genre: Genre::Drapeau });
    r.push(Reglage { nom: "--syzygy", genre: Genre::Texte });
    r.push(Reglage { nom: "--games", genre: Genre::Naturel(usize::MAX as u64) });
    r.push(Reglage { nom: "--pgn", genre: Genre::Texte });
    r.push(Reglage { nom: "--seed", genre: Genre::Naturel(18_446_744_073_709_551_615) });
    assert(options::vue_table(r@) =~= reglages_match());
    r
}

/// What was asked of a match.
#[derive(Debug)]
pub struct OptionsMatch {
    pub net: String,
    pub engine: String,
    pub uci_elo: u64,
    pub movetime_champion: u64,
    pub movetime_adversaire: u64,
    pub threads_recherche: u64,
    pub tt_log2: u64,
    pub int8: bool,
    pub syzygy: String,
    pub games: u64,
    pub pgn: String,
    pub seed: u64,
}

/// Every option has the value last given for it, else its usual one.
pub open spec fn match_conforme(o: OptionsMatch, a: Seq<(int, options::VueValeur)>) -> bool {
    &&& o.net@ == options::texte_ou(a, 0, "models/chess_best.bin"@)
    &&& o.engine@ == options::texte_ou(a, 1, "engines/stockfish/stockfish-windows-x86-64-avx2.exe"@)
    &&& o.uci_elo == options::naturel_ou(a, 2, 2800)
    &&& o.movetime_champion == options::naturel_ou(a, 3, 60_000)
    &&& o.movetime_adversaire == options::naturel_ou(a, 4, 60_000)
    &&& o.threads_recherche == options::naturel_ou(a, 5, 1)
    &&& o.tt_log2 == options::naturel_ou(a, 6, 24)
    &&& o.int8 == options::donnee(a, 7)
    &&& o.syzygy@ == options::texte_ou(a, 8, ""@)
    &&& o.games == options::naturel_ou(a, 9, 1)
    &&& o.pgn@ == options::texte_ou(a, 10, "pgn"@)
    &&& o.seed == options::naturel_ou(a, 11, 0xDEE9_B1CE)
}

/// Reads the command line of a match.
pub fn options_match(args: &Vec<String>, reels: &Vec<Option<u32>>) -> (r: Result<
    OptionsMatch,
    ErreurOption,
>)
    requires
        reels@.len() == args@.len(),
    ensures
        match options::lecture(reglages_match(), texte::vues_textes(args@), reels@, 0) {
            Ok(a) => r matches Ok(o) && match_conforme(o, a),
            Err(e) => r matches Err(x) && x@ == e,
        },
{
    let t: Vec<Reglage> = table_match();
    match options::lit(&t, args, reels) {
        Err(e) => Err(e),
        Ok(a) => Ok(
            OptionsMatch {
                net: options::texte_ou_defaut(&a, 0, "models/chess_best.bin"),
                engine: options::texte_ou_defaut(&a, 1, "engines/stockfish/stockfish-windows-x86-64-avx2.exe"),
                uci_elo: options::naturel_ou_defaut(&a, 2, 2800),
                movetime_champion: options::naturel_ou_defaut(&a, 3, 60_000),
                movetime_adversaire: options::naturel_ou_defaut(&a, 4, 60_000),
                threads_recherche: options::naturel_ou_defaut(&a, 5, 1),
                tt_log2: options::naturel_ou_defaut(&a, 6, 24),
                int8: options::est_donnee(&a, 7),
                syzygy: options::texte_ou_defaut(&a, 8, ""),
                games: options::naturel_ou_defaut(&a, 9, 1),
                pgn: options::texte_ou_defaut(&a, 10, "pgn"),
                seed: options::naturel_ou_defaut(&a, 11, 0xDEE9_B1CE),
            },
        ),
    }
}

// ---------------------------------------------------------------------------
// Arbitre
// ---------------------------------------------------------------------------

/// The options of the grading of a match.
pub open spec fn reglages_arbitre() -> Seq<(Seq<char>, Genre)> {
    seq![
        ("--live"@, Genre::Texte),
        ("--engine"@, Genre::Texte),
        ("--movetime"@, Genre::Naturel(18_446_744_073_709_551_615)),
        ("--threads"@, Genre::Naturel(4_294_967_295)),
        ("--hash"@, Genre::Naturel(4_294_967_295)),
        ("--out"@, Genre::Texte),
        ("--csv"@, Genre::Texte),
        ("--pause"@, Genre::Naturel(18_446_744_073_709_551_615)),
        ("--pgn"@, Genre::Texte),
    ]
}

fn table_arbitre() -> (r: Vec<Reglage>)
    ensures
        options::vue_table(r@) == reglages_arbitre(),
{
    let mut r: Vec<Reglage> = Vec::new();
    r.push(Reglage { nom: "--live", genre: Genre::Texte });
    r.push(Reglage { nom: "--engine", genre: Genre::Texte });
    r.push(Reglage { nom: "--movetime", genre: Genre::Naturel(18_446_744_073_709_551_615) });
    r.push(Reglage { nom: "--threads", genre: Genre::Naturel(4_294_967_295) });
    r.push(Reglage { nom: "--hash", genre: Genre::Naturel(4_294_967_295) });
    r.push(Reglage { nom: "--out", genre: Genre::Texte });
    r.push(Reglage { nom: "--csv", genre: Genre::Texte });
    r.push(Reglage { nom: "--pause", genre: Genre::Naturel(18_446_744_073_709_551_615) });
    r.push(Reglage { nom: "--pgn", genre: Genre::Texte });
    assert(options::vue_table(r@) =~= reglages_arbitre());
    r
}

/// What was asked of the grading of a match.
#[derive(Debug)]
pub struct OptionsArbitre {
    pub live: String,
    pub engine: String,
    pub movetime: u64,
    pub threads: u64,
    pub hash: u64,
    pub out: String,
    pub csv: String,
    pub pause: u64,
    pub pgn: String,
}

/// Every option has the value last given for it, else its usual one.
pub open spec fn arbitre_conforme(o: OptionsArbitre, a: Seq<(int, options::VueValeur)>) -> bool {
    &&& o.live@ == options::texte_ou(a, 0, "models/match_live.json"@)
    &&& o.engine@ == options::texte_ou(a, 1, "engines/stockfish/stockfish-windows-x86-64-avx2.exe"@)
    &&& o.movetime == options::naturel_ou(a, 2, 4_000)
    &&& o.threads == options::naturel_ou(a, 3, 1)
    &&& o.hash == options::naturel_ou(a, 4, 256)
    &&& o.out@ == options::texte_ou(a, 5, "models/match_arbitre.json"@)
    &&& o.csv@ == options::texte_ou(a, 6, "models/arbitre.csv"@)
    &&& o.pause == options::naturel_ou(a, 7, 250)
    &&& o.pgn@ == options::texte_ou(a, 8, "pgn_match_2600"@)
}

/// Reads the command line of the grading of a match.
pub fn options_arbitre(args: &Vec<String>, reels: &Vec<Option<u32>>) -> (r: Result<
    OptionsArbitre,
    ErreurOption,
>)
    requires
        reels@.len() == args@.len(),
    ensures
        match options::lecture(reglages_arbitre(), texte::vues_textes(args@), reels@, 0) {
            Ok(a) => r matches Ok(o) && arbitre_conforme(o, a),
            Err(e) => r matches Err(x) && x@ == e,
        },
{
    let t: Vec<Reglage> = table_arbitre();
    match options::lit(&t, args, reels) {
        Err(e) => Err(e),
        Ok(a) => Ok(
            OptionsArbitre {
                live: options::texte_ou_defaut(&a, 0, "models/match_live.json"),
                engine: options::texte_ou_defaut(&a, 1, "engines/stockfish/stockfish-windows-x86-64-avx2.exe"),
                movetime: options::naturel_ou_defaut(&a, 2, 4_000),
                threads: options::naturel_ou_defaut(&a, 3, 1),
                hash: options::naturel_ou_defaut(&a, 4, 256),
                out: options::texte_ou_defaut(&a, 5, "models/match_arbitre.json"),
                csv: options::texte_ou_defaut(&a, 6, "models/arbitre.csv"),
                pause: options::naturel_ou_defaut(&a, 7, 250),
                pgn: options::texte_ou_defaut(&a, 8, "pgn_match_2600"),
            },
        ),
    }
}

// ---------------------------------------------------------------------------
// Banc
// ---------------------------------------------------------------------------

/// The options of the bench.
pub open spec fn reglages_banc() -> Seq<(Seq<char>, Genre)> {
    seq![
        ("--net"@, Genre::Texte),
        ("--engine"@, Genre::Texte),
        ("--positions"@, Genre::Naturel(usize::MAX as u64)),
        ("--noeuds"@, Genre::Naturel(18_446_744_073_709_551_615)),
        ("--movetime"@, Genre::Naturel(18_446_744_073_709_551_615)),
        ("--threads"@, Genre::Naturel(4_294_967_295)),
        ("--int8"@, Genre::Drapeau),
        ("--syzygy"@, Genre::Texte),
        ("--seed"@, Genre::Naturel(18_446_744_073_709_551_615)),
        ("--csv"@, Genre::Texte),
        ("--tt-log2"@, Genre::Naturel(4_294_967_295)),
    ]
}

fn table_banc() -> (r: Vec<Reglage>)
    ensures
        options::vue_table(r@) == reglages_banc(),
{
    let mut r: Vec<Reglage> = Vec::new();
    r.push(Reglage { nom: "--net", genre: Genre::Texte });
    r.push(Reglage { nom: "--engine", genre: Genre::Texte });
    r.push(Reglage { nom: "--positions", genre: Genre::Naturel(usize::MAX as u64) });
    r.push(Reglage { nom: "--noeuds", genre: Genre::Naturel(18_446_744_073_709_551_615) });
    r.push(Reglage { nom: "--movetime", genre: Genre::Naturel(18_446_744_073_709_551_615) });
    r.push(Reglage { nom: "--threads", genre: Genre::Naturel(4_294_967_295) });
    r.push(Reglage { nom: "--int8", genre: Genre::Drapeau });
    r.push(Reglage { nom: "--syzygy", genre: Genre::Texte });
    r.push(Reglage { nom: "--seed", genre: Genre::Naturel(18_446_744_073_709_551_615) });
    r.push(Reglage { nom: "--csv", genre: Genre::Texte });
    r.push(Reglage { nom: "--tt-log2", genre: Genre::Naturel(4_294_967_295) });
    assert(options::vue_table(r@) =~= reglages_banc());
    r
}

/// What was asked of the bench.
#[derive(Debug)]
pub struct OptionsBanc {
    pub net: String,
    pub engine: String,
    pub positions: u64,
    pub noeuds: u64,
    pub movetime: u64,
    pub threads: u64,
    pub int8: bool,
    pub syzygy: String,
    pub seed: u64,
    pub csv: String,
    pub tt_log2: u64,
}

/// Every option has the value last given for it, else its usual one.
pub open spec fn banc_conforme(o: OptionsBanc, a: Seq<(int, options::VueValeur)>) -> bool {
    &&& o.net@ == options::texte_ou(a, 0, "models/chess_best.bin"@)
    &&& o.engine@ == options::texte_ou(a, 1, "engines/stockfish/stockfish-windows-x86-64-avx2.exe"@)
    &&& o.positions == options::naturel_ou(a, 2, 40)
    &&& o.noeuds == options::naturel_ou(a, 3, 200_000)
    &&& o.movetime == options::naturel_ou(a, 4, 2000)
    &&& o.threads == options::naturel_ou(a, 5, 1)
    &&& o.int8 == options::donnee(a, 6)
    &&& o.syzygy@ == options::texte_ou(a, 7, ""@)
    &&& o.seed == options::naturel_ou(a, 8, 20_260_809)
    &&& o.csv@ == options::texte_ou(a, 9, ""@)
    &&& o.tt_log2 == options::naturel_ou(a, 10, 22)
}

/// Reads the command line of the bench.
pub fn options_banc(args: &Vec<String>, reels: &Vec<Option<u32>>) -> (r: Result<
    OptionsBanc,
    ErreurOption,
>)
    requires
        reels@.len() == args@.len(),
    ensures
        match options::lecture(reglages_banc(), texte::vues_textes(args@), reels@, 0) {
            Ok(a) => r matches Ok(o) && banc_conforme(o, a),
            Err(e) => r matches Err(x) && x@ == e,
        },
{
    let t: Vec<Reglage> = table_banc();
    match options::lit(&t, args, reels) {
        Err(e) => Err(e),
        Ok(a) => Ok(
            OptionsBanc {
                net: options::texte_ou_defaut(&a, 0, "models/chess_best.bin"),
                engine: options::texte_ou_defaut(&a, 1, "engines/stockfish/stockfish-windows-x86-64-avx2.exe"),
                positions: options::naturel_ou_defaut(&a, 2, 40),
                noeuds: options::naturel_ou_defaut(&a, 3, 200_000),
                movetime: options::naturel_ou_defaut(&a, 4, 2000),
                threads: options::naturel_ou_defaut(&a, 5, 1),
                int8: options::est_donnee(&a, 6),
                syzygy: options::texte_ou_defaut(&a, 7, ""),
                seed: options::naturel_ou_defaut(&a, 8, 20_260_809),
                csv: options::texte_ou_defaut(&a, 9, ""),
                tt_log2: options::naturel_ou_defaut(&a, 10, 22),
            },
        ),
    }
}

// ---------------------------------------------------------------------------
// Calibration
// ---------------------------------------------------------------------------

/// The options of the calibration of labels.
pub open spec fn reglages_calibration() -> Seq<(Seq<char>, Genre)> {
    seq![
        ("--net"@, Genre::Texte),
        ("--oracle"@, Genre::Texte),
        ("--movetime"@, Genre::Naturel(4_294_967_295)),
        ("--positions"@, Genre::Naturel(usize::MAX as u64)),
        ("--seed"@, Genre::Naturel(18_446_744_073_709_551_615)),
        ("--out"@, Genre::Texte),
        ("--search-nodes"@, Genre::Naturel(18_446_744_073_709_551_615)),
        ("--departs-ouvertures"@, Genre::Reel),
        ("--departs-finales"@, Genre::Reel),
        ("--departs-transition"@, Genre::Reel),
        ("--threads"@, Genre::Naturel(usize::MAX as u64)),
        ("--append"@, Genre::Drapeau),
        ("--fit"@, Genre::Texte),
        ("--from-csv"@, Genre::Texte),
    ]
}

fn table_calibration() -> (r: Vec<Reglage>)
    ensures
        options::vue_table(r@) == reglages_calibration(),
{
    let mut r: Vec<Reglage> = Vec::new();
    r.push(Reglage { nom: "--net", genre: Genre::Texte });
    r.push(Reglage { nom: "--oracle", genre: Genre::Texte });
    r.push(Reglage { nom: "--movetime", genre: Genre::Naturel(4_294_967_295) });
    r.push(Reglage { nom: "--positions", genre: Genre::Naturel(usize::MAX as u64) });
    r.push(Reglage { nom: "--seed", genre: Genre::Naturel(18_446_744_073_709_551_615) });
    r.push(Reglage { nom: "--out", genre: Genre::Texte });
    r.push(Reglage { nom: "--search-nodes", genre: Genre::Naturel(18_446_744_073_709_551_615) });
    r.push(Reglage { nom: "--departs-ouvertures", genre: Genre::Reel });
    r.push(Reglage { nom: "--departs-finales", genre: Genre::Reel });
    r.push(Reglage { nom: "--departs-transition", genre: Genre::Reel });
    r.push(Reglage { nom: "--threads", genre: Genre::Naturel(usize::MAX as u64) });
    r.push(Reglage { nom: "--append", genre: Genre::Drapeau });
    r.push(Reglage { nom: "--fit", genre: Genre::Texte });
    r.push(Reglage { nom: "--from-csv", genre: Genre::Texte });
    assert(options::vue_table(r@) =~= reglages_calibration());
    r
}

/// What was asked of the calibration of labels.
#[derive(Debug)]
pub struct OptionsCalibration {
    pub net: String,
    pub oracle: String,
    pub movetime: u64,
    pub positions: u64,
    pub seed: u64,
    pub out: String,
    pub search_nodes: u64,
    pub departs_ouvertures: u32,
    pub departs_finales: u32,
    pub departs_transition: u32,
    pub threads: u64,
    pub append: bool,
    pub fit: String,
    pub from_csv: String,
}

/// Every option has the value last given for it, else its usual one.
pub open spec fn calibration_conforme(o: OptionsCalibration, a: Seq<(int, options::VueValeur)>) -> bool {
    &&& o.net@ == options::texte_ou(a, 0, "models/chess_best.bin"@)
    &&& o.oracle@ == options::texte_ou(a, 1, "engines/stockfish/stockfish-windows-x86-64-avx2.exe"@)
    &&& o.movetime == options::naturel_ou(a, 2, 40)
    &&& o.positions == options::naturel_ou(a, 3, 6000)
    &&& o.seed == options::naturel_ou(a, 4, 0)
    &&& o.out@ == options::texte_ou(a, 5, "calibration.csv"@)
    &&& o.search_nodes == options::naturel_ou(a, 6, 8000)
    &&& o.departs_ouvertures == options::reel_ou(a, 7, 0x3f19_999a)
    &&& o.departs_finales == options::reel_ou(a, 8, 0x3e4c_cccd)
    &&& o.departs_transition == options::reel_ou(a, 9, 0)
    &&& o.threads == options::naturel_ou(a, 10, 0)
    &&& o.append == options::donnee(a, 11)
    &&& o.fit@ == options::texte_ou(a, 12, ""@)
    &&& o.from_csv@ == options::texte_ou(a, 13, ""@)
}

/// Reads the command line of the calibration of labels.
pub fn options_calibration(args: &Vec<String>, reels: &Vec<Option<u32>>) -> (r: Result<
    OptionsCalibration,
    ErreurOption,
>)
    requires
        reels@.len() == args@.len(),
    ensures
        match options::lecture(reglages_calibration(), texte::vues_textes(args@), reels@, 0) {
            Ok(a) => r matches Ok(o) && calibration_conforme(o, a),
            Err(e) => r matches Err(x) && x@ == e,
        },
{
    let t: Vec<Reglage> = table_calibration();
    match options::lit(&t, args, reels) {
        Err(e) => Err(e),
        Ok(a) => Ok(
            OptionsCalibration {
                net: options::texte_ou_defaut(&a, 0, "models/chess_best.bin"),
                oracle: options::texte_ou_defaut(&a, 1, "engines/stockfish/stockfish-windows-x86-64-avx2.exe"),
                movetime: options::naturel_ou_defaut(&a, 2, 40),
                positions: options::naturel_ou_defaut(&a, 3, 6000),
                seed: options::naturel_ou_defaut(&a, 4, 0),
                out: options::texte_ou_defaut(&a, 5, "calibration.csv"),
                search_nodes: options::naturel_ou_defaut(&a, 6, 8000),
                departs_ouvertures: options::reel_ou_defaut(&a, 7, 0x3f19_999a),
                departs_finales: options::reel_ou_defaut(&a, 8, 0x3e4c_cccd),
                departs_transition: options::reel_ou_defaut(&a, 9, 0),
                threads: options::naturel_ou_defaut(&a, 10, 0),
                append: options::est_donnee(&a, 11),
                fit: options::texte_ou_defaut(&a, 12, ""),
                from_csv: options::texte_ou_defaut(&a, 13, ""),
            },
        ),
    }
}

/// Reads the command line of the calibration of labels and refuses shares of
/// starting positions that cannot stand together. `additionne` gives the `f32`
/// bits of the sum of three numbers.
pub fn lit_options_calibration<F: Fn(u32, u32, u32) -> u32>(
    args: &Vec<String>,
    reels: &Vec<Option<u32>>,
    additionne: &F,
) -> (r: Result<OptionsCalibration, ErreurLigne>)
    requires
        reels@.len() == args@.len(),
        forall|a: u32, b: u32, c: u32| #[trigger] call_requires(*additionne, (a, b, c)),
    ensures
        match options::lecture(reglages_calibration(), texte::vues_textes(args@), reels@, 0) {
            Err(e) => r matches Err(ErreurLigne::Option(x)) && x@ == e,
            Ok(a) => {
                let po = options::reel_ou(a, 7, 0x3f19_999a);
                let pf = options::reel_ou(a, 8, 0x3e4c_cccd);
                let pt = options::reel_ou(a, 9, 0);
                exists|s: u32| #[trigger]
                    call_ensures(*additionne, (po, pf, pt), s) && match departs::refus_des_parts(
                        po,
                        pf,
                        pt,
                        s,
                    ) {
                        None => r matches Ok(o) && calibration_conforme(o, a),
                        Some(e) => r matches Err(
                            ErreurLigne::Parts { refus, parts, somme },
                        ) && refus == e && parts == (po, pf, pt) && somme == s,
                    }
            },
        },
{
    match options_calibration(args, reels) {
        Err(e) => Err(ErreurLigne::Option(e)),
        Ok(o) => {
            let s: u32 = additionne(o.departs_ouvertures, o.departs_finales, o.departs_transition);
            match departs::valide_parts(
                o.departs_ouvertures,
                o.departs_finales,
                o.departs_transition,
                s,
            ) {
                Ok(_) => Ok(o),
                Err(refus) => Err(
                    ErreurLigne::Parts {
                        refus,
                        parts: (o.departs_ouvertures, o.departs_finales, o.departs_transition),
                        somme: s,
                    },
                ),
            }
        },
    }
}

// ---------------------------------------------------------------------------
// Forensic
// ---------------------------------------------------------------------------

/// The options of a duel of two settings.
pub open spec fn reglages_forensic() -> Seq<(Seq<char>, Genre)> {
    seq![
        ("--net"@, Genre::Texte),
        ("--net-b"@, Genre::Texte),
        ("--games"@, Genre::Naturel(usize::MAX as u64)),
        ("--nodes"@, Genre::Naturel(18_446_744_073_709_551_615)),
        ("--movetime"@, Genre::Naturel(18_446_744_073_709_551_615)),
        ("--quant-a"@, Genre::Drapeau),
        ("--quant-b"@, Genre::Drapeau),
        ("--smp-a"@, Genre::Naturel(4_294_967_295)),
        ("--smp-b"@, Genre::Naturel(4_294_967_295)),
        ("--threads"@, Genre::Naturel(usize::MAX as u64)),
        ("--out"@, Genre::Texte),
        ("--seed"@, Genre::Naturel(18_446_744_073_709_551_615)),
    ]
}

fn table_forensic() -> (r: Vec<Reglage>)
    ensures
        options::vue_table(r@) == reglages_forensic(),
{
    let mut r: Vec<Reglage> = Vec::new();
    r.push(Reglage { nom: "--net", genre: Genre::Texte });
    r.push(Reglage { nom: "--net-b", genre: Genre::Texte });
    r.push(Reglage { nom: "--games", genre: Genre::Naturel(usize::MAX as u64) });
    r.push(Reglage { nom: "--nodes", genre: Genre::Naturel(18_446_744_073_709_551_615) });
    r.push(Reglage { nom: "--movetime", genre: Genre::Naturel(18_446_744_073_709_551_615) });
    r.push(Reglage { nom: "--quant-a", genre: Genre::Drapeau });
    r.push(Reglage { nom: "--quant-b", genre: Genre::Drapeau });
    r.push(Reglage { nom: "--smp-a", genre: Genre::Naturel(4_294_967_295) });
    r.push(Reglage { nom: "--smp-b", genre: Genre::Naturel(4_294_967_295) });
    r.push(Reglage { nom: "--threads", genre: Genre::Naturel(usize::MAX as u64) });
    r.push(Reglage { nom: "--out", genre: Genre::Texte });
    r.push(Reglage { nom: "--seed", genre: Genre::Naturel(18_446_744_073_709_551_615) });
    assert(options::vue_table(r@) =~= reglages_forensic());
    r
}

/// What was asked of a duel of two settings.
#[derive(Debug)]
pub struct OptionsForensic {
    pub net: String,
    pub net_b: Option<String>,
    pub games: u64,
    pub nodes: u64,
    pub movetime: u64,
    pub quant_a: bool,
    pub quant_b: bool,
    pub smp_a: u64,
    pub smp_b: u64,
    pub threads: u64,
    pub out: String,
    pub seed: u64,
}

/// Every option has the value last given for it, else its usual one.
pub open spec fn forensic_conforme(o: OptionsForensic, a: Seq<(int, options::VueValeur)>) -> bool {
    &&& o.net@ == options::texte_ou(a, 0, "models/chess_latest.bin"@)
    &&& echiquier::vue_option(o.net_b) == options::texte_donne(a, 1)
    &&& o.games == options::naturel_ou(a, 2, 200)
    &&& o.nodes == options::naturel_ou(a, 3, 8000)
    &&& o.movetime == options::naturel_ou(a, 4, 0)
    &&& o.quant_a == options::donnee(a, 5)
    &&& o.quant_b == options::donnee(a, 6)
    &&& o.smp_a == options::naturel_ou(a, 7, 1)
    &&& o.smp_b == options::naturel_ou(a, 8, 1)
    &&& o.threads == options::naturel_ou(a, 9, 4)
    &&& o.out@ == options::texte_ou(a, 10, "forensic.csv"@)
    &&& o.seed == options::naturel_ou(a, 11, 0xF0E5_1C42)
}

/// Reads the command line of a duel of two settings.
pub fn options_forensic(args: &Vec<String>, reels: &Vec<Option<u32>>) -> (r: Result<
    OptionsForensic,
    ErreurOption,
>)
    requires
        reels@.len() == args@.len(),
    ensures
        match options::lecture(reglages_forensic(), texte::vues_textes(args@), reels@, 0) {
            Ok(a) => r matches Ok(o) && forensic_conforme(o, a),
            Err(e) => r matches Err(x) && x@ == e,
        },
{
    let t: Vec<Reglage> = table_forensic();
    match options::lit(&t, args, reels) {
        Err(e) => Err(e),
        Ok(a) => Ok(
            OptionsForensic {
                net: options::texte_ou_defaut(&a, 0, "models/chess_latest.bin"),
                net_b: options::lit_texte(&a, 1),
                games: options::naturel_ou_defaut(&a, 2, 200),
                nodes: options::naturel_ou_defaut(&a, 3, 8000),
                movetime: options::naturel_ou_defaut(&a, 4, 0),
                quant_a: options::est_donnee(&a, 5),
                quant_b: options::est_donnee(&a, 6),
                smp_a: options::naturel_ou_defaut(&a, 7, 1),
                smp_b: options::naturel_ou_defaut(&a, 8, 1),
                threads: options::naturel_ou_defaut(&a, 9, 4),
                out: options::texte_ou_defaut(&a, 10, "forensic.csv"),
                seed: options::naturel_ou_defaut(&a, 11, 0xF0E5_1C42),
            },
        ),
    }
}

// ---------------------------------------------------------------------------
// What the trainer and the grading refuse beyond their options
// ---------------------------------------------------------------------------

/// A trainer takes one labeller at most.
pub fn etiqueteurs_exclusifs(o: &OptionsTrain) -> (r: bool)
    ensures
        r == (o.mentor@.len() == 0 || o.oracle@.len() == 0),
{
    let m: Vec<char> = texte::caracteres(o.mentor.as_str());
    let w: Vec<char> = texte::caracteres(o.oracle.as_str());
    m.len() == 0 || w.len() == 0
}

/// Why the files of the grading are refused.
#[derive(Debug, Clone, Copy, PartialEq, Eq, Structural)]
pub enum RefusSortie {
    /// `--out` is the file of the live game.
    OutSurDirect,
    /// `--csv` is the file of the live game.
    CsvSurDirect,
    /// `--out` and `--csv` are one file.
    MemeFichier,
}

/// The grading never writes into the file of the live game, nor its two files
/// into one.
pub fn sorties_distinctes(out_est_direct: bool, csv_est_direct: bool, out_est_csv: bool) -> (r:
    Result<(), RefusSortie>)
    ensures
        r == if out_est_direct {
            Err::<(), RefusSortie>(RefusSortie::OutSurDirect)
        } else if csv_est_direct {
            Err(RefusSortie::CsvSurDirect)
        } else if out_est_csv {
            Err(RefusSortie::MemeFichier)
        } else {
            Ok(())
        },
{
    if out_est_direct {
        Err(RefusSortie::OutSurDirect)
    } else if csv_est_direct {
        Err(RefusSortie::CsvSurDirect)
    } else if out_est_csv {
        Err(RefusSortie::MemeFichier)
    } else {
        Ok(())
    }
}

// ---------------------------------------------------------------------------
// Graft
// ---------------------------------------------------------------------------

/// The options of the graft.
pub open spec fn reglages_greffe() -> Seq<(Seq<char>, Genre)> {
    seq![
        ("--teacher"@, Genre::Texte),
        ("--out"@, Genre::Texte),
        ("--diagnose"@, Genre::Texte),
        ("--compare"@, Genre::Paire),
        ("--bruit"@, Genre::Reel),
        ("--echelle"@, Genre::Reel),
        ("--depuis"@, Genre::Texte),
        ("--positions"@, Genre::Naturel(usize::MAX as u64)),
        ("--seed"@, Genre::Naturel(18_446_744_073_709_551_615)),
    ]
}

fn table_greffe() -> (r: Vec<Reglage>)
    ensures
        options::vue_table(r@) == reglages_greffe(),
{
    let mut r: Vec<Reglage> = Vec::new();
    r.push(Reglage { nom: "--teacher", genre: Genre::Texte });
    r.push(Reglage { nom: "--out", genre: Genre::Texte });
    r.push(Reglage { nom: "--diagnose", genre: Genre::Texte });
    r.push(Reglage { nom: "--compare", genre: Genre::Paire });
    r.push(Reglage { nom: "--bruit", genre: Genre::Reel });
    r.push(Reglage { nom: "--echelle", genre: Genre::Reel });
    r.push(Reglage { nom: "--depuis", genre: Genre::Texte });
    r.push(Reglage { nom: "--positions", genre: Genre::Naturel(usize::MAX as u64) });
    r.push(Reglage { nom: "--seed", genre: Genre::Naturel(18_446_744_073_709_551_615) });
    assert(options::vue_table(r@) =~= reglages_greffe());
    r
}

/// What the graft is asked to do.
#[derive(Debug)]
pub enum ModeGreffe {
    /// Transplant, and write to a new file.
    Greffe(String),
    /// Compare a network with the teacher, zone by zone.
    Diagnose(String),
    /// Compare two networks.
    Compare(String, String),
    /// Copy a network with noise of that deviation.
    Bruit { sigma: u32, depuis: String, out: String },
    /// Copy a network with its last layer multiplied.
    Echelle { c: u32, depuis: String, out: String },
}

/// What a mode says.
pub enum VueMode {
    Greffe(Seq<char>),
    Diagnose(Seq<char>),
    Compare(Seq<char>, Seq<char>),
    Bruit { sigma: u32, depuis: Seq<char>, out: Seq<char> },
    Echelle { c: u32, depuis: Seq<char>, out: Seq<char> },
}

impl View for ModeGreffe {
    type V = VueMode;

    open spec fn view(&self) -> VueMode {
        match self {
            ModeGreffe::Greffe(o) => VueMode::Greffe(o@),
            ModeGreffe::Diagnose(n) => VueMode::Diagnose(n@),
            ModeGreffe::Compare(a, b) => VueMode::Compare(a@, b@),
            ModeGreffe::Bruit { sigma, depuis, out } => VueMode::Bruit {
                sigma: *sigma,
                depuis: depuis@,
                out: out@,
            },
            ModeGreffe::Echelle { c, depuis, out } => VueMode::Echelle {
                c: *c,
                depuis: depuis@,
                out: out@,
            },
        }
    }
}

/// Why the graft refuses to start.
#[derive(Debug, Clone, Copy, PartialEq, Eq, Structural)]
pub enum RefusGreffe {
    /// None or several modes.
    PasUnMode,
    /// The deviation of the noise is not a finite number above zero.
    Sigma,
    /// The factor is not a finite number above zero.
    Facteur,
    /// Noise and scale need a source and a destination.
    SourceOuDestination,
    /// `--depuis` belongs to noise and scale.
    DepuisReserve,
    /// No position to compare on.
    PositionsNulles,
}

/// Are the bits those of a finite number above zero?
pub open spec fn fini_positif(b: u32) -> bool {
    0 < b < 0x7f80_0000
}

/// What the options of the graft ask for, or why they are refused. Exactly one
/// mode: to transplant (`--out` without noise or scale), to diagnose, to
/// compare, noise, scale.
pub open spec fn mode_demande(a: Seq<(int, options::VueValeur)>) -> Result<VueMode, RefusGreffe> {
    let out = options::texte_donne(a, 1);
    let diagnose = options::texte_donne(a, 2);
    let compare = options::paire_donnee(a, 3);
    let bruit = options::reel_donne(a, 4);
    let echelle = options::reel_donne(a, 5);
    let depuis = options::texte_donne(a, 6);
    let n = (if out is Some && bruit is None && echelle is None {
        1int
    } else {
        0
    }) + (if diagnose is Some {
        1int
    } else {
        0
    }) + (if compare is Some {
        1int
    } else {
        0
    }) + (if bruit is Some {
        1int
    } else {
        0
    }) + (if echelle is Some {
        1int
    } else {
        0
    });
    if n != 1 {
        Err(RefusGreffe::PasUnMode)
    } else if bruit is Some && !fini_positif(bruit->0) {
        Err(RefusGreffe::Sigma)
    } else if echelle is Some && !fini_positif(echelle->0) {
        Err(RefusGreffe::Facteur)
    } else if (bruit is Some || echelle is Some) && (depuis is None || out is None) {
        Err(RefusGreffe::SourceOuDestination)
    } else if bruit is None && echelle is None && depuis is Some {
        Err(RefusGreffe::DepuisReserve)
    } else if options::naturel_ou(a, 7, 50_000) == 0 {
        Err(RefusGreffe::PositionsNulles)
    } else {
        Ok(
            if bruit is Some {
                VueMode::Bruit { sigma: bruit->0, depuis: depuis->0, out: out->0 }
            } else if echelle is Some {
                VueMode::Echelle { c: echelle->0, depuis: depuis->0, out: out->0 }
            } else if diagnose is Some {
                VueMode::Diagnose(diagnose->0)
            } else if compare is Some {
                VueMode::Compare((compare->0).0, (compare->0).1)
            } else {
                VueMode::Greffe(out->0)
            },
        )
    }
}

/// What was asked of the graft.
#[derive(Debug)]
pub struct OptionsGreffe {
    pub teacher: String,
    pub mode: ModeGreffe,
    pub positions: u64,
    pub seed: u64,
}

/// Why a command line of the graft is refused.
#[derive(Debug, PartialEq, Eq)]
pub enum ErreurGreffe {
    Option(ErreurOption),
    Refus(RefusGreffe),
}

fn choisit_mode(
    out: Option<String>,
    diagnose: Option<String>,
    compare: Option<(String, String)>,
    bruit: Option<u32>,
    echelle: Option<u32>,
    depuis: Option<String>,
) -> (r: Option<ModeGreffe>)
    ensures
        bruit is Some ==> (match (depuis, out) {
            (Some(d), Some(o)) => r matches Some(m) && m@ == (VueMode::Bruit {
                sigma: bruit->0,
                depuis: d@,
                out: o@,
            }),
            _ => r is None,
        }),
        bruit is None && echelle is Some ==> (match (depuis, out) {
            (Some(d), Some(o)) => r matches Some(m) && m@ == (VueMode::Echelle {
                c: echelle->0,
                depuis: d@,
                out: o@,
            }),
            _ => r is None,
        }),
        bruit is None && echelle is None && diagnose is Some ==> (r matches Some(m) && m@
            == VueMode::Diagnose((diagnose->0)@)),
        bruit is None && echelle is None && diagnose is None && compare is Some ==> (r matches Some(m)
            && m@ == VueMode::Compare((compare->0).0@, (compare->0).1@)),
        bruit is None && echelle is None && diagnose is None && compare is None ==> match out {
            Some(o) => r matches Some(m) && m@ == VueMode::Greffe(o@),
            None => r is None,
        },
{
    if let Some(sigma) = bruit {
        match (depuis, out) {
            (Some(d), Some(o)) => Some(ModeGreffe::Bruit { sigma, depuis: d, out: o }),
            _ => None,
        }
    } else if let Some(c) = echelle {
        match (depuis, out) {
            (Some(d), Some(o)) => Some(ModeGreffe::Echelle { c, depuis: d, out: o }),
            _ => None,
        }
    } else if let Some(n) = diagnose {
        Some(ModeGreffe::Diagnose(n))
    } else if let Some((x, y)) = compare {
        Some(ModeGreffe::Compare(x, y))
    } else if let Some(o) = out {
        Some(ModeGreffe::Greffe(o))
    } else {
        None
    }
}

/// Reads the command line of the graft.
pub fn options_greffe(args: &Vec<String>, reels: &Vec<Option<u32>>) -> (r: Result<
    OptionsGreffe,
    ErreurGreffe,
>)
    requires
        reels@.len() == args@.len(),
    ensures
        match options::lecture(reglages_greffe(), texte::vues_textes(args@), reels@, 0) {
            Err(e) => r matches Err(ErreurGreffe::Option(x)) && x@ == e,
            Ok(a) => match mode_demande(a) {
                Err(f) => r matches Err(ErreurGreffe::Refus(g)) && g == f,
                Ok(m) => r matches Ok(o) && o.mode@ == m && o.teacher@ == options::texte_ou(
                    a,
                    0,
                    "models/chess_best.bin"@,
                ) && o.positions == options::naturel_ou(a, 7, 50_000) && o.seed
                    == options::naturel_ou(a, 8, 0),
            },
        },
{
    let t: Vec<Reglage> = table_greffe();
    match options::lit(&t, args, reels) {
        Err(e) => Err(ErreurGreffe::Option(e)),
        Ok(a) => {
            let out: Option<String> = options::lit_texte(&a, 1);
            let diagnose: Option<String> = options::lit_texte(&a, 2);
            let compare: Option<(String, String)> = options::lit_paire(&a, 3);
            let bruit: Option<u32> = options::lit_reel(&a, 4);
            let echelle: Option<u32> = options::lit_reel(&a, 5);
            let depuis: Option<String> = options::lit_texte(&a, 6);
            let positions: u64 = options::naturel_ou_defaut(&a, 7, 50_000);
            let mut n: u32 = 0;
            if out.is_some() && bruit.is_none() && echelle.is_none() {
                n += 1;
            }
            if diagnose.is_some() {
                n += 1;
            }
            if compare.is_some() {
                n += 1;
            }
            if bruit.is_some() {
                n += 1;
            }
            if echelle.is_some() {
                n += 1;
            }
            if n != 1 {
                return Err(ErreurGreffe::Refus(RefusGreffe::PasUnMode));
            }
            if let Some(b) = bruit {
                if b == 0 || b >= 0x7f80_0000 {
                    return Err(ErreurGreffe::Refus(RefusGreffe::Sigma));
                }
            }
            if let Some(b) = echelle {
                if b == 0 || b >= 0x7f80_0000 {
                    return Err(ErreurGreffe::Refus(RefusGreffe::Facteur));
                }
            }
            if bruit.is_some() || echelle.is_some() {
                if depuis.is_none() || out.is_none() {
                    return Err(ErreurGreffe::Refus(RefusGreffe::SourceOuDestination));
                }
            } else if depuis.is_some() {
                return Err(ErreurGreffe::Refus(RefusGreffe::DepuisReserve));
            }
            if positions == 0 {
                return Err(ErreurGreffe::Refus(RefusGreffe::PositionsNulles));
            }
            match choisit_mode(out, diagnose, compare, bruit, echelle, depuis) {
                Some(mode) => Ok(
                    OptionsGreffe {
                        teacher: options::texte_ou_defaut(&a, 0, "models/chess_best.bin"),
                        mode,
                        positions,
                        seed: options::naturel_ou_defaut(&a, 8, 0),
                    },
                ),
                None => Err(ErreurGreffe::Refus(RefusGreffe::PasUnMode)),
            }
        },
    }
}

// ---------------------------------------------------------------------------
// Calibration of the playing strength
// ---------------------------------------------------------------------------

/// The options of the calibration of the playing strength.
pub open spec fn reglages_calibrate() -> Seq<(Seq<char>, Genre)> {
    seq![
        ("--games"@, Genre::Naturel(usize::MAX as u64)),
        ("--movetime"@, Genre::Naturel(18_446_744_073_709_551_615)),
        ("--elos"@, Genre::Liste(4_294_967_295)),
        ("--depth"@, Genre::Naturel(4_294_967_295)),
        ("--out"@, Genre::Texte),
        ("--engine"@, Genre::Texte),
        ("--threads"@, Genre::Naturel(usize::MAX as u64)),
        ("--seed"@, Genre::Naturel(18_446_744_073_709_551_615)),
        ("--recherche-movetime"@, Genre::Naturel(18_446_744_073_709_551_615)),
        ("--int8"@, Genre::Drapeau),
        ("--net"@, Genre::Texte),
    ]
}

fn table_calibrate() -> (r: Vec<Reglage>)
    ensures
        options::vue_table(r@) == reglages_calibrate(),
{
    let mut r: Vec<Reglage> = Vec::new();
    r.push(Reglage { nom: "--games", genre: Genre::Naturel(usize::MAX as u64) });
    r.push(Reglage { nom: "--movetime", genre: Genre::Naturel(18_446_744_073_709_551_615) });
    r.push(Reglage { nom: "--elos", genre: Genre::Liste(4_294_967_295) });
    r.push(Reglage { nom: "--depth", genre: Genre::Naturel(4_294_967_295) });
    r.push(Reglage { nom: "--out", genre: Genre::Texte });
    r.push(Reglage { nom: "--engine", genre: Genre::Texte });
    r.push(Reglage { nom: "--threads", genre: Genre::Naturel(usize::MAX as u64) });
    r.push(Reglage { nom: "--seed", genre: Genre::Naturel(18_446_744_073_709_551_615) });
    r.push(
        Reglage { nom: "--recherche-movetime", genre: Genre::Naturel(18_446_744_073_709_551_615) },
    );
    r.push(Reglage { nom: "--int8", genre: Genre::Drapeau });
    r.push(Reglage { nom: "--net", genre: Genre::Texte });
    assert(options::vue_table(r@) =~= reglages_calibrate());
    r
}

/// What was asked of the calibration of the playing strength.
#[derive(Debug)]
pub struct OptionsCalibrate {
    pub games: u64,
    pub movetime: u64,
    pub elos: Vec<u64>,
    pub depth: u64,
    pub out: String,
    pub engine: String,
    pub threads: u64,
    pub seed: u64,
    /// Milliseconds a move of the full engine; none for the plain network.
    pub recherche_movetime: Option<u64>,
    pub int8: bool,
    pub net: Option<String>,
}

/// Every option has the value last given for it, else its usual one.
pub open spec fn calibrate_conforme(o: OptionsCalibrate, a: Seq<(int, options::VueValeur)>) -> bool {
    &&& o.games == options::naturel_ou(a, 0, 4)
    &&& o.movetime == options::naturel_ou(a, 1, 30)
    &&& o.elos@ == match options::liste_donnee(a, 2) {
        Some(l) => l,
        None => seq![1320u64],
    }
    &&& o.depth == options::naturel_ou(a, 3, 2)
    &&& o.out@ == options::texte_ou(a, 4, "models"@)
    &&& o.engine@ == options::texte_ou(
        a,
        5,
        "engines/stockfish/stockfish-windows-x86-64-avx2.exe"@,
    )
    &&& o.threads == options::naturel_ou(a, 6, 4)
    &&& o.seed == options::naturel_ou(a, 7, 0)
    &&& o.recherche_movetime == options::naturel_donne(a, 8)
    &&& o.int8 == options::donnee(a, 9)
    &&& echiquier::vue_option(o.net) == options::texte_donne(a, 10)
}

/// Why a command line of the calibration is refused.
#[derive(Debug, PartialEq, Eq)]
pub enum ErreurCalibrate {
    Option(ErreurOption),
    /// No game or no strength.
    RienAJouer,
    /// No time for a move.
    TempsNul,
}

/// Reads the command line of the calibration of the playing strength.
pub fn options_calibrate(args: &Vec<String>, reels: &Vec<Option<u32>>) -> (r: Result<
    OptionsCalibrate,
    ErreurCalibrate,
>)
    requires
        reels@.len() == args@.len(),
    ensures
        match options::lecture(reglages_calibrate(), texte::vues_textes(args@), reels@, 0) {
            Err(e) => r matches Err(ErreurCalibrate::Option(x)) && x@ == e,
            Ok(a) => if options::naturel_ou(a, 0, 4) == 0 || (options::liste_donnee(
                a,
                2,
            ) matches Some(l) && l.len() == 0) {
                r == Err::<OptionsCalibrate, ErreurCalibrate>(ErreurCalibrate::RienAJouer)
            } else if options::naturel_donne(a, 8) == Some(0u64) {
                r == Err::<OptionsCalibrate, ErreurCalibrate>(ErreurCalibrate::TempsNul)
            } else {
                r matches Ok(o) && calibrate_conforme(o, a)
            },
        },
{
    let t: Vec<Reglage> = table_calibrate();
    match options::lit(&t, args, reels) {
        Err(e) => Err(ErreurCalibrate::Option(e)),
        Ok(a) => {
            let elos: Vec<u64> = match options::lit_naturels(&a, 2) {
                Some(l) => l,
                None => {
                    let mut l: Vec<u64> = Vec::new();
                    l.push(1320);
                    assert(l@ =~= seq![1320u64]);
                    l
                },
            };
            let o: OptionsCalibrate = OptionsCalibrate {
                games: options::naturel_ou_defaut(&a, 0, 4),
                movetime: options::naturel_ou_defaut(&a, 1, 30),
                elos,
                depth: options::naturel_ou_defaut(&a, 3, 2),
                out: options::texte_ou_defaut(&a, 4, "models"),
                engine: options::texte_ou_defaut(
                    &a,
                    5,
                    "engines/stockfish/stockfish-windows-x86-64-avx2.exe",
                ),
                threads: options::naturel_ou_defaut(&a, 6, 4),
                seed: options::naturel_ou_defaut(&a, 7, 0),
                recherche_movetime: options::lit_nombre(&a, 8),
                int8: options::est_donnee(&a, 9),
                net: options::lit_texte(&a, 10),
            };
            if o.games == 0 || o.elos.len() == 0 {
                return Err(ErreurCalibrate::RienAJouer);
            }
            if let Some(ms) = o.recherche_movetime {
                if ms == 0 {
                    return Err(ErreurCalibrate::TempsNul);
                }
            }
            Ok(o)
        },
    }
}

// ---------------------------------------------------------------------------
// Distillation
// ---------------------------------------------------------------------------

/// The options of the distillation.
pub open spec fn reglages_distill() -> Seq<(Seq<char>, Genre)> {
    seq![
        ("--teacher"@, Genre::Texte),
        ("--sizes"@, Genre::Liste(usize::MAX as u64)),
        ("--schema"@, Genre::Schema),
        ("--student"@, Genre::Texte),
        ("--positions"@, Genre::Naturel(usize::MAX as u64)),
        ("--epoques-max"@, Genre::Positif(usize::MAX as u64)),
        ("--lr"@, Genre::Reel),
        ("--seed"@, Genre::Naturel(18_446_744_073_709_551_615)),
        ("--out"@, Genre::Texte),
    ]
}

fn table_distill() -> (r: Vec<Reglage>)
    ensures
        options::vue_table(r@) == reglages_distill(),
{
    let mut r: Vec<Reglage> = Vec::new();
    r.push(Reglage { nom: "--teacher", genre: Genre::Texte });
    r.push(Reglage { nom: "--sizes", genre: Genre::Liste(usize::MAX as u64) });
    r.push(Reglage { nom: "--schema", genre: Genre::Schema });
    r.push(Reglage { nom: "--student", genre: Genre::Texte });
    r.push(Reglage { nom: "--positions", genre: Genre::Naturel(usize::MAX as u64) });
    r.push(Reglage { nom: "--epoques-max", genre: Genre::Positif(usize::MAX as u64) });
    r.push(Reglage { nom: "--lr", genre: Genre::Reel });
    r.push(Reglage { nom: "--seed", genre: Genre::Naturel(18_446_744_073_709_551_615) });
    r.push(Reglage { nom: "--out", genre: Genre::Texte });
    assert(options::vue_table(r@) =~= reglages_distill());
    r
}

/// What was asked of the distillation.
#[derive(Debug)]
pub struct OptionsDistill {
    pub teacher: String,
    pub sizes: Vec<u64>,
    pub schema: SchemaFeatures,
    pub student: Option<String>,
    pub positions: u64,
    pub epoques_max: u64,
    pub lr: u32,
    pub seed: u64,
    pub out: String,
    pub sizes_explicites: bool,
}

/// Layer sizes of the pupil: those given, else the usual head behind the input
/// of its encoding.
pub open spec fn tailles_eleve(donnees: Option<Seq<u64>>, schema: SchemaFeatures) -> Seq<u64> {
    match donnees {
        Some(l) => l,
        None => match schema {
            SchemaFeatures::Classique773 => seq![773u64, 1024, 128, 1],
            SchemaFeatures::RoiZones8 => seq![6149u64, 1024, 128, 1],
        },
    }
}

/// Every option has the value last given for it, else its usual one.
pub open spec fn distill_conforme(o: OptionsDistill, a: Seq<(int, options::VueValeur)>) -> bool {
    &&& o.teacher@ == options::texte_ou(a, 0, "models/chess_best.bin"@)
    &&& o.sizes@ == tailles_eleve(options::liste_donnee(a, 1), options::schema_ou(a, 2))
    &&& o.sizes_explicites == (options::liste_donnee(a, 1) is Some)
    &&& o.schema == options::schema_ou(a, 2)
    &&& echiquier::vue_option(o.student) == options::texte_donne(a, 3)
    &&& o.positions == options::naturel_ou(a, 4, 600_000)
    &&& o.epoques_max == options::naturel_ou(a, 5, 6)
    &&& o.lr == options::reel_ou(a, 6, 0x3a83_126f)
    &&& o.seed == options::naturel_ou(a, 7, 0)
    &&& o.out@ == options::texte_ou(a, 8, "models/distill_student.bin"@)
}

/// Reads the command line of the distillation.
pub fn options_distill(args: &Vec<String>, reels: &Vec<Option<u32>>) -> (r: Result<
    OptionsDistill,
    ErreurOption,
>)
    requires
        reels@.len() == args@.len(),
    ensures
        match options::lecture(reglages_distill(), texte::vues_textes(args@), reels@, 0) {
            Ok(a) => r matches Ok(o) && distill_conforme(o, a),
            Err(e) => r matches Err(x) && x@ == e,
        },
{
    let t: Vec<Reglage> = table_distill();
    match options::lit(&t, args, reels) {
        Err(e) => Err(e),
        Ok(a) => {
            let schema: SchemaFeatures = options::schema_ou_defaut(&a, 2);
            let donnees: Option<Vec<u64>> = options::lit_naturels(&a, 1);
            let sizes_explicites: bool = donnees.is_some();
            let sizes: Vec<u64> = match donnees {
                Some(l) => l,
                None => {
                    let entree: u64 = match schema {
                        SchemaFeatures::Classique773 => N_FEATURES as u64,
                        SchemaFeatures::RoiZones8 => N_FEATURES_ROI as u64,
                    };
                    let mut l: Vec<u64> = Vec::new();
                    l.push(entree);
                    l.push(1024);
                    l.push(128);
                    l.push(1);
                    assert(l@ =~= tailles_eleve(None, schema));
                    l
                },
            };
            Ok(
                OptionsDistill {
                    teacher: options::texte_ou_defaut(&a, 0, "models/chess_best.bin"),
                    sizes,
                    schema,
                    student: options::lit_texte(&a, 3),
                    positions: options::naturel_ou_defaut(&a, 4, 600_000),
                    epoques_max: options::naturel_ou_defaut(&a, 5, 6),
                    lr: options::reel_ou_defaut(&a, 6, 0x3a83_126f),
                    seed: options::naturel_ou_defaut(&a, 7, 0),
                    out: options::texte_ou_defaut(&a, 8, "models/distill_student.bin"),
                    sizes_explicites,
                },
            )
        },
    }
}

/// Options of a training: what each name sets, and the value that stands when it
/// is not given.
pub proof fn loi_options_train(
    o: OptionsTrain,
    a: Seq<(int, options::VueValeur)>,
    n: u64,
    t: Seq<char>,
    b: u32,
)
    requires
        train_conforme(o, a),
    ensures
        reglages_train().len() == 26,
        reglages_train()[0].0 == "--out"@,
        reglages_train()[1].0 == "--threads"@,
        reglages_train()[2].0 == "--games-per-cycle"@,
        reglages_train()[3].0 == "--temperature"@,
        reglages_train()[4].0 == "--lr"@,
        reglages_train()[5].0 == "--eval-games"@,
        reglages_train()[6].0 == "--replay"@,
        reglages_train()[7].0 == "--elo-every"@,
        reglages_train()[8].0 == "--elo-games"@,
        reglages_train()[9].0 == "--seed"@,
        reglages_train()[10].0 == "--search-nodes"@,
        reglages_train()[11].0 == "--td-lambda"@,
        reglages_train()[12].0 == "--gate-every"@,
        reglages_train()[13].0 == "--gate-games"@,
        reglages_train()[14].0 == "--mentor"@,
        reglages_train()[15].0 == "--mentor-poids"@,
        reglages_train()[16].0 == "--oracle"@,
        reglages_train()[17].0 == "--oracle-movetime"@,
        reglages_train()[18].0 == "--departs-ouvertures"@,
        reglages_train()[19].0 == "--departs-finales"@,
        reglages_train()[20].0 == "--departs-transition"@,
        reglages_train()[21].0 == "--ancre"@,
        reglages_train()[22].0 == "--ancre-lambda"@,
        reglages_train()[23].0 == "--recalibrage"@,
        reglages_train()[24].0 == "--syzygy"@,
        reglages_train()[25].0 == "--int8"@,
        options::derniere(a, 0) is None ==> o.out@ == "models"@,
        options::derniere(a, 0) == Some(options::VueValeur::Texte(t)) ==> o.out@ == t,
        options::derniere(a, 1) is None ==> o.threads == 10,
        options::derniere(a, 1) == Some(options::VueValeur::Naturel(n)) ==> o.threads == n,
        options::derniere(a, 2) is None ==> o.games_per_cycle == 128,
        options::derniere(a, 2) == Some(options::VueValeur::Naturel(n)) ==> o.games_per_cycle == n,
        options::derniere(a, 3) is None ==> o.temperature == 0x3eb3_3333,
        options::derniere(a, 3) == Some(options::VueValeur::Reel(b)) ==> o.temperature == b,
        options::derniere(a, 4) is None ==> o.lr == 0x3a83_126f,
        options::derniere(a, 4) == Some(options::VueValeur::Reel(b)) ==> o.lr == b,
        options::derniere(a, 5) is None ==> o.eval_games == 120,
        options::derniere(a, 5) == Some(options::VueValeur::Naturel(n)) ==> o.eval_games == n,
        options::derniere(a, 6) is None ==> o.replay == 1_200_000,
        options::derniere(a, 6) == Some(options::VueValeur::Naturel(n)) ==> o.replay == n,
        options::derniere(a, 7) is None ==> o.elo_every == 15,
        options::derniere(a, 7) == Some(options::VueValeur::Naturel(n)) ==> o.elo_every == n,
        options::derniere(a, 8) is None ==> o.elo_games == 168,
        options::derniere(a, 8) == Some(options::VueValeur::Naturel(n)) ==> o.elo_games == n,
        options::derniere(a, 9) is None ==> o.seed == 0,
        options::derniere(a, 9) == Some(options::VueValeur::Naturel(n)) ==> o.seed == n,
        options::derniere(a, 10) is None ==> o.search_nodes == 1500,
        options::derniere(a, 10) == Some(options::VueValeur::Naturel(n)) ==> o.search_nodes == n,
        options::derniere(a, 11) is None ==> o.td_lambda == 0x3e99_999a,
        options::derniere(a, 11) == Some(options::VueValeur::Reel(b)) ==> o.td_lambda == b,
        options::derniere(a, 12) is None ==> o.gate_every == 10,
        options::derniere(a, 12) == Some(options::VueValeur::Naturel(n)) ==> o.gate_every == n,
        options::derniere(a, 13) is None ==> o.gate_games == 64,
        options::derniere(a, 13) == Some(options::VueValeur::Naturel(n)) ==> o.gate_games == n,
        options::derniere(a, 14) is None ==> o.mentor@ == ""@,
        options::derniere(a, 14) == Some(options::VueValeur::Texte(t)) ==> o.mentor@ == t,
        options::derniere(a, 15) is None ==> o.mentor_poids == 0x3f80_0000,
        options::derniere(a, 15) == Some(options::VueValeur::Reel(b)) ==> o.mentor_poids == b,
        options::derniere(a, 16) is None ==> o.oracle@ == ""@,
        options::derniere(a, 16) == Some(options::VueValeur::Texte(t)) ==> o.oracle@ == t,
        options::derniere(a, 17) is None ==> o.oracle_movetime == 15,
        options::derniere(a, 17) == Some(options::VueValeur::Naturel(n)) ==> o.oracle_movetime == n,
        options::derniere(a, 18) is None ==> o.departs_ouvertures == 0,
        options::derniere(a, 18) == Some(options::VueValeur::Reel(b)) ==> o.departs_ouvertures == b,
        options::derniere(a, 19) is None ==> o.departs_finales == 0,
        options::derniere(a, 19) == Some(options::VueValeur::Reel(b)) ==> o.departs_finales == b,
        options::derniere(a, 20) is None ==> o.departs_transition == 0,
        options::derniere(a, 20) == Some(options::VueValeur::Reel(b)) ==> o.departs_transition == b,
        options::derniere(a, 21) is None ==> o.ancre@ == ""@,
        options::derniere(a, 21) == Some(options::VueValeur::Texte(t)) ==> o.ancre@ == t,
        options::derniere(a, 22) is None ==> o.ancre_lambda == 0x40a0_0000,
        options::derniere(a, 22) == Some(options::VueValeur::Reel(b)) ==> o.ancre_lambda == b,
        options::derniere(a, 23) is None ==> o.recalibrage@ == ""@,
        options::derniere(a, 23) == Some(options::VueValeur::Texte(t)) ==> o.recalibrage@ == t,
        options::derniere(a, 24) is None ==> o.syzygy@ == ""@,
        options::derniere(a, 24) == Some(options::VueValeur::Texte(t)) ==> o.syzygy@ == t,
        o.int8 <==> options::derniere(a, 25) is Some,
{
}

/// Options of a match: what each name sets, and the value that stands when it
/// is not given.
pub proof fn loi_options_match(
    o: OptionsMatch,
    a: Seq<(int, options::VueValeur)>,
    n: u64,
    t: Seq<char>,
)
    requires
        match_conforme(o, a),
    ensures
        reglages_match().len() == 12,
        reglages_match()[0].0 == "--net"@,
        reglages_match()[1].0 == "--engine"@,
        reglages_match()[2].0 == "--uci-elo"@,
        reglages_match()[3].0 == "--movetime-champion"@,
        reglages_match()[4].0 == "--movetime-adversaire"@,
        reglages_match()[5].0 == "--threads-recherche"@,
        reglages_match()[6].0 == "--tt-log2"@,
        reglages_match()[7].0 == "--int8"@,
        reglages_match()[8].0 == "--syzygy"@,
        reglages_match()[9].0 == "--games"@,
        reglages_match()[10].0 == "--pgn"@,
        reglages_match()[11].0 == "--seed"@,
        options::derniere(a, 0) is None ==> o.net@ == "models/chess_best.bin"@,
        options::derniere(a, 0) == Some(options::VueValeur::Texte(t)) ==> o.net@ == t,
        options::derniere(a, 1) is None ==> o.engine@ == "engines/stockfish/stockfish-windows-x86-64-avx2.exe"@,
        options::derniere(a, 1) == Some(options::VueValeur::Texte(t)) ==> o.engine@ == t,
        options::derniere(a, 2) is None ==> o.uci_elo == 2800,
        options::derniere(a, 2) == Some(options::VueValeur::Naturel(n)) ==> o.uci_elo == n,
        options::derniere(a, 3) is None ==> o.movetime_champion == 60_000,
        options::derniere(a, 3) == Some(options::VueValeur::Naturel(n)) ==> o.movetime_champion == n,
        options::derniere(a, 4) is None ==> o.movetime_adversaire == 60_000,
        options::derniere(a, 4) == Some(options::VueValeur::Naturel(n)) ==> o.movetime_adversaire == n,
        options::derniere(a, 5) is None ==> o.threads_recherche == 1,
        options::derniere(a, 5) == Some(options::VueValeur::Naturel(n)) ==> o.threads_recherche == n,
        options::derniere(a, 6) is None ==> o.tt_log2 == 24,
        options::derniere(a, 6) == Some(options::VueValeur::Naturel(n)) ==> o.tt_log2 == n,
        o.int8 <==> options::derniere(a, 7) is Some,
        options::derniere(a, 8) is None ==> o.syzygy@ == ""@,
        options::derniere(a, 8) == Some(options::VueValeur::Texte(t)) ==> o.syzygy@ == t,
        options::derniere(a, 9) is None ==> o.games == 1,
        options::derniere(a, 9) == Some(options::VueValeur::Naturel(n)) ==> o.games == n,
        options::derniere(a, 10) is None ==> o.pgn@ == "pgn"@,
        options::derniere(a, 10) == Some(options::VueValeur::Texte(t)) ==> o.pgn@ == t,
        options::derniere(a, 11) is None ==> o.seed == 0xDEE9_B1CE,
        options::derniere(a, 11) == Some(options::VueValeur::Naturel(n)) ==> o.seed == n,
{
}

/// Options of the grading: what each name sets, and the value that stands when it
/// is not given.
pub proof fn loi_options_arbitre(
    o: OptionsArbitre,
    a: Seq<(int, options::VueValeur)>,
    n: u64,
    t: Seq<char>,
)
    requires
        arbitre_conforme(o, a),
    ensures
        reglages_arbitre().len() == 9,
        reglages_arbitre()[0].0 == "--live"@,
        reglages_arbitre()[1].0 == "--engine"@,
        reglages_arbitre()[2].0 == "--movetime"@,
        reglages_arbitre()[3].0 == "--threads"@,
        reglages_arbitre()[4].0 == "--hash"@,
        reglages_arbitre()[5].0 == "--out"@,
        reglages_arbitre()[6].0 == "--csv"@,
        reglages_arbitre()[7].0 == "--pause"@,
        reglages_arbitre()[8].0 == "--pgn"@,
        options::derniere(a, 0) is None ==> o.live@ == "models/match_live.json"@,
        options::derniere(a, 0) == Some(options::VueValeur::Texte(t)) ==> o.live@ == t,
        options::derniere(a, 1) is None ==> o.engine@ == "engines/stockfish/stockfish-windows-x86-64-avx2.exe"@,
        options::derniere(a, 1) == Some(options::VueValeur::Texte(t)) ==> o.engine@ == t,
        options::derniere(a, 2) is None ==> o.movetime == 4_000,
        options::derniere(a, 2) == Some(options::VueValeur::Naturel(n)) ==> o.movetime == n,
        options::derniere(a, 3) is None ==> o.threads == 1,
        options::derniere(a, 3) == Some(options::VueValeur::Naturel(n)) ==> o.threads == n,
        options::derniere(a, 4) is None ==> o.hash == 256,
        options::derniere(a, 4) == Some(options::VueValeur::Naturel(n)) ==> o.hash == n,
        options::derniere(a, 5) is None ==> o.out@ == "models/match_arbitre.json"@,
        options::derniere(a, 5) == Some(options::VueValeur::Texte(t)) ==> o.out@ == t,
        options::derniere(a, 6) is None ==> o.csv@ == "models/arbitre.csv"@,
        options::derniere(a, 6) == Some(options::VueValeur::Texte(t)) ==> o.csv@ == t,
        options::derniere(a, 7) is None ==> o.pause == 250,
        options::derniere(a, 7) == Some(options::VueValeur::Naturel(n)) ==> o.pause == n,
        options::derniere(a, 8) is None ==> o.pgn@ == "pgn_match_2600"@,
        options::derniere(a, 8) == Some(options::VueValeur::Texte(t)) ==> o.pgn@ == t,
{
}

/// Options of the bench: what each name sets, and the value that stands when it
/// is not given.
pub proof fn loi_options_banc(
    o: OptionsBanc,
    a: Seq<(int, options::VueValeur)>,
    n: u64,
    t: Seq<char>,
)
    requires
        banc_conforme(o, a),
    ensures
        reglages_banc().len() == 11,
        reglages_banc()[0].0 == "--net"@,
        reglages_banc()[1].0 == "--engine"@,
        reglages_banc()[2].0 == "--positions"@,
        reglages_banc()[3].0 == "--noeuds"@,
        reglages_banc()[4].0 == "--movetime"@,
        reglages_banc()[5].0 == "--threads"@,
        reglages_banc()[6].0 == "--int8"@,
        reglages_banc()[7].0 == "--syzygy"@,
        reglages_banc()[8].0 == "--seed"@,
        reglages_banc()[9].0 == "--csv"@,
        reglages_banc()[10].0 == "--tt-log2"@,
        options::derniere(a, 0) is None ==> o.net@ == "models/chess_best.bin"@,
        options::derniere(a, 0) == Some(options::VueValeur::Texte(t)) ==> o.net@ == t,
        options::derniere(a, 1) is None ==> o.engine@ == "engines/stockfish/stockfish-windows-x86-64-avx2.exe"@,
        options::derniere(a, 1) == Some(options::VueValeur::Texte(t)) ==> o.engine@ == t,
        options::derniere(a, 2) is None ==> o.positions == 40,
        options::derniere(a, 2) == Some(options::VueValeur::Naturel(n)) ==> o.positions == n,
        options::derniere(a, 3) is None ==> o.noeuds == 200_000,
        options::derniere(a, 3) == Some(options::VueValeur::Naturel(n)) ==> o.noeuds == n,
        options::derniere(a, 4) is None ==> o.movetime == 2000,
        options::derniere(a, 4) == Some(options::VueValeur::Naturel(n)) ==> o.movetime == n,
        options::derniere(a, 5) is None ==> o.threads == 1,
        options::derniere(a, 5) == Some(options::VueValeur::Naturel(n)) ==> o.threads == n,
        o.int8 <==> options::derniere(a, 6) is Some,
        options::derniere(a, 7) is None ==> o.syzygy@ == ""@,
        options::derniere(a, 7) == Some(options::VueValeur::Texte(t)) ==> o.syzygy@ == t,
        options::derniere(a, 8) is None ==> o.seed == 20_260_809,
        options::derniere(a, 8) == Some(options::VueValeur::Naturel(n)) ==> o.seed == n,
        options::derniere(a, 9) is None ==> o.csv@ == ""@,
        options::derniere(a, 9) == Some(options::VueValeur::Texte(t)) ==> o.csv@ == t,
        options::derniere(a, 10) is None ==> o.tt_log2 == 22,
        options::derniere(a, 10) == Some(options::VueValeur::Naturel(n)) ==> o.tt_log2 == n,
{
}

/// Options of a calibration run: what each name sets, and the value that stands when it
/// is not given.
pub proof fn loi_options_calibration(
    o: OptionsCalibration,
    a: Seq<(int, options::VueValeur)>,
    n: u64,
    t: Seq<char>,
    b: u32,
)
    requires
        calibration_conforme(o, a),
    ensures
        reglages_calibration().len() == 14,
        reglages_calibration()[0].0 == "--net"@,
        reglages_calibration()[1].0 == "--oracle"@,
        reglages_calibration()[2].0 == "--movetime"@,
        reglages_calibration()[3].0 == "--positions"@,
        reglages_calibration()[4].0 == "--seed"@,
        reglages_calibration()[5].0 == "--out"@,
        reglages_calibration()[6].0 == "--search-nodes"@,
        reglages_calibration()[7].0 == "--departs-ouvertures"@,
        reglages_calibration()[8].0 == "--departs-finales"@,
        reglages_calibration()[9].0 == "--departs-transition"@,
        reglages_calibration()[10].0 == "--threads"@,
        reglages_calibration()[11].0 == "--append"@,
        reglages_calibration()[12].0 == "--fit"@,
        reglages_calibration()[13].0 == "--from-csv"@,
        options::derniere(a, 0) is None ==> o.net@ == "models/chess_best.bin"@,
        options::derniere(a, 0) == Some(options::VueValeur::Texte(t)) ==> o.net@ == t,
        options::derniere(a, 1) is None ==> o.oracle@ == "engines/stockfish/stockfish-windows-x86-64-avx2.exe"@,
        options::derniere(a, 1) == Some(options::VueValeur::Texte(t)) ==> o.oracle@ == t,
        options::derniere(a, 2) is None ==> o.movetime == 40,
        options::derniere(a, 2) == Some(options::VueValeur::Naturel(n)) ==> o.movetime == n,
        options::derniere(a, 3) is None ==> o.positions == 6000,
        options::derniere(a, 3) == Some(options::VueValeur::Naturel(n)) ==> o.positions == n,
        options::derniere(a, 4) is None ==> o.seed == 0,
        options::derniere(a, 4) == Some(options::VueValeur::Naturel(n)) ==> o.seed == n,
        options::derniere(a, 5) is None ==> o.out@ == "calibration.csv"@,
        options::derniere(a, 5) == Some(options::VueValeur::Texte(t)) ==> o.out@ == t,
        options::derniere(a, 6) is None ==> o.search_nodes == 8000,
        options::derniere(a, 6) == Some(options::VueValeur::Naturel(n)) ==> o.search_nodes == n,
        options::derniere(a, 7) is None ==> o.departs_ouvertures == 0x3f19_999a,
        options::derniere(a, 7) == Some(options::VueValeur::Reel(b)) ==> o.departs_ouvertures == b,
        options::derniere(a, 8) is None ==> o.departs_finales == 0x3e4c_cccd,
        options::derniere(a, 8) == Some(options::VueValeur::Reel(b)) ==> o.departs_finales == b,
        options::derniere(a, 9) is None ==> o.departs_transition == 0,
        options::derniere(a, 9) == Some(options::VueValeur::Reel(b)) ==> o.departs_transition == b,
        options::derniere(a, 10) is None ==> o.threads == 0,
        options::derniere(a, 10) == Some(options::VueValeur::Naturel(n)) ==> o.threads == n,
        o.append <==> options::derniere(a, 11) is Some,
        options::derniere(a, 12) is None ==> o.fit@ == ""@,
        options::derniere(a, 12) == Some(options::VueValeur::Texte(t)) ==> o.fit@ == t,
        options::derniere(a, 13) is None ==> o.from_csv@ == ""@,
        options::derniere(a, 13) == Some(options::VueValeur::Texte(t)) ==> o.from_csv@ == t,
{
}

/// Options of a duel of networks: what each name sets, and the value that stands when it
/// is not given.
pub proof fn loi_options_forensic(
    o: OptionsForensic,
    a: Seq<(int, options::VueValeur)>,
    n: u64,
    t: Seq<char>,
)
    requires
        forensic_conforme(o, a),
    ensures
        reglages_forensic().len() == 12,
        reglages_forensic()[0].0 == "--net"@,
        reglages_forensic()[1].0 == "--net-b"@,
        reglages_forensic()[2].0 == "--games"@,
        reglages_forensic()[3].0 == "--nodes"@,
        reglages_forensic()[4].0 == "--movetime"@,
        reglages_forensic()[5].0 == "--quant-a"@,
        reglages_forensic()[6].0 == "--quant-b"@,
        reglages_forensic()[7].0 == "--smp-a"@,
        reglages_forensic()[8].0 == "--smp-b"@,
        reglages_forensic()[9].0 == "--threads"@,
        reglages_forensic()[10].0 == "--out"@,
        reglages_forensic()[11].0 == "--seed"@,
        options::derniere(a, 0) is None ==> o.net@ == "models/chess_latest.bin"@,
        options::derniere(a, 0) == Some(options::VueValeur::Texte(t)) ==> o.net@ == t,
        options::derniere(a, 1) is None ==> echiquier::vue_option(o.net_b) is None,
        options::derniere(a, 1) == Some(options::VueValeur::Texte(t)) ==> echiquier::vue_option(o.net_b) == Some(t),
        options::derniere(a, 2) is None ==> o.games == 200,
        options::derniere(a, 2) == Some(options::VueValeur::Naturel(n)) ==> o.games == n,
        options::derniere(a, 3) is None ==> o.nodes == 8000,
        options::derniere(a, 3) == Some(options::VueValeur::Naturel(n)) ==> o.nodes == n,
        options::derniere(a, 4) is None ==> o.movetime == 0,
        options::derniere(a, 4) == Some(options::VueValeur::Naturel(n)) ==> o.movetime == n,
        o.quant_a <==> options::derniere(a, 5) is Some,
        o.quant_b <==> options::derniere(a, 6) is Some,
        options::derniere(a, 7) is None ==> o.smp_a == 1,
        options::derniere(a, 7) == Some(options::VueValeur::Naturel(n)) ==> o.smp_a == n,
        options::derniere(a, 8) is None ==> o.smp_b == 1,
        options::derniere(a, 8) == Some(options::VueValeur::Naturel(n)) ==> o.smp_b == n,
        options::derniere(a, 9) is None ==> o.threads == 4,
        options::derniere(a, 9) == Some(options::VueValeur::Naturel(n)) ==> o.threads == n,
        options::derniere(a, 10) is None ==> o.out@ == "forensic.csv"@,
        options::derniere(a, 10) == Some(options::VueValeur::Texte(t)) ==> o.out@ == t,
        options::derniere(a, 11) is None ==> o.seed == 0xF0E5_1C42,
        options::derniere(a, 11) == Some(options::VueValeur::Naturel(n)) ==> o.seed == n,
{
}

/// Options of a rating against engines: what each name sets, and the value that stands when it
/// is not given.
pub proof fn loi_options_calibrate(
    o: OptionsCalibrate,
    a: Seq<(int, options::VueValeur)>,
    n: u64,
    t: Seq<char>,
)
    requires
        calibrate_conforme(o, a),
    ensures
        reglages_calibrate().len() == 11,
        reglages_calibrate()[0].0 == "--games"@,
        reglages_calibrate()[1].0 == "--movetime"@,
        reglages_calibrate()[2].0 == "--elos"@,
        reglages_calibrate()[3].0 == "--depth"@,
        reglages_calibrate()[4].0 == "--out"@,
        reglages_calibrate()[5].0 == "--engine"@,
        reglages_calibrate()[6].0 == "--threads"@,
        reglages_calibrate()[7].0 == "--seed"@,
        reglages_calibrate()[8].0 == "--recherche-movetime"@,
        reglages_calibrate()[9].0 == "--int8"@,
        reglages_calibrate()[10].0 == "--net"@,
        options::derniere(a, 0) is None ==> o.games == 4,
        options::derniere(a, 0) == Some(options::VueValeur::Naturel(n)) ==> o.games == n,
        options::derniere(a, 1) is None ==> o.movetime == 30,
        options::derniere(a, 1) == Some(options::VueValeur::Naturel(n)) ==> o.movetime == n,
        options::derniere(a, 3) is None ==> o.depth == 2,
        options::derniere(a, 3) == Some(options::VueValeur::Naturel(n)) ==> o.depth == n,
        options::derniere(a, 4) is None ==> o.out@ == "models"@,
        options::derniere(a, 4) == Some(options::VueValeur::Texte(t)) ==> o.out@ == t,
        options::derniere(a, 6) is None ==> o.threads == 4,
        options::derniere(a, 6) == Some(options::VueValeur::Naturel(n)) ==> o.threads == n,
        options::derniere(a, 7) is None ==> o.seed == 0,
        options::derniere(a, 7) == Some(options::VueValeur::Naturel(n)) ==> o.seed == n,
        o.int8 <==> options::derniere(a, 9) is Some,
        options::derniere(a, 10) is None ==> echiquier::vue_option(o.net) is None,
        options::derniere(a, 10) == Some(options::VueValeur::Texte(t)) ==> echiquier::vue_option(o.net) == Some(t),
{
}

/// Options of a distillation: what each name sets, and the value that stands when it
/// is not given.
pub proof fn loi_options_distill(
    o: OptionsDistill,
    a: Seq<(int, options::VueValeur)>,
    n: u64,
    t: Seq<char>,
    b: u32,
)
    requires
        distill_conforme(o, a),
    ensures
        reglages_distill().len() == 9,
        reglages_distill()[0].0 == "--teacher"@,
        reglages_distill()[1].0 == "--sizes"@,
        reglages_distill()[2].0 == "--schema"@,
        reglages_distill()[3].0 == "--student"@,
        reglages_distill()[4].0 == "--positions"@,
        reglages_distill()[5].0 == "--epoques-max"@,
        reglages_distill()[6].0 == "--lr"@,
        reglages_distill()[7].0 == "--seed"@,
        reglages_distill()[8].0 == "--out"@,
        options::derniere(a, 0) is None ==> o.teacher@ == "models/chess_best.bin"@,
        options::derniere(a, 0) == Some(options::VueValeur::Texte(t)) ==> o.teacher@ == t,
        options::derniere(a, 3) is None ==> echiquier::vue_option(o.student) is None,
        options::derniere(a, 3) == Some(options::VueValeur::Texte(t)) ==> echiquier::vue_option(o.student) == Some(t),
        options::derniere(a, 4) is None ==> o.positions == 600_000,
        options::derniere(a, 4) == Some(options::VueValeur::Naturel(n)) ==> o.positions == n,
        options::derniere(a, 5) is None ==> o.epoques_max == 6,
        options::derniere(a, 5) == Some(options::VueValeur::Naturel(n)) ==> o.epoques_max == n,
        options::derniere(a, 6) is None ==> o.lr == 0x3a83_126f,
        options::derniere(a, 6) == Some(options::VueValeur::Reel(b)) ==> o.lr == b,
        options::derniere(a, 7) is None ==> o.seed == 0,
        options::derniere(a, 7) == Some(options::VueValeur::Naturel(n)) ==> o.seed == n,
        options::derniere(a, 8) is None ==> o.out@ == "models/distill_student.bin"@,
        options::derniere(a, 8) == Some(options::VueValeur::Texte(t)) ==> o.out@ == t,
{
}
/// The rating against engines plays the strengths of the list, one of 1320
/// without a list, and gives its search a time only when asked.
pub proof fn loi_forces_calibrees(
    o: OptionsCalibrate,
    a: Seq<(int, options::VueValeur)>,
    l: Seq<u64>,
    n: u64,
)
    requires
        calibrate_conforme(o, a),
    ensures
        options::derniere(a, 2) is None ==> o.elos@ == seq![1320u64],
        options::derniere(a, 2) == Some(options::VueValeur::Liste(l)) ==> o.elos@ == l,
        options::derniere(a, 8) is None ==> o.recherche_movetime is None,
        options::derniere(a, 8) == Some(options::VueValeur::Naturel(n)) ==> o.recherche_movetime
            == Some(n),
        options::derniere(a, 5) is None ==> o.engine@
            == "engines/stockfish/stockfish-windows-x86-64-avx2.exe"@,
{
}

/// The pupil's layers are those of the list; without one, they go from the
/// features of its schema through 1024 and 128 to one value.
pub proof fn loi_tailles_de_l_eleve(
    o: OptionsDistill,
    a: Seq<(int, options::VueValeur)>,
    l: Seq<u64>,
)
    requires
        distill_conforme(o, a),
    ensures
        options::derniere(a, 1) == Some(options::VueValeur::Liste(l)) ==> o.sizes@ == l
            && o.sizes_explicites,
        options::derniere(a, 1) is None ==> !o.sizes_explicites && o.sizes@.len() == 4 && o.sizes@[1]
            == 1024 && o.sizes@[2] == 128 && o.sizes@[3] == 1,
        options::derniere(a, 1) is None && o.schema is Classique773 ==> o.sizes@[0] == 773,
        options::derniere(a, 1) is None && o.schema is RoiZones8 ==> o.sizes@[0] == 6149,
        options::derniere(a, 2) is None ==> o.schema is Classique773,
        options::derniere(a, 2) == Some(
            options::VueValeur::Schema(SchemaFeatures::RoiZones8),
        ) ==> o.schema is RoiZones8,
{
}

/// A factor is a finite number above zero.
pub proof fn loi_fini_positif(b: u32)
    ensures
        fini_positif(b) ==> !crate::reels::nan(b) && crate::reels::cle(b) > 0 && b != 0x7f80_0000,
        b == 0 || b >= 0x7f80_0000 ==> !fini_positif(b),
        0 < b < 0x7f80_0000 ==> fini_positif(b),
{
    crate::reels::loi_pas_un_nombre(b);
}

/// A graft is asked for in exactly one way: a destination alone, a diagnosis, a
/// comparison, noise or scaling; noise and scaling take a source and a
/// destination, nothing else takes a source.
pub proof fn loi_un_seul_mode(a: Seq<(int, options::VueValeur)>)
    requires
        mode_demande(a) is Ok,
    ensures
        ({
            let out = options::texte_donne(a, 1);
            let diagnose = options::texte_donne(a, 2);
            let compare = options::paire_donnee(a, 3);
            let bruit = options::reel_donne(a, 4);
            let echelle = options::reel_donne(a, 5);
            let depuis = options::texte_donne(a, 6);
            match mode_demande(a)->Ok_0 {
                VueMode::Greffe(o) => out == Some(o) && diagnose is None && compare is None
                    && bruit is None && echelle is None && depuis is None,
                VueMode::Diagnose(x) => diagnose == Some(x) && out is None && compare is None
                    && bruit is None && echelle is None && depuis is None,
                VueMode::Compare(x, y) => compare == Some((x, y)) && out is None && diagnose is None
                    && bruit is None && echelle is None && depuis is None,
                VueMode::Bruit { sigma, depuis: d, out: o } => bruit == Some(sigma) && depuis == Some(
                    d,
                ) && out == Some(o) && diagnose is None && compare is None && echelle is None && 0
                    < sigma < 0x7f80_0000,
                VueMode::Echelle { c, depuis: d, out: o } => echelle == Some(c) && depuis == Some(d)
                    && out == Some(o) && diagnose is None && compare is None && bruit is None && 0 < c
                    < 0x7f80_0000,
            }
        }),
        options::derniere(a, 7) != Some(options::VueValeur::Naturel(0)),
{
}

/// Why a graft is refused: more or less than one mode, a noise or a factor that
/// is no finite number above zero, a source or a destination that lacks, a
/// source where none belongs, no position.
pub proof fn loi_refus_de_la_greffe(a: Seq<(int, options::VueValeur)>)
    ensures
        ({
            let out = options::texte_donne(a, 1) is Some;
            let diagnose = options::texte_donne(a, 2) is Some;
            let compare = options::paire_donnee(a, 3) is Some;
            let bruit = options::reel_donne(a, 4);
            let echelle = options::reel_donne(a, 5);
            let depuis = options::texte_donne(a, 6) is Some;
            let r = mode_demande(a);
            &&& !out && !diagnose && !compare && bruit is None && echelle is None ==> r == Err::<
                VueMode,
                RefusGreffe,
            >(RefusGreffe::PasUnMode)
            &&& diagnose && compare ==> r == Err::<VueMode, RefusGreffe>(RefusGreffe::PasUnMode)
            &&& bruit is Some && echelle is Some ==> r == Err::<VueMode, RefusGreffe>(
                RefusGreffe::PasUnMode,
            )
            &&& bruit == Some(0u32) && echelle is None && !diagnose && !compare ==> r == Err::<
                VueMode,
                RefusGreffe,
            >(RefusGreffe::Sigma)
            &&& echelle == Some(0u32) && bruit is None && !diagnose && !compare ==> r == Err::<
                VueMode,
                RefusGreffe,
            >(RefusGreffe::Facteur)
            &&& bruit is Some && 0 < bruit->0 < 0x7f80_0000 && echelle is None && !diagnose
                && !compare && !(out && depuis) ==> r == Err::<VueMode, RefusGreffe>(
                RefusGreffe::SourceOuDestination,
            )
            &&& bruit is None && echelle is None && diagnose && !compare && !out && depuis ==> r
                == Err::<VueMode, RefusGreffe>(RefusGreffe::DepuisReserve)
            &&& bruit is None && echelle is None && diagnose && !compare && !out && !depuis
                && options::derniere(a, 7) == Some(options::VueValeur::Naturel(0)) ==> r == Err::<
                VueMode,
                RefusGreffe,
            >(RefusGreffe::PositionsNulles)
            &&& bruit is None && echelle is None && diagnose && !compare && !out && !depuis
                && options::derniere(a, 7) is None ==> r is Ok
        }),
{
}

/// The grading keeps its files apart from the live game and from each other.
pub proof fn loi_sorties_distinctes(a: bool, b: bool, c: bool, r: Result<(), RefusSortie>)
    requires
        call_ensures(sorties_distinctes, (a, b, c), r),
    ensures
        r is Ok <==> !a && !b && !c,
        a <==> r == Err::<(), RefusSortie>(RefusSortie::OutSurDirect),
        !a && b <==> r == Err::<(), RefusSortie>(RefusSortie::CsvSurDirect),
        !a && !b && c <==> r == Err::<(), RefusSortie>(RefusSortie::MemeFichier),
{
}

/// A trainer takes one labeller at most.
pub proof fn loi_un_seul_etiqueteur(o: OptionsTrain, r: bool)
    requires
        call_ensures(etiqueteurs_exclusifs, (&o,), r),
    ensures
        r <==> !(o.mentor@.len() > 0 && o.oracle@.len() > 0),
{
}

/// Options of the graft, by name.
pub proof fn loi_options_greffe()
    ensures
        reglages_greffe().len() == 9,
        reglages_greffe()[0] == ("--teacher"@, Genre::Texte),
        reglages_greffe()[1] == ("--out"@, Genre::Texte),
        reglages_greffe()[2] == ("--diagnose"@, Genre::Texte),
        reglages_greffe()[3] == ("--compare"@, Genre::Paire),
        reglages_greffe()[4] == ("--bruit"@, Genre::Reel),
        reglages_greffe()[5] == ("--echelle"@, Genre::Reel),
        reglages_greffe()[6] == ("--depuis"@, Genre::Texte),
        reglages_greffe()[7].0 == "--positions"@,
        reglages_greffe()[8].0 == "--seed"@,
{
}

} // verus!
