//! Reading a command line against a table of options.
//!
//! Real numbers are read by the caller: `reels[i]` holds the `f32` bits of
//! argument `i` where it is one.
use vstd::prelude::*;

use crate::echiquier;
use crate::nn::SchemaFeatures;
use crate::texte;

verus! {

/// What an option takes: nothing, a text, a natural number up to a limit, a
/// number of epochs, which is not zero, natural numbers separated by commas, a real number, two
/// texts, or an encoding.
#[derive(Debug, Clone, Copy, PartialEq, Eq, Structural)]
pub enum Genre {
    Drapeau,
    Texte,
    Naturel(u64),
    Positif(u64),
    Liste(u64),
    Reel,
    Paire,
    Schema,
}

/// An option: its name and what it takes.
#[derive(Debug, Clone, Copy)]
pub struct Reglage {
    pub nom: &'static str,
    pub genre: Genre,
}

/// What a table of options says.
pub open spec fn vue_table(t: Seq<Reglage>) -> Seq<(Seq<char>, Genre)> {
    t.map_values(|r: Reglage| (r.nom@, r.genre))
}

/// A value that was given.
#[derive(Debug)]
pub enum Valeur {
    Oui,
    Texte(String),
    Naturel(u64),
    Liste(Vec<u64>),
    Reel(u32),
    Paire(String, String),
    Schema(SchemaFeatures),
}

/// What a value says.
pub enum VueValeur {
    Oui,
    Texte(Seq<char>),
    Naturel(u64),
    Liste(Seq<u64>),
    Reel(u32),
    Paire(Seq<char>, Seq<char>),
    Schema(SchemaFeatures),
}

impl View for Valeur {
    type V = VueValeur;

    open spec fn view(&self) -> VueValeur {
        match self {
            Valeur::Oui => VueValeur::Oui,
            Valeur::Texte(t) => VueValeur::Texte(t@),
            Valeur::Naturel(n) => VueValeur::Naturel(*n),
            Valeur::Liste(l) => VueValeur::Liste(l@),
            Valeur::Reel(b) => VueValeur::Reel(*b),
            Valeur::Paire(a, b) => VueValeur::Paire(a@, b@),
            Valeur::Schema(x) => VueValeur::Schema(*x),
        }
    }
}

/// An option that was given: its rank in the table and its value.
#[derive(Debug)]
pub struct Affectation {
    pub rang: usize,
    pub valeur: Valeur,
}

/// What the given options say, in their order.
pub open spec fn vues_affectations(a: Seq<Affectation>) -> Seq<(int, VueValeur)> {
    a.map_values(|x: Affectation| (x.rang as int, x.valeur@))
}

/// Why a command line is refused.
#[derive(Debug, PartialEq, Eq)]
pub enum ErreurOption {
    /// No option of that name.
    Inconnue(String),
    /// The value of that option is missing.
    Manquante(String),
    /// The value of that option cannot be read.
    Invalide(String, String),
    /// That number of epochs must not be zero.
    Nulle(String),
    /// No encoding of that name, for that option.
    Schema(String, String),
}

/// What a refusal says.
pub enum VueErreur {
    Inconnue(Seq<char>),
    Manquante(Seq<char>),
    Invalide(Seq<char>, Seq<char>),
    Nulle(Seq<char>),
    Schema(Seq<char>, Seq<char>),
}

impl View for ErreurOption {
    type V = VueErreur;

    open spec fn view(&self) -> VueErreur {
        match self {
            ErreurOption::Inconnue(n) => VueErreur::Inconnue(n@),
            ErreurOption::Manquante(n) => VueErreur::Manquante(n@),
            ErreurOption::Invalide(n, v) => VueErreur::Invalide(n@, v@),
            ErreurOption::Nulle(n) => VueErreur::Nulle(n@),
            ErreurOption::Schema(n, v) => VueErreur::Schema(n@, v@),
        }
    }
}

/// The message for a refused command line; `mot` is said of a value that cannot
/// be read.
pub open spec fn message_erreur(e: VueErreur, mot: Seq<char>) -> Seq<char> {
    match e {
        VueErreur::Inconnue(n) => "option inconnue : "@ + n,
        VueErreur::Manquante(n) => "option "@ + n + " : valeur manquante"@,
        VueErreur::Invalide(n, v) => "option "@ + n + " : valeur "@ + mot + " « "@ + v + " »"@,
        VueErreur::Nulle(n) => "option "@ + n + " : 0 refuse (au moins une epoque)"@,
        VueErreur::Schema(n, v) => "option "@ + n + " : « "@ + v
            + " » inconnu (attendu : classique | roi8)"@,
    }
}

impl ErreurOption {
    /// The message of most programs.
    pub fn message(&self) -> (r: String)
        ensures
            r@ == message_erreur(self@, "invalide"@),
    {
        self.message_avec("invalide")
    }

    /// The message of the match, of its grading, of the test bench and of the
    /// duel of two settings.
    pub fn message_illisible(&self) -> (r: String)
        ensures
            r@ == message_erreur(self@, "illisible"@),
    {
        self.message_avec("illisible")
    }

    fn message_avec(&self, mot: &str) -> (r: String)
        ensures
            r@ == message_erreur(self@, mot@),
    {
        let mut m: Vec<char> = Vec::new();
        match self {
            ErreurOption::Inconnue(n) => {
                texte::ajoute_texte(&mut m, "option inconnue : ");
                texte::ajoute_texte(&mut m, n.as_str());
            },
            ErreurOption::Manquante(n) => {
                texte::ajoute_texte(&mut m, "option ");
                texte::ajoute_texte(&mut m, n.as_str());
                texte::ajoute_texte(&mut m, " : valeur manquante");
            },
            ErreurOption::Invalide(n, v) => {
                texte::ajoute_texte(&mut m, "option ");
                texte::ajoute_texte(&mut m, n.as_str());
                texte::ajoute_texte(&mut m, " : valeur ");
                texte::ajoute_texte(&mut m, mot);
                texte::ajoute_texte(&mut m, " « ");
                texte::ajoute_texte(&mut m, v.as_str());
                texte::ajoute_texte(&mut m, " »");
            },
            ErreurOption::Nulle(n) => {
                texte::ajoute_texte(&mut m, "option ");
                texte::ajoute_texte(&mut m, n.as_str());
                texte::ajoute_texte(&mut m, " : 0 refuse (au moins une epoque)");
            },
            ErreurOption::Schema(n, v) => {
                texte::ajoute_texte(&mut m, "option ");
                texte::ajoute_texte(&mut m, n.as_str());
                texte::ajoute_texte(&mut m, " : « ");
                texte::ajoute_texte(&mut m, v.as_str());
                texte::ajoute_texte(&mut m, " » inconnu (attendu : classique | roi8)");
            },
        }
        assert(m@ =~= message_erreur(self@, mot@));
        texte::texte(&m)
    }
}

// ---------------------------------------------------------------------------
// Reading
// ---------------------------------------------------------------------------

/// Rank of an option in the table, from `k` on.
pub open spec fn rang_de(t: Seq<(Seq<char>, Genre)>, nom: Seq<char>, k: int) -> Option<int>
    decreases t.len() - k,
{
    if k < 0 || k >= t.len() {
        None
    } else if t[k].0 == nom {
        Some(k)
    } else {
        rang_de(t, nom, k + 1)
    }
}

/// Arguments that an option takes up, its name counted.
pub open spec fn emprise(g: Genre) -> int {
    match g {
        Genre::Drapeau => 1,
        Genre::Paire => 3,
        _ => 2,
    }
}

/// The value of the option at argument `i`, or why there is none.
pub open spec fn valeur_lue(
    g: Genre,
    args: Seq<Seq<char>>,
    reels: Seq<Option<u32>>,
    i: int,
) -> Result<VueValeur, VueErreur> {
    let nom = args[i];
    if i + emprise(g) > args.len() {
        Err(VueErreur::Manquante(nom))
    } else {
        match g {
            Genre::Drapeau => Ok(VueValeur::Oui),
            Genre::Texte => Ok(VueValeur::Texte(args[i + 1])),
            Genre::Naturel(max) => match texte::naturel_lu(args[i + 1], max as int) {
                Some(n) => Ok(VueValeur::Naturel(n as u64)),
                None => Err(VueErreur::Invalide(nom, args[i + 1])),
            },
            Genre::Reel => match reels[i + 1] {
                Some(b) => Ok(VueValeur::Reel(b)),
                None => Err(VueErreur::Invalide(nom, args[i + 1])),
            },
            Genre::Positif(max) => match texte::naturel_lu(args[i + 1], max as int) {
                Some(n) => if n == 0 {
                    Err(VueErreur::Nulle(nom))
                } else {
                    Ok(VueValeur::Naturel(n as u64))
                },
                None => Err(VueErreur::Invalide(nom, args[i + 1])),
            },
            Genre::Liste(max) => match liste_lue(texte::morceaux(args[i + 1], ','), max as int, 0) {
                Ok(l) => Ok(VueValeur::Liste(l)),
                Err(m) => Err(VueErreur::Invalide(nom, m)),
            },
            Genre::Paire => Ok(VueValeur::Paire(args[i + 1], args[i + 2])),
            Genre::Schema => if args[i + 1] == "classique"@ {
                Ok(VueValeur::Schema(SchemaFeatures::Classique773))
            } else if args[i + 1] == "roi8"@ {
                Ok(VueValeur::Schema(SchemaFeatures::RoiZones8))
            } else {
                Err(VueErreur::Schema(nom, args[i + 1]))
            },
        }
    }
}

/// The numbers that pieces write, each trimmed, from piece `k` on, or the first
/// piece that writes none.
pub open spec fn liste_lue(m: Seq<Seq<char>>, max: int, k: int) -> Result<Seq<u64>, Seq<char>>
    decreases m.len() - k,
{
    if k < 0 || k >= m.len() {
        Ok(Seq::empty())
    } else {
        let c = texte::rogne(m[k]);
        match texte::naturel_lu(c, max) {
            None => Err(c),
            Some(n) => match liste_lue(m, max, k + 1) {
                Ok(s) => Ok(seq![n as u64] + s),
                Err(e) => Err(e),
            },
        }
    }
}

fn lit_liste(t: &str, max: u64) -> (r: Result<Vec<u64>, Vec<char>>)
    ensures
        match r {
            Ok(l) => liste_lue(texte::morceaux(t@, ','), max as int, 0) == Ok::<Seq<u64>, Seq<char>>(
                l@,
            ),
            Err(c) => liste_lue(texte::morceaux(t@, ','), max as int, 0) == Err::<
                Seq<u64>,
                Seq<char>,
            >(c@),
        },
{
    let v: Vec<char> = texte::caracteres(t);
    let m: Vec<Vec<char>> = texte::decoupe(&v, ',');
    let ghost mv = texte::morceaux(t@, ',');
    let ghost tout = liste_lue(mv, max as int, 0);
    let n: usize = m.len();
    let mut l: Vec<u64> = Vec::new();
    let mut k: usize = 0;
    assert(texte::vues(m@).len() == n);
    proof {
        if let Ok(s) = tout {
            assert(l@ + s =~= s);
        }
    }
    while k < n
        invariant
            k <= n,
            n == m@.len(),
            mv.len() == n,
            texte::vues(m@) == mv,
            mv == texte::morceaux(t@, ','),
            tout == liste_lue(mv, max as int, 0),
            match liste_lue(mv, max as int, k as int) {
                Ok(s) => tout == Ok::<Seq<u64>, Seq<char>>(l@ + s),
                Err(e) => tout == Err::<Seq<u64>, Seq<char>>(e),
            },
        decreases n - k,
    {
        assert(texte::vues(m@)[k as int] == m@[k as int]@);
        let c: Vec<char> = texte::rogner(&m[k]);
        match texte::lit_naturel(&c, max) {
            None => {
                return Err(c);
            },
            Some(x) => {
                let ghost l0 = l@;
                l.push(x);
                proof {
                    if let Ok(s) = liste_lue(mv, max as int, k as int + 1) {
                        assert(l0 + (seq![x] + s) =~= l@ + s);
                    }
                }
            },
        }
        k += 1;
    }
    assert(l@ + Seq::<u64>::empty() =~= l@);
    Ok(l)
}

/// The options given from argument `i` on, or the first thing that is wrong.
pub open spec fn lecture(
    t: Seq<(Seq<char>, Genre)>,
    args: Seq<Seq<char>>,
    reels: Seq<Option<u32>>,
    i: int,
) -> Result<Seq<(int, VueValeur)>, VueErreur>
    decreases args.len() - i,
{
    if i < 0 || i >= args.len() {
        Ok(Seq::empty())
    } else {
        match rang_de(t, args[i], 0) {
            None => Err(VueErreur::Inconnue(args[i])),
            Some(k) => match valeur_lue(t[k].1, args, reels, i) {
                Err(e) => Err(e),
                Ok(v) => colle(seq![(k, v)], lecture(t, args, reels, i + emprise(t[k].1))),
            },
        }
    }
}

/// Puts options before those that were read, unless reading failed.
pub open spec fn colle(
    a: Seq<(int, VueValeur)>,
    r: Result<Seq<(int, VueValeur)>, VueErreur>,
) -> Result<Seq<(int, VueValeur)>, VueErreur> {
    match r {
        Ok(s) => Ok(a + s),
        Err(e) => Err(e),
    }
}

fn cherche(t: &Vec<Reglage>, nom: &str) -> (r: Option<usize>)
    ensures
        match r {
            Some(k) => rang_de(vue_table(t@), nom@, 0) == Some(k as int) && k < t@.len(),
            None => rang_de(vue_table(t@), nom@, 0) is None,
        },
{
    let ghost tv = vue_table(t@);
    let mut k: usize = 0;
    while k < t.len()
        invariant
            k <= t@.len(),
            tv == vue_table(t@),
            rang_de(tv, nom@, 0) == rang_de(tv, nom@, k as int),
        decreases t.len() - k,
    {
        assert(tv[k as int].0 == t@[k as int].nom@);
        if texte::egal(t[k].nom, nom) {
            return Some(k);
        }
        k += 1;
    }
    None
}

fn lit_valeur(g: Genre, args: &Vec<String>, reels: &Vec<Option<u32>>, i: usize) -> (r: Result<
    Valeur,
    ErreurOption,
>)
    requires
        i < args@.len(),
        reels@.len() == args@.len(),
    ensures
        match r {
            Ok(v) => valeur_lue(g, texte::vues_textes(args@), reels@, i as int) == Ok::<
                VueValeur,
                VueErreur,
            >(v@),
            Err(e) => valeur_lue(g, texte::vues_textes(args@), reels@, i as int) == Err::<
                VueValeur,
                VueErreur,
            >(e@),
        },
{
    let n: usize = args.len();
    let reste: usize = n - i;
    let besoin: usize = match g {
        Genre::Drapeau => 1,
        Genre::Paire => 3,
        _ => 2,
    };
    if besoin > reste {
        return Err(ErreurOption::Manquante(args[i].clone()));
    }
    match g {
        Genre::Drapeau => Ok(Valeur::Oui),
        Genre::Texte => Ok(Valeur::Texte(args[i + 1].clone())),
        Genre::Naturel(max) => {
            let c: Vec<char> = texte::caracteres(args[i + 1].as_str());
            match texte::lit_naturel(&c, max) {
                Some(x) => Ok(Valeur::Naturel(x)),
                None => Err(ErreurOption::Invalide(args[i].clone(), args[i + 1].clone())),
            }
        },
        Genre::Reel => match reels[i + 1] {
            Some(b) => Ok(Valeur::Reel(b)),
            None => Err(ErreurOption::Invalide(args[i].clone(), args[i + 1].clone())),
        },
        Genre::Positif(max) => {
            let c: Vec<char> = texte::caracteres(args[i + 1].as_str());
            match texte::lit_naturel(&c, max) {
                Some(x) => if x == 0 {
                    Err(ErreurOption::Nulle(args[i].clone()))
                } else {
                    Ok(Valeur::Naturel(x))
                },
                None => Err(ErreurOption::Invalide(args[i].clone(), args[i + 1].clone())),
            }
        },
        Genre::Liste(max) => match lit_liste(args[i + 1].as_str(), max) {
            Ok(l) => Ok(Valeur::Liste(l)),
            Err(c) => Err(ErreurOption::Invalide(args[i].clone(), texte::texte(&c))),
        },
        Genre::Paire => Ok(Valeur::Paire(args[i + 1].clone(), args[i + 2].clone())),
        Genre::Schema => if texte::egal(args[i + 1].as_str(), "classique") {
            Ok(Valeur::Schema(SchemaFeatures::Classique773))
        } else if texte::egal(args[i + 1].as_str(), "roi8") {
            Ok(Valeur::Schema(SchemaFeatures::RoiZones8))
        } else {
            Err(ErreurOption::Schema(args[i].clone(), args[i + 1].clone()))
        },
    }
}

/// Reads a command line: the options in the order in which they were given, or
/// the first thing that is wrong.
pub fn lit(t: &Vec<Reglage>, args: &Vec<String>, reels: &Vec<Option<u32>>) -> (r: Result<
    Vec<Affectation>,
    ErreurOption,
>)
    requires
        reels@.len() == args@.len(),
    ensures
        match r {
            Ok(a) => lecture(vue_table(t@), texte::vues_textes(args@), reels@, 0) == Ok::<
                Seq<(int, VueValeur)>,
                VueErreur,
            >(vues_affectations(a@)),
            Err(e) => lecture(vue_table(t@), texte::vues_textes(args@), reels@, 0) == Err::<
                Seq<(int, VueValeur)>,
                VueErreur,
            >(e@),
        },
{
    let ghost tv = vue_table(t@);
    let ghost av = texte::vues_textes(args@);
    let ghost tout = lecture(tv, av, reels@, 0);
    let mut a: Vec<Affectation> = Vec::new();
    let n: usize = args.len();
    let mut i: usize = 0;
    assert(colle(vues_affectations(a@), tout) == tout) by {
        if let Ok(s) = tout {
            assert(vues_affectations(a@) + s =~= s);
        }
    }
    while i < n
        invariant
            i <= n,
            n == args@.len(),
            reels@.len() == args@.len(),
            tv == vue_table(t@),
            av == texte::vues_textes(args@),
            tout == lecture(tv, av, reels@, 0),
            tout == colle(vues_affectations(a@), lecture(tv, av, reels@, i as int)),
        decreases n - i,
    {
        assert(av[i as int] == args@[i as int]@);
        match cherche(t, args[i].as_str()) {
            None => {
                return Err(ErreurOption::Inconnue(args[i].clone()));
            },
            Some(k) => {
                let g: Genre = t[k].genre;
                assert(tv[k as int].1 == g);
                match lit_valeur(g, args, reels, i) {
                    Err(e) => {
                        return Err(e);
                    },
                    Ok(v) => {
                        let pas: usize = match g {
                            Genre::Drapeau => 1,
                            Genre::Paire => 3,
                            _ => 2,
                        };
                        let ghost avant = vues_affectations(a@);
                        let ghost x = (k as int, v@);
                        a.push(Affectation { rang: k, valeur: v });
                        proof {
                            assert(vues_affectations(a@) =~= avant.push(x));
                            let suite = lecture(tv, av, reels@, i + emprise(g));
                            if let Ok(s) = suite {
                                assert(avant + (seq![x] + s) =~= avant.push(x) + s);
                            }
                        }
                        i += pas;
                    },
                }
            },
        }
    }
    proof {
        assert(vues_affectations(a@) + Seq::<(int, VueValeur)>::empty() =~= vues_affectations(a@));
    }
    Ok(a)
}

// ---------------------------------------------------------------------------
// What was given
// ---------------------------------------------------------------------------

/// The last value given for the option of rank `k`.
pub open spec fn derniere(a: Seq<(int, VueValeur)>, k: int) -> Option<VueValeur>
    decreases a.len(),
{
    if a.len() == 0 {
        None
    } else if a.last().0 == k {
        Some(a.last().1)
    } else {
        derniere(a.drop_last(), k)
    }
}

/// The last text given for an option, if any.
pub open spec fn texte_donne(a: Seq<(int, VueValeur)>, k: int) -> Option<Seq<char>> {
    match derniere(a, k) {
        Some(VueValeur::Texte(t)) => Some(t),
        _ => None,
    }
}

/// The last text given for an option, else the usual one.
pub open spec fn texte_ou(a: Seq<(int, VueValeur)>, k: int, defaut: Seq<char>) -> Seq<char> {
    match texte_donne(a, k) {
        Some(t) => t,
        None => defaut,
    }
}

/// The last number given for an option, else the usual one.
pub open spec fn naturel_ou(a: Seq<(int, VueValeur)>, k: int, defaut: u64) -> u64 {
    match derniere(a, k) {
        Some(VueValeur::Naturel(n)) => n,
        _ => defaut,
    }
}

/// The last real number given for an option, if any.
pub open spec fn reel_donne(a: Seq<(int, VueValeur)>, k: int) -> Option<u32> {
    match derniere(a, k) {
        Some(VueValeur::Reel(b)) => Some(b),
        _ => None,
    }
}

/// The last real number given for an option, else the usual one.
pub open spec fn reel_ou(a: Seq<(int, VueValeur)>, k: int, defaut: u32) -> u32 {
    match reel_donne(a, k) {
        Some(b) => b,
        None => defaut,
    }
}

/// Was the option given?
pub open spec fn donnee(a: Seq<(int, VueValeur)>, k: int) -> bool {
    derniere(a, k) is Some
}

/// The last two texts given for an option, if any.
pub open spec fn paire_donnee(a: Seq<(int, VueValeur)>, k: int) -> Option<(Seq<char>, Seq<char>)> {
    match derniere(a, k) {
        Some(VueValeur::Paire(x, y)) => Some((x, y)),
        _ => None,
    }
}

fn rang_dernier(a: &Vec<Affectation>, k: usize) -> (r: Option<usize>)
    ensures
        match r {
            Some(i) => i < a@.len() && derniere(vues_affectations(a@), k as int) == Some(
                a@[i as int].valeur@,
            ),
            None => derniere(vues_affectations(a@), k as int) is None,
        },
{
    let ghost av = vues_affectations(a@);
    let mut n: usize = a.len();
    assert(av.take(n as int) =~= av);
    while n > 0
        invariant
            n <= a@.len(),
            av == vues_affectations(a@),
            derniere(av, k as int) == derniere(av.take(n as int), k as int),
        decreases n,
    {
        assert(av.take(n as int).last() == av[n as int - 1]);
        assert(av[n as int - 1] == (a@[n as int - 1].rang as int, a@[n as int - 1].valeur@));
        if a[n - 1].rang == k {
            return Some(n - 1);
        }
        assert(av.take(n as int).drop_last() =~= av.take(n as int - 1));
        n -= 1;
    }
    None
}

/// The last text given for an option, if any.
pub fn lit_texte(a: &Vec<Affectation>, k: usize) -> (r: Option<String>)
    ensures
        echiquier::vue_option(r) == texte_donne(vues_affectations(a@), k as int),
{
    match rang_dernier(a, k) {
        Some(i) => match &a[i].valeur {
            Valeur::Texte(t) => Some(t.clone()),
            _ => None,
        },
        None => None,
    }
}

/// The last text given for an option, else the usual one.
pub fn texte_ou_defaut(a: &Vec<Affectation>, k: usize, defaut: &str) -> (r: String)
    ensures
        r@ == texte_ou(vues_affectations(a@), k as int, defaut@),
{
    match lit_texte(a, k) {
        Some(t) => t,
        None => defaut.to_string(),
    }
}

/// The last number given for an option, else the usual one.
pub fn naturel_ou_defaut(a: &Vec<Affectation>, k: usize, defaut: u64) -> (r: u64)
    ensures
        r == naturel_ou(vues_affectations(a@), k as int, defaut),
{
    match rang_dernier(a, k) {
        Some(i) => match &a[i].valeur {
            Valeur::Naturel(n) => *n,
            _ => defaut,
        },
        None => defaut,
    }
}

/// The last real number given for an option, if any.
pub fn lit_reel(a: &Vec<Affectation>, k: usize) -> (r: Option<u32>)
    ensures
        r == reel_donne(vues_affectations(a@), k as int),
{
    match rang_dernier(a, k) {
        Some(i) => match &a[i].valeur {
            Valeur::Reel(b) => Some(*b),
            _ => None,
        },
        None => None,
    }
}

/// The last real number given for an option, else the usual one.
pub fn reel_ou_defaut(a: &Vec<Affectation>, k: usize, defaut: u32) -> (r: u32)
    ensures
        r == reel_ou(vues_affectations(a@), k as int, defaut),
{
    match lit_reel(a, k) {
        Some(b) => b,
        None => defaut,
    }
}

/// Was the option given?
pub fn est_donnee(a: &Vec<Affectation>, k: usize) -> (r: bool)
    ensures
        r == donnee(vues_affectations(a@), k as int),
{
    rang_dernier(a, k).is_some()
}

/// The last two texts given for an option, if any.
pub fn lit_paire(a: &Vec<Affectation>, k: usize) -> (r: Option<(String, String)>)
    ensures
        match r {
            Some((x, y)) => paire_donnee(vues_affectations(a@), k as int) == Some((x@, y@)),
            None => paire_donnee(vues_affectations(a@), k as int) is None,
        },
{
    match rang_dernier(a, k) {
        Some(i) => match &a[i].valeur {
            Valeur::Paire(x, y) => Some((x.clone(), y.clone())),
            _ => None,
        },
        None => None,
    }
}

/// The last numbers given for an option, if any.
pub open spec fn liste_donnee(a: Seq<(int, VueValeur)>, k: int) -> Option<Seq<u64>> {
    match derniere(a, k) {
        Some(VueValeur::Liste(l)) => Some(l),
        _ => None,
    }
}

/// The last numbers given for an option, if any.
pub fn lit_naturels(a: &Vec<Affectation>, k: usize) -> (r: Option<Vec<u64>>)
    ensures
        match r {
            Some(l) => liste_donnee(vues_affectations(a@), k as int) == Some(l@),
            None => liste_donnee(vues_affectations(a@), k as int) is None,
        },
{
    match rang_dernier(a, k) {
        Some(i) => match &a[i].valeur {
            Valeur::Liste(l) => {
                let mut r: Vec<u64> = Vec::new();
                let mut j: usize = 0;
                while j < l.len()
                    invariant
                        j <= l@.len(),
                        r@ == l@.take(j as int),
                    decreases l.len() - j,
                {
                    r.push(l[j]);
                    assert(r@ =~= l@.take(j as int + 1));
                    j += 1;
                }
                assert(l@.take(j as int) =~= l@);
                Some(r)
            },
            _ => None,
        },
        None => None,
    }
}

/// The last number given for an option, if any.
pub open spec fn naturel_donne(a: Seq<(int, VueValeur)>, k: int) -> Option<u64> {
    match derniere(a, k) {
        Some(VueValeur::Naturel(n)) => Some(n),
        _ => None,
    }
}

/// The last number given for an option, if any.
pub fn lit_nombre(a: &Vec<Affectation>, k: usize) -> (r: Option<u64>)
    ensures
        r == naturel_donne(vues_affectations(a@), k as int),
{
    match rang_dernier(a, k) {
        Some(i) => match &a[i].valeur {
            Valeur::Naturel(n) => Some(*n),
            _ => None,
        },
        None => None,
    }
}

/// The last encoding given for an option, else the dense one.
pub open spec fn schema_ou(a: Seq<(int, VueValeur)>, k: int) -> SchemaFeatures {
    match derniere(a, k) {
        Some(VueValeur::Schema(x)) => x,
        _ => SchemaFeatures::Classique773,
    }
}

/// The last encoding given for an option, else the dense one.
pub fn schema_ou_defaut(a: &Vec<Affectation>, k: usize) -> (r: SchemaFeatures)
    ensures
        r == schema_ou(vues_affectations(a@), k as int),
{
    match rang_dernier(a, k) {
        Some(i) => match &a[i].valeur {
            Valeur::Schema(x) => *x,
            _ => SchemaFeatures::Classique773,
        },
        None => SchemaFeatures::Classique773,
    }
}

/// An option given again replaces what was given before, and no other.
pub proof fn loi_derniere_gagne(a: Seq<(int, VueValeur)>, k: int, v: VueValeur, m: int)
    ensures
        derniere(a.push((k, v)), k) == Some(v),
        m != k ==> derniere(a.push((k, v)), m) == derniere(a, m),
{
    assert(a.push((k, v)).drop_last() =~= a);
}

/// Every option that was read stands in the table and its value is of the kind
/// that the table says.
pub proof fn loi_valeurs_du_genre(
    t: Seq<(Seq<char>, Genre)>,
    args: Seq<Seq<char>>,
    reels: Seq<Option<u32>>,
    i: int,
    n: int,
)
    requires
        lecture(t, args, reels, i) is Ok,
        0 <= n < lecture(t, args, reels, i)->Ok_0.len(),
    ensures
        ({
            let x = lecture(t, args, reels, i)->Ok_0[n];
            &&& 0 <= x.0 < t.len()
            &&& match t[x.0].1 {
                Genre::Drapeau => x.1 is Oui,
                Genre::Texte => x.1 is Texte,
                Genre::Naturel(max) => x.1 matches VueValeur::Naturel(v) && v <= max,
                Genre::Positif(max) => x.1 matches VueValeur::Naturel(v) && 0 < v <= max,
                Genre::Liste(_) => x.1 is Liste,
                Genre::Reel => x.1 is Reel,
                Genre::Paire => x.1 is Paire,
                Genre::Schema => x.1 is Schema,
            }
        }),
    decreases args.len() - i,
{
    if 0 <= i < args.len() {
        lemme_rang(t, args[i], 0);
        let k = rang_de(t, args[i], 0)->0;
        let suite = lecture(t, args, reels, i + emprise(t[k].1));
        if t[k].1 is Naturel || t[k].1 is Positif {
            let c = args[i + 1];
            let d = if c.len() > 1 && c[0] == '+' {
                texte::apres_signe(c)
            } else {
                c
            };
            texte::lemme_valeur_positive(d);
        }
        if n > 0 {
            assert((seq![(k, valeur_lue(t[k].1, args, reels, i)->Ok_0)] + suite->Ok_0)[n]
                == suite->Ok_0[n - 1]);
            loi_valeurs_du_genre(t, args, reels, i + emprise(t[k].1), n - 1);
        }
    }
}

proof fn lemme_rang(t: Seq<(Seq<char>, Genre)>, nom: Seq<char>, k: int)
    requires
        0 <= k,
    ensures
        rang_de(t, nom, k) matches Some(r) ==> k <= r < t.len() && t[r].0 == nom,
    decreases t.len() - k,
{
    if k < t.len() && t[k].0 != nom {
        lemme_rang(t, nom, k + 1);
    }
}

/// An option is found at the first place of its name in the table.
pub proof fn loi_rang_d_une_option(t: Seq<(Seq<char>, Genre)>, nom: Seq<char>, k: int)
    requires
        0 <= k <= t.len(),
    ensures
        match rang_de(t, nom, k) {
            Some(r) => k <= r < t.len() && t[r].0 == nom && forall|j: int|
                k <= j < r ==> (#[trigger] t[j]).0 != nom,
            None => forall|j: int| k <= j < t.len() ==> (#[trigger] t[j]).0 != nom,
        },
    decreases t.len() - k,
{
    if k < t.len() && t[k].0 != nom {
        loi_rang_d_une_option(t, nom, k + 1);
    }
}

/// A flag takes no value, a pair two, anything else one; an option short of
/// its values is refused.
pub proof fn loi_emprise(g: Genre, args: Seq<Seq<char>>, reels: Seq<Option<u32>>, i: int)
    requires
        0 <= i < args.len(),
    ensures
        emprise(Genre::Drapeau) == 1,
        emprise(Genre::Paire) == 3,
        g !is Drapeau && g !is Paire ==> emprise(g) == 2,
        i + emprise(g) > args.len() <==> valeur_lue(g, args, reels, i) == Err::<VueValeur, VueErreur>(
            VueErreur::Manquante(args[i]),
        ),
        valeur_lue(Genre::Drapeau, args, reels, i) == Ok::<VueValeur, VueErreur>(VueValeur::Oui),
{
}

/// What the value of an option is: a text as it stands, a number that can be
/// read within its bound, a real number, a number above zero where none is
/// asked for, a pair as it stands, one of two schemas.
pub proof fn loi_valeur_d_une_option(
    args: Seq<Seq<char>>,
    reels: Seq<Option<u32>>,
    i: int,
    max: u64,
    v: int,
)
    requires
        0 <= i,
        i + 2 < args.len(),
        args.len() == reels.len(),
        0 <= v <= max,
    ensures
        valeur_lue(Genre::Texte, args, reels, i) == Ok::<VueValeur, VueErreur>(
            VueValeur::Texte(args[i + 1]),
        ),
        texte::naturel_lu(args[i + 1], max as int) == Some(v) ==> valeur_lue(
            Genre::Naturel(max),
            args,
            reels,
            i,
        ) == Ok::<VueValeur, VueErreur>(VueValeur::Naturel(v as u64)),
        texte::naturel_lu(args[i + 1], max as int) is None ==> valeur_lue(
            Genre::Naturel(max),
            args,
            reels,
            i,
        ) == Err::<VueValeur, VueErreur>(VueErreur::Invalide(args[i], args[i + 1])),
        texte::naturel_lu(args[i + 1], max as int) == Some(v) && v > 0 ==> valeur_lue(
            Genre::Positif(max),
            args,
            reels,
            i,
        ) == Ok::<VueValeur, VueErreur>(VueValeur::Naturel(v as u64)),
        texte::naturel_lu(args[i + 1], max as int) == Some(0int) ==> valeur_lue(
            Genre::Positif(max),
            args,
            reels,
            i,
        ) == Err::<VueValeur, VueErreur>(VueErreur::Nulle(args[i])),
        reels[i + 1] is None ==> valeur_lue(Genre::Reel, args, reels, i) == Err::<
            VueValeur,
            VueErreur,
        >(VueErreur::Invalide(args[i], args[i + 1])),
        reels[i + 1] is Some ==> valeur_lue(Genre::Reel, args, reels, i) == Ok::<
            VueValeur,
            VueErreur,
        >(VueValeur::Reel(reels[i + 1]->0)),
        valeur_lue(Genre::Paire, args, reels, i) == Ok::<VueValeur, VueErreur>(
            VueValeur::Paire(args[i + 1], args[i + 2]),
        ),
        args[i + 1] == "classique"@ ==> valeur_lue(Genre::Schema, args, reels, i) == Ok::<
            VueValeur,
            VueErreur,
        >(VueValeur::Schema(SchemaFeatures::Classique773)),
        args[i + 1] == "roi8"@ ==> valeur_lue(Genre::Schema, args, reels, i) == Ok::<
            VueValeur,
            VueErreur,
        >(VueValeur::Schema(SchemaFeatures::RoiZones8)),
        args[i + 1] != "classique"@ && args[i + 1] != "roi8"@ ==> valeur_lue(
            Genre::Schema,
            args,
            reels,
            i,
        ) == Err::<VueValeur, VueErreur>(VueErreur::Schema(args[i], args[i + 1])),
{
    reveal_strlit("classique");
    reveal_strlit("roi8");
    assert("classique"@.len() == 9 && "roi8"@.len() == 4);
}

/// A list is read item by item, each trimmed: every one is a number within the
/// bound, or the first that is none is named.
pub proof fn loi_liste_lue(m: Seq<Seq<char>>, max: int, k: int)
    requires
        0 <= k <= m.len(),
        0 <= max <= u64::MAX,
    ensures
        match liste_lue(m, max, k) {
            Ok(l) => l.len() == m.len() - k && forall|i: int|
                0 <= i < l.len() ==> texte::naturel_lu(texte::rogne(m[k + i]), max) == Some(
                    #[trigger] l[i] as int,
                ),
            Err(c) => exists|i: int|
                k <= i < m.len() && c == texte::rogne(#[trigger] m[i]) && texte::naturel_lu(c, max)
                    is None,
        },
    decreases m.len() - k,
{
    if k < m.len() {
        let c = texte::rogne(m[k]);
        texte::loi_naturel_lu(c, max);
        match texte::naturel_lu(c, max) {
            None => {
                assert(c == texte::rogne(m[k]));
            },
            Some(n) => {
                loi_liste_lue(m, max, k + 1);
                match liste_lue(m, max, k + 1) {
                    Ok(s) => {
                        let l = seq![n as u64] + s;
                        assert forall|i: int| 0 <= i < l.len() implies texte::naturel_lu(
                            texte::rogne(m[k + i]),
                            max,
                        ) == Some(#[trigger] l[i] as int) by {
                            if i > 0 {
                                assert(l[i] == s[i - 1]);
                                assert(m[k + i] == m[k + 1 + (i - 1)]);
                            }
                        }
                    },
                    Err(e) => {},
                }
            },
        }
    }
}

/// A command line is read from left to right: an unknown name or a value that
/// cannot be read stops it there, a good one is kept and the rest follows.
pub proof fn loi_lecture(
    t: Seq<(Seq<char>, Genre)>,
    args: Seq<Seq<char>>,
    reels: Seq<Option<u32>>,
    i: int,
    r: int,
)
    requires
        0 <= i < args.len(),
        0 <= r < t.len(),
    ensures
        lecture(t, args, reels, args.len() as int) == Ok::<Seq<(int, VueValeur)>, VueErreur>(
            Seq::empty(),
        ),
        (forall|j: int| 0 <= j < t.len() ==> (#[trigger] t[j]).0 != args[i]) ==> lecture(
            t,
            args,
            reels,
            i,
        ) == Err::<Seq<(int, VueValeur)>, VueErreur>(VueErreur::Inconnue(args[i])),
        t[r].0 == args[i] && (forall|j: int| 0 <= j < r ==> (#[trigger] t[j]).0 != args[i]) ==> match (
            valeur_lue(t[r].1, args, reels, i),
            lecture(t, args, reels, i + emprise(t[r].1)),
        ) {
            (Err(e), _) => lecture(t, args, reels, i) == Err::<Seq<(int, VueValeur)>, VueErreur>(e),
            (Ok(v), Err(e)) => lecture(t, args, reels, i) == Err::<Seq<(int, VueValeur)>, VueErreur>(
                e,
            ),
            (Ok(v), Ok(s)) => lecture(t, args, reels, i) == Ok::<Seq<(int, VueValeur)>, VueErreur>(
                seq![(r, v)] + s,
            ),
        },
{
    loi_rang_d_une_option(t, args[i], 0);
}

/// What an option gives: its last value where that is of the right sort, what
/// stands by default otherwise.
pub proof fn loi_valeurs_donnees(
    a: Seq<(int, VueValeur)>,
    k: int,
    t: Seq<char>,
    n: u64,
    b: u32,
    l: Seq<u64>,
)
    ensures
        derniere(a, k) == Some(VueValeur::Texte(t)) ==> texte_donne(a, k) == Some(t) && texte_ou(
            a,
            k,
            Seq::empty(),
        ) == t,
        derniere(a, k) == Some(VueValeur::Naturel(n)) ==> naturel_donne(a, k) == Some(n)
            && naturel_ou(a, k, 0) == n,
        derniere(a, k) == Some(VueValeur::Reel(b)) ==> reel_donne(a, k) == Some(b) && reel_ou(
            a,
            k,
            0,
        ) == b,
        derniere(a, k) == Some(VueValeur::Liste(l)) ==> liste_donnee(a, k) == Some(l),
        derniere(a, k) is None ==> texte_donne(a, k) is None && naturel_donne(a, k) is None
            && reel_donne(a, k) is None && liste_donnee(a, k) is None && paire_donnee(a, k) is None
            && texte_ou(a, k, t) == t && naturel_ou(a, k, n) == n && reel_ou(a, k, b) == b && !donnee(
            a,
            k,
        ) && schema_ou(a, k) is Classique773,
        derniere(a, k) is Some ==> donnee(a, k),
{
}

/// What a refused command line is answered.
pub proof fn loi_messages_d_erreur(n: Seq<char>, v: Seq<char>, mot: Seq<char>)
    ensures
        message_erreur(VueErreur::Inconnue(n), mot) == "option inconnue : "@ + n,
        message_erreur(VueErreur::Manquante(n), mot) == "option "@ + n + " : valeur manquante"@,
        message_erreur(VueErreur::Invalide(n, v), mot) == "option "@ + n + " : valeur "@ + mot
            + " « "@ + v + " »"@,
        message_erreur(VueErreur::Nulle(n), mot) == "option "@ + n
            + " : 0 refuse (au moins une epoque)"@,
        message_erreur(VueErreur::Schema(n, v), mot) == "option "@ + n + " : « "@ + v
            + " » inconnu (attendu : classique | roi8)"@,
{
}

} // verus!
