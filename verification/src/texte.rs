//! Text as sequences of characters: decimal numbers, splitting, trimming.
use vstd::prelude::*;

verus! {

// ---------------------------------------------------------------------------
// Characters and conversions
// ---------------------------------------------------------------------------

/// `String::push` of std appends one character at the end of the text.
pub assume_specification[ String::push ](s: &mut String, c: char)
    ensures
        final(s)@ == old(s)@.push(c),
;

/// The characters of a text, in order.
pub fn caracteres(s: &str) -> (v: Vec<char>)
    ensures
        v@ == s@,
{
    let mut v: Vec<char> = Vec::new();
    for c in it: s.chars()
        invariant
            it.seq() == s@,
            v@ == s@.take(it.index() as int),
    {
        v.push(c);
        assert(s@.take(it.index() as int + 1) =~= s@.take(it.index() as int).push(c));
    }
    assert(s@.take(s@.len() as int) =~= s@);
    v
}

/// The code point of a character.
pub fn code(c: char) -> (u: u32)
    ensures
        u == c as int,
{
    c as u32
}

/// The text made of the given characters.
pub fn texte(v: &Vec<char>) -> (s: String)
    ensures
        s@ == v@,
{
    let mut s: String = String::new();
    let mut i: usize = 0;
    while i < v.len()
        invariant
            i <= v.len(),
            s@ == v@.take(i as int),
        decreases v.len() - i,
    {
        s.push(v[i]);
        assert(v@.take(i as int + 1) =~= v@.take(i as int).push(v@[i as int]));
        i += 1;
    }
    assert(v@.take(v@.len() as int) =~= v@);
    s
}


/// Are two texts the same, character for character?
pub fn memes(a: &Vec<char>, b: &Vec<char>) -> (r: bool)
    ensures
        r == (a@ == b@),
{
    if a.len() != b.len() {
        return false;
    }
    let mut i: usize = 0;
    while i < a.len()
        invariant
            i <= a.len(),
            a.len() == b.len(),
            forall|k: int| 0 <= k < i ==> a@[k] == b@[k],
        decreases a.len() - i,
    {
        if a[i] != b[i] {
            assert(a@[i as int] != b@[i as int]);
            return false;
        }
        i += 1;
    }
    assert(a@ =~= b@);
    true
}

/// Is a text equal to another one?
pub fn egal(a: &str, b: &str) -> (r: bool)
    ensures
        r == (a@ == b@),
{
    let va: Vec<char> = caracteres(a);
    let vb: Vec<char> = caracteres(b);
    memes(&va, &vb)
}

/// A copy of the characters `debut..fin`.
pub fn extrait(v: &Vec<char>, debut: usize, fin: usize) -> (r: Vec<char>)
    requires
        debut <= fin <= v@.len(),
    ensures
        r@ == v@.subrange(debut as int, fin as int),
{
    let mut r: Vec<char> = Vec::new();
    let mut i: usize = debut;
    while i < fin
        invariant
            debut <= i <= fin <= v@.len(),
            r@ == v@.subrange(debut as int, i as int),
        decreases fin - i,
    {
        r.push(v[i]);
        assert(v@.subrange(debut as int, i as int + 1) =~= v@.subrange(
            debut as int,
            i as int,
        ).push(v@[i as int]));
        i += 1;
    }
    r
}

/// Appends the characters of `b` behind `a`.
pub fn ajoute(a: &mut Vec<char>, b: &Vec<char>)
    ensures
        final(a)@ == old(a)@ + b@,
{
    let mut i: usize = 0;
    while i < b.len()
        invariant
            i <= b.len(),
            a@ == old(a)@ + b@.take(i as int),
        decreases b.len() - i,
    {
        a.push(b[i]);
        assert(b@.take(i as int + 1) =~= b@.take(i as int).push(b@[i as int]));
        assert(a@ =~= old(a)@ + b@.take(i as int + 1));
        i += 1;
    }
    assert(b@.take(b@.len() as int) =~= b@);
}

/// Appends a text behind `a`.
pub fn ajoute_texte(a: &mut Vec<char>, s: &str)
    ensures
        final(a)@ == old(a)@ + s@,
{
    let v: Vec<char> = caracteres(s);
    ajoute(a, &v);
}

// ---------------------------------------------------------------------------
// White space
// ---------------------------------------------------------------------------

/// White space: the characters with the Unicode property `White_Space`.
pub open spec fn blanc(c: char) -> bool {
    let u = c as int;
    ||| 9 <= u <= 13
    ||| u == 0x20
    ||| u == 0x85
    ||| u == 0xA0
    ||| u == 0x1680
    ||| 0x2000 <= u <= 0x200A
    ||| u == 0x2028
    ||| u == 0x2029
    ||| u == 0x202F
    ||| u == 0x205F
    ||| u == 0x3000
}

/// Is the character white space?
pub fn est_blanc(c: char) -> (r: bool)
    ensures
        r == blanc(c),
{
    let u: u32 = code(c);
    (9 <= u && u <= 13) || u == 0x20 || u == 0x85 || u == 0xA0 || u == 0x1680 || (0x2000 <= u && u
        <= 0x200A) || u == 0x2028 || u == 0x2029 || u == 0x202F || u == 0x205F || u == 0x3000
}

/// The text without its trailing white space.
pub open spec fn sans_fin(s: Seq<char>) -> Seq<char>
    decreases s.len(),
{
    if s.len() > 0 && blanc(s.last()) {
        sans_fin(s.drop_last())
    } else {
        s
    }
}

/// The text without its leading white space.
pub open spec fn sans_debut(s: Seq<char>) -> Seq<char>
    decreases s.len(),
{
    if s.len() > 0 && blanc(s[0]) {
        sans_debut(s.subrange(1, s.len() as int))
    } else {
        s
    }
}

/// The text without leading and trailing white space.
pub open spec fn rogne(s: Seq<char>) -> Seq<char> {
    sans_debut(sans_fin(s))
}

/// Removes trailing white space.
pub fn rogne_fin(v: &Vec<char>) -> (r: Vec<char>)
    ensures
        r@ == sans_fin(v@),
{
    let mut n: usize = v.len();
    assert(v@.subrange(0, n as int) =~= v@);
    while n > 0 && est_blanc(v[n - 1])
        invariant
            n <= v@.len(),
            sans_fin(v@.subrange(0, n as int)) == sans_fin(v@),
        decreases n,
    {
        assert(v@.subrange(0, n as int).drop_last() =~= v@.subrange(0, n as int - 1));
        n = n - 1;
    }
    assert(n > 0 ==> v@.subrange(0, n as int).last() == v@[n as int - 1]);
    extrait(v, 0, n)
}

/// Removes leading and trailing white space.
pub fn rogner(v: &Vec<char>) -> (r: Vec<char>)
    ensures
        r@ == rogne(v@),
{
    let f: Vec<char> = rogne_fin(v);
    let mut i: usize = 0;
    assert(f@.subrange(0, f@.len() as int) =~= f@);
    while i < f.len() && est_blanc(f[i])
        invariant
            i <= f@.len(),
            sans_debut(f@.subrange(i as int, f@.len() as int)) == sans_debut(f@),
        decreases f.len() - i,
    {
        let ghost reste = f@.subrange(i as int, f@.len() as int);
        assert(reste.subrange(1, reste.len() as int) =~= f@.subrange(i as int + 1, f@.len() as int));
        i += 1;
    }
    assert(i < f@.len() ==> f@.subrange(i as int, f@.len() as int)[0] == f@[i as int]);
    extrait(&f, i, f.len())
}

// ---------------------------------------------------------------------------
// Splitting
// ---------------------------------------------------------------------------

/// The pieces of `s` between the separators; always one more than there are
/// separators.
pub open spec fn morceaux(s: Seq<char>, sep: char) -> Seq<Seq<char>>
    decreases s.len(),
{
    if s.len() == 0 {
        seq![Seq::<char>::empty()]
    } else {
        let d = morceaux(s.drop_last(), sep);
        if s.last() == sep {
            d.push(Seq::<char>::empty())
        } else {
            d.drop_last().push(d.last().push(s.last()))
        }
    }
}

/// The views of a list of character lists.
pub open spec fn vues(v: Seq<Vec<char>>) -> Seq<Seq<char>> {
    v.map_values(|x: Vec<char>| x@)
}

/// The views of a list of texts.
pub open spec fn vues_textes(v: Seq<String>) -> Seq<Seq<char>> {
    v.map_values(|x: String| x@)
}

pub proof fn lemme_morceaux_non_vide(s: Seq<char>, sep: char)
    ensures
        morceaux(s, sep).len() > 0,
    decreases s.len(),
{
    if s.len() > 0 {
        lemme_morceaux_non_vide(s.drop_last(), sep);
    }
}

/// Splits at every `sep`.
pub fn decoupe(s: &Vec<char>, sep: char) -> (r: Vec<Vec<char>>)
    ensures
        vues(r@) == morceaux(s@, sep),
{
    let mut faits: Vec<Vec<char>> = Vec::new();
    let mut courant: Vec<char> = Vec::new();
    let mut i: usize = 0;
    assert(vues(faits@).push(courant@) =~= morceaux(s@.take(0), sep));
    while i < s.len()
        invariant
            i <= s@.len(),
            vues(faits@).push(courant@) == morceaux(s@.take(i as int), sep),
        decreases s.len() - i,
    {
        let c: char = s[i];
        let ghost t = s@.take(i as int + 1);
        let ghost avant = vues(faits@).push(courant@);
        assert(t.drop_last() =~= s@.take(i as int));
        assert(avant.last() == courant@);
        assert(avant.drop_last() =~= vues(faits@));
        if c == sep {
            faits.push(courant);
            courant = Vec::new();
            assert(vues(faits@) =~= avant);
        } else {
            courant.push(c);
        }
        assert(vues(faits@).push(courant@) =~= morceaux(t, sep));
        i += 1;
    }
    assert(s@.take(s@.len() as int) =~= s@);
    let ghost avant = vues(faits@).push(courant@);
    faits.push(courant);
    assert(vues(faits@) =~= avant);
    faits
}

/// The pieces, separated by `sep`.
pub open spec fn joint(m: Seq<Seq<char>>, sep: char) -> Seq<char>
    decreases m.len(),
{
    if m.len() == 0 {
        Seq::empty()
    } else if m.len() == 1 {
        m[0]
    } else {
        joint(m.drop_last(), sep).push(sep) + m.last()
    }
}

/// Joins the pieces with `sep` between them.
pub fn joindre(m: &Vec<Vec<char>>, sep: char) -> (r: Vec<char>)
    ensures
        r@ == joint(vues(m@), sep),
{
    let mut r: Vec<char> = Vec::new();
    let mut i: usize = 0;
    while i < m.len()
        invariant
            i <= m@.len(),
            r@ == joint(vues(m@).take(i as int), sep),
        decreases m.len() - i,
    {
        let ghost t = vues(m@).take(i as int + 1);
        assert(t.drop_last() =~= vues(m@).take(i as int));
        assert(t.last() == m@[i as int]@);
        if i > 0 {
            r.push(sep);
        }
        ajoute(&mut r, &m[i]);
        assert(i == 0 ==> r@ =~= m@[0]@);
        i += 1;
    }
    assert(vues(m@).take(m@.len() as int) =~= vues(m@));
    r
}

/// Does the text start with `debut`?
pub open spec fn commence_par(s: Seq<char>, debut: Seq<char>) -> bool {
    s.len() >= debut.len() && s.take(debut.len() as int) == debut
}

/// Does the text start with `debut`?
pub fn debute_par(s: &Vec<char>, debut: &str) -> (r: bool)
    ensures
        r == commence_par(s@, debut@),
{
    let d: Vec<char> = caracteres(debut);
    if s.len() < d.len() {
        return false;
    }
    let tete: Vec<char> = extrait(s, 0, d.len());
    assert(s@.subrange(0, d@.len() as int) =~= s@.take(d@.len() as int));
    memes(&tete, &d)
}

/// Does the character occur in the text?
pub open spec fn contient(s: Seq<char>, c: char) -> bool {
    exists|i: int| 0 <= i < s.len() && s[i] == c
}

pub proof fn lemme_morceaux_sans(s: Seq<char>, sep: char)
    requires
        !contient(s, sep),
    ensures
        morceaux(s, sep) == seq![s],
    decreases s.len(),
{
    if s.len() == 0 {
        assert(s =~= Seq::empty());
    } else {
        assert(s[s.len() - 1] != sep);
        assert forall|i: int| 0 <= i < s.drop_last().len() implies s.drop_last()[i] != sep by {
            assert(s[i] != sep);
        }
        lemme_morceaux_sans(s.drop_last(), sep);
        assert(s.drop_last().push(s.last()) =~= s);
        assert(morceaux(s, sep) =~= seq![s]);
    }
}

pub proof fn lemme_morceaux_ajout(a: Seq<char>, b: Seq<char>, sep: char)
    requires
        !contient(b, sep),
    ensures
        morceaux(a.push(sep) + b, sep) == morceaux(a, sep).push(b),
    decreases b.len(),
{
    let s = a.push(sep) + b;
    if b.len() == 0 {
        assert(s =~= a.push(sep));
        assert(s.drop_last() =~= a);
        assert(b =~= Seq::empty());
    } else {
        assert(b[b.len() - 1] != sep);
        assert forall|i: int| 0 <= i < b.drop_last().len() implies b.drop_last()[i] != sep by {
            assert(b[i] != sep);
        }
        lemme_morceaux_ajout(a, b.drop_last(), sep);
        assert(s.drop_last() =~= a.push(sep) + b.drop_last());
        assert(s.last() == b.last());
        assert(b.drop_last().push(b.last()) =~= b);
        let d = morceaux(a, sep).push(b.drop_last());
        assert(d.drop_last() =~= morceaux(a, sep));
        assert(morceaux(s, sep) =~= morceaux(a, sep).push(b));
    }
}

/// Splitting undoes joining: pieces that do not hold the separator, at least
/// one, come back from the joined text.
pub proof fn loi_decoupe_de_joint(m: Seq<Seq<char>>, sep: char)
    requires
        m.len() > 0,
        forall|i: int| 0 <= i < m.len() ==> !contient(#[trigger] m[i], sep),
    ensures
        morceaux(joint(m, sep), sep) == m,
    decreases m.len(),
{
    if m.len() == 1 {
        lemme_morceaux_sans(m[0], sep);
        assert(m =~= seq![m[0]]);
    } else {
        let d = m.drop_last();
        assert forall|i: int| 0 <= i < d.len() implies !contient(#[trigger] d[i], sep) by {
            assert(d[i] == m[i]);
        }
        assert(!contient(m[m.len() - 1], sep));
        loi_decoupe_de_joint(d, sep);
        lemme_morceaux_ajout(joint(d, sep), m.last(), sep);
        assert(d.push(m.last()) =~= m);
    }
}

/// The line without the carriage return that ends it, if any.
pub open spec fn sans_retour(s: Seq<char>) -> Seq<char> {
    if s.len() > 0 && s.last() == '\r' {
        s.drop_last()
    } else {
        s
    }
}

/// The lines of a text: what stands before each line feed, without one
/// carriage return at its end, and what stands after the last line feed,
/// unless that is empty.
pub open spec fn lignes(s: Seq<char>) -> Seq<Seq<char>> {
    let m = morceaux(s, '\n');
    let closes = m.drop_last().map_values(|l: Seq<char>| sans_retour(l));
    if m.last().len() == 0 {
        closes
    } else {
        closes.push(m.last())
    }
}

/// Splits a text into its lines.
pub fn en_lignes(s: &str) -> (r: Vec<Vec<char>>)
    ensures
        vues(r@) == lignes(s@),
{
    let v: Vec<char> = caracteres(s);
    let m: Vec<Vec<char>> = decoupe(&v, '\n');
    proof {
        lemme_morceaux_non_vide(s@, '\n');
        assert(vues(m@).len() == m@.len());
    }
    let mut r: Vec<Vec<char>> = Vec::new();
    let n: usize = m.len();
    let mut i: usize = 0;
    let ghost closes = vues(m@).drop_last().map_values(|l: Seq<char>| sans_retour(l));
    while i < n - 1
        invariant
            n == m@.len(),
            n > 0,
            i <= n - 1,
            closes == vues(m@).drop_last().map_values(|l: Seq<char>| sans_retour(l)),
            vues(r@) == closes.take(i as int),
        decreases n - i,
    {
        let l: &Vec<char> = &m[i];
        assert(vues(m@)[i as int] == l@);
        let fin: usize = if l.len() > 0 && l[l.len() - 1] == '\r' {
            l.len() - 1
        } else {
            l.len()
        };
        let ghost avant = vues(r@);
        let x: Vec<char> = extrait(l, 0, fin);
        assert(x@ =~= sans_retour(l@));
        r.push(x);
        assert(vues(r@) =~= avant.push(sans_retour(l@)));
        assert(closes.take(i as int + 1) =~= closes.take(i as int).push(closes[i as int]));
        i += 1;
    }
    assert(closes.take(n as int - 1) =~= closes);
    assert(vues(m@)[n as int - 1] == m@[n as int - 1]@);
    if m[n - 1].len() > 0 {
        let ghost avant = vues(r@);
        let x: Vec<char> = extrait(&m[n - 1], 0, m[n - 1].len());
        assert(x@ =~= m@[n as int - 1]@);
        r.push(x);
        assert(vues(r@) =~= avant.push(m@[n as int - 1]@));
    }
    r
}

/// The words of a text: its maximal runs of characters that are not white
/// space.
pub open spec fn mots(s: Seq<char>) -> Seq<Seq<char>>
    decreases s.len(),
{
    if s.len() == 0 {
        Seq::empty()
    } else {
        let d = mots(s.drop_last());
        if blanc(s.last()) {
            d
        } else if s.len() >= 2 && !blanc(s[s.len() - 2]) {
            d.drop_last().push(d.last().push(s.last()))
        } else {
            d.push(seq![s.last()])
        }
    }
}

/// Splits a text into its words.
pub fn en_mots(s: &Vec<char>) -> (r: Vec<Vec<char>>)
    ensures
        vues(r@) == mots(s@),
{
    let mut faits: Vec<Vec<char>> = Vec::new();
    let mut courant: Vec<char> = Vec::new();
    let mut i: usize = 0;
    assert(vues(faits@) =~= mots(s@.take(0)));
    while i < s.len()
        invariant
            i <= s@.len(),
            (courant@.len() > 0) == (i > 0 && !blanc(s@[i as int - 1])),
            mots(s@.take(i as int)) == if courant@.len() > 0 {
                vues(faits@).push(courant@)
            } else {
                vues(faits@)
            },
        decreases s.len() - i,
    {
        let c: char = s[i];
        let ghost t = s@.take(i as int + 1);
        let ghost m = mots(s@.take(i as int));
        assert(t.drop_last() =~= s@.take(i as int));
        assert(courant@.len() > 0 ==> m.last() == courant@ && m.drop_last() =~= vues(faits@));
        if est_blanc(c) {
            if courant.len() > 0 {
                faits.push(courant);
                courant = Vec::new();
                assert(vues(faits@) =~= m);
            }
            assert(mots(t) == vues(faits@));
        } else {
            let ghost vide = courant@.len() == 0;
            courant.push(c);
            assert(vide ==> courant@ =~= seq![c]);
            assert(mots(t) =~= vues(faits@).push(courant@));
        }
        i += 1;
    }
    assert(s@.take(s@.len() as int) =~= s@);
    if courant.len() > 0 {
        let ghost avant = vues(faits@);
        let ghost der = courant@;
        faits.push(courant);
        assert(vues(faits@) =~= avant.push(der));
    }
    faits
}


// ---------------------------------------------------------------------------
// Decimal numbers
// ---------------------------------------------------------------------------

/// The decimal digit of value `d`.
pub open spec fn chiffre(d: int) -> char {
    (48 + d) as char
}

/// Is the character a decimal digit?
pub open spec fn est_chiffre(c: char) -> bool {
    48 <= c as int <= 57
}

/// The decimal writing of a natural number, without leading zeros.
pub open spec fn decimal(n: nat) -> Seq<char>
    decreases n,
{
    if n < 10 {
        seq![chiffre(n as int)]
    } else {
        decimal(n / 10).push(chiffre((n % 10) as int))
    }
}

/// The decimal writing of an integer: a minus sign before a negative one.
pub open spec fn decimal_relatif(i: int) -> Seq<char> {
    if i < 0 {
        seq!['-'] + decimal((-i) as nat)
    } else {
        decimal(i as nat)
    }
}

/// Decimal writing on at least `largeur` digits, filled with zeros.
pub open spec fn decimal_large(n: nat, largeur: nat) -> Seq<char> {
    let d = decimal(n);
    if d.len() < largeur {
        Seq::new((largeur - d.len()) as nat, |i: int| '0') + d
    } else {
        d
    }
}

/// The number that a run of digits writes.
pub open spec fn valeur(s: Seq<char>) -> int
    decreases s.len(),
{
    if s.len() == 0 {
        0
    } else {
        10 * valeur(s.drop_last()) + (s.last() as int - 48)
    }
}

/// Only digits?
pub open spec fn que_chiffres(s: Seq<char>) -> bool {
    forall|i: int| 0 <= i < s.len() ==> est_chiffre(#[trigger] s[i])
}

/// The digits of a number after its optional sign.
pub open spec fn apres_signe(s: Seq<char>) -> Seq<char> {
    s.subrange(1, s.len() as int)
}

/// The natural number, at most `max`, that a text writes: digits, at least one,
/// with an optional plus sign before them.
pub open spec fn naturel_lu(s: Seq<char>, max: int) -> Option<int> {
    let t = if s.len() > 1 && s[0] == '+' {
        apres_signe(s)
    } else {
        s
    };
    if t.len() > 0 && que_chiffres(t) && valeur(t) <= max {
        Some(valeur(t))
    } else {
        None
    }
}

/// The integer between `min` and `max` that a text writes: digits, at least
/// one, with an optional sign before them.
pub open spec fn relatif_lu(s: Seq<char>, min: int, max: int) -> Option<int> {
    if s.len() > 1 && s[0] == '-' {
        let t = apres_signe(s);
        if que_chiffres(t) && -valeur(t) >= min {
            Some(-valeur(t))
        } else {
            None
        }
    } else {
        naturel_lu(s, max)
    }
}

pub proof fn lemme_valeur_croit(s: Seq<char>, k: int)
    requires
        que_chiffres(s),
        0 <= k <= s.len(),
    ensures
        0 <= valeur(s.take(k)) <= valeur(s),
    decreases s.len(),
{
    if s.len() == 0 {
        assert(s.take(k) =~= s);
    } else {
        let d = s.drop_last();
        assert(que_chiffres(d)) by {
            assert forall|i: int| 0 <= i < d.len() implies est_chiffre(#[trigger] d[i]) by {
                assert(d[i] == s[i]);
            }
        }
        assert(est_chiffre(s[s.len() - 1]));
        if k == s.len() {
            lemme_valeur_croit(d, d.len() as int);
            assert(s.take(k) =~= s);
            assert(d.take(d.len() as int) =~= d);
        } else {
            lemme_valeur_croit(d, k);
            assert(d.take(k) =~= s.take(k));
        }
    }
}

/// Reads the digits `debut..` of `s` as a number of at most `max`.
fn lit_chiffres(s: &Vec<char>, debut: usize, max: u64) -> (r: Option<u64>)
    requires
        debut <= s@.len(),
    ensures
        ({
            let t = s@.subrange(debut as int, s@.len() as int);
            match r {
                Some(n) => t.len() > 0 && que_chiffres(t) && valeur(t) == n && n <= max,
                None => t.len() == 0 || !que_chiffres(t) || valeur(t) > max,
            }
        }),
{
    let ghost t = s@.subrange(debut as int, s@.len() as int);
    if debut == s.len() {
        return None;
    }
    let mut acc: u64 = 0;
    let mut i: usize = debut;
    assert(t.take(0).len() == 0);
    while i < s.len()
        invariant
            debut <= i <= s@.len(),
            debut < s@.len(),
            t == s@.subrange(debut as int, s@.len() as int),
            acc == valeur(t.take(i - debut)),
            acc <= max,
            que_chiffres(t.take(i - debut)),
        decreases s.len() - i,
    {
        let c: char = s[i];
        let u: u32 = code(c);
        let ghost k: int = i - debut;
        assert(t[k] == s@[i as int]);
        if u < 48 || u > 57 {
            assert(!est_chiffre(t[k]));
            return None;
        }
        let d: u64 = (u - 48) as u64;
        proof {
            assert(t.take(k + 1).drop_last() =~= t.take(k));
            assert(t.take(k + 1).last() == t[k]);
            assert forall|j: int| 0 <= j < t.take(k + 1).len() implies est_chiffre(
                #[trigger] t.take(k + 1)[j],
            ) by {
                if j < k {
                    assert(t.take(k)[j] == t.take(k + 1)[j]);
                } else {
                    assert(t.take(k + 1)[j] == t[k]);
                }
            }
        }
        if d > max || acc > (max - d) / 10 {
            proof {
                assert(10 * acc + d > max);
                if que_chiffres(t) {
                    lemme_valeur_croit(t, k + 1);
                }
            }
            return None;
        }
        acc = acc * 10 + d;
        i += 1;
    }
    assert(t.take(t.len() as int) =~= t);
    Some(acc)
}

/// Reads a natural number of at most `max`.
pub fn lit_naturel(s: &Vec<char>, max: u64) -> (r: Option<u64>)
    ensures
        r is Some <==> naturel_lu(s@, max as int) is Some,
        r matches Some(n) ==> naturel_lu(s@, max as int) == Some(n as int) && n <= max,
{
    assert(s@.subrange(0, s@.len() as int) =~= s@);
    if s.len() > 1 && s[0] == '+' {
        lit_chiffres(s, 1, max)
    } else {
        lit_chiffres(s, 0, max)
    }
}

/// Reads a 32-bit integer.
pub fn lit_i32(s: &Vec<char>) -> (r: Option<i32>)
    ensures
        r is Some <==> relatif_lu(s@, i32::MIN as int, i32::MAX as int) is Some,
        r matches Some(n) ==> relatif_lu(s@, i32::MIN as int, i32::MAX as int) == Some(n as int),
{
    if s.len() > 1 && s[0] == '-' {
        match lit_chiffres(s, 1, 2_147_483_648) {
            Some(n) => Some((-(n as i64)) as i32),
            None => None,
        }
    } else {
        match lit_naturel(s, 2_147_483_647) {
            Some(n) => Some(n as i32),
            None => None,
        }
    }
}

/// Writes a natural number in decimal.
pub fn ecrit_naturel(n: u64) -> (r: Vec<char>)
    ensures
        r@ == decimal(n as nat),
    decreases n,
{
    let d: u8 = 48u8 + (n % 10) as u8;
    let c: char = d as char;
    assert(c == chiffre((n % 10) as int));
    if n < 10 {
        let mut r: Vec<char> = Vec::new();
        r.push(c);
        assert(r@ =~= decimal(n as nat));
        r
    } else {
        let mut r: Vec<char> = ecrit_naturel(n / 10);
        r.push(c);
        r
    }
}

/// Writes an integer in decimal.
pub fn ecrit_relatif(i: i64) -> (r: Vec<char>)
    ensures
        r@ == decimal_relatif(i as int),
{
    if i < 0 {
        let mut r: Vec<char> = Vec::new();
        r.push('-');
        let n: u64 = (-(i as i128)) as u64;
        let d: Vec<char> = ecrit_naturel(n);
        ajoute(&mut r, &d);
        assert(r@ =~= seq!['-'] + decimal(n as nat));
        r
    } else {
        ecrit_naturel(i as u64)
    }
}

/// Writes a natural number in decimal, filled with zeros to `largeur` digits.
pub fn ecrit_large(n: u64, largeur: usize) -> (r: Vec<char>)
    ensures
        r@ == decimal_large(n as nat, largeur as nat),
{
    let d: Vec<char> = ecrit_naturel(n);
    if d.len() >= largeur {
        return d;
    }
    let k: usize = largeur - d.len();
    let mut r: Vec<char> = Vec::new();
    while r.len() < k
        invariant
            r@.len() <= k,
            r@ == Seq::new(r@.len(), |i: int| '0'),
        decreases k - r.len(),
    {
        let ghost avant = r@;
        r.push('0');
        assert(r@ =~= Seq::new(r@.len(), |i: int| '0'));
    }
    ajoute(&mut r, &d);
    assert(r@ =~= decimal_large(n as nat, largeur as nat));
    r
}

pub proof fn lemme_decimal(n: nat)
    ensures
        decimal(n).len() > 0,
        que_chiffres(decimal(n)),
        valeur(decimal(n)) == n,
    decreases n,
{
    if n < 10 {
        let s = decimal(n);
        assert(valeur(s.drop_last()) == 0);
        assert(s.last() as int == 48 + n);
    } else {
        lemme_decimal(n / 10);
        let s = decimal(n);
        assert(s.drop_last() =~= decimal(n / 10));
        assert(s.last() as int == 48 + n % 10);
        assert forall|i: int| 0 <= i < s.len() implies est_chiffre(#[trigger] s[i]) by {
            if i < s.len() - 1 {
                assert(s[i] == decimal(n / 10)[i]);
            }
        }
    }
}

/// A written number is read back: for every integer between the bounds,
/// reading its decimal writing gives the integer.
pub proof fn loi_relecture_decimale(i: int, min: int, max: int)
    requires
        min <= i <= max,
    ensures
        relatif_lu(decimal_relatif(i), min, max) == Some(i),
        i >= 0 ==> naturel_lu(decimal_relatif(i), max) == Some(i),
{
    if i < 0 {
        lemme_decimal((-i) as nat);
        let s = decimal_relatif(i);
        assert(apres_signe(s) =~= decimal((-i) as nat));
    } else {
        lemme_decimal(i as nat);
        let s = decimal(i as nat);
        assert(est_chiffre(s[0]));
        assert(s[0] != '+' && s[0] != '-');
    }
}


// ---------------------------------------------------------------------------
// Texts that trimming leaves alone
// ---------------------------------------------------------------------------

pub proof fn lemme_sans_fin_court(s: Seq<char>)
    ensures
        sans_fin(s).len() <= s.len(),
        sans_fin(s).len() == s.len() ==> sans_fin(s) == s,
    decreases s.len(),
{
    if s.len() > 0 && blanc(s.last()) {
        lemme_sans_fin_court(s.drop_last());
    }
}

pub proof fn lemme_sans_debut_court(s: Seq<char>)
    ensures
        sans_debut(s).len() <= s.len(),
        sans_debut(s).len() == s.len() ==> sans_debut(s) == s,
    decreases s.len(),
{
    if s.len() > 0 && blanc(s[0]) {
        lemme_sans_debut_court(s.subrange(1, s.len() as int));
    }
}

/// A text that trimming leaves alone does not end or start with white space.
pub proof fn lemme_rogne_fixe(s: Seq<char>)
    ensures
        rogne(s) == s <==> (s.len() == 0 || (!blanc(s[0]) && !blanc(s.last()))),
{
    lemme_sans_fin_court(s);
    lemme_sans_debut_court(sans_fin(s));
    if s.len() > 0 && blanc(s.last()) {
        lemme_sans_fin_court(s.drop_last());
    } else if s.len() > 0 && blanc(s[0]) {
        lemme_sans_debut_court(s.subrange(1, s.len() as int));
    }
}

/// A decimal number is left alone by trimming and holds only digits and a sign.
pub proof fn lemme_nombre_net(i: int)
    ensures
        rogne(decimal_relatif(i)) == decimal_relatif(i),
        !contient(decimal_relatif(i), ','),
        decimal_relatif(i).len() > 0,
        forall|k: int|
            0 <= k < decimal_relatif(i).len() ==> (est_chiffre(#[trigger] decimal_relatif(i)[k])
                || decimal_relatif(i)[k] == '-'),
{
    let s = decimal_relatif(i);
    if i < 0 {
        lemme_decimal((-i) as nat);
        let d = decimal((-i) as nat);
        assert forall|k: int| 0 <= k < s.len() implies (est_chiffre(#[trigger] s[k]) || s[k]
            == '-') by {
            if k > 0 {
                assert(s[k] == d[k - 1]);
            }
        }
    } else {
        lemme_decimal(i as nat);
    }
    assert(est_chiffre(s[0]) || s[0] == '-');
    assert(est_chiffre(s[s.len() - 1]) || s[s.len() - 1] == '-');
    lemme_rogne_fixe(s);
}

/// A word of small letters is left alone by trimming and holds no comma.
pub proof fn lemme_mot_net(s: Seq<char>)
    requires
        s.len() > 0,
        forall|i: int| 0 <= i < s.len() ==> 97 <= #[trigger] s[i] as int <= 122,
    ensures
        rogne(s) == s,
        !contient(s, ','),
{
    assert(97 <= s[0] as int <= 122);
    assert(97 <= s[s.len() - 1] as int <= 122);
    lemme_rogne_fixe(s);
}

// ---------------------------------------------------------------------------
// Bytes, words and lines
// ---------------------------------------------------------------------------

/// Bytes of a character in UTF-8.
pub open spec fn octets_car(c: char) -> nat {
    let u = c as int;
    if u < 0x80 {
        1
    } else if u < 0x800 {
        2
    } else if u < 0x10000 {
        3
    } else {
        4
    }
}

/// Bytes of a text in UTF-8.
pub open spec fn octets(s: Seq<char>) -> nat
    decreases s.len(),
{
    if s.len() == 0 {
        0
    } else {
        octets(s.drop_last()) + octets_car(s.last())
    }
}

/// Do the bytes of the text in UTF-8 exceed `max`?
pub fn depasse(s: &Vec<char>, max: u64) -> (r: bool)
    requires
        max < 1_000_000,
    ensures
        r == (octets(s@) > max),
{
    let mut n: u64 = 0;
    let mut i: usize = 0;
    while i < s.len()
        invariant
            i <= s@.len(),
            n == octets(s@.take(i as int)),
            n <= max,
            max < 1_000_000,
        decreases s.len() - i,
    {
        let u: u32 = code(s[i]);
        let k: u64 = if u < 0x80 {
            1
        } else if u < 0x800 {
            2
        } else if u < 0x10000 {
            3
        } else {
            4
        };
        n += k;
        assert(s@.take(i as int + 1).drop_last() =~= s@.take(i as int));
        i += 1;
        if n > max {
            proof {
                lemme_octets_croit(s@, i as int);
            }
            return true;
        }
    }
    assert(s@.take(i as int) =~= s@);
    false
}

proof fn lemme_octets_croit(s: Seq<char>, i: int)
    requires
        0 <= i <= s.len(),
    ensures
        octets(s.take(i)) <= octets(s),
    decreases s.len() - i,
{
    if i == s.len() {
        assert(s.take(i) =~= s);
    } else {
        lemme_octets_croit(s, i + 1);
        assert(s.take(i + 1).drop_last() =~= s.take(i));
    }
}

/// No white space at all.
pub open spec fn sans_blanc(s: Seq<char>) -> bool {
    forall|i: int| 0 <= i < s.len() ==> !blanc(#[trigger] s[i])
}

/// A text without white space is one word.
pub proof fn lemme_un_mot(s: Seq<char>)
    requires
        s.len() > 0,
        sans_blanc(s),
    ensures
        mots(s) == seq![s],
    decreases s.len(),
{
    let d = s.drop_last();
    assert(!blanc(s[s.len() - 1]));
    if s.len() >= 2 {
        assert(sans_blanc(d)) by {
            assert forall|i: int| 0 <= i < d.len() implies !blanc(#[trigger] d[i]) by {
                assert(d[i] == s[i]);
            }
        }
        lemme_un_mot(d);
        assert(!blanc(s[s.len() - 2]));
        assert(d.push(s.last()) =~= s);
        assert(mots(s) =~= seq![s]);
    } else {
        assert(s =~= seq![s[0]]);
        assert(mots(d) =~= Seq::empty());
        assert(mots(s) =~= seq![s]);
    }
}

/// A blank between two texts parts their words.
pub proof fn lemme_mots_ajout(a: Seq<char>, b: Seq<char>)
    ensures
        mots(a.push(' ') + b) == mots(a) + mots(b),
    decreases b.len(),
{
    let s = a.push(' ') + b;
    if b.len() == 0 {
        assert(s =~= a.push(' '));
        assert(s.drop_last() =~= a);
        assert(mots(b) =~= Seq::empty());
        assert(mots(s) =~= mots(a) + mots(b));
    } else {
        let c = b.drop_last();
        lemme_mots_ajout(a, c);
        assert(s.drop_last() =~= a.push(' ') + c);
        assert(s.last() == b.last());
        let k = s.len() - 2;
        if b.len() == 1 {
            assert(s[k] == ' ');
            assert(mots(c) =~= Seq::empty());
            assert(mots(s) =~= mots(a) + mots(b));
        } else {
            assert(s[k] == b[b.len() - 2]);
            if !blanc(b.last()) && !blanc(b[b.len() - 2]) {
                lemme_dernier_mot(c);
                assert((mots(a) + mots(c)).last() == mots(c).last());
                assert((mots(a) + mots(c)).drop_last() =~= mots(a) + mots(c).drop_last());
            }
            assert(mots(s) =~= mots(a) + mots(b));
        }
    }
}

proof fn lemme_dernier_mot(s: Seq<char>)
    requires
        s.len() > 0,
        !blanc(s.last()),
    ensures
        mots(s).len() > 0,
    decreases s.len(),
{
    if s.len() >= 2 && !blanc(s[s.len() - 2]) {
        lemme_dernier_mot(s.drop_last());
    }
}

/// Lines that are written one under the other are read back, each as it was.
pub proof fn loi_lignes_relues(m: Seq<Seq<char>>)
    requires
        m.len() > 0,
        forall|i: int| 0 <= i < m.len() ==> !contient(#[trigger] m[i], '\n'),
        forall|i: int| 0 <= i < m.len() ==> sans_retour(#[trigger] m[i]) == m[i],
    ensures
        lignes(joint(m, '\n').push('\n')) == m,
{
    loi_decoupe_de_joint(m, '\n');
    let f = joint(m, '\n').push('\n');
    assert(f.drop_last() =~= joint(m, '\n'));
    let d = morceaux(f, '\n');
    assert(d == m.push(Seq::<char>::empty()));
    assert(d.drop_last() =~= m);
    assert(m.map_values(|l: Seq<char>| sans_retour(l)) =~= m);
}

/// A run of digits never writes a negative number.
pub proof fn lemme_valeur_positive(s: Seq<char>)
    requires
        que_chiffres(s),
    ensures
        valeur(s) >= 0,
    decreases s.len(),
{
    if s.len() > 0 {
        assert(est_chiffre(s[s.len() - 1]));
        assert forall|i: int| 0 <= i < s.drop_last().len() implies est_chiffre(
            #[trigger] s.drop_last()[i],
        ) by {
            assert(est_chiffre(s[i]));
        }
        lemme_valeur_positive(s.drop_last());
    }
}

/// Joining undoes splitting: the pieces of a text, none of which holds the
/// separator, give the text back.
pub proof fn loi_joint_de_decoupe(s: Seq<char>, sep: char)
    ensures
        joint(morceaux(s, sep), sep) == s,
        morceaux(s, sep).len() > 0,
        forall|i: int| 0 <= i < morceaux(s, sep).len() ==> !contient(#[trigger] morceaux(s, sep)[i], sep),
    decreases s.len(),
{
    if s.len() == 0 {
        assert(s =~= Seq::empty());
    } else {
        let r = s.drop_last();
        let c = s.last();
        loi_joint_de_decoupe(r, sep);
        let d = morceaux(r, sep);
        let m = morceaux(s, sep);
        assert(s =~= r.push(c));
        if c == sep {
            assert(m.drop_last() =~= d);
            assert(m.last().len() == 0);
            assert(joint(d, sep).push(sep) + m.last() =~= s);
        } else {
            assert(m.drop_last() =~= d.drop_last());
            assert(m.last() == d.last().push(c));
            if d.len() > 1 {
                assert(joint(d.drop_last(), sep).push(sep) + m.last() =~= (joint(
                    d.drop_last(),
                    sep,
                ).push(sep) + d.last()).push(c));
            }
            assert forall|i: int| 0 <= i < m.len() implies !contient(#[trigger] m[i], sep) by {
                if i < d.len() - 1 {
                    assert(m[i] == d[i]);
                } else {
                    assert(!contient(d[d.len() - 1], sep));
                    assert forall|k: int| 0 <= k < m[i].len() implies m[i][k] != sep by {
                        if k < d.last().len() {
                            assert(m[i][k] == d[d.len() - 1][k]);
                        }
                    }
                }
            }
        }
    }
}

/// White space at the end of a text is dropped, and nothing else: what is left
/// is the start of the text, ends in no white space, and what went is white.
pub proof fn loi_sans_fin(s: Seq<char>)
    ensures
        sans_fin(s).len() <= s.len(),
        sans_fin(s) == s.take(sans_fin(s).len() as int),
        sans_fin(s).len() > 0 ==> !blanc(sans_fin(s).last()),
        forall|i: int| sans_fin(s).len() <= i < s.len() ==> blanc(#[trigger] s[i]),
    decreases s.len(),
{
    if s.len() > 0 && blanc(s.last()) {
        let d = s.drop_last();
        loi_sans_fin(d);
        assert(d.take(sans_fin(d).len() as int) =~= s.take(sans_fin(d).len() as int));
        assert forall|i: int| sans_fin(s).len() <= i < s.len() implies blanc(#[trigger] s[i]) by {
            if i < d.len() {
                assert(d[i] == s[i]);
            }
        }
    } else {
        assert(s.take(s.len() as int) =~= s);
    }
}

/// White space at the start of a text is dropped, and nothing else.
pub proof fn loi_sans_debut(s: Seq<char>)
    ensures
        sans_debut(s).len() <= s.len(),
        sans_debut(s) == s.skip(s.len() - sans_debut(s).len()),
        sans_debut(s).len() > 0 ==> !blanc(sans_debut(s)[0]),
        forall|i: int| 0 <= i < s.len() - sans_debut(s).len() ==> blanc(#[trigger] s[i]),
    decreases s.len(),
{
    if s.len() > 0 && blanc(s[0]) {
        let d = s.subrange(1, s.len() as int);
        loi_sans_debut(d);
        let n = sans_debut(d).len();
        assert(d.skip(d.len() - n) =~= s.skip(s.len() - n));
        assert forall|i: int| 0 <= i < s.len() - n implies blanc(#[trigger] s[i]) by {
            if i > 0 {
                assert(d[i - 1] == s[i]);
            }
        }
    } else {
        assert(s.skip(0) =~= s);
    }
}

/// A trimmed text starts and ends in no white space, and trimming it again
/// changes nothing.
pub proof fn loi_rogne(s: Seq<char>)
    ensures
        rogne(s).len() > 0 ==> !blanc(rogne(s)[0]) && !blanc(rogne(s).last()),
        rogne(rogne(s)) == rogne(s),
        rogne(s).len() <= s.len(),
        rogne(s).len() == 0 ==> sans_fin(s).len() == 0,
{
    loi_sans_fin(s);
    let a = sans_fin(s);
    loi_sans_debut(a);
    let b = sans_debut(a);
    if b.len() > 0 {
        assert(b.last() == a.last());
    }
    assert(sans_fin(b) == b);
    assert(sans_debut(b) == b);
    if b.len() == 0 && a.len() > 0 {
        assert(blanc(a[a.len() - 1]));
    }
}

/// White space between printable characters: the space, tabulation and line
/// ends are white, no printable ASCII character is.
pub proof fn loi_blancs(c: char)
    ensures
        blanc(' ') && blanc('\t') && blanc('\n') && blanc('\r'),
        33 <= c as int <= 126 ==> !blanc(c),
        (c as int) < 9 ==> !blanc(c),
        14 <= c as int <= 31 ==> !blanc(c),
{
}

/// Words are what white space parts: a text followed by white space has the
/// same words, a text followed by white space and a word has that word more,
/// and no word is empty or holds white space.
pub proof fn loi_mots(s: Seq<char>, c: char, w: Seq<char>)
    requires
        blanc(c),
        w.len() > 0,
        sans_blanc(w),
    ensures
        mots(s.push(c)) == mots(s),
        mots(s.push(c) + w) == mots(s).push(w),
        mots(w) == seq![w],
        forall|i: int|
            0 <= i < mots(s).len() ==> (#[trigger] mots(s)[i]).len() > 0 && sans_blanc(mots(s)[i]),
    decreases w.len(), s.len(),
{
    assert(s.push(c).drop_last() =~= s);
    lemme_un_mot(w);
    lemme_mots_blancs(s, c, w);
    lemme_mots_nets(s);
}

proof fn lemme_mots_blancs(s: Seq<char>, c: char, w: Seq<char>)
    requires
        blanc(c),
        w.len() > 0,
        sans_blanc(w),
    ensures
        mots(s.push(c) + w) == mots(s).push(w),
    decreases w.len(),
{
    let t = s.push(c) + w;
    let x = w.last();
    assert(t.last() == x && !blanc(w[w.len() - 1]));
    assert(s.push(c).drop_last() =~= s);
    if w.len() == 1 {
        assert(t.drop_last() =~= s.push(c));
        assert(t[t.len() - 2] == c);
        assert(mots(s.push(c)) == mots(s)) by {
            assert(s.push(c).last() == c);
        }
        assert(mots(t) == mots(s).push(seq![x]));
        assert(seq![x] =~= w);
    } else {
        let v = w.drop_last();
        assert forall|i: int| 0 <= i < v.len() implies !blanc(#[trigger] v[i]) by {
            assert(v[i] == w[i]);
        }
        lemme_mots_blancs(s, c, v);
        assert(t.drop_last() =~= s.push(c) + v);
        assert(t[t.len() - 2] == w[w.len() - 2]);
        assert(v.push(x) =~= w);
        assert(!blanc(w[w.len() - 2]));
        assert(mots(s).push(v).drop_last() =~= mots(s));
    }
}

proof fn lemme_mots_nets(s: Seq<char>)
    ensures
        forall|i: int|
            0 <= i < mots(s).len() ==> (#[trigger] mots(s)[i]).len() > 0 && sans_blanc(mots(s)[i]),
        s.len() > 0 && !blanc(s.last()) ==> mots(s).len() > 0,
    decreases s.len(),
{
    if s.len() > 0 {
        let r = s.drop_last();
        lemme_mots_nets(r);
        let d = mots(r);
        let m = mots(s);
        if !blanc(s.last()) && s.len() >= 2 && !blanc(s[s.len() - 2]) {
            assert(r.last() == s[s.len() - 2]);
            assert forall|i: int| 0 <= i < m.len() implies (#[trigger] m[i]).len() > 0 && sans_blanc(
                m[i],
            ) by {
                if i < d.len() - 1 {
                    assert(m[i] == d[i]);
                } else {
                    assert(sans_blanc(d[d.len() - 1]));
                }
            }
        }
    }
}

/// A carriage return before the end of a line is dropped once.
pub proof fn loi_retour(s: Seq<char>, c: char)
    ensures
        sans_retour(s.push('\r')) == s,
        c != '\r' ==> sans_retour(s.push(c)) == s.push(c),
        s.len() == 0 ==> sans_retour(s) == s,
{
    assert(s.push('\r').drop_last() =~= s);
}

/// Digits are written from '0' to '9', the number in base ten with its units
/// last and no zero before it.
pub proof fn loi_ecriture_decimale(n: nat, d: int)
    requires
        0 <= d < 10,
    ensures
        chiffre(d) as int == '0' as int + d,
        est_chiffre(chiffre(d)),
        n > 0 ==> decimal(10 * n + d as nat) == decimal(n).push(chiffre(d)),
        decimal(d as nat) == seq![chiffre(d)],
        decimal(n).len() > 0,
        n > 0 ==> decimal(n)[0] != '0',
        forall|c: char| est_chiffre(c) <==> '0' as int <= c as int <= '9' as int,
    decreases n,
{
    if n > 0 {
        let m = 10 * n + d as nat;
        assert(m / 10 == n && m % 10 == d as nat);
        if n >= 10 {
            loi_ecriture_decimale(n / 10, (n % 10) as int);
            assert(decimal(n) == decimal(n / 10).push(chiffre((n % 10) as int)));
            assert(decimal(n)[0] == decimal(n / 10)[0]);
        }
    }
}

/// A negative number is a minus sign before the digits of its opposite.
pub proof fn loi_ecriture_relative(n: nat)
    requires
        n > 0,
    ensures
        decimal_relatif(n as int) == decimal(n),
        decimal_relatif(-(n as int)) == seq!['-'] + decimal(n),
        decimal_relatif(0) == seq!['0'],
{
    loi_ecriture_decimale(0, 0);
    assert(decimal(0)[0] == '0');
}

/// A number written to a width is the number with zeros before it, never cut.
pub proof fn loi_ecriture_large(n: nat, largeur: nat)
    ensures
        ({
            let r = decimal_large(n, largeur);
            let d = decimal(n);
            &&& r.len() >= largeur && r.len() >= d.len()
            &&& r.len() == largeur || r.len() == d.len()
            &&& r.skip(r.len() - d.len()) == d
            &&& forall|i: int| 0 <= i < r.len() - d.len() ==> #[trigger] r[i] == '0'
        }),
{
    let r = decimal_large(n, largeur);
    let d = decimal(n);
    assert(r.skip(r.len() - d.len()) =~= d);
}

/// The value of digits is that of the digits before the last ten times over,
/// and the last one.
pub proof fn loi_valeur_des_chiffres(s: Seq<char>, d: int)
    requires
        0 <= d < 10,
    ensures
        valeur(s.push(chiffre(d))) == 10 * valeur(s) + d,
        valeur(Seq::<char>::empty()) == 0,
{
    assert(s.push(chiffre(d)).drop_last() =~= s);
}

/// What is read as a natural number: digits only, one plus sign allowed before
/// them, no more than the bound.
pub proof fn loi_naturel_lu(s: Seq<char>, max: int)
    ensures
        s.len() == 0 ==> naturel_lu(s, max) is None,
        que_chiffres(s) && s.len() > 0 && valeur(s) <= max ==> naturel_lu(s, max) == Some(valeur(s)),
        que_chiffres(s) && valeur(s) > max ==> naturel_lu(s, max) is None,
        que_chiffres(s) && s.len() > 0 ==> naturel_lu(seq!['+'] + s, max) == naturel_lu(s, max),
        s.len() > 0 && !est_chiffre(s[0]) && s[0] != '+' ==> naturel_lu(s, max) is None,
        s.len() > 1 && !est_chiffre(s[1]) ==> naturel_lu(s, max) is None,
        match naturel_lu(s, max) {
            Some(v) => 0 <= v <= max,
            None => true,
        },
{
    let t = seq!['+'] + s;
    if s.len() > 0 {
        assert(apres_signe(t) =~= s);
        assert(t[0] == '+');
        if que_chiffres(s) {
            assert(est_chiffre(s[0]));
            assert(!(s.len() > 1 && s[0] == '+'));
            lemme_valeur_positive(s);
        }
        if s.len() > 1 && s[0] == '+' {
            assert(apres_signe(s)[0] == s[1]);
            if que_chiffres(apres_signe(s)) {
                lemme_valeur_positive(apres_signe(s));
            }
        }
    }
}

/// What is read after a minus sign is the opposite of what the digits read.
pub proof fn loi_relatif_lu(s: Seq<char>, min: int, max: int)
    requires
        que_chiffres(s),
        s.len() > 0,
    ensures
        valeur(s) <= max ==> relatif_lu(s, min, max) == Some(valeur(s)),
        valeur(s) > max ==> relatif_lu(s, min, max) is None,
        -valeur(s) >= min ==> relatif_lu(seq!['-'] + s, min, max) == Some(-valeur(s)),
        -valeur(s) < min ==> relatif_lu(seq!['-'] + s, min, max) is None,
{
    let t = seq!['-'] + s;
    assert(apres_signe(t) =~= s);
    assert(t[0] == '-');
    assert(est_chiffre(s[0]));
}

/// The bytes of two texts one after the other are those of both, and an ASCII
/// text has one byte per character.
pub proof fn loi_octets_ajoutes(a: Seq<char>, b: Seq<char>)
    ensures
        octets(a + b) == octets(a) + octets(b),
        (forall|i: int| 0 <= i < a.len() ==> (#[trigger] a[i] as int) < 0x80) ==> octets(a) == a.len(),
    decreases b.len(), a.len(),
{
    if b.len() > 0 {
        loi_octets_ajoutes(a, b.drop_last());
        assert((a + b).drop_last() =~= a + b.drop_last());
    } else {
        assert(a + b =~= a);
        if a.len() > 0 {
            let d = a.drop_last();
            loi_octets_ajoutes(d, b);
            if forall|i: int| 0 <= i < a.len() ==> (#[trigger] a[i] as int) < 0x80 {
                assert forall|i: int| 0 <= i < d.len() implies (#[trigger] d[i] as int) < 0x80 by {
                    assert(d[i] == a[i]);
                }
            }
        }
    }
}

/// Bytes of a character in UTF-8.
pub proof fn loi_octets_d_un_caractere(c: char)
    ensures
        octets_car(c) == 1 <==> (c as int) < 0x80,
        octets_car(c) == 2 <==> 0x80 <= (c as int) < 0x800,
        octets_car(c) == 3 <==> 0x800 <= (c as int) < 0x1_0000,
        octets_car(c) == 4 <==> (c as int) >= 0x1_0000,
{
}

/// A text starts with another one exactly when it is that one and something
/// after it.
pub proof fn loi_commence_par(a: Seq<char>, b: Seq<char>, s: Seq<char>)
    ensures
        commence_par(a + b, a),
        commence_par(s, a) ==> s == a + s.skip(a.len() as int),
{
    assert((a + b).take(a.len() as int) =~= a);
    if commence_par(s, a) {
        assert(s =~= s.take(a.len() as int) + s.skip(a.len() as int));
    }
}

} // verus!
