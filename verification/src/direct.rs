//! One game at a time on the air.
//!
//! Of the many games that a training plays at once, one holds the microphone
//! and is shown move by move.
use vstd::prelude::*;

verus! {

/// The one who holds the microphone.
pub struct Journaliste {
    numero: u64,
}

impl Journaliste {
    /// Which of the holders this is.
    pub closed spec fn numero_de(self) -> u64 {
        self.numero
    }
}

/// What is on the air.
pub struct Direct {
    chemin: Option<String>,
    cycle: u64,
    tenu: bool,
    remis: u64,
    resultat_precedent: Option<String>,
}

/// What is on the air: the file that is written, once it is known; the cycle
/// under way; the holder of the microphone, if there is one; how the last
/// game that was shown to its end came out.
pub struct VueDirect {
    pub chemin: Option<Seq<char>>,
    pub cycle: u64,
    pub tenu: Option<u64>,
    pub resultat_precedent: Option<Seq<char>>,
}

/// The microphone can be taken: the file is known and nobody holds it.
pub open spec fn libre(d: VueDirect) -> bool {
    d.chemin is Some && d.tenu is None
}

/// The microphone is taken.
pub open spec fn pris(d: VueDirect, numero: u64) -> VueDirect {
    VueDirect { tenu: Some(numero), ..d }
}

/// The microphone is given back by one who may hold it.
pub open spec fn rendu(d: VueDirect, numero: u64) -> VueDirect {
    VueDirect {
        tenu: if d.tenu == Some(numero) {
            None
        } else {
            d.tenu
        },
        ..d
    }
}

spec fn vue(t: Option<String>) -> Option<Seq<char>> {
    match t {
        Some(s) => Some(s@),
        None => None,
    }
}

impl View for Direct {
    type V = VueDirect;

    closed spec fn view(&self) -> VueDirect {
        VueDirect {
            chemin: vue(self.chemin),
            cycle: self.cycle,
            tenu: if self.tenu {
                Some(self.remis)
            } else {
                None
            },
            resultat_precedent: vue(self.resultat_precedent),
        }
    }
}

/// What one moment of a game shows beside its board: how the game before came
/// out, and the two names under which the file is written.
pub struct Publication {
    pub chemin: String,
    pub provisoire: String,
    pub precedent: Option<String>,
}

impl Direct {
    /// Nothing is on the air.
    pub fn neuf() -> (r: Direct)
        ensures
            r@ == (VueDirect { chemin: None, cycle: 0, tenu: None, resultat_precedent: None }),
    {
        Direct { chemin: None, cycle: 0, tenu: false, remis: 0, resultat_precedent: None }
    }

    /// Sets the file that is written. Only the first call counts.
    pub fn configure(&mut self, chemin_json: &str)
        ensures
            final(self)@ == (VueDirect {
                chemin: match old(self)@.chemin {
                    Some(c) => Some(c),
                    None => Some(chemin_json@),
                },
                ..old(self)@
            }),
    {
        if self.chemin.is_none() {
            self.chemin = Some(chemin_json.to_string());
        }
    }

    /// Announces the number of the cycle under way.
    pub fn annonce_cycle(&mut self, cycle: u64)
        ensures
            final(self)@ == (VueDirect { cycle, ..old(self)@ }),
    {
        self.cycle = cycle;
    }

    /// The last cycle that was announced, 0 before any.
    pub fn cycle_courant(&self) -> (r: u64)
        ensures
            r == self@.cycle,
    {
        self.cycle
    }

    /// Takes the microphone, if the file is known and nobody holds it.
    pub fn prendre_le_micro(&mut self) -> (r: Option<Journaliste>)
        ensures
            r is Some <==> libre(old(self)@),
            match r {
                Some(j) => final(self)@ == pris(old(self)@, j.numero_de()),
                None => final(self)@ == old(self)@,
            },
    {
        if self.chemin.is_some() && !self.tenu {
            self.remis = self.remis.wrapping_add(1);
            self.tenu = true;
            Some(Journaliste { numero: self.remis })
        } else {
            None
        }
    }

    /// Gives the microphone back.
    pub fn rendre_le_micro(&mut self, j: Journaliste)
        ensures
            final(self)@ == rendu(old(self)@, j.numero_de()),
    {
        if self.tenu && self.remis == j.numero {
            self.tenu = false;
        }
    }

    /// Shows one moment of the game of the holder. A result ends the game, and
    /// is what later moments show as the result of the game before. Nothing is
    /// shown where the file is not known.
    pub fn publie(&mut self, j: &Journaliste, result: Option<&str>) -> (r: Option<Publication>)
        ensures
            match r {
                Some(p) => {
                    &&& old(self)@.chemin == Some(p.chemin@)
                    &&& p.provisoire@ == p.chemin@ + ".tmp"@
                    &&& old(self)@.resultat_precedent == match p.precedent {
                        Some(s) => Some(s@),
                        None => None,
                    }
                    &&& final(self)@ == (VueDirect {
                        resultat_precedent: match result {
                            Some(s) => Some(s@),
                            None => old(self)@.resultat_precedent,
                        },
                        ..old(self)@
                    })
                },
                None => old(self)@.chemin is None && final(self)@ == old(self)@,
            },
    {
        match &self.chemin {
            None => None,
            Some(c) => {
                let chemin: String = c.clone();
                let mut provisoire: String = c.clone();
                provisoire.append(".tmp");
                let precedent: Option<String> = match &self.resultat_precedent {
                    Some(s) => Some(s.clone()),
                    None => None,
                };
                if let Some(s) = result {
                    self.resultat_precedent = Some(s.to_string());
                }
                Some(Publication { chemin, provisoire, precedent })
            },
        }
    }
}

/// While the microphone is held nobody else gets it, and once its holder has
/// given it back it is free again.
pub proof fn loi_micro_exclusif(d: VueDirect, n: u64)
    requires
        libre(d),
    ensures
        !libre(pris(d, n)),
        rendu(pris(d, n), n) == d,
{
}

/// The microphone can be taken where there is a file to speak into and nobody
/// holds it; only its holder gives it back, and giving it back changes nothing
/// else.
pub proof fn loi_prise_du_micro(d: VueDirect, n: u64, m: u64)
    ensures
        libre(d) <==> d.chemin is Some && d.tenu is None,
        pris(d, n).tenu == Some(n),
        pris(d, n).chemin == d.chemin && pris(d, n).cycle == d.cycle
            && pris(d, n).resultat_precedent == d.resultat_precedent,
        rendu(pris(d, n), n).tenu is None,
        n != m ==> rendu(pris(d, n), m) == pris(d, n),
        rendu(d, n).chemin == d.chemin && rendu(d, n).cycle == d.cycle
            && rendu(d, n).resultat_precedent == d.resultat_precedent,
{
}

} // verus!
