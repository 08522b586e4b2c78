//! Local SSH keys: which files of ~/.ssh are public keys, and what the list
//! shows of each. Reading the directory and generating keys is the caller's
//! part.

use vstd::prelude::*;

use crate::testo::{caratteri, da_caratteri, stringa, taglia, taglia_indici, uguale};

verus! {

/// A public key found in ~/.ssh.
pub struct ChiavePub {
    pub nome: String,
    pub percorso: String,
    pub contenuto: String,
}

/// Position of the last `.` of a file name, if any.
pub open spec fn ultimo_punto(s: Seq<char>) -> Option<int>
    decreases s.len(),
{
    if s.len() == 0 {
        None
    } else if s.last() == '.' {
        Some(s.len() - 1)
    } else {
        ultimo_punto(s.drop_last())
    }
}

/// The extension of a file name as `Path::extension` reads it: what follows
/// the last `.`, unless the name is `..` or the dot is its first character.
pub open spec fn estensione(nome: Seq<char>) -> Option<Seq<char>> {
    if nome == seq!['.', '.'] {
        None
    } else {
        match ultimo_punto(nome) {
            Some(i) => if i == 0 {
                None
            } else {
                Some(nome.subrange(i + 1, nome.len() as int))
            },
            None => None,
        }
    }
}

/// Whether a file name is that of a public key (extension `pub`).
pub fn e_chiave_pubblica(nome_file: &str) -> (r: bool)
    ensures
        r == (estensione(nome_file@) == Some(seq!['p', 'u', 'b'])),
{
    let s = caratteri(nome_file);
    let n = s.len();
    let mut i = n;
    assert(s@.subrange(0, n as int) =~= s@);
    while i > 0 && s[i - 1] != '.'
        invariant
            i <= n == s.len(),
            ultimo_punto(s@) == ultimo_punto(s@.subrange(0, i as int)),
        decreases i,
    {
        assert(s@.subrange(0, i as int).drop_last() =~= s@.subrange(0, i - 1));
        i = i - 1;
    }
    proof {
        assert(s@.subrange(0, n as int) =~= s@);
    }
    if i == 0 {
        assert(s@.subrange(0, 0) =~= Seq::<char>::empty());
        return false;
    }
    // The last dot is at i - 1.
    if i - 1 == 0 {
        return false;
    }
    let punti = vec!['.', '.'];
    if uguale(&s, 0, n, &punti) {
        assert(s@.subrange(0, n as int) =~= s@);
        return false;
    }
    assert(s@.subrange(0, n as int) =~= s@);
    let ext = vec!['p', 'u', 'b'];
    assert(ext@ =~= seq!['p', 'u', 'b']);
    uguale(&s, i, n, &ext)
}

impl ChiavePub {
    /// The entry of a public key file: name, path and trimmed contents.
    pub fn da_file(nome: &str, percorso: &str, contenuto: &str) -> (r: ChiavePub)
        ensures
            r.nome@ == nome@,
            r.percorso@ == percorso@,
            r.contenuto@ == taglia(contenuto@),
    {
        let c = caratteri(contenuto);
        let (a, b) = taglia_indici(&c, 0, c.len());
        assert(c@.subrange(0, c@.len() as int) =~= c@);
        ChiavePub {
            nome: da_caratteri(&caratteri(nome)),
            percorso: da_caratteri(&caratteri(percorso)),
            contenuto: stringa(&c, a, b),
        }
    }
}

} // verus!
