//! Cloud sync of the address book through Git: the decisions and the names.
//! The configuration directory is a Git repository; `push` commits and
//! uploads, `pull` fetches and fast-forwards. The repository operations
//! themselves are the caller's part.

use vstd::prelude::*;

use crate::testo::{caratteri, concatena, da_caratteri};

verus! {

/// `main`, the branch used when the repository has no current branch.
pub open spec fn ramo_predefinito() -> Seq<char> {
    seq!['m', 'a', 'i', 'n']
}

/// Name of the current branch: the short name of HEAD, or `main`.
pub fn nome_ramo(testa: Option<&str>) -> (r: String)
    ensures
        r@ == match testa {
            Some(t) => t@,
            None => ramo_predefinito(),
        },
{
    match testa {
        Some(t) => da_caratteri(&caratteri(t)),
        None => {
            let v = vec!['m', 'a', 'i', 'n'];
            assert(v@ =~= ramo_predefinito());
            da_caratteri(&v)
        },
    }
}

pub open spec fn prefisso_rami() -> Seq<char> {
    seq!['r', 'e', 'f', 's', '/', 'h', 'e', 'a', 'd', 's', '/']
}

fn prefisso() -> (r: String)
    ensures
        r@ == prefisso_rami(),
{
    let v = vec!['r', 'e', 'f', 's', '/', 'h', 'e', 'a', 'd', 's', '/'];
    assert(v@ =~= prefisso_rami());
    da_caratteri(&v)
}

/// The reference of a branch: `refs/heads/<ramo>`.
pub fn riferimento_ramo(ramo: &str) -> (r: String)
    ensures
        r@ == prefisso_rami() + ramo@,
{
    let mut s = prefisso();
    concatena(&mut s, ramo);
    s
}

/// The push refspec of a branch: `refs/heads/<ramo>:refs/heads/<ramo>`.
pub fn refspec_push(ramo: &str) -> (r: String)
    ensures
        r@ == prefisso_rami() + ramo@ + seq![':'] + prefisso_rami() + ramo@,
{
    let mut s = riferimento_ramo(ramo);
    concatena(&mut s, ":");
    proof {
        reveal_strlit(":");
    }
    let t = riferimento_ramo(ramo);
    concatena(&mut s, t.as_str());
    assert(s@ =~= prefisso_rami() + ramo@ + seq![':'] + prefisso_rami() + ramo@);
    s
}

/// What a pull does after fetching.
#[derive(Clone, Copy, PartialEq, Eq, Structural, Debug)]
pub enum EsitoPull {
    /// Nothing to do: already up to date.
    Aggiornato,
    /// Move the branch to the fetched commit and check it out.
    AvanzaRapido,
    /// Refuse: local and remote changes diverge.
    Divergente,
}

/// The decision of a pull from the merge analysis: up to date does nothing; a
/// fast-forward, or a repository without HEAD, moves to the remote commit;
/// anything else diverges.
pub fn decidi_pull(aggiornato: bool, avanti_veloce: bool, testa_valida: bool) -> (r: EsitoPull)
    ensures
        r == (if aggiornato {
            EsitoPull::Aggiornato
        } else if avanti_veloce || !testa_valida {
            EsitoPull::AvanzaRapido
        } else {
            EsitoPull::Divergente
        }),
{
    if aggiornato {
        EsitoPull::Aggiornato
    } else if avanti_veloce || !testa_valida {
        EsitoPull::AvanzaRapido
    } else {
        EsitoPull::Divergente
    }
}

/// The error of a pull whose local and remote changes diverge.
pub open spec fn msg_divergenti() -> Seq<char> {
    seq![
        'l', 'e', ' ', 'm', 'o', 'd', 'i', 'f', 'i', 'c', 'h', 'e', ' ', 'l', 'o', 'c', 'a', 'l', 'i', ' ',
        'e', ' ', 'r', 'e', 'm', 'o', 't', 'e', ' ', 's', 'o', 'n', 'o', ' ', 'd', 'i', 'v', 'e', 'r', 'g',
        'e', 'n', 't', 'i', ':', ' ', 'f', 'a', 'i', ' ', 'p', 'r', 'i', 'm', 'a', ' ', '\'', 'P', 'u',
        's', 'h', '\'',
    ]
}

/// The error text of a diverging pull: "le modifiche locali e remote sono
/// divergenti: fai prima 'Push'".
pub fn errore_divergenti() -> (r: String)
    ensures
        r@ == msg_divergenti(),
{
    let v = vec![
        'l', 'e', ' ', 'm', 'o', 'd', 'i', 'f', 'i', 'c', 'h', 'e', ' ', 'l', 'o', 'c', 'a', 'l', 'i', ' ',
        'e', ' ', 'r', 'e', 'm', 'o', 't', 'e', ' ', 's', 'o', 'n', 'o', ' ', 'd', 'i', 'v', 'e', 'r', 'g',
        'e', 'n', 't', 'i', ':', ' ', 'f', 'a', 'i', ' ', 'p', 'r', 'i', 'm', 'a', ' ', '\'', 'P', 'u',
        's', 'h', '\'',
    ];
    assert(v@ =~= msg_divergenti());
    da_caratteri(&v)
}

} // verus!
