//! Texts that the desktop commands compute: the local name of a remote file
//! opened in the editor, the command that installs a public key on a server,
//! and the ids and descriptions of tunnels.

use vstd::prelude::*;

use crate::testo::{aggiungi_carattere, aggiungi_decimale, caratteri, cifre_decimali, concatena, da_caratteri, stringa};

verus! {

// ---------------------------------------------------------------------------
// Remote editor
// ---------------------------------------------------------------------------

/// The last `/`-separated piece of a remote path, or `file` when it is empty.
pub open spec fn nome_locale(remoto: Seq<char>) -> Seq<char> {
    let dopo = dopo_ultima_barra(remoto);
    if dopo.len() == 0 {
        seq!['f', 'i', 'l', 'e']
    } else {
        dopo
    }
}

/// What follows the last `/` (all of `s` when there is none).
pub open spec fn dopo_ultima_barra(s: Seq<char>) -> Seq<char>
    decreases s.len(),
{
    if s.len() == 0 {
        s
    } else if s.last() == '/' {
        Seq::empty()
    } else {
        dopo_ultima_barra(s.drop_last()).push(s.last())
    }
}

/// The name under which a remote file is saved locally for the editor.
pub fn nome_file_remoto(remoto: &str) -> (r: String)
    ensures
        r@ == nome_locale(remoto@),
{
    let s = caratteri(remoto);
    let n = s.len();
    let mut i = n;
    while i > 0 && s[i - 1] != '/'
        invariant
            i <= n == s.len(),
            forall|k: int| i <= k < n ==> s@[k] != '/',
            i > 0 ==> dopo_ultima_barra(s@.subrange(0, i as int)) == Seq::<char>::empty() || s@[i - 1] != '/',
        decreases i,
    {
        i = i - 1;
    }
    proof {
        lemma_dopo_ultima_barra(s@, i as int);
        assert(s@.subrange(0, n as int) =~= s@);
    }
    if i == n {
        let v = vec!['f', 'i', 'l', 'e'];
        assert(v@ =~= seq!['f', 'i', 'l', 'e']);
        return da_caratteri(&v);
    }
    stringa(&s, i, n)
}

proof fn lemma_dopo_ultima_barra(s: Seq<char>, i: int)
    requires
        0 <= i <= s.len(),
        forall|k: int| i <= k < s.len() ==> s[k] != '/',
        i > 0 ==> s[i - 1] == '/',
    ensures
        dopo_ultima_barra(s) == s.subrange(i, s.len() as int),
    decreases s.len(),
{
    if s.len() == 0 {
    } else if i == s.len() {
        assert(s.last() == '/');
        assert(s.subrange(i, s.len() as int) =~= Seq::<char>::empty());
    } else {
        assert forall|k: int| i <= k < s.drop_last().len() implies s.drop_last()[k] != '/' by {
            assert(s.drop_last()[k] == s[k]);
        }
        lemma_dopo_ultima_barra(s.drop_last(), i);
        assert(s.drop_last().subrange(i, s.len() - 1).push(s.last()) =~= s.subrange(i, s.len() as int));
    }
}

// ---------------------------------------------------------------------------
// Installing a public key (ssh-copy-id)
// ---------------------------------------------------------------------------

pub open spec fn testa_copia_chiave() -> Seq<char> {
    seq![
        'm', 'k', 'd', 'i', 'r', ' ', '-', 'p', ' ', '~', '/', '.', 's', 's', 'h', ' ', '&', '&', ' ', 'c', 'h', 'm', 'o', 'd', ' ',
        '7', '0', '0', ' ', '~', '/', '.', 's', 's', 'h', ' ', '&', '&', ' ', 'e', 'c', 'h', 'o', ' ', '\'',
    ]
}

pub open spec fn coda_copia_chiave() -> Seq<char> {
    seq![
        '\'', ' ', '>', '>', ' ', '~', '/', '.', 's', 's', 'h', '/', 'a', 'u', 't', 'h', 'o', 'r', 'i', 'z', 'e', 'd', '_', 'k',
        'e', 'y', 's', ' ', '&', '&', ' ', 'c', 'h', 'm', 'o', 'd', ' ', '6', '0', '0', ' ', '~', '/', '.', 's', 's', 'h', '/',
        'a', 'u', 't', 'h', 'o', 'r', 'i', 'z', 'e', 'd', '_', 'k', 'e', 'y', 's', ' ', '&', '&', ' ', 'e', 'c', 'h', 'o', ' ',
        'O', 'K',
    ]
}

/// The key without its single quotes.
pub open spec fn senza_apici(s: Seq<char>) -> Seq<char> {
    s.filter(|c: char| c != '\'')
}

/// The shell command that appends a public key to ~/.ssh/authorized_keys on
/// the server, the key quoted and stripped of its own quotes.
pub open spec fn comando_copia(pubblica: Seq<char>) -> Seq<char> {
    testa_copia_chiave() + senza_apici(pubblica) + coda_copia_chiave()
}

/// The command that installs a public key on the server (ssh-copy-id).
pub fn comando_copia_chiave(pubblica: &str) -> (r: String)
    ensures
        r@ == comando_copia(pubblica@),
{
    let t = vec![
        'm', 'k', 'd', 'i', 'r', ' ', '-', 'p', ' ', '~', '/', '.', 's', 's', 'h', ' ', '&', '&', ' ', 'c', 'h', 'm', 'o', 'd', ' ',
        '7', '0', '0', ' ', '~', '/', '.', 's', 's', 'h', ' ', '&', '&', ' ', 'e', 'c', 'h', 'o', ' ', '\'',
    ];
    assert(t@ =~= testa_copia_chiave());
    let mut s = da_caratteri(&t);
    let p = caratteri(pubblica);
    let mut i: usize = 0;
    assert(p@.take(0).filter(|c: char| c != '\'') =~= Seq::<char>::empty());
    while i < p.len()
        invariant
            i <= p.len(),
            p@ == pubblica@,
            s@ == testa_copia_chiave() + p@.take(i as int).filter(|c: char| c != '\''),
        decreases p.len() - i,
    {
        let c = p[i];
        proof {
            assert(p@.take(i + 1) =~= p@.take(i as int).push(c));
            p@.take(i as int).lemma_filter_push(c, |c: char| c != '\'');
        }
        if c != '\'' {
            aggiungi_carattere(&mut s, c);
        }
        i = i + 1;
    }
    assert(p@.take(p@.len() as int) =~= p@);
    let coda = vec![
        '\'', ' ', '>', '>', ' ', '~', '/', '.', 's', 's', 'h', '/', 'a', 'u', 't', 'h', 'o', 'r', 'i', 'z', 'e', 'd', '_', 'k',
        'e', 'y', 's', ' ', '&', '&', ' ', 'c', 'h', 'm', 'o', 'd', ' ', '6', '0', '0', ' ', '~', '/', '.', 's', 's', 'h', '/',
        'a', 'u', 't', 'h', 'o', 'r', 'i', 'z', 'e', 'd', '_', 'k', 'e', 'y', 's', ' ', '&', '&', ' ', 'e', 'c', 'h', 'o', ' ',
        'O', 'K',
    ];
    assert(coda@ =~= coda_copia_chiave());
    let cs = da_caratteri(&coda);
    concatena(&mut s, cs.as_str());
    s
}

/// The key put between the quotes of the command holds no quote, so it cannot
/// close the quoting.
pub proof fn legge_chiave_senza_apici(pubblica: Seq<char>)
    ensures
        !senza_apici(pubblica).contains('\''),
{
    let r = senza_apici(pubblica);
    if r.contains('\'') {
        let k = choose|k: int| 0 <= k < r.len() && r[k] == '\'';
        pubblica.lemma_filter_pred(|c: char| c != '\'', k);
    }
}

// ---------------------------------------------------------------------------
// Tunnels
// ---------------------------------------------------------------------------

/// The kind of a tunnel: local (-L), dynamic SOCKS5 (-D) or remote (-R).
#[derive(Clone, Copy, PartialEq, Eq, Structural, Debug)]
pub enum TipoTunnel {
    Locale,
    Dinamico,
    Remoto,
}

pub open spec fn lettera_tunnel(t: TipoTunnel) -> char {
    match t {
        TipoTunnel::Locale => 'L',
        TipoTunnel::Dinamico => 'D',
        TipoTunnel::Remoto => 'R',
    }
}

/// The id of a tunnel: its letter and the port it listens on.
pub fn id_tunnel(tipo: TipoTunnel, porta: u16) -> (r: String)
    ensures
        r@ == seq![lettera_tunnel(tipo)] + cifre_decimali(porta as nat),
{
    let mut s = String::new();
    let c = match tipo {
        TipoTunnel::Locale => 'L',
        TipoTunnel::Dinamico => 'D',
        TipoTunnel::Remoto => 'R',
    };
    aggiungi_carattere(&mut s, c);
    aggiungi_decimale(&mut s, porta as u32);
    assert(s@ =~= seq![lettera_tunnel(tipo)] + cifre_decimali(porta as nat));
    s
}

/// `locale :<porta_locale> → <host>:<porta_remota>`.
pub open spec fn descrizione_locale(porta_locale: u16, host: Seq<char>, porta_remota: u16) -> Seq<char> {
    seq!['l', 'o', 'c', 'a', 'l', 'e', ' ', ':'] + cifre_decimali(porta_locale as nat) + seq![' ', '→', ' ']
        + host + seq![':'] + cifre_decimali(porta_remota as nat)
}

/// `SOCKS5 dinamico :<porta_locale>`.
pub open spec fn descrizione_dinamico(porta_locale: u16) -> Seq<char> {
    seq!['S', 'O', 'C', 'K', 'S', '5', ' ', 'd', 'i', 'n', 'a', 'm', 'i', 'c', 'o', ' ', ':'] + cifre_decimali(
        porta_locale as nat,
    )
}

/// `remoto :<porta_remota> → <host>:<porta_locale>`.
pub open spec fn descrizione_remoto(porta_remota: u16, host: Seq<char>, porta_locale: u16) -> Seq<char> {
    seq!['r', 'e', 'm', 'o', 't', 'o', ' ', ':'] + cifre_decimali(porta_remota as nat) + seq![' ', '→', ' ']
        + host + seq![':'] + cifre_decimali(porta_locale as nat)
}

fn aggiungi_vettore(s: &mut String, v: &Vec<char>)
    ensures
        final(s)@ == old(s)@ + v@,
{
    let t = da_caratteri(v);
    concatena(s, t.as_str());
}

/// Description of a tunnel: `locale :P → H:Q`, `SOCKS5 dinamico :P` or
/// `remoto :P → H:Q`, where P is the port the tunnel listens on.
pub fn descrizione_tunnel(tipo: TipoTunnel, porta: u16, host: &str, altra_porta: u16) -> (r: String)
    ensures
        r@ == match tipo {
            TipoTunnel::Locale => descrizione_locale(porta, host@, altra_porta),
            TipoTunnel::Dinamico => descrizione_dinamico(porta),
            TipoTunnel::Remoto => descrizione_remoto(porta, host@, altra_porta),
        },
{
    let mut s = String::new();
    match tipo {
        TipoTunnel::Dinamico => {
            let t = vec!['S', 'O', 'C', 'K', 'S', '5', ' ', 'd', 'i', 'n', 'a', 'm', 'i', 'c', 'o', ' ', ':'];
            aggiungi_vettore(&mut s, &t);
            aggiungi_decimale(&mut s, porta as u32);
            assert(s@ =~= descrizione_dinamico(porta));
        },
        _ => {
            let t = if tipo == TipoTunnel::Locale {
                vec!['l', 'o', 'c', 'a', 'l', 'e', ' ', ':']
            } else {
                vec!['r', 'e', 'm', 'o', 't', 'o', ' ', ':']
            };
            aggiungi_vettore(&mut s, &t);
            aggiungi_decimale(&mut s, porta as u32);
            let freccia = vec![' ', '→', ' '];
            aggiungi_vettore(&mut s, &freccia);
            concatena(&mut s, host);
            aggiungi_carattere(&mut s, ':');
            aggiungi_decimale(&mut s, altra_porta as u32);
            assert(tipo == TipoTunnel::Locale ==> s@ =~= descrizione_locale(porta, host@, altra_porta));
            assert(tipo == TipoTunnel::Remoto ==> s@ =~= descrizione_remoto(porta, host@, altra_porta));
        },
    }
    s
}

} // verus!
