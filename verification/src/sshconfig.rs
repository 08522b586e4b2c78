//! Minimal parser of `~/.ssh/config`: extracts the hosts to fill the address
//! book. It knows HostName, User, Port, IdentityFile and ProxyJump. Hosts with
//! wildcards (`*`, `?`) are skipped (they are not concrete hosts).

use vstd::prelude::*;
use vstd::utf8::is_ascii_chars;

use crate::model::{testi, testo_opz, viste, Sessione, TipoSessione, VistaSessione};
use crate::testo::{
    caratteri, contiene, da_caratteri, e_spazio, lemma_lunghezza_parola, lemma_lunghezza_parola_indici,
    lemma_primo, lemma_primo_unico, lunghezza_parola, numero, numero_u16, parole, posizione, primo,
    salta_carattere, salta_spazi, senza_iniziali, senza_spazi_finali, senza_spazi_iniziali, spazio, stringa, taglia,
    taglia_indici, trova, uguale, uguale_a,
};

verus! {

// ---------------------------------------------------------------------------
// The format
// ---------------------------------------------------------------------------

/// What `str::to_lowercase` gives for a text (full Unicode lower-casing).
pub uninterp spec fn minuscolo(s: Seq<char>) -> Seq<char>;

/// ASCII lower-casing: `A`..`Z` become `a`..`z`.
pub open spec fn minuscolo_ascii(s: Seq<char>) -> Seq<char> {
    s.map_values(|c: char| if 'A' <= c <= 'Z' { ((c as u32) + 32) as char } else { c })
}

/// `str::to_lowercase`. Claimed: the result is a function of the text alone,
/// and on an ASCII text it is the ASCII lower-casing. Not claimed: what the
/// full Unicode mapping does to other characters.
#[verifier::external_body]
pub(crate) fn minuscole(s: &str) -> (r: String)
    ensures
        r@ == minuscolo(s@),
        is_ascii_chars(s@) ==> r@ == minuscolo_ascii(s@),
{
    s.to_lowercase()
}

/// The characters that separate a keyword from its value.
pub open spec fn separatore(c: char) -> bool {
    c == ' ' || c == '\t' || c == '='
}

/// The predicate "is a separator".
pub open spec fn e_separatore() -> spec_fn(char) -> bool {
    |c: char| separatore(c)
}

/// A line read as `(keyword in lower case, value)`; `None` for blank lines,
/// comments and lines without a separator.
pub open spec fn voce_riga(r: Seq<char>) -> Option<(Seq<char>, Seq<char>)> {
    let t = taglia(r);
    if t.len() == 0 || t[0] == '#' {
        None
    } else {
        match primo(t, e_separatore()) {
            Some(i) => Some(
                (
                    minuscolo(taglia(t.subrange(0, i))),
                    taglia(senza_iniziali(taglia(t.subrange(i + 1, t.len() as int)), '=')),
                ),
            ),
            None => None,
        }
    }
}

pub open spec fn kw_host() -> Seq<char> {
    seq!['h', 'o', 's', 't']
}

pub open spec fn kw_hostname() -> Seq<char> {
    seq!['h', 'o', 's', 't', 'n', 'a', 'm', 'e']
}

pub open spec fn kw_port() -> Seq<char> {
    seq!['p', 'o', 'r', 't']
}

pub open spec fn kw_user() -> Seq<char> {
    seq!['u', 's', 'e', 'r']
}

pub open spec fn kw_identityfile() -> Seq<char> {
    seq!['i', 'd', 'e', 'n', 't', 'i', 't', 'y', 'f', 'i', 'l', 'e']
}

pub open spec fn kw_proxyjump() -> Seq<char> {
    seq!['p', 'r', 'o', 'x', 'y', 'j', 'u', 'm', 'p']
}

/// `sshcfg-`, the prefix of the ids of imported sessions.
pub open spec fn prefisso_id() -> Seq<char> {
    seq!['s', 's', 'h', 'c', 'f', 'g', '-']
}

/// `~/.ssh/config`, the group of imported sessions.
pub open spec fn gruppo_config() -> Seq<char> {
    seq!['~', '/', '.', 's', 's', 'h', '/', 'c', 'o', 'n', 'f', 'i', 'g']
}

/// The value of the last line of the block with keyword `k` (later lines win).
pub open spec fn cerca(campi: Seq<(Seq<char>, Seq<char>)>, k: Seq<char>) -> Option<Seq<char>>
    decreases campi.len(),
{
    if campi.len() == 0 {
        None
    } else if campi.last().0 == k {
        Some(campi.last().1)
    } else {
        cerca(campi.drop_last(), k)
    }
}

/// `(host, port, user)` of the first hop of a ProxyJump value `user@host:port`.
pub open spec fn salto(v: Option<Seq<char>>) -> (Option<Seq<char>>, Option<u16>, Option<Seq<char>>) {
    match v {
        None => (None, None, None),
        Some(v) => {
            let primo_hop = match posizione(v, ',') {
                Some(i) => v.subrange(0, i),
                None => v,
            };
            let p = taglia(primo_hop);
            if p.len() == 0 {
                (None, None, None)
            } else {
                let (utente, resto) = match posizione(p, '@') {
                    Some(i) => (Some(p.subrange(0, i)), p.subrange(i + 1, p.len() as int)),
                    None => (None, p),
                };
                match posizione(resto, ':') {
                    Some(i) => (
                        Some(resto.subrange(0, i)),
                        match numero(resto.subrange(i + 1, resto.len() as int), 10, 65535) {
                            Some(n) => Some(n as u16),
                            None => None,
                        },
                        utente,
                    ),
                    None => (Some(resto), None, utente),
                }
            }
        },
    }
}

/// The session that a concrete host name of a block becomes.
pub open spec fn sessione_da(nome: Seq<char>, campi: Seq<(Seq<char>, Seq<char>)>) -> VistaSessione {
    let jump = salto(cerca(campi, kw_proxyjump()));
    VistaSessione {
        id: prefisso_id() + nome,
        nome: nome,
        tipo: TipoSessione::Ssh,
        host: match cerca(campi, kw_hostname()) {
            Some(h) => h,
            None => nome,
        },
        porta: match cerca(campi, kw_port()) {
            Some(p) => match numero(p, 10, 65535) {
                Some(n) => n as u16,
                None => 22,
            },
            None => 22,
        },
        utente: match cerca(campi, kw_user()) {
            Some(u) => u,
            None => Seq::empty(),
        },
        chiave: cerca(campi, kw_identityfile()),
        gruppo: Some(gruppo_config()),
        colore: None,
        porta_seriale: None,
        baud: None,
        tags: Seq::empty(),
        comandi_avvio: None,
        jump_host: jump.0,
        jump_porta: jump.1,
        jump_utente: jump.2,
        jump_chiave: None,
    }
}

/// A host name with a wildcard names no concrete host.
pub open spec fn jolly(nome: Seq<char>) -> bool {
    nome.contains('*') || nome.contains('?')
}

/// The sessions of a block: one per concrete host name, in order.
pub open spec fn sessioni_blocco(nomi: Seq<Seq<char>>, campi: Seq<(Seq<char>, Seq<char>)>) -> Seq<
    VistaSessione,
>
    decreases nomi.len(),
{
    if nomi.len() == 0 {
        Seq::empty()
    } else {
        sessioni_blocco(nomi.drop_last(), campi) + if jolly(nomi.last()) {
            Seq::empty()
        } else {
            seq![sessione_da(nomi.last(), campi)]
        }
    }
}

/// State of the reading: sessions so far, host names of the open block and
/// its `(keyword, value)` lines.
pub struct StatoConfig {
    pub out: Seq<VistaSessione>,
    pub nomi: Seq<Seq<char>>,
    pub campi: Seq<(Seq<char>, Seq<char>)>,
}

/// The effect of a keyword `k` (already in lower case) with value `v`:
/// `host` closes the open block and opens a new one; any other keyword is
/// recorded in the open block.
pub open spec fn applica(st: StatoConfig, k: Seq<char>, v: Seq<char>) -> StatoConfig {
    if k == kw_host() {
        StatoConfig {
            out: st.out + sessioni_blocco(st.nomi, st.campi),
            nomi: parole(v),
            campi: Seq::empty(),
        }
    } else {
        StatoConfig { campi: st.campi.push((k, v)), ..st }
    }
}

/// The effect of one line.
pub open spec fn passo(st: StatoConfig, r: Seq<char>) -> StatoConfig {
    match voce_riga(r) {
        None => st,
        Some((k, v)) => applica(st, k, v),
    }
}

/// Sessions read from `resto` (the lines still to read) starting in state `st`.
pub open spec fn esito(resto: Seq<char>, st: StatoConfig) -> Seq<VistaSessione>
    decreases resto.len(),
{
    match posizione(resto, '\n') {
        None => {
            let fine = passo(st, resto);
            fine.out + sessioni_blocco(fine.nomi, fine.campi)
        },
        Some(j) => {
            proof {
                lemma_primo(resto, uguale_a('\n'));
            }
            esito(resto.subrange(j + 1, resto.len() as int), passo(st, resto.subrange(0, j)))
        },
    }
}

/// The sessions that an ssh_config text describes.
pub open spec fn sessioni_config(testo: Seq<char>) -> Seq<VistaSessione> {
    esito(testo, StatoConfig { out: Seq::empty(), nomi: Seq::empty(), campi: Seq::empty() })
}

// ---------------------------------------------------------------------------
// Laws
// ---------------------------------------------------------------------------

proof fn lemma_rientro(rientro: Seq<char>, r: Seq<char>)
    requires
        forall|i: int| 0 <= i < rientro.len() ==> spazio(#[trigger] rientro[i]),
        r.len() > 0,
        !spazio(r[0]),
    ensures
        senza_spazi_iniziali(rientro + r) == r,
    decreases rientro.len(),
{
    if rientro.len() == 0 {
        assert(rientro + r =~= r);
    } else {
        assert((rientro + r)[0] == rientro[0]);
        assert((rientro + r).drop_first() =~= rientro.drop_first() + r);
        let resto = rientro.drop_first();
        assert forall|i: int| 0 <= i < resto.len() implies spazio(#[trigger] resto[i]) by {
            assert(resto[i] == rientro[i + 1]);
        };
        lemma_rientro(resto, r);
    }
}

proof fn lemma_taglia_fermo(s: Seq<char>)
    requires
        s.len() > 0,
        !spazio(s[0]),
        !spazio(s.last()),
    ensures
        taglia(s) == s,
{
    assert(senza_spazi_iniziali(s) == s);
    assert(senza_spazi_finali(s) == s);
}

/// A line `keyword <separator> value`, indented by any whitespace, with the
/// keyword and the value separated by a space, a tab or `=`, is read as the
/// keyword in lower case and the value.
pub proof fn legge_riga_parola_chiave(rientro: Seq<char>, k: Seq<char>, sep: char, v: Seq<char>)
    requires
        forall|i: int| 0 <= i < rientro.len() ==> spazio(#[trigger] rientro[i]),
        k.len() > 0,
        k[0] != '#',
        !spazio(k[0]),
        !spazio(k.last()),
        forall|i: int| 0 <= i < k.len() ==> #[trigger] k[i] != ' ' && k[i] != '\t' && k[i] != '=',
        sep == ' ' || sep == '\t' || sep == '=',
        v.len() > 0,
        !spazio(v[0]),
        !spazio(v.last()),
        v[0] != '=',
    ensures
        voce_riga(rientro + k + seq![sep] + v) == Some((minuscolo(k), v)),
{
    let t = k + seq![sep] + v;
    assert(rientro + k + seq![sep] + v =~= rientro + t);
    assert(t[0] == k[0]);
    lemma_rientro(rientro, t);
    assert(t.last() == v.last());
    assert(senza_spazi_finali(t) == t);
    assert(taglia(rientro + t) == t);
    assert forall|j: int| 0 <= j < k.len() implies !e_separatore()(#[trigger] t[j]) by {
        assert(t[j] == k[j]);
    };
    assert(t[k.len() as int] == sep);
    lemma_primo_unico(t, e_separatore(), k.len() as int);
    assert(t.subrange(0, k.len() as int) =~= k);
    assert(t.subrange(k.len() as int + 1, t.len() as int) =~= v);
    lemma_taglia_fermo(k);
    lemma_taglia_fermo(v);
    assert(senza_iniziali(v, '=') == v);
}

/// Every session is named after a concrete host (no wildcard) and its id is
/// `sshcfg-` followed by that name.
pub open spec fn importabile(v: VistaSessione) -> bool {
    &&& !jolly(v.nome)
    &&& v.id == prefisso_id() + v.nome
}

proof fn lemma_blocco_importabile(nomi: Seq<Seq<char>>, campi: Seq<(Seq<char>, Seq<char>)>)
    ensures
        forall|i: int|
            0 <= i < sessioni_blocco(nomi, campi).len() ==> importabile(
                #[trigger] sessioni_blocco(nomi, campi)[i],
            ),
    decreases nomi.len(),
{
    if nomi.len() > 0 {
        lemma_blocco_importabile(nomi.drop_last(), campi);
        let pre = sessioni_blocco(nomi.drop_last(), campi);
        let r = sessioni_blocco(nomi, campi);
        assert forall|i: int| 0 <= i < r.len() implies importabile(#[trigger] r[i]) by {
            if i < pre.len() {
                assert(r[i] == pre[i]);
            } else {
                assert(r[i] == sessione_da(nomi.last(), campi));
            }
        }
    }
}

proof fn lemma_esito_importabile(resto: Seq<char>, st: StatoConfig)
    requires
        forall|i: int| 0 <= i < st.out.len() ==> importabile(#[trigger] st.out[i]),
    ensures
        forall|i: int| 0 <= i < esito(resto, st).len() ==> importabile(#[trigger] esito(resto, st)[i]),
    decreases resto.len(),
{
    lemma_primo(resto, uguale_a('\n'));
    let riga = match posizione(resto, '\n') {
        Some(j) => resto.subrange(0, j),
        None => resto,
    };
    let dopo = passo(st, riga);
    lemma_blocco_importabile(st.nomi, st.campi);
    assert forall|i: int| 0 <= i < dopo.out.len() implies importabile(#[trigger] dopo.out[i]) by {
        if i >= st.out.len() {
            assert(dopo.out[i] == sessioni_blocco(st.nomi, st.campi)[i - st.out.len()]);
        }
    }
    match posizione(resto, '\n') {
        Some(j) => {
            lemma_esito_importabile(resto.subrange(j + 1, resto.len() as int), dopo);
            assert(esito(resto, st) == esito(resto.subrange(j + 1, resto.len() as int), dopo));
        },
        None => {
            lemma_blocco_importabile(dopo.nomi, dopo.campi);
            let r = esito(resto, st);
            assert forall|i: int| 0 <= i < r.len() implies importabile(#[trigger] r[i]) by {
                if i >= dopo.out.len() {
                    assert(r[i] == sessioni_blocco(dopo.nomi, dopo.campi)[i - dopo.out.len()]);
                }
            }
        },
    }
}

/// Hosts with wildcards are never imported, and every imported session has
/// the id `sshcfg-<name>`.
pub proof fn legge_sessioni_importabili(testo: Seq<char>)
    ensures
        forall|i: int|
            0 <= i < sessioni_config(testo).len() ==> importabile(#[trigger] sessioni_config(testo)[i]),
{
    lemma_esito_importabile(
        testo,
        StatoConfig { out: Seq::empty(), nomi: Seq::empty(), campi: Seq::empty() },
    );
}

// ---------------------------------------------------------------------------
// Reading
// ---------------------------------------------------------------------------

pub open spec fn vista_nomi(v: Seq<Vec<char>>) -> Seq<Seq<char>> {
    v.map_values(|x: Vec<char>| x@)
}

pub open spec fn vista_campi(v: Seq<(Vec<char>, Vec<char>)>) -> Seq<(Seq<char>, Seq<char>)> {
    v.map_values(|x: (Vec<char>, Vec<char>)| (x.0@, x.1@))
}

pub open spec fn stato(
    out: Seq<Sessione>,
    nomi: Seq<Vec<char>>,
    campi: Seq<(Vec<char>, Vec<char>)>,
) -> StatoConfig {
    StatoConfig { out: viste(out), nomi: vista_nomi(nomi), campi: vista_campi(campi) }
}

/// Converts the text of an ssh_config into a list of sessions.
pub fn parse(testo: &str) -> (r: Vec<Sessione>)
    ensures
        viste(r@) == sessioni_config(testo@),
{
    let s = caratteri(testo);
    let mut out: Vec<Sessione> = Vec::new();
    let mut nomi: Vec<Vec<char>> = Vec::new();
    let mut campi: Vec<(Vec<char>, Vec<char>)> = Vec::new();
    let mut inizio: usize = 0;
    let n = s.len();
    assert(viste(out@) =~= Seq::empty());
    assert(vista_nomi(nomi@) =~= Seq::empty());
    assert(vista_campi(campi@) =~= Seq::empty());
    assert(s@.subrange(0, n as int) =~= s@);
    loop
        invariant
            n == s.len(),
            inizio <= n,
            s@ == testo@,
            esito(s@.subrange(inizio as int, n as int), stato(out@, nomi@, campi@))
                == sessioni_config(testo@),
        decreases n - inizio,
    {
        let j = trova(&s, inizio, n, '\n');
        let ghost resto = s@.subrange(inizio as int, n as int);
        let ghost prima = stato(out@, nomi@, campi@);
        elabora_riga(&s, inizio, j, &mut out, &mut nomi, &mut campi);
        if j == n {
            assert(resto.subrange(0, resto.len() as int) =~= resto);
            chiudi_blocco(&mut out, &nomi, &campi);
            return out;
        }
        assert(resto.subrange(0, j - inizio) =~= s@.subrange(inizio as int, j as int));
        assert(resto.subrange(j - inizio + 1, resto.len() as int) =~= s@.subrange(
            j + 1,
            n as int,
        ));
        inizio = j + 1;
    }
}

/// Applies one line `s[a..b]` to the reading state.
fn elabora_riga(
    s: &Vec<char>,
    a: usize,
    b: usize,
    out: &mut Vec<Sessione>,
    nomi: &mut Vec<Vec<char>>,
    campi: &mut Vec<(Vec<char>, Vec<char>)>,
)
    requires
        a <= b <= s.len(),
    ensures
        stato(final(out)@, final(nomi)@, final(campi)@) == passo(
            stato(old(out)@, old(nomi)@, old(campi)@),
            s@.subrange(a as int, b as int),
        ),
{
    match leggi_voce(s, a, b) {
        None => {},
        Some((k, v)) => applica_voce(out, nomi, campi, k, v),
    }
}

/// Applies a keyword `k` (already in lower case) with value `v` to the
/// reading state: the sessions so far, the host names of the open block and
/// its lines.
pub fn applica_voce(
    out: &mut Vec<Sessione>,
    nomi: &mut Vec<Vec<char>>,
    campi: &mut Vec<(Vec<char>, Vec<char>)>,
    k: Vec<char>,
    v: Vec<char>,
)
    ensures
        stato(final(out)@, final(nomi)@, final(campi)@) == applica(
            stato(old(out)@, old(nomi)@, old(campi)@),
            k@,
            v@,
        ),
{
    let host = vec!['h', 'o', 's', 't'];
    assert(host@ =~= kw_host());
    assert(k@.subrange(0, k@.len() as int) =~= k@);
    if uguale(&k, 0, k.len(), &host) {
        chiudi_blocco(out, nomi, campi);
        campi.clear();
        *nomi = dividi_parole(&v);
        assert(vista_campi(campi@) =~= Seq::empty());
    } else {
        let ghost prima = campi@;
        campi.push((k, v));
        assert(vista_campi(campi@) =~= vista_campi(prima).push((k@, v@)));
    }
}

/// The `(keyword, value)` of the line `s[a..b]`, if it has one.
fn leggi_voce(s: &Vec<char>, a: usize, b: usize) -> (r: Option<(Vec<char>, Vec<char>)>)
    requires
        a <= b <= s.len(),
    ensures
        match r {
            Some((k, v)) => voce_riga(s@.subrange(a as int, b as int)) == Some((k@, v@)),
            None => voce_riga(s@.subrange(a as int, b as int)) is None,
        },
{
    let ghost r0 = s@.subrange(a as int, b as int);
    let (i, j) = taglia_indici(s, a, b);
    let ghost t = s@.subrange(i as int, j as int);
    if i == j || s[i] == '#' {
        return None;
    }
    let sep = trova_separatore(s, i, j);
    if sep == j {
        return None;
    }
    let (ki, kj) = taglia_indici(s, i, sep);
    let chiave = stringa(s, ki, kj);
    let minuscola = minuscole(chiave.as_str());
    let k = caratteri(minuscola.as_str());
    let (vi, vj) = taglia_indici(s, sep + 1, j);
    let vk = salta_carattere(s, vi, vj, '=');
    let (wi, wj) = taglia_indici(s, vk, vj);
    let v = copia(s, wi, wj);
    proof {
        let i0 = sep - i;
        assert(t.subrange(0, i0 as int) =~= s@.subrange(i as int, sep as int));
        assert(t.subrange(i0 + 1, t.len() as int) =~= s@.subrange(sep + 1, j as int));
    }
    Some((k, v))
}

/// Index of the first separator of `s[a..b]`, or `b` when there is none.
fn trova_separatore(s: &Vec<char>, a: usize, b: usize) -> (r: usize)
    requires
        a <= b <= s.len(),
    ensures
        a <= r <= b,
        primo(s@.subrange(a as int, b as int), e_separatore()) == (if r < b {
            Some(r - a)
        } else {
            None::<int>
        }),
{
    let mut i = a;
    while i < b && !(s[i] == ' ' || s[i] == '\t' || s[i] == '=')
        invariant
            a <= i <= b <= s.len(),
            forall|k: int| a <= k < i ==> !separatore(s@[k]),
        decreases b - i,
    {
        i = i + 1;
    }
    proof {
        let t = s@.subrange(a as int, b as int);
        lemma_primo_unico(t, e_separatore(), i - a);
    }
    i
}

/// A copy of `s[a..b]`.
fn copia(s: &Vec<char>, a: usize, b: usize) -> (r: Vec<char>)
    requires
        a <= b <= s.len(),
    ensures
        r@ == s@.subrange(a as int, b as int),
{
    let mut out: Vec<char> = Vec::new();
    let mut i = a;
    while i < b
        invariant
            a <= i <= b <= s.len(),
            out@ == s@.subrange(a as int, i as int),
        decreases b - i,
    {
        out.push(s[i]);
        assert(out@ =~= s@.subrange(a as int, i + 1));
        i = i + 1;
    }
    out
}

/// `split_whitespace`, collected.
fn dividi_parole(s: &Vec<char>) -> (r: Vec<Vec<char>>)
    ensures
        vista_nomi(r@) == parole(s@),
{
    let n = s.len();
    let mut out: Vec<Vec<char>> = Vec::new();
    let mut p: usize = 0;
    assert(s@.subrange(0, n as int) =~= s@);
    assert(vista_nomi(out@) =~= Seq::empty());
    loop
        invariant
            n == s.len(),
            p <= n,
            parole(s@) == vista_nomi(out@) + parole(s@.subrange(p as int, n as int)),
        decreases n - p,
    {
        let q = salta_spazi(s, p, n);
        let ghost resto = s@.subrange(p as int, n as int);
        if q == n {
            assert(vista_nomi(out@) + Seq::<Seq<char>>::empty() =~= vista_nomi(out@));
            return out;
        }
        let mut e = q;
        while e < n && !e_spazio(s[e])
            invariant
                q <= e <= n == s.len(),
                forall|k: int| q <= k < e ==> !spazio(s@[k]),
            decreases n - e,
        {
            e = e + 1;
        }
        let parola = copia(s, q, e);
        proof {
            let t = s@.subrange(q as int, n as int);
            lemma_lunghezza_parola_indici(t, e - q);
            assert(t.subrange(0, e - q) =~= s@.subrange(q as int, e as int));
            assert(t.subrange(e - q, t.len() as int) =~= s@.subrange(e as int, n as int));
        }
        let ghost prima = out@;
        out.push(parola);
        assert(vista_nomi(out@) =~= vista_nomi(prima).push(s@.subrange(q as int, e as int)));
        assert(vista_nomi(out@) + parole(s@.subrange(e as int, n as int)) =~= vista_nomi(prima)
            + parole(resto));
        p = e;
    }
}

/// Closes a block: adds its sessions to `out`.
fn chiudi_blocco(
    out: &mut Vec<Sessione>,
    nomi: &Vec<Vec<char>>,
    campi: &Vec<(Vec<char>, Vec<char>)>,
)
    ensures
        viste(final(out)@) == viste(old(out)@) + sessioni_blocco(
            vista_nomi(nomi@),
            vista_campi(campi@),
        ),
{
    let ghost base = viste(out@);
    let ghost vn = vista_nomi(nomi@);
    let ghost vc = vista_campi(campi@);
    let mut i: usize = 0;
    assert(vn.take(0) =~= Seq::empty());
    assert(base + Seq::<VistaSessione>::empty() =~= base);
    while i < nomi.len()
        invariant
            i <= nomi.len(),
            vn == vista_nomi(nomi@),
            vc == vista_campi(campi@),
            viste(out@) == base + sessioni_blocco(vn.take(i as int), vc),
        decreases nomi.len() - i,
    {
        let nome = &nomi[i];
        assert(vn.take(i + 1).drop_last() =~= vn.take(i as int));
        assert(vn.take(i + 1).last() == nome@);
        if contiene(nome, '*') || contiene(nome, '?') {
            assert(sessioni_blocco(vn.take(i + 1), vc) =~= sessioni_blocco(vn.take(i as int), vc));
        } else {
            let s = crea_sessione(nome, campi);
            let ghost prima = out@;
            out.push(s);
            assert(viste(out@) =~= viste(prima).push(sessione_da(nome@, vc)));
            assert(viste(out@) =~= base + sessioni_blocco(vn.take(i + 1), vc));
        }
        i = i + 1;
    }
    assert(vn.take(nomi.len() as int) =~= vn);
}

/// Index of the last line of the block with keyword `k`.
fn cerca_indice(campi: &Vec<(Vec<char>, Vec<char>)>, k: &Vec<char>) -> (r: Option<usize>)
    ensures
        match r {
            Some(i) => i < campi.len() && cerca(vista_campi(campi@), k@) == Some(campi@[i as int].1@),
            None => cerca(vista_campi(campi@), k@) is None,
        },
{
    let ghost vc = vista_campi(campi@);
    let mut i = campi.len();
    assert(vc.take(i as int) =~= vc);
    while i > 0
        invariant
            i <= campi.len(),
            vc == vista_campi(campi@),
            cerca(vc, k@) == cerca(vc.take(i as int), k@),
        decreases i,
    {
        let chiave = &campi[i - 1].0;
        assert(vc.take(i as int).last() == (campi@[i - 1].0@, campi@[i - 1].1@));
        assert(vc.take(i as int).drop_last() =~= vc.take(i - 1));
        if uguale(chiave, 0, chiave.len(), k) {
            assert(chiave@.subrange(0, chiave@.len() as int) =~= chiave@);
            return Some(i - 1);
        }
        assert(chiave@.subrange(0, chiave@.len() as int) =~= chiave@);
        i = i - 1;
    }
    assert(vc.take(0) =~= Seq::empty());
    None
}

/// The session that the concrete host name `nome` becomes.
fn crea_sessione(nome: &Vec<char>, campi: &Vec<(Vec<char>, Vec<char>)>) -> (r: Sessione)
    ensures
        r@ == sessione_da(nome@, vista_campi(campi@)),
{
    let ghost vc = vista_campi(campi@);
    let mut id_car = vec!['s', 's', 'h', 'c', 'f', 'g', '-'];
    assert(id_car@ =~= prefisso_id());
    let mut k: usize = 0;
    while k < nome.len()
        invariant
            k <= nome.len(),
            id_car@ == prefisso_id() + nome@.subrange(0, k as int),
        decreases nome.len() - k,
    {
        id_car.push(nome[k]);
        assert(id_car@ =~= prefisso_id() + nome@.subrange(0, k + 1));
        k = k + 1;
    }
    assert(nome@.subrange(0, nome@.len() as int) =~= nome@);
    let id = da_caratteri(&id_car);

    let kh = vec!['h', 'o', 's', 't', 'n', 'a', 'm', 'e'];
    assert(kh@ =~= kw_hostname());
    let host = match cerca_indice(campi, &kh) {
        Some(i) => da_caratteri(&campi[i].1),
        None => da_caratteri(nome),
    };

    let kp = vec!['p', 'o', 'r', 't'];
    assert(kp@ =~= kw_port());
    let porta: u16 = match cerca_indice(campi, &kp) {
        Some(i) => {
            let v = &campi[i].1;
            assert(v@.subrange(0, v@.len() as int) =~= v@);
            match numero_u16(v, 0, v.len()) {
                Some(n) => n,
                None => 22,
            }
        },
        None => 22,
    };

    let ku = vec!['u', 's', 'e', 'r'];
    assert(ku@ =~= kw_user());
    let utente = match cerca_indice(campi, &ku) {
        Some(i) => da_caratteri(&campi[i].1),
        None => String::new(),
    };

    let ki = vec!['i', 'd', 'e', 'n', 't', 'i', 't', 'y', 'f', 'i', 'l', 'e'];
    assert(ki@ =~= kw_identityfile());
    let chiave = match cerca_indice(campi, &ki) {
        Some(i) => Some(da_caratteri(&campi[i].1)),
        None => None,
    };

    let kj = vec!['p', 'r', 'o', 'x', 'y', 'j', 'u', 'm', 'p'];
    assert(kj@ =~= kw_proxyjump());
    let (jump_host, jump_porta, jump_utente) = match cerca_indice(campi, &kj) {
        Some(i) => leggi_salto(&campi[i].1),
        None => (None, None, None),
    };

    let g = vec!['~', '/', '.', 's', 's', 'h', '/', 'c', 'o', 'n', 'f', 'i', 'g'];
    assert(g@ =~= gruppo_config());
    let gruppo = Some(da_caratteri(&g));

    let tags: Vec<String> = Vec::new();
    assert(testi(tags@) =~= Seq::empty());

    Sessione {
        id,
        nome: da_caratteri(nome),
        tipo: TipoSessione::Ssh,
        host,
        porta,
        utente,
        chiave,
        gruppo,
        colore: None,
        porta_seriale: None,
        baud: None,
        tags,
        comandi_avvio: None,
        jump_host,
        jump_porta,
        jump_utente,
        jump_chiave: None,
    }
}

/// Host, port and user of the first hop of a ProxyJump value.
fn leggi_salto(v: &Vec<char>) -> (r: (Option<String>, Option<u16>, Option<String>))
    ensures
        (testo_opz(r.0), r.1, testo_opz(r.2)) == salto(Some(v@)),
{
    let n = v.len();
    let fine = trova(v, 0, n, ',');
    assert(v@.subrange(0, n as int) =~= v@);
    let ghost primo_hop = match posizione(v@, ',') {
        Some(i) => v@.subrange(0, i),
        None => v@,
    };
    assert(primo_hop =~= v@.subrange(0, fine as int));
    let (i, j) = taglia_indici(v, 0, fine);
    let ghost p = v@.subrange(i as int, j as int);
    if i == j {
        return (None, None, None);
    }
    let at = trova(v, i, j, '@');
    let ghost resto_s = match posizione(p, '@') {
        Some(x) => p.subrange(x + 1, p.len() as int),
        None => p,
    };
    let (utente, r0) = if at < j {
        assert(p.subrange(0, at - i) =~= v@.subrange(i as int, at as int));
        (Some(stringa(v, i, at)), at + 1)
    } else {
        (None, i)
    };
    assert(resto_s =~= v@.subrange(r0 as int, j as int));
    let col = trova(v, r0, j, ':');
    if col < j {
        assert(resto_s.subrange(0, col - r0) =~= v@.subrange(r0 as int, col as int));
        assert(resto_s.subrange(col - r0 + 1, resto_s.len() as int) =~= v@.subrange(
            col + 1,
            j as int,
        ));
        (Some(stringa(v, r0, col)), numero_u16(v, col + 1, j), utente)
    } else {
        (Some(stringa(v, r0, j)), None, utente)
    }
}

} // verus!
