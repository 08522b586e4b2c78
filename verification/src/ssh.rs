//! SSH connection logic: the trust decision on the server key (known_hosts,
//! trust on first use), the texts of the connection, and the SOCKS5 proxy
//! protocol of dynamic forwarding (-D). The SSH transport itself lives with
//! the caller.

use vstd::prelude::*;
use vstd::utf8::{decode_utf8, valid_utf8};

use crate::testo::{
    aggiungi_carattere, aggiungi_decimale, caratteri, cifre_decimali, concatena, da_caratteri, uguale,
};

verus! {

// ---------------------------------------------------------------------------
// Trust in the server key
// ---------------------------------------------------------------------------

/// How far to trust the server key while connecting.
#[derive(Clone, Copy, PartialEq, Eq, Structural, Debug)]
pub enum ModoFiducia {
    /// Normal behaviour: refuse unknown or changed keys.
    Normale,
    /// Accept and remember an unknown key (first connection).
    AccettaNuova,
    /// Replace a changed key (the user knows what they are doing).
    Sostituisci,
}

/// The trust mode that the user interface asks for: `"accetta"` accepts a new
/// key, `"sostituisci"` replaces a changed one, anything else is normal.
pub open spec fn modo_richiesto(modo: Option<Seq<char>>) -> ModoFiducia {
    match modo {
        Some(m) => if m == seq!['a', 'c', 'c', 'e', 't', 't', 'a'] {
            ModoFiducia::AccettaNuova
        } else if m == seq!['s', 'o', 's', 't', 'i', 't', 'u', 'i', 's', 'c', 'i'] {
            ModoFiducia::Sostituisci
        } else {
            ModoFiducia::Normale
        },
        None => ModoFiducia::Normale,
    }
}

/// Reads the trust mode sent by the user interface.
pub fn modo_da_testo(modo: Option<&str>) -> (r: ModoFiducia)
    ensures
        r == modo_richiesto(match modo {
            Some(m) => Some(m@),
            None => None,
        }),
{
    match modo {
        None => ModoFiducia::Normale,
        Some(m) => {
            let c = caratteri(m);
            let accetta = vec!['a', 'c', 'c', 'e', 't', 't', 'a'];
            let sostituisci = vec!['s', 'o', 's', 't', 'i', 't', 'u', 'i', 's', 'c', 'i'];
            assert(c@.subrange(0, c@.len() as int) =~= c@);
            if uguale(&c, 0, c.len(), &accetta) {
                assert(accetta@ =~= seq!['a', 'c', 'c', 'e', 't', 't', 'a']);
                ModoFiducia::AccettaNuova
            } else if uguale(&c, 0, c.len(), &sostituisci) {
                assert(accetta@ =~= seq!['a', 'c', 'c', 'e', 't', 't', 'a']);
                assert(sostituisci@ =~= seq!['s', 'o', 's', 't', 'i', 't', 'u', 'i', 's', 'c', 'i']);
                ModoFiducia::Sostituisci
            } else {
                assert(accetta@ =~= seq!['a', 'c', 'c', 'e', 't', 't', 'a']);
                assert(sostituisci@ =~= seq!['s', 'o', 's', 't', 'i', 't', 'u', 'i', 's', 'c', 'i']);
                ModoFiducia::Normale
            }
        },
    }
}

/// Why a server key was refused.
#[derive(Clone, Copy, PartialEq, Eq, Structural, Debug)]
pub enum StatoChiave {
    /// The server is not known yet.
    Nuova,
    /// The server is known with another key.
    Cambiata,
}

/// Outcome of the check of a server key.
pub struct Verifica {
    pub accettata: bool,
    /// Why the key was refused, when it was.
    pub rifiuto: Option<StatoChiave>,
}

/// Known hosts: `(host:port, key in OpenSSH form)`.
pub open spec fn vista_conosciuti(m: Seq<(String, String)>) -> Seq<(Seq<char>, Seq<char>)> {
    m.map_values(|e: (String, String)| (e.0@, e.1@))
}

/// The key saved for a label: the first entry with that label.
pub open spec fn chiave_salvata(m: Seq<(Seq<char>, Seq<char>)>, etichetta: Seq<char>) -> Option<
    Seq<char>,
>
    decreases m.len(),
{
    if m.len() == 0 {
        None
    } else if m[0].0 == etichetta {
        Some(m[0].1)
    } else {
        chiave_salvata(m.drop_first(), etichetta)
    }
}

/// The known hosts with the key of a label set: its entry replaced in place,
/// or a new entry at the end.
pub open spec fn con_chiave(m: Seq<(Seq<char>, Seq<char>)>, etichetta: Seq<char>, chiave: Seq<char>) -> Seq<
    (Seq<char>, Seq<char>),
>
    decreases m.len(),
{
    if m.len() == 0 {
        seq![(etichetta, chiave)]
    } else if m[0].0 == etichetta {
        m.update(0, (etichetta, chiave))
    } else {
        seq![m[0]] + con_chiave(m.drop_first(), etichetta, chiave)
    }
}

/// No label occurs twice among the known hosts.
pub open spec fn etichette_uniche(m: Seq<(Seq<char>, Seq<char>)>) -> bool {
    forall|i: int, j: int| 0 <= i < j < m.len() ==> #[trigger] m[i].0 != #[trigger] m[j].0
}

/// The decision on a server key: `(accepted, reason of a refusal, known hosts
/// after)`. The saved key accepts; a changed key is replaced only in mode
/// `Sostituisci`; an unknown key is remembered in modes `AccettaNuova` and
/// `Sostituisci`; every other case is refused and changes nothing.
pub open spec fn esito_verifica(
    m: Seq<(Seq<char>, Seq<char>)>,
    etichetta: Seq<char>,
    attuale: Seq<char>,
    modo: ModoFiducia,
) -> (bool, Option<StatoChiave>, Seq<(Seq<char>, Seq<char>)>) {
    match chiave_salvata(m, etichetta) {
        Some(k) => if k == attuale {
            (true, None, m)
        } else if modo == ModoFiducia::Sostituisci {
            (true, None, con_chiave(m, etichetta, attuale))
        } else {
            (false, Some(StatoChiave::Cambiata), m)
        },
        None => if modo == ModoFiducia::Normale {
            (false, Some(StatoChiave::Nuova), m)
        } else {
            (true, None, con_chiave(m, etichetta, attuale))
        },
    }
}

fn indice_etichetta(m: &Vec<(String, String)>, etichetta: &String) -> (r: Option<usize>)
    ensures
        match r {
            Some(i) => i < m.len() && chiave_salvata(vista_conosciuti(m@), etichetta@) == Some(
                m@[i as int].1@,
            ) && m@[i as int].0@ == etichetta@ && forall|j: int|
                0 <= j < i ==> m@[j].0@ != etichetta@,
            None => chiave_salvata(vista_conosciuti(m@), etichetta@) is None && forall|j: int|
                0 <= j < m.len() ==> m@[j].0@ != etichetta@,
        },
{
    let ghost vm = vista_conosciuti(m@);
    let mut i: usize = 0;
    assert(vm.skip(0) =~= vm);
    while i < m.len()
        invariant
            i <= m.len(),
            vm == vista_conosciuti(m@),
            chiave_salvata(vm, etichetta@) == chiave_salvata(vm.skip(i as int), etichetta@),
            forall|j: int| 0 <= j < i ==> m@[j].0@ != etichetta@,
        decreases m.len() - i,
    {
        assert(vm.skip(i as int).drop_first() =~= vm.skip(i + 1));
        assert(vm.skip(i as int)[0] == (m@[i as int].0@, m@[i as int].1@));
        if m[i].0 == *etichetta {
            return Some(i);
        }
        i = i + 1;
    }
    None
}

proof fn lemma_con_chiave_indice(
    m: Seq<(Seq<char>, Seq<char>)>,
    e: Seq<char>,
    k: Seq<char>,
    i: int,
)
    requires
        0 <= i < m.len(),
        m[i].0 == e,
        forall|j: int| 0 <= j < i ==> m[j].0 != e,
    ensures
        con_chiave(m, e, k) == m.update(i, (e, k)),
    decreases m.len(),
{
    if i > 0 {
        lemma_con_chiave_indice(m.drop_first(), e, k, i - 1);
        assert(seq![m[0]] + m.drop_first().update(i - 1, (e, k)) =~= m.update(i, (e, k)));
    }
}

proof fn lemma_con_chiave_assente(m: Seq<(Seq<char>, Seq<char>)>, e: Seq<char>, k: Seq<char>)
    requires
        forall|j: int| 0 <= j < m.len() ==> m[j].0 != e,
    ensures
        con_chiave(m, e, k) == m.push((e, k)),
    decreases m.len(),
{
    if m.len() > 0 {
        lemma_con_chiave_assente(m.drop_first(), e, k);
        assert(seq![m[0]] + m.drop_first().push((e, k)) =~= m.push((e, k)));
    }
}

/// Checks the key of a server against the known hosts, remembering it where
/// the trust mode allows.
pub fn verifica_chiave(
    conosciuti: &mut Vec<(String, String)>,
    etichetta: &str,
    attuale: &str,
    modo: ModoFiducia,
) -> (r: Verifica)
    ensures
        (r.accettata, r.rifiuto, vista_conosciuti(final(conosciuti)@)) == esito_verifica(
            vista_conosciuti(old(conosciuti)@),
            etichetta@,
            attuale@,
            modo,
        ),
        etichette_uniche(vista_conosciuti(old(conosciuti)@)) ==> etichette_uniche(
            vista_conosciuti(final(conosciuti)@),
        ),
{
    let ghost prima = vista_conosciuti(conosciuti@);
    let et = da_caratteri(&caratteri(etichetta));
    let chiave = da_caratteri(&caratteri(attuale));
    match indice_etichetta(conosciuti, &et) {
        Some(i) => {
            if conosciuti[i].1 == chiave {
                Verifica { accettata: true, rifiuto: None }
            } else if modo == ModoFiducia::Sostituisci {
                conosciuti.set(i, (et, chiave));
                proof {
                    lemma_con_chiave_indice(prima, etichetta@, attuale@, i as int);
                    assert(vista_conosciuti(conosciuti@) =~= prima.update(
                        i as int,
                        (etichetta@, attuale@),
                    ));
                    let dopo = vista_conosciuti(conosciuti@);
                    if etichette_uniche(prima) {
                        assert forall|a: int, b: int| 0 <= a < b < dopo.len() implies #[trigger] dopo[a].0
                            != #[trigger] dopo[b].0 by {
                            assert(prima[a].0 != prima[b].0);
                        };
                    }
                }
                Verifica { accettata: true, rifiuto: None }
            } else {
                Verifica { accettata: false, rifiuto: Some(StatoChiave::Cambiata) }
            }
        },
        None => {
            if modo == ModoFiducia::Normale {
                Verifica { accettata: false, rifiuto: Some(StatoChiave::Nuova) }
            } else {
                conosciuti.push((et, chiave));
                proof {
                    lemma_con_chiave_assente(prima, etichetta@, attuale@);
                    assert(vista_conosciuti(conosciuti@) =~= prima.push((etichetta@, attuale@)));
                    let dopo = vista_conosciuti(conosciuti@);
                    if etichette_uniche(prima) {
                        assert forall|a: int, b: int| 0 <= a < b < dopo.len() implies #[trigger] dopo[a].0
                            != #[trigger] dopo[b].0 by {
                            if b < prima.len() {
                                assert(prima[a].0 != prima[b].0);
                            }
                        };
                    }
                }
                Verifica { accettata: true, rifiuto: None }
            }
        },
    }
}

proof fn lemma_salvata_dopo(m: Seq<(Seq<char>, Seq<char>)>, e: Seq<char>, k: Seq<char>)
    ensures
        chiave_salvata(con_chiave(m, e, k), e) == Some(k),
    decreases m.len(),
{
    if m.len() > 0 && m[0].0 != e {
        lemma_salvata_dopo(m.drop_first(), e, k);
        assert((seq![m[0]] + con_chiave(m.drop_first(), e, k)).drop_first() =~= con_chiave(
            m.drop_first(),
            e,
            k,
        ));
    }
}

proof fn lemma_con_chiave_altra(m: Seq<(Seq<char>, Seq<char>)>, e: Seq<char>, k: Seq<char>, l: Seq<char>)
    requires
        l != e,
    ensures
        chiave_salvata(con_chiave(m, e, k), l) == chiave_salvata(m, l),
    decreases m.len(),
{
    let c = con_chiave(m, e, k);
    if m.len() == 0 {
        assert(c == seq![(e, k)]);
        assert(c[0].0 == e);
        assert(c.drop_first() =~= Seq::<(Seq<char>, Seq<char>)>::empty());
        assert(chiave_salvata(c.drop_first(), l) is None);
    } else if m[0].0 == e {
        assert(c == m.update(0, (e, k)));
        assert(c[0].0 == e);
        assert(c.drop_first() =~= m.drop_first());
    } else {
        lemma_con_chiave_altra(m.drop_first(), e, k, l);
        assert(c == seq![m[0]] + con_chiave(m.drop_first(), e, k));
        assert(c[0] == m[0]);
        assert(c.drop_first() =~= con_chiave(m.drop_first(), e, k));
    }
}

/// The decision on the key of one server never touches another: for every
/// other label the saved key is the same after the check as before it, in
/// every trust mode.
pub proof fn legge_altri_server_intatti(
    m: Seq<(Seq<char>, Seq<char>)>,
    etichetta: Seq<char>,
    attuale: Seq<char>,
    modo: ModoFiducia,
    altra: Seq<char>,
)
    requires
        altra != etichetta,
    ensures
        chiave_salvata(esito_verifica(m, etichetta, attuale, modo).2, altra) == chiave_salvata(m, altra),
{
    lemma_con_chiave_altra(m, etichetta, attuale, altra);
}

/// In normal mode the known hosts are never changed.
pub proof fn legge_normale_non_modifica(
    m: Seq<(Seq<char>, Seq<char>)>,
    etichetta: Seq<char>,
    attuale: Seq<char>,
)
    ensures
        esito_verifica(m, etichetta, attuale, ModoFiducia::Normale).2 == m,
{
}

/// Trust on first use: a key accepted in any mode is accepted afterwards in
/// normal mode, with nothing more to change.
pub proof fn legge_fiducia_al_primo_uso(
    m: Seq<(Seq<char>, Seq<char>)>,
    etichetta: Seq<char>,
    attuale: Seq<char>,
    modo: ModoFiducia,
)
    requires
        esito_verifica(m, etichetta, attuale, modo).0,
    ensures
        ({
            let dopo = esito_verifica(m, etichetta, attuale, modo).2;
            esito_verifica(dopo, etichetta, attuale, ModoFiducia::Normale) == (
                true,
                None::<StatoChiave>,
                dopo,
            )
        }),
{
    lemma_salvata_dopo(m, etichetta, attuale);
}

/// A key that differs from the saved one is refused as changed, and nothing
/// is changed, unless the user asked to replace it.
pub proof fn legge_chiave_cambiata_rifiutata(
    m: Seq<(Seq<char>, Seq<char>)>,
    etichetta: Seq<char>,
    attuale: Seq<char>,
    modo: ModoFiducia,
)
    requires
        chiave_salvata(m, etichetta) matches Some(k) && k != attuale,
        modo != ModoFiducia::Sostituisci,
    ensures
        esito_verifica(m, etichetta, attuale, modo) == (
            false,
            Some(StatoChiave::Cambiata),
            m,
        ),
{
}

// ---------------------------------------------------------------------------
// Texts of the connection
// ---------------------------------------------------------------------------

/// `host:port`, the label of a server in the known hosts.
pub open spec fn etichetta_server(host: Seq<char>, porta: u16) -> Seq<char> {
    host + seq![':'] + cifre_decimali(porta as nat)
}

/// The label of a server in the known hosts.
pub fn etichetta(host: &str, porta: u16) -> (r: String)
    ensures
        r@ == etichetta_server(host@, porta),
{
    let mut s = String::new();
    concatena(&mut s, host);
    aggiungi_carattere(&mut s, ':');
    aggiungi_decimale(&mut s, porta as u32);
    assert(s@ =~= etichetta_server(host@, porta));
    s
}

pub open spec fn testo_stato(s: StatoChiave) -> Seq<char> {
    match s {
        StatoChiave::Nuova => seq!['n', 'u', 'o', 'v', 'a'],
        StatoChiave::Cambiata => seq!['c', 'a', 'm', 'b', 'i', 'a', 't', 'a'],
    }
}

/// The error of a failed connection: `HOSTKEY:<state>:<fingerprint>` when the
/// server key was refused (so that the user interface can ask the user and
/// retry), else `connessione fallita: <error>`.
pub open spec fn errore_connessione(rifiuto: Option<(StatoChiave, Seq<char>)>, errore: Seq<char>) -> Seq<
    char,
> {
    match rifiuto {
        Some((stato, impronta)) => seq!['H', 'O', 'S', 'T', 'K', 'E', 'Y', ':'] + testo_stato(stato)
            + seq![':'] + impronta,
        None => seq![
            'c', 'o', 'n', 'n', 'e', 's', 's', 'i', 'o', 'n', 'e', ' ', 'f', 'a', 'l', 'l', 'i', 't', 'a',
            ':', ' ',
        ] + errore,
    }
}

fn aggiungi_caratteri(s: &mut String, v: &Vec<char>)
    ensures
        final(s)@ == old(s)@ + v@,
{
    let mut i: usize = 0;
    while i < v.len()
        invariant
            i <= v.len(),
            s@ == old(s)@ + v@.subrange(0, i as int),
        decreases v.len() - i,
    {
        aggiungi_carattere(s, v[i]);
        assert(s@ =~= old(s)@ + v@.subrange(0, i + 1));
        i = i + 1;
    }
    assert(v@.subrange(0, v@.len() as int) =~= v@);
}

/// The error of a failed connection, taking into account the server key.
pub fn messaggio_errore(rifiuto: Option<(StatoChiave, &str)>, errore: &str) -> (r: String)
    ensures
        r@ == errore_connessione(
            match rifiuto {
                Some((s, i)) => Some((s, i@)),
                None => None,
            },
            errore@,
        ),
{
    let mut s = String::new();
    match rifiuto {
        Some((stato, impronta)) => {
            let testa = vec!['H', 'O', 'S', 'T', 'K', 'E', 'Y', ':'];
            aggiungi_caratteri(&mut s, &testa);
            let t = match stato {
                StatoChiave::Nuova => vec!['n', 'u', 'o', 'v', 'a'],
                StatoChiave::Cambiata => vec!['c', 'a', 'm', 'b', 'i', 'a', 't', 'a'],
            };
            assert(t@ =~= testo_stato(stato));
            aggiungi_caratteri(&mut s, &t);
            aggiungi_carattere(&mut s, ':');
            concatena(&mut s, impronta);
            assert(s@ =~= seq!['H', 'O', 'S', 'T', 'K', 'E', 'Y', ':'] + testo_stato(stato)
                + seq![':'] + impronta@);
        },
        None => {
            let testa = vec![
                'c', 'o', 'n', 'n', 'e', 's', 's', 'i', 'o', 'n', 'e', ' ', 'f', 'a', 'l', 'l', 'i', 't', 'a',
                ':', ' ',
            ];
            aggiungi_caratteri(&mut s, &testa);
            concatena(&mut s, errore);
            assert(s@ =~= testa@ + errore@);
        },
    }
    s
}

// ---------------------------------------------------------------------------
// SOCKS5 (dynamic forwarding)
// ---------------------------------------------------------------------------

/// What `String::from_utf8_lossy` gives for a byte sequence.
pub uninterp spec fn utf8_con_sostituzioni(b: Seq<u8>) -> Seq<char>;

/// `String::from_utf8_lossy`. Claimed: the text is a function of the bytes
/// alone, and on valid UTF-8 it is the decoded text. Not claimed: which
/// replacement characters stand for invalid sequences.
#[verifier::external_body]
fn utf8_lossy(b: &[u8]) -> (r: String)
    ensures
        r@ == utf8_con_sostituzioni(b@),
        valid_utf8(b@) ==> r@ == decode_utf8(b@),
{
    String::from_utf8_lossy(b).to_string()
}

/// Where the SOCKS5 exchange with a local client stands, and how many bytes it
/// reads next.
pub enum StatoSocks {
    /// Version and number of methods (2 bytes).
    Saluto,
    /// The list of methods (as many bytes as announced).
    Metodi,
    /// Version, command, reserved, address type (4 bytes).
    Richiesta,
    /// An IPv4 address (4 bytes).
    Ipv4,
    /// The length of a domain name (1 byte).
    LunghezzaNome,
    /// A domain name (as many bytes as announced).
    Nome,
    /// An IPv6 address (16 bytes).
    Ipv6,
    /// The port, big endian (2 bytes), of the host already read.
    Porta { host: Destinazione },
}

/// The host that the client asks for: a text (dotted IPv4 or domain name) or
/// 16 IPv6 address bytes, which the caller writes in text form.
pub enum Destinazione {
    Testo(String),
    Ipv6([u8; 16]),
}

pub enum VistaDestinazione {
    Testo(Seq<char>),
    Ipv6(Seq<u8>),
}

impl View for Destinazione {
    type V = VistaDestinazione;

    open spec fn view(&self) -> VistaDestinazione {
        match self {
            Destinazione::Testo(t) => VistaDestinazione::Testo(t@),
            Destinazione::Ipv6(b) => VistaDestinazione::Ipv6(b@),
        }
    }
}

/// What the caller does after a step: write `risposta` (if not empty) to the
/// client, then read exactly `n` bytes; or open the channel to `host:porta`;
/// or write `risposta` and give up with `messaggio`.
pub enum AzioneSocks {
    Leggi { risposta: Vec<u8>, n: usize },
    Apri { host: Destinazione, porta: u16 },
    Errore { risposta: Vec<u8>, messaggio: String },
}

/// The ghost form of a state.
pub enum VistaStatoSocks {
    Saluto,
    Metodi,
    Richiesta,
    Ipv4,
    LunghezzaNome,
    Nome,
    Ipv6,
    Porta { host: VistaDestinazione },
}

/// The ghost form of an action.
pub enum VistaAzioneSocks {
    Leggi { risposta: Seq<u8>, n: nat },
    Apri { host: VistaDestinazione, porta: u16 },
    Errore { risposta: Seq<u8>, messaggio: Seq<char> },
}

impl View for StatoSocks {
    type V = VistaStatoSocks;

    open spec fn view(&self) -> VistaStatoSocks {
        match self {
            StatoSocks::Saluto => VistaStatoSocks::Saluto,
            StatoSocks::Metodi => VistaStatoSocks::Metodi,
            StatoSocks::Richiesta => VistaStatoSocks::Richiesta,
            StatoSocks::Ipv4 => VistaStatoSocks::Ipv4,
            StatoSocks::LunghezzaNome => VistaStatoSocks::LunghezzaNome,
            StatoSocks::Nome => VistaStatoSocks::Nome,
            StatoSocks::Ipv6 => VistaStatoSocks::Ipv6,
            StatoSocks::Porta { host } => VistaStatoSocks::Porta { host: host@ },
        }
    }
}

impl View for AzioneSocks {
    type V = VistaAzioneSocks;

    open spec fn view(&self) -> VistaAzioneSocks {
        match self {
            AzioneSocks::Leggi { risposta, n } => VistaAzioneSocks::Leggi {
                risposta: risposta@,
                n: *n as nat,
            },
            AzioneSocks::Apri { host, porta } => VistaAzioneSocks::Apri { host: host@, porta: *porta },
            AzioneSocks::Errore { risposta, messaggio } => VistaAzioneSocks::Errore {
                risposta: risposta@,
                messaggio: messaggio@,
            },
        }
    }
}

pub open spec fn msg_non_socks5() -> Seq<char> {
    seq!['n', 'o', 'n', ' ', 'è', ' ', 'S', 'O', 'C', 'K', 'S', '5']
}

pub open spec fn msg_comando_non_supportato() -> Seq<char> {
    seq![
        'c', 'o', 'm', 'a', 'n', 'd', 'o', ' ', 'S', 'O', 'C', 'K', 'S', ' ', 'n', 'o', 'n', ' ', 's', 'u',
        'p', 'p', 'o', 'r', 't', 'a', 't', 'o',
    ]
}

pub open spec fn msg_indirizzo_sconosciuto() -> Seq<char> {
    seq![
        't', 'i', 'p', 'o', ' ', 'd', 'i', ' ', 'i', 'n', 'd', 'i', 'r', 'i', 'z', 'z', 'o', ' ', 'S', 'O',
        'C', 'K', 'S', ' ', 's', 'c', 'o', 'n', 'o', 's', 'c', 'i', 'u', 't', 'o',
    ]
}

/// The reply that refuses a command (command not supported).
pub open spec fn risposta_rifiuto() -> Seq<u8> {
    seq![5u8, 7u8, 0u8, 1u8, 0u8, 0u8, 0u8, 0u8, 0u8, 0u8]
}

/// The reply that accepts a CONNECT once the channel is open.
pub open spec fn risposta_successo() -> Seq<u8> {
    seq![5u8, 0u8, 0u8, 1u8, 0u8, 0u8, 0u8, 0u8, 0u8, 0u8]
}

/// Dotted decimal form of 4 address bytes (what `Ipv4Addr`'s `Display` writes).
pub open spec fn testo_ipv4(b: Seq<u8>) -> Seq<char> {
    cifre_decimali(b[0] as nat) + seq!['.'] + cifre_decimali(b[1] as nat) + seq!['.']
        + cifre_decimali(b[2] as nat) + seq!['.'] + cifre_decimali(b[3] as nat)
}

/// One step of the SOCKS5 exchange: in state `s`, with the bytes `d` that the
/// previous action asked for, the next state and action.
pub open spec fn passo_socks_spec(s: VistaStatoSocks, d: Seq<u8>) -> (VistaStatoSocks, VistaAzioneSocks) {
    match s {
        VistaStatoSocks::Saluto => if d[0] != 5 {
            (s, VistaAzioneSocks::Errore { risposta: Seq::empty(), messaggio: msg_non_socks5() })
        } else {
            (VistaStatoSocks::Metodi, VistaAzioneSocks::Leggi { risposta: Seq::empty(), n: d[1] as nat })
        },
        VistaStatoSocks::Metodi => (
            VistaStatoSocks::Richiesta,
            VistaAzioneSocks::Leggi { risposta: seq![5u8, 0u8], n: 4 },
        ),
        VistaStatoSocks::Richiesta => if d[1] != 1 {
            (
                s,
                VistaAzioneSocks::Errore {
                    risposta: risposta_rifiuto(),
                    messaggio: msg_comando_non_supportato(),
                },
            )
        } else if d[3] == 1 {
            (VistaStatoSocks::Ipv4, VistaAzioneSocks::Leggi { risposta: Seq::empty(), n: 4 })
        } else if d[3] == 3 {
            (VistaStatoSocks::LunghezzaNome, VistaAzioneSocks::Leggi { risposta: Seq::empty(), n: 1 })
        } else if d[3] == 4 {
            (VistaStatoSocks::Ipv6, VistaAzioneSocks::Leggi { risposta: Seq::empty(), n: 16 })
        } else {
            (
                s,
                VistaAzioneSocks::Errore {
                    risposta: Seq::empty(),
                    messaggio: msg_indirizzo_sconosciuto(),
                },
            )
        },
        VistaStatoSocks::Ipv4 => (
            VistaStatoSocks::Porta { host: VistaDestinazione::Testo(testo_ipv4(d)) },
            VistaAzioneSocks::Leggi { risposta: Seq::empty(), n: 2 },
        ),
        VistaStatoSocks::LunghezzaNome => (
            VistaStatoSocks::Nome,
            VistaAzioneSocks::Leggi { risposta: Seq::empty(), n: d[0] as nat },
        ),
        VistaStatoSocks::Nome => (
            VistaStatoSocks::Porta { host: VistaDestinazione::Testo(utf8_con_sostituzioni(d)) },
            VistaAzioneSocks::Leggi { risposta: Seq::empty(), n: 2 },
        ),
        VistaStatoSocks::Ipv6 => (
            VistaStatoSocks::Porta { host: VistaDestinazione::Ipv6(d.subrange(0, 16)) },
            VistaAzioneSocks::Leggi { risposta: Seq::empty(), n: 2 },
        ),
        VistaStatoSocks::Porta { host } => (
            s,
            VistaAzioneSocks::Apri { host: host, porta: (d[0] as int * 256 + d[1] as int) as u16 },
        ),
    }
}

/// Bytes that state `s` reads.
pub open spec fn da_leggere(s: VistaStatoSocks) -> nat {
    match s {
        VistaStatoSocks::Saluto => 2,
        VistaStatoSocks::Richiesta => 4,
        VistaStatoSocks::Ipv4 => 4,
        VistaStatoSocks::LunghezzaNome => 1,
        VistaStatoSocks::Ipv6 => 16,
        VistaStatoSocks::Porta { .. } => 2,
        _ => 0,
    }
}

/// A client that greets with `m` methods, sends them, asks to CONNECT to an
/// IPv4 address and gives the port is asked for exactly those bytes, is
/// accepted without authentication, and gets the channel opened to the dotted
/// address and the big-endian port.
pub proof fn legge_connect_ipv4(m: u8, metodi: Seq<u8>, indirizzo: Seq<u8>, alto: u8, basso: u8)
    requires
        metodi.len() == m,
        indirizzo.len() == 4,
    ensures
        ({
            let (s1, a1) = passo_socks_spec(VistaStatoSocks::Saluto, seq![5u8, m]);
            let (s2, a2) = passo_socks_spec(s1, metodi);
            let (s3, a3) = passo_socks_spec(s2, seq![5u8, 1u8, 0u8, 1u8]);
            let (s4, a4) = passo_socks_spec(s3, indirizzo);
            let (s5, a5) = passo_socks_spec(s4, seq![alto, basso]);
            &&& a1 == VistaAzioneSocks::Leggi { risposta: Seq::empty(), n: m as nat }
            &&& a2 == VistaAzioneSocks::Leggi { risposta: seq![5u8, 0u8], n: 4 }
            &&& a3 == VistaAzioneSocks::Leggi { risposta: Seq::empty(), n: 4 }
            &&& a4 == VistaAzioneSocks::Leggi { risposta: Seq::empty(), n: 2 }
            &&& a5 == VistaAzioneSocks::Apri {
                host: VistaDestinazione::Testo(testo_ipv4(indirizzo)),
                porta: (alto as int * 256 + basso as int) as u16,
            }
        }),
{
}

/// The same exchange with a domain name of `k` bytes: the channel is opened to
/// the name as text.
pub proof fn legge_connect_nome(m: u8, metodi: Seq<u8>, k: u8, nome: Seq<u8>, alto: u8, basso: u8)
    requires
        metodi.len() == m,
        nome.len() == k,
    ensures
        ({
            let (s1, a1) = passo_socks_spec(VistaStatoSocks::Saluto, seq![5u8, m]);
            let (s2, a2) = passo_socks_spec(s1, metodi);
            let (s3, a3) = passo_socks_spec(s2, seq![5u8, 1u8, 0u8, 3u8]);
            let (s4, a4) = passo_socks_spec(s3, seq![k]);
            let (s5, a5) = passo_socks_spec(s4, nome);
            let (s6, a6) = passo_socks_spec(s5, seq![alto, basso]);
            &&& a3 == VistaAzioneSocks::Leggi { risposta: Seq::empty(), n: 1 }
            &&& a4 == VistaAzioneSocks::Leggi { risposta: Seq::empty(), n: k as nat }
            &&& a5 == VistaAzioneSocks::Leggi { risposta: Seq::empty(), n: 2 }
            &&& a6 == VistaAzioneSocks::Apri {
                host: VistaDestinazione::Testo(utf8_con_sostituzioni(nome)),
                porta: (alto as int * 256 + basso as int) as u16,
            }
        }),
{
}

/// The reply that accepts a CONNECT, written once the channel is open.
pub fn risposta_successo_socks() -> (r: Vec<u8>)
    ensures
        r@ == risposta_successo(),
{
    let r = vec![5u8, 0u8, 0u8, 1u8, 0u8, 0u8, 0u8, 0u8, 0u8, 0u8];
    assert(r@ =~= risposta_successo());
    r
}

/// The number of bytes that a state reads before its step.
pub fn byte_da_leggere(s: &StatoSocks) -> (r: usize)
    ensures
        r == da_leggere(s@),
{
    match s {
        StatoSocks::Saluto => 2,
        StatoSocks::Richiesta => 4,
        StatoSocks::Ipv4 => 4,
        StatoSocks::LunghezzaNome => 1,
        StatoSocks::Ipv6 => 16,
        StatoSocks::Porta { .. } => 2,
        _ => 0,
    }
}

/// The first state and action of the exchange: read the greeting.
pub fn inizio_socks() -> (r: (StatoSocks, AzioneSocks))
    ensures
        r.0@ == VistaStatoSocks::Saluto,
        r.1@ == (VistaAzioneSocks::Leggi { risposta: Seq::empty(), n: 2 }),
{
    let v: Vec<u8> = Vec::new();
    assert(v@ =~= Seq::<u8>::empty());
    (StatoSocks::Saluto, AzioneSocks::Leggi { risposta: v, n: 2 })
}

fn testo_lit(v: Vec<char>) -> (r: String)
    ensures
        r@ == v@,
{
    da_caratteri(&v)
}

/// One step of the SOCKS5 exchange with a local client.
pub fn passo_socks(s: StatoSocks, d: &[u8]) -> (r: (StatoSocks, AzioneSocks))
    requires
        d@.len() >= da_leggere(s@),
    ensures
        (r.0@, r.1@) == passo_socks_spec(s@, d@),
{
    let vuoto: Vec<u8> = Vec::new();
    assert(vuoto@ =~= Seq::<u8>::empty());
    match s {
        StatoSocks::Saluto => {
            if d[0] != 5 {
                let m = testo_lit(vec!['n', 'o', 'n', ' ', 'è', ' ', 'S', 'O', 'C', 'K', 'S', '5']);
                assert(m@ =~= msg_non_socks5());
                (StatoSocks::Saluto, AzioneSocks::Errore { risposta: vuoto, messaggio: m })
            } else {
                (StatoSocks::Metodi, AzioneSocks::Leggi { risposta: vuoto, n: d[1] as usize })
            }
        },
        StatoSocks::Metodi => {
            let r = vec![5u8, 0u8];
            assert(r@ =~= seq![5u8, 0u8]);
            (StatoSocks::Richiesta, AzioneSocks::Leggi { risposta: r, n: 4 })
        },
        StatoSocks::Richiesta => {
            if d[1] != 1 {
                let r = vec![5u8, 7u8, 0u8, 1u8, 0u8, 0u8, 0u8, 0u8, 0u8, 0u8];
                assert(r@ =~= risposta_rifiuto());
                let m = testo_lit(
                    vec![
                        'c', 'o', 'm', 'a', 'n', 'd', 'o', ' ', 'S', 'O', 'C', 'K', 'S', ' ', 'n', 'o', 'n',
                        ' ', 's', 'u', 'p', 'p', 'o', 'r', 't', 'a', 't', 'o',
                    ],
                );
                assert(m@ =~= msg_comando_non_supportato());
                (StatoSocks::Richiesta, AzioneSocks::Errore { risposta: r, messaggio: m })
            } else if d[3] == 1 {
                (StatoSocks::Ipv4, AzioneSocks::Leggi { risposta: vuoto, n: 4 })
            } else if d[3] == 3 {
                (StatoSocks::LunghezzaNome, AzioneSocks::Leggi { risposta: vuoto, n: 1 })
            } else if d[3] == 4 {
                (StatoSocks::Ipv6, AzioneSocks::Leggi { risposta: vuoto, n: 16 })
            } else {
                let m = testo_lit(
                    vec![
                        't', 'i', 'p', 'o', ' ', 'd', 'i', ' ', 'i', 'n', 'd', 'i', 'r', 'i', 'z', 'z', 'o',
                        ' ', 'S', 'O', 'C', 'K', 'S', ' ', 's', 'c', 'o', 'n', 'o', 's', 'c', 'i', 'u', 't',
                        'o',
                    ],
                );
                assert(m@ =~= msg_indirizzo_sconosciuto());
                (StatoSocks::Richiesta, AzioneSocks::Errore { risposta: vuoto, messaggio: m })
            }
        },
        StatoSocks::Ipv4 => {
            let mut h = String::new();
            aggiungi_decimale(&mut h, d[0] as u32);
            aggiungi_carattere(&mut h, '.');
            aggiungi_decimale(&mut h, d[1] as u32);
            aggiungi_carattere(&mut h, '.');
            aggiungi_decimale(&mut h, d[2] as u32);
            aggiungi_carattere(&mut h, '.');
            aggiungi_decimale(&mut h, d[3] as u32);
            assert(h@ =~= testo_ipv4(d@));
            (StatoSocks::Porta { host: Destinazione::Testo(h) }, AzioneSocks::Leggi { risposta: vuoto, n: 2 })
        },
        StatoSocks::LunghezzaNome => {
            (StatoSocks::Nome, AzioneSocks::Leggi { risposta: vuoto, n: d[0] as usize })
        },
        StatoSocks::Nome => {
            let h = utf8_lossy(d);
            (StatoSocks::Porta { host: Destinazione::Testo(h) }, AzioneSocks::Leggi { risposta: vuoto, n: 2 })
        },
        StatoSocks::Ipv6 => {
            let b: [u8; 16] = [
                d[0], d[1], d[2], d[3], d[4], d[5], d[6], d[7], d[8], d[9], d[10], d[11], d[12], d[13],
                d[14], d[15],
            ];
            assert(b@ =~= d@.subrange(0, 16));
            (StatoSocks::Porta { host: Destinazione::Ipv6(b) }, AzioneSocks::Leggi { risposta: vuoto, n: 2 })
        },
        StatoSocks::Porta { host } => {
            let porta = (d[0] as u16) * 256 + (d[1] as u16);
            let copia = match &host {
                Destinazione::Testo(t) => Destinazione::Testo(t.clone()),
                Destinazione::Ipv6(b) => Destinazione::Ipv6(*b),
            };
            (StatoSocks::Porta { host: copia }, AzioneSocks::Apri { host, porta })
        },
    }
}

} // verus!
