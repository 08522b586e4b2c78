//! Telnet option negotiation, minimal.
//!
//! Telnet uses control bytes (IAC = 0xFF) to negotiate options. The client
//! refuses every option that the server proposes (it answers WONT/DONT), which
//! is enough for many services and network devices in line mode. The socket
//! loop lives with the caller; here are the two byte transformations.

use vstd::prelude::*;

verus! {

pub const IAC: u8 = 255;

pub const DONT: u8 = 254;

pub const DO: u8 = 253;

pub const WONT: u8 = 252;

pub const WILL: u8 = 251;

pub const SB: u8 = 250;

pub const SE: u8 = 240;

/// Position of the first `IAC SE` pair in `t`, if any.
pub open spec fn fine_sottonegoziazione(t: Seq<u8>) -> Option<int>
    decreases t.len(),
{
    if t.len() < 2 {
        None
    } else if t[0] == IAC && t[1] == SE {
        Some(0)
    } else {
        match fine_sottonegoziazione(t.drop_first()) {
            Some(k) => Some(k + 1),
            None => None,
        }
    }
}

pub proof fn lemma_fine_sottonegoziazione(t: Seq<u8>)
    ensures
        match fine_sottonegoziazione(t) {
            Some(k) => 0 <= k && k + 1 < t.len() && t[k] == IAC && t[k + 1] == SE && forall|m: int|
                0 <= m < k ==> !(#[trigger] t[m] == IAC && t[m + 1] == SE),
            None => forall|m: int| 0 <= m && m + 1 < t.len() ==> !(#[trigger] t[m] == IAC && t[m + 1] == SE),
        },
    decreases t.len(),
{
    if t.len() >= 2 && !(t[0] == IAC && t[1] == SE) {
        lemma_fine_sottonegoziazione(t.drop_first());
        assert forall|m: int| 0 < m && m + 1 < t.len() implies #[trigger] t[m] == t.drop_first()[m
            - 1] && t[m + 1] == t.drop_first()[m] by {}
    }
}

proof fn lemma_fine_sottonegoziazione_unica(t: Seq<u8>, k: int)
    requires
        0 <= k,
        forall|m: int| 0 <= m < k && m + 1 < t.len() ==> !(#[trigger] t[m] == IAC && t[m + 1] == SE),
        k + 1 < t.len() ==> t[k] == IAC && t[k + 1] == SE,
    ensures
        fine_sottonegoziazione(t) == (if k + 1 < t.len() { Some(k) } else { None::<int> }),
{
    lemma_fine_sottonegoziazione(t);
}

/// The data bytes of a Telnet block and the refusals to send back, as
/// `(data, answers)`. `IAC IAC` is a data byte 0xFF; `IAC DO x` and
/// `IAC DONT x` are answered `IAC WONT x`; `IAC WILL x` and `IAC WONT x` are
/// answered `IAC DONT x`; a sub-negotiation `IAC SB .. IAC SE` is dropped;
/// any other `IAC c` is dropped. A command cut short by the end of the block
/// ends the reading.
pub open spec fn filtra(d: Seq<u8>) -> (Seq<u8>, Seq<u8>)
    decreases d.len(),
{
    if d.len() == 0 {
        (Seq::empty(), Seq::empty())
    } else if d[0] != IAC {
        let (p, r) = filtra(d.drop_first());
        (seq![d[0]] + p, r)
    } else if d.len() < 2 {
        (Seq::empty(), Seq::empty())
    } else if d[1] == IAC {
        let (p, r) = filtra(d.skip(2));
        (seq![IAC] + p, r)
    } else if d[1] == DO || d[1] == DONT {
        if d.len() >= 3 {
            let (p, r) = filtra(d.skip(3));
            (p, seq![IAC, WONT, d[2]] + r)
        } else {
            (Seq::empty(), Seq::empty())
        }
    } else if d[1] == WILL || d[1] == WONT {
        if d.len() >= 3 {
            let (p, r) = filtra(d.skip(3));
            (p, seq![IAC, DONT, d[2]] + r)
        } else {
            (Seq::empty(), Seq::empty())
        }
    } else if d[1] == SB {
        match fine_sottonegoziazione(d.skip(2)) {
            Some(k) => {
                proof {
                    lemma_fine_sottonegoziazione(d.skip(2));
                }
                filtra(d.skip(2 + k + 2))
            },
            None => (Seq::empty(), Seq::empty()),
        }
    } else {
        filtra(d.skip(2))
    }
}

/// Extracts the data from a Telnet block and prepares the refusals for every
/// option that the server negotiates.
pub fn filtra_iac(dati: &[u8]) -> (r: (Vec<u8>, Vec<u8>))
    ensures
        (r.0@, r.1@) == filtra(dati@),
{
    let n = dati.len();
    let mut puliti: Vec<u8> = Vec::new();
    let mut risposte: Vec<u8> = Vec::new();
    let mut i: usize = 0;
    assert(dati@.skip(0) =~= dati@);
    assert(puliti@ + filtra(dati@).0 =~= filtra(dati@).0);
    assert(risposte@ + filtra(dati@).1 =~= filtra(dati@).1);
    loop
        invariant
            n == dati.len(),
            i <= n,
            puliti@ + filtra(dati@.skip(i as int)).0 == filtra(dati@).0,
            risposte@ + filtra(dati@.skip(i as int)).1 == filtra(dati@).1,
        ensures
            puliti@ == filtra(dati@).0,
            risposte@ == filtra(dati@).1,
        decreases n - i,
    {
        let ghost d = dati@.skip(i as int);
        if i >= n {
            assert(d.len() == 0);
            assert(puliti@ =~= puliti@ + filtra(d).0);
            assert(risposte@ =~= risposte@ + filtra(d).1);
            break;
        }
        let ghost p0 = puliti@;
        let ghost r0 = risposte@;
        if dati[i] != IAC {
            puliti.push(dati[i]);
            assert(d.drop_first() =~= dati@.skip(i + 1));
            assert(puliti@ + filtra(dati@.skip(i + 1)).0 =~= p0 + filtra(d).0);
            i = i + 1;
            continue;
        }
        // An IAC sequence.

        if i + 1 >= n {
            assert(puliti@ =~= puliti@ + filtra(d).0);
            assert(risposte@ =~= risposte@ + filtra(d).1);
            break;
        }
        let c = dati[i + 1];
        if c == IAC {
            // IAC IAC is a single 0xFF in the data.
            puliti.push(IAC);
            assert(d.skip(2) =~= dati@.skip(i + 2));
            assert(puliti@ + filtra(dati@.skip(i + 2)).0 =~= p0 + filtra(d).0);
            i = i + 2;
        } else if c == DO || c == DONT || c == WILL || c == WONT {
            if i + 2 < n {
                // DO/DONT: the server asks us to enable/disable; we answer WONT.
                // WILL/WONT: the server says what it will do; we answer DONT.
                let risposta = if c == DO || c == DONT {
                    WONT
                } else {
                    DONT
                };
                risposte.push(IAC);
                risposte.push(risposta);
                risposte.push(dati[i + 2]);
                assert(d.skip(3) =~= dati@.skip(i + 3));
                assert(risposte@ + filtra(dati@.skip(i + 3)).1 =~= r0 + filtra(d).1);
                i = i + 3;
            } else {
                assert(puliti@ =~= puliti@ + filtra(d).0);
                assert(risposte@ =~= risposte@ + filtra(d).1);
                break;
            }
        } else if c == SB {
            // Sub-negotiation: skip up to IAC SE.
            let mut j = i + 2;
            while j < n - 1 && !(dati[j] == IAC && dati[j + 1] == SE)
                invariant
                    n == dati.len(),
                    i + 2 <= j <= n,
                    forall|m: int|
                        i + 2 <= m < j && m + 1 < n ==> !(#[trigger] dati@[m] == IAC && dati@[m + 1] == SE),
                decreases n - j,
            {
                j = j + 1;
            }
            proof {
                let t = d.skip(2);
                assert(t =~= dati@.skip(i + 2));
                lemma_fine_sottonegoziazione_unica(t, j - (i + 2));
            }
            if j >= n - 1 {
                assert(puliti@ =~= puliti@ + filtra(d).0);
                assert(risposte@ =~= risposte@ + filtra(d).1);
                break;
            }
            assert(d.skip(2 + (j - (i + 2)) + 2) =~= dati@.skip(j + 2));
            i = j + 2;
        } else {
            assert(d.skip(2) =~= dati@.skip(i + 2));
            i = i + 2;
        }
    }
    (puliti, risposte)
}

/// User data as sent on the wire: every 0xFF is doubled (escaped as IAC IAC).
pub open spec fn raddoppia(s: Seq<u8>) -> Seq<u8>
    decreases s.len(),
{
    if s.len() == 0 {
        Seq::empty()
    } else {
        (if s[0] == IAC {
            seq![IAC, IAC]
        } else {
            seq![s[0]]
        }) + raddoppia(s.drop_first())
    }
}

/// Doubles every 0xFF of the data typed by the user (IAC escape).
pub fn raddoppia_iac(b: &[u8]) -> (r: Vec<u8>)
    ensures
        r@ == raddoppia(b@),
{
    let mut fuori: Vec<u8> = Vec::new();
    let mut i: usize = 0;
    assert(b@.skip(0) =~= b@);
    while i < b.len()
        invariant
            i <= b.len(),
            fuori@ + raddoppia(b@.skip(i as int)) == raddoppia(b@),
        decreases b.len() - i,
    {
        let byte = b[i];
        let ghost prima = fuori@;
        fuori.push(byte);
        if byte == IAC {
            fuori.push(IAC);
        }
        assert(b@.skip(i as int).drop_first() =~= b@.skip(i + 1));
        assert(fuori@ + raddoppia(b@.skip(i + 1)) =~= prima + raddoppia(b@.skip(i as int)));
        i = i + 1;
    }
    assert(fuori@ + Seq::<u8>::empty() =~= fuori@);
    fuori
}

/// Escaped user data read back by the filter gives the data itself, with
/// nothing to answer.
pub proof fn legge_ritorno_dati(x: Seq<u8>)
    ensures
        filtra(raddoppia(x)) == (x, Seq::<u8>::empty()),
    decreases x.len(),
{
    if x.len() > 0 {
        legge_ritorno_dati(x.drop_first());
        let r = raddoppia(x.drop_first());
        if x[0] == IAC {
            assert(raddoppia(x).skip(2) =~= r);
        } else {
            assert(raddoppia(x).drop_first() =~= r);
        }
        assert(seq![x[0]] + x.drop_first() =~= x);
    }
}

/// The answers only ever refuse: they come in triples `IAC WONT x` or
/// `IAC DONT x`.
pub open spec fn solo_rifiuti(r: Seq<u8>) -> bool
    decreases r.len(),
{
    if r.len() == 0 {
        true
    } else {
        &&& r.len() >= 3
        &&& r[0] == IAC
        &&& r[1] == WONT || r[1] == DONT
        &&& solo_rifiuti(r.skip(3))
    }
}

/// Whatever the server sends, the client answers only with refusals.
pub proof fn legge_solo_rifiuti(d: Seq<u8>)
    ensures
        solo_rifiuti(filtra(d).1),
    decreases d.len(),
{
    if d.len() == 0 {
    } else if d[0] != IAC {
        legge_solo_rifiuti(d.drop_first());
    } else if d.len() < 2 {
    } else if d[1] == IAC {
        legge_solo_rifiuti(d.skip(2));
    } else if d[1] == DO || d[1] == DONT || d[1] == WILL || d[1] == WONT {
        if d.len() >= 3 {
            legge_solo_rifiuti(d.skip(3));
            let r = filtra(d.skip(3)).1;
            let tot = filtra(d).1;
            assert(tot.skip(3) =~= r);
        }
    } else if d[1] == SB {
        lemma_fine_sottonegoziazione(d.skip(2));
        match fine_sottonegoziazione(d.skip(2)) {
            Some(k) => legge_solo_rifiuti(d.skip(2 + k + 2)),
            None => {},
        }
    } else {
        legge_solo_rifiuti(d.skip(2));
    }
}

} // verus!
