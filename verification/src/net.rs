//! Local network tools: the Wake-on-LAN magic packet and the system commands
//! for ping and traceroute. Sending the packet and running the commands is
//! the caller's part.

use vstd::prelude::*;

use crate::model::testi;
use crate::testo::{caratteri, da_caratteri, lemma_primo, lemma_primo_unico, numero, numero_hex_u8, primo};

verus! {

// ---------------------------------------------------------------------------
// MAC addresses and Wake-on-LAN
// ---------------------------------------------------------------------------

/// The predicate "separates the bytes of a MAC address" (`:` or `-`).
pub open spec fn separatore_mac() -> spec_fn(char) -> bool {
    |c: char| c == ':' || c == '-'
}

/// The pieces of `s` between separators (`str::split`), empty ones included.
pub open spec fn pezzi(s: Seq<char>) -> Seq<Seq<char>>
    decreases s.len(),
{
    match primo(s, separatore_mac()) {
        None => seq![s],
        Some(i) => {
            proof {
                lemma_primo(s, separatore_mac());
            }
            seq![s.subrange(0, i)] + pezzi(s.subrange(i + 1, s.len() as int))
        },
    }
}

pub open spec fn msg_mac_formato() -> Seq<char> {
    seq![
        'M', 'A', 'C', ' ', 'n', 'o', 'n', ' ', 'v', 'a', 'l', 'i', 'd', 'o', ' ', '(', 'a', 't', 't',
        'e', 's', 'o', ' ', 'f', 'o', 'r', 'm', 'a', 't', 'o', ' ', 'A', 'A', ':', 'B', 'B', ':', 'C', 'C',
        ':', 'D', 'D', ':', 'E', 'E', ':', 'F', 'F', ')',
    ]
}

pub open spec fn msg_mac_non_valido() -> Seq<char> {
    seq!['M', 'A', 'C', ' ', 'n', 'o', 'n', ' ', 'v', 'a', 'l', 'i', 'd', 'o']
}

/// The bytes of a MAC address: six hexadecimal pieces separated by `:` or
/// `-`; `Err` with the message when there are not six pieces or a piece is
/// not a hexadecimal byte.
pub open spec fn mac(s: Seq<char>) -> Result<Seq<u8>, Seq<char>> {
    let p = pezzi(s);
    if p.len() != 6 {
        Err(msg_mac_formato())
    } else if forall|i: int| 0 <= i < 6 ==> #[trigger] numero(p[i], 16, 255) is Some {
        Ok(Seq::new(6, |i: int| numero(p[i], 16, 255)->0 as u8))
    } else {
        Err(msg_mac_non_valido())
    }
}

/// `limiti` are the boundaries of the pieces of `s`, in order.
pub open spec fn limiti_corretti(s: Seq<char>, limiti: Seq<(usize, usize)>) -> bool {
    &&& limiti.len() == pezzi(s).len()
    &&& forall|i: int|
        0 <= i < limiti.len() ==> #[trigger] limiti[i].0 <= limiti[i].1 <= s.len() && pezzi(s)[i]
            == s.subrange(limiti[i].0 as int, limiti[i].1 as int)
}

/// Boundaries `(start, end)` of the pieces of `s`.
fn dividi_mac(s: &Vec<char>) -> (r: Vec<(usize, usize)>)
    ensures
        limiti_corretti(s@, r@),
{
    let n = s.len();
    let mut out: Vec<(usize, usize)> = Vec::new();
    let mut a: usize = 0;
    assert(s@.subrange(0, n as int) =~= s@);
    assert(pezzi_fino(s@, out@) =~= Seq::<Seq<char>>::empty());
    assert(pezzi(s@) =~= pezzi_fino(s@, out@) + pezzi(s@.subrange(a as int, n as int)));
    loop
        invariant
            n == s.len(),
            a <= n,
            forall|i: int| 0 <= i < out@.len() ==> #[trigger] out@[i].0 <= out@[i].1 <= n,
            pezzi(s@) == pezzi_fino(s@, out@) + pezzi(s@.subrange(a as int, n as int)),
        decreases n - a,
    {
        let mut b = a;
        while b < n && !(s[b] == ':' || s[b] == '-')
            invariant
                a <= b <= n == s.len(),
                forall|k: int| a <= k < b ==> !(s@[k] == ':' || s@[k] == '-'),
            decreases n - b,
        {
            b = b + 1;
        }
        let ghost resto = s@.subrange(a as int, n as int);
        proof {
            lemma_primo_unico(resto, separatore_mac(), b - a);
        }
        let ghost prima = out@;
        out.push((a, b));
        assert(pezzi_fino(s@, out@) =~= pezzi_fino(s@, prima) + seq![s@.subrange(a as int, b as int)]);
        if b == n {
            assert(pezzi(resto) == seq![resto]);
            assert(resto =~= s@.subrange(a as int, b as int));
            assert(pezzi(s@) =~= pezzi_fino(s@, out@));
            assert forall|i: int| 0 <= i < out@.len() implies #[trigger] out@[i].0 <= out@[i].1 <= s@.len()
                && pezzi(s@)[i] == s@.subrange(out@[i].0 as int, out@[i].1 as int) by {
                assert(pezzi(s@)[i] == pezzi_fino(s@, out@)[i]);
            }
            return out;
        }
        assert(resto.subrange(0, b - a) =~= s@.subrange(a as int, b as int));
        assert(resto.subrange(b - a + 1, resto.len() as int) =~= s@.subrange(b + 1, n as int));
        assert(pezzi(s@) =~= pezzi_fino(s@, out@) + pezzi(s@.subrange(b + 1, n as int)));
        a = b + 1;
    }
}

/// The texts of the pieces with the given boundaries.
pub open spec fn pezzi_fino(s: Seq<char>, limiti: Seq<(usize, usize)>) -> Seq<Seq<char>> {
    limiti.map_values(|l: (usize, usize)| s.subrange(l.0 as int, l.1 as int))
}

/// Reads a MAC address `AA:BB:CC:DD:EE:FF` (or with `-`) into its six bytes.
pub fn parse_mac(testo: &str) -> (r: Result<Vec<u8>, String>)
    ensures
        match r {
            Ok(b) => mac(testo@) == Ok::<Seq<u8>, Seq<char>>(b@),
            Err(e) => mac(testo@) == Err::<Seq<u8>, Seq<char>>(e@),
        },
{
    let s = caratteri(testo);
    let parti = dividi_mac(&s);
    if parti.len() != 6 {
        let m = vec![
            'M', 'A', 'C', ' ', 'n', 'o', 'n', ' ', 'v', 'a', 'l', 'i', 'd', 'o', ' ', '(', 'a', 't', 't',
            'e', 's', 'o', ' ', 'f', 'o', 'r', 'm', 'a', 't', 'o', ' ', 'A', 'A', ':', 'B', 'B', ':', 'C',
            'C', ':', 'D', 'D', ':', 'E', 'E', ':', 'F', 'F', ')',
        ];
        assert(m@ =~= msg_mac_formato());
        return Err(da_caratteri(&m));
    }
    let mut b: Vec<u8> = Vec::new();
    let mut i: usize = 0;
    while i < 6
        invariant
            parti@.len() == 6,
            pezzi(s@).len() == 6,
            s@ == testo@,
            i <= 6,
            b@.len() == i,
            limiti_corretti(s@, parti@),
            forall|j: int|
                0 <= j < i ==> ((#[trigger] numero(pezzi(s@)[j], 16, 255)) matches Some(v) && b@[j]
                    == v as u8),
        decreases 6 - i,
    {
        let (x, y) = parti[i];
        assert(parti@[i as int].0 <= parti@[i as int].1 <= s@.len());
        assert(pezzi(s@)[i as int] == s@.subrange(x as int, y as int));
        match numero_hex_u8(&s, x, y) {
            Some(v) => {
                b.push(v);
            },
            None => {
                let m = vec!['M', 'A', 'C', ' ', 'n', 'o', 'n', ' ', 'v', 'a', 'l', 'i', 'd', 'o'];
                assert(m@ =~= msg_mac_non_valido());
                assert(numero(pezzi(s@)[i as int], 16, 255) is None);
                return Err(da_caratteri(&m));
            },
        }
        i = i + 1;
    }
    assert(b@ =~= Seq::new(6, |j: int| numero(pezzi(s@)[j], 16, 255)->0 as u8));
    Ok(b)
}

/// The magic packet of Wake-on-LAN: six bytes 0xFF, then the MAC address
/// sixteen times.
pub open spec fn pacchetto_magico(mac: Seq<u8>) -> Seq<u8> {
    Seq::new(6, |i: int| 0xFFu8) + Seq::new(16 * mac.len(), |i: int| mac[i % mac.len() as int])
}

/// The Wake-on-LAN magic packet for a MAC address written as text.
pub fn pacchetto_wol(testo: &str) -> (r: Result<Vec<u8>, String>)
    ensures
        match r {
            Ok(p) => mac(testo@) matches Ok(m) && p@ == pacchetto_magico(m),
            Err(e) => mac(testo@) == Err::<Seq<u8>, Seq<char>>(e@),
        },
{
    let m = parse_mac(testo)?;
    let mut pkt: Vec<u8> = Vec::new();
    let mut k: usize = 0;
    while k < 6
        invariant
            k <= 6,
            pkt@ =~= Seq::new(k as nat, |i: int| 0xFFu8),
        decreases 6 - k,
    {
        pkt.push(0xFF);
        k = k + 1;
    }
    let mut r: usize = 0;
    while r < 16
        invariant
            m@.len() == 6,
            r <= 16,
            pkt@ =~= Seq::new(6, |i: int| 0xFFu8) + Seq::new(6 * r as nat, |i: int| m@[i % 6]),
        decreases 16 - r,
    {
        let mut j: usize = 0;
        while j < 6
            invariant
                m@.len() == 6,
                r < 16,
                j <= 6,
                pkt@ =~= Seq::new(6, |i: int| 0xFFu8) + Seq::new((6 * r + j) as nat, |i: int| m@[i % 6]),
            decreases 6 - j,
        {
            pkt.push(m[j]);
            proof {
                assert(((6 * r + j) as int) % 6 == j as int) by (nonlinear_arith)
                    requires
                        j < 6,
                ;
            }
            j = j + 1;
        }
        r = r + 1;
    }
    Ok(pkt)
}

// ---------------------------------------------------------------------------
// System commands
// ---------------------------------------------------------------------------

/// A system command to run: program and arguments.
pub struct Comando {
    pub programma: String,
    pub argomenti: Vec<String>,
}

fn testo_lit(v: Vec<char>) -> (r: String)
    ensures
        r@ == v@,
{
    da_caratteri(&v)
}

fn copia_str(s: &str) -> (r: String)
    ensures
        r@ == s@,
{
    da_caratteri(&caratteri(s))
}

/// Ping towards a host, 4 packets: `ping -n 4 host` on Windows,
/// `ping -c 4 host` elsewhere.
pub fn ping(host: &str, windows: bool) -> (r: Comando)
    ensures
        r.programma@ == seq!['p', 'i', 'n', 'g'],
        testi(r.argomenti@) == seq![
            if windows {
                seq!['-', 'n']
            } else {
                seq!['-', 'c']
            },
            seq!['4'],
            host@,
        ],
{
    let opzione = if windows {
        testo_lit(vec!['-', 'n'])
    } else {
        testo_lit(vec!['-', 'c'])
    };
    let programma = testo_lit(vec!['p', 'i', 'n', 'g']);
    let mut argomenti: Vec<String> = Vec::new();
    let ghost opz = if windows {
        seq!['-', 'n']
    } else {
        seq!['-', 'c']
    };
    assert(opzione@ =~= opz);
    let quattro = testo_lit(vec!['4']);
    assert(quattro@ =~= seq!['4']);
    argomenti.push(opzione);
    argomenti.push(quattro);
    argomenti.push(copia_str(host));
    assert(programma@ =~= seq!['p', 'i', 'n', 'g']);
    assert(testi(argomenti@) =~= seq![
        if windows {
            seq!['-', 'n']
        } else {
            seq!['-', 'c']
        },
        seq!['4'],
        host@,
    ]);
    Comando { programma, argomenti }
}

/// Traceroute towards a host: `tracert host` on Windows, `traceroute host`
/// elsewhere.
pub fn traceroute(host: &str, windows: bool) -> (r: Comando)
    ensures
        r.programma@ == (if windows {
            seq!['t', 'r', 'a', 'c', 'e', 'r', 't']
        } else {
            seq!['t', 'r', 'a', 'c', 'e', 'r', 'o', 'u', 't', 'e']
        }),
        testi(r.argomenti@) == seq![host@],
{
    let programma = if windows {
        testo_lit(vec!['t', 'r', 'a', 'c', 'e', 'r', 't'])
    } else {
        testo_lit(vec!['t', 'r', 'a', 'c', 'e', 'r', 'o', 'u', 't', 'e'])
    };
    let mut argomenti: Vec<String> = Vec::new();
    argomenti.push(copia_str(host));
    assert(testi(argomenti@) =~= seq![host@]);
    assert(windows ==> programma@ =~= seq!['t', 'r', 'a', 'c', 'e', 'r', 't']);
    assert(!windows ==> programma@ =~= seq!['t', 'r', 'a', 'c', 'e', 'r', 'o', 'u', 't', 'e']);
    Comando { programma, argomenti }
}

} // verus!
