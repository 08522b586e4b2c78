//! Text helpers on sequences of characters: whitespace, trimming, splitting,
//! decimal and hexadecimal numbers. Every helper is stated over `Seq<char>`.

use vstd::prelude::*;
use vstd::std_specs::iter::IteratorSpec;

verus! {

// ---------------------------------------------------------------------------
// Characters
// ---------------------------------------------------------------------------

/// Unicode `White_Space` (what `char::is_whitespace` answers).
pub open spec fn spazio(c: char) -> bool {
    let u = c as u32;
    ||| 0x09 <= u <= 0x0D
    ||| u == 0x20
    ||| u == 0x85
    ||| u == 0xA0
    ||| u == 0x1680
    ||| 0x2000 <= u <= 0x200A
    ||| u == 0x2028
    ||| u == 0x2029
    ||| u == 0x202F
    ||| u == 0x205F
    ||| u == 0x3000
}

pub fn e_spazio(c: char) -> (r: bool)
    ensures
        r == spazio(c),
{
    let u = c as u32;
    (0x09 <= u && u <= 0x0D) || u == 0x20 || u == 0x85 || u == 0xA0 || u == 0x1680 || (0x2000
        <= u && u <= 0x200A) || u == 0x2028 || u == 0x2029 || u == 0x202F || u == 0x205F || u
        == 0x3000
}

/// Value of an ASCII decimal digit, if `c` is one.
pub open spec fn cifra_dec(c: char) -> Option<nat> {
    let u = c as u32;
    if 0x30 <= u <= 0x39 {
        Some((u - 0x30) as nat)
    } else {
        None
    }
}

/// Value of an ASCII hexadecimal digit (either case), if `c` is one.
pub open spec fn cifra_hex(c: char) -> Option<nat> {
    let u = c as u32;
    if 0x30 <= u <= 0x39 {
        Some((u - 0x30) as nat)
    } else if 0x41 <= u <= 0x46 {
        Some((u - 0x41 + 10) as nat)
    } else if 0x61 <= u <= 0x66 {
        Some((u - 0x61 + 10) as nat)
    } else {
        None
    }
}

// ---------------------------------------------------------------------------
// Trimming
// ---------------------------------------------------------------------------

/// `s` without its leading whitespace.
pub open spec fn senza_spazi_iniziali(s: Seq<char>) -> Seq<char>
    decreases s.len(),
{
    if s.len() > 0 && spazio(s[0]) {
        senza_spazi_iniziali(s.drop_first())
    } else {
        s
    }
}

/// `s` without its trailing whitespace.
pub open spec fn senza_spazi_finali(s: Seq<char>) -> Seq<char>
    decreases s.len(),
{
    if s.len() > 0 && spazio(s.last()) {
        senza_spazi_finali(s.drop_last())
    } else {
        s
    }
}

/// `str::trim`: both ends without whitespace.
pub open spec fn taglia(s: Seq<char>) -> Seq<char> {
    senza_spazi_finali(senza_spazi_iniziali(s))
}

/// `s` without any leading copy of the character `c` (`trim_start_matches`).
pub open spec fn senza_iniziali(s: Seq<char>, c: char) -> Seq<char>
    decreases s.len(),
{
    if s.len() > 0 && s[0] == c {
        senza_iniziali(s.drop_first(), c)
    } else {
        s
    }
}

/// Index of the first whitespace-free character of `s[a..b]`.
pub fn salta_spazi(s: &Vec<char>, a: usize, b: usize) -> (r: usize)
    requires
        a <= b <= s.len(),
    ensures
        a <= r <= b,
        senza_spazi_iniziali(s@.subrange(a as int, b as int)) == s@.subrange(r as int, b as int),
{
    let mut i = a;
    while i < b && e_spazio(s[i])
        invariant
            a <= i <= b <= s.len(),
            senza_spazi_iniziali(s@.subrange(a as int, b as int)) == senza_spazi_iniziali(
                s@.subrange(i as int, b as int),
            ),
        decreases b - i,
    {
        assert(s@.subrange(i as int, b as int).drop_first() =~= s@.subrange(i + 1, b as int));
        i = i + 1;
    }
    proof {
        r_spazi_fermo(s@, i, b);
    }
    i
}

proof fn r_spazi_fermo(s: Seq<char>, i: usize, b: usize)
    requires
        i <= b <= s.len(),
        i < b ==> !spazio(s[i as int]),
    ensures
        senza_spazi_iniziali(s.subrange(i as int, b as int)) == s.subrange(i as int, b as int),
{
}

/// One past the last whitespace-free character of `s[a..b]`.
pub fn togli_spazi_fine(s: &Vec<char>, a: usize, b: usize) -> (r: usize)
    requires
        a <= b <= s.len(),
    ensures
        a <= r <= b,
        senza_spazi_finali(s@.subrange(a as int, b as int)) == s@.subrange(a as int, r as int),
{
    let mut j = b;
    while j > a && e_spazio(s[j - 1])
        invariant
            a <= j <= b <= s.len(),
            senza_spazi_finali(s@.subrange(a as int, b as int)) == senza_spazi_finali(
                s@.subrange(a as int, j as int),
            ),
        decreases j - a,
    {
        assert(s@.subrange(a as int, j as int).drop_last() =~= s@.subrange(a as int, j - 1));
        j = j - 1;
    }
    j
}

/// Bounds of `trim` applied to `s[a..b]`.
pub fn taglia_indici(s: &Vec<char>, a: usize, b: usize) -> (r: (usize, usize))
    requires
        a <= b <= s.len(),
    ensures
        a <= r.0 <= r.1 <= b,
        taglia(s@.subrange(a as int, b as int)) == s@.subrange(r.0 as int, r.1 as int),
{
    let i = salta_spazi(s, a, b);
    let j = togli_spazi_fine(s, i, b);
    (i, j)
}

/// Index of the first character of `s[a..b]` that is not `c`.
pub fn salta_carattere(s: &Vec<char>, a: usize, b: usize, c: char) -> (r: usize)
    requires
        a <= b <= s.len(),
    ensures
        a <= r <= b,
        senza_iniziali(s@.subrange(a as int, b as int), c) == s@.subrange(r as int, b as int),
{
    let mut i = a;
    while i < b && s[i] == c
        invariant
            a <= i <= b <= s.len(),
            senza_iniziali(s@.subrange(a as int, b as int), c) == senza_iniziali(
                s@.subrange(i as int, b as int),
                c,
            ),
        decreases b - i,
    {
        assert(s@.subrange(i as int, b as int).drop_first() =~= s@.subrange(i + 1, b as int));
        i = i + 1;
    }
    i
}

// ---------------------------------------------------------------------------
// Searching and splitting
// ---------------------------------------------------------------------------

/// Position of the first character of `s` that satisfies `p`, if any.
pub open spec fn primo(s: Seq<char>, p: spec_fn(char) -> bool) -> Option<int>
    decreases s.len(),
{
    if s.len() == 0 {
        None
    } else if p(s[0]) {
        Some(0)
    } else {
        match primo(s.drop_first(), p) {
            Some(i) => Some(i + 1),
            None => None,
        }
    }
}

/// The predicate "is the character `c`".
pub open spec fn uguale_a(c: char) -> spec_fn(char) -> bool {
    |x: char| x == c
}

/// Position of the first `c` in `s`, if any.
pub open spec fn posizione(s: Seq<char>, c: char) -> Option<int> {
    primo(s, uguale_a(c))
}

pub proof fn lemma_primo(s: Seq<char>, p: spec_fn(char) -> bool)
    ensures
        match primo(s, p) {
            Some(i) => 0 <= i < s.len() && p(s[i]) && forall|k: int| 0 <= k < i ==> !p(s[k]),
            None => forall|k: int| 0 <= k < s.len() ==> !p(s[k]),
        },
    decreases s.len(),
{
    if s.len() > 0 {
        lemma_primo(s.drop_first(), p);
        if !p(s[0]) {
            match primo(s.drop_first(), p) {
                Some(i) => {
                    assert forall|k: int| 0 <= k < i + 1 implies !p(s[k]) by {
                        if k > 0 {
                            assert(s[k] == s.drop_first()[k - 1]);
                        }
                    }
                },
                None => {
                    assert forall|k: int| 0 <= k < s.len() implies !p(s[k]) by {
                        if k > 0 {
                            assert(s[k] == s.drop_first()[k - 1]);
                        }
                    }
                },
            }
        }
    }
}

/// The characterisation of `primo` by its first match.
pub proof fn lemma_primo_unico(s: Seq<char>, p: spec_fn(char) -> bool, i: int)
    requires
        0 <= i <= s.len(),
        forall|k: int| 0 <= k < i ==> !p(s[k]),
        i < s.len() ==> p(s[i]),
    ensures
        primo(s, p) == (if i < s.len() { Some(i) } else { None::<int> }),
{
    lemma_primo(s, p);
}

/// Index of the first `c` in `s[a..b]`, or `b` when there is none.
pub fn trova(s: &Vec<char>, a: usize, b: usize, c: char) -> (r: usize)
    requires
        a <= b <= s.len(),
    ensures
        a <= r <= b,
        posizione(s@.subrange(a as int, b as int), c) == (if r < b {
            Some(r - a)
        } else {
            None::<int>
        }),
{
    let mut i = a;
    while i < b && s[i] != c
        invariant
            a <= i <= b <= s.len(),
            forall|k: int| a <= k < i ==> s@[k] != c,
        decreases b - i,
    {
        i = i + 1;
    }
    proof {
        let t = s@.subrange(a as int, b as int);
        lemma_primo_unico(t, uguale_a(c), i - a);
    }
    i
}

/// Words of `s` separated by whitespace (`split_whitespace`).
pub open spec fn parole(s: Seq<char>) -> Seq<Seq<char>>
    decreases s.len(),
{
    let t = senza_spazi_iniziali(s);
    if t.len() == 0 {
        Seq::empty()
    } else {
        let n = lunghezza_parola(t);
        proof {
            lemma_lunghezza_parola(t);
            lemma_senza_spazi_iniziali_len(s);
        }
        seq![t.subrange(0, n)] + parole(t.subrange(n, t.len() as int))
    }
}

/// Length of the whitespace-free prefix of `s`.
pub open spec fn lunghezza_parola(s: Seq<char>) -> int
    decreases s.len(),
{
    if s.len() == 0 || spazio(s[0]) {
        0
    } else {
        1 + lunghezza_parola(s.drop_first())
    }
}

pub proof fn lemma_lunghezza_parola(s: Seq<char>)
    ensures
        0 <= lunghezza_parola(s) <= s.len(),
        s.len() > 0 && !spazio(s[0]) ==> lunghezza_parola(s) > 0,
        forall|k: int| 0 <= k < lunghezza_parola(s) ==> !spazio(s[k]),
        lunghezza_parola(s) < s.len() ==> spazio(s[lunghezza_parola(s)]),
    decreases s.len(),
{
    if s.len() > 0 && !spazio(s[0]) {
        lemma_lunghezza_parola(s.drop_first());
        assert forall|k: int| 0 <= k < lunghezza_parola(s) implies !spazio(s[k]) by {
            if k > 0 {
                assert(s[k] == s.drop_first()[k - 1]);
            }
        }
    }
}

pub proof fn lemma_senza_spazi_iniziali_len(s: Seq<char>)
    ensures
        senza_spazi_iniziali(s).len() <= s.len(),
        senza_spazi_iniziali(s).len() > 0 ==> !spazio(senza_spazi_iniziali(s)[0]),
    decreases s.len(),
{
    if s.len() > 0 && spazio(s[0]) {
        lemma_senza_spazi_iniziali_len(s.drop_first());
    }
}

pub proof fn lemma_lunghezza_parola_indici(s: Seq<char>, n: int)
    requires
        0 <= n <= s.len(),
        forall|k: int| 0 <= k < n ==> !spazio(s[k]),
        n < s.len() ==> spazio(s[n]),
    ensures
        lunghezza_parola(s) == n,
    decreases s.len(),
{
    if n > 0 {
        assert forall|k: int| 0 <= k < n - 1 implies !spazio(s.drop_first()[k]) by {
            assert(s.drop_first()[k] == s[k + 1]);
        }
        lemma_lunghezza_parola_indici(s.drop_first(), n - 1);
    }
}

// ---------------------------------------------------------------------------
// Numbers
// ---------------------------------------------------------------------------

/// Value of a sequence of digits in base `base`; `None` if some character is
/// not a digit of that base.
pub open spec fn valore_cifre(s: Seq<char>, base: nat) -> Option<nat>
    decreases s.len(),
{
    if s.len() == 0 {
        Some(0)
    } else {
        let d = if base == 16 {
            cifra_hex(s.last())
        } else {
            cifra_dec(s.last())
        };
        match (valore_cifre(s.drop_last(), base), d) {
            (Some(v), Some(d)) => Some(v * base + d),
            _ => None,
        }
    }
}

/// What `from_str_radix` gives for an unsigned type whose largest value is
/// `massimo`: an optional `+`, at least one digit, and a value in range.
pub open spec fn numero(s: Seq<char>, base: nat, massimo: nat) -> Option<nat> {
    let cifre = if s.len() > 0 && s[0] == '+' {
        s.drop_first()
    } else {
        s
    };
    if cifre.len() == 0 {
        None
    } else {
        match valore_cifre(cifre, base) {
            Some(v) => if v <= massimo {
                Some(v)
            } else {
                None
            },
            None => None,
        }
    }
}

/// `str::parse::<u16>()` on `s[a..b]`, as an `Option`.
pub fn numero_u16(s: &Vec<char>, a: usize, b: usize) -> (r: Option<u16>)
    requires
        a <= b <= s.len(),
    ensures
        r == (match numero(s@.subrange(a as int, b as int), 10, 65535) {
            Some(v) => Some(v as u16),
            None => None::<u16>,
        }),
{
    match numero_in_base(s, a, b, 10, 65535) {
        Some(v) => Some(v as u16),
        None => None,
    }
}

/// `u8::from_str_radix(.., 16)` on `s[a..b]`, as an `Option`.
pub fn numero_hex_u8(s: &Vec<char>, a: usize, b: usize) -> (r: Option<u8>)
    requires
        a <= b <= s.len(),
    ensures
        r == (match numero(s@.subrange(a as int, b as int), 16, 255) {
            Some(v) => Some(v as u8),
            None => None::<u8>,
        }),
{
    match numero_in_base(s, a, b, 16, 255) {
        Some(v) => Some(v as u8),
        None => None,
    }
}

fn cifra(c: char, base: u32) -> (r: Option<u32>)
    requires
        base == 10 || base == 16,
    ensures
        r matches Some(d) ==> d < base,
        (match r {
            Some(d) => Some(d as nat),
            None => None::<nat>,
        }) == (if base == 16 {
            cifra_hex(c)
        } else {
            cifra_dec(c)
        }),
{
    let u = c as u32;
    if 0x30 <= u && u <= 0x39 {
        Some(u - 0x30)
    } else if base == 16 && 0x41 <= u && u <= 0x46 {
        Some(u - 0x41 + 10)
    } else if base == 16 && 0x61 <= u && u <= 0x66 {
        Some(u - 0x61 + 10)
    } else {
        None
    }
}

fn numero_in_base(s: &Vec<char>, a: usize, b: usize, base: u32, massimo: u32) -> (r: Option<u32>)
    requires
        a <= b <= s.len(),
        base == 10 || base == 16,
        massimo == 65535 || massimo == 255,
    ensures
        (match r {
            Some(v) => Some(v as nat),
            None => None::<nat>,
        }) == numero(s@.subrange(a as int, b as int), base as nat, massimo as nat),
        r matches Some(v) ==> v <= massimo,
{
    let ghost t = s@.subrange(a as int, b as int);
    let inizio = if a < b && s[a] == '+' {
        a + 1
    } else {
        a
    };
    let ghost cifre = s@.subrange(inizio as int, b as int);
    assert(cifre =~= (if t.len() > 0 && t[0] == '+' {
        t.drop_first()
    } else {
        t
    }));
    if inizio == b {
        return None;
    }
    // The value, capped at `massimo + 1` so that it cannot overflow.

    let tetto = massimo + 1;
    let mut v: u32 = 0;
    let mut i = inizio;
    while i < b
        invariant
            inizio <= i <= b <= s.len(),
            base == 10 || base == 16,
            massimo == 65535 || massimo == 255,
            tetto == massimo + 1,
            cifre == s@.subrange(inizio as int, b as int),
            t == s@.subrange(a as int, b as int),
            cifre.len() > 0,
            cifre == (if t.len() > 0 && t[0] == '+' {
                t.drop_first()
            } else {
                t
            }),
            v <= tetto,
            valore_cifre(s@.subrange(inizio as int, i as int), base as nat) matches Some(w) && (
            v == if w < tetto {
                w
            } else {
                tetto as nat
            }),
        decreases b - i,
    {
        let ghost pre = s@.subrange(inizio as int, i as int);
        let ghost dopo = s@.subrange(inizio as int, i + 1);
        assert(dopo.drop_last() =~= pre);
        assert(dopo.last() == s@[i as int]);
        match cifra(s[i], base) {
            Some(d) => {
                let ghost w = valore_cifre(pre, base as nat).unwrap();
                assert(valore_cifre(dopo, base as nat) == Some((w * base + d) as nat));
                if v >= tetto {
                    assert(w * base + d >= tetto) by (nonlinear_arith)
                        requires
                            w >= tetto,
                            base >= 1,
                            d >= 0,
                    ;
                    v = tetto;
                } else {
                    assert(v * base + d <= 65536 * 16 + 16) by (nonlinear_arith)
                        requires
                            v <= 65536,
                            base <= 16,
                            d < base,
                    ;
                    let n = v * base + d;
                    if n >= tetto {
                        v = tetto;
                    } else {
                        v = n;
                    }
                }
            },
            None => {
                assert(valore_cifre(dopo, base as nat) is None);
                proof {
                    assert(cifre.subrange(0, (i + 1 - inizio) as int) =~= dopo);
                    lemma_valore_cifre_errore(cifre, base as nat, (i + 1 - inizio) as int);
                }
                return None;
            },
        }
        i = i + 1;
    }
    assert(s@.subrange(inizio as int, b as int) =~= cifre);
    if v >= tetto {
        None
    } else {
        Some(v)
    }
}

/// A prefix that is not made of digits makes the whole sequence fail.
proof fn lemma_valore_cifre_errore(s: Seq<char>, base: nat, n: int)
    requires
        0 < n <= s.len(),
        valore_cifre(s.subrange(0, n), base) is None,
    ensures
        valore_cifre(s, base) is None,
    decreases s.len(),
{
    if n < s.len() {
        assert(s.drop_last().subrange(0, n) =~= s.subrange(0, n));
        lemma_valore_cifre_errore(s.drop_last(), base, n);
    } else {
        assert(s.subrange(0, n) =~= s);
    }
}

// ---------------------------------------------------------------------------
// Strings and character vectors
// ---------------------------------------------------------------------------

/// The characters of `s`, in order.
pub fn caratteri(s: &str) -> (r: Vec<char>)
    ensures
        r@ == s@,
{
    broadcast use vstd::string::group_string_axioms;

    let mut out: Vec<char> = Vec::new();
    for c in it: s.chars()
        invariant
            out@ == it.seq().take(it.index()),
            it.seq() == s@,
    {
        out.push(c);
        assert(out@ =~= it.seq().take(it.index() + 1));
    }
    assert(out@ =~= s@);
    out
}

/// `String::push`.
#[verifier::external_body]
pub(crate) fn aggiungi_carattere(s: &mut String, c: char)
    ensures
        final(s)@ == old(s)@.push(c),
{
    s.push(c);
}

/// A new string holding `s[a..b]`.
pub fn stringa(s: &Vec<char>, a: usize, b: usize) -> (r: String)
    requires
        a <= b <= s.len(),
    ensures
        r@ == s@.subrange(a as int, b as int),
{
    let mut out = String::new();
    let mut i = a;
    while i < b
        invariant
            a <= i <= b <= s.len(),
            out@ == s@.subrange(a as int, i as int),
        decreases b - i,
    {
        aggiungi_carattere(&mut out, s[i]);
        assert(out@ =~= s@.subrange(a as int, i + 1));
        i = i + 1;
    }
    out
}

/// A new string holding all of `s`.
pub fn da_caratteri(s: &Vec<char>) -> (r: String)
    ensures
        r@ == s@,
{
    let r = stringa(s, 0, s.len());
    assert(s@.subrange(0, s@.len() as int) =~= s@);
    r
}

/// `a[i..j] == b`, compared character by character.
pub fn uguale(a: &Vec<char>, i: usize, j: usize, b: &Vec<char>) -> (r: bool)
    requires
        i <= j <= a.len(),
    ensures
        r == (a@.subrange(i as int, j as int) == b@),
{
    if j - i != b.len() {
        assert(a@.subrange(i as int, j as int).len() != b@.len());
        return false;
    }
    let mut k: usize = 0;
    while k < b.len()
        invariant
            i <= j <= a.len(),
            j - i == b.len(),
            0 <= k <= b.len(),
            forall|m: int| 0 <= m < k ==> a@[i + m] == b@[m],
        decreases b.len() - k,
    {
        if a[i + k] != b[k] {
            assert(a@.subrange(i as int, j as int)[k as int] != b@[k as int]);
            return false;
        }
        k = k + 1;
    }
    assert(a@.subrange(i as int, j as int) =~= b@);
    true
}

/// Whether `c` occurs in `s`.
pub fn contiene(s: &Vec<char>, c: char) -> (r: bool)
    ensures
        r == s@.contains(c),
{
    let mut k: usize = 0;
    while k < s.len()
        invariant
            0 <= k <= s.len(),
            forall|m: int| 0 <= m < k ==> s@[m] != c,
        decreases s.len() - k,
    {
        if s[k] == c {
            assert(s@[k as int] == c);
            return true;
        }
        k = k + 1;
    }
    false
}

/// `a` followed by `b`.
pub fn concatena(a: &mut String, b: &str)
    ensures
        final(a)@ == old(a)@ + b@,
{
    let v = caratteri(b);
    let mut i: usize = 0;
    while i < v.len()
        invariant
            i <= v.len(),
            v@ == b@,
            a@ == old(a)@ + v@.subrange(0, i as int),
        decreases v.len() - i,
    {
        aggiungi_carattere(a, v[i]);
        assert(a@ =~= old(a)@ + v@.subrange(0, i + 1));
        i = i + 1;
    }
    assert(v@.subrange(0, v@.len() as int) =~= v@);
}

/// The ASCII digit of `d` (`d < 10`).
pub open spec fn carattere_cifra(d: nat) -> char {
    (48 + d) as char
}

/// Decimal digits of `n`, without leading zeros (what `Display` writes for an
/// unsigned integer).
pub open spec fn cifre_decimali(n: nat) -> Seq<char>
    decreases n,
{
    if n < 10 {
        seq![carattere_cifra(n)]
    } else {
        cifre_decimali(n / 10).push(carattere_cifra(n % 10))
    }
}

fn cifra_carattere(d: u32) -> (c: char)
    requires
        d < 10,
    ensures
        c == carattere_cifra(d as nat),
{
    if d == 0 {
        '0'
    } else if d == 1 {
        '1'
    } else if d == 2 {
        '2'
    } else if d == 3 {
        '3'
    } else if d == 4 {
        '4'
    } else if d == 5 {
        '5'
    } else if d == 6 {
        '6'
    } else if d == 7 {
        '7'
    } else if d == 8 {
        '8'
    } else {
        '9'
    }
}

/// The decimal digits of `n`.
pub fn decimale(n: u32) -> (r: Vec<char>)
    ensures
        r@ == cifre_decimali(n as nat),
    decreases n,
{
    if n < 10 {
        vec![cifra_carattere(n)]
    } else {
        let mut v = decimale(n / 10);
        v.push(cifra_carattere(n % 10));
        v
    }
}

/// Appends the decimal digits of `n` to `s`.
pub fn aggiungi_decimale(s: &mut String, n: u32)
    ensures
        final(s)@ == old(s)@ + cifre_decimali(n as nat),
{
    let v = decimale(n);
    let mut i: usize = 0;
    while i < v.len()
        invariant
            i <= v.len(),
            v@ == cifre_decimali(n as nat),
            s@ == old(s)@ + v@.subrange(0, i as int),
        decreases v.len() - i,
    {
        aggiungi_carattere(s, v[i]);
        assert(s@ =~= old(s)@ + v@.subrange(0, i + 1));
        i = i + 1;
    }
    assert(v@.subrange(0, v@.len() as int) =~= v@);
}

} // verus!
