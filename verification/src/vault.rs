//! Encrypted vault for saved passwords.
//!
//! A master password unlocks the vault: from it (with Argon2) an AES-256-GCM
//! key is derived, which encrypts each password. Only ciphertext goes to disk;
//! the derived key lives in memory once the vault is unlocked. Reading and
//! writing the vault file is the caller's part: here the vault is a value.

use aes_gcm::aead::{Aead, AeadCore, KeyInit, OsRng};
use aes_gcm::{Aes256Gcm, Key, Nonce};
use base64::Engine;
use rand::RngCore;
use vstd::prelude::*;
use vstd::utf8::{
    decode_utf8, encode_utf8, encode_utf8_decode_utf8, encode_utf8_valid_utf8, is_ascii_chars,
    is_ascii_chars_encode_utf8, valid_utf8,
};

use crate::testo::da_caratteri;

verus! {

// ---------------------------------------------------------------------------
// Outside computations
// ---------------------------------------------------------------------------

/// What the base64 STANDARD engine encodes a byte sequence to.
pub uninterp spec fn b64_codifica(b: Seq<u8>) -> Seq<char>;

/// What the base64 STANDARD engine decodes a text to (`None` on error).
pub uninterp spec fn b64_decodifica(s: Seq<char>) -> Option<Seq<u8>>;

/// The 32-byte key that Argon2 (default parameters) derives from a password
/// and a salt.
pub uninterp spec fn argon2_chiave(password: Seq<u8>, salt: Seq<u8>) -> Seq<u8>;

/// The AES-256-GCM ciphertext (with its 16-byte tag appended) of a plaintext
/// under a key and a 12-byte nonce, with no associated data.
pub uninterp spec fn aes_gcm_cifrato(chiave: Seq<u8>, nonce: Seq<u8>, testo: Seq<u8>) -> Seq<u8>;

/// Largest plaintext that AES-GCM encrypts (2^36 bytes).
pub open spec fn p_max() -> nat {
    0x10_0000_0000
}

/// `general_purpose::STANDARD.encode`. Claimed: the result is a function of
/// the bytes alone, and decoding it gives the bytes back (the engine pads on
/// encoding and requires canonical padding on decoding). The encoded length
/// must fit in a `usize`, else the crate panics.
#[verifier::external_body]
fn codifica_b64(b: &[u8]) -> (r: String)
    requires
        (b@.len() + 2) / 3 * 4 <= usize::MAX,
    ensures
        r@ == b64_codifica(b@),
        b64_decodifica(r@) == Some(b@),
{
    base64::engine::general_purpose::STANDARD.encode(b)
}

/// `general_purpose::STANDARD.decode`. Claimed: the result is a function of
/// the text alone, and a decoded text is the canonical encoding of what it
/// decodes to. Not claimed: the wording of the error.
#[verifier::external_body]
fn decodifica_b64(s: &str) -> (r: Result<Vec<u8>, String>)
    ensures
        match r {
            Ok(v) => b64_decodifica(s@) == Some(v@) && b64_codifica(v@) == s@,
            Err(_) => b64_decodifica(s@) is None,
        },
{
    base64::engine::general_purpose::STANDARD.decode(s).map_err(|e| e.to_string())
}

/// `Argon2::default().hash_password_into` into 32 bytes. Claimed: it fails
/// exactly on a password longer than 0xFFFFFFFF bytes or a salt shorter than
/// 8 or longer than 0xFFFFFFFF bytes, and otherwise the key is a function of
/// password and salt. Not claimed: the wording of the error.
#[verifier::external_body]
fn deriva_argon2(password: &[u8], salt: &[u8]) -> (r: Result<[u8; 32], String>)
    ensures
        r is Ok <==> (password@.len() <= 0xFFFF_FFFF && 8 <= salt@.len() <= 0xFFFF_FFFF),
        r matches Ok(k) ==> k@ == argon2_chiave(password@, salt@),
{
    let mut chiave = [0u8;32];
    argon2::Argon2::default().hash_password_into(password, salt, &mut chiave).map(|_| chiave).map_err(
        |e| e.to_string(),
    )
}

/// `Aead::encrypt` of `Aes256Gcm` with no associated data. Claimed: it fails
/// exactly on a plaintext longer than 2^36 bytes; otherwise the ciphertext is
/// a function of key, nonce and plaintext, 16 bytes longer than the
/// plaintext, and no other plaintext of allowed length has the same
/// ciphertext under this key and nonce.
#[verifier::external_body]
fn cifra_aes(chiave: &[u8; 32], nonce: &[u8; 12], testo: &[u8]) -> (r: Result<Vec<u8>, String>)
    ensures
        r is Ok <==> testo@.len() <= p_max(),
        r matches Ok(c) ==> {
            &&& c@ == aes_gcm_cifrato(chiave@, nonce@, testo@)
            &&& c@.len() == testo@.len() + 16
            &&& forall|p: Seq<u8>|
                p.len() <= p_max() && #[trigger] aes_gcm_cifrato(chiave@, nonce@, p) == c@ ==> p
                    == testo@
        },
{
    let cipher = Aes256Gcm::new(Key::<Aes256Gcm>::from_slice(chiave));
    cipher.encrypt(Nonce::from_slice(nonce), testo).map_err(|e| e.to_string())
}

/// `Aead::decrypt` of `Aes256Gcm` with no associated data (a 12-byte nonce,
/// else `Nonce::from_slice` panics). Called only on data of at most
/// 2^36 + 16 bytes, so that the plaintext (the data without its 16-byte tag)
/// is at most 2^36 bytes. Claimed: it succeeds exactly on the ciphertexts of
/// plaintexts of allowed length under this key and nonce, and then gives that
/// plaintext back.
#[verifier::external_body]
fn decifra_aes(chiave: &[u8; 32], nonce: &[u8], dati: &[u8]) -> (r: Option<Vec<u8>>)
    requires
        nonce@.len() == 12,
        dati@.len() <= p_max() + 16,
    ensures
        r is None ==> forall|p: Seq<u8>|
            p.len() <= p_max() ==> dati@ != #[trigger] aes_gcm_cifrato(chiave@, nonce@, p),
        r matches Some(v) ==> {
            &&& v@.len() <= p_max()
            &&& dati@ == aes_gcm_cifrato(chiave@, nonce@, v@)
            &&& forall|p: Seq<u8>|
                p.len() <= p_max() && dati@ == #[trigger] aes_gcm_cifrato(chiave@, nonce@, p) ==> p
                    == v@
        },
{
    let cipher = Aes256Gcm::new(Key::<Aes256Gcm>::from_slice(chiave));
    cipher.decrypt(Nonce::from_slice(nonce), dati).ok()
}

/// `Aes256Gcm::generate_nonce` with the operating system's generator. The
/// nonce is random: nothing is claimed of its value.
#[verifier::external_body]
fn nonce_casuale() -> (r: [u8; 12]) {
    Aes256Gcm::generate_nonce(&mut OsRng).into()
}

/// `RngCore::fill_bytes` of the operating system's generator on 16 bytes.
/// The salt is random: nothing is claimed of its value.
#[verifier::external_body]
fn sale_casuale() -> (r: [u8; 16]) {
    let mut sale = [0u8;16];
    OsRng.fill_bytes(&mut sale);
    sale
}

/// `String::from_utf8`. Claimed (std documentation): it succeeds exactly on
/// valid UTF-8, and then holds the decoded characters. Not claimed: the
/// wording of the error.
#[verifier::external_body]
fn da_utf8(b: Vec<u8>) -> (r: Result<String, String>)
    ensures
        r is Ok <==> valid_utf8(b@),
        r matches Ok(s) ==> s@ == decode_utf8(b@),
{
    String::from_utf8(b).map_err(|e| e.to_string())
}

// ---------------------------------------------------------------------------
// The vault as a value
// ---------------------------------------------------------------------------

/// An encrypted value: nonce and ciphertext, both in base64.
pub struct Cifrato {
    pub nonce: String,
    pub dati: String,
}

/// Contents of the vault file. `voci` maps a session id to its encrypted
/// password; an id occurs at most once in a file written by this library.
pub struct FileVault {
    pub salt: String,
    pub sentinella: Cifrato,
    pub voci: Vec<(String, Cifrato)>,
}

pub struct VistaCifrato {
    pub nonce: Seq<char>,
    pub dati: Seq<char>,
}

pub struct VistaVault {
    pub salt: Seq<char>,
    pub sentinella: VistaCifrato,
    pub voci: Seq<(Seq<char>, VistaCifrato)>,
}

impl View for Cifrato {
    type V = VistaCifrato;

    open spec fn view(&self) -> VistaCifrato {
        VistaCifrato { nonce: self.nonce@, dati: self.dati@ }
    }
}

pub open spec fn vista_voci(v: Seq<(String, Cifrato)>) -> Seq<(Seq<char>, VistaCifrato)> {
    v.map_values(|e: (String, Cifrato)| (e.0@, e.1@))
}

impl View for FileVault {
    type V = VistaVault;

    open spec fn view(&self) -> VistaVault {
        VistaVault { salt: self.salt@, sentinella: self.sentinella@, voci: vista_voci(self.voci@) }
    }
}

/// The text encrypted as sentinel: "oxiterm".
pub open spec fn testo_sentinella() -> Seq<char> {
    seq!['o', 'x', 'i', 't', 'e', 'r', 'm']
}

/// The error of a wrong master password: "master password errata".
pub open spec fn msg_password_errata() -> Seq<char> {
    seq![
        'm', 'a', 's', 't', 'e', 'r', ' ', 'p', 'a', 's', 's', 'w', 'o', 'r', 'd', ' ', 'e', 'r', 'r', 'a',
        't', 'a',
    ]
}

/// `c` is the encryption of `testo` under `chiave`: some 12-byte nonce, the
/// nonce and the ciphertext in base64, and no other plaintext gives the same
/// ciphertext.
pub open spec fn cifra_di(chiave: Seq<u8>, c: VistaCifrato, testo: Seq<char>) -> bool {
    exists|n: Seq<u8>|
        #![trigger b64_codifica(n)]
        {
            let p = encode_utf8(testo);
            let d = aes_gcm_cifrato(chiave, n, p);
            &&& n.len() == 12
            &&& p.len() <= p_max()
            &&& d.len() == p.len() + 16
            &&& c.nonce == b64_codifica(n)
            &&& b64_decodifica(c.nonce) == Some(n)
            &&& c.dati == b64_codifica(d)
            &&& b64_decodifica(c.dati) == Some(d)
            &&& forall|q: Seq<u8>|
                q.len() <= p_max() && #[trigger] aes_gcm_cifrato(chiave, n, q) == d ==> q == p
        }
}

/// The plaintext whose ciphertext is `d` under key and nonce, if there is one.
pub open spec fn testo_in_chiaro(chiave: Seq<u8>, n: Seq<u8>, d: Seq<u8>) -> Option<Seq<u8>> {
    if exists|p: Seq<u8>| p.len() <= p_max() && d == #[trigger] aes_gcm_cifrato(chiave, n, p) {
        Some(choose|p: Seq<u8>| p.len() <= p_max() && d == #[trigger] aes_gcm_cifrato(chiave, n, p))
    } else {
        None
    }
}

/// The text that the nonce `n` and the ciphertext `d` decrypt to under
/// `chiave`: `None` when the nonce is not 12 bytes, when the data is longer
/// than the ciphertext of the longest allowed plaintext, when it is no
/// ciphertext under this key (wrong master password) or when the plaintext is
/// not UTF-8.
pub open spec fn decifrato_byte(chiave: Seq<u8>, n: Seq<u8>, d: Seq<u8>) -> Option<Seq<char>> {
    if n.len() != 12 || d.len() > p_max() + 16 {
        None
    } else {
        match testo_in_chiaro(chiave, n, d) {
            None => None,
            Some(p) => if valid_utf8(p) {
                Some(decode_utf8(p))
            } else {
                None
            },
        }
    }
}

/// The error text that the library gives for nonce and ciphertext bytes, where
/// it fixes one: "nonce non valido" for a nonce that is not 12 bytes, "master
/// password errata" for data that does not decrypt under the key. `None` where
/// decryption succeeds or the error is that of the UTF-8 check.
pub open spec fn errore_byte(chiave: Seq<u8>, n: Seq<u8>, d: Seq<u8>) -> Option<Seq<char>> {
    if n.len() != 12 {
        Some(msg_nonce_non_valido())
    } else if d.len() > p_max() + 16 || testo_in_chiaro(chiave, n, d) is None {
        Some(msg_password_errata())
    } else {
        None
    }
}

/// The error of a nonce that is not 12 bytes: "nonce non valido".
pub open spec fn msg_nonce_non_valido() -> Seq<char> {
    seq!['n', 'o', 'n', 'c', 'e', ' ', 'n', 'o', 'n', ' ', 'v', 'a', 'l', 'i', 'd', 'o']
}

/// The text that `c` decrypts to under `chiave`: `None` when the nonce or the
/// data is not base64, or when its bytes do not decrypt (`decifrato_byte`).
pub open spec fn decifrato(chiave: Seq<u8>, c: VistaCifrato) -> Option<Seq<char>> {
    match (b64_decodifica(c.nonce), b64_decodifica(c.dati)) {
        (Some(n), Some(d)) => decifrato_byte(chiave, n, d),
        _ => None,
    }
}

/// The error text of decrypting `c`, where the library fixes it: that of
/// `errore_byte` once both fields are base64. `None` for a base64 error.
pub open spec fn errore_decifra(chiave: Seq<u8>, c: VistaCifrato) -> Option<Seq<char>> {
    match (b64_decodifica(c.nonce), b64_decodifica(c.dati)) {
        (Some(n), Some(d)) => errore_byte(chiave, n, d),
        _ => None,
    }
}

/// Encrypts a text under a key, with a fresh random nonce.
pub fn cifra(chiave: &[u8; 32], testo: &str) -> (r: Result<Cifrato, String>)
    ensures
        r is Ok <==> encode_utf8(testo@).len() <= p_max() && encode_utf8(testo@).len() + 16
            <= usize::MAX / 2,
        r matches Ok(c) ==> cifra_di(chiave@, c@, testo@),
{
    let chiaro = testo.as_bytes();
    let nonce = nonce_casuale();
    let dati = cifra_aes(chiave, &nonce, chiaro)?;
    if dati.len() > usize::MAX / 2 {
        return Err(da_caratteri(&vec!['t', 'e', 's', 't', 'o', ' ', 't', 'r', 'o', 'p', 'p', 'o', ' ', 'l', 'u', 'n', 'g', 'o']));
    }
    let n = codifica_b64(&nonce);
    let d = codifica_b64(dati.as_slice());
    let c = Cifrato { nonce: n, dati: d };
    assert(c@.nonce == b64_codifica(nonce@) && b64_decodifica(c@.nonce) == Some(nonce@));
    Ok(c)
}

/// Decrypts nonce and ciphertext bytes under a key.
pub fn decifra_byte(chiave: &[u8; 32], nonce: &[u8], dati: &[u8]) -> (r: Result<String, String>)
    ensures
        (match r {
            Ok(s) => Some(s@),
            Err(_) => None::<Seq<char>>,
        }) == decifrato_byte(chiave@, nonce@, dati@),
        errore_byte(chiave@, nonce@, dati@) matches Some(m) ==> (r matches Err(e) && e@ == m),
{
    if nonce.len() != 12 {
        let e = da_caratteri(&vec!['n', 'o', 'n', 'c', 'e', ' ', 'n', 'o', 'n', ' ', 'v', 'a', 'l', 'i', 'd', 'o']);
        assert(e@ =~= msg_nonce_non_valido());
        return Err(e);
    }
    if dati.len() as u64 > 0x10_0000_0010u64 {
        return Err(testo_errore_password());
    }
    let chiaro = match decifra_aes(chiave, nonce, dati) {
        Some(p) => p,
        None => {
            return Err(testo_errore_password());
        },
    };
    proof {
        let p = choose|p: Seq<u8>| p.len() <= p_max() && dati@ == #[trigger] aes_gcm_cifrato(chiave@, nonce@, p);
        assert(p.len() <= p_max() && dati@ == aes_gcm_cifrato(chiave@, nonce@, p));
        assert(testo_in_chiaro(chiave@, nonce@, dati@) == Some(chiaro@));
    }
    da_utf8(chiaro)
}

/// Decrypts a value under a key.
pub fn decifra(chiave: &[u8; 32], c: &Cifrato) -> (r: Result<String, String>)
    ensures
        (match r {
            Ok(s) => Some(s@),
            Err(_) => None::<Seq<char>>,
        }) == decifrato(chiave@, c@),
        errore_decifra(chiave@, c@) matches Some(m) ==> (r matches Err(e) && e@ == m),
{
    let nonce = decodifica_b64(c.nonce.as_str())?;
    let dati = decodifica_b64(c.dati.as_str())?;
    decifra_byte(chiave, nonce.as_slice(), dati.as_slice())
}

fn testo_errore_password() -> (r: String)
    ensures
        r@ == msg_password_errata(),
{
    let v = vec![
        'm', 'a', 's', 't', 'e', 'r', ' ', 'p', 'a', 's', 's', 'w', 'o', 'r', 'd', ' ', 'e', 'r', 'r', 'a',
        't', 'a',
    ];
    assert(v@ =~= msg_password_errata());
    da_caratteri(&v)
}

/// `vault` as the library writes it for `master` with key `chiave`: a salt of
/// 16 bytes, the key derived from the master password and that salt, the
/// sentinel encrypted under the key, no passwords.
pub open spec fn creato_da(vault: VistaVault, master: Seq<char>, chiave: Seq<u8>) -> bool {
    &&& exists|sale: Seq<u8>|
        #![trigger b64_codifica(sale)]
        {
            &&& sale.len() == 16
            &&& vault.salt == b64_codifica(sale)
            &&& b64_decodifica(vault.salt) == Some(sale)
            &&& chiave == argon2_chiave(encode_utf8(master), sale)
        }
    &&& encode_utf8(master).len() <= 0xFFFF_FFFF
    &&& cifra_di(chiave, vault.sentinella, testo_sentinella())
    &&& vault.voci.len() == 0
}

/// Creates a new vault for a master password: a random salt, the derived key
/// and the encrypted sentinel. Returns the vault and the key.
pub fn crea_vault(master: &str) -> (r: Result<(FileVault, [u8; 32]), String>)
    ensures
        r is Ok <==> encode_utf8(master@).len() <= 0xFFFF_FFFF,
        r matches Ok((v, k)) ==> creato_da(v@, master@, k@) && id_unici(v@.voci),
{
    let sale = sale_casuale();
    let chiave = deriva_argon2(master.as_bytes(), &sale)?;
    let testo = da_caratteri(&vec!['o', 'x', 'i', 't', 'e', 'r', 'm']);
    assert(testo@ =~= testo_sentinella());
    proof {
        assert(is_ascii_chars(testo_sentinella()));
        is_ascii_chars_encode_utf8(testo_sentinella());
    }
    let sentinella = match cifra(&chiave, testo.as_str()) {
        Ok(c) => c,
        Err(e) => {
            return Err(e);
        },
    };
    let salt = codifica_b64(&sale);
    let voci: Vec<(String, Cifrato)> = Vec::new();
    let v = FileVault { salt, sentinella, voci };
    assert(vista_voci(v.voci@) =~= Seq::empty());
    assert(b64_decodifica(v@.salt) == Some(sale@));
    Ok((v, chiave))
}

/// What unlocking gives: the key derived from the master password and the
/// vault's salt, provided that the sentinel decrypts under it to "oxiterm".
pub open spec fn sbloccato(vault: VistaVault, master: Seq<char>) -> Option<Seq<u8>> {
    match b64_decodifica(vault.salt) {
        None => None,
        Some(sale) => if encode_utf8(master).len() <= 0xFFFF_FFFF && 8 <= sale.len() <= 0xFFFF_FFFF {
            let chiave = argon2_chiave(encode_utf8(master), sale);
            if decifrato(chiave, vault.sentinella) == Some(testo_sentinella()) {
                Some(chiave)
            } else {
                None
            }
        } else {
            None
        },
    }
}

/// The error text of unlocking, where the library fixes it: once the salt
/// is base64 of an allowed length and the key is derived, that of decrypting
/// the sentinel (`errore_decifra`), or "master password errata" when the
/// sentinel decrypts to another text than "oxiterm".
pub open spec fn errore_sblocco(vault: VistaVault, master: Seq<char>) -> Option<Seq<char>> {
    match b64_decodifica(vault.salt) {
        None => None,
        Some(sale) => if encode_utf8(master).len() <= 0xFFFF_FFFF && 8 <= sale.len() <= 0xFFFF_FFFF {
            let chiave = argon2_chiave(encode_utf8(master), sale);
            match errore_decifra(chiave, vault.sentinella) {
                Some(m) => Some(m),
                None => match decifrato(chiave, vault.sentinella) {
                    Some(t) => if t != testo_sentinella() {
                        Some(msg_password_errata())
                    } else {
                        None
                    },
                    None => None,
                },
            }
        } else {
            None
        },
    }
}

/// Unlocks an existing vault with the master password and returns the key.
pub fn sblocca_vault(vault: &FileVault, master: &str) -> (r: Result<[u8; 32], String>)
    ensures
        (match r {
            Ok(k) => Some(k@),
            Err(_) => None::<Seq<u8>>,
        }) == sbloccato(vault@, master@),
        errore_sblocco(vault@, master@) matches Some(m) ==> (r matches Err(e) && e@ == m),
{
    let sale = decodifica_b64(vault.salt.as_str())?;
    let chiave = deriva_argon2(master.as_bytes(), sale.as_slice())?;
    let s = decifra(&chiave, &vault.sentinella)?;
    let atteso = da_caratteri(&vec!['o', 'x', 'i', 't', 'e', 'r', 'm']);
    assert(atteso@ =~= testo_sentinella());
    if s != atteso {
        return Err(testo_errore_password());
    }
    Ok(chiave)
}

/// No id occurs twice among the entries.
pub open spec fn id_unici(voci: Seq<(Seq<char>, VistaCifrato)>) -> bool {
    forall|i: int, j: int| 0 <= i < j < voci.len() ==> #[trigger] voci[i].0 != #[trigger] voci[j].0
}

/// The encrypted password of `id`: the first entry with that id.
pub open spec fn cerca_voce(voci: Seq<(Seq<char>, VistaCifrato)>, id: Seq<char>) -> Option<VistaCifrato>
    decreases voci.len(),
{
    if voci.len() == 0 {
        None
    } else if voci[0].0 == id {
        Some(voci[0].1)
    } else {
        cerca_voce(voci.drop_first(), id)
    }
}

/// `voci` with the password of `id` set to `c`: the entry of `id` replaced
/// in place, or a new entry at the end.
pub open spec fn inserisci_voce(
    voci: Seq<(Seq<char>, VistaCifrato)>,
    id: Seq<char>,
    c: VistaCifrato,
) -> Seq<(Seq<char>, VistaCifrato)>
    decreases voci.len(),
{
    if voci.len() == 0 {
        seq![(id, c)]
    } else if voci[0].0 == id {
        voci.update(0, (id, c))
    } else {
        seq![voci[0]] + inserisci_voce(voci.drop_first(), id, c)
    }
}

/// What reading the password of `id` gives: `Some(None)` when the vault holds
/// none, `Some(Some(p))` when it decrypts to `p`, `None` (an error) when it
/// does not decrypt.
pub open spec fn password_letta(vault: VistaVault, chiave: Seq<u8>, id: Seq<char>) -> Option<Option<Seq<char>>> {
    match cerca_voce(vault.voci, id) {
        None => Some(None),
        Some(c) => match decifrato(chiave, c) {
            Some(p) => Some(Some(p)),
            None => None,
        },
    }
}

fn indice_voce(voci: &Vec<(String, Cifrato)>, id: &str) -> (r: Option<usize>)
    ensures
        match r {
            Some(i) => i < voci.len() && cerca_voce(vista_voci(voci@), id@) == Some(voci@[i as int].1@)
                && voci@[i as int].0@ == id@ && forall|j: int| 0 <= j < i ==> voci@[j].0@ != id@,
            None => cerca_voce(vista_voci(voci@), id@) is None && forall|j: int|
                0 <= j < voci.len() ==> voci@[j].0@ != id@,
        },
{
    let ghost vv = vista_voci(voci@);
    let id_s = da_caratteri_str(id);
    let mut i: usize = 0;
    assert(vv.skip(0) =~= vv);
    while i < voci.len()
        invariant
            i <= voci.len(),
            vv == vista_voci(voci@),
            id_s@ == id@,
            cerca_voce(vv, id@) == cerca_voce(vv.skip(i as int), id@),
            forall|j: int| 0 <= j < i ==> voci@[j].0@ != id@,
        decreases voci.len() - i,
    {
        assert(vv.skip(i as int).drop_first() =~= vv.skip(i + 1));
        assert(vv.skip(i as int)[0] == (voci@[i as int].0@, voci@[i as int].1@));
        if voci[i].0 == id_s {
            return Some(i);
        }
        i = i + 1;
    }
    None
}

/// Saves (encrypted) the password of a session into the vault.
pub fn salva_password(vault: &mut FileVault, chiave: &[u8; 32], id: &str, password: &str) -> (r: Result<(), String>)
    ensures
        r is Ok <==> encode_utf8(password@).len() <= p_max() && encode_utf8(password@).len() + 16
            <= usize::MAX / 2,
        r is Err ==> final(vault)@ == old(vault)@,
        id_unici(old(vault)@.voci) ==> id_unici(final(vault)@.voci),
        r is Ok ==> {
            &&& final(vault)@.salt == old(vault)@.salt
            &&& final(vault)@.sentinella == old(vault)@.sentinella
            &&& exists|c: VistaCifrato|
                cifra_di(chiave@, c, password@) && final(vault)@.voci == #[trigger] inserisci_voce(
                    old(vault)@.voci,
                    id@,
                    c,
                )
        },
{
    let c = cifra(chiave, password)?;
    let ghost cv = c@;
    let ghost prima = vista_voci(vault.voci@);
    match indice_voce(&vault.voci, id) {
        Some(i) => {
            vault.voci.set(i, (da_caratteri_str(id), c));
            proof {
                lemma_inserisci_indice(prima, id@, cv, i as int);
                assert(vista_voci(vault.voci@) =~= prima.update(i as int, (id@, cv)));
                let dopo = vista_voci(vault.voci@);
                if id_unici(prima) {
                    assert forall|a: int, b: int| 0 <= a < b < dopo.len() implies #[trigger] dopo[a].0
                        != #[trigger] dopo[b].0 by {
                        assert(prima[a].0 != prima[b].0);
                    };
                }
            }
        },
        None => {
            vault.voci.push((da_caratteri_str(id), c));
            proof {
                lemma_inserisci_assente(prima, id@, cv);
                assert(vista_voci(vault.voci@) =~= prima.push((id@, cv)));
                let dopo = vista_voci(vault.voci@);
                if id_unici(prima) {
                    assert forall|a: int, b: int| 0 <= a < b < dopo.len() implies #[trigger] dopo[a].0
                        != #[trigger] dopo[b].0 by {
                        if b < prima.len() {
                            assert(prima[a].0 != prima[b].0);
                        }
                    };
                }
            }
        },
    }
    assert(prima == old(vault)@.voci);
    assert(vault@.voci == inserisci_voce(old(vault)@.voci, id@, cv));
    assert(vault@.salt == old(vault)@.salt);
    assert(vault@.sentinella == old(vault)@.sentinella);
    assert(cifra_di(chiave@, cv, password@));
    Ok(())
}

proof fn lemma_inserisci_indice(voci: Seq<(Seq<char>, VistaCifrato)>, id: Seq<char>, c: VistaCifrato, i: int)
    requires
        0 <= i < voci.len(),
        voci[i].0 == id,
        forall|j: int| 0 <= j < i ==> voci[j].0 != id,
    ensures
        inserisci_voce(voci, id, c) == voci.update(i, (id, c)),
    decreases voci.len(),
{
    if i > 0 {
        lemma_inserisci_indice(voci.drop_first(), id, c, i - 1);
        assert(seq![voci[0]] + voci.drop_first().update(i - 1, (id, c)) =~= voci.update(i, (id, c)));
    }
}

proof fn lemma_inserisci_assente(voci: Seq<(Seq<char>, VistaCifrato)>, id: Seq<char>, c: VistaCifrato)
    requires
        forall|j: int| 0 <= j < voci.len() ==> voci[j].0 != id,
    ensures
        inserisci_voce(voci, id, c) == voci.push((id, c)),
    decreases voci.len(),
{
    if voci.len() > 0 {
        lemma_inserisci_assente(voci.drop_first(), id, c);
        assert(seq![voci[0]] + voci.drop_first().push((id, c)) =~= voci.push((id, c)));
    }
}

fn da_caratteri_str(s: &str) -> (r: String)
    ensures
        r@ == s@,
{
    let v = crate::testo::caratteri(s);
    da_caratteri(&v)
}

/// The error text of reading the password of `id`, where the library fixes
/// it: that of decrypting its entry (`errore_decifra`).
pub open spec fn errore_lettura(vault: VistaVault, chiave: Seq<u8>, id: Seq<char>) -> Option<Seq<char>> {
    match cerca_voce(vault.voci, id) {
        Some(c) => errore_decifra(chiave, c),
        None => None,
    }
}

/// Reads (decrypted) the password of a session, if the vault holds one.
pub fn leggi_password(vault: &FileVault, chiave: &[u8; 32], id: &str) -> (r: Result<Option<String>, String>)
    ensures
        (match r {
            Ok(Some(p)) => Some(Some(p@)),
            Ok(None) => Some(None::<Seq<char>>),
            Err(_) => None,
        }) == password_letta(vault@, chiave@, id@),
        errore_lettura(vault@, chiave@, id@) matches Some(m) ==> (r matches Err(e) && e@ == m),
{
    match indice_voce(&vault.voci, id) {
        Some(i) => {
            let p = decifra(chiave, &vault.voci[i].1)?;
            Ok(Some(p))
        },
        None => Ok(None),
    }
}

// ---------------------------------------------------------------------------
// Laws
// ---------------------------------------------------------------------------

/// A vault created for a master password is unlocked by that master
/// password, and unlocking gives the key it was created with.
pub proof fn legge_sblocco_vault_nuovo(vault: VistaVault, master: Seq<char>, chiave: Seq<u8>)
    requires
        creato_da(vault, master, chiave),
    ensures
        sbloccato(vault, master) == Some(chiave),
{
    broadcast use encode_utf8_valid_utf8, encode_utf8_decode_utf8;

    let sale = choose|sale: Seq<u8>|
        #![trigger b64_codifica(sale)]
        {
            &&& sale.len() == 16
            &&& vault.salt == b64_codifica(sale)
            &&& b64_decodifica(vault.salt) == Some(sale)
            &&& chiave == argon2_chiave(encode_utf8(master), sale)
        };
    lemma_decifra_cifrato(chiave, vault.sentinella, testo_sentinella());
}

/// What `cifra` produced decrypts, under the same key, to the text it
/// encrypted.
pub proof fn lemma_decifra_cifrato(chiave: Seq<u8>, c: VistaCifrato, testo: Seq<char>)
    requires
        cifra_di(chiave, c, testo),
    ensures
        decifrato(chiave, c) == Some(testo),
{
    broadcast use encode_utf8_valid_utf8, encode_utf8_decode_utf8;

    let n = choose|n: Seq<u8>|
        #![trigger b64_codifica(n)]
        {
            let p = encode_utf8(testo);
            let d = aes_gcm_cifrato(chiave, n, p);
            &&& n.len() == 12
            &&& p.len() <= p_max()
            &&& c.nonce == b64_codifica(n)
            &&& b64_decodifica(c.nonce) == Some(n)
            &&& c.dati == b64_codifica(d)
            &&& b64_decodifica(c.dati) == Some(d)
            &&& forall|q: Seq<u8>|
                q.len() <= p_max() && #[trigger] aes_gcm_cifrato(chiave, n, q) == d ==> q == p
        };
    let p = encode_utf8(testo);
    let d = aes_gcm_cifrato(chiave, n, p);
    assert(p.len() <= p_max() && d == aes_gcm_cifrato(chiave, n, p));
    let q = choose|q: Seq<u8>| q.len() <= p_max() && d == #[trigger] aes_gcm_cifrato(chiave, n, q);
    assert(q == p);
}

/// A password saved for `id` is read back for `id`.
pub proof fn legge_leggi_dopo_salva(vault: VistaVault, chiave: Seq<u8>, id: Seq<char>, c: VistaCifrato, password: Seq<char>)
    requires
        cifra_di(chiave, c, password),
    ensures
        password_letta(
            VistaVault { voci: inserisci_voce(vault.voci, id, c), ..vault },
            chiave,
            id,
        ) == Some(Some(password)),
{
    lemma_cerca_inserita(vault.voci, id, c);
    lemma_decifra_cifrato(chiave, c, password);
}

proof fn lemma_cerca_inserita(voci: Seq<(Seq<char>, VistaCifrato)>, id: Seq<char>, c: VistaCifrato)
    ensures
        cerca_voce(inserisci_voce(voci, id, c), id) == Some(c),
    decreases voci.len(),
{
    if voci.len() > 0 && voci[0].0 != id {
        lemma_cerca_inserita(voci.drop_first(), id, c);
        assert((seq![voci[0]] + inserisci_voce(voci.drop_first(), id, c)).drop_first()
            =~= inserisci_voce(voci.drop_first(), id, c));
    }
}

/// Saving the password of `id` leaves what is read for any other id unchanged.
pub proof fn legge_salva_non_tocca_altre(
    vault: VistaVault,
    chiave: Seq<u8>,
    id: Seq<char>,
    c: VistaCifrato,
    altro: Seq<char>,
)
    requires
        altro != id,
    ensures
        password_letta(VistaVault { voci: inserisci_voce(vault.voci, id, c), ..vault }, chiave, altro)
            == password_letta(vault, chiave, altro),
{
    lemma_cerca_altra(vault.voci, id, c, altro);
}

/// The entries after saving the passwords of `altre`, one after the other.
pub open spec fn dopo_salvataggi(
    voci: Seq<(Seq<char>, VistaCifrato)>,
    altre: Seq<(Seq<char>, VistaCifrato)>,
) -> Seq<(Seq<char>, VistaCifrato)>
    decreases altre.len(),
{
    if altre.len() == 0 {
        voci
    } else {
        dopo_salvataggi(inserisci_voce(voci, altre[0].0, altre[0].1), altre.drop_first())
    }
}

proof fn lemma_cerca_dopo_altre(
    voci: Seq<(Seq<char>, VistaCifrato)>,
    altre: Seq<(Seq<char>, VistaCifrato)>,
    id: Seq<char>,
)
    requires
        forall|i: int| 0 <= i < altre.len() ==> (#[trigger] altre[i]).0 != id,
    ensures
        cerca_voce(dopo_salvataggi(voci, altre), id) == cerca_voce(voci, id),
    decreases altre.len(),
{
    if altre.len() > 0 {
        assert(altre[0].0 != id);
        lemma_cerca_altra(voci, altre[0].0, altre[0].1, id);
        let resto = altre.drop_first();
        assert forall|i: int| 0 <= i < resto.len() implies (#[trigger] resto[i]).0 != id by {
            assert(resto[i] == altre[i + 1]);
        };
        lemma_cerca_dopo_altre(inserisci_voce(voci, altre[0].0, altre[0].1), resto, id);
    }
}

/// A password saved for `id` is read back for `id` after any number of later
/// saves for other ids.
pub proof fn legge_leggi_dopo_altri_salvataggi(
    vault: VistaVault,
    chiave: Seq<u8>,
    id: Seq<char>,
    c: VistaCifrato,
    password: Seq<char>,
    altre: Seq<(Seq<char>, VistaCifrato)>,
)
    requires
        cifra_di(chiave, c, password),
        forall|i: int| 0 <= i < altre.len() ==> (#[trigger] altre[i]).0 != id,
    ensures
        password_letta(
            VistaVault { voci: dopo_salvataggi(inserisci_voce(vault.voci, id, c), altre), ..vault },
            chiave,
            id,
        ) == Some(Some(password)),
{
    lemma_cerca_dopo_altre(inserisci_voce(vault.voci, id, c), altre, id);
    lemma_cerca_inserita(vault.voci, id, c);
    lemma_decifra_cifrato(chiave, c, password);
}

proof fn lemma_cerca_altra(voci: Seq<(Seq<char>, VistaCifrato)>, id: Seq<char>, c: VistaCifrato, altro: Seq<char>)
    requires
        altro != id,
    ensures
        cerca_voce(inserisci_voce(voci, id, c), altro) == cerca_voce(voci, altro),
    decreases voci.len(),
{
    let nuova = inserisci_voce(voci, id, c);
    if voci.len() == 0 {
        assert(nuova == seq![(id, c)]);
        assert(nuova.drop_first() =~= Seq::<(Seq<char>, VistaCifrato)>::empty());
        assert(cerca_voce(nuova.drop_first(), altro) is None);
        assert(nuova[0].0 == id);
    } else if voci[0].0 == id {
        assert(nuova == voci.update(0, (id, c)));
        assert(nuova[0].0 == id);
        assert(nuova.drop_first() =~= voci.drop_first());
    } else {
        lemma_cerca_altra(voci.drop_first(), id, c, altro);
        assert(nuova == seq![voci[0]] + inserisci_voce(voci.drop_first(), id, c));
        assert(nuova[0] == voci[0]);
        assert(nuova.drop_first() =~= inserisci_voce(voci.drop_first(), id, c));
    }
}

} // verus!
