use oxiterm::telnet::{filtra_iac, raddoppia_iac, DO, DONT, IAC, SB, SE, WILL, WONT};

#[test]
fn dati_senza_comandi() {
    let (p, r) = filtra_iac(b"ciao");
    assert_eq!(p, b"ciao");
    assert!(r.is_empty());
}

#[test]
fn rifiuta_opzioni() {
    let d = [b'a', IAC, DO, 1, b'b', IAC, WILL, 3, IAC, DONT, 5, IAC, WONT, 7];
    let (p, r) = filtra_iac(&d);
    assert_eq!(p, b"ab");
    assert_eq!(r, vec![IAC, WONT, 1, IAC, DONT, 3, IAC, WONT, 5, IAC, DONT, 7]);
}

#[test]
fn iac_doppio_e_sottonegoziazione() {
    let d = [IAC, IAC, IAC, SB, 24, 1, 2, IAC, SE, b'x', IAC, 241, b'y'];
    let (p, r) = filtra_iac(&d);
    assert_eq!(p, vec![0xFF, b'x', b'y']);
    assert!(r.is_empty());
}

#[test]
fn comando_troncato_e_sottonegoziazione_aperta() {
    let (p, r) = filtra_iac(&[b'a', IAC, DO]);
    assert_eq!(p, b"a");
    assert!(r.is_empty());
    let (p, _) = filtra_iac(&[b'a', IAC, SB, 1, 2, 3]);
    assert_eq!(p, b"a");
    let (p, _) = filtra_iac(&[b'a', IAC]);
    assert_eq!(p, b"a");
}

#[test]
fn escape_e_ritorno() {
    let dati = vec![1, 0xFF, 2, 0xFF, 0xFF];
    let fuori = raddoppia_iac(&dati);
    assert_eq!(fuori, vec![1, 0xFF, 0xFF, 2, 0xFF, 0xFF, 0xFF, 0xFF]);
    let (p, r) = filtra_iac(&fuori);
    assert_eq!(p, dati);
    assert!(r.is_empty());
}
