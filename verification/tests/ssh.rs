use oxiterm::ssh::{
    byte_da_leggere, risposta_successo_socks, etichetta, inizio_socks, messaggio_errore, modo_da_testo, passo_socks, verifica_chiave,
    AzioneSocks, Destinazione, ModoFiducia, StatoChiave, StatoSocks,
};

#[test]
fn modo_di_fiducia() {
    assert_eq!(modo_da_testo(Some("accetta")), ModoFiducia::AccettaNuova);
    assert_eq!(modo_da_testo(Some("sostituisci")), ModoFiducia::Sostituisci);
    assert_eq!(modo_da_testo(Some("altro")), ModoFiducia::Normale);
    assert_eq!(modo_da_testo(None), ModoFiducia::Normale);
}

#[test]
fn chiave_nuova_rifiutata_poi_accettata() {
    let mut m: Vec<(String, String)> = Vec::new();
    let v = verifica_chiave(&mut m, "h:22", "ssh-ed25519 AAA", ModoFiducia::Normale);
    assert!(!v.accettata);
    assert_eq!(v.rifiuto, Some(StatoChiave::Nuova));
    assert!(m.is_empty());
    let v = verifica_chiave(&mut m, "h:22", "ssh-ed25519 AAA", ModoFiducia::AccettaNuova);
    assert!(v.accettata);
    assert_eq!(m, vec![("h:22".to_string(), "ssh-ed25519 AAA".to_string())]);
    let v = verifica_chiave(&mut m, "h:22", "ssh-ed25519 AAA", ModoFiducia::Normale);
    assert!(v.accettata);
    assert_eq!(v.rifiuto, None);
}

#[test]
fn chiave_cambiata() {
    let mut m = vec![("h:22".to_string(), "vecchia".to_string())];
    let v = verifica_chiave(&mut m, "h:22", "nuova", ModoFiducia::AccettaNuova);
    assert!(!v.accettata);
    assert_eq!(v.rifiuto, Some(StatoChiave::Cambiata));
    assert_eq!(m[0].1, "vecchia");
    let v = verifica_chiave(&mut m, "h:22", "nuova", ModoFiducia::Sostituisci);
    assert!(v.accettata);
    assert_eq!(m, vec![("h:22".to_string(), "nuova".to_string())]);
}

#[test]
fn testi_della_connessione() {
    assert_eq!(etichetta("example.org", 2222), "example.org:2222");
    assert_eq!(etichetta("h", 0), "h:0");
    assert_eq!(
        messaggio_errore(Some((StatoChiave::Nuova, "SHA256:abc")), "x"),
        "HOSTKEY:nuova:SHA256:abc"
    );
    assert_eq!(
        messaggio_errore(Some((StatoChiave::Cambiata, "F")), "x"),
        "HOSTKEY:cambiata:F"
    );
    assert_eq!(messaggio_errore(None, "timeout"), "connessione fallita: timeout");
}

fn leggi(a: &AzioneSocks) -> (Vec<u8>, usize) {
    match a {
        AzioneSocks::Leggi { risposta, n } => (risposta.clone(), *n),
        _ => panic!("atteso Leggi"),
    }
}

#[test]
fn socks5_connect_ipv4() {
    let (s, a) = inizio_socks();
    assert_eq!(leggi(&a), (vec![], 2));
    let (s, a) = passo_socks(s, &[5, 1]);
    assert_eq!(leggi(&a), (vec![], 1));
    let (s, a) = passo_socks(s, &[0]);
    assert_eq!(leggi(&a), (vec![5, 0], 4));
    let (s, a) = passo_socks(s, &[5, 1, 0, 1]);
    assert_eq!(leggi(&a), (vec![], 4));
    let (s, a) = passo_socks(s, &[10, 0, 0, 254]);
    assert_eq!(leggi(&a), (vec![], 2));
    let (_, a) = passo_socks(s, &[0x1F, 0x90]);
    match a {
        AzioneSocks::Apri { host: Destinazione::Testo(h), porta } => {
            assert_eq!(h, "10.0.0.254");
            assert_eq!(porta, 8080);
        }
        _ => panic!("atteso Apri"),
    }
}

#[test]
fn socks5_nome_e_ipv6() {
    let (s, _) = passo_socks(StatoSocks::Richiesta, &[5, 1, 0, 3]);
    let (s, a) = passo_socks(s, &[4]);
    assert_eq!(leggi(&a), (vec![], 4));
    let (s, _) = passo_socks(s, b"host");
    let (_, a) = passo_socks(s, &[0, 22]);
    assert!(matches!(a, AzioneSocks::Apri { host: Destinazione::Testo(ref h), porta: 22 } if h == "host"));
    let (s, a) = passo_socks(StatoSocks::Richiesta, &[5, 1, 0, 4]);
    assert_eq!(leggi(&a), (vec![], 16));
    let b = [0u8, 1, 2, 3, 4, 5, 6, 7, 8, 9, 10, 11, 12, 13, 14, 15];
    let (s, _) = passo_socks(s, &b);
    let (_, a) = passo_socks(s, &[1, 0]);
    assert!(matches!(a, AzioneSocks::Apri { host: Destinazione::Ipv6(x), porta: 256 } if x == b));
}

#[test]
fn socks5_errori() {
    let (_, a) = passo_socks(StatoSocks::Saluto, &[4, 1]);
    assert!(matches!(a, AzioneSocks::Errore { ref messaggio, .. } if messaggio == "non è SOCKS5"));
    let (_, a) = passo_socks(StatoSocks::Richiesta, &[5, 2, 0, 1]);
    match a {
        AzioneSocks::Errore { risposta, messaggio } => {
            assert_eq!(risposta, vec![5, 7, 0, 1, 0, 0, 0, 0, 0, 0]);
            assert_eq!(messaggio, "comando SOCKS non supportato");
        }
        _ => panic!("atteso Errore"),
    }
    let (_, a) = passo_socks(StatoSocks::Richiesta, &[5, 1, 0, 9]);
    assert!(matches!(a, AzioneSocks::Errore { ref messaggio, .. } if messaggio == "tipo di indirizzo SOCKS sconosciuto"));
}

#[test]
fn risposta_di_successo_e_byte_attesi() {
    assert_eq!(risposta_successo_socks(), vec![5, 0, 0, 1, 0, 0, 0, 0, 0, 0]);
    let (s, _) = inizio_socks();
    assert_eq!(byte_da_leggere(&s), 2);
    let (s, _) = passo_socks(s, &[5, 1]);
    assert_eq!(byte_da_leggere(&s), 0);
}
