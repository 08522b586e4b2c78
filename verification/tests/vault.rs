use oxiterm::vault::{
    cifra, crea_vault, decifra, decifra_byte, leggi_password, salva_password, sblocca_vault, Cifrato,
};

#[test]
fn vault_nuovo_si_sblocca() {
    let (v, k) = crea_vault("segreta").unwrap();
    assert!(v.voci.is_empty());
    assert_eq!(sblocca_vault(&v, "segreta").unwrap(), k);
}

#[test]
fn master_password_errata() {
    let (v, _) = crea_vault("segreta").unwrap();
    assert_eq!(sblocca_vault(&v, "sbagliata").unwrap_err(), "master password errata");
}

#[test]
fn salva_e_leggi_password() {
    let (mut v, k) = crea_vault("m").unwrap();
    assert_eq!(leggi_password(&v, &k, "s1").unwrap(), None);
    salva_password(&mut v, &k, "s1", "pw-uno").unwrap();
    salva_password(&mut v, &k, "s2", "pw-due").unwrap();
    salva_password(&mut v, &k, "s1", "pw-nuova").unwrap();
    assert_eq!(v.voci.len(), 2);
    assert_eq!(leggi_password(&v, &k, "s1").unwrap(), Some("pw-nuova".to_string()));
    assert_eq!(leggi_password(&v, &k, "s2").unwrap(), Some("pw-due".to_string()));
    // Another key cannot read it.
    let (_, altra) = crea_vault("m").unwrap();
    assert_eq!(leggi_password(&v, &altra, "s1").unwrap_err(), "master password errata");
}

#[test]
fn cifra_e_decifra() {
    let k = [7u8; 32];
    let c = cifra(&k, "ciao è").unwrap();
    assert_ne!(c.dati, "ciao è");
    assert_eq!(decifra(&k, &c).unwrap(), "ciao è");
    // The nonce is random: two encryptions differ.
    let c2 = cifra(&k, "ciao è").unwrap();
    assert_ne!(c.nonce, c2.nonce);
}

#[test]
fn decifra_errori() {
    let k = [1u8; 32];
    let non_b64 = Cifrato { nonce: "!!".to_string(), dati: "AAAA".to_string() };
    assert!(decifra(&k, &non_b64).is_err());
    let nonce_corto = Cifrato { nonce: "AAAA".to_string(), dati: "AAAA".to_string() };
    assert_eq!(decifra(&k, &nonce_corto).unwrap_err(), "nonce non valido");
    let c = cifra(&k, "x").unwrap();
    let manomesso = Cifrato { nonce: c.nonce.clone(), dati: "AAAAAAAAAAAAAAAAAAAAAAAA".to_string() };
    assert_eq!(decifra(&k, &manomesso).unwrap_err(), "master password errata");
}

#[test]
fn decifra_byte_errori_e_successo() {
    let k = [3u8; 32];
    assert_eq!(decifra_byte(&k, &[0u8; 8], &[0u8; 20]).unwrap_err(), "nonce non valido");
    assert_eq!(decifra_byte(&k, &[0u8; 12], &[0u8; 20]).unwrap_err(), "master password errata");
    assert_eq!(decifra_byte(&k, &[0u8; 12], &[]).unwrap_err(), "master password errata");
}

#[test]
fn letta_dopo_molti_altri_salvataggi() {
    let (mut v, k) = crea_vault("m").unwrap();
    salva_password(&mut v, &k, "io", "mia").unwrap();
    for i in 0..5 {
        salva_password(&mut v, &k, &format!("altro{i}"), "x").unwrap();
    }
    salva_password(&mut v, &k, "altro2", "y").unwrap();
    assert_eq!(v.voci.len(), 6);
    assert_eq!(leggi_password(&v, &k, "io").unwrap(), Some("mia".to_string()));
}
