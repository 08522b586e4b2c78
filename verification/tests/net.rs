use oxiterm::net::{pacchetto_wol, parse_mac, ping, traceroute};

#[test]
fn mac_valido() {
    assert!(parse_mac("AA:BB:CC:DD:EE:FF").is_ok());
    assert!(parse_mac("aa-bb-cc-dd-ee-ff").is_ok());
    assert!(parse_mac("nope").is_err());
    assert!(parse_mac("AA:BB:CC").is_err());
}

#[test]
fn mac_byte_e_messaggi() {
    assert_eq!(parse_mac("01:23:45:67:89:ab").unwrap(), vec![0x01, 0x23, 0x45, 0x67, 0x89, 0xab]);
    // Separators can be mixed; a leading '+' is accepted by from_str_radix.
    assert_eq!(parse_mac("1-2:3-4:5-+6").unwrap(), vec![1, 2, 3, 4, 5, 6]);
    assert_eq!(
        parse_mac("AA:BB:CC").unwrap_err(),
        "MAC non valido (atteso formato AA:BB:CC:DD:EE:FF)"
    );
    assert_eq!(parse_mac("AA:BB:CC:DD:EE:GG").unwrap_err(), "MAC non valido");
    assert_eq!(parse_mac("AA:BB:CC:DD:EE:").unwrap_err(), "MAC non valido");
    assert_eq!(parse_mac("100:BB:CC:DD:EE:FF").unwrap_err(), "MAC non valido");
}

#[test]
fn pacchetto_magico_wol() {
    let p = pacchetto_wol("01:02:03:04:05:06").unwrap();
    assert_eq!(p.len(), 102);
    assert_eq!(&p[..6], &[0xFF; 6]);
    for r in 0..16 {
        assert_eq!(&p[6 + 6 * r..12 + 6 * r], &[1, 2, 3, 4, 5, 6]);
    }
    assert!(pacchetto_wol("x").is_err());
}

#[test]
fn comandi_ping_e_traceroute() {
    let c = ping("example.org", false);
    assert_eq!(c.programma, "ping");
    assert_eq!(c.argomenti, vec!["-c", "4", "example.org"]);
    let c = ping("example.org", true);
    assert_eq!(c.argomenti, vec!["-n", "4", "example.org"]);
    assert_eq!(traceroute("h", false).programma, "traceroute");
    assert_eq!(traceroute("h", true).programma, "tracert");
    assert_eq!(traceroute("h", true).argomenti, vec!["h"]);
}
