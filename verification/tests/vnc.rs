use oxiterm::vnc::{
    componente, converti, converti_cursore, gestibile, gestisci_evento, leggi_px, scegli_auth, AzioneVnc,
    EventoVnc, FormatoPixel, MetodoAuth, SceltaAuth,
};

fn formato_32(big_endian: bool) -> FormatoPixel {
    FormatoPixel {
        bits_per_pixel: 32,
        depth: 24,
        big_endian,
        true_colour: true,
        red_max: 255,
        green_max: 255,
        blue_max: 255,
        red_shift: 16,
        green_shift: 8,
        blue_shift: 0,
    }
}

#[test]
fn estrae_e_scala_il_canale() {
    // Pixel 0xRRGGBB with 8-bit channels (max 255).
    let px = 0x00_80_40_u32;
    assert_eq!(componente(px, 8, 255), 0x80);
    assert_eq!(componente(px, 0, 255), 0x40);
    assert_eq!(componente(px, 16, 255), 0x00);
}

#[test]
fn massimo_e_minimo() {
    assert_eq!(componente(0xFF, 0, 255), 255);
    assert_eq!(componente(0, 0, 255), 0);
}

#[test]
fn componente_scala_e_max_zero() {
    // 5-bit channel at full value scales to 255, half to 123.
    assert_eq!(componente(0b11111 << 11, 11, 31), 255);
    assert_eq!(componente(15, 0, 31), 123);
    assert_eq!(componente(0xFFFF_FFFF, 3, 0), 0);
}

#[test]
fn leggi_px_endianness() {
    let d = [0x01, 0x02, 0x03, 0x04];
    assert_eq!(leggi_px(&d, 4, true), 0x01020304);
    assert_eq!(leggi_px(&d, 4, false), 0x04030201);
    assert_eq!(leggi_px(&d, 2, true), 0x0102);
    assert_eq!(leggi_px(&d, 2, false), 0x0201);
    assert_eq!(leggi_px(&d, 1, false), 0x01);
}

#[test]
fn converti_due_pixel_e_dati_corti() {
    // Little endian 0x00RRGGBB: bytes B, G, R, 0.
    let dati = [0x30, 0x20, 0x10, 0x00, 0x03, 0x02, 0x01, 0x00, 0xAA];
    let out = converti(&dati, &formato_32(false), 3, 1);
    assert_eq!(out, vec![0x10, 0x20, 0x30, 255, 0x01, 0x02, 0x03, 255, 0, 0, 0, 0]);
}

#[test]
fn converti_cursore_maschera() {
    // 2x1 cursor, the first pixel opaque, the second transparent.
    let pixels = [0x30, 0x20, 0x10, 0x00, 0x03, 0x02, 0x01, 0x00];
    let mask = [0b1000_0000];
    let out = converti_cursore(&pixels, &mask, &formato_32(false), 2, 1);
    assert_eq!(out, vec![0x10, 0x20, 0x30, 255, 0x01, 0x02, 0x03, 0]);
}

#[test]
fn eventi_gestibili() {
    let f = formato_32(false);
    let ev = EventoVnc::Pixel { x: 0, y: 0, w: 2, h: 2, dati: vec![0; 16] };
    assert!(gestibile(&ev, &f));
    let mut g = f;
    g.red_shift = 40;
    assert!(!gestibile(&ev, &g));
    let mut z = f;
    z.bits_per_pixel = 4;
    let corto = EventoVnc::Pixel { x: 0, y: 0, w: 2, h: 2, dati: vec![0; 3] };
    assert!(!gestibile(&corto, &z));
    assert!(gestibile(&EventoVnc::FineFrame, &g));
}

#[test]
fn evento_pixel_e_ridimensiona() {
    let f = formato_32(false);
    let mut dim = (10u16, 10u16);
    let ev = EventoVnc::Pixel { x: 3, y: 4, w: 1, h: 1, dati: vec![0x40, 0x80, 0xFF, 0] };
    match gestisci_evento(&mut dim, ev, &f) {
        AzioneVnc::Invia(fr) => {
            assert_eq!((fr.x, fr.y, fr.w, fr.h), (3, 4, 1, 1));
            assert_eq!(fr.rgba.len(), 4);
            assert_eq!(fr.rgba[3], 255);
        }
        _ => panic!("atteso un frame"),
    }
    match gestisci_evento(&mut dim, EventoVnc::Ridimensiona { w: 800, h: 600 }, &f) {
        AzioneVnc::Ridimensiona(fr) => assert_eq!(fr.resize, Some((800, 600))),
        _ => panic!("atteso un ridimensionamento"),
    }
    assert_eq!(dim, (800, 600));
    assert!(matches!(gestisci_evento(&mut dim, EventoVnc::Disconnesso, &f), AzioneVnc::Termina));
}

#[test]
fn scelta_autenticazione() {
    let m = [MetodoAuth::Altro, MetodoAuth::Password, MetodoAuth::Nessuno];
    match scegli_auth(&m, Some("segretissima")) {
        Some(SceltaAuth::Password(b)) => assert_eq!(&b, b"segretis"),
        _ => panic!("attesa la password"),
    }
    assert!(matches!(scegli_auth(&m, None), Some(SceltaAuth::Nessuno)));
    assert!(scegli_auth(&[MetodoAuth::Password], None).is_none());
    match scegli_auth(&[MetodoAuth::Password], Some("ab")) {
        Some(SceltaAuth::Password(b)) => assert_eq!(b, [b'a', b'b', 0, 0, 0, 0, 0, 0]),
        _ => panic!("attesa la password"),
    }
}
