//! VNC (RFB) client, experimental: the pixel conversions to RGBA and the
//! decisions of the client loop. The socket and the thread live with the
//! caller.

use vstd::prelude::*;
use vstd::utf8::encode_utf8;

verus! {

/// Pixel format announced by the server (the fields of an RFB PIXEL_FORMAT).
#[derive(Clone, Copy)]
pub struct FormatoPixel {
    pub bits_per_pixel: u8,
    pub depth: u8,
    pub big_endian: bool,
    pub true_colour: bool,
    pub red_max: u16,
    pub green_max: u16,
    pub blue_max: u16,
    pub red_shift: u8,
    pub green_shift: u8,
    pub blue_shift: u8,
}

impl FormatoPixel {
    /// Every shift of the format is a valid shift of a 32-bit pixel.
    pub open spec fn spostamenti_validi(self) -> bool {
        self.red_shift < 32 && self.green_shift < 32 && self.blue_shift < 32
    }

    /// Bytes per pixel as the server says it (`bits_per_pixel / 8`).
    pub open spec fn byte_per_pixel(self) -> nat {
        (self.bits_per_pixel / 8) as nat
    }
}

/// One colour channel of a pixel scaled to 0..=255.
pub open spec fn canale(px: u32, shift: u8, max: u16) -> u8 {
    if max == 0 {
        0
    } else {
        ((((px >> shift) & (max as u32)) as int) * 255 / (max as int)) as u8
    }
}

/// A channel at its maximum gives 255 and a channel at zero gives 0.
pub proof fn legge_canale_estremi(px: u32, shift: u8, max: u16)
    requires
        max > 0,
    ensures
        (px >> shift) & (max as u32) == max as u32 ==> canale(px, shift, max) == 255,
        (px >> shift) & (max as u32) == 0 ==> canale(px, shift, max) == 0,
{
    assert((max as int) * 255 / (max as int) == 255) by (nonlinear_arith)
        requires
            max > 0,
    ;
}

/// Extracts a colour channel from a pixel and scales it to 0..=255.
pub fn componente(px: u32, shift: u8, max: u16) -> (r: u8)
    requires
        shift < 32,
    ensures
        r == canale(px, shift, max),
{
    if max == 0 {
        return 0;
    }
    let m = max as u32;
    let v = (px >> shift) & m;
    assert(v <= m) by (bit_vector)
        requires
            v == (px >> shift) & m,
    ;
    assert(v * 255 <= 65535 * 255) by (nonlinear_arith)
        requires
            v <= m,
            m <= 65535,
    ;
    assert((v * 255) as int / (m as int) <= 255) by (nonlinear_arith)
        requires
            v <= m,
            m > 0,
    ;
    ((v * 255) / m) as u8
}

/// The value of a pixel of `bpp` bytes at the start of `d`.
pub open spec fn valore_pixel(d: Seq<u8>, bpp: nat, big_endian: bool) -> u32 {
    if bpp == 4 {
        if big_endian {
            (d[0] * 16777216 + d[1] * 65536 + d[2] * 256 + d[3]) as u32
        } else {
            (d[3] * 16777216 + d[2] * 65536 + d[1] * 256 + d[0]) as u32
        }
    } else if bpp == 2 {
        if big_endian {
            (d[0] * 256 + d[1]) as u32
        } else {
            (d[1] * 256 + d[0]) as u32
        }
    } else {
        d[0] as u32
    }
}

/// Bytes that a pixel of `bpp` bytes reads.
pub open spec fn byte_letti(bpp: nat) -> nat {
    if bpp == 4 {
        4
    } else if bpp == 2 {
        2
    } else {
        1
    }
}

/// Reads a pixel from a buffer according to bpp and endianness.
pub fn leggi_px(dati: &[u8], bpp: usize, big_endian: bool) -> (r: u32)
    requires
        dati@.len() >= byte_letti(bpp as nat),
    ensures
        r == valore_pixel(dati@, bpp as nat, big_endian),
{
    if bpp == 4 {
        let (a0, a1, a2, a3) = (dati[0] as u32, dati[1] as u32, dati[2] as u32, dati[3] as u32);
        if big_endian {
            a0 * 16777216 + a1 * 65536 + a2 * 256 + a3
        } else {
            a3 * 16777216 + a2 * 65536 + a1 * 256 + a0
        }
    } else if bpp == 2 {
        let (a0, a1) = (dati[0] as u32, dati[1] as u32);
        if big_endian {
            a0 * 256 + a1
        } else {
            a1 * 256 + a0
        }
    } else {
        dati[0] as u32
    }
}

/// The RGBA bytes of pixel `i` of a framebuffer update: the three channels
/// and an opaque alpha when the pixel lies within the data, four zeros when
/// it does not.
pub open spec fn rgba_pixel(dati: Seq<u8>, f: FormatoPixel, i: int) -> Seq<u8> {
    let bpp = f.byte_per_pixel();
    let passo = if bpp == 0 {
        1
    } else {
        bpp
    };
    let off = i * passo;
    if off + bpp <= dati.len() {
        let px = valore_pixel(dati.subrange(off, dati.len() as int), bpp, f.big_endian);
        seq![
            canale(px, f.red_shift, f.red_max),
            canale(px, f.green_shift, f.green_max),
            canale(px, f.blue_shift, f.blue_max),
            255u8,
        ]
    } else {
        seq![0u8, 0u8, 0u8, 0u8]
    }
}

/// Converts a block of pixels from the server's format to RGBA.
#[verifier::spinoff_prover]
pub fn converti(dati: &[u8], f: &FormatoPixel, w: u16, h: u16) -> (r: Vec<u8>)
    requires
        f.spostamenti_validi(),
        (w as int) * (h as int) * 4 <= usize::MAX,
        f.byte_per_pixel() == 0 ==> (w as int) * (h as int) <= dati@.len(),
    ensures
        r@.len() == (w as int) * (h as int) * 4,
        forall|i: int|
            0 <= i < (w as int) * (h as int) ==> r@.subrange(4 * i, 4 * i + 4) == #[trigger] rgba_pixel(
                dati@,
                *f,
                i,
            ),
{
    let bpp = (f.bits_per_pixel / 8) as usize;
    let passo: usize = if bpp == 0 {
        1
    } else {
        bpp
    };
    let n = (w as usize) * (h as usize);
    let mut out: Vec<u8> = Vec::new();
    let mut k: usize = 0;
    while k < n * 4
        invariant
            n == (w as int) * (h as int),
            n * 4 <= usize::MAX,
            k <= n * 4,
            out@.len() == k,
            forall|j: int| 0 <= j < k ==> out@[j] == 0,
        decreases n * 4 - k,
    {
        out.push(0);
        k = k + 1;
    }
    let mut i: usize = 0;
    let mut off: usize = 0;
    while i < n
        invariant
            n == (w as int) * (h as int),
            n * 4 <= usize::MAX,
            bpp == f.byte_per_pixel(),
            passo == (if bpp == 0 {
                1
            } else {
                bpp
            }),
            f.spostamenti_validi(),
            bpp == 0 ==> n <= dati@.len(),
            i <= n,
            off == i * passo,
            off <= dati@.len() + 1,
            out@.len() == n * 4,
            forall|j: int|
                0 <= j < i ==> out@.subrange(4 * j, 4 * j + 4) == #[trigger] rgba_pixel(
                    dati@,
                    *f,
                    j,
                ),
            forall|j: int| 4 * i <= j < n * 4 ==> out@[j] == 0,
        decreases n - i,
    {
        if off > dati.len() || dati.len() - off < bpp {
            // This pixel and all the following ones lie beyond the data.
            proof {
                assert forall|j: int| i <= j < n implies out@.subrange(4 * j, 4 * j + 4)
                    == #[trigger] rgba_pixel(dati@, *f, j) by {
                    assert(j * passo >= i * passo) by (nonlinear_arith)
                        requires
                            j >= i,
                            passo >= 0,
                    ;
                    assert(out@.subrange(4 * j, 4 * j + 4) =~= seq![0u8, 0u8, 0u8, 0u8]);
                }
            }
            return out;
        }
        let px = if bpp == 4 || bpp == 2 {
            leggi_px(&dati[off..off + bpp], bpp, f.big_endian)
        } else {
            dati[off] as u32
        };
        proof {
            let d = dati@.subrange(off as int, dati@.len() as int);
            assert(dati@.subrange(off as int, off + bpp) =~= d.subrange(0, bpp as int));
        }
        let ghost prima = out@;
        let q = i * 4;
        out.set(q, componente(px, f.red_shift, f.red_max));
        out.set(q + 1, componente(px, f.green_shift, f.green_max));
        out.set(q + 2, componente(px, f.blue_shift, f.blue_max));
        out.set(q + 3, 255);
        proof {
            assert(valore_pixel(dati@.subrange(off as int, dati@.len() as int), bpp as nat, f.big_endian) == px);
            assert(out@.subrange(4 * i, 4 * i + 4) =~= rgba_pixel(dati@, *f, i as int));
            assert forall|j: int| 0 <= j < i implies out@.subrange(4 * j, 4 * j + 4)
                == #[trigger] rgba_pixel(dati@, *f, j) by {
                assert(out@.subrange(4 * j, 4 * j + 4) =~= prima.subrange(4 * j, 4 * j + 4));
            }
            assert((i + 1) * passo == i * passo + passo) by (nonlinear_arith);
        }
        i = i + 1;
        off = off + passo;
    }
    out
}

/// Whether the mask marks pixel `(x, y)` of a cursor `riga` bytes wide as
/// opaque (one bit per pixel, most significant bit first).
pub open spec fn opaco(mask: Seq<u8>, riga: int, x: int, y: int) -> bool {
    let mb = y * riga + x / 8;
    mb < mask.len() && ((mask[mb] >> ((7 - x % 8) as u8)) & 1u8) == 1u8
}

/// The RGBA bytes of pixel `(x, y)` of a cursor `w` pixels wide.
pub open spec fn rgba_cursore(
    pixels: Seq<u8>,
    mask: Seq<u8>,
    f: FormatoPixel,
    w: int,
    x: int,
    y: int,
) -> Seq<u8> {
    let b = f.byte_per_pixel();
    let bpp = if b == 0 {
        1
    } else {
        b
    };
    let off = (y * w + x) * bpp;
    let a: u8 = if opaco(mask, (w + 7) / 8, x, y) {
        255
    } else {
        0
    };
    if off + bpp <= pixels.len() {
        let px = valore_pixel(pixels.subrange(off, pixels.len() as int), bpp, f.big_endian);
        seq![
            canale(px, f.red_shift, f.red_max),
            canale(px, f.green_shift, f.green_max),
            canale(px, f.blue_shift, f.blue_max),
            a,
        ]
    } else {
        seq![0u8, 0u8, 0u8, a]
    }
}

/// The pixel of a framebuffer update is read as the format says: four bytes
/// or two bytes in the format's byte order, or one byte for any other width;
/// its RGBA bytes are its three scaled channels and an opaque alpha.
pub proof fn legge_pixel_letto(dati: Seq<u8>, f: FormatoPixel, i: int)
    requires
        0 <= i,
    ensures
        f.bits_per_pixel / 8 == 4 && 4 * i + 4 <= dati.len() ==> {
            let px: u32 = (if f.big_endian {
                dati[4 * i] * 16777216 + dati[4 * i + 1] * 65536 + dati[4 * i + 2] * 256 + dati[4 * i + 3]
            } else {
                dati[4 * i + 3] * 16777216 + dati[4 * i + 2] * 65536 + dati[4 * i + 1] * 256 + dati[4 * i]
            }) as u32;
            rgba_pixel(dati, f, i) == seq![
                canale(px, f.red_shift, f.red_max),
                canale(px, f.green_shift, f.green_max),
                canale(px, f.blue_shift, f.blue_max),
                255u8,
            ]
        },
        f.bits_per_pixel / 8 == 2 && 2 * i + 2 <= dati.len() ==> {
            let px: u32 = (if f.big_endian {
                dati[2 * i] * 256 + dati[2 * i + 1]
            } else {
                dati[2 * i + 1] * 256 + dati[2 * i]
            }) as u32;
            rgba_pixel(dati, f, i) == seq![
                canale(px, f.red_shift, f.red_max),
                canale(px, f.green_shift, f.green_max),
                canale(px, f.blue_shift, f.blue_max),
                255u8,
            ]
        },
        f.bits_per_pixel / 8 == 1 && i + 1 <= dati.len() ==> {
            let px: u32 = dati[i] as u32;
            rgba_pixel(dati, f, i) == seq![
                canale(px, f.red_shift, f.red_max),
                canale(px, f.green_shift, f.green_max),
                canale(px, f.blue_shift, f.blue_max),
                255u8,
            ]
        },
{
    let b = f.bits_per_pixel / 8;
    if b == 4 && 4 * i + 4 <= dati.len() {
        assert(f.byte_per_pixel() == 4);
        assert(i * f.byte_per_pixel() == 4 * i);
        let d = dati.subrange(4 * i, dati.len() as int);
        assert(d[0] == dati[4 * i] && d[1] == dati[4 * i + 1] && d[2] == dati[4 * i + 2] && d[3]
            == dati[4 * i + 3]);
    }
    if b == 2 && 2 * i + 2 <= dati.len() {
        assert(f.byte_per_pixel() == 2);
        assert(i * f.byte_per_pixel() == 2 * i);
        let d = dati.subrange(2 * i, dati.len() as int);
        assert(d[0] == dati[2 * i] && d[1] == dati[2 * i + 1]);
    }
    if b == 1 && i + 1 <= dati.len() {
        assert(f.byte_per_pixel() == 1);
        assert(i * f.byte_per_pixel() == i);
        let d = dati.subrange(i, dati.len() as int);
        assert(d[0] == dati[i]);
    }
}

/// The cursor mask has one row of `(w + 7) / 8` bytes per line, most
/// significant bit first: the alpha of pixel `(x, y)` is 255 exactly when bit
/// `7 - x % 8` of mask byte `y * ((w + 7) / 8) + x / 8` is set, and 0 otherwise
/// (also when the mask is too short). Its colour is that of pixel `y * w + x`
/// of the cursor's pixels read as a framebuffer in the same format.
pub proof fn legge_alfa_cursore(pixels: Seq<u8>, mask: Seq<u8>, f: FormatoPixel, w: int, x: int, y: int)
    requires
        0 <= x < w,
        0 <= y,
    ensures
        rgba_cursore(pixels, mask, f, w, x, y).len() == 4,
        rgba_cursore(pixels, mask, f, w, x, y)[3] == (if y * ((w + 7) / 8) + x / 8 < mask.len() && ((
        mask[y * ((w + 7) / 8) + x / 8] >> ((7 - x % 8) as u8)) & 1u8) == 1u8 {
            255u8
        } else {
            0u8
        }),
        f.byte_per_pixel() > 0 && 0 <= w ==> rgba_cursore(pixels, mask, f, w, x, y).subrange(0, 3)
            == rgba_pixel(pixels, f, y * w + x).subrange(0, 3),
{
    if f.byte_per_pixel() > 0 {
        assert(rgba_cursore(pixels, mask, f, w, x, y).subrange(0, 3) =~= rgba_pixel(pixels, f, y * w + x).subrange(0, 3));
    }
}

/// Converts the cursor (pixels + transparency mask) to RGBA.
#[verifier::spinoff_prover]
#[verifier::rlimit(30)]
pub fn converti_cursore(pixels: &[u8], mask: &[u8], f: &FormatoPixel, w: u16, h: u16) -> (r: Vec<
    u8,
>)
    requires
        f.spostamenti_validi(),
        (w as int) * (h as int) * 4 <= usize::MAX,
        (w as int) * (h as int) * (if f.byte_per_pixel() == 0 {
            1
        } else {
            f.byte_per_pixel()
        }) <= usize::MAX,
    ensures
        r@.len() == (w as int) * (h as int) * 4,
        forall|x: int, y: int|
            0 <= x < w && 0 <= y < h ==> r@.subrange(4 * (y * w + x), 4 * (y * w + x) + 4)
                == #[trigger] rgba_cursore(pixels@, mask@, *f, w as int, x, y),
{
    let b = (f.bits_per_pixel / 8) as usize;
    let bpp: usize = if b == 0 {
        1
    } else {
        b
    };
    let wn = w as usize;
    let hn = h as usize;
    let riga_mask = (wn + 7) / 8;
    let n = wn * hn;
    let mut out: Vec<u8> = Vec::new();
    let mut k: usize = 0;
    while k < n * 4
        invariant
            n == (w as int) * (h as int),
            n * 4 <= usize::MAX,
            k <= n * 4,
            out@.len() == k,
        decreases n * 4 - k,
    {
        out.push(0);
        k = k + 1;
    }
    let mut y: usize = 0;
    while y < hn
        invariant
            wn == w,
            hn == h,
            n == wn * hn,
            n * 4 <= usize::MAX,
            n * bpp <= usize::MAX,
            riga_mask == (wn + 7) / 8,
            bpp == (if f.byte_per_pixel() == 0 {
                1
            } else {
                f.byte_per_pixel()
            }),
            f.spostamenti_validi(),
            y <= hn,
            out@.len() == n * 4,
            forall|x: int, yy: int|
                0 <= x < wn && 0 <= yy < y ==> out@.subrange(4 * (yy * wn + x), 4 * (yy * wn + x) + 4)
                    == #[trigger] rgba_cursore(pixels@, mask@, *f, wn as int, x, yy),
        decreases hn - y,
    {
        let mut x: usize = 0;
        while x < wn
            invariant
                wn == w,
                hn == h,
                n == wn * hn,
                n * 4 <= usize::MAX,
                n * bpp <= usize::MAX,
                riga_mask == (wn + 7) / 8,
                bpp == (if f.byte_per_pixel() == 0 {
                    1
                } else {
                    f.byte_per_pixel()
                }),
                f.spostamenti_validi(),
                y < hn,
                x <= wn,
                out@.len() == n * 4,
                forall|xx: int, yy: int|
                    0 <= xx < wn && 0 <= yy < y ==> out@.subrange(
                        4 * (yy * wn + xx),
                        4 * (yy * wn + xx) + 4,
                    ) == #[trigger] rgba_cursore(pixels@, mask@, *f, wn as int, xx, yy),
                forall|xx: int|
                    0 <= xx < x ==> out@.subrange(4 * (y * wn + xx), 4 * (y * wn + xx) + 4)
                        == #[trigger] rgba_cursore(pixels@, mask@, *f, wn as int, xx, y as int),
            decreases wn - x,
        {
            proof {
                assert(y * wn + x < n) by (nonlinear_arith)
                    requires
                        y < hn,
                        x < wn,
                        n == wn * hn,
                ;
                assert((y * wn + x + 1) * bpp <= n * bpp) by (nonlinear_arith)
                    requires
                        y * wn + x < n,
                ;
                assert((y * wn + x) * bpp + bpp == (y * wn + x + 1) * bpp) by (nonlinear_arith);
                assert(y * riga_mask + x / 8 <= n * 4) by (nonlinear_arith)
                    requires
                        y < hn,
                        x < wn,
                        n == wn * hn,
                        riga_mask == (wn + 7) / 8,
                ;
            }
            let i = y * wn + x;
            let off = i * bpp;
            let ghost prima = out@;
            if off + bpp <= pixels.len() {
                let px = leggi_px(&pixels[off..off + bpp], bpp, f.big_endian);
                proof {
                    let d = pixels@.subrange(off as int, pixels@.len() as int);
                    assert(pixels@.subrange(off as int, off + bpp) =~= d.subrange(0, bpp as int));
                }
                out.set(i * 4, componente(px, f.red_shift, f.red_max));
                out.set(i * 4 + 1, componente(px, f.green_shift, f.green_max));
                out.set(i * 4 + 2, componente(px, f.blue_shift, f.blue_max));
            } else {
                out.set(i * 4, 0);
                out.set(i * 4 + 1, 0);
                out.set(i * 4 + 2, 0);
            }
            let mb = y * riga_mask + x / 8;
            let op = mb < mask.len() && ((mask[mb] >> ((7 - x % 8) as u8)) & 1) == 1;
            out.set(i * 4 + 3, if op {
                255
            } else {
                0
            });
            proof {
                assert(out@.subrange(4 * i, 4 * i + 4) =~= rgba_cursore(
                    pixels@,
                    mask@,
                    *f,
                    wn as int,
                    x as int,
                    y as int,
                ));
                assert forall|xx: int, yy: int|
                    0 <= xx < wn && 0 <= yy < y implies out@.subrange(
                    4 * (yy * wn + xx),
                    4 * (yy * wn + xx) + 4,
                ) == #[trigger] rgba_cursore(pixels@, mask@, *f, wn as int, xx, yy) by {
                    assert(yy * wn + xx < i) by (nonlinear_arith)
                        requires
                            0 <= xx < wn,
                            0 <= yy < y,
                            i == y * wn + x,
                    ;
                    assert(out@.subrange(4 * (yy * wn + xx), 4 * (yy * wn + xx) + 4)
                        =~= prima.subrange(4 * (yy * wn + xx), 4 * (yy * wn + xx) + 4));
                }
                assert forall|xx: int| 0 <= xx < x + 1 implies out@.subrange(
                    4 * (y * wn + xx),
                    4 * (y * wn + xx) + 4,
                ) == #[trigger] rgba_cursore(pixels@, mask@, *f, wn as int, xx, y as int) by {
                    if xx < x {
                        assert(out@.subrange(4 * (y * wn + xx), 4 * (y * wn + xx) + 4)
                            =~= prima.subrange(4 * (y * wn + xx), 4 * (y * wn + xx) + 4));
                    }
                }
            }
            x = x + 1;
        }
        y = y + 1;
    }
    out
}

// ---------------------------------------------------------------------------
// The client loop
// ---------------------------------------------------------------------------

/// Command sent to the VNC client by the user interface.
pub enum ComandoVnc {
    /// Mouse position and mask of the pressed buttons.
    Mouse { x: u16, y: u16, bottoni: u8 },
    /// Key (X11 keysym) pressed or released.
    Tasto { giu: bool, key: u32 },
    Chiudi,
}

/// An updated screen rectangle (RGBA), a resize, or a cursor.
pub struct FrameVnc {
    pub x: u16,
    pub y: u16,
    pub w: u16,
    pub h: u16,
    pub rgba: Vec<u8>,
    pub resize: Option<(u16, u16)>,
    /// When set, this frame is the mouse cursor (hotspot x, y).
    pub cursore: Option<(u16, u16)>,
}

/// Authentication methods that a server offers.
#[derive(Clone, Copy, PartialEq, Eq, Structural, Debug)]
pub enum MetodoAuth {
    Nessuno,
    Password,
    Altro,
}

/// The authentication chosen: none, or the VNC password (8 bytes).
#[derive(Debug)]
pub enum SceltaAuth {
    Nessuno,
    Password([u8; 8]),
}

/// The 8-byte VNC password: the first 8 bytes of the UTF-8 text, padded with
/// zeros.
pub open spec fn password_vnc(p: Seq<char>) -> Seq<u8> {
    let b = encode_utf8(p);
    Seq::new(8, |i: int| if i < b.len() { b[i] } else { 0u8 })
}

/// The choice of authentication: the first offered method that can be used,
/// no authentication, or the password when there is one.
pub open spec fn scelta(metodi: Seq<MetodoAuth>, password: Option<Seq<char>>) -> Option<Seq<u8>>
    decreases metodi.len(),
{
    if metodi.len() == 0 {
        None
    } else if metodi[0] == MetodoAuth::Nessuno {
        Some(Seq::empty())
    } else if metodi[0] == MetodoAuth::Password && password is Some {
        Some(password_vnc(password->0))
    } else {
        scelta(metodi.drop_first(), password)
    }
}

fn byte_password(b: &[u8], i: usize) -> (r: u8)
    ensures
        r == if i < b@.len() { b@[i as int] } else { 0u8 },
{
    if i < b.len() {
        b[i]
    } else {
        0
    }
}

/// Chooses how to authenticate among the methods the server offers. `None`
/// when no method can be used.
pub fn scegli_auth(metodi: &[MetodoAuth], password: Option<&str>) -> (r: Option<SceltaAuth>)
    ensures
        match r {
            None => scelta(metodi@, match password { Some(p) => Some(p@), None => None }) is None,
            Some(SceltaAuth::Nessuno) => scelta(metodi@, match password { Some(p) => Some(p@), None => None }) == Some(Seq::<u8>::empty()),
            Some(SceltaAuth::Password(b)) => scelta(metodi@, match password { Some(p) => Some(p@), None => None }) == Some(b@),
        },
{
    let ghost pw = match password {
        Some(p) => Some(p@),
        None => None,
    };
    let mut i: usize = 0;
    assert(metodi@.skip(0) =~= metodi@);
    while i < metodi.len()
        invariant
            i <= metodi.len(),
            pw == (match password { Some(p) => Some(p@), None => None::<Seq<char>> }),
            scelta(metodi@, pw) == scelta(metodi@.skip(i as int), pw),
        decreases metodi.len() - i,
    {
        assert(metodi@.skip(i as int).drop_first() =~= metodi@.skip(i + 1));
        let m = metodi[i];
        if m == MetodoAuth::Nessuno {
            return Some(SceltaAuth::Nessuno);
        }
        if m == MetodoAuth::Password {
            if let Some(p) = password {
                let b = p.as_bytes();
                let a: [u8; 8] = [
                    byte_password(b, 0),
                    byte_password(b, 1),
                    byte_password(b, 2),
                    byte_password(b, 3),
                    byte_password(b, 4),
                    byte_password(b, 5),
                    byte_password(b, 6),
                    byte_password(b, 7),
                ];
                assert(a@ =~= password_vnc(p@));
                return Some(SceltaAuth::Password(a));
            }
        }
        i = i + 1;
    }
    None
}

/// An event of the VNC connection, as the loop reads it.
pub enum EventoVnc {
    /// End of the frame (or no more events).
    FineFrame,
    /// A rectangle of pixels in the server's format.
    Pixel { x: u16, y: u16, w: u16, h: u16, dati: Vec<u8> },
    /// The desktop changed size.
    Ridimensiona { w: u16, h: u16 },
    /// A new mouse cursor.
    Cursore { w: u16, h: u16, hotspot: (u16, u16), pixels: Vec<u8>, mask: Vec<u8> },
    /// The server disconnected.
    Disconnesso,
    /// Anything else (ignored).
    Altro,
}

/// What the loop does after an event.
pub enum AzioneVnc {
    /// Go on reading the events of this frame.
    Continua,
    /// Send a frame to the user interface and go on.
    Invia(FrameVnc),
    /// Send a resize frame, then ask for a full update of the new size.
    Ridimensiona(FrameVnc),
    /// The frame is over: wait, then ask for the next update.
    FineFrame,
    /// Stop the loop.
    Termina,
}

/// The event can be handled without a panic: the format's shifts fit a
/// 32-bit pixel and the rectangles fit in memory.
pub open spec fn evento_gestibile(ev: &EventoVnc, f: FormatoPixel) -> bool {
    match ev {
        EventoVnc::Pixel { w, h, dati, .. } => {
            &&& f.spostamenti_validi()
            &&& (*w as int) * (*h as int) * 4 <= usize::MAX
            &&& f.byte_per_pixel() == 0 ==> (*w as int) * (*h as int) <= dati@.len()
        },
        EventoVnc::Cursore { w, h, .. } => {
            &&& f.spostamenti_validi()
            &&& (*w as int) * (*h as int) * 4 <= usize::MAX
            &&& (*w as int) * (*h as int) * (if f.byte_per_pixel() == 0 {
                1
            } else {
                f.byte_per_pixel()
            }) <= usize::MAX
        },
        _ => true,
    }
}

/// Whether an event can be handled (`evento_gestibile`), tested before the
/// call.
pub fn gestibile(ev: &EventoVnc, f: &FormatoPixel) -> (r: bool)
    ensures
        r == evento_gestibile(ev, *f),
{
    let spostamenti = f.red_shift < 32 && f.green_shift < 32 && f.blue_shift < 32;
    let bpp: u64 = (f.bits_per_pixel / 8) as u64;
    match ev {
        EventoVnc::Pixel { w, h, dati, .. } => {
            assert((*w as int) * (*h as int) <= 0xffff * 0xffff) by (nonlinear_arith)
                requires
                    *w <= 0xffff,
                    *h <= 0xffff,
            ;
            let n: u64 = (*w as u64) * (*h as u64);
            spostamenti && (n as u128) * 4 <= (usize::MAX as u128) && (bpp != 0 || n <= (
            dati.len() as u64))
        },
        EventoVnc::Cursore { w, h, .. } => {
            assert((*w as int) * (*h as int) <= 0xffff * 0xffff) by (nonlinear_arith)
                requires
                    *w <= 0xffff,
                    *h <= 0xffff,
            ;
            let n: u64 = (*w as u64) * (*h as u64);
            let b: u64 = if bpp == 0 {
                1
            } else {
                bpp
            };
            assert((n as int) * (b as int) <= 0xffff_ffff * 0xffff_ffff) by (nonlinear_arith)
                requires
                    n <= 0xffff_ffff,
                    b <= 0xffff_ffff,
            ;
            spostamenti && (n as u128) * 4 <= (usize::MAX as u128) && (n as u128) * (b as u128) <= (
            usize::MAX as u128)
        },
        _ => true,
    }
}

/// Handles one event of a frame. `dimensioni` is the current desktop size,
/// updated on a resize.
pub fn gestisci_evento(dimensioni: &mut (u16, u16), ev: EventoVnc, f: &FormatoPixel) -> (r: AzioneVnc)
    requires
        evento_gestibile(&ev, *f),
    ensures
        match ev {
            EventoVnc::FineFrame => r is FineFrame && *final(dimensioni) == *old(dimensioni),
            EventoVnc::Pixel { x, y, w, h, dati } => *final(dimensioni) == *old(dimensioni) && match r {
                AzioneVnc::Invia(fr) => fr.x == x && fr.y == y && fr.w == w && fr.h == h && fr.resize is None
                    && fr.cursore is None && fr.rgba@.len() == (w as int) * (h as int) * 4 && forall|i: int|
                    0 <= i < (w as int) * (h as int) ==> fr.rgba@.subrange(4 * i, 4 * i + 4)
                        == #[trigger] rgba_pixel(dati@, *f, i),
                _ => false,
            },
            EventoVnc::Ridimensiona { w, h } => *final(dimensioni) == (w, h) && match r {
                AzioneVnc::Ridimensiona(fr) => fr.x == 0 && fr.y == 0 && fr.w == w && fr.h == h
                    && fr.rgba@.len() == 0 && fr.resize == Some((w, h)) && fr.cursore is None,
                _ => false,
            },
            EventoVnc::Cursore { w, h, hotspot, pixels, mask } => *final(dimensioni) == *old(dimensioni)
                && if w > 0 && h > 0 {
                match r {
                    AzioneVnc::Invia(fr) => fr.x == 0 && fr.y == 0 && fr.w == w && fr.h == h
                        && fr.resize is None && fr.cursore == Some(hotspot) && fr.rgba@.len() == (w as int)
                        * (h as int) * 4 && forall|x: int, y: int|
                        0 <= x < w && 0 <= y < h ==> fr.rgba@.subrange(
                            4 * (y * w + x),
                            4 * (y * w + x) + 4,
                        ) == #[trigger] rgba_cursore(pixels@, mask@, *f, w as int, x, y),
                    _ => false,
                }
            } else {
                r is Continua
            },
            EventoVnc::Disconnesso => r is Termina && *final(dimensioni) == *old(dimensioni),
            EventoVnc::Altro => r is Continua && *final(dimensioni) == *old(dimensioni),
        },
{
    match ev {
        EventoVnc::FineFrame => AzioneVnc::FineFrame,
        EventoVnc::Pixel { x, y, w, h, dati } => {
            let rgba = converti(dati.as_slice(), f, w, h);
            AzioneVnc::Invia(FrameVnc { x, y, w, h, rgba, resize: None, cursore: None })
        },
        EventoVnc::Ridimensiona { w, h } => {
            *dimensioni = (w, h);
            AzioneVnc::Ridimensiona(
                FrameVnc { x: 0, y: 0, w, h, rgba: Vec::new(), resize: Some((w, h)), cursore: None },
            )
        },
        EventoVnc::Cursore { w, h, hotspot, pixels, mask } => {
            if w > 0 && h > 0 {
                let rgba = converti_cursore(pixels.as_slice(), mask.as_slice(), f, w, h);
                AzioneVnc::Invia(
                    FrameVnc { x: 0, y: 0, w, h, rgba, resize: None, cursore: Some(hotspot) },
                )
            } else {
                AzioneVnc::Continua
            }
        },
        EventoVnc::Disconnesso => AzioneVnc::Termina,
        EventoVnc::Altro => AzioneVnc::Continua,
    }
}

} // verus!
