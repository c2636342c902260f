//! Pairing a phone: the URL the companion app accepts, and that URL drawn
//! as a QR code into an RGB pixel buffer with a white quiet zone.
use vstd::prelude::*;
use vstd::string::StringSliceAdditionalSpecFns;
use crate::numbers::{dec, fmt_u64};
use crate::strings::{push_chars, push_str_chars, string_from};

verus! {

pub open spec fn pairing_url_spec(host: Seq<char>, port: u16, token: Seq<char>) -> Seq<char> {
    "melodie://"@ + host + seq![':'] + dec(port as nat) + seq!['/'] + token
}

/// The payload of the pairing QR: `melodie://HOST:PORT/TOKEN`, with the
/// host written as an address is (dotted IPv4, or IPv6 text).
pub fn pairing_url(host: &str, port: u16, token: &str) -> (url: String)
    ensures
        url@ == pairing_url_spec(host@, port, token@),
{
    let mut v: Vec<char> = Vec::new();
    push_str_chars(&mut v, "melodie://");
    push_str_chars(&mut v, host);
    v.push(':');
    let p = fmt_u64(port as u64);
    push_chars(&mut v, p.as_slice());
    v.push('/');
    push_str_chars(&mut v, token);
    assert(v@ =~= pairing_url_spec(host@, port, token@));
    string_from(v.as_slice())
}

/// Name for the QR code `qrcode::QrCode::new` builds for some bytes: its
/// width in modules and, row by row, which modules are dark; `None` when
/// the crate refuses the data.
pub uninterp spec fn qr_code_of(data: Seq<u8>) -> Option<(usize, Seq<bool>)>;

/// Calls `qrcode::QrCode::new`, then `width` and `to_colors` on the code.
/// The crate lays the colors out as one per module of a width-by-width
/// square, which the contract states; which modules are dark is left to
/// the name.
#[verifier::external_body]
fn qr_code(data: &[u8]) -> (r: Option<(usize, Vec<bool>)>)
    ensures
        match r {
            Some((w, dark)) => qr_code_of(data@) == Some((w, dark@)) && dark@.len() == w * w,
            None => qr_code_of(data@) is None,
        },
{
    match qrcode::QrCode::new(data) {
        Ok(code) => {
            let mut dark: Vec<bool> = Vec::new();
            for c in code.to_colors() {
                dark.push(match c {
                    qrcode::Color::Dark => true,
                    qrcode::Color::Light => false,
                });
            }
            Some((code.width(), dark))
        },
        Err(_) => None,
    }
}

/// Every intermediate size of the picture fits in a `usize`.
pub open spec fn qr_fits(width: nat, scale: nat, quiet: nat) -> bool {
    let side = (width + quiet * 2) * scale;
    &&& quiet * 2 <= usize::MAX
    &&& width + quiet * 2 <= usize::MAX
    &&& side <= usize::MAX
    &&& side * side <= usize::MAX
    &&& side * side * 3 <= usize::MAX
}

/// Side of the picture in pixels: the code plus a quiet zone on each side,
/// `scale` pixels per module.
pub open spec fn qr_side(width: nat, scale: nat, quiet: nat) -> nat {
    (width + quiet * 2) * scale
}

/// The pixel at row `py`, column `px` falls on a dark module.
pub open spec fn pixel_dark(width: nat, dark: Seq<bool>, scale: nat, quiet: nat, py: nat, px: nat) -> bool {
    &&& scale > 0
    &&& quiet <= py / scale < quiet + width
    &&& quiet <= px / scale < quiet + width
    &&& dark[((py / scale - quiet) * width + (px / scale - quiet)) as int]
}

/// Byte `k` of the RGB picture: all three channels of a pixel are 0 on a
/// dark module and 255 elsewhere, pixels row by row.
pub open spec fn qr_byte(width: nat, dark: Seq<bool>, scale: nat, quiet: nat, k: nat) -> u8 {
    let side = qr_side(width, scale, quiet);
    let p = k / 3;
    if side > 0 && pixel_dark(width, dark, scale, quiet, p / side, p % side) {
        0
    } else {
        255
    }
}

proof fn lemma_index_in_square(a: nat, b: nat, w: nat)
    requires
        a < w,
        b < w,
    ensures
        a * w + b < w * w,
{
    assert(a * w + b < w * w) by (nonlinear_arith)
        requires
            a < w,
            b < w,
    ;
}

/// Draws a code of `width` modules (`dark`, row by row) as an RGB picture
/// with `quiet` light modules of border, `scale` pixels per module.
pub fn render_qr(width: usize, dark: &[bool], scale: usize, quiet: usize) -> (r: (Vec<u8>, usize))
    requires
        dark@.len() == width * width,
        qr_fits(width as nat, scale as nat, quiet as nat),
    ensures
        r.1 == qr_side(width as nat, scale as nat, quiet as nat),
        r.0@.len() == r.1 * r.1 * 3,
        forall|k: int|
            0 <= k < r.0@.len() ==> r.0@[k] == qr_byte(
                width as nat,
                dark@,
                scale as nat,
                quiet as nat,
                k as nat,
            ),
{
    let side = (width + quiet * 2) * scale;
    let total = side * side;
    let n = dark.len();
    let mut buf: Vec<u8> = Vec::new();
    let mut p: usize = 0;
    while p < total
        invariant
            side == qr_side(width as nat, scale as nat, quiet as nat),
            total == side * side,
            total * 3 <= usize::MAX,
            dark@.len() == width * width,
            n == dark@.len(),
            p <= total,
            buf@.len() == p * 3,
            forall|k: int|
                0 <= k < buf@.len() ==> buf@[k] == qr_byte(
                    width as nat,
                    dark@,
                    scale as nat,
                    quiet as nat,
                    k as nat,
                ),
        decreases total - p,
    {
        assert(side > 0) by (nonlinear_arith)
            requires
                p < total,
                total == side * side,
        ;
        assert(scale > 0) by (nonlinear_arith)
            requires
                side > 0,
                side == (width + quiet * 2) * scale,
        ;
        let py = p / side;
        let px = p % side;
        let my = py / scale;
        let mx = px / scale;
        let on = if quiet <= my && my - quiet < width && quiet <= mx && mx - quiet < width {
            proof {
                lemma_index_in_square((my - quiet) as nat, (mx - quiet) as nat, width as nat);
            }
            assert((my - quiet) * width <= (my - quiet) * width + (mx - quiet) < n);
            dark[(my - quiet) * width + (mx - quiet)]
        } else {
            false
        };
        let v: u8 = if on {
            0
        } else {
            255
        };
        assert(v == qr_byte(width as nat, dark@, scale as nat, quiet as nat, (p * 3) as nat));
        assert(v == qr_byte(width as nat, dark@, scale as nat, quiet as nat, (p * 3 + 1) as nat));
        assert(v == qr_byte(width as nat, dark@, scale as nat, quiet as nat, (p * 3 + 2) as nat));
        buf.push(v);
        buf.push(v);
        buf.push(v);
        p += 1;
    }
    (buf, side)
}

fn qr_fits_exec(width: usize, scale: usize, quiet: usize) -> (b: bool)
    ensures
        b == qr_fits(width as nat, scale as nat, quiet as nat),
{
    match quiet.checked_mul(2) {
        None => false,
        Some(q2) => match width.checked_add(q2) {
            None => false,
            Some(w) => match w.checked_mul(scale) {
                None => false,
                Some(side) => match side.checked_mul(side) {
                    None => false,
                    Some(sq) => sq.checked_mul(3).is_some(),
                },
            },
        },
    }
}

/// Renders `data` as a QR code into a raw RGB8 buffer, with the side of the
/// square in pixels. `None` when the QR crate refuses the data, and when
/// the picture's size would not fit in a `usize`.
pub fn qr_rgb(data: &str, scale: usize, quiet: usize) -> (r: Option<(Vec<u8>, i32)>)
    ensures
        match qr_code_of(data.spec_bytes()) {
            None => r is None,
            Some((w, dark)) => if dark.len() == w * w && qr_fits(w as nat, scale as nat, quiet as nat) {
                r matches Some((buf, side)) && side == qr_side(w as nat, scale as nat, quiet as nat) as i32
                    && buf@.len() == qr_side(w as nat, scale as nat, quiet as nat) * qr_side(
                    w as nat,
                    scale as nat,
                    quiet as nat,
                ) * 3 && forall|k: int|
                    0 <= k < buf@.len() ==> buf@[k] == qr_byte(
                        w as nat,
                        dark,
                        scale as nat,
                        quiet as nat,
                        k as nat,
                    )
            } else {
                r is None
            },
        },
{
    match qr_code(data.as_bytes()) {
        None => None,
        Some((w, dark)) => {
            if qr_fits_exec(w, scale, quiet) {
                let (buf, side) = render_qr(w, dark.as_slice(), scale, quiet);
                Some((buf, side as i32))
            } else {
                None
            }
        },
    }
}

/// The quiet zone is white: every pixel in the top `quiet` rows of
/// modules, or the left `quiet` columns, is 255 on all channels.
pub proof fn lemma_quiet_zone_is_white(width: nat, dark: Seq<bool>, scale: nat, quiet: nat, k: nat)
    requires
        scale > 0,
        qr_side(width, scale, quiet) > 0,
        (k / 3) / qr_side(width, scale, quiet) < quiet * scale || (k / 3) % qr_side(
            width,
            scale,
            quiet,
        ) < quiet * scale,
    ensures
        qr_byte(width, dark, scale, quiet, k) == 255,
{
    let side = qr_side(width, scale, quiet);
    let p = k / 3;
    let py = p / side;
    let px = p % side;
    if py < quiet * scale {
        assert(py / scale < quiet) by (nonlinear_arith)
            requires
                py < quiet * scale,
                scale > 0,
        ;
    } else {
        assert(px / scale < quiet) by (nonlinear_arith)
            requires
                px < quiet * scale,
                scale > 0,
        ;
    }
}

} // verus!
