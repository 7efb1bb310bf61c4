//! Tray icon pixels and tray texts.
//!
//! The icon is a microphone body mask and a capsule mask painted over a transparent square:
//! the body in the panel's contrast colour, the capsule red while recording (or on error),
//! blue while transcribing or inserting, and like the body otherwise.
use vstd::prelude::*;
use crate::text::{chars_of, contains, contains_chars, str_eq};

verus! {

/// RGB colour.
pub type Rgb = (u8, u8, u8);

pub open spec fn red() -> (u8, u8, u8) {
    (220, 40, 40)
}

pub open spec fn blue() -> (u8, u8, u8) {
    (55, 140, 255)
}

/// Microphone colour on a dark panel (`#eef1f8`) and on a light one (`#1a2238`).
pub open spec fn mic_rgb(dark_ui: bool) -> (u8, u8, u8) {
    if dark_ui { (238, 241, 248) } else { (26, 34, 56) }
}

pub fn mic_color(dark_ui: bool) -> (c: (u8, u8, u8))
    ensures
        c == mic_rgb(dark_ui),
{
    if dark_ui {
        (238, 241, 248)
    } else {
        (26, 34, 56)
    }
}

/// Capsule colour for a tray state.
pub open spec fn capsule_rgb(state: Seq<char>, dark_ui: bool) -> (u8, u8, u8) {
    if state == "recording"@ || state == "error"@ {
        red()
    } else if state == "transcribing"@ || state == "inserting"@ {
        blue()
    } else {
        mic_rgb(dark_ui)
    }
}

pub fn capsule_color(state: &str, dark_ui: bool) -> (c: (u8, u8, u8))
    ensures
        c == capsule_rgb(state@, dark_ui),
{
    if str_eq(state, "recording") || str_eq(state, "error") {
        (220, 40, 40)
    } else if str_eq(state, "transcribing") || str_eq(state, "inserting") {
        (55, 140, 255)
    } else {
        mic_color(dark_ui)
    }
}

/// `px.rotate_right(1)` on every whole 4-byte pixel: RGBA becomes ARGB. Bytes after the last
/// whole pixel stay.
pub open spec fn argb_of(rgba: Seq<u8>) -> Seq<u8> {
    Seq::new(rgba.len(), |i: int|
        if i < (rgba.len() / 4) * 4 {
            if i % 4 == 0 { rgba[i + 3] } else { rgba[i - 1] }
        } else {
            rgba[i]
        })
}

/// Converts RGBA pixels in place to the ARGB32 order StatusNotifierItem expects.
pub fn rgba_to_argb(rgba: &mut Vec<u8>)
    ensures
        final(rgba)@ == argb_of(old(rgba)@),
{
    let ghost orig = rgba@;
    let n = rgba.len() / 4;
    assert(4 * n <= orig.len()) by (nonlinear_arith) requires n == orig.len() / 4;
    let mut k: usize = 0;
    while k < n
        invariant
            orig.len() <= usize::MAX,
            n == orig.len() / 4,
            4 * n <= orig.len(),
            rgba@.len() == orig.len(),
            k <= n,
            forall|i: int| 0 <= i < 4 * k ==> rgba@[i] == argb_of(orig)[i],
            forall|i: int| 4 * k <= i < orig.len() ==> rgba@[i] == orig[i],
        decreases n - k,
    {
        let b = 4 * k;
        let a0 = rgba[b];
        let a1 = rgba[b + 1];
        let a2 = rgba[b + 2];
        let a3 = rgba[b + 3];
        rgba.set(b, a3);
        rgba.set(b + 1, a0);
        rgba.set(b + 2, a1);
        rgba.set(b + 3, a2);
        proof {
            assert forall|i: int| 0 <= i < 4 * (k + 1) implies rgba@[i] == argb_of(orig)[i] by {
                if i >= 4 * k {
                    assert(i < (orig.len() / 4) * 4);
                    assert(i - b == 0 || i - b == 1 || i - b == 2 || i - b == 3);
                    assert((b as int) % 4 == 0) by (nonlinear_arith) requires b == 4 * k;
                    assert(i % 4 == i - b) by (nonlinear_arith) requires b == 4 * k, b <= i < b + 4;
                }
            }
        }
        k += 1;
    }
    proof {
        assert forall|i: int| 0 <= i < orig.len() implies rgba@[i] == argb_of(orig)[i] by {
            if i >= 4 * n {
                assert((orig.len() / 4) * 4 == 4 * n);
            }
        }
        assert(rgba@ =~= argb_of(orig));
    }
}

/// Paints `color` (opaque) over every pixel whose mask pixel has non-zero alpha; pixels are
/// paired while both buffers have whole 4-byte pixels.
pub open spec fn painted(pixels: Seq<u8>, mask: Seq<u8>, color: (u8, u8, u8)) -> Seq<u8> {
    let n = if pixels.len() / 4 <= mask.len() / 4 { pixels.len() / 4 } else { mask.len() / 4 };
    Seq::new(pixels.len(), |i: int|
        if i < 4 * n && mask[4 * (i / 4) + 3] != 0 {
            if i % 4 == 0 {
                color.0
            } else if i % 4 == 1 {
                color.1
            } else if i % 4 == 2 {
                color.2
            } else {
                255u8
            }
        } else {
            pixels[i]
        })
}

pub fn paint_mask(pixels: &mut Vec<u8>, mask: &[u8], color: (u8, u8, u8))
    ensures
        final(pixels)@ == painted(old(pixels)@, mask@, color),
{
    let ghost orig = pixels@;
    let n: usize = if pixels.len() / 4 <= mask.len() / 4 { pixels.len() / 4 } else { mask.len() / 4 };
    assert(4 * n <= orig.len() && 4 * n <= mask@.len()) by (nonlinear_arith)
        requires n == (if orig.len() / 4 <= mask@.len() / 4 { orig.len() / 4 } else { mask@.len() / 4 });
    let mut k: usize = 0;
    while k < n
        invariant
            orig.len() <= usize::MAX,
            n == (if orig.len() / 4 <= mask@.len() / 4 { orig.len() / 4 } else { mask@.len() / 4 }),
            4 * n <= orig.len(),
            4 * n <= mask@.len(),
            pixels@.len() == orig.len(),
            k <= n,
            forall|i: int| 0 <= i < 4 * k ==> pixels@[i] == painted(orig, mask@, color)[i],
            forall|i: int| 4 * k <= i < orig.len() ==> pixels@[i] == orig[i],
        decreases n - k,
    {
        let b = 4 * k;
        if mask[b + 3] != 0 {
            pixels.set(b, color.0);
            pixels.set(b + 1, color.1);
            pixels.set(b + 2, color.2);
            pixels.set(b + 3, 255);
        }
        proof {
            assert forall|i: int| 0 <= i < 4 * (k + 1) implies pixels@[i] == painted(orig, mask@, color)[i] by {
                if i >= 4 * k {
                    assert(i / 4 == k && i % 4 == i - b) by (nonlinear_arith) requires b == 4 * k, b <= i < b + 4;
                }
            }
        }
        k += 1;
    }
    proof {
        assert forall|i: int| 0 <= i < orig.len() implies pixels@[i] == painted(orig, mask@, color)[i] by {
            if i >= 4 * n {
                assert(!(i < 4 * n));
            }
        }
        assert(pixels@ =~= painted(orig, mask@, color));
    }
}

/// A decoded icon mask: its width and its RGBA pixels.
#[derive(Debug, Clone)]
pub struct IconMask {
    pub width: i32,
    pub rgba: Vec<u8>,
}

/// The icon for a tray state: the body mask in the microphone colour, then the capsule
/// mask in the state's capsule colour, over `size`×`size` transparent pixels.
pub open spec fn icon_pixels(state: Seq<char>, dark_ui: bool, size: int, body: Seq<u8>, capsule: Seq<u8>) -> Seq<u8> {
    painted(
        painted(Seq::new((size * size * 4) as nat, |i: int| 0u8), body, mic_rgb(dark_ui)),
        capsule,
        capsule_rgb(state, dark_ui),
    )
}

/// RGBA pixels of the tray icon for `state`. Both masks must be `size` pixels wide.
pub fn compose_icon_rgba(state: &str, dark_ui: bool, size: i32, body: &IconMask, capsule: &IconMask) -> (px: Vec<u8>)
    requires
        body.width == size,
        capsule.width == size,
        0 <= size,
        size * size * 4 <= i32::MAX,
    ensures
        px@ == icon_pixels(state@, dark_ui, size as int, body.rgba@, capsule.rgba@),
{
    let total: usize = (size * size * 4) as usize;
    let mut pixels: Vec<u8> = Vec::new();
    let mut i: usize = 0;
    while i < total
        invariant
            i <= total,
            pixels@ == Seq::new(i as nat, |j: int| 0u8),
        decreases total - i,
    {
        pixels.push(0);
        assert(pixels@ =~= Seq::new((i + 1) as nat, |j: int| 0u8));
        i += 1;
    }
    let body_color = mic_color(dark_ui);
    paint_mask(&mut pixels, body.rgba.as_slice(), body_color);
    paint_mask(&mut pixels, capsule.rgba.as_slice(), capsule_color(state, dark_ui));
    pixels
}

/// The ARGB32 pixels of the tray icon for `state` (what the tray host is sent).
pub fn icon_argb(state: &str, dark_ui: bool, size: i32, body: &IconMask, capsule: &IconMask) -> (px: Vec<u8>)
    requires
        body.width == size,
        capsule.width == size,
        0 <= size,
        size * size * 4 <= i32::MAX,
    ensures
        px@ == argb_of(icon_pixels(state@, dark_ui, size as int, body.rgba@, capsule.rgba@)),
{
    let mut pixels = compose_icon_rgba(state, dark_ui, size, body, capsule);
    rgba_to_argb(&mut pixels);
    pixels
}

/// A tray spawn error that only means the panel's StatusNotifierWatcher is not up yet.
pub open spec fn startup_race(err: Seq<char>) -> bool {
    contains(err, "StatusNotifierWatcher"@) || contains(err, "not activatable"@) || contains(err, "ServiceUnknown"@)
}

pub fn tray_startup_race(err: &str) -> (b: bool)
    ensures
        b == startup_race(err@),
{
    let e = chars_of(err);
    let a = chars_of("StatusNotifierWatcher");
    let b = chars_of("not activatable");
    let c = chars_of("ServiceUnknown");
    contains_chars(&e, &a) || contains_chars(&e, &b) || contains_chars(&e, &c)
}

/// The tray item is shown as active while recording, transcribing or inserting.
pub fn tray_status_active(state: &str) -> (b: bool)
    ensures
        b == (state@ == "recording"@ || state@ == "transcribing"@ || state@ == "inserting"@),
{
    str_eq(state, "recording") || str_eq(state, "transcribing") || str_eq(state, "inserting")
}

/// Tooltip description for a tray state.
pub open spec fn tooltip_text(state: Seq<char>) -> Seq<char> {
    if state == "recording"@ {
        "Recording — click to stop"@
    } else if state == "transcribing"@ || state == "inserting"@ {
        "Transcribing..."@
    } else if state == "error"@ {
        "Error — click to dismiss"@
    } else {
        "Cosmic Scribe — click to record"@
    }
}

pub fn tray_tooltip(state: &str) -> (s: &'static str)
    ensures
        s@ == tooltip_text(state@),
{
    if str_eq(state, "recording") {
        "Recording — click to stop"
    } else if str_eq(state, "transcribing") || str_eq(state, "inserting") {
        "Transcribing..."
    } else if str_eq(state, "error") {
        "Error — click to dismiss"
    } else {
        "Cosmic Scribe — click to record"
    }
}

/// The cancel entry at the top of the tray menu, as (label, icon name): only while
/// recording or transcribing.
pub fn tray_cancel_item(state: &str) -> (r: Option<(&'static str, &'static str)>)
    ensures
        state@ == "recording"@ ==> (r matches Some(p) && p.0@ == "Cancel recording"@ && p.1@ == "edit-delete"@),
        state@ == "transcribing"@ ==> (r matches Some(p) && p.0@ == "Cancel transcription"@ && p.1@ == "process-stop"@),
        state@ != "recording"@ && state@ != "transcribing"@ ==> r is None,
{
    proof {
        reveal_strlit("recording");
        reveal_strlit("transcribing");
        assert("recording"@.len() != "transcribing"@.len());
    }
    if str_eq(state, "recording") {
        Some(("Cancel recording", "edit-delete"))
    } else if str_eq(state, "transcribing") {
        Some(("Cancel transcription", "process-stop"))
    } else {
        None
    }
}

} // verus!

verus! {

/// What the `png` crate decodes from `bytes` with the `EXPAND | STRIP_16` transformations:
/// the first frame's width, height, output colour type (`png::ColorType as u8`) and bytes.
/// `None` when the header or the frame cannot be read.
pub uninterp spec fn png_frame(bytes: Seq<u8>) -> Option<(u32, u32, u8, Seq<u8>)>;

/// Decodes the first frame of a PNG with the `png` crate (`Decoder::read_info`, then
/// `Reader::next_frame` into a buffer of `output_buffer_size`, cut to the frame's
/// `buffer_size`). Claims only that the result is [`png_frame`] of the bytes.
#[verifier::external_body]
fn decode_png_frame(bytes: &[u8]) -> (r: Option<(u32, u32, u8, Vec<u8>)>)
    ensures
        r matches Some(f) ==> png_frame(bytes@) == Some((f.0, f.1, f.2, f.3@)),
        r is None ==> png_frame(bytes@) is None,
{
    let mut decoder = png::Decoder::new(std::io::Cursor::new(bytes));
    decoder.set_transformations(png::Transformations::EXPAND | png::Transformations::STRIP_16);
    let mut reader = match decoder.read_info() {
        Ok(r) => r,
        Err(_) => return None,
    };
    let mut buf = vec![0u8; reader.output_buffer_size()];
    let info = match reader.next_frame(&mut buf) {
        Ok(i) => i,
        Err(_) => return None,
    };
    buf.truncate(info.buffer_size());
    Some((info.width, info.height, info.color_type as u8, buf))
}

/// RGB bytes with an opaque alpha byte after each whole pixel.
pub open spec fn rgb_to_rgba(data: Seq<u8>) -> Seq<u8> {
    Seq::new(((data.len() / 3) * 4) as nat, |i: int| if i % 4 == 3 { 255u8 } else { data[(i / 4) * 3 + i % 4] })
}

/// RGBA pixels of a decoded frame: as they are for colour type RGBA (6), with alpha added
/// for RGB (2); other colour types are not supported.
pub open spec fn frame_rgba(color_type: u8, data: Seq<u8>) -> Option<Seq<u8>> {
    if color_type == 6 {
        Some(data)
    } else if color_type == 2 {
        Some(rgb_to_rgba(data))
    } else {
        None
    }
}

/// An icon mask from PNG bytes: the decoded frame as RGBA, when its colour type is
/// supported and it holds exactly width × height pixels.
pub open spec fn png_mask(bytes: Seq<u8>) -> Option<(i32, Seq<u8>)> {
    match png_frame(bytes) {
        None => None,
        Some(f) => match frame_rgba(f.2, f.3) {
            Some(px) => if px.len() == (f.0 as int) * (f.1 as int) * 4 { Some((f.0 as i32, px)) } else { None },
            None => None,
        },
    }
}

fn rgb_to_rgba_vec(data: &[u8]) -> (r: Vec<u8>)
    ensures
        r@ == rgb_to_rgba(data@),
{
    let n = data.len() / 3;
    assert(3 * n <= data@.len()) by (nonlinear_arith) requires n == data@.len() / 3;
    let mut out: Vec<u8> = Vec::new();
    let mut k: usize = 0;
    while k < n
        invariant
            n == data@.len() / 3,
            3 * n <= data@.len(),
            data@.len() <= usize::MAX,
            k <= n,
            out@ == rgb_to_rgba(data@).take(4 * k),
        decreases n - k,
    {
        let b = 3 * k;
        out.push(data[b]);
        out.push(data[b + 1]);
        out.push(data[b + 2]);
        out.push(255);
        proof {
            let t = rgb_to_rgba(data@);
            assert(t.len() == 4 * n) by (nonlinear_arith) requires t.len() == (data@.len() / 3) * 4, n == data@.len() / 3;
            assert forall|i: int| 4 * k <= i < 4 * k + 4 implies #[trigger] t[i] == (if i - 4 * k == 3 { 255u8 } else { data@[3 * k + (i - 4 * k)] }) by {
                assert(i / 4 == k && i % 4 == i - 4 * k) by (nonlinear_arith) requires 4 * k <= i < 4 * k + 4;
            }
            assert(out@ =~= t.take(4 * (k + 1)));
        }
        k += 1;
    }
    proof {
        let t = rgb_to_rgba(data@);
        assert(t.len() == 4 * n) by (nonlinear_arith) requires t.len() == (data@.len() / 3) * 4, n == data@.len() / 3;
        assert(t.take(4 * n) =~= t);
    }
    out
}

/// Decodes a tray icon mask from PNG bytes (`None` where the icon cannot be used).
pub fn decode_png_rgba(bytes: &[u8]) -> (r: Option<IconMask>)
    ensures
        r matches Some(m) ==> png_mask(bytes@) == Some((m.width, m.rgba@)),
        r is None ==> png_mask(bytes@) is None,
{
    let (w, h, color_type, data) = match decode_png_frame(bytes) {
        Some(f) => f,
        None => return None,
    };
    let rgba = if color_type == 6 {
        data
    } else if color_type == 2 {
        rgb_to_rgba_vec(&data)
    } else {
        return None;
    };
    assert((w as int) * (h as int) <= 0xffff_ffff * 0xffff_ffff) by (nonlinear_arith)
        requires 0 <= w <= 0xffff_ffff, 0 <= h <= 0xffff_ffff;
    let wh: u128 = (w as u128) * (h as u128);
    if rgba.len() as u128 != wh * 4 {
        return None;
    }
    Some(IconMask { width: #[verifier::truncate] (w as i32), rgba })
}

} // verus!
