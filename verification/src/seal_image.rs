//! The seal picture as a PDF image: a PNG read into RGB pixels (alpha laid
//! over white) and compressed with zlib for `/FlateDecode`.

use vstd::prelude::*;
use crate::der::extend_bytes;
use crate::font_embed::{be32, read_be32};

verus! {

/// What `flate2`'s zlib encoder (default level) writes for `data`.
pub uninterp spec fn zlib_deflate(data: Seq<u8>) -> Seq<u8>;

/// What `flate2`'s zlib decoder reads from `data`, or `None` when it fails.
pub uninterp spec fn zlib_inflate(data: Seq<u8>) -> Option<Seq<u8>>;

/// `flate2::write::ZlibEncoder` at the default level: `data` compressed.
#[verifier::external_body]
fn flate_compress(data: &[u8]) -> (r: Vec<u8>)
    ensures
        r@ == zlib_deflate(data@),
{
    let mut encoder = flate2::write::ZlibEncoder::new(Vec::new(), flate2::Compression::default());
    std::io::Write::write_all(&mut encoder, data).ok();
    encoder.finish().unwrap_or_default()
}

/// `flate2::read::ZlibDecoder`: `data` decompressed, if it is a zlib stream.
#[verifier::external_body]
fn flate_decompress(data: &[u8]) -> (r: Option<Vec<u8>>)
    ensures
        match r {
            Some(v) => zlib_inflate(data@) == Some(v@),
            None => zlib_inflate(data@) is None,
        },
{
    let mut decoder = flate2::read::ZlibDecoder::new(data);
    let mut result = Vec::new();
    std::io::Read::read_to_end(&mut decoder, &mut result).ok()?;
    Some(result)
}

/// The eight bytes that open a PNG file.
pub open spec fn png_signature() -> Seq<u8> {
    seq![0x89u8, 0x50, 0x4E, 0x47, 0x0D, 0x0A, 0x1A, 0x0A]
}

/// What the chunk walk collects: width, height, bit depth, colour type and
/// the concatenated `IDAT` data.
pub type PngScan = (u32, u32, u8, u8, Seq<u8>);

pub open spec fn chunk_is(d: Seq<u8>, pos: nat, t: Seq<u8>) -> bool {
    d.subrange(pos + 4int, pos + 8int) == t
}

/// Walk the chunks from `pos`: `IHDR` sets the header fields, `IDAT` adds
/// its data, `IEND` or a chunk that does not fit ends the walk.
pub open spec fn png_chunks(d: Seq<u8>, pos: nat, st: PngScan) -> PngScan
    decreases d.len() - pos,
{
    if pos + 8 > d.len() {
        st
    } else {
        let length = be32(d, pos as int) as nat;
        let cds = pos + 8;
        if cds + length > d.len() {
            st
        } else if chunk_is(d, pos, seq![0x49u8, 0x45, 0x4E, 0x44]) {
            st
        } else {
            let next: PngScan = if chunk_is(d, pos, seq![0x49u8, 0x48, 0x44, 0x52]) {
                (be32(d, cds as int), be32(d, cds + 4int), d[cds + 8int], d[cds + 9int], st.4)
            } else if chunk_is(d, pos, seq![0x49u8, 0x44, 0x41, 0x54]) {
                (st.0, st.1, st.2, st.3, st.4 + d.subrange(cds as int, (cds + length) as int))
            } else {
                st
            };
            if cds + length + 4 >= d.len() {
                next
            } else {
                png_chunks(d, cds + length + 4, next)
            }
        }
    }
}

/// Whether every `IHDR` the walk meets has its ten header bytes in the data
/// (the reader takes them whatever the chunk's length says).
pub open spec fn png_headers_fit(d: Seq<u8>, pos: nat) -> bool
    decreases d.len() - pos,
{
    if pos + 8 > d.len() {
        true
    } else {
        let length = be32(d, pos as int) as nat;
        let cds = pos + 8;
        if cds + length > d.len() || chunk_is(d, pos, seq![0x49u8, 0x45, 0x4E, 0x44]) {
            true
        } else {
            (chunk_is(d, pos, seq![0x49u8, 0x48, 0x44, 0x52]) ==> cds + 10 <= d.len()) && (cds + length + 4
                >= d.len() || png_headers_fit(d, cds + length + 4))
        }
    }
}

/// A pixel of colour type `ct` at `px` as RGB; RGBA is laid over white, grey
/// is repeated, grey with alpha gives nothing.
pub open spec fn pixel_rgb(raw: Seq<u8>, px: nat, ct: u8) -> Seq<u8> {
    if ct == 2 {
        raw.subrange(px as int, px + 3int)
    } else if ct == 6 {
        let a = raw[px + 3int] as int;
        seq![
            (raw[px as int] * a / 255 + (255 - a) * 255 / 255) as u8,
            (raw[px + 1int] * a / 255 + (255 - a) * 255 / 255) as u8,
            (raw[px + 2int] * a / 255 + (255 - a) * 255 / 255) as u8
        ]
    } else if ct == 0 {
        seq![raw[px as int], raw[px as int], raw[px as int]]
    } else {
        Seq::empty()
    }
}

/// A pixel of colour type `ct` at `px` as RGBA (opaque where the PNG has no
/// alpha).
pub open spec fn pixel_rgba(raw: Seq<u8>, px: nat, ct: u8) -> Seq<u8> {
    if ct == 2 {
        seq![raw[px as int], raw[px + 1int], raw[px + 2int], 255u8]
    } else if ct == 6 {
        raw.subrange(px as int, px + 4int)
    } else if ct == 0 {
        seq![raw[px as int], raw[px as int], raw[px as int], 255u8]
    } else if ct == 4 {
        seq![raw[px as int], raw[px as int], raw[px as int], raw[px + 1int]]
    } else {
        Seq::empty()
    }
}

/// A pixel as RGBA (`rgba`) or as RGB over white.
pub open spec fn pixel_out(raw: Seq<u8>, px: nat, ct: u8, rgba: bool) -> Seq<u8> {
    if rgba {
        pixel_rgba(raw, px, ct)
    } else {
        pixel_rgb(raw, px, ct)
    }
}

/// Pixels `x..w` of the row whose data starts at `rs`, up to the first one
/// that does not fit.
pub open spec fn png_row(raw: Seq<u8>, w: nat, bpp: nat, ct: u8, rgba: bool, rs: nat, x: nat) -> Seq<u8>
    decreases w - x,
{
    if x >= w {
        Seq::empty()
    } else if rs + x * bpp + bpp > raw.len() {
        Seq::empty()
    } else {
        pixel_out(raw, rs + x * bpp, ct, rgba) + png_row(raw, w, bpp, ct, rgba, rs, x + 1)
    }
}

/// Rows `y..h` from `pos` on: each skips its filter byte (filters are not
/// undone); the rows stop when the data does.
pub open spec fn png_rows(raw: Seq<u8>, w: nat, h: nat, bpp: nat, ct: u8, rgba: bool, y: nat, pos: nat) -> Seq<u8>
    decreases h - y,
{
    if y >= h || pos >= raw.len() {
        Seq::empty()
    } else {
        png_row(raw, w, bpp, ct, rgba, pos + 1, 0) + png_rows(raw, w, h, bpp, ct, rgba, y + 1, pos + 1 + w * bpp)
    }
}

/// Bytes per pixel of the colour types read.
pub open spec fn bytes_per_pixel(ct: u8) -> Option<nat> {
    if ct == 2 {
        Some(3)
    } else if ct == 6 {
        Some(4)
    } else if ct == 0 {
        Some(1)
    } else if ct == 4 {
        Some(2)
    } else {
        None
    }
}

/// Width, height and pixels (RGBA, or RGB over white) of an 8-bit PNG, or
/// `None`.
pub open spec fn png_pixels(d: Seq<u8>, rgba: bool) -> Option<(u32, u32, Seq<u8>)> {
    if d.len() < 8 || d.subrange(0, 8) != png_signature() {
        None
    } else {
        let st = png_chunks(d, 8, (0u32, 0u32, 0u8, 0u8, Seq::empty()));
        if st.0 == 0 || st.1 == 0 || st.4.len() == 0 || st.2 != 8 {
            None
        } else {
            match zlib_inflate(st.4) {
                None => None,
                Some(raw) => match bytes_per_pixel(st.3) {
                    None => None,
                    Some(bpp) => Some((st.0, st.1, png_rows(raw, st.0 as nat, st.1 as nat, bpp, st.3, rgba, 0, 0))),
                },
            }
        }
    }
}

fn pixel_rgba_exec(out: &mut Vec<u8>, raw: &[u8], px: usize, ct: u8, bpp: u64)
    requires
        bytes_per_pixel(ct) == Some(bpp as nat),
        px + bpp <= raw@.len(),
    ensures
        final(out)@ == old(out)@ + pixel_rgba(raw@, px as nat, ct),
{
    let n: usize = raw.len();
    if ct == 2 {
        out.push(raw[px]);
        out.push(raw[px + 1]);
        out.push(raw[px + 2]);
        out.push(255);
    } else if ct == 6 {
        extend_bytes(out, &raw[px..px + 4]);
    } else if ct == 0 {
        let g = raw[px];
        out.push(g);
        out.push(g);
        out.push(g);
        out.push(255);
    } else if ct == 4 {
        let g = raw[px];
        out.push(g);
        out.push(g);
        out.push(g);
        out.push(raw[px + 1]);
    }
    assert(out@ =~= old(out)@ + pixel_rgba(raw@, px as nat, ct));
}

fn pixel_exec(out: &mut Vec<u8>, raw: &[u8], px: usize, ct: u8, bpp: u64, rgba: bool)
    requires
        bytes_per_pixel(ct) == Some(bpp as nat),
        px + bpp <= raw@.len(),
    ensures
        final(out)@ == old(out)@ + pixel_out(raw@, px as nat, ct, rgba),
{
    if rgba {
        pixel_rgba_exec(out, raw, px, ct, bpp);
    } else {
        pixel_rgb_exec(out, raw, px, ct, bpp);
    }
}

fn pixel_rgb_exec(out: &mut Vec<u8>, raw: &[u8], px: usize, ct: u8, bpp: u64)
    requires
        bytes_per_pixel(ct) == Some(bpp as nat),
        px + bpp <= raw@.len(),
    ensures
        final(out)@ == old(out)@ + pixel_rgb(raw@, px as nat, ct),
{
    let n: usize = raw.len();
    if ct == 2 {
        extend_bytes(out, &raw[px..px + 3]);
    } else if ct == 6 {
        let a = raw[px + 3] as u32;
        let c0 = raw[px] as u32;
        let c1 = raw[px + 1] as u32;
        let c2 = raw[px + 2] as u32;
        assert(c0 * a <= 255 * 255 && c1 * a <= 255 * 255 && c2 * a <= 255 * 255) by (nonlinear_arith)
            requires
                c0 <= 255,
                c1 <= 255,
                c2 <= 255,
                a <= 255,
        ;
        assert(c0 * a / 255 <= a && c1 * a / 255 <= a && c2 * a / 255 <= a) by (nonlinear_arith)
            requires
                c0 <= 255,
                c1 <= 255,
                c2 <= 255,
                a <= 255,
        ;
        let r = (c0 * a / 255 + (255 - a) * 255 / 255) as u8;
        let g = (c1 * a / 255 + (255 - a) * 255 / 255) as u8;
        let b = (c2 * a / 255 + (255 - a) * 255 / 255) as u8;
        out.push(r);
        out.push(g);
        out.push(b);
    } else if ct == 0 {
        let g = raw[px];
        out.push(g);
        out.push(g);
        out.push(g);
    }
    assert(out@ =~= old(out)@ + pixel_rgb(raw@, px as nat, ct));
}

/// Walk the chunks of a PNG (see `png_chunks`).
fn scan_chunks(data: &[u8]) -> (r: (u32, u32, u8, u8, Vec<u8>))
    requires
        data@.len() >= 8,
        png_headers_fit(data@, 8),
    ensures
        (r.0, r.1, r.2, r.3, r.4@) == png_chunks(data@, 8, (0u32, 0u32, 0u8, 0u8, Seq::empty())),
{
    let n: usize = data.len();
    let mut pos: u64 = 8;
    let mut width: u32 = 0;
    let mut height: u32 = 0;
    let mut bit_depth: u8 = 0;
    let mut color_type: u8 = 0;
    let mut idat: Vec<u8> = Vec::new();
    while pos < n as u64
        invariant_except_break
            png_headers_fit(data@, pos as nat),
            png_chunks(data@, 8, (0u32, 0u32, 0u8, 0u8, Seq::empty())) == png_chunks(
                data@,
                pos as nat,
                (width, height, bit_depth, color_type, idat@),
            ),
        invariant
            n == data@.len(),
            8 <= pos,
        ensures
            png_chunks(data@, 8, (0u32, 0u32, 0u8, 0u8, Seq::empty())) == (
                width,
                height,
                bit_depth,
                color_type,
                idat@,
            ),
        decreases n - pos,
    {
        if (n as u64) - pos < 8 {
            break;
        }
        let p: usize = pos as usize;
        let length: u64 = read_be32(data, p) as u64;
        let cds: u64 = pos + 8;
        if length > (n as u64) - cds {
            break;
        }
        let c: usize = cds as usize;
        let t0 = data[p + 4];
        let t1 = data[p + 5];
        let t2 = data[p + 6];
        let t3 = data[p + 7];
        proof {
            assert(data@.subrange(p + 4, p + 8) =~= seq![t0, t1, t2, t3]);
        }
        if t0 == 0x49 && t1 == 0x45 && t2 == 0x4E && t3 == 0x44 {
            break;
        }
        if t0 == 0x49 && t1 == 0x48 && t2 == 0x44 && t3 == 0x52 {
            width = read_be32(data, c);
            height = read_be32(data, c + 4);
            bit_depth = data[c + 8];
            color_type = data[c + 9];
        } else if t0 == 0x49 && t1 == 0x44 && t2 == 0x41 && t3 == 0x54 {
            let ghost before = idat@;
            extend_bytes(&mut idat, &data[c..c + length as usize]);
            assert(idat@ =~= before + data@.subrange(c as int, (c + length) as int));
        }
        if length + 4 >= (n as u64) - cds {
            break;
        }
        pos = cds + length + 4;
    }
    (width, height, bit_depth, color_type, idat)
}

/// Pixels of one row (see `png_row`).
fn decode_row(out: &mut Vec<u8>, raw: &[u8], w: u32, bpp: u64, ct: u8, rgba: bool, rs: u64)
    requires
        bytes_per_pixel(ct) == Some(bpp as nat),
        rs <= raw@.len(),
    ensures
        final(out)@ == old(out)@ + png_row(raw@, w as nat, bpp as nat, ct, rgba, rs as nat, 0),
{
    let n: u64 = raw.len() as u64;
    let mut x: u32 = 0;
    let ghost start = out@;
    while x < w
        invariant
            x <= w,
            n == raw@.len(),
            raw@.len() <= usize::MAX,
            rs <= raw@.len(),
            bytes_per_pixel(ct) == Some(bpp as nat),
            start + png_row(raw@, w as nat, bpp as nat, ct, rgba, rs as nat, 0) == out@ + png_row(
                raw@,
                w as nat,
                bpp as nat,
                ct,
                rgba,
                rs as nat,
                x as nat,
            ),
        ensures
            start + png_row(raw@, w as nat, bpp as nat, ct, rgba, rs as nat, 0) == out@,
        decreases w - x,
    {
        assert(x as u64 * bpp <= 0xFFFF_FFFF * 4) by (nonlinear_arith)
            requires
                x <= 0xFFFF_FFFF,
                bpp <= 4,
        ;
        let off: u64 = x as u64 * bpp;
        if off + bpp > n - rs {
            assert(png_row(raw@, w as nat, bpp as nat, ct, rgba, rs as nat, x as nat) =~= Seq::<u8>::empty());
            assert(out@ + Seq::<u8>::empty() =~= out@);
            break;
        }
        let px: u64 = rs + off;
        let pxu: usize = px as usize;
        assert(pxu as nat == rs + x * bpp);
        let ghost mid = out@;
        pixel_exec(out, raw, pxu, ct, bpp, rgba);
        assert(mid + png_row(raw@, w as nat, bpp as nat, ct, rgba, rs as nat, x as nat) =~= out@ + png_row(
            raw@,
            w as nat,
            bpp as nat,
            ct,
            rgba,
            rs as nat,
            (x + 1) as nat,
        ));
        x = x + 1;
    }
    assert(out@ + png_row(raw@, w as nat, bpp as nat, ct, rgba, rs as nat, x as nat) =~= out@);
}


/// Whether every `IHDR` chunk of `data` holds its header (see
/// `png_headers_fit`): what `parse_png_to_rgb` asks of its input.
pub fn png_headers_complete(data: &[u8]) -> (r: bool)
    ensures
        r == (data@.len() >= 8 ==> png_headers_fit(data@, 8)),
{
    let n: usize = data.len();
    if n < 8 {
        return true;
    }
    let mut pos: u64 = 8;
    while pos < n as u64
        invariant
            n == data@.len(),
            8 <= pos,
            png_headers_fit(data@, 8) == png_headers_fit(data@, pos as nat),
        decreases n - pos,
    {
        if (n as u64) - pos < 8 {
            return true;
        }
        let p: usize = pos as usize;
        let length: u64 = read_be32(data, p) as u64;
        let cds: u64 = pos + 8;
        if length > (n as u64) - cds {
            return true;
        }
        let t0 = data[p + 4];
        let t1 = data[p + 5];
        let t2 = data[p + 6];
        let t3 = data[p + 7];
        proof {
            assert(data@.subrange(p + 4, p + 8) =~= seq![t0, t1, t2, t3]);
        }
        if t0 == 0x49 && t1 == 0x45 && t2 == 0x4E && t3 == 0x44 {
            return true;
        }
        if t0 == 0x49 && t1 == 0x48 && t2 == 0x44 && t3 == 0x52 && 10 > (n as u64) - cds {
            return false;
        }
        if length + 4 >= (n as u64) - cds {
            return true;
        }
        pos = cds + length + 4;
    }
    true
}

/// Read an 8-bit PNG into pixels (see `png_pixels`).
fn decode_png(data: &[u8], rgba: bool) -> (r: Option<(u32, u32, Vec<u8>)>)
    requires
        data@.len() >= 8 ==> png_headers_fit(data@, 8),
    ensures
        match png_pixels(data@, rgba) {
            Some((w, h, rgb)) => r is Some && r->Some_0.0 == w && r->Some_0.1 == h && r->Some_0.2@ == rgb,
            None => r is None,
        },
{
    if data.len() < 8 {
        return None;
    }
    let sig: [u8; 8] = [0x89, 0x50, 0x4E, 0x47, 0x0D, 0x0A, 0x1A, 0x0A];
    let mut k: usize = 0;
    while k < 8
        invariant
            k <= 8,
            data@.len() >= 8,
            sig@ == png_signature(),
            forall|j: int| 0 <= j < k ==> data@[j] == png_signature()[j],
        decreases 8 - k,
    {
        if data[k] != sig[k] {
            assert(data@.subrange(0, 8)[k as int] != png_signature()[k as int]);
            return None;
        }
        k = k + 1;
    }
    assert(data@.subrange(0, 8) =~= png_signature());
    let (width, height, bit_depth, color_type, idat) = scan_chunks(data);
    if width == 0 || height == 0 || idat.len() == 0 || bit_depth != 8 {
        return None;
    }
    let raw = match flate_decompress(idat.as_slice()) {
        Some(v) => v,
        None => {
            return None;
        },
    };
    let bpp: u64 = if color_type == 2 {
        3
    } else if color_type == 6 {
        4
    } else if color_type == 0 {
        1
    } else if color_type == 4 {
        2
    } else {
        return None;
    };
    let n: u64 = raw.len() as u64;
    assert(width as u64 * bpp <= 0xFFFF_FFFF * 4) by (nonlinear_arith)
        requires
            width <= 0xFFFF_FFFF,
            bpp <= 4,
    ;
    let stride: u64 = width as u64 * bpp;
    let mut rgb: Vec<u8> = Vec::new();
    let mut pos: u64 = 0;
    let mut y: u32 = 0;
    while y < height
        invariant
            y <= height,
            n == raw@.len(),
            stride == width * bpp,
            bytes_per_pixel(color_type) == Some(bpp as nat),
            bpp <= 4,
            stride <= 0xFFFF_FFFF * 4,
            pos <= n,
            png_rows(raw@, width as nat, height as nat, bpp as nat, color_type, rgba, 0, 0) == rgb@ + png_rows(
                raw@,
                width as nat,
                height as nat,
                bpp as nat,
                color_type,
                rgba,
                y as nat,
                pos as nat,
            ),
        ensures
            png_rows(raw@, width as nat, height as nat, bpp as nat, color_type, rgba, 0, 0) == rgb@,
        decreases height - y,
    {
        if pos >= n {
            assert(rgb@ + Seq::<u8>::empty() =~= rgb@);
            break;
        }
        let rs: u64 = pos + 1;
        let ghost before = rgb@;
        decode_row(&mut rgb, raw.as_slice(), width, bpp, color_type, rgba, rs);
        if stride > n - rs {
            assert(png_rows(raw@, width as nat, height as nat, bpp as nat, color_type, rgba, (y + 1) as nat, (rs + stride) as nat)
                =~= Seq::<u8>::empty());
            assert(png_rows(raw@, width as nat, height as nat, bpp as nat, color_type, rgba, (y + 1) as nat, n as nat)
                =~= Seq::<u8>::empty());
            pos = n;
        } else {
            pos = rs + stride;
        }
        y = y + 1;
    }
    Some((width, height, rgb))
}

/// Read an 8-bit PNG into RGB pixels, alpha laid over white (filters are
/// not undone).
pub fn parse_png_to_rgb(data: &[u8]) -> (r: Option<(u32, u32, Vec<u8>)>)
    requires
        data@.len() >= 8 ==> png_headers_fit(data@, 8),
    ensures
        match png_pixels(data@, false) {
            Some((w, h, rgb)) => r is Some && r->Some_0.0 == w && r->Some_0.1 == h && r->Some_0.2@ == rgb,
            None => r is None,
        },
{
    decode_png(data, false)
}

/// Read an 8-bit PNG into RGBA pixels (filters are not undone).
pub fn decode_png_to_rgba(data: &[u8]) -> (r: Option<(u32, u32, Vec<u8>)>)
    requires
        data@.len() >= 8 ==> png_headers_fit(data@, 8),
    ensures
        match png_pixels(data@, true) {
            Some((w, h, rgba)) => r is Some && r->Some_0.0 == w && r->Some_0.1 == h && r->Some_0.2@ == rgba,
            None => r is None,
        },
{
    decode_png(data, true)
}

/// A PDF image: its size in pixels and its RGB data, zlib-compressed.
pub struct ImageData {
    pub width: u32,
    pub height: u32,
    pub data: Vec<u8>,
}

/// The seal picture as a PDF image: the PNG's pixels, or one red pixel when
/// the PNG cannot be read.
pub fn build_image_xobject(png_data: &[u8]) -> (r: ImageData)
    requires
        png_data@.len() >= 8 ==> png_headers_fit(png_data@, 8),
    ensures
        match png_pixels(png_data@, false) {
            Some((w, h, rgb)) => r.width == w && r.height == h && r.data@ == zlib_deflate(rgb),
            None => r.width == 1 && r.height == 1 && r.data@ == zlib_deflate(seq![220u8, 40, 40]),
        },
{
    match parse_png_to_rgb(png_data) {
        Some((w, h, rgb)) => {
            let compressed = flate_compress(rgb.as_slice());
            ImageData { width: w, height: h, data: compressed }
        },
        None => {
            let rgb: Vec<u8> = vec![220u8, 40, 40];
            assert(rgb@ =~= seq![220u8, 40, 40]);
            let compressed = flate_compress(rgb.as_slice());
            ImageData { width: 1, height: 1, data: compressed }
        },
    }
}

} // verus!
