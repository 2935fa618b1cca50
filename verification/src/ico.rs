//! Decoder for the legacy icon-container (ICO) file format.
//!
//! The decoder is a strict three-stage pipeline:
//! container reader -> payload classifier -> pixel transformer.
//! It always consults exactly the first directory entry of the container
//! (a deliberate, documented policy), detects whether the embedded payload
//! is PNG-compressed or an uncompressed device-independent bitmap (DIB),
//! and produces a tightly packed, top-down RGBA buffer. PNG payloads and
//! unsupported bit depths yield a fixed placeholder fill; truncated pixel
//! data degrades to transparent-black pixels instead of failing.

use vstd::prelude::*;

verus! {

/// The ways a decode can fail. Malformed input never panics: it is either
/// reported through one of these kinds or absorbed by the documented
/// placeholder / partial-fill fallbacks.
#[derive(Debug, Clone, Copy, PartialEq, Eq, Structural)]
pub enum IcoError {
    /// The buffer is too short to hold the directory header and first entry,
    /// or too short to read the required bitmap sub-header fields.
    TruncatedInput,
    /// A declared field is internally inconsistent: the payload offset
    /// points beyond the end of the buffer.
    MalformedField,
}

/// The two embedded payload encodings the classifier distinguishes.
#[derive(Debug, Clone, Copy, PartialEq, Eq, Structural)]
pub enum PayloadKind {
    /// The payload starts with the PNG file signature.
    Png,
    /// Anything else: treated as an uncompressed device-independent bitmap.
    Dib,
}

/// What the container reader extracts from the header and first directory
/// entry: the nominal dimensions and the byte offset of the embedded payload.
pub struct ContainerInfo {
    pub width: u32,
    pub height: u32,
    pub payload_offset: u32,
}

/// The decoder's only output artifact: positive dimensions and a tightly
/// packed RGBA byte sequence of exactly `width * height * 4` bytes, in
/// row-major, top-down order.
pub struct DecodedImage {
    pub width: u32,
    pub height: u32,
    pub rgba: Vec<u8>,
}

/// A stored dimension byte: 0 encodes 256 (the format's convention for
/// full-size icons), any other value is taken literally.
pub open spec fn stored_dim(b: u8) -> int {
    if b == 0 {
        256
    } else {
        b as int
    }
}

/// The little-endian 16-bit value stored at byte offset `i`.
pub open spec fn le16(data: Seq<u8>, i: int) -> int {
    data[i] + 0x100 * data[i + 1]
}

/// The little-endian 32-bit value stored at byte offset `i`.
pub open spec fn le32(data: Seq<u8>, i: int) -> int {
    data[i] + 0x100 * data[i + 1] + 0x1_0000 * data[i + 2] + 0x100_0000 * data[i + 3]
}

/// Nominal width of the first directory entry (entry byte 0, at offset 6).
pub open spec fn decoded_width(data: Seq<u8>) -> int {
    stored_dim(data[6])
}

/// Nominal height of the first directory entry (entry byte 1, at offset 7).
pub open spec fn decoded_height(data: Seq<u8>) -> int {
    stored_dim(data[7])
}

/// Byte offset of the embedded payload, read little-endian from the last
/// four bytes of the first directory entry (offsets 18..22).
pub open spec fn payload_offset(data: Seq<u8>) -> int {
    le32(data, 18)
}

/// Whether at least four bytes are available at `off` and they are the
/// canonical PNG file signature prefix.
pub open spec fn is_png_at(data: Seq<u8>, off: int) -> bool {
    &&& off + 4 <= data.len()
    &&& data[off] == 0x89
    &&& data[off + 1] == 0x50
    &&& data[off + 2] == 0x4e
    &&& data[off + 3] == 0x47
}

/// Bits-per-pixel field of the bitmap sub-header: a 16-bit value 14 bytes
/// into the payload.
pub open spec fn dib_bpp(data: Seq<u8>) -> int {
    le16(data, payload_offset(data) + 14)
}

/// Where the bitmap pixel data begins: the payload offset plus the
/// sub-header's own declared byte length (its first four bytes).
pub open spec fn pixel_data_start(data: Seq<u8>) -> int {
    payload_offset(data) + le32(data, payload_offset(data))
}

/// The decode outcome for a buffer: `None` when a `DecodedImage` is owed,
/// otherwise exactly which error is returned.
pub open spec fn decode_err(data: Seq<u8>) -> Option<IcoError> {
    if data.len() < 22 {
        Some(IcoError::TruncatedInput)
    } else if payload_offset(data) > data.len() {
        Some(IcoError::MalformedField)
    } else if is_png_at(data, payload_offset(data)) {
        None
    } else if payload_offset(data) + 16 > data.len() {
        Some(IcoError::TruncatedInput)
    } else {
        None
    }
}

/// Whether the transformer takes the placeholder path: a PNG payload, or a
/// bitmap whose bit depth is not 32.
pub open spec fn placeholder_taken(data: Seq<u8>) -> bool {
    is_png_at(data, payload_offset(data)) || dib_bpp(data) != 32
}

/// Channel `c` of the fixed placeholder pixel: a mid-tone blue, fully
/// opaque (R 0x00, G 0x80, B 0xFF, A 0xFF).
pub open spec fn placeholder_byte(c: int) -> u8 {
    if c == 0 {
        0x00
    } else if c == 1 {
        0x80
    } else {
        0xFF
    }
}

/// Byte index in the buffer of the source pixel feeding destination pixel
/// `(x, y)`: rows are stored bottom-up, four bytes per pixel.
pub open spec fn dib_src_index(data: Seq<u8>, x: int, y: int) -> int {
    pixel_data_start(data) + ((decoded_height(data) - 1 - y) * decoded_width(data) + x) * 4
}

/// Channel `c` of destination pixel `(x, y)` on the 32-bit bitmap path,
/// for a source pixel beginning at byte `s` of the buffer: the source
/// B,G,R,A channel order swapped into R,G,B,A, or zero (transparent black)
/// when the four source bytes do not fit in the buffer.
pub open spec fn dib_byte_from(data: Seq<u8>, s: int, c: int) -> u8 {
    if s + 3 < data.len() {
        if c == 0 {
            data[s + 2]
        } else if c == 1 {
            data[s + 1]
        } else if c == 2 {
            data[s]
        } else {
            data[s + 3]
        }
    } else {
        0
    }
}

/// `dib_byte_from` for a pixel grid described by explicit parameters:
/// pixel data starting at byte `start` of the buffer, `w` by `h` pixels,
/// stored bottom-up.
pub open spec fn dib_pixel_at(data: Seq<u8>, start: int, w: int, h: int, x: int, y: int, c: int) -> u8 {
    dib_byte_from(data, start + ((h - 1 - y) * w + x) * 4, c)
}

/// Channel `c` of destination pixel `(x, y)` of the decoded image: the
/// placeholder color on the PNG / unsupported-depth path, otherwise the
/// channel-swapped, bottom-up-to-top-down remapped bitmap byte.
pub open spec fn out_pixel_byte(data: Seq<u8>, x: int, y: int, c: int) -> u8 {
    if placeholder_taken(data) {
        placeholder_byte(c)
    } else {
        dib_pixel_at(data, pixel_data_start(data), decoded_width(data), decoded_height(data), x, y, c)
    }
}

fn read_le_u16(data: &Vec<u8>, i: usize) -> (r: u16)
    requires
        i + 2 <= data.len(),
    ensures
        r == le16(data@, i as int),
{
    data[i] as u16 + 0x100 * data[i + 1] as u16
}

fn read_le_u32(data: &Vec<u8>, i: usize) -> (r: u32)
    requires
        i + 4 <= data.len(),
    ensures
        r == le32(data@, i as int),
{
    data[i] as u32 + 0x100 * data[i + 1] as u32 + 0x1_0000 * data[i + 2] as u32 + 0x100_0000
        * data[i + 3] as u32
}

/// Container reader: interprets the 6-byte header and the 16-byte first
/// directory entry at their fixed offsets. Always selects entry 0,
/// whatever the declared entry count. Fails exactly when the buffer cannot
/// hold header plus one entry (fewer than 22 bytes).
pub fn read_container(data: &Vec<u8>) -> (r: Result<ContainerInfo, IcoError>)
    ensures
        match r {
            Ok(info) => {
                &&& data@.len() >= 22
                &&& info.width as int == decoded_width(data@)
                &&& info.height as int == decoded_height(data@)
                &&& info.payload_offset as int == payload_offset(data@)
            },
            Err(e) => data@.len() < 22 && e == IcoError::TruncatedInput,
        },
{
    if data.len() < 22 {
        return Err(IcoError::TruncatedInput);
    }
    let wb = data[6];
    let hb = data[7];
    let width: u32 = if wb == 0 {
        256
    } else {
        wb as u32
    };
    let height: u32 = if hb == 0 {
        256
    } else {
        hb as u32
    };
    let offset = read_le_u32(data, 18);
    Ok(ContainerInfo { width, height, payload_offset: offset })
}

/// Payload classifier: PNG exactly when at least four bytes are available
/// at the payload offset and they are the PNG signature; everything else
/// (including anything too short to hold a signature) is treated as an
/// uncompressed bitmap and left to deeper inspection.
pub fn classify_payload(data: &Vec<u8>, offset: u32) -> (r: PayloadKind)
    ensures
        r == (if is_png_at(data@, offset as int) {
            PayloadKind::Png
        } else {
            PayloadKind::Dib
        }),
{
    let off = offset as usize;
    if data.len() >= 4 && off <= data.len() - 4 {
        if data[off] == 0x89 && data[off + 1] == 0x50 && data[off + 2] == 0x4e && data[off + 3]
            == 0x47 {
            return PayloadKind::Png;
        }
    }
    PayloadKind::Dib
}

/// Fill an entire `width * height` image with the fixed placeholder color.
fn fill_placeholder(width: u32, height: u32) -> (r: Vec<u8>)
    requires
        width <= 256,
        height <= 256,
    ensures
        r@.len() == width * height * 4,
        forall|k: int| 0 <= k < r@.len() ==> r@[k] == placeholder_byte(k % 4),
{
    proof {
        assert(width as int * height as int <= 65536) by (nonlinear_arith)
            requires
                width <= 256,
                height <= 256,
        ;
    }
    let n: usize = (width as usize) * (height as usize);
    let mut rgba: Vec<u8> = Vec::new();
    let mut i: usize = 0;
    while i < n
        invariant
            i <= n,
            rgba@.len() == 4 * i,
            forall|k: int| 0 <= k < rgba@.len() ==> rgba@[k] == placeholder_byte(k % 4),
        decreases n - i,
    {
        rgba.push(0x00);
        rgba.push(0x80);
        rgba.push(0xff);
        rgba.push(0xff);
        i = i + 1;
    }
    rgba
}

proof fn lemma_earlier_pixel_lt(w: int, x: int, y: int, xx: int, yy: int)
    requires
        0 <= xx < w,
        0 <= yy < y,
        0 <= x,
    ensures
        yy * w + xx < y * w + x,
{
    assert(yy * w + xx < y * w + x) by (nonlinear_arith)
        requires
            0 <= xx < w,
            0 <= yy < y,
            0 <= x,
    ;
}

/// Pixel transformer, 32-bit bitmap path: remap every source pixel from
/// bottom-up B,G,R,A layout (starting at byte `start`) into a top-down
/// R,G,B,A buffer; any pixel whose source bytes fall outside the buffer is
/// left transparent black.
fn decode_dib_pixels(data: &Vec<u8>, width: u32, height: u32, start: u64) -> (r: Vec<u8>)
    requires
        1 <= width <= 256,
        1 <= height <= 256,
        start <= 0x2_0000_0000,
    ensures
        r@.len() == width * height * 4,
        forall|x: int, y: int, c: int|
            0 <= x < width && 0 <= y < height && 0 <= c < 4 ==> r@[(y * width + x) * 4 + c]
                == #[trigger] dib_pixel_at(data@, start as int, width as int, height as int, x, y, c),
{
    let w: usize = width as usize;
    let h: usize = height as usize;
    let mut rgba: Vec<u8> = Vec::new();
    let mut y: usize = 0;
    while y < h
        invariant
            w == width,
            h == height,
            1 <= w <= 256,
            1 <= h <= 256,
            start <= 0x2_0000_0000,
            y <= h,
            rgba@.len() == (y * w) * 4,
            forall|yy: int, xx: int, c: int|
                0 <= yy < y && 0 <= xx < w && 0 <= c < 4 ==> rgba@[(yy * w + xx) * 4 + c]
                    == #[trigger] dib_pixel_at(data@, start as int, w as int, h as int, xx, yy, c),
        decreases h - y,
    {
        let mut x: usize = 0;
        while x < w
            invariant
                w == width,
                h == height,
                1 <= w <= 256,
                1 <= h <= 256,
                start <= 0x2_0000_0000,
                y < h,
                x <= w,
                rgba@.len() == (y * w + x) * 4,
                forall|yy: int, xx: int, c: int|
                    0 <= yy < y && 0 <= xx < w && 0 <= c < 4 ==> rgba@[(yy * w + xx) * 4 + c]
                        == #[trigger] dib_pixel_at(data@, start as int, w as int, h as int, xx, yy, c),
                forall|xx: int, c: int|
                    0 <= xx < x && 0 <= c < 4 ==> rgba@[(y * w + xx) * 4 + c]
                        == #[trigger] dib_pixel_at(data@, start as int, w as int, h as int, xx, y as int, c),
            decreases w - x,
        {
            let ghost prev = rgba@;
            let row: usize = h - 1 - y;
            proof {
                assert(row as int * w as int <= 65280) by (nonlinear_arith)
                    requires
                        row <= 255,
                        w <= 256,
                ;
            }
            let idx: u64 = ((row as u64) * (w as u64) + (x as u64)) * 4;
            let s: u64 = start + idx;
            if s + 3 < (data.len() as u64) {
                let si: usize = s as usize;
                rgba.push(data[si + 2]);
                rgba.push(data[si + 1]);
                rgba.push(data[si]);
                rgba.push(data[si + 3]);
            } else {
                rgba.push(0);
                rgba.push(0);
                rgba.push(0);
                rgba.push(0);
            }
            proof {
                assert(rgba@.len() == prev.len() + 4);
                assert forall|yy: int, xx: int, c: int|
                    0 <= yy < y && 0 <= xx < w && 0 <= c < 4 implies rgba@[(yy * w + xx) * 4 + c]
                    == dib_pixel_at(data@, start as int, w as int, h as int, xx, yy, c) by {
                    lemma_earlier_pixel_lt(w as int, x as int, y as int, xx, yy);
                    assert(rgba@[(yy * w + xx) * 4 + c] == prev[(yy * w + xx) * 4 + c]);
                }
                assert forall|xx: int, c: int|
                    0 <= xx < x && 0 <= c < 4 implies rgba@[(y * w + xx) * 4 + c]
                    == dib_pixel_at(data@, start as int, w as int, h as int, xx, y as int, c) by {
                    assert(rgba@[(y * w + xx) * 4 + c] == prev[(y * w + xx) * 4 + c]);
                }
            }
            x = x + 1;
        }
        proof {
            assert((y * w + w) == (y + 1) * w) by (nonlinear_arith);
        }
        y = y + 1;
    }
    proof {
        assert(h as int * w as int == w as int * h as int) by (nonlinear_arith);
        assert(rgba@.len() == width * height * 4);
    }
    rgba
}

/// Pixel transformer: produce the decoded image for an already-read
/// container whose payload has been classified. PNG payloads and bitmaps
/// of any depth other than 32 take the fixed placeholder fill; a 32-bit
/// bitmap is remapped pixel by pixel. Fails only when the buffer is too
/// short to read the bitmap sub-header fields.
pub fn transform_pixels(data: &Vec<u8>, info: &ContainerInfo, kind: PayloadKind) -> (r: Result<
    DecodedImage,
    IcoError,
>)
    requires
        data.len() >= 22,
        info.width as int == decoded_width(data@),
        info.height as int == decoded_height(data@),
        info.payload_offset as int == payload_offset(data@),
        info.payload_offset as int <= data.len(),
        kind == (if is_png_at(data@, payload_offset(data@)) {
            PayloadKind::Png
        } else {
            PayloadKind::Dib
        }),
    ensures
        match r {
            Ok(img) => {
                &&& decode_err(data@) is None
                &&& img.width as int == decoded_width(data@)
                &&& img.height as int == decoded_height(data@)
                &&& img.rgba@.len() == decoded_width(data@) * decoded_height(data@) * 4
                &&& forall|x: int, y: int, c: int|
                    0 <= x < decoded_width(data@) && 0 <= y < decoded_height(data@) && 0 <= c < 4
                        ==> img.rgba@[(y * decoded_width(data@) + x) * 4 + c] == #[trigger] out_pixel_byte(
                        data@,
                        x,
                        y,
                        c,
                    )
            },
            Err(e) => decode_err(data@) == Some(e),
        },
{
    let width = info.width;
    let height = info.height;
    let off = info.payload_offset as usize;
    assert(1 <= width <= 256 && 1 <= height <= 256);
    match kind {
        PayloadKind::Png => {
            let rgba = fill_placeholder(width, height);
            proof {
                lemma_placeholder_grid(rgba@, data@, width as int, height as int);
            }
            Ok(DecodedImage { width, height, rgba })
        },
        PayloadKind::Dib => {
            if data.len() - off < 16 {
                return Err(IcoError::TruncatedInput);
            }
            let header_size = read_le_u32(data, off);
            let bpp = read_le_u16(data, off + 14);
            if bpp == 32 {
                let start: u64 = (info.payload_offset as u64) + (header_size as u64);
                let rgba = decode_dib_pixels(data, width, height, start);
                Ok(DecodedImage { width, height, rgba })
            } else {
                let rgba = fill_placeholder(width, height);
                proof {
                    lemma_placeholder_grid(rgba@, data@, width as int, height as int);
                }
                Ok(DecodedImage { width, height, rgba })
            }
        },
    }
}

/// A buffer wholly filled with the placeholder color, read at flat byte
/// indexes, is the placeholder color at every pixel and channel of a
/// `w` by `h` grid.
proof fn lemma_placeholder_grid(rgba: Seq<u8>, data: Seq<u8>, w: int, h: int)
    requires
        placeholder_taken(data),
        rgba.len() == w * h * 4,
        forall|k: int| 0 <= k < rgba.len() ==> rgba[k] == placeholder_byte(k % 4),
    ensures
        forall|x: int, y: int, c: int|
            0 <= x < w && 0 <= y < h && 0 <= c < 4 ==> rgba[(y * w + x) * 4 + c]
                == #[trigger] out_pixel_byte(data, x, y, c),
{
    assert forall|x: int, y: int, c: int|
        0 <= x < w && 0 <= y < h && 0 <= c < 4 implies rgba[(y * w + x) * 4 + c]
        == out_pixel_byte(data, x, y, c) by {
        assert(0 <= y * w + x && (y * w + x) * 4 + 3 < w * h * 4) by (nonlinear_arith)
            requires
                0 <= x < w,
                0 <= y < h,
        ;
        assert(((y * w + x) * 4 + c) % 4 == c) by (nonlinear_arith)
            requires
                0 <= c < 4,
                0 <= y * w + x,
        ;
    }
}

/// Decode an icon-container buffer into a canonical RGBA image.
///
/// The three pipeline stages run strictly downward: the container reader
/// yields the dimensions and payload offset of the first directory entry,
/// the classifier picks the PNG or bitmap path, and the transformer
/// produces exactly `width * height * 4` bytes, every byte pinned down by
/// `out_pixel_byte`. All malformed-input conditions resolve to an explicit
/// error or to the documented placeholder / transparent-black fallbacks;
/// the call never panics.
pub fn parse_ico(data: &Vec<u8>) -> (r: Result<DecodedImage, IcoError>)
    ensures
        match r {
            Ok(img) => {
                &&& decode_err(data@) is None
                &&& img.width as int == decoded_width(data@)
                &&& img.height as int == decoded_height(data@)
                &&& img.rgba@.len() == decoded_width(data@) * decoded_height(data@) * 4
                &&& forall|x: int, y: int, c: int|
                    0 <= x < decoded_width(data@) && 0 <= y < decoded_height(data@) && 0 <= c < 4
                        ==> img.rgba@[(y * decoded_width(data@) + x) * 4 + c] == #[trigger] out_pixel_byte(
                        data@,
                        x,
                        y,
                        c,
                    )
            },
            Err(e) => decode_err(data@) == Some(e),
        },
{
    let info = match read_container(data) {
        Ok(info) => info,
        Err(e) => {
            return Err(e);
        },
    };
    if info.payload_offset as usize > data.len() {
        return Err(IcoError::MalformedField);
    }
    let kind = classify_payload(data, info.payload_offset);
    transform_pixels(data, &info, kind)
}

/// Truncated-buffer law: any buffer shorter than the 22 bytes needed for
/// the directory header and first entry is rejected with `TruncatedInput`
/// (and so, by `parse_ico`'s contract, never decoded and never read out
/// of bounds).
pub proof fn lemma_short_buffer_rejected(data: Seq<u8>)
    requires
        data.len() < 22,
    ensures
        decode_err(data) == Some(IcoError::TruncatedInput),
{
}

/// Zero-encodes-256 law: a first directory entry whose stored width and
/// height bytes are both zero declares a 256 by 256 image.
pub proof fn lemma_zero_dim_is_256(data: Seq<u8>)
    requires
        data[6] == 0,
        data[7] == 0,
    ensures
        decoded_width(data) == 256,
        decoded_height(data) == 256,
{
}

/// PNG-signature law: whenever the payload begins with the PNG file
/// signature (and the container itself is readable), the decode succeeds
/// and every output byte is the fixed placeholder color, whatever the
/// rest of the payload holds.
pub proof fn lemma_png_means_placeholder(data: Seq<u8>, x: int, y: int, c: int)
    requires
        data.len() >= 22,
        payload_offset(data) <= data.len(),
        is_png_at(data, payload_offset(data)),
        0 <= c < 4,
    ensures
        decode_err(data) is None,
        out_pixel_byte(data, x, y, c) == placeholder_byte(c),
{
}

/// Unsupported-depth law: a bitmap payload whose bit-depth field is
/// anything other than 32 decodes to the placeholder fill, not to garbage
/// pixels.
pub proof fn lemma_unsupported_depth_placeholder(data: Seq<u8>, x: int, y: int, c: int)
    requires
        dib_bpp(data) != 32,
        0 <= c < 4,
    ensures
        out_pixel_byte(data, x, y, c) == placeholder_byte(c),
{
}

/// Channel-swap law: on the 32-bit bitmap path, every decoded pixel whose
/// four source bytes are in range carries the source B,G,R,A bytes
/// reordered as R,G,B,A. (That the output buffer has length exactly
/// `width * height * 4` is part of `parse_ico`'s contract.)
pub proof fn lemma_channel_swap(data: Seq<u8>, x: int, y: int)
    requires
        decode_err(data) is None,
        !placeholder_taken(data),
        0 <= x < decoded_width(data),
        0 <= y < decoded_height(data),
        dib_src_index(data, x, y) + 3 < data.len(),
    ensures
        out_pixel_byte(data, x, y, 0) == data[dib_src_index(data, x, y) + 2],
        out_pixel_byte(data, x, y, 1) == data[dib_src_index(data, x, y) + 1],
        out_pixel_byte(data, x, y, 2) == data[dib_src_index(data, x, y)],
        out_pixel_byte(data, x, y, 3) == data[dib_src_index(data, x, y) + 3],
{
}

/// Partial-payload resilience law, first half: whether the decode
/// succeeds depends only on the header, the payload offset and the
/// readability of the sub-header fields — never on how much pixel data
/// follows them.
pub proof fn lemma_partial_payload_still_ok(data: Seq<u8>)
    requires
        data.len() >= 22,
        payload_offset(data) <= data.len(),
        !is_png_at(data, payload_offset(data)) ==> payload_offset(data) + 16 <= data.len(),
    ensures
        decode_err(data) is None,
{
}

/// Partial-payload resilience law, second half: on the 32-bit bitmap
/// path, any destination pixel whose four source bytes do not fit in the
/// buffer comes out as zero — transparent black — rather than aborting
/// the decode.
pub proof fn lemma_truncated_pixel_is_blank(data: Seq<u8>, x: int, y: int, c: int)
    requires
        !placeholder_taken(data),
        0 <= c < 4,
        dib_src_index(data, x, y) + 3 >= data.len(),
    ensures
        out_pixel_byte(data, x, y, c) == 0,
{
}

} // verus!
