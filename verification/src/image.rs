//! The validated image container.
//!
//! An [`Image`] owns typed pixel storage for a fixed encoding and validated
//! dimensions. Raw byte buffers and typed scalar buffers are accepted only
//! through validating constructors that check the buffer's size — and, for
//! byte buffers, its base address's alignment — against the chosen encoding;
//! the accepted buffer is decoded, little-endian, into typed samples. A raw
//! buffer is therefore a validated conversion with copy semantics, never a
//! reinterpretation, and all later access is through typed views.

use vstd::prelude::*;

use vstd::arithmetic::div_mod::{
    lemma_fundamental_div_mod, lemma_fundamental_div_mod_converse_div,
    lemma_fundamental_div_mod_converse_mod,
};

use crate::errors::{ImageBufferError, InvalidBufferSizeError};
use crate::inner_image::{row_in_range, InnerImage};
use crate::pixels::PixelType;

verus! {

/// The little-endian value of the `nb` bytes of `bytes` starting at `base`.
pub open spec fn le_value(bytes: Seq<u8>, base: int, nb: int) -> int
    decreases nb,
{
    if nb <= 0 {
        0
    } else {
        bytes[base] + 0x100 * le_value(bytes, base + 1, nb - 1)
    }
}

/// Sample `i` of a raw buffer holding pixels of encoding `pt`: the
/// little-endian value of its scalar's bytes, two's-complement signed for
/// `I32` and unsigned for every other encoding.
pub open spec fn sample_from_bytes(bytes: Seq<u8>, pt: PixelType, i: int) -> int {
    let raw = le_value(bytes, i * pt.spec_scalar_size(), pt.spec_scalar_size() as int);
    if pt == PixelType::I32 && raw >= 0x8000_0000 {
        raw - 0x1_0000_0000
    } else {
        raw
    }
}

/// Byte `b` of the little-endian encoding of sample `v`; a negative sample
/// is encoded as its 32-bit two's complement.
pub open spec fn sample_byte(v: int, b: int) -> u8 {
    let u = if v < 0 {
        v + 0x1_0000_0000
    } else {
        v
    };
    let unit = if b == 0 {
        1
    } else if b == 1 {
        0x100
    } else if b == 2 {
        0x1_0000
    } else {
        0x100_0000
    };
    ((u / unit) % 0x100) as u8
}

/// The bytes a 16-bit scalar buffer occupies, little-endian.
pub open spec fn u16_bytes(s: Seq<u16>) -> Seq<u8> {
    Seq::new(
        (s.len() * 2) as nat,
        |i: int|
            if i % 2 == 0 {
                (s[i / 2] % 0x100) as u8
            } else {
                (s[i / 2] / 0x100) as u8
            },
    )
}

/// The bytes a 32-bit scalar buffer occupies, little-endian.
pub open spec fn u32_bytes(s: Seq<u32>) -> Seq<u8> {
    Seq::new(
        (s.len() * 4) as nat,
        |i: int|
            if i % 4 == 0 {
                (s[i / 4] % 0x100) as u8
            } else if i % 4 == 1 {
                ((s[i / 4] / 0x100) % 0x100) as u8
            } else if i % 4 == 2 {
                ((s[i / 4] / 0x1_0000) % 0x100) as u8
            } else {
                ((s[i / 4] / 0x100_0000) % 0x100) as u8
            },
    )
}

/// Relies on `<[u8]>::as_ptr`: returns the buffer's base address as an
/// integer. The address depends on where the caller's storage happens to
/// live, so nothing is promised about the value.
#[verifier::external_body]
fn base_address(buffer: &[u8]) -> usize {
    buffer.as_ptr() as usize
}

/// Spells a 16-bit scalar buffer out as its little-endian bytes.
fn u16s_to_bytes(buffer: &[u16]) -> (out: Vec<u8>)
    ensures
        out@ == u16_bytes(buffer@),
{
    let n: usize = buffer.len();
    proof {
        assert(u16_bytes(buffer@).len() == n * 2);
    }
    let mut out: Vec<u8> = Vec::new();
    let mut j: usize = 0;
    while j < n
        invariant
            j <= n,
            n == buffer@.len(),
            out@.len() == j * 2,
            forall|i: int| 0 <= i < j * 2 ==> #[trigger] out@[i] == u16_bytes(buffer@)[i],
        decreases n - j,
    {
        let v: u16 = buffer[j];
        proof {
            lemma_fundamental_div_mod_converse_div(2 * j, 2, j as int, 0);
            lemma_fundamental_div_mod_converse_mod(2 * j, 2, j as int, 0);
            lemma_fundamental_div_mod_converse_div(2 * j + 1, 2, j as int, 1);
            lemma_fundamental_div_mod_converse_mod(2 * j + 1, 2, j as int, 1);
        }
        out.push((v % 0x100) as u8);
        out.push((v / 0x100) as u8);
        j += 1;
    }
    proof {
        assert(out@ =~= u16_bytes(buffer@));
    }
    out
}

/// Spells a 32-bit scalar buffer out as its little-endian bytes.
fn u32s_to_bytes(buffer: &[u32]) -> (out: Vec<u8>)
    ensures
        out@ == u32_bytes(buffer@),
{
    let n: usize = buffer.len();
    proof {
        assert(u32_bytes(buffer@).len() == n * 4);
    }
    let mut out: Vec<u8> = Vec::new();
    let mut j: usize = 0;
    while j < n
        invariant
            j <= n,
            n == buffer@.len(),
            out@.len() == j * 4,
            forall|i: int| 0 <= i < j * 4 ==> #[trigger] out@[i] == u32_bytes(buffer@)[i],
        decreases n - j,
    {
        let v: u32 = buffer[j];
        proof {
            lemma_fundamental_div_mod_converse_div(4 * j, 4, j as int, 0);
            lemma_fundamental_div_mod_converse_mod(4 * j, 4, j as int, 0);
            lemma_fundamental_div_mod_converse_div(4 * j + 1, 4, j as int, 1);
            lemma_fundamental_div_mod_converse_mod(4 * j + 1, 4, j as int, 1);
            lemma_fundamental_div_mod_converse_div(4 * j + 2, 4, j as int, 2);
            lemma_fundamental_div_mod_converse_mod(4 * j + 2, 4, j as int, 2);
            lemma_fundamental_div_mod_converse_div(4 * j + 3, 4, j as int, 3);
            lemma_fundamental_div_mod_converse_mod(4 * j + 3, 4, j as int, 3);
        }
        out.push((v % 0x100) as u8);
        out.push(((v / 0x100) % 0x100) as u8);
        out.push(((v / 0x1_0000) % 0x100) as u8);
        out.push(((v / 0x100_0000) % 0x100) as u8);
        j += 1;
    }
    proof {
        assert(out@ =~= u32_bytes(buffer@));
    }
    out
}

/// Appends the `ss` little-endian bytes of sample `v`.
fn push_sample_bytes(out: &mut Vec<u8>, v: i64, ss: usize)
    requires
        ss == 1 || ss == 2 || ss == 4,
        -0x8000_0000 <= v <= 0xFFFF_FFFF,
    ensures
        final(out)@.len() == old(out)@.len() + ss,
        forall|b: int|
            0 <= b < ss ==> #[trigger] final(out)@[old(out)@.len() + b] == sample_byte(v as int, b),
        forall|i: int| 0 <= i < old(out)@.len() ==> #[trigger] final(out)@[i] == old(out)@[i],
{
    let u: i64 = if v < 0 {
        v + 0x1_0000_0000
    } else {
        v
    };
    proof {
        assert(u / 1 == u);
    }
    out.push((u % 0x100) as u8);
    if ss >= 2 {
        out.push(((u / 0x100) % 0x100) as u8);
    }
    if ss == 4 {
        out.push(((u / 0x1_0000) % 0x100) as u8);
        out.push(((u / 0x100_0000) % 0x100) as u8);
    }
}

/// Decodes scalar sample `i` of a raw pixel buffer.
fn decode_sample(bytes: &[u8], pt: PixelType, i: usize) -> (v: i64)
    requires
        pt.spec_scalar_size() * (i + 1) <= bytes@.len(),
    ensures
        v == sample_from_bytes(bytes@, pt, i as int),
        pt.spec_min_scalar() <= v <= pt.spec_max_scalar(),
{
    let ss: usize = pt.scalar_size() as usize;
    let bl: usize = bytes.len();
    proof {
        assert(ss * (i + 1) == i * ss + ss) by (nonlinear_arith);
        assert(i * ss >= 0) by (nonlinear_arith)
            requires
                i >= 0,
                ss >= 0,
        ;
        assert(i * ss + ss <= bl);
    }
    let base: usize = i * ss;
    if ss == 1 {
        let v = bytes[base] as i64;
        proof {
            reveal_with_fuel(le_value, 2);
            assert(pt != PixelType::I32);
        }
        v
    } else if ss == 2 {
        let v = bytes[base] as i64 + 0x100 * (bytes[base + 1] as i64);
        proof {
            reveal_with_fuel(le_value, 3);
            assert(pt != PixelType::I32);
        }
        v
    } else {
        let v: i64 = bytes[base] as i64 + 0x100 * (bytes[base + 1] as i64 + 0x100 * (bytes[base
            + 2] as i64 + 0x100 * (bytes[base + 3] as i64)));
        proof {
            assert(ss == 4);
            reveal_with_fuel(le_value, 5);
        }
        if pt == PixelType::I32 && v >= 0x8000_0000 {
            v - 0x1_0000_0000
        } else {
            v
        }
    }
}

/// Decodes a whole raw buffer into typed rows.
fn decode_rows(bytes: &[u8], width: u32, height: u32, pt: PixelType) -> (img: InnerImage)
    requires
        width >= 1,
        height >= 1,
        bytes@.len() == width * height * pt.spec_size(),
    ensures
        img.wf(),
        img.width == width,
        img.height == height,
        img.pixel_type == pt,
        forall|r: int, x: int|
            0 <= r < height && 0 <= x < width * pt.spec_channels() ==> #[trigger] img@[r][x]
                == sample_from_bytes(bytes@, pt, r * (width * pt.spec_channels()) + x),
{
    let ch: usize = pt.channels() as usize;
    let ss: usize = pt.scalar_size() as usize;
    let len: usize = bytes.len();
    proof {
        assert(width * height * (ch * ss) == (width * height * ch) * ss) by (nonlinear_arith);
        assert(width * height * ch <= (width * height * ch) * ss) by (nonlinear_arith)
            requires
                ss >= 1,
                width * height * ch >= 0,
        ;
        assert(width * height * ch >= 0) by (nonlinear_arith)
            requires
                width >= 0,
                height >= 0,
                ch >= 0,
        ;
        assert((width * height) * ch == width * height * ch) by (nonlinear_arith);
        assert(width * height >= 0) by (nonlinear_arith)
            requires
                width >= 0,
                height >= 0,
        ;
        assert(width * height <= width * height * ch) by (nonlinear_arith)
            requires
                ch >= 1,
                width * height >= 0,
        ;
    }
    let count: usize = (width as usize) * (height as usize) * ch;
    let mut samples: Vec<i64> = Vec::new();
    let mut i: usize = 0;
    while i < count
        invariant
            i <= count,
            ch == pt.spec_channels(),
            ss == pt.spec_scalar_size(),
            count == width * height * ch,
            count * ss == bytes@.len(),
            samples@.len() == i,
            forall|j: int|
                0 <= j < i ==> #[trigger] samples@[j] == sample_from_bytes(bytes@, pt, j),
            row_in_range(samples@, pt.spec_min_scalar(), pt.spec_max_scalar()),
        decreases count - i,
    {
        proof {
            assert(ss * (i + 1) <= ss * count) by (nonlinear_arith)
                requires
                    i + 1 <= count,
                    ss >= 0,
            ;
            assert(ss * count == count * ss) by (nonlinear_arith);
        }
        let v = decode_sample(bytes, pt, i);
        samples.push(v);
        i += 1;
    }
    proof {
        assert(width * height * ch == width * height * pt.spec_channels());
        assert(count == width * height * pt.spec_channels());
    }
    let img = InnerImage::new(width, height, pt, samples);
    proof {
        assert forall|r: int, x: int|
            0 <= r < height && 0 <= x < width * pt.spec_channels() implies #[trigger] img@[r][x]
            == sample_from_bytes(bytes@, pt, r * (width * pt.spec_channels()) + x) by {
            let rl = width * pt.spec_channels();
            assert(0 <= r * rl + x < height * rl) by (nonlinear_arith)
                requires
                    0 <= r < height,
                    0 <= x < rl,
                    rl >= 0,
            ;
            assert(height * rl == width * height * pt.spec_channels()) by (nonlinear_arith)
                requires
                    rl == width * pt.spec_channels(),
            ;
        }
    }
    img
}

/// Simple image container: validated dimensions, a fixed pixel encoding and
/// typed pixel storage.
pub struct Image {
    /// The typed pixel storage; well-formed for every image a constructor
    /// returns.
    pub pixels: InnerImage,
}

impl Image {
    /// Structural invariant: the typed storage is well-formed.
    pub open spec fn wf(self) -> bool {
        self.pixels.wf()
    }

    /// Create an empty (all samples zero) image of the given dimensions and
    /// pixel encoding.
    pub fn new(width: u32, height: u32, pixel_type: PixelType) -> (img: Image)
        requires
            width >= 1,
            height >= 1,
            width * height * pixel_type.spec_size() <= usize::MAX,
        ensures
            img.wf(),
            img.pixels.width == width,
            img.pixels.height == height,
            img.pixels.pixel_type == pixel_type,
            forall|r: int, x: int|
                0 <= r < height && 0 <= x < width * pixel_type.spec_channels()
                    ==> #[trigger] img.pixels@[r][x] == 0,
    {
        let ch: usize = pixel_type.channels() as usize;
        proof {
            assert(width * height * (ch * pixel_type.spec_scalar_size()) == (width * height * ch)
                * pixel_type.spec_scalar_size()) by (nonlinear_arith);
            assert(width * height * ch <= (width * height * ch) * pixel_type.spec_scalar_size())
                by (nonlinear_arith)
                requires
                    pixel_type.spec_scalar_size() >= 1,
                    width * height * ch >= 0,
            ;
            assert(width * height * ch >= 0) by (nonlinear_arith)
                requires
                    width >= 0,
                    height >= 0,
                    ch >= 0,
            ;
            assert((width * height) * ch == width * height * ch) by (nonlinear_arith);
            assert(width * height >= 0) by (nonlinear_arith)
                requires
                    width >= 0,
                    height >= 0,
            ;
            assert(width * height <= width * height * ch) by (nonlinear_arith)
                requires
                    ch >= 1,
                    width * height >= 0,
            ;
            assert(width * height * pixel_type.spec_size() == width * height * (ch
                * pixel_type.spec_scalar_size()));
        }
        let count: usize = (width as usize) * (height as usize) * ch;
        let mut samples: Vec<i64> = Vec::new();
        let mut i: usize = 0;
        while i < count
            invariant
                i <= count,
                samples@.len() == i,
                forall|j: int| 0 <= j < i ==> #[trigger] samples@[j] == 0,
            decreases count - i,
        {
            samples.push(0);
            i += 1;
        }
        proof {
            assert(row_in_range(
                samples@,
                pixel_type.spec_min_scalar(),
                pixel_type.spec_max_scalar(),
            ));
            assert(count == width * height * pixel_type.spec_channels());
        }
        let img = Image { pixels: InnerImage::new(width, height, pixel_type, samples) };
        proof {
            assert forall|r: int, x: int|
                0 <= r < height && 0 <= x < width * pixel_type.spec_channels()
                    implies #[trigger] img.pixels@[r][x] == 0 by {
                let rl = width * pixel_type.spec_channels();
                assert(0 <= r * rl + x < height * rl) by (nonlinear_arith)
                    requires
                        0 <= r < height,
                        0 <= x < rl,
                        rl >= 0,
                ;
                assert(height * rl == width * height * pixel_type.spec_channels())
                    by (nonlinear_arith)
                    requires
                        rl == width * pixel_type.spec_channels(),
                ;
            }
        }
        img
    }

    /// Validated wrap of a raw byte buffer whose alignment the caller has
    /// already probed: `aligned` says whether the buffer's base address is a
    /// multiple of the encoding's scalar width. Fails with
    /// `InvalidBufferSize` exactly when the byte length is not
    /// `width * height * pixel_size`; fails with `InvalidBufferAlignment`
    /// exactly when the length is right but the encoding needs scalars wider
    /// than one byte and the buffer is not aligned; succeeds otherwise, with
    /// the buffer decoded little-endian into typed samples.
    pub fn from_bytes_checked(
        width: u32,
        height: u32,
        buffer: &[u8],
        pixel_type: PixelType,
        aligned: bool,
    ) -> (r: Result<Image, ImageBufferError>)
        requires
            width >= 1,
            height >= 1,
            width * height * pixel_type.spec_size() <= usize::MAX,
        ensures
            buffer@.len() != width * height * pixel_type.spec_size() <==> r == Err::<
                Image,
                _,
            >(ImageBufferError::InvalidBufferSize),
            (buffer@.len() == width * height * pixel_type.spec_size()
                && pixel_type.spec_scalar_size() > 1 && !aligned) <==> r == Err::<Image, _>(
                ImageBufferError::InvalidBufferAlignment,
            ),
            r is Ok ==> {
                let img = r->Ok_0;
                &&& img.wf()
                &&& img.pixels.width == width
                &&& img.pixels.height == height
                &&& img.pixels.pixel_type == pixel_type
                &&& forall|rr: int, x: int|
                    0 <= rr < height && 0 <= x < width * pixel_type.spec_channels()
                        ==> #[trigger] img.pixels@[rr][x] == sample_from_bytes(
                        buffer@,
                        pixel_type,
                        rr * (width * pixel_type.spec_channels()) + x,
                    )
            },
    {
        let ch: usize = pixel_type.channels() as usize;
        let ss: usize = pixel_type.scalar_size() as usize;
        proof {
            assert(ch <= 4 && ss <= 4);
            assert((width * height) * (ch * ss) == width * height * (ch * ss))
                by (nonlinear_arith);
            assert(width * height >= 0) by (nonlinear_arith)
                requires
                    width >= 0,
                    height >= 0,
            ;
            assert(width * height <= (width * height) * (ch * ss)) by (nonlinear_arith)
                requires
                    ch * ss >= 1,
                    width * height >= 0,
            ;
            assert(pixel_type.spec_size() == ch * ss);
        }
        let expected: usize = (width as usize) * (height as usize) * (ch * ss);
        if buffer.len() != expected {
            return Err(ImageBufferError::InvalidBufferSize);
        }
        if ss > 1 && !aligned {
            return Err(ImageBufferError::InvalidBufferAlignment);
        }
        Ok(Image { pixels: decode_rows(buffer, width, height, pixel_type) })
    }

    /// Validated wrap of caller-supplied byte storage, owned. Size and
    /// alignment are checked as in [`Image::from_bytes_checked`]; alignment
    /// is probed from the buffer's actual base address, so on a misaligned
    /// allocation a multi-byte encoding is rejected.
    pub fn from_vec_u8(width: u32, height: u32, buffer: Vec<u8>, pixel_type: PixelType) -> (r:
        Result<Image, ImageBufferError>)
        requires
            width >= 1,
            height >= 1,
            width * height * pixel_type.spec_size() <= usize::MAX,
        ensures
            buffer@.len() != width * height * pixel_type.spec_size() <==> r == Err::<
                Image,
                _,
            >(ImageBufferError::InvalidBufferSize),
            buffer@.len() == width * height * pixel_type.spec_size()
                && pixel_type.spec_scalar_size() == 1 ==> r is Ok,
            r == Err::<Image, _>(ImageBufferError::InvalidBufferAlignment) ==> buffer@.len()
                == width * height * pixel_type.spec_size() && pixel_type.spec_scalar_size() > 1,
            r is Ok ==> {
                let img = r->Ok_0;
                &&& img.wf()
                &&& img.pixels.width == width
                &&& img.pixels.height == height
                &&& img.pixels.pixel_type == pixel_type
                &&& forall|rr: int, x: int|
                    0 <= rr < height && 0 <= x < width * pixel_type.spec_channels()
                        ==> #[trigger] img.pixels@[rr][x] == sample_from_bytes(
                        buffer@,
                        pixel_type,
                        rr * (width * pixel_type.spec_channels()) + x,
                    )
            },
    {
        let aligned = Self::probe_alignment(buffer.as_slice(), pixel_type);
        let r = Self::from_bytes_checked(width, height, buffer.as_slice(), pixel_type, aligned);
        proof {
            if buffer@.len() == width * height * pixel_type.spec_size()
                && pixel_type.spec_scalar_size() == 1 && r is Err {
                let e = r->Err_0;
                assert(r == Err::<Image, ImageBufferError>(e));
                assert(e == ImageBufferError::InvalidBufferSize || e
                    == ImageBufferError::InvalidBufferAlignment);
            }
        }
        r
    }

    /// Validated wrap of caller-supplied byte storage, borrowed and copied.
    /// Size and alignment are checked as in [`Image::from_bytes_checked`]; a
    /// slice taken at an odd offset of a wider allocation is rejected for
    /// multi-byte encodings.
    pub fn from_slice_u8(width: u32, height: u32, buffer: &[u8], pixel_type: PixelType) -> (r:
        Result<Image, ImageBufferError>)
        requires
            width >= 1,
            height >= 1,
            width * height * pixel_type.spec_size() <= usize::MAX,
        ensures
            buffer@.len() != width * height * pixel_type.spec_size() <==> r == Err::<
                Image,
                _,
            >(ImageBufferError::InvalidBufferSize),
            buffer@.len() == width * height * pixel_type.spec_size()
                && pixel_type.spec_scalar_size() == 1 ==> r is Ok,
            r == Err::<Image, _>(ImageBufferError::InvalidBufferAlignment) ==> buffer@.len()
                == width * height * pixel_type.spec_size() && pixel_type.spec_scalar_size() > 1,
            r is Ok ==> {
                let img = r->Ok_0;
                &&& img.wf()
                &&& img.pixels.width == width
                &&& img.pixels.height == height
                &&& img.pixels.pixel_type == pixel_type
                &&& forall|rr: int, x: int|
                    0 <= rr < height && 0 <= x < width * pixel_type.spec_channels()
                        ==> #[trigger] img.pixels@[rr][x] == sample_from_bytes(
                        buffer@,
                        pixel_type,
                        rr * (width * pixel_type.spec_channels()) + x,
                    )
            },
    {
        let aligned = Self::probe_alignment(buffer, pixel_type);
        let r = Self::from_bytes_checked(width, height, buffer, pixel_type, aligned);
        proof {
            if buffer@.len() == width * height * pixel_type.spec_size()
                && pixel_type.spec_scalar_size() == 1 && r is Err {
                let e = r->Err_0;
                assert(r == Err::<Image, ImageBufferError>(e));
                assert(e == ImageBufferError::InvalidBufferSize || e
                    == ImageBufferError::InvalidBufferAlignment);
            }
        }
        r
    }

    /// Validated wrap of a borrowed 32-bit scalar buffer, copied. Typed
    /// storage is always aligned, so only the size can be wrong: fails
    /// exactly when the buffer's byte length is not
    /// `width * height * pixel_size`.
    pub fn from_slice_u32(width: u32, height: u32, buffer: &[u32], pixel_type: PixelType) -> (r:
        Result<Image, InvalidBufferSizeError>)
        requires
            width >= 1,
            height >= 1,
            width * height * pixel_type.spec_size() <= usize::MAX,
        ensures
            r is Ok <==> buffer@.len() * 4 == width * height * pixel_type.spec_size(),
            r is Err ==> r == Err::<Image, InvalidBufferSizeError>(InvalidBufferSizeError),
            r is Ok ==> {
                let img = r->Ok_0;
                &&& img.wf()
                &&& img.pixels.width == width
                &&& img.pixels.height == height
                &&& img.pixels.pixel_type == pixel_type
                &&& forall|rr: int, x: int|
                    0 <= rr < height && 0 <= x < width * pixel_type.spec_channels()
                        ==> #[trigger] img.pixels@[rr][x] == sample_from_bytes(
                        u32_bytes(buffer@),
                        pixel_type,
                        rr * (width * pixel_type.spec_channels()) + x,
                    )
            },
    {
        let ch: usize = pixel_type.channels() as usize;
        let ss: usize = pixel_type.scalar_size() as usize;
        proof {
            assert(ch <= 4 && ss <= 4);
            assert((width * height) * (ch * ss) == width * height * (ch * ss))
                by (nonlinear_arith);
            assert(width * height >= 0) by (nonlinear_arith)
                requires
                    width >= 0,
                    height >= 0,
            ;
            assert(width * height <= (width * height) * (ch * ss)) by (nonlinear_arith)
                requires
                    ch * ss >= 1,
                    width * height >= 0,
            ;
            assert(pixel_type.spec_size() == ch * ss);
        }
        let expected: usize = (width as usize) * (height as usize) * (ch * ss);
        if expected % 4 != 0 || buffer.len() != expected / 4 {
            proof {
                if buffer@.len() * 4 == expected {
                    lemma_fundamental_div_mod_converse_div(
                        expected as int,
                        4,
                        buffer@.len() as int,
                        0,
                    );
                    lemma_fundamental_div_mod_converse_mod(
                        expected as int,
                        4,
                        buffer@.len() as int,
                        0,
                    );
                }
            }
            return Err(InvalidBufferSizeError);
        }
        proof {
            lemma_fundamental_div_mod(expected as int, 4);
        }
        let bytes = u32s_to_bytes(buffer);
        Ok(Image { pixels: decode_rows(bytes.as_slice(), width, height, pixel_type) })
    }

    /// Validated wrap of an owned 32-bit scalar buffer; size is checked as
    /// in [`Image::from_slice_u32`].
    pub fn from_vec_u32(width: u32, height: u32, buffer: Vec<u32>, pixel_type: PixelType) -> (r:
        Result<Image, InvalidBufferSizeError>)
        requires
            width >= 1,
            height >= 1,
            width * height * pixel_type.spec_size() <= usize::MAX,
        ensures
            r is Ok <==> buffer@.len() * 4 == width * height * pixel_type.spec_size(),
            r is Err ==> r == Err::<Image, InvalidBufferSizeError>(InvalidBufferSizeError),
            r is Ok ==> {
                let img = r->Ok_0;
                &&& img.wf()
                &&& img.pixels.width == width
                &&& img.pixels.height == height
                &&& img.pixels.pixel_type == pixel_type
                &&& forall|rr: int, x: int|
                    0 <= rr < height && 0 <= x < width * pixel_type.spec_channels()
                        ==> #[trigger] img.pixels@[rr][x] == sample_from_bytes(
                        u32_bytes(buffer@),
                        pixel_type,
                        rr * (width * pixel_type.spec_channels()) + x,
                    )
            },
    {
        Self::from_slice_u32(width, height, buffer.as_slice(), pixel_type)
    }

    /// Validated wrap of a borrowed 16-bit scalar buffer, copied. Typed
    /// storage is always aligned, so only the size can be wrong: fails
    /// exactly when the buffer's byte length is not
    /// `width * height * pixel_size`.
    pub fn from_slice_u16(width: u32, height: u32, buffer: &[u16], pixel_type: PixelType) -> (r:
        Result<Image, InvalidBufferSizeError>)
        requires
            width >= 1,
            height >= 1,
            width * height * pixel_type.spec_size() <= usize::MAX,
        ensures
            r is Ok <==> buffer@.len() * 2 == width * height * pixel_type.spec_size(),
            r is Err ==> r == Err::<Image, InvalidBufferSizeError>(InvalidBufferSizeError),
            r is Ok ==> {
                let img = r->Ok_0;
                &&& img.wf()
                &&& img.pixels.width == width
                &&& img.pixels.height == height
                &&& img.pixels.pixel_type == pixel_type
                &&& forall|rr: int, x: int|
                    0 <= rr < height && 0 <= x < width * pixel_type.spec_channels()
                        ==> #[trigger] img.pixels@[rr][x] == sample_from_bytes(
                        u16_bytes(buffer@),
                        pixel_type,
                        rr * (width * pixel_type.spec_channels()) + x,
                    )
            },
    {
        let ch: usize = pixel_type.channels() as usize;
        let ss: usize = pixel_type.scalar_size() as usize;
        proof {
            assert(ch <= 4 && ss <= 4);
            assert((width * height) * (ch * ss) == width * height * (ch * ss))
                by (nonlinear_arith);
            assert(width * height >= 0) by (nonlinear_arith)
                requires
                    width >= 0,
                    height >= 0,
            ;
            assert(width * height <= (width * height) * (ch * ss)) by (nonlinear_arith)
                requires
                    ch * ss >= 1,
                    width * height >= 0,
            ;
            assert(pixel_type.spec_size() == ch * ss);
        }
        let expected: usize = (width as usize) * (height as usize) * (ch * ss);
        if expected % 2 != 0 || buffer.len() != expected / 2 {
            proof {
                if buffer@.len() * 2 == expected {
                    lemma_fundamental_div_mod_converse_div(
                        expected as int,
                        2,
                        buffer@.len() as int,
                        0,
                    );
                    lemma_fundamental_div_mod_converse_mod(
                        expected as int,
                        2,
                        buffer@.len() as int,
                        0,
                    );
                }
            }
            return Err(InvalidBufferSizeError);
        }
        proof {
            lemma_fundamental_div_mod(expected as int, 2);
        }
        let bytes = u16s_to_bytes(buffer);
        Ok(Image { pixels: decode_rows(bytes.as_slice(), width, height, pixel_type) })
    }

    /// The image's pixels as raw bytes, little-endian scalar by scalar: the
    /// byte at position `p` is byte `p % ss` of flat sample `p / ss`, where
    /// `ss` is the scalar width.
    pub fn buffer(&self) -> (r: Vec<u8>)
        requires
            self.wf(),
        ensures
            r@.len() == self.pixels.height * self.pixels.spec_row_len()
                * self.pixels.pixel_type.spec_scalar_size(),
            forall|p: int|
                0 <= p < r@.len() ==> #[trigger] r@[p] == sample_byte(
                self.pixels@[(p / self.pixels.pixel_type.spec_scalar_size() as int)
                    / self.pixels.spec_row_len()][(p
                    / self.pixels.pixel_type.spec_scalar_size() as int)
                    % self.pixels.spec_row_len()] as int,
                p % self.pixels.pixel_type.spec_scalar_size() as int,
            ),
    {
        let ss: usize = self.pixels.pixel_type.scalar_size() as usize;
        let h: usize = self.pixels.height as usize;
        proof {
            assert(self.pixels.rows@[0]@.len() == self.pixels.spec_row_len());
        }
        let rl: usize = self.pixels.rows[0].len();
        let mut out: Vec<u8> = Vec::new();
        let mut rr: usize = 0;
        while rr < h
            invariant
                rr <= h,
                self.wf(),
                ss == self.pixels.pixel_type.spec_scalar_size(),
                h == self.pixels.height,
                rl == self.pixels.spec_row_len(),
                out@.len() == (rr * rl) * ss,
                forall|p: int|
                    0 <= p < out@.len() ==> #[trigger] out@[p] == sample_byte(
                        self.pixels@[(p / (ss as int)) / (rl as int)][(p / (ss as int)) % (
                        rl as int)] as int,
                        p % (ss as int),
                    ),
            decreases h - rr,
        {
            let row: &Vec<i64> = &self.pixels.rows[rr];
            let mut x: usize = 0;
            while x < rl
                invariant
                    x <= rl,
                    rr < h,
                    self.wf(),
                    ss == self.pixels.pixel_type.spec_scalar_size(),
                    h == self.pixels.height,
                    rl == self.pixels.spec_row_len(),
                    row@ == self.pixels@[rr as int],
                    out@.len() == (rr * rl + x) * ss,
                    forall|p: int|
                        0 <= p < out@.len() ==> #[trigger] out@[p] == sample_byte(
                            self.pixels@[(p / (ss as int)) / (rl as int)][(p / (ss as int)) % (
                            rl as int)] as int,
                            p % (ss as int),
                        ),
                decreases rl - x,
            {
                let v: i64 = row[x];
                proof {
                    let i0 = (rr * rl + x) as int;
                    assert((i0 + 1) * ss == i0 * ss + ss) by (nonlinear_arith);
                    lemma_fundamental_div_mod_converse_div(i0, rl as int, rr as int, x as int);
                    lemma_fundamental_div_mod_converse_mod(i0, rl as int, rr as int, x as int);
                }
                push_sample_bytes(&mut out, v, ss);
                proof {
                    let i0 = (rr * rl + x) as int;
                    assert forall|p: int| #![trigger out@[p]] i0 * ss <= p < i0 * ss + ss implies out@[p]
                        == sample_byte(
                        self.pixels@[(p / (ss as int)) / (rl as int)][(p / (ss as int)) % (
                        rl as int)] as int,
                        p % (ss as int),
                    ) by {
                        lemma_fundamental_div_mod_converse_div(p, ss as int, i0, p - i0 * ss);
                        lemma_fundamental_div_mod_converse_mod(p, ss as int, i0, p - i0 * ss);
                        assert(out@[i0 * ss + (p - i0 * ss)] == sample_byte(v as int, p - i0 * ss));
                    }
                }
                x += 1;
            }
            proof {
                assert((rr * rl + rl) * ss == ((rr + 1) * rl) * ss) by (nonlinear_arith);
            }
            rr += 1;
        }
        proof {
            assert((h * rl) * ss == self.pixels.height * self.pixels.spec_row_len()
                * self.pixels.pixel_type.spec_scalar_size()) by (nonlinear_arith)
                requires
                    h == self.pixels.height,
                    rl == self.pixels.spec_row_len(),
                    ss == self.pixels.pixel_type.spec_scalar_size(),
            ;
        }
        out
    }

    /// Whether the buffer's base address is a multiple of the encoding's
    /// scalar width. The address is machine-chosen, so the result is an
    /// observation, not a function of the buffer's contents.
    fn probe_alignment(buffer: &[u8], pixel_type: PixelType) -> bool {
        let align: usize = pixel_type.scalar_size() as usize;
        let addr: usize = base_address(buffer);
        addr % align == 0
    }

    /// The pixel encoding this image was constructed with.
    pub fn pixel_type(&self) -> (r: PixelType)
        ensures
            r == self.pixels.pixel_type,
    {
        self.pixels.pixel_type
    }

    /// Width in pixels.
    pub fn width(&self) -> (r: u32)
        ensures
            r == self.pixels.width,
    {
        self.pixels.width
    }

    /// Height in pixels.
    pub fn height(&self) -> (r: u32)
        ensures
            r == self.pixels.height,
    {
        self.pixels.height
    }

    /// Read-only typed view of the pixels.
    pub fn view(&self) -> (r: &InnerImage)
        ensures
            *r == self.pixels,
    {
        &self.pixels
    }

    /// Mutable typed view of the pixels: the rows reached through it are the
    /// image's own rows, and nothing else of the image can change through
    /// it.
    pub fn view_mut(&mut self) -> (r: &mut InnerImage)
        ensures
            *r == old(self).pixels,
            final(self).pixels == *final(r),
    {
        &mut self.pixels
    }
}

} // verus!
