use vstd::prelude::*;

use vstd::arithmetic::div_mod::lemma_basic_div;
use vstd::arithmetic::power2::{
    lemma2_to64, lemma2_to64_rest, lemma_pow2_adds, lemma_pow2_pos, lemma_pow2_strictly_increases,
    pow2,
};

verus! {

/// The per-pixel record layout a compiled kernel set writes: four float32
/// channels (16 bytes per pixel, scaled to 8 bits on decode) or four native
/// uint8 channels (4 bytes per pixel, copied through on decode).
#[derive(Clone, Copy, Debug, PartialEq, Eq, Structural)]
pub enum RecordLayout {
    Float32x4,
    Uint8x4,
}

/// Bytes per pixel record under a layout.
pub open spec fn spec_record_size(layout: RecordLayout) -> int {
    match layout {
        RecordLayout::Float32x4 => 16,
        RecordLayout::Uint8x4 => 4,
    }
}

/// Bytes per pixel record under a layout: 16 for four float32 channels,
/// 4 for four uint8 channels.
pub fn record_size(layout: RecordLayout) -> (r: u32)
    ensures
        r == spec_record_size(layout),
{
    match layout {
        RecordLayout::Float32x4 => 16,
        RecordLayout::Uint8x4 => 4,
    }
}

/// The exact byte size of a readback for a `width` by `height` image.
pub open spec fn spec_output_size(width: int, height: int, layout: RecordLayout) -> int {
    width * height * spec_record_size(layout)
}

/// The byte size of the kernel output and of the staging resource for one
/// render: `width * height * record_size`.
pub fn output_size_bytes(width: u32, height: u32, layout: RecordLayout) -> (r: u64)
    requires
        spec_output_size(width as int, height as int, layout) <= u64::MAX,
    ensures
        r == spec_output_size(width as int, height as int, layout),
{
    proof {
        assert(width as int * height as int <= 0xffffffffu64 * 0xffffffffu64)
            by (nonlinear_arith)
            requires
                0 <= width as int <= 0xffffffffu64,
                0 <= height as int <= 0xffffffffu64,
        ;
    }
    let wh: u64 = (width as u64) * (height as u64);
    wh * (record_size(layout) as u64)
}

/// The little-endian 32-bit value stored in the four bytes at offset `j`.
pub open spec fn spec_le_u32_at(bytes: Seq<u8>, j: int) -> int {
    bytes[j] + 256 * bytes[j + 1] + 65536 * bytes[j + 2] + 16777216 * bytes[j + 3]
}

/// Reads a little-endian 32-bit value out of four bytes.
pub fn le_u32(b0: u8, b1: u8, b2: u8, b3: u8) -> (r: u32)
    ensures
        r == b0 + 256 * b1 + 65536 * b2 + 16777216 * b3,
{
    (b0 as u32) + 256 * (b1 as u32) + 65536 * (b2 as u32) + 16777216 * (b3 as u32)
}

/// The 8-bit channel value for an IEEE-754 single-precision bit pattern,
/// as an exact function of the bits: the nearest integer to 255 times the
/// encoded value (ties rounded up), clamped to `[0, 255]`. Negative values,
/// negative zero and NaN clamp to 0; values of 1.0 and above, and positive
/// infinity, clamp to 255. For a finite value `v` strictly between 0 and 1
/// with significand `m` and scale `2^shift` (so `v == m / 2^shift`), the
/// result is `(m * 255 + 2^(shift-1)) / 2^shift` rounded down: the nearest
/// integer to `v * 255`.
pub open spec fn spec_unorm8(bits: u32) -> u8 {
    let exp = (bits >> 23) & 0xff;
    let frac = bits & 0x7fffff;
    if bits >> 31 == 1 {
        0u8
    } else if exp == 255 {
        if frac == 0 {
            255u8
        } else {
            0u8
        }
    } else if exp >= 127 {
        255u8
    } else {
        let m: int = if exp == 0 {
            frac as int
        } else {
            0x800000 + frac
        };
        let shift: nat = (150 - (if exp == 0 {
            1int
        } else {
            exp as int
        })) as nat;
        (((m * 255 + pow2((shift - 1) as nat)) / pow2(shift) as int) as u8)
    }
}

/// One `2^k` as a machine word.
fn pow2_u64(k: u32) -> (r: u64)
    requires
        k <= 63,
    ensures
        r == pow2(k as nat),
{
    let mut r: u64 = 1;
    let mut i: u32 = 0;
    proof {
        lemma2_to64();
    }
    while i < k
        invariant
            i <= k,
            k <= 63,
            r == pow2(i as nat),
        decreases k - i,
    {
        proof {
            if (i as nat) < 63 {
                lemma_pow2_strictly_increases(i as nat, 63);
            }
            lemma2_to64_rest();
            lemma_pow2_adds(i as nat, 1);
            lemma2_to64();
        }
        r = r * 2;
        i = i + 1;
    }
    r
}

/// Scales one float32 channel, given as its bit pattern, to its 8-bit value.
pub fn unorm8_from_f32_bits(bits: u32) -> (r: u8)
    ensures
        r == spec_unorm8(bits),
{
    let sign: u32 = bits >> 31;
    let exp: u32 = (bits >> 23) & 0xff;
    let frac: u32 = bits & 0x7fffff;
    if sign == 1 {
        0
    } else if exp == 255 {
        if frac == 0 {
            255
        } else {
            0
        }
    } else if exp >= 127 {
        255
    } else {
        proof {
            assert(bits & 0x7fffff <= 0x7fffff) by (bit_vector);
            assert((bits >> 23) & 0xff <= 0xff) by (bit_vector);
        }
        let m: u64 = if exp == 0 {
            frac as u64
        } else {
            0x800000u64 + (frac as u64)
        };
        let e_eff: u32 = if exp == 0 {
            1
        } else {
            exp
        };
        let shift: u32 = 150 - e_eff;
        let ghost spec_shift: nat = (150 - (if exp == 0 {
            1int
        } else {
            exp as int
        })) as nat;
        proof {
            assert(shift as nat == spec_shift);
            assert(24 <= shift <= 149);
        }
        if shift >= 33 {
            proof {
                lemma2_to64();
                if (shift - 1) as nat > 32 {
                    lemma_pow2_strictly_increases(32, (shift - 1) as nat);
                } else {
                    assert(pow2(32) == 0x100000000) by {
                        lemma_pow2_adds(31, 1);
                    };
                }
                assert(pow2(32) == 0x100000000) by {
                    lemma_pow2_adds(31, 1);
                    lemma2_to64();
                };
                assert(m * 255 < pow2(32));
                assert(pow2((shift - 1) as nat) >= pow2(32));
                lemma_pow2_adds((shift - 1) as nat, 1);
                lemma_pow2_pos((shift - 1) as nat);
                assert(m * 255 + pow2((shift - 1) as nat) < pow2(shift as nat));
                lemma_basic_div(m * 255 + pow2((shift - 1) as nat), pow2(shift as nat) as int);
            }
            0
        } else {
            let p_half: u64 = pow2_u64(shift - 1);
            let p: u64 = pow2_u64(shift);
            proof {
                lemma_pow2_pos((shift - 1) as nat);
                lemma_pow2_adds((shift - 1) as nat, 1);
                lemma2_to64();
                assert(p == 2 * p_half);
                if 24 < shift {
                    lemma_pow2_strictly_increases(24, shift as nat);
                }
                assert(pow2(24) == 0x1000000);
                assert(m <= 0xffffff);
                assert(m < p);
                assert(m * 255 <= (p - 1) * 255) by (nonlinear_arith)
                    requires
                        0 <= m,
                        m <= p - 1,
                ;
                assert(m * 255 + p_half < 256 * (p as int));
            }
            let v: u64 = (m * 255 + p_half) / p;
            proof {
                assert(v < 256) by (nonlinear_arith)
                    requires
                        v == (m * 255 + p_half) as int / (p as int),
                        m * 255 + p_half < 256 * (p as int),
                        0 <= m,
                        0 < p,
                ;
            }
            v as u8
        }
    }
}

/// Each four-byte group of a float32 readback, decoded to its 8-bit value:
/// output byte `i` is the scaled value of the float stored at bytes
/// `4*i .. 4*i + 4`.
pub open spec fn spec_decode_floats(bytes: Seq<u8>) -> Seq<u8> {
    Seq::new((bytes.len() / 4) as nat, |i: int| spec_unorm8_of(bytes, 4 * i))
}

/// The scaled 8-bit value of the float32 stored at byte offset `j`.
pub open spec fn spec_unorm8_of(bytes: Seq<u8>, j: int) -> u8 {
    spec_unorm8(spec_le_u32_at(bytes, j) as u32)
}

/// Decodes a readback into `width * height` RGBA8 pixels, row-major.
///
/// Exactly the byte sequences of the declared size decode; any other length
/// yields `None`. Under `Uint8x4` the bytes already are the pixels and pass
/// through unchanged; under `Float32x4` each four-byte group is one float32
/// channel and becomes its scaled 8-bit value, so pixel `(x, y)` of the
/// output comes from the record at byte offset `(y * width + x) * 16`.
pub fn decode_rgba8(bytes: &Vec<u8>, width: u32, height: u32, layout: RecordLayout) -> (r: Option<
    Vec<u8>,
>)
    requires
        spec_output_size(width as int, height as int, layout) <= u64::MAX,
    ensures
        r is Some <==> bytes@.len() == spec_output_size(width as int, height as int, layout),
        r is Some ==> r.unwrap()@.len() == width as int * height as int * 4,
        r is Some && layout == RecordLayout::Uint8x4 ==> r.unwrap()@ == bytes@,
        r is Some && layout == RecordLayout::Float32x4 ==> r.unwrap()@ == spec_decode_floats(
            bytes@,
        ),
{
    let expected: u64 = output_size_bytes(width, height, layout);
    if bytes.len() as u64 != expected {
        return None;
    }
    let n: usize = bytes.len();
    match layout {
        RecordLayout::Uint8x4 => {
            let mut out: Vec<u8> = Vec::new();
            let mut i: usize = 0;
            while i < n
                invariant
                    n == bytes@.len(),
                    0 <= i <= n,
                    out@ =~= bytes@.take(i as int),
                decreases n - i,
            {
                out.push(bytes[i]);
                i += 1;
            }
            proof {
                assert(out@ =~= bytes@);
            }
            Some(out)
        }
        RecordLayout::Float32x4 => {
            proof {
                assert(n as int == width as int * height as int * 16);
                assert((width as int * height as int * 16) / 4 == width as int * height as int
                    * 4) by (nonlinear_arith);
                assert(width as int * height as int * 4 * 4 == width as int * height as int
                    * 16) by (nonlinear_arith);
            }
            let count: usize = n / 4;
            let mut out: Vec<u8> = Vec::new();
            let mut i: usize = 0;
            while i < count
                invariant
                    n == bytes@.len(),
                    count == n as int / 4,
                    4 * count == n,
                    0 <= i <= count,
                    out@.len() == i,
                    forall|j: int| 0 <= j < i ==> out@[j] == spec_unorm8_of(bytes@, 4 * j),
                decreases count - i,
            {
                let base: usize = 4 * i;
                let word: u32 = le_u32(bytes[base], bytes[base + 1], bytes[base + 2], bytes[base
                    + 3]);
                let channel: u8 = unorm8_from_f32_bits(word);
                proof {
                    assert(word == spec_le_u32_at(bytes@, 4 * i) as u32);
                    assert(channel == spec_unorm8_of(bytes@, 4 * i));
                }
                out.push(channel);
                i += 1;
            }
            proof {
                assert(out@ =~= spec_decode_floats(bytes@));
            }
            Some(out)
        }
    }
}

/// Decoded output byte `j` depends only on the four readback bytes of its
/// own channel: position is preserved, so reshaping the decoded sequence
/// row-major reads pixel `(x, y)` from the record the kernel wrote there.
pub proof fn lemma_decode_preserves_position(bytes: Seq<u8>, j: int)
    requires
        0 <= j < bytes.len() / 4,
    ensures
        spec_decode_floats(bytes)[j] == spec_unorm8_of(bytes, 4 * j),
{
}

/// Row-major position of pixel `(x, y)` in a `width`-wide grid.
pub open spec fn pixel_index(x: int, y: int, width: int) -> int {
    y * width + x
}

/// Decoding reshapes correctly: in the decoded row-major RGBA8 grid of a
/// `width` by `height` float32x4 readback, channel `c` of pixel `(x, y)`
/// is the scaled value of the float stored in the record at byte offset
/// `(y * width + x) * 16`, channel offset `4 * c`.
pub proof fn lemma_row_major_decode(bytes: Seq<u8>, width: int, height: int, x: int, y: int, c: int)
    requires
        width > 0,
        height > 0,
        bytes.len() == width * height * 16,
        0 <= x < width,
        0 <= y < height,
        0 <= c < 4,
    ensures
        spec_decode_floats(bytes)[4 * pixel_index(x, y, width) + c] == spec_unorm8_of(
            bytes,
            16 * pixel_index(x, y, width) + 4 * c,
        ),
{
    let pi = pixel_index(x, y, width);
    assert(0 <= pi < width * height) by (nonlinear_arith)
        requires
            0 <= x < width,
            0 <= y < height,
            pi == y * width + x,
    ;
    assert((width * height * 16) / 4 == width * height * 4) by (nonlinear_arith);
    assert(0 <= 4 * pi + c < width * height * 4) by (nonlinear_arith)
        requires
            0 <= pi < width * height,
            0 <= c < 4,
    ;
    assert(spec_decode_floats(bytes)[4 * pi + c] == spec_unorm8_of(bytes, 4 * (4 * pi + c)));
    assert(4 * (4 * pi + c) == 16 * pi + 4 * c);
}

/// A readback in which every 16-byte pixel record holds the same record
/// `rec` decodes to pixels that are all equal: channel `c` of every decoded
/// pixel is the scaled value of channel `c` of `rec`. This is the solid
/// color law: a kernel that writes one color everywhere yields one color
/// everywhere after decoding.
pub proof fn lemma_solid_color_decodes_solid(bytes: Seq<u8>, rec: Seq<u8>, pixels: int)
    requires
        rec.len() == 16,
        pixels >= 0,
        bytes.len() == pixels * 16,
        forall|p: int| 0 <= p < pixels ==> #[trigger] bytes.subrange(16 * p, 16 * p + 16) == rec,
    ensures
        spec_decode_floats(bytes).len() == pixels * 4,
        forall|p: int, c: int|
            0 <= p < pixels && 0 <= c < 4 ==> #[trigger] spec_decode_floats(bytes)[4 * p + c]
                == spec_unorm8_of(rec, 4 * c),
{
    assert((pixels * 16) / 4 == pixels * 4) by (nonlinear_arith);
    assert forall|p: int, c: int| 0 <= p < pixels && 0 <= c < 4 implies #[trigger] spec_decode_floats(
        bytes,
    )[4 * p + c] == spec_unorm8_of(rec, 4 * c) by {
        let k = 4 * p + c;
        assert(0 <= k < pixels * 4);
        assert(spec_decode_floats(bytes)[k] == spec_unorm8_of(bytes, 4 * k));
        let sub = bytes.subrange(16 * p, 16 * p + 16);
        assert(sub == rec);
        assert(4 * k == 16 * p + 4 * c);
        assert(16 * p + 4 * c + 3 < pixels * 16) by (nonlinear_arith)
            requires
                0 <= p < pixels,
                0 <= c < 4,
        ;
        assert(bytes[16 * p + (4 * c)] == sub[4 * c]);
        assert(bytes[16 * p + (4 * c + 1)] == sub[4 * c + 1]);
        assert(bytes[16 * p + (4 * c + 2)] == sub[4 * c + 2]);
        assert(bytes[16 * p + (4 * c + 3)] == sub[4 * c + 3]);
        assert(spec_le_u32_at(bytes, 4 * k) == spec_le_u32_at(rec, 4 * c));
    };
}

} // verus!
