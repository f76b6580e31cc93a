//! Pixel buffers: the copy out of a mapped GPU surface, the conversion from
//! premultiplied to straight alpha, and the solid fill of last resort.

use crate::error::RenderError;
use crate::native::FAILURE_CODE;
use crate::request::{valid_dimensions, validate_dimensions};
use vstd::prelude::*;

verus! {

/// The scale of the table of multipliers: 255 shifted left by 8 bits.
pub const MULTIPLIER_SCALE: u32 = 65280;

/// A bitmap of 32 bits per pixel in the order blue, green, red, alpha, with
/// straight alpha and the top row first.
#[derive(Clone, Debug)]
pub struct PixelBuffer {
    pub width: u32,
    pub height: u32,
    /// The bytes from the start of one row to the start of the next.
    pub stride_bytes: u32,
    pub data: Vec<u8>,
}

impl PixelBuffer {
    /// The rows are packed, and the data holds exactly the pixels.
    pub open spec fn wf(&self) -> bool {
        &&& self.stride_bytes == self.width * 4
        &&& self.data@.len() == self.width * self.height * 4
    }
}

/// The index of byte `x` of row `y` in rows of `stride` bytes.
pub open spec fn byte_offset(stride: int, y: int, x: int) -> int {
    y * stride + x
}

/// A byte of a row lies within its row, and the rows lie within the
/// buffer.
pub proof fn lemma_byte_offset(stride: int, rows: int, y: int, x: int)
    by (nonlinear_arith)
    requires
        0 <= y < rows,
        0 <= x < stride,
    ensures
        0 <= y * stride <= byte_offset(stride, y, x) < (y + 1) * stride <= rows * stride,
        (y + 1) * stride == y * stride + stride,
        rows * stride == stride * rows,
{
}

/// The number of bytes of a mapped surface with rows of `pitch` bytes.
pub open spec fn mapped_size(pitch: u32, height: u32) -> int {
    pitch * height
}

/// The size of the mapped surface. The product is taken in 64 bits; a size
/// that the platform cannot address is an internal inconsistency.
pub fn staging_size(pitch: u32, height: u32) -> (r: Result<usize, RenderError>)
    ensures
        mapped_size(pitch, height) <= usize::MAX ==> r == Ok::<usize, RenderError>(
            mapped_size(pitch, height) as usize,
        ),
        mapped_size(pitch, height) > usize::MAX ==> r == Err::<usize, RenderError>(
            RenderError::Unexpected(FAILURE_CODE),
        ),
{
    assert(pitch * height <= 0xffff_ffff * 0xffff_ffff) by (nonlinear_arith)
        requires
            pitch <= 0xffff_ffff,
            height <= 0xffff_ffff,
    ;
    let size: u64 = (pitch as u64) * (height as u64);
    if size > usize::MAX as u64 {
        Err(RenderError::Unexpected(FAILURE_CODE))
    } else {
        Ok(size as usize)
    }
}

/// A vector of `n` zero bytes.
pub fn zeroed(n: usize) -> (v: Vec<u8>)
    ensures
        v@.len() == n,
        forall|i: int| 0 <= i < n ==> v@[i] == 0,
{
    let mut v: Vec<u8> = Vec::new();
    let mut i: usize = 0;
    while i < n
        invariant
            i <= n,
            v@.len() == i,
            forall|k: int| 0 <= k < i ==> v@[k] == 0,
        decreases n - i,
    {
        v.push(0);
        i += 1;
    }
    v
}

/// Whether `data` holds what a surface of `height` rows of `pitch` bytes
/// gives a packed bitmap of `width` pixels a row: of each row the bytes
/// that both have, and zero where the source row is the shorter one.
pub open spec fn transferred(
    data: Seq<u8>,
    source: Seq<u8>,
    pitch: int,
    width: int,
    height: int,
) -> bool {
    &&& data.len() == width * height * 4
    &&& forall|y: int, x: int|
        0 <= y < height && 0 <= x < width * 4 ==> #[trigger] data[byte_offset(width * 4, y, x)]
            == if x < pitch {
            source[byte_offset(pitch, y, x)]
        } else {
            0u8
        }
}

/// Copies the pixels of a mapped surface into a packed bitmap. The bitmap is
/// zeroed first. Where the rows of the source are as long as those of the
/// bitmap the bytes are copied in one run, else row by row, of each row the
/// bytes that both have.
pub fn transfer_pixels(source: &[u8], pitch: u32, width: u32, height: u32) -> (r: Result<
    PixelBuffer,
    RenderError,
>)
    ensures
        !valid_dimensions(width, height) ==> r == Err::<PixelBuffer, RenderError>(
            RenderError::InvalidArgument,
        ),
        valid_dimensions(width, height) && source@.len() != mapped_size(pitch, height) ==> r
            == Err::<PixelBuffer, RenderError>(RenderError::Unexpected(FAILURE_CODE)),
        valid_dimensions(width, height) && source@.len() == mapped_size(pitch, height) ==> (r
            matches Ok(b) && b.wf() && b.width == width && b.height == height && transferred(
            b.data@,
            source@,
            pitch as int,
            width as int,
            height as int,
        )),
{
    match validate_dimensions(width, height) {
        Err(e) => {
            return Err(e);
        },
        Ok(_) => {},
    }
    let available = source.len();
    let size = match staging_size(pitch, height) {
        Err(e) => {
            return Err(e);
        },
        Ok(size) => size,
    };
    if available != size {
        return Err(RenderError::Unexpected(FAILURE_CODE));
    }
    let stride: usize = (width * 4) as usize;
    let rows: usize = height as usize;
    assert(stride * rows <= 16384 * 4096) by (nonlinear_arith)
        requires
            stride <= 16384,
            rows <= 4096,
    ;
    let total: usize = stride * rows;
    assert(total == width * height * 4) by (nonlinear_arith)
        requires
            total == stride * rows,
            stride == width * 4,
            rows == height,
    ;
    let mut data = zeroed(total);
    if pitch as usize == stride {
        let mut i: usize = 0;
        while i < total
            invariant
                i <= total == data@.len() == source@.len(),
                forall|k: int| 0 <= k < i ==> data@[k] == source@[k],
            decreases total - i,
        {
            data.set(i, source[i]);
            i += 1;
        }
        proof {
            assert forall|y: int, x: int| 0 <= y < height && 0 <= x < width * 4 implies #[trigger]
                data@[byte_offset(width * 4, y, x)] == if x < pitch {
                source@[byte_offset(pitch as int, y, x)]
            } else {
                0u8
            } by {
                lemma_byte_offset(stride as int, rows as int, y, x);
            }
        }
    } else {
        let row: usize = if (pitch as usize) < stride {
            pitch as usize
        } else {
            stride
        };
        let span: usize = pitch as usize;
        let mut y: usize = 0;
        while y < rows
            invariant
                y <= rows == height,
                stride == width * 4,
                span == pitch,
                row <= stride,
                row <= span,
                row == span || row == stride,
                total == stride * rows == data@.len(),
                source@.len() == span * rows <= usize::MAX,
                forall|v: int, x: int|
                    0 <= v < y && 0 <= x < stride ==> #[trigger] data@[byte_offset(
                        stride as int,
                        v,
                        x,
                    )] == if x < span {
                        source@[byte_offset(span as int, v, x)]
                    } else {
                        0u8
                    },
                forall|k: int| y * stride <= k < total ==> data@[k] == 0,
            decreases rows - y,
        {
            let ghost before = data@;
            let mut x: usize = 0;
            proof {
                if row > 0 {
                    lemma_byte_offset(stride as int, rows as int, y as int, 0);
                    lemma_byte_offset(span as int, rows as int, y as int, 0);
                }
            }
            while x < row
                invariant
                    y < rows,
                    x <= row <= stride,
                    row <= span,
                    total == stride * rows == data@.len() == before.len(),
                    source@.len() == span * rows <= usize::MAX,
                    forall|k: int| 0 <= k < y * stride ==> data@[k] == before[k],
                    forall|k: int| y * stride + x <= k < total ==> data@[k] == 0,
                    forall|u: int|
                        0 <= u < x ==> #[trigger] data@[byte_offset(stride as int, y as int, u)]
                            == source@[byte_offset(span as int, y as int, u)],
                decreases row - x,
            {
                proof {
                    lemma_byte_offset(stride as int, rows as int, y as int, x as int);
                    lemma_byte_offset(span as int, rows as int, y as int, x as int);
                }
                let from: usize = y * span + x;
                let to: usize = y * stride + x;
                data.set(to, source[from]);
                x += 1;
            }
            proof {
                assert forall|v: int, u: int| 0 <= v < y + 1 && 0 <= u < stride implies #[trigger]
                    data@[byte_offset(stride as int, v, u)] == if u < span {
                    source@[byte_offset(span as int, v, u)]
                } else {
                    0u8
                } by {
                    lemma_byte_offset(stride as int, rows as int, v, u);
                    if v < y {
                        lemma_byte_offset(stride as int, y as int, v, u);
                        assert(data@[byte_offset(stride as int, v, u)] == before[byte_offset(
                            stride as int,
                            v,
                            u,
                        )]);
                    } else {
                        if u >= row {
                            assert(row == span);
                        }
                    }
                }
                assert forall|k: int| (y + 1) * stride <= k < total implies data@[k] == 0 by {
                    assert((y + 1) * stride == y * stride + stride) by (nonlinear_arith);
                }
            }
            y += 1;
        }
    }
    Ok(PixelBuffer { width, height, stride_bytes: width * 4, data })
}

/// The pixels that a surface gives a bitmap are fixed by the surface and
/// the sizes alone: two transfers of the same surface agree in every byte.
pub proof fn lemma_transfer_is_determined(
    first: Seq<u8>,
    second: Seq<u8>,
    source: Seq<u8>,
    pitch: int,
    width: int,
    height: int,
)
    requires
        0 <= width,
        0 <= height,
        transferred(first, source, pitch, width, height),
        transferred(second, source, pitch, width, height),
    ensures
        first == second,
{
    let stride = width * 4;
    assert forall|i: int| 0 <= i < first.len() implies first[i] == second[i] by {
        assert(stride > 0) by (nonlinear_arith)
            requires
                0 <= i < width * height * 4,
                0 <= width,
                0 <= height,
                stride == width * 4,
        ;
        let y = i / stride;
        let x = i % stride;
        assert(0 <= x < stride && 0 <= y < height && i == y * stride + x) by (nonlinear_arith)
            requires
                stride > 0,
                0 <= i < width * height * 4,
                stride == width * 4,
                y == i / stride,
                x == i % stride,
        ;
        assert(i == byte_offset(width * 4, y, x));
    }
    assert(first =~= second);
}

/// The straight value of a colour channel `c` that was multiplied by the
/// alpha `a`: kept at full alpha, zero at no alpha, and else the channel
/// times `(255 << 8) / a`, shifted right by 8 bits and held at 255.
pub open spec fn straight_channel(c: u8, a: u8) -> u8 {
    if a == 255 {
        c
    } else if a == 0 {
        0
    } else {
        let v = (c * (MULTIPLIER_SCALE as int / a as int)) / 256;
        if v > 255 {
            255
        } else {
            v as u8
        }
    }
}

/// The bytes of a bitmap with each pixel's colour channels made straight
/// and its alpha kept.
pub open spec fn straight_pixels(data: Seq<u8>) -> Seq<u8> {
    Seq::new(
        data.len(),
        |i: int|
            if i % 4 == 3 {
                data[i]
            } else {
                straight_channel(data[i], data[i - i % 4 + 3])
            },
    )
}

/// The table of multipliers: for each alpha but zero, `(255 << 8)` divided
/// by it. It spares a division for each pixel.
pub fn multiplier_table() -> (table: Vec<u32>)
    ensures
        table@.len() == 256,
        table@[0] == 0,
        forall|a: int| 1 <= a < 256 ==> table@[a] == MULTIPLIER_SCALE as int / a,
{
    let mut table: Vec<u32> = Vec::new();
    table.push(0);
    let mut a: u32 = 1;
    while a < 256
        invariant
            1 <= a <= 256,
            table@.len() == a,
            table@[0] == 0,
            forall|k: int| 1 <= k < a ==> table@[k] == MULTIPLIER_SCALE as int / k,
        decreases 256 - a,
    {
        table.push(MULTIPLIER_SCALE / a);
        a += 1;
    }
    table
}

/// Makes one colour channel straight.
pub fn unpremultiply_channel(c: u8, a: u8, table: &Vec<u32>) -> (r: u8)
    requires
        table@.len() == 256,
        forall|k: int| 1 <= k < 256 ==> table@[k] == MULTIPLIER_SCALE as int / k,
    ensures
        r == straight_channel(c, a),
{
    if a == 255 {
        c
    } else if a == 0 {
        0
    } else {
        let m: u32 = table[a as usize];
        assert(m <= 65280) by (nonlinear_arith)
            requires
                m == 65280int / (a as int),
                a >= 1,
        ;
        assert(c * m <= 255 * 65280) by (nonlinear_arith)
            requires
                c <= 255,
                m <= 65280,
        ;
        let product: u32 = (c as u32) * m;
        let v: u32 = product >> 8;
        assert(v == product / 256) by (bit_vector)
            requires
                v == product >> 8,
        ;
        if v > 255 {
            255
        } else {
            v as u8
        }
    }
}

/// Converts a bitmap from premultiplied to straight alpha on the CPU. This
/// is the path for a GPU that could not do the conversion itself.
pub fn unpremultiply(buffer: &mut PixelBuffer)
    requires
        old(buffer).data@.len() % 4 == 0,
    ensures
        final(buffer).width == old(buffer).width,
        final(buffer).height == old(buffer).height,
        final(buffer).stride_bytes == old(buffer).stride_bytes,
        final(buffer).data@ == straight_pixels(old(buffer).data@),
        old(buffer).wf() ==> final(buffer).wf(),
{
    let table = multiplier_table();
    let n = buffer.data.len();
    let mut p: usize = 0;
    while p < n
        invariant
            p <= n == buffer.data@.len() == old(buffer).data@.len(),
            p % 4 == 0,
            n % 4 == 0,
            buffer.width == old(buffer).width,
            buffer.height == old(buffer).height,
            buffer.stride_bytes == old(buffer).stride_bytes,
            table@.len() == 256,
            forall|k: int| 1 <= k < 256 ==> table@[k] == MULTIPLIER_SCALE as int / k,
            forall|i: int| 0 <= i < p ==> buffer.data@[i] == straight_pixels(old(buffer).data@)[i],
            forall|i: int| p <= i < n ==> buffer.data@[i] == old(buffer).data@[i],
        decreases n - p,
    {
        let a = buffer.data[p + 3];
        let b = unpremultiply_channel(buffer.data[p], a, &table);
        let g = unpremultiply_channel(buffer.data[p + 1], a, &table);
        let r = unpremultiply_channel(buffer.data[p + 2], a, &table);
        buffer.data.set(p, b);
        buffer.data.set(p + 1, g);
        buffer.data.set(p + 2, r);
        p += 4;
    }
    assert(buffer.data@ =~= straight_pixels(old(buffer).data@));
}

/// A pixel at full alpha keeps its colour channels, and so does a pixel at
/// no alpha whose channels are within its alpha, as premultiplied ones are.
pub proof fn lemma_opaque_and_clear_pass_through(c: u8, a: u8)
    requires
        c <= a,
        a == 0 || a == 255,
    ensures
        straight_channel(c, a) == c,
{
}

/// A channel within its alpha needs no holding at 255: the product shifted
/// right stays in range.
pub proof fn lemma_straight_in_range(c: u8, a: u8)
    requires
        0 < a,
        c <= a,
    ensures
        (c * (MULTIPLIER_SCALE as int / a as int)) / 256 <= 255,
{
    let m = MULTIPLIER_SCALE as int / a as int;
    assert(c * m <= 65280) by (nonlinear_arith)
        requires
            0 <= c <= a,
            0 < a,
            m == 65280int / (a as int),
    ;
}

/// Whether `data` is opaque black throughout.
pub open spec fn opaque_black(data: Seq<u8>) -> bool {
    forall|i: int|
        0 <= i < data.len() ==> #[trigger] data[i] == if i % 4 == 3 {
            255u8
        } else {
            0u8
        }
}

/// The bitmap of last resort: opaque black throughout. It needs memory and
/// nothing else.
pub fn solid_fill(width: u32, height: u32) -> (b: PixelBuffer)
    requires
        width * 4 <= u32::MAX,
        width * height * 4 <= usize::MAX,
    ensures
        b.wf(),
        b.width == width,
        b.height == height,
        opaque_black(b.data@),
{
    assert(width * height <= width * height * 4) by (nonlinear_arith);
    assert((width * height) * 4 == width * height * 4) by (nonlinear_arith);
    let count: usize = (width as usize) * (height as usize);
    let mut data: Vec<u8> = Vec::new();
    let mut p: usize = 0;
    while p < count
        invariant
            p <= count,
            count * 4 <= usize::MAX,
            data@.len() == p * 4,
            opaque_black(data@),
        decreases count - p,
    {
        data.push(0);
        data.push(0);
        data.push(0);
        data.push(255);
        p += 1;
    }
    PixelBuffer { width, height, stride_bytes: width * 4, data }
}

} // verus!
