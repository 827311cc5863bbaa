use vstd::prelude::*;

verus! {

use crate::MergeError;
use vstd::arithmetic::div_mod::lemma_fundamental_div_mod_converse;

/// The white-compositing formula for one channel byte `c` under alpha
/// byte `a`: the real-valued `round(c * a/255 + 255 * (1 - a/255))`,
/// written exactly over the integers as `(c*a + 255*(255 - a) + 127) / 255`
/// (the two agree because `255` is odd, so no tie ever arises).
pub open spec fn blend_spec(c: u8, a: u8) -> int {
    (c * a + 255 * (255 - a) + 127) / 255
}

/// Composites one channel byte onto an opaque white background.
pub fn blend_channel(c: u8, a: u8) -> (r: u8)
    ensures
        r as int == blend_spec(c, a),
        a == 255 ==> r == c,
        a == 0 ==> r == 255,
{
    proof {
        assert((c as int) * (a as int) <= 255 * (a as int)) by (nonlinear_arith)
            requires
                c <= 255,
                a >= 0,
        ;
    }
    let n: u32 = (c as u32) * (a as u32) + 255 * (255 - a as u32) + 127;
    proof {
        assert(n <= 65152);
    }
    (n / 255) as u8
}

/// A fully opaque pixel is left unchanged by white compositing.
pub proof fn lemma_blend_opaque(c: u8)
    ensures
        blend_spec(c, 255) == c,
{
}

/// A fully transparent pixel becomes pure white.
pub proof fn lemma_blend_transparent(c: u8)
    ensures
        blend_spec(c, 0) == 255,
{
}

/// The byte that white compositing puts at flat RGB index `j`, reading
/// the source RGBA buffer `src`: channel `j % 3` of pixel `j / 3`.
pub open spec fn flattened_at(src: Seq<u8>, j: int) -> int {
    blend_spec(src[(j / 3) * 4 + (j % 3)], src[(j / 3) * 4 + 3])
}

/// Composites a row-major RGBA buffer onto an opaque white background,
/// producing a tightly packed row-major RGB buffer.
pub fn flatten_rgba(width: u32, height: u32, data: &Vec<u8>) -> (out: Vec<u8>)
    requires
        data@.len() == width * height * 4,
    ensures
        out@.len() == width * height * 3,
        forall|j: int| 0 <= j < out@.len() ==> #[trigger] out@[j] as int == flattened_at(data@, j),
{
    let total: usize = data.len() / 4;
    proof {
        assert(total == width * height);
    }
    let mut out: Vec<u8> = Vec::new();
    let mut p: usize = 0;
    while p < total
        invariant
            data@.len() == width * height * 4,
            data@.len() <= usize::MAX,
            total == width * height,
            p <= total,
            out@.len() == p * 3,
            forall|j: int| 0 <= j < out@.len() ==> #[trigger] out@[j] as int == flattened_at(
                data@,
                j,
            ),
        decreases total - p,
    {
        proof {
            assert(p * 4 + 3 < total * 4) by (nonlinear_arith)
                requires
                    p < total,
            ;
            assert(data@.len() == total * 4);
        }
        let a = data[p * 4 + 3];
        let r = blend_channel(data[p * 4], a);
        let g = blend_channel(data[p * 4 + 1], a);
        let b = blend_channel(data[p * 4 + 2], a);
        out.push(r);
        out.push(g);
        out.push(b);
        proof {
            assert forall|j: int| p * 3 <= j < p * 3 + 3 implies #[trigger] out@[j] as int
                == flattened_at(data@, j) by {
                assert(j / 3 == p && (j == p * 3 + j % 3)) by {
                    lemma_fundamental_div_mod_converse(j, 3, p as int, j - p * 3);
                }
            }
        }
        p = p + 1;
    }
    out
}

/// The channel count the planar decode path derives from a plane's
/// bit depth: at least 24 bits are assumed, each channel is 8 bits,
/// and the count is clamped to the range 3 to 4.
pub open spec fn channels_spec(bits_per_pixel: int) -> int {
    let b = if bits_per_pixel < 24 {
        24int
    } else {
        bits_per_pixel
    };
    let c = b / 8;
    let c2 = if c > 4 {
        4int
    } else {
        c
    };
    if c2 < 3 {
        3int
    } else {
        c2
    }
}

/// Derives the channel count of an interleaved plane from its bit depth.
pub fn plane_channels(bits_per_pixel: u8) -> (c: usize)
    ensures
        c == channels_spec(bits_per_pixel as int),
        c == 3 || c == 4,
{
    let b: usize = if bits_per_pixel < 24 {
        24
    } else {
        bits_per_pixel as usize
    };
    let c: usize = b / 8;
    let c: usize = if c > 4 {
        4
    } else {
        c
    };
    if c < 3 {
        3
    } else {
        c
    }
}

/// The tightly packed image of a strided plane: byte `k` of the result
/// is byte `k % row` of row `k / row` of the source, where `row` is the
/// packed row width `width * channels`.
pub open spec fn packed_of(
    data: Seq<u8>,
    width: int,
    height: int,
    stride: int,
    channels: int,
) -> Seq<u8> {
    Seq::new(
        (width * channels * height) as nat,
        |k: int| data[(k / (width * channels)) * stride + (k % (width * channels))],
    )
}

/// When a strided plane can be repacked: the stride covers a full row,
/// the packed buffer fits in memory, and the source buffer reaches the
/// end of the last row.
pub open spec fn plane_fits(
    width: int,
    height: int,
    stride: int,
    channels: int,
    len: int,
) -> bool {
    &&& width * channels <= stride
    &&& width * channels * height <= usize::MAX
    &&& height >= 1 ==> (height - 1) * stride + width * channels <= len
}

/// Repacks a strided interleaved plane into a tightly packed row-major
/// buffer, copying row by row so that per-row padding bytes never leak
/// into the result. Fails exactly when the stride is smaller than a
/// packed row, the packed buffer would not fit in memory, or the source
/// buffer ends before the last row does.
pub fn pack_plane(
    width: usize,
    height: usize,
    stride: usize,
    channels: usize,
    data: &[u8],
) -> (r: Result<Vec<u8>, MergeError>)
    ensures
        match r {
            Ok(out) => {
                &&& plane_fits(
                    width as int,
                    height as int,
                    stride as int,
                    channels as int,
                    data@.len() as int,
                )
                &&& out@.len() == width * height * channels
                &&& out@ == packed_of(
                    data@,
                    width as int,
                    height as int,
                    stride as int,
                    channels as int,
                )
                &&& forall|k: int|
                    0 <= k < out@.len() ==> #[trigger] out@[k] == data@[
                        (k / (width * channels)) * stride + (k % (width * channels))
                    ]
            },
            Err(e) => {
                &&& e matches MergeError::Image(_)
                &&& !plane_fits(
                    width as int,
                    height as int,
                    stride as int,
                    channels as int,
                    data@.len() as int,
                )
            },
        },
{
    let dlen: usize = data.len();
    let row_bytes: usize = match width.checked_mul(channels) {
        Some(rb) => rb,
        None => {
            proof {
                assert(width * channels > usize::MAX);
                assert(stride <= usize::MAX);
            }
            return Err(MergeError::Image("plane row size overflows".to_owned()));
        },
    };
    if stride < row_bytes {
        return Err(MergeError::Image("plane stride is smaller than a packed row".to_owned()));
    }
    let total: usize = match row_bytes.checked_mul(height) {
        Some(t) => t,
        None => {
            return Err(MergeError::Image("packed plane size overflows".to_owned()));
        },
    };
    if height >= 1 {
        let last_start: usize = match (height - 1).checked_mul(stride) {
            Some(s) => s,
            None => {
                proof {
                    assert((height - 1) * stride > usize::MAX);
                    assert(width * channels >= 0) by (nonlinear_arith)
                        requires
                            width >= 0,
                            channels >= 0,
                    ;
                    assert((height - 1) * stride + width * channels > data@.len());
                }
                return Err(MergeError::Image("plane buffer is too short".to_owned()));
            },
        };
        let last_end: usize = match last_start.checked_add(row_bytes) {
            Some(e) => e,
            None => {
                return Err(MergeError::Image("plane buffer is too short".to_owned()));
            },
        };
        if last_end > dlen {
            return Err(MergeError::Image("plane buffer is too short".to_owned()));
        }
    }
    if row_bytes == 0 {
        let out: Vec<u8> = Vec::new();
        proof {
            assert(width * channels * height == 0) by (nonlinear_arith)
                requires
                    width * channels == 0,
            ;
            assert(width * height * channels == width * channels * height) by (nonlinear_arith);
            assert(out@ =~= packed_of(
                data@,
                width as int,
                height as int,
                stride as int,
                channels as int,
            ));
        }
        return Ok(out);
    }
    let mut out: Vec<u8> = Vec::new();
    let mut row: usize = 0;
    while row < height
        invariant
            row <= height,
            dlen == data@.len(),
            row_bytes == width * channels,
            row_bytes >= 1,
            total == width * channels * height,
            total <= usize::MAX,
            stride >= row_bytes,
            height >= 1 ==> (height - 1) * stride + row_bytes <= data@.len(),
            out@.len() == row * row_bytes,
            forall|k: int|
                0 <= k < out@.len() ==> #[trigger] out@[k] == data@[
                    (k / (width * channels)) * stride + (k % (width * channels))
                ],
        decreases height - row,
    {
        proof {
            assert(row * row_bytes + row_bytes <= total) by (nonlinear_arith)
                requires
                    row < height,
                    row_bytes >= 0,
                    total == row_bytes * height,
            ;
            assert(row * stride <= (height - 1) * stride) by (nonlinear_arith)
                requires
                    row <= height - 1,
                    stride >= 0,
            ;
        }
        let base: usize = row * stride;
        let mut j: usize = 0;
        while j < row_bytes
            invariant
                row < height,
                dlen == data@.len(),
                j <= row_bytes,
                base == row * stride,
                row_bytes == width * channels,
                row_bytes >= 1,
                total == width * channels * height,
                total <= usize::MAX,
                stride >= row_bytes,
                height >= 1 ==> (height - 1) * stride + row_bytes <= data@.len(),
                row * row_bytes + row_bytes <= total,
                row * stride <= (height - 1) * stride,
                out@.len() == row * row_bytes + j,
                forall|k: int|
                    0 <= k < out@.len() ==> #[trigger] out@[k] == data@[
                        (k / (width * channels)) * stride + (k % (width * channels))
                    ],
            decreases row_bytes - j,
        {
            proof {
                assert(base + j < data@.len());
            }
            out.push(data[base + j]);
            proof {
                let k = row * row_bytes + j;
                lemma_fundamental_div_mod_converse(
                    k as int,
                    row_bytes as int,
                    row as int,
                    j as int,
                );
                assert(out@[k as int] == data@[(k as int / (width * channels) as int) * stride
                    + (k as int % (width * channels) as int)]);
            }
            j = j + 1;
        }
        proof {
            assert((row + 1) * row_bytes == row * row_bytes + row_bytes) by (nonlinear_arith);
        }
        row = row + 1;
    }
    proof {
        assert(height * row_bytes == total) by (nonlinear_arith)
            requires
                total == row_bytes * height,
        ;
        assert(width * height * channels == width * channels * height) by (nonlinear_arith);
        assert(out@ =~= packed_of(
            data@,
            width as int,
            height as int,
            stride as int,
            channels as int,
        ));
    }
    Ok(out)
}

/// A normalized raster: an 8-bit-per-channel, row-major RGB pixel buffer
/// with no alpha channel and at least one pixel on each axis.
pub struct NormalizedRaster {
    pub width: u32,
    pub height: u32,
    pub data: Vec<u8>,
}

impl NormalizedRaster {
    /// Well-formedness: positive dimensions and a tightly packed
    /// three-channel buffer.
    pub open spec fn wf(&self) -> bool {
        &&& self.width >= 1
        &&& self.height >= 1
        &&& self.data@.len() == self.width * self.height * 3
    }
}

/// The image a still-image byte stream decodes to, as width, height and
/// a row-major 8-bit RGBA buffer, or nothing when the stream is corrupt
/// or its format unsupported. Decoding depends on the bytes alone.
pub uninterp spec fn image_decode(bytes: Seq<u8>) -> Option<(u32, u32, Seq<u8>)>;

/// Relies on image::load_from_memory and DynamicImage::to_rgba8: which
/// pixels a byte stream decodes to is a function of the bytes alone,
/// and the RGBA buffer of a decoded image holds exactly
/// width * height * 4 bytes.
#[verifier::external_body]
fn decode_rgba(bytes: &[u8]) -> (r: Result<(u32, u32, Vec<u8>), String>)
    ensures
        match r {
            Ok(t) => image_decode(bytes@) == Some((t.0, t.1, t.2@)) && t.2@.len() == t.0 * t.1
                * 4,
            Err(_) => image_decode(bytes@) is None,
        },
{
    match image::load_from_memory(bytes) {
        Ok(img) => {
            let rgba = img.to_rgba8();
            let (w, h) = rgba.dimensions();
            Ok((w, h, rgba.into_raw()))
        },
        Err(e) => Err(e.to_string()),
    }
}

/// Decodes a still-image byte stream and composites it onto an opaque
/// white background: the result is the decoded image, flattened to
/// three channels. Fails exactly when the stream does not decode or the
/// decoded image has no pixels.
pub fn normalize_image(bytes: &[u8]) -> (r: Result<NormalizedRaster, MergeError>)
    ensures
        match image_decode(bytes@) {
            Option::None => r matches Err(MergeError::Image(_)),
            Option::Some(t) => if t.0 >= 1 && t.1 >= 1 {
                r matches Ok(n) && n.width == t.0 && n.height == t.1 && n.wf() && (forall|j: int|
                    0 <= j < n.data@.len() ==> #[trigger] n.data@[j] as int == flattened_at(
                        t.2,
                        j,
                    ))
            } else {
                r matches Err(MergeError::Image(_))
            },
        },
{
    match decode_rgba(bytes) {
        Err(e) => Err(MergeError::Image(e)),
        Ok((w, h, buf)) => {
            if w == 0 || h == 0 {
                Err(MergeError::Image("decoded image has no pixels".to_owned()))
            } else {
                let data = flatten_rgba(w, h, &buf);
                Ok(NormalizedRaster { width: w, height: h, data })
            }
        },
    }
}

/// Normalizes an interleaved, possibly stride-padded plane, as the
/// planar decode path hands it out: the plane is repacked row by row,
/// and a four-channel plane is then composited onto white. Fails
/// exactly when the plane does not fit its buffer (see `plane_fits`)
/// or has no pixels.
pub fn normalize_heic_plane(
    width: u32,
    height: u32,
    stride: usize,
    bits_per_pixel: u8,
    data: &[u8],
) -> (r: Result<NormalizedRaster, MergeError>)
    ensures
        ({
            let ch = channels_spec(bits_per_pixel as int);
            let px = packed_of(data@, width as int, height as int, stride as int, ch);
            if !plane_fits(width as int, height as int, stride as int, ch, data@.len() as int)
                || width == 0 || height == 0 {
                r matches Err(MergeError::Image(_))
            } else {
                r matches Ok(n) && n.wf() && n.width == width && n.height == height && (ch == 3
                    ==> n.data@ == px) && (ch == 4 ==> forall|j: int|
                    0 <= j < n.data@.len() ==> #[trigger] n.data@[j] as int == flattened_at(
                        px,
                        j,
                    ))
            }
        }),
{
    let channels = plane_channels(bits_per_pixel);
    let packed = match pack_plane(width as usize, height as usize, stride, channels, data) {
        Ok(p) => p,
        Err(e) => {
            return Err(e);
        },
    };
    if width == 0 || height == 0 {
        return Err(MergeError::Image("plane has no pixels".to_owned()));
    }
    if channels == 4 {
        proof {
            assert(packed@.len() == width * height * 4) by (nonlinear_arith)
                requires
                    packed@.len() == (width as usize) * (height as usize) * 4,
                    width as usize == width as int,
                    height as usize == height as int,
            ;
        }
        let data3 = flatten_rgba(width, height, &packed);
        Ok(NormalizedRaster { width, height, data: data3 })
    } else {
        proof {
            assert(packed@.len() == width * height * 3) by (nonlinear_arith)
                requires
                    packed@.len() == (width as usize) * (height as usize) * 3,
                    width as usize == width as int,
                    height as usize == height as int,
            ;
        }
        Ok(NormalizedRaster { width, height, data: packed })
    }
}

} // verus!
