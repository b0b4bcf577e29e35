//! Packing a field of shades into an RGBA raster.
//!
//! A shade is the colour value of one sample, clamped to a byte. The raster
//! is row-major without padding, four bytes to the pixel in the order red,
//! green, blue, alpha.

use crate::kernel::{color_value, spec_color_value, spec_run, ColorValue, Probe, Variant, Verdict};
use vstd::prelude::*;

verus! {

/// The shade of a colour value. The escape-only policy scales the value by
/// 255, the distance-estimating policy takes it as it is; either way the
/// result is cut to a whole number and clamped to a byte. A value without a
/// denominator is not finite and takes the shade of the interior value.
pub open spec fn spec_shade(policy: Variant, value: ColorValue) -> u8 {
    if value.denominator == 0 {
        match policy {
            Variant::EscapeOnly => 0u8,
            Variant::DistanceEstimate => 255u8,
        }
    } else {
        let scaled: int = match policy {
            Variant::EscapeOnly => 255 * value.numerator,
            Variant::DistanceEstimate => value.numerator as int,
        };
        let whole: int = scaled / (value.denominator as int);
        if whole > 255 {
            255u8
        } else {
            whole as u8
        }
    }
}

/// The shades of a field of verdicts, place by place.
pub open spec fn spec_shades(policy: Variant, verdicts: Seq<Verdict>) -> Seq<u8> {
    Seq::new(verdicts.len(), |i: int| spec_shade(policy, spec_color_value(policy, verdicts[i])))
}

/// The four bytes of one pixel. The escape-only policy puts the shade in the
/// red channel and makes every pixel with a shade opaque; the
/// distance-estimating policy puts the shade in the alpha channel of a black
/// pixel.
pub open spec fn spec_pixel(policy: Variant, shade: u8) -> Seq<u8> {
    match policy {
        Variant::EscapeOnly => seq![shade, 0u8, 0u8, if shade != 0 { 255u8 } else { 0u8 }],
        Variant::DistanceEstimate => seq![0u8, 0u8, 0u8, shade],
    }
}

/// The raster of a field of shades: pixel `i` takes the bytes from `4 * i`
/// on.
pub open spec fn spec_raster(policy: Variant, shades: Seq<u8>) -> Seq<u8> {
    Seq::new(4 * shades.len(), |k: int| spec_pixel(policy, shades[k / 4])[k % 4])
}

/// Encodes one shade as a pixel.
pub fn encode_pixel(policy: Variant, shade: u8) -> (pixel: [u8; 4])
    ensures
        pixel@ == spec_pixel(policy, shade),
{
    let pixel: [u8; 4] = match policy {
        Variant::EscapeOnly => {
            let alpha: u8 = if shade != 0 { 255 } else { 0 };
            [shade, 0, 0, alpha]
        },
        Variant::DistanceEstimate => [0, 0, 0, shade],
    };
    assert(pixel@ =~= spec_pixel(policy, shade));
    pixel
}

/// Turns a colour value into a shade.
pub fn shade(policy: Variant, value: ColorValue) -> (byte: u8)
    ensures
        byte == spec_shade(policy, value),
{
    if value.denominator == 0 {
        return match policy {
            Variant::EscapeOnly => 0,
            Variant::DistanceEstimate => 255,
        };
    }
    let scaled: u64 = match policy {
        Variant::EscapeOnly => 255u64 * (value.numerator as u64),
        Variant::DistanceEstimate => value.numerator as u64,
    };
    let whole: u64 = scaled / (value.denominator as u64);
    if whole > 255 {
        255
    } else {
        whole as u8
    }
}

/// Turns the verdicts of a field of samples into its shades.
pub fn shades_of(policy: Variant, verdicts: &Vec<Verdict>) -> (shades: Vec<u8>)
    ensures
        shades@ == spec_shades(policy, verdicts@),
{
    let mut shades: Vec<u8> = Vec::with_capacity(verdicts.len());
    let mut i: usize = 0;
    while i < verdicts.len()
        invariant
            i <= verdicts@.len(),
            shades@.len() == i,
            forall|k: int|
                0 <= k < i ==> shades@[k] == spec_shade(
                    policy,
                    spec_color_value(policy, verdicts@[k]),
                ),
        decreases verdicts@.len() - i,
    {
        shades.push(shade(policy, color_value(policy, verdicts[i])));
        i += 1;
    }
    assert(shades@ =~= spec_shades(policy, verdicts@));
    shades
}

/// How a raster is laid out, in the terms of an image decoder.
#[derive(Clone, Copy, Debug, PartialEq, Eq, Structural)]
pub struct RasterLayout {
    pub width: i32,
    pub height: i32,
    pub row_stride: i32,
    pub bits_per_sample: i32,
    pub has_alpha: bool,
}

/// A finished image: the raster and its size in pixels.
#[derive(Debug)]
pub struct ImageBuffer {
    bytes: Vec<u8>,
    resolution_x: usize,
    resolution_y: usize,
}

impl ImageBuffer {
    pub closed spec fn raster(self) -> Seq<u8> {
        self.bytes@
    }

    pub closed spec fn columns(self) -> usize {
        self.resolution_x
    }

    pub closed spec fn rows(self) -> usize {
        self.resolution_y
    }

    /// The raster holds four bytes for each pixel of the grid.
    pub open spec fn wf(self) -> bool {
        self.raster().len() == 4 * self.columns() * self.rows()
    }

    /// Builds the image of a field of `resolution_y` rows of `resolution_x`
    /// shades each, given row by row. The result is `None` where the field has
    /// another number of shades, or where the raster would be too long to
    /// address.
    pub fn assemble(
        shades: &Vec<u8>,
        resolution_x: usize,
        resolution_y: usize,
        policy: Variant,
    ) -> (image: Option<ImageBuffer>)
        ensures
            image.is_some() <==> (shades@.len() == resolution_x * resolution_y && 4 * resolution_x
                * resolution_y <= usize::MAX),
            image matches Some(img) ==> img.wf() && img.columns() == resolution_x && img.rows()
                == resolution_y && img.raster() == spec_raster(policy, shades@) && img.raster().len()
                == 4 * resolution_x * resolution_y,
    {
        assert(4 * resolution_x * resolution_y == 4 * (resolution_x * resolution_y))
            by (nonlinear_arith);
        let count: usize = match resolution_x.checked_mul(resolution_y) {
            Some(count) => count,
            None => {
                return None;
            },
        };
        if count != shades.len() {
            return None;
        }
        let total: usize = match count.checked_mul(4) {
            Some(total) => total,
            None => {
                return None;
            },
        };
        let mut bytes: Vec<u8> = Vec::with_capacity(total);
        let mut i: usize = 0;
        while i < count
            invariant
                i <= count,
                count == shades@.len(),
                4 * count <= usize::MAX,
                bytes@.len() == 4 * i,
                forall|k: int|
                    0 <= k < 4 * i ==> bytes@[k] == spec_pixel(policy, shades@[k / 4])[k % 4],
            decreases count - i,
        {
            let pixel: [u8; 4] = encode_pixel(policy, shades[i]);
            bytes.push(pixel[0]);
            bytes.push(pixel[1]);
            bytes.push(pixel[2]);
            bytes.push(pixel[3]);
            i += 1;
        }
        assert(bytes@ =~= spec_raster(policy, shades@));
        Some(ImageBuffer { bytes, resolution_x, resolution_y })
    }

    pub fn resolution_x(&self) -> (n: usize)
        ensures
            n == self.columns(),
    {
        self.resolution_x
    }

    pub fn resolution_y(&self) -> (n: usize)
        ensures
            n == self.rows(),
    {
        self.resolution_y
    }

    pub fn bytes(&self) -> (bytes: &Vec<u8>)
        ensures
            bytes@ == self.raster(),
    {
        &self.bytes
    }

    /// Gives the raster away; the image is consumed.
    pub fn into_bytes(self) -> (bytes: Vec<u8>)
        ensures
            bytes@ == self.raster(),
    {
        self.bytes
    }

    /// The layout to decode the raster with: eight bits to the channel, an
    /// alpha channel, rows of `4 * resolution_x` bytes. `None` where a
    /// number does not fit the decoder's signed 32 bits.
    pub fn layout(&self) -> (layout: Option<RasterLayout>)
        ensures
            layout.is_some() <==> (4 * self.columns() <= i32::MAX && self.rows() <= i32::MAX),
            layout matches Some(l) ==> l.width == self.columns() && l.height == self.rows()
                && l.row_stride == 4 * self.columns() && l.bits_per_sample == 8 && l.has_alpha,
    {
        if self.resolution_x > 0x1fff_ffff || self.resolution_y > 0x7fff_ffff {
            return None;
        }
        let width: i32 = self.resolution_x as i32;
        let height: i32 = self.resolution_y as i32;
        Some(RasterLayout { width, height, row_stride: width * 4, bits_per_sample: 8, has_alpha: true })
    }
}

/// A raster is four times as long as its field of shades.
pub proof fn lemma_raster_len(policy: Variant, shades: Seq<u8>)
    ensures
        spec_raster(policy, shades).len() == 4 * shades.len(),
{
}

/// A pixel depends on its own shade alone: two fields that agree at one
/// place give rasters with the same four bytes there, so the order in which
/// the shades were computed cannot show.
pub proof fn lemma_pixel_independent(policy: Variant, a: Seq<u8>, b: Seq<u8>, i: int)
    requires
        0 <= i < a.len(),
        i < b.len(),
        a[i] == b[i],
    ensures
        spec_raster(policy, a).subrange(4 * i, 4 * i + 4) == spec_pixel(policy, a[i]),
        spec_raster(policy, b).subrange(4 * i, 4 * i + 4) == spec_pixel(policy, a[i]),
{
    assert(spec_raster(policy, a).subrange(4 * i, 4 * i + 4) =~= spec_pixel(policy, a[i]));
    assert(spec_raster(policy, b).subrange(4 * i, 4 * i + 4) =~= spec_pixel(policy, a[i]));
}

/// What a sample of the escape-only variant looks like: one that escaped
/// is an opaque pixel with `255 / steps` of red, which is at least 2; every
/// other one is fully transparent.
pub proof fn lemma_escape_only_pixels(remaining: u32, probes: Seq<Probe>)
    requires
        remaining <= Variant::EscapeOnly.budget(),
    ensures
        match spec_run(Variant::EscapeOnly, remaining, probes) {
            Some(verdict) => {
                let byte = spec_shade(
                    Variant::EscapeOnly,
                    spec_color_value(Variant::EscapeOnly, verdict),
                );
                let pixel = spec_pixel(Variant::EscapeOnly, byte);
                match verdict {
                    Verdict::Escaped { steps } => 1 <= steps <= 100 && byte == 255int / (steps as int)
                        && byte >= 2 && pixel == seq![byte, 0u8, 0u8, 255u8],
                    _ => pixel == seq![0u8, 0u8, 0u8, 0u8],
                }
            },
            None => true,
        },
{
    crate::kernel::lemma_escape_values(remaining, probes);
    match spec_run(Variant::EscapeOnly, remaining, probes) {
        Some(verdict) => {
            let byte = spec_shade(
                Variant::EscapeOnly,
                spec_color_value(Variant::EscapeOnly, verdict),
            );
            let pixel = spec_pixel(Variant::EscapeOnly, byte);
            match verdict {
                Verdict::Escaped { steps } => {
                    let s: int = steps as int;
                    assert(2 <= 255int / s <= 255) by (nonlinear_arith)
                        requires
                            1 <= s <= 100,
                    ;
                    assert(pixel =~= seq![byte, 0u8, 0u8, 255u8]);
                },
                _ => {
                    assert(byte == 0);
                    assert(pixel =~= seq![0u8, 0u8, 0u8, 0u8]);
                },
            }
        },
        None => {},
    }
}

/// What a sample of the distance-estimating variant looks like: a black
/// pixel whose alpha is 0, 100 or 255.
pub proof fn lemma_distance_pixels(remaining: u32, probes: Seq<Probe>)
    ensures
        match spec_run(Variant::DistanceEstimate, remaining, probes) {
            Some(verdict) => {
                let byte = spec_shade(
                    Variant::DistanceEstimate,
                    spec_color_value(Variant::DistanceEstimate, verdict),
                );
                let pixel = spec_pixel(Variant::DistanceEstimate, byte);
                (byte == 0 || byte == 100 || byte == 255) && pixel == seq![0u8, 0u8, 0u8, byte]
            },
            None => true,
        },
{
    crate::kernel::lemma_distance_values(remaining, probes);
    match spec_run(Variant::DistanceEstimate, remaining, probes) {
        Some(verdict) => {
            let byte = spec_shade(
                Variant::DistanceEstimate,
                spec_color_value(Variant::DistanceEstimate, verdict),
            );
            assert(spec_pixel(Variant::DistanceEstimate, byte) =~= seq![0u8, 0u8, 0u8, byte]);
        },
        None => {},
    }
}

} // verus!
