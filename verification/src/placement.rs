use vstd::prelude::*;

verus! {

/// Where and how large a normalized raster is placed on the fixed
/// 210 mm x 297 mm page, in exact rational arithmetic.
///
/// The display size in millimetres is `disp_w_num / den` by
/// `disp_h_num / den`; the centering offsets in millimetres are
/// `off_x_num / (2 * den)` and `off_y_num / (2 * den)`.
///
/// The scale factors hand the embedding step the ratio between the
/// display size and the raster's base size under an assumed density of
/// 150 pixels per inch: a raster axis of `px` pixels has a base size of
/// `px / 150 * 72` points, the display size is `mm / 25.4 * 72` points,
/// and their quotient is `mm * 1500 / (254 * px)`, kept here as the
/// pair `scale_x_num / scale_x_den` (and likewise for the y axis).
pub struct PagePlacement {
    pub disp_w_num: u64,
    pub disp_h_num: u64,
    pub den: u64,
    pub off_x_num: u64,
    pub off_y_num: u64,
    pub scale_x_num: u64,
    pub scale_x_den: u128,
    pub scale_y_num: u64,
    pub scale_y_den: u128,
}

/// Computes the placement of a `width` x `height` raster on the page:
/// the image is scaled to the full page width, unless that would make
/// it taller than the page, in which case it is scaled to the full
/// page height; either way it is centered. The placed image always
/// fits the page, and at least one axis spans its bound exactly.
pub fn compute_placement(width: u32, height: u32) -> (p: PagePlacement)
    requires
        width >= 1,
        height >= 1,
    ensures
        p.den >= 1,
        p.disp_w_num <= 210 * p.den,
        p.disp_h_num <= 297 * p.den,
        p.disp_w_num == 210 * p.den || p.disp_h_num == 297 * p.den,
        210 * height <= 297 * width ==> p.den == width && p.disp_w_num == 210 * width
            && p.disp_h_num == 210 * height,
        210 * height > 297 * width ==> p.den == height && p.disp_w_num == 297 * width
            && p.disp_h_num == 297 * height,
        p.off_x_num == 210 * p.den - p.disp_w_num,
        p.off_y_num == 297 * p.den - p.disp_h_num,
        p.scale_x_num == p.disp_w_num * 1500,
        p.scale_x_den == p.den * 254 * width,
        p.scale_y_num == p.disp_h_num * 1500,
        p.scale_y_den == p.den * 254 * height,
{
    let w: u64 = width as u64;
    let h: u64 = height as u64;
    proof {
        assert((w as int) * 254 * (width as int) <= 0xFFFF_FFFF * 254 * 0xFFFF_FFFF)
            by (nonlinear_arith)
            requires
                1 <= w <= 0xFFFF_FFFF,
                1 <= width <= 0xFFFF_FFFF,
        ;
        assert((h as int) * 254 * (width as int) <= 0xFFFF_FFFF * 254 * 0xFFFF_FFFF)
            by (nonlinear_arith)
            requires
                1 <= h <= 0xFFFF_FFFF,
                1 <= width <= 0xFFFF_FFFF,
        ;
        assert((w as int) * 254 * (height as int) <= 0xFFFF_FFFF * 254 * 0xFFFF_FFFF)
            by (nonlinear_arith)
            requires
                1 <= w <= 0xFFFF_FFFF,
                1 <= height <= 0xFFFF_FFFF,
        ;
        assert((h as int) * 254 * (height as int) <= 0xFFFF_FFFF * 254 * 0xFFFF_FFFF)
            by (nonlinear_arith)
            requires
                1 <= h <= 0xFFFF_FFFF,
                1 <= height <= 0xFFFF_FFFF,
        ;
    }
    if 210 * h <= 297 * w {
        let den = w;
        let disp_w_num = 210 * w;
        let disp_h_num = 210 * h;
        PagePlacement {
            disp_w_num,
            disp_h_num,
            den,
            off_x_num: 210 * den - disp_w_num,
            off_y_num: 297 * den - disp_h_num,
            scale_x_num: disp_w_num * 1500,
            scale_x_den: (den as u128) * 254 * (width as u128),
            scale_y_num: disp_h_num * 1500,
            scale_y_den: (den as u128) * 254 * (height as u128),
        }
    } else {
        let den = h;
        let disp_w_num = 297 * w;
        let disp_h_num = 297 * h;
        PagePlacement {
            disp_w_num,
            disp_h_num,
            den,
            off_x_num: 210 * den - disp_w_num,
            off_y_num: 297 * den - disp_h_num,
            scale_x_num: disp_w_num * 1500,
            scale_x_den: (den as u128) * 254 * (width as u128),
            scale_y_num: disp_h_num * 1500,
            scale_y_den: (den as u128) * 254 * (height as u128),
        }
    }
}

} // verus!
