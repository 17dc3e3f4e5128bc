use vstd::prelude::*;

use crate::colors::{palette_fixed, quantize, ColorTree};
use crate::image::{lemma_index_in_grid, Image, Rgb};
use crate::palette::{in_palette, palette_color, PALETTE_LEN};
use vstd::arithmetic::div_mod::{lemma_fundamental_div_mod, lemma_fundamental_div_mod_converse};

verus! {

// Floyd-Steinberg weights, in sixteenths of the residual.
/// Weight of the right neighbour (+1, 0).
pub const RIGHT_WEIGHT: i32 = 7;
/// Weight of the lower-left neighbour (-1, +1).
pub const DOWN_LEFT_WEIGHT: i32 = 3;
/// Weight of the neighbour below (0, +1).
pub const DOWN_WEIGHT: i32 = 5;
/// Weight of the lower-right neighbour (+1, +1).
pub const DOWN_RIGHT_WEIGHT: i32 = 1;
/// The denominator of the weights.
pub const WEIGHT_TOTAL: i32 = 16;

/// Residual accumulated for a pixel, per channel, in sixteenths of a channel step.
#[derive(Clone, Copy, Debug, PartialEq, Eq, Structural)]
pub struct Acc {
    pub r: i32,
    pub g: i32,
    pub b: i32,
}

impl View for Acc {
    type V = (int, int, int);

    open spec fn view(&self) -> (int, int, int) {
        (self.r as int, self.g as int, self.b as int)
    }
}

impl Acc {
    pub fn zero() -> (a: Acc)
        ensures
            a@ == zero3(),
    {
        Acc { r: 0, g: 0, b: 0 }
    }
}

pub open spec fn zero3() -> (int, int, int) {
    (0, 0, 0)
}

pub open spec fn add3(a: (int, int, int), b: (int, int, int)) -> (int, int, int) {
    (a.0 + b.0, a.1 + b.1, a.2 + b.2)
}

pub open spec fn scaled(w: int, d: (int, int, int)) -> (int, int, int) {
    (w * d.0, w * d.1, w * d.2)
}

/// One channel `v` with `a` sixteenths of a step added, saturating at 0 and 255.
pub open spec fn apply_channel(v: int, a: int) -> int {
    let s = 16 * v + a;
    if s >= 4096 {
        255
    } else if s <= 0 {
        0
    } else {
        s / 16
    }
}

/// The color `c` with the accumulated residual `a` applied to each channel.
pub open spec fn apply_residual(c: Rgb, a: (int, int, int)) -> Rgb {
    Rgb {
        r: apply_channel(c.r as int, a.0) as u8,
        g: apply_channel(c.g as int, a.1) as u8,
        b: apply_channel(c.b as int, a.2) as u8,
    }
}

/// The per-channel difference between `c` and the palette color chosen for it.
pub open spec fn residual(c: Rgb) -> (int, int, int) {
    let q = quantize(c);
    (c.r - q.r, c.g - q.g, c.b - q.b)
}

/// The color of pixel (x, y) once the residuals diffused into it from its
/// upstream neighbours (left, upper-left, upper, upper-right) are applied.
#[verifier::opaque]
pub open spec fn effective(img: Image, x: int, y: int) -> Rgb
    decreases y, x,
{
    if 0 <= x < img.width() && 0 <= y < img.height() {
        let left = if x >= 1 {
            scaled(RIGHT_WEIGHT as int, residual(effective(img, x - 1, y)))
        } else {
            zero3()
        };
        let upper_left = if y >= 1 && x >= 1 {
            scaled(DOWN_RIGHT_WEIGHT as int, residual(effective(img, x - 1, y - 1)))
        } else {
            zero3()
        };
        let upper = if y >= 1 {
            scaled(DOWN_WEIGHT as int, residual(effective(img, x, y - 1)))
        } else {
            zero3()
        };
        let upper_right = if y >= 1 && x + 1 < img.width() {
            scaled(DOWN_LEFT_WEIGHT as int, residual(effective(img, x + 1, y - 1)))
        } else {
            zero3()
        };
        apply_residual(img.pixel(x, y), add3(left, add3(upper_left, add3(upper, upper_right))))
    } else {
        Rgb { r: 0, g: 0, b: 0 }
    }
}

/// Residual left at pixel (x, y) after it is quantized.
pub open spec fn residual_at(img: Image, x: int, y: int) -> (int, int, int) {
    residual(effective(img, x, y))
}

/// What pixel (x, y) receives from its left neighbour.
pub open spec fn from_left(img: Image, x: int, y: int) -> (int, int, int) {
    if x >= 1 {
        scaled(RIGHT_WEIGHT as int, residual_at(img, x - 1, y))
    } else {
        zero3()
    }
}

/// What pixel (x, y) receives from those of row y - 1 whose column is below `upto`.
pub open spec fn from_above_upto(img: Image, x: int, y: int, upto: int) -> (int, int, int) {
    let upper_left = if y >= 1 && x >= 1 && x - 1 < upto {
        scaled(DOWN_RIGHT_WEIGHT as int, residual_at(img, x - 1, y - 1))
    } else {
        zero3()
    };
    let upper = if y >= 1 && x < upto {
        scaled(DOWN_WEIGHT as int, residual_at(img, x, y - 1))
    } else {
        zero3()
    };
    let upper_right = if y >= 1 && x + 1 < img.width() && x + 1 < upto {
        scaled(DOWN_LEFT_WEIGHT as int, residual_at(img, x + 1, y - 1))
    } else {
        zero3()
    };
    add3(upper_left, add3(upper, upper_right))
}

/// What pixel (x, y) receives from row y - 1.
pub open spec fn from_above(img: Image, x: int, y: int) -> (int, int, int) {
    from_above_upto(img, x, y, img.width() as int)
}

/// The palette color that pixel (x, y) becomes.
pub open spec fn dithered_pixel(img: Image, x: int, y: int) -> Rgb {
    quantize(effective(img, x, y))
}

/// The dithered image's pixels, row by row.
pub open spec fn dithered(img: Image) -> Seq<Rgb> {
    Seq::new(
        (img.width() * img.height()) as nat,
        |i: int| dithered_pixel(img, i % img.width() as int, i / img.width() as int),
    )
}

/// Replaces every pixel of an image by a palette color, diffusing each
/// pixel's quantization residual to its forward neighbours.
pub trait Converter {
    /// Returns the image converted to the palette.
    fn convert(&self, image: Image) -> (r: Image)
        requires
            image.wf(),
        ensures
            r.wf(),
            r.width() == image.width(),
            r.height() == image.height(),
            r.pixels() == dithered(image),
            forall|i: int| 0 <= i < r.pixels().len() ==> in_palette(#[trigger] r.pixels()[i]),
            (forall|i: int| 0 <= i < image.pixels().len() ==> in_palette(#[trigger] image.pixels()[i]))
                ==> r.pixels() == image.pixels(),
    ;
}

/// Any two images that a converter may return for the same input are the
/// same image: the result does not depend on how the work is scheduled.
pub proof fn lemma_converters_agree(image: Image, a: Image, b: Image)
    requires
        a.width() == image.width() && a.height() == image.height() && a.pixels() == dithered(image),
        b.width() == image.width() && b.height() == image.height() && b.pixels() == dithered(image),
    ensures
        a.width() == b.width(),
        a.height() == b.height(),
        a.pixels() == b.pixels(),
{
}

/// With nothing received, a pixel keeps its color, and the four shares of
/// its residual add up to the whole residual.
pub proof fn lemma_residual_conservation(c: Rgb)
    ensures
        apply_residual(c, zero3()) == c,
        add3(
            scaled(RIGHT_WEIGHT as int, residual(c)),
            add3(
                scaled(DOWN_LEFT_WEIGHT as int, residual(c)),
                add3(scaled(DOWN_WEIGHT as int, residual(c)), scaled(DOWN_RIGHT_WEIGHT as int, residual(c))),
            ),
        ) == scaled(WEIGHT_TOTAL as int, residual(c)),
{
}

/// A one-pixel image becomes the palette color chosen for its pixel, with
/// nothing diffused into it.
pub proof fn lemma_single_pixel(img: Image)
    requires
        img.wf(),
        img.width() == 1,
        img.height() == 1,
    ensures
        effective(img, 0, 0) == img.pixel(0, 0),
        dithered(img) == seq![quantize(img.pixel(0, 0))],
{
    reveal(effective);
    assert(dithered(img) =~= seq![quantize(img.pixel(0, 0))]);
}

/// On an image made of palette colors only, every pixel keeps its color.
proof fn lemma_palette_pixel_fixed(img: Image, x: int, y: int)
    requires
        palette_fixed(),
        forall|i: int| 0 <= i < img.pixels().len() ==> in_palette(#[trigger] img.pixels()[i]),
        img.pixels().len() == img.width() * img.height(),
        0 <= x < img.width(),
        0 <= y < img.height(),
    ensures
        effective(img, x, y) == img.pixel(x, y),
        residual_at(img, x, y) == zero3(),
    decreases y, x,
{
    if x >= 1 {
        lemma_palette_pixel_fixed(img, x - 1, y);
    }
    if y >= 1 {
        lemma_palette_pixel_fixed(img, x, y - 1);
        if x >= 1 {
            lemma_palette_pixel_fixed(img, x - 1, y - 1);
        }
        if x + 1 < img.width() {
            lemma_palette_pixel_fixed(img, x + 1, y - 1);
        }
    }
    reveal(effective);
    lemma_index_in_grid(x, y, img.width() as int, img.height() as int);
    let p = img.pixel(x, y);
    assert(in_palette(img.pixels()[y * img.width() + x]));
    let k = choose|k: int| 0 <= k < PALETTE_LEN && #[trigger] palette_color(k) == p;
    assert(quantize(palette_color(k)) == palette_color(k));
    assert(effective(img, x, y) == apply_residual(p, zero3()));
}

/// Converting an image whose pixels are all palette colors gives it back.
pub proof fn lemma_palette_image_fixed(img: Image)
    requires
        palette_fixed(),
        img.pixels().len() == img.width() * img.height(),
        forall|i: int| 0 <= i < img.pixels().len() ==> in_palette(#[trigger] img.pixels()[i]),
    ensures
        dithered(img) == img.pixels(),
{
    let w = img.width() as int;
    assert forall|i: int| 0 <= i < dithered(img).len() implies #[trigger] dithered(img)[i] == img.pixels()[i] by {
        lemma_fundamental_div_mod(i, w);
        assert(i / w < img.height()) by {
            if i / w >= img.height() {
                assert((i / w) * w >= img.height() * w) by (nonlinear_arith)
                    requires
                        i / w >= img.height(),
                        w >= 0,
                ;
            }
        }
        lemma_palette_pixel_fixed(img, i % w, i / w);
        let p = img.pixel(i % w, i / w);
        let k = choose|k: int| 0 <= k < PALETTE_LEN && #[trigger] palette_color(k) == p;
        assert(quantize(palette_color(k)) == palette_color(k));
    }
    assert(dithered(img) =~= img.pixels());
}

/// Entry `y * width + x` of the dithered image is the dithered pixel (x, y).
pub proof fn lemma_dithered_index(img: Image, x: int, y: int)
    requires
        0 <= x < img.width(),
        0 <= y < img.height(),
    ensures
        0 <= y * img.width() + x < dithered(img).len(),
        dithered(img)[y * img.width() + x] == dithered_pixel(img, x, y),
{
    let w = img.width() as int;
    lemma_index_in_grid(x, y, w, img.height() as int);
    lemma_fundamental_div_mod_converse(y * w + x, w, y, x);
}

/// Inside the image, the effective color is the original with what comes
/// from the left and from the row above applied.
pub proof fn lemma_effective_unfold(img: Image, x: int, y: int)
    requires
        0 <= x < img.width(),
        0 <= y < img.height(),
    ensures
        effective(img, x, y) == apply_residual(
            img.pixel(x, y),
            add3(from_left(img, x, y), from_above(img, x, y)),
        ),
{
    reveal(effective);
    let fa = from_above(img, x, y);
    assert(fa == add3(
        if y >= 1 && x >= 1 { scaled(1, residual_at(img, x - 1, y - 1)) } else { zero3() },
        add3(
            if y >= 1 { scaled(5, residual_at(img, x, y - 1)) } else { zero3() },
            if y >= 1 && x + 1 < img.width() { scaled(3, residual_at(img, x + 1, y - 1)) } else { zero3() },
        ),
    ));
}

/// Adding column `x` of row `y` to what row `y + 1` has received gives each
/// of its three targets below its share of the residual.
pub proof fn lemma_from_above_step(img: Image, t: int, y: int, x: int)
    requires
        0 <= x < img.width(),
        0 <= t < img.width(),
        0 <= y,
    ensures
        from_above_upto(img, t, y + 1, x + 1) == if t == x + 1 {
            add3(from_above_upto(img, t, y + 1, x), scaled(DOWN_RIGHT_WEIGHT as int, residual_at(img, x, y)))
        } else if t == x {
            add3(from_above_upto(img, t, y + 1, x), scaled(DOWN_WEIGHT as int, residual_at(img, x, y)))
        } else if t + 1 == x {
            add3(from_above_upto(img, t, y + 1, x), scaled(DOWN_LEFT_WEIGHT as int, residual_at(img, x, y)))
        } else {
            from_above_upto(img, t, y + 1, x)
        },
{
}

/// Once every column that reaches pixel (t, y) from above has been added,
/// the partial sum is the whole of what comes from above.
pub proof fn lemma_from_above_complete(img: Image, t: int, y: int, upto: int)
    requires
        0 <= t < img.width(),
        upto >= t + 2 || upto >= img.width(),
    ensures
        from_above_upto(img, t, y, upto) == from_above(img, t, y),
{
}

/// Adds `w` times the residual `d` to the accumulator `a`.
pub fn diffuse(a: Acc, d: [i16; 3], w: i32) -> (r: Acc)
    requires
        0 <= w <= WEIGHT_TOTAL,
        -255 <= d[0] <= 255,
        -255 <= d[1] <= 255,
        -255 <= d[2] <= 255,
        -1_000_000 <= a.r <= 1_000_000,
        -1_000_000 <= a.g <= 1_000_000,
        -1_000_000 <= a.b <= 1_000_000,
    ensures
        r@ == add3(a@, scaled(w as int, (d[0] as int, d[1] as int, d[2] as int))),
{
    assert(-4080 <= w * d[0] <= 4080) by (nonlinear_arith)
        requires 0 <= w <= 16, -255 <= d[0] <= 255;
    assert(-4080 <= w * d[1] <= 4080) by (nonlinear_arith)
        requires 0 <= w <= 16, -255 <= d[1] <= 255;
    assert(-4080 <= w * d[2] <= 4080) by (nonlinear_arith)
        requires 0 <= w <= 16, -255 <= d[2] <= 255;
    Acc {
        r: a.r + w * d[0] as i32,
        g: a.g + w * d[1] as i32,
        b: a.b + w * d[2] as i32,
    }
}

fn apply_to_channel(v: u8, a: i32) -> (r: u8)
    ensures
        r == apply_channel(v as int, a as int),
{
    let s: i64 = 16 * v as i64 + a as i64;
    if s >= 4096 {
        255
    } else if s <= 0 {
        0
    } else {
        (s / 16) as u8
    }
}

/// Adds the accumulated residual `a` to the color `c`, saturating each channel
/// at 0 and 255.
pub fn distribute_rgb_channels(c: Rgb, a: Acc) -> (r: Rgb)
    ensures
        r == apply_residual(c, a@),
{
    Rgb { r: apply_to_channel(c.r, a.r), g: apply_to_channel(c.g, a.g), b: apply_to_channel(c.b, a.b) }
}

/// One step of error diffusion: applies the accumulated residual to the
/// original color, and returns the palette color chosen for the result with
/// the residual left over.
pub fn quantize_step(tree: &ColorTree, original: Rgb, incoming: Acc) -> (r: (Rgb, [i16; 3]))
    ensures
        r.0 == quantize(apply_residual(original, incoming@)),
        in_palette(r.0),
        (r.1[0] as int, r.1[1] as int, r.1[2] as int) == residual(apply_residual(original, incoming@)),
        -255 <= r.1[0] <= 255,
        -255 <= r.1[1] <= 255,
        -255 <= r.1[2] <= 255,
{
    let color = distribute_rgb_channels(original, incoming);
    tree.find_closest(&color)
}

} // verus!
