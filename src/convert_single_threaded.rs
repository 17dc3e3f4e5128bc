use vstd::prelude::*;

use crate::colors::{get_color_tree, palette_fixed, ColorTree};
use crate::convert::{
    diffuse, dithered, from_above, from_above_upto, from_left, lemma_dithered_index,
    lemma_effective_unfold, lemma_from_above_step, lemma_palette_image_fixed, quantize_step, Acc,
    Converter, DOWN_LEFT_WEIGHT, DOWN_RIGHT_WEIGHT, DOWN_WEIGHT, RIGHT_WEIGHT,
};
use crate::image::{Image, Rgb};
use crate::palette::in_palette;

verus! {

/// Converts an image by visiting its pixels one at a time, row by row.
pub struct SingleThreadedConverter {
    tree: ColorTree,
}

impl SingleThreadedConverter {
    pub fn new() -> (c: Self) {
        SingleThreadedConverter { tree: get_color_tree() }
    }
}

impl Converter for SingleThreadedConverter {
    fn convert(&self, image: Image) -> (r: Image) {
        let (width, height) = image.dimensions();
        let ghost w = width as int;
        let ghost img = image;
        let palette_fixed_point = self.tree.palette_is_fixed();
        let mut out: Vec<Rgb> = Vec::new();
        // Residuals that the row being visited receives from the row above.
        let mut current: Vec<Acc> = Vec::new();
        let mut t: usize = 0;
        while t < width as usize
            invariant
                t <= width,
                current@.len() == t,
                forall|i: int| 0 <= i < t ==> (#[trigger] current@[i])@ == from_above(img, i, 0),
            decreases width - t,
        {
            current.push(Acc::zero());
            t += 1;
        }
        let mut y: u32 = 0;
        while y < height
            invariant
                image == img,
                palette_fixed(),
                w == width as int,
                img.wf(),
                width == img.width(),
                height == img.height(),
                img.pixels().len() == w * height,
                y <= height,
                current@.len() == w,
                forall|i: int| 0 <= i < w ==> (#[trigger] current@[i])@ == from_above(img, i, y as int),
                out@.len() == y * w,
                forall|i: int| 0 <= i < out@.len() ==> #[trigger] out@[i] == dithered(img)[i],
                forall|i: int| 0 <= i < out@.len() ==> in_palette(#[trigger] out@[i]),
            decreases height - y,
        {
            // Residuals that the next row receives from this one.
            let mut below: Vec<Acc> = Vec::new();
            let mut t: usize = 0;
            while t < width as usize
                invariant
                    t <= width,
                    below@.len() == t,
                    forall|i: int| 0 <= i < t ==> (#[trigger] below@[i])@ == from_above_upto(img, i, y + 1, 0),
                decreases width - t,
            {
                below.push(Acc::zero());
                t += 1;
            }
            let mut carry = Acc::zero();
            let mut x: u32 = 0;
            while x < width
                invariant
                    image == img,
                    palette_fixed(),
                palette_fixed(),
                    w == width as int,
                    img.wf(),
                    width == img.width(),
                    height == img.height(),
                    y < height,
                    x <= width,
                    current@.len() == w,
                    forall|i: int| 0 <= i < w ==> (#[trigger] current@[i])@ == from_above(img, i, y as int),
                    below@.len() == w,
                    forall|i: int| 0 <= i < w
                        ==> (#[trigger] below@[i])@ == from_above_upto(img, i, y + 1, x as int),
                    carry@ == from_left(img, x as int, y as int),
                    out@.len() == y * w + x,
                    forall|i: int| 0 <= i < out@.len() ==> #[trigger] out@[i] == dithered(img)[i],
                forall|i: int| 0 <= i < out@.len() ==> in_palette(#[trigger] out@[i]),
                decreases width - x,
            {
                proof {
                    lemma_effective_unfold(img, x as int, y as int);
                }
                let incoming = Acc {
                    r: carry.r + current[x as usize].r,
                    g: carry.g + current[x as usize].g,
                    b: carry.b + current[x as usize].b,
                };
                let (closest, d) = quantize_step(&self.tree, image.get_pixel(x, y), incoming);
                proof {
                    lemma_dithered_index(img, x as int, y as int);
                }
                out.push(closest);
                let ghost before = below@;
                carry = diffuse(Acc::zero(), d, RIGHT_WEIGHT);
                if x >= 1 {
                    let a = diffuse(below[x as usize - 1], d, DOWN_LEFT_WEIGHT);
                    below.set(x as usize - 1, a);
                }
                let a = diffuse(below[x as usize], d, DOWN_WEIGHT);
                below.set(x as usize, a);
                if x + 1 < width {
                    let a = diffuse(below[x as usize + 1], d, DOWN_RIGHT_WEIGHT);
                    below.set(x as usize + 1, a);
                }
                x += 1;
                assert forall|i: int| 0 <= i < w implies (#[trigger] below@[i])@ == from_above_upto(
                    img,
                    i,
                    y + 1,
                    x as int,
                ) by {
                    lemma_from_above_step(img, i, y as int, x - 1);
                    assert(before[i]@ == from_above_upto(img, i, y + 1, x - 1));
                }
            }
            assert(y * w + w == (y + 1) * w) by (nonlinear_arith);
            current = below;
            y += 1;
        }
        assert(y * w == w * height) by (nonlinear_arith)
            requires
                y == height,
        ;
        assert(out@ =~= dithered(img));
        proof {
            if forall|i: int| 0 <= i < img.pixels().len() ==> in_palette(#[trigger] img.pixels()[i]) {
                lemma_palette_image_fixed(img);
            }
        }
        Image::from_raw(width, height, out)
    }
}

} // verus!
