use vstd::prelude::*;

use crate::colors::{get_color_tree, palette_fixed, quantize, ColorTree};
use crate::convert::{
    add3, apply_residual, diffuse, dithered, from_above, from_above_upto, from_left,
    lemma_dithered_index, lemma_effective_unfold, lemma_from_above_complete, lemma_from_above_step,
    lemma_palette_image_fixed, quantize_step, residual, scaled, zero3, Acc, Converter,
    DOWN_LEFT_WEIGHT, DOWN_RIGHT_WEIGHT, DOWN_WEIGHT, RIGHT_WEIGHT,
};
use crate::image::{Image, Rgb};
use crate::palette::in_palette;

verus! {

/// Largest magnitude, per channel, of what a pixel receives from the row above.
pub const MAX_FROM_ABOVE: i32 = 2295;

/// Whether every channel of `a` lies within `-bound..=bound`.
pub open spec fn bounded(a: Acc, bound: int) -> bool {
    &&& -bound <= a.r <= bound
    &&& -bound <= a.g <= bound
    &&& -bound <= a.b <= bound
}

/// The state of the worker that dithers one row of the channel pipeline.
///
/// The worker visits the columns in order. It keeps what the pixel to its
/// right receives (`carry`), and a rotating three-slot accumulator of what
/// it sends to the row below: `slots[0]` is for the column left of the
/// current one, `slots[1]` for the current column and `slots[2]` for the
/// column to its right. Each completed slot goes to the row below as one
/// message, in column order.
pub struct RowWorker {
    pub width: u32,
    pub x: u32,
    pub carry: Acc,
    pub slots: [Acc; 3],
}

impl RowWorker {
    pub open spec fn wf(&self) -> bool {
        &&& self.x <= self.width
        &&& bounded(self.carry, 1785)
        &&& bounded(self.slots[0], 1530)
        &&& bounded(self.slots[1], 255)
        &&& self.slots[2]@ == zero3()
    }

    /// A worker about to visit the first column of a row of `width` pixels.
    pub fn new(width: u32) -> (w: RowWorker)
        ensures
            w.wf(),
            w.width == width,
            w.x == 0,
            w.carry@ == zero3(),
            w.slots[0]@ == zero3(),
            w.slots[1]@ == zero3(),
    {
        RowWorker { width, x: 0, carry: Acc::zero(), slots: [Acc::zero(), Acc::zero(), Acc::zero()] }
    }

    /// Visits the next column: `original` is the pixel's color in the input,
    /// `above` what the row above sent for this column. Returns the palette
    /// color of the pixel, and the message for the row below, if a slot is
    /// complete (every column but the first completes the slot to its left).
    pub fn step(&mut self, tree: &ColorTree, original: Rgb, above: Acc) -> (r: (Rgb, Option<Acc>))
        requires
            old(self).wf(),
            old(self).x < old(self).width,
            bounded(above, MAX_FROM_ABOVE as int),
        ensures
            ({
                let e = apply_residual(original, add3(old(self).carry@, above@));
                let d = residual(e);
                &&& r.0 == quantize(e)
                &&& in_palette(r.0)
                &&& final(self).wf()
                &&& final(self).width == old(self).width
                &&& final(self).x == old(self).x + 1
                &&& final(self).carry@ == scaled(RIGHT_WEIGHT as int, d)
                &&& final(self).slots[0]@ == add3(old(self).slots[1]@, scaled(DOWN_WEIGHT as int, d))
                &&& final(self).slots[1]@ == if old(self).x + 1 < old(self).width {
                    scaled(DOWN_RIGHT_WEIGHT as int, d)
                } else {
                    zero3()
                }
                &&& r.1 == if old(self).x >= 1 {
                    Some(
                        Acc {
                            r: (old(self).slots[0].r + DOWN_LEFT_WEIGHT * d.0) as i32,
                            g: (old(self).slots[0].g + DOWN_LEFT_WEIGHT * d.1) as i32,
                            b: (old(self).slots[0].b + DOWN_LEFT_WEIGHT * d.2) as i32,
                        },
                    )
                } else {
                    None::<Acc>
                }
            }),
    {
        let incoming = Acc {
            r: self.carry.r + above.r,
            g: self.carry.g + above.g,
            b: self.carry.b + above.b,
        };
        let (closest, d) = quantize_step(tree, original, incoming);
        let message = if self.x >= 1 {
            Some(diffuse(self.slots[0], d, DOWN_LEFT_WEIGHT))
        } else {
            None
        };
        let next = diffuse(self.slots[1], d, DOWN_WEIGHT);
        let right = if self.x + 1 < self.width {
            diffuse(Acc::zero(), d, DOWN_RIGHT_WEIGHT)
        } else {
            Acc::zero()
        };
        self.carry = diffuse(Acc::zero(), d, RIGHT_WEIGHT);
        self.slots = [next, right, Acc::zero()];
        self.x = self.x + 1;
        (closest, message)
    }

    /// After the last column: the slot of the last column, the final message
    /// for the row below.
    pub fn finish(&self) -> (m: Acc)
        requires
            self.wf(),
        ensures
            m == self.slots[0],
    {
        self.slots[0]
    }
}

/// Whether the worker of row `y` starts the worker of the next row right
/// after visiting column `x`: once it has visited its second column (its
/// only one in an image one pixel wide), unless it is the last row.
pub fn spawns_successor(x: u32, y: u32, width: u32, height: u32) -> (r: bool)
    ensures
        r == (y + 1 < height && (x == 1 || (width == 1 && x == 0))),
{
    y < height && y + 1 < height && (x == 1 || (width == 1 && x == 0))
}

/// Converts an image with one worker per row; each worker passes what the
/// row below receives from it as messages, one per column.
pub struct ChannelConverter {
    tree: ColorTree,
}

impl ChannelConverter {
    pub fn new() -> (c: Self) {
        ChannelConverter { tree: get_color_tree() }
    }
}

impl Converter for ChannelConverter {
    /// Runs the row workers one after the other, each reading in column
    /// order the messages that the previous one sent.
    fn convert(&self, image: Image) -> (r: Image) {
        let (width, height) = image.dimensions();
        let ghost w = width as int;
        let ghost img = image;
        let palette_fixed_point = self.tree.palette_is_fixed();
        let mut out: Vec<Rgb> = Vec::new();
        // The messages of the previous row; the first row receives none.
        let mut received: Vec<Acc> = Vec::new();
        let mut t: usize = 0;
        while t < width as usize
            invariant
                t <= width,
                received@.len() == t,
                forall|i: int| 0 <= i < t ==> (#[trigger] received@[i])@ == from_above(img, i, 0),
            decreases width - t,
        {
            received.push(Acc::zero());
            t += 1;
        }
        let mut y: u32 = 0;
        while y < height
            invariant
                image == img,
                palette_fixed(),
                w == width as int,
                img.wf(),
                width == img.width(),
                height == img.height(),
                img.pixels().len() == w * height,
                y <= height,
                received@.len() == w,
                forall|i: int| 0 <= i < w ==> (#[trigger] received@[i])@ == from_above(img, i, y as int),
                out@.len() == y * w,
                forall|i: int| 0 <= i < out@.len() ==> #[trigger] out@[i] == dithered(img)[i],
                forall|i: int| 0 <= i < out@.len() ==> in_palette(#[trigger] out@[i]),
            decreases height - y,
        {
            let mut worker = RowWorker::new(width);
            let mut sent: Vec<Acc> = Vec::new();
            let mut x: u32 = 0;
            while x < width
                invariant
                    image == img,
                    palette_fixed(),
                palette_fixed(),
                    w == width as int,
                    img.wf(),
                    width == img.width(),
                    height == img.height(),
                    y < height,
                    x <= width,
                    received@.len() == w,
                    forall|i: int| 0 <= i < w ==> (#[trigger] received@[i])@ == from_above(img, i, y as int),
                    worker.wf(),
                    worker.width == width,
                    worker.x == x,
                    worker.carry@ == from_left(img, x as int, y as int),
                    x >= 1 ==> worker.slots[0]@ == from_above_upto(img, x - 1, y + 1, x as int),
                    x < width ==> worker.slots[1]@ == from_above_upto(img, x as int, y + 1, x as int),
                    sent@.len() == if x == 0 { 0 } else { x - 1 },
                    forall|i: int| 0 <= i < sent@.len() ==> (#[trigger] sent@[i])@ == from_above(img, i, y + 1),
                    out@.len() == y * w + x,
                    forall|i: int| 0 <= i < out@.len() ==> #[trigger] out@[i] == dithered(img)[i],
                forall|i: int| 0 <= i < out@.len() ==> in_palette(#[trigger] out@[i]),
                decreases width - x,
            {
                proof {
                    lemma_effective_unfold(img, x as int, y as int);
                    lemma_dithered_index(img, x as int, y as int);
                    lemma_from_above_step(img, x as int, y as int, x as int);
                    if x + 1 < width {
                        lemma_from_above_step(img, x + 1, y as int, x as int);
                    }
                    if x >= 1 {
                        lemma_from_above_step(img, x - 1, y as int, x as int);
                        lemma_from_above_complete(img, x - 1, y + 1, x + 1);
                    }
                }
                let (closest, message) = worker.step(&self.tree, image.get_pixel(x, y), received[x as usize]);
                out.push(closest);
                match message {
                    Some(m) => {
                        sent.push(m);
                    },
                    None => {},
                }
                x += 1;
            }
            if width > 0 {
                proof {
                    lemma_from_above_complete(img, w - 1, y + 1, w);
                }
                sent.push(worker.finish());
            }
            assert(y * w + w == (y + 1) * w) by (nonlinear_arith);
            received = sent;
            y += 1;
        }
        assert(y * w == w * height) by (nonlinear_arith)
            requires
                y == height,
        ;
        assert(out@ =~= dithered(img));
        proof {
            if forall|i: int| 0 <= i < img.pixels().len() ==> in_palette(#[trigger] img.pixels()[i]) {
                lemma_palette_image_fixed(img);
            }
        }
        Image::from_raw(width, height, out)
    }
}

} // verus!
