use vstd::prelude::*;

use crate::colors::{get_color_tree, palette_fixed, ColorTree};
use crate::convert::{
    add3, diffuse, dithered, from_above, from_above_upto, from_left, lemma_dithered_index,
    lemma_effective_unfold, lemma_from_above_step, lemma_palette_image_fixed, quantize_step,
    residual_at, scaled, zero3, Acc, Converter, DOWN_LEFT_WEIGHT, DOWN_RIGHT_WEIGHT, DOWN_WEIGHT,
    RIGHT_WEIGHT,
};
use crate::convert_channels::bounded;
use crate::image::{lemma_index_in_grid, Image, Rgb};
use crate::palette::in_palette;
use vstd::arithmetic::div_mod::{lemma_fundamental_div_mod, lemma_fundamental_div_mod_converse};

verus! {

/// A pixel that diffusion targets: its column, its row and the weight, in
/// sixteenths, of the residual it receives.
pub type Target = (u32, u32, i32);

/// The forward neighbours of pixel (x, y) that lie inside a width × height
/// image, with their weights, in the order right, lower-left, lower,
/// lower-right. Neighbours outside the image are left out.
pub open spec fn targets_in_bounds(x: u32, y: u32, width: u32, height: u32) -> Seq<Target> {
    let right = if x + 1 < width { seq![((x + 1) as u32, y, RIGHT_WEIGHT)] } else { Seq::empty() };
    let below = if y + 1 < height {
        let lower_left = if x >= 1 { seq![((x - 1) as u32, (y + 1) as u32, DOWN_LEFT_WEIGHT)] } else { Seq::empty() };
        let lower_right = if x + 1 < width {
            seq![((x + 1) as u32, (y + 1) as u32, DOWN_RIGHT_WEIGHT)]
        } else {
            Seq::empty()
        };
        lower_left + seq![(x, (y + 1) as u32, DOWN_WEIGHT)] + lower_right
    } else {
        Seq::empty()
    };
    right + below
}

/// Returns the forward neighbours of pixel (x, y) inside the image, with
/// the weights of the residual they receive.
pub fn forward_targets(x: u32, y: u32, width: u32, height: u32) -> (r: Vec<Target>)
    requires
        x < width,
        y < height,
    ensures
        r@ == targets_in_bounds(x, y, width, height),
{
    let mut r: Vec<Target> = Vec::new();
    if x + 1 < width {
        r.push((x + 1, y, RIGHT_WEIGHT));
    }
    if y + 1 < height {
        if x >= 1 {
            r.push((x - 1, y + 1, DOWN_LEFT_WEIGHT));
        }
        r.push((x, y + 1, DOWN_WEIGHT));
        if x + 1 < width {
            r.push((x + 1, y + 1, DOWN_RIGHT_WEIGHT));
        }
    }
    assert(r@ =~= targets_in_bounds(x, y, width, height));
    r
}

/// What pixel (tx, ty) has received once every pixel before (x, y) in row
/// order has diffused its residual; meaningful for (tx, ty) at or after (x, y).
pub open spec fn received_before(img: Image, tx: int, ty: int, x: int, y: int) -> (int, int, int) {
    if ty == y {
        add3(from_above(img, tx, ty), if tx == x { from_left(img, x, y) } else { zero3() })
    } else if ty == y + 1 {
        from_above_upto(img, tx, ty, x)
    } else {
        zero3()
    }
}

/// A cell whose row-major index is at or after that of (x, y) lies in a
/// later row, or in row y at or right of column x.
proof fn lemma_cell_after(i: int, w: int, tx: int, ty: int, x: int, y: int)
    requires
        0 <= x <= w,
        0 <= tx < w,
        i == ty * w + tx,
        i >= y * w + x,
    ensures
        ty > y || (ty == y && tx >= x),
{
    if ty < y {
        assert(ty * w + tx < y * w) by (nonlinear_arith)
            requires
                ty < y,
                0 <= tx < w,
        ;
    }
}

/// The weight, in sixteenths, with which cell `i` of a w × h grid receives
/// the residual of pixel (x, y).
pub open spec fn visit_share(w: int, h: int, x: int, y: int, i: int) -> int {
    if x + 1 < w && i == y * w + x + 1 {
        RIGHT_WEIGHT as int
    } else if y + 1 < h && x >= 1 && i == y * w + w + x - 1 {
        DOWN_LEFT_WEIGHT as int
    } else if y + 1 < h && i == y * w + w + x {
        DOWN_WEIGHT as int
    } else if y + 1 < h && x + 1 < w && i == y * w + w + x + 1 {
        DOWN_RIGHT_WEIGHT as int
    } else {
        0
    }
}

/// Adding the residual of pixel (x, y) to its forward neighbours' cells
/// brings every later cell to what it has received before (x + 1, y).
#[verifier::rlimit(40)]
proof fn lemma_cells_after_visit(
    img: Image,
    before: Seq<Acc>,
    after: Seq<Acc>,
    x: int,
    y: int,
    d: (int, int, int),
)
    requires
        0 <= x < img.width(),
        0 <= y < img.height(),
        before.len() == img.width() * img.height(),
        after.len() == before.len(),
        d == residual_at(img, x, y),
        forall|i: int| y * img.width() + x <= i < before.len() ==> (#[trigger] before[i])@
            == received_before(img, i % img.width() as int, i / img.width() as int, x, y),
        forall|i: int| 0 <= i < before.len() ==> (#[trigger] after[i])@ == add3(
            before[i]@,
            scaled(visit_share(img.width() as int, img.height() as int, x, y, i), d),
        ),
    ensures
        forall|i: int| y * img.width() + x + 1 <= i < after.len() ==> (#[trigger] after[i])@
            == received_before(img, i % img.width() as int, i / img.width() as int, x + 1, y),
{
    let w = img.width() as int;
    let h = img.height() as int;
    assert forall|i: int| y * w + x + 1 <= i < after.len() implies (#[trigger] after[i])@
        == received_before(img, i % w, i / w, x + 1, y) by {
        lemma_fundamental_div_mod(i, w);
        let tx = i % w;
        let ty = i / w;
        lemma_cell_after(i, w, tx, ty, x + 1, y);
        assert((y + 1) * w == y * w + w) by (nonlinear_arith);
        assert(before[i]@ == received_before(img, tx, ty, x, y));
        assert(ty < h) by (nonlinear_arith)
            requires
                i == ty * w + tx,
                0 <= tx,
                i < w * h,
                0 <= w,
        ;
        if ty == y {
            assert(ty * w == y * w);
        }
        if ty == y + 1 {
            assert(ty * w == y * w + w);
            lemma_from_above_step(img, tx, y, x);
        }
        if ty > y + 1 {
            assert(ty * w >= y * w + w + w) by (nonlinear_arith)
                requires
                    ty >= y + 2,
                    w >= 0,
            ;
        }
        let lhs = after[i]@;
        let rhs = received_before(img, tx, ty, x + 1, y);
        assert(lhs.0 == rhs.0);
        assert(lhs.1 == rhs.1);
        assert(lhs.2 == rhs.2);
    }
}

/// Adds `weight` times the residual `d` to cell `j`.
fn diffuse_into(cells: &mut Vec<Acc>, j: usize, d: [i16; 3], weight: i32)
    requires
        j < old(cells)@.len(),
        0 <= weight <= 16,
        -255 <= d[0] <= 255,
        -255 <= d[1] <= 255,
        -255 <= d[2] <= 255,
        -1_000_000 <= old(cells)@[j as int].r <= 1_000_000,
        -1_000_000 <= old(cells)@[j as int].g <= 1_000_000,
        -1_000_000 <= old(cells)@[j as int].b <= 1_000_000,
    ensures
        final(cells)@.len() == old(cells)@.len(),
        forall|i: int| 0 <= i < old(cells)@.len() && i != j ==> final(cells)@[i] == old(cells)@[i],
        final(cells)@[j as int]@ == add3(
            old(cells)@[j as int]@,
            scaled(weight as int, (d[0] as int, d[1] as int, d[2] as int)),
        ),
{
    let a = diffuse(cells[j], d, weight);
    cells.set(j, a);
}

/// What a pixel has received is at most 16 residuals' worth per channel.
proof fn lemma_received_bounded(img: Image, tx: int, ty: int, x: int, y: int)
    ensures
        -4080 <= received_before(img, tx, ty, x, y).0 <= 4080,
        -4080 <= received_before(img, tx, ty, x, y).1 <= 4080,
        -4080 <= received_before(img, tx, ty, x, y).2 <= 4080,
{
}

/// Adds the residual `d` of pixel (x, y), with its weights, to the cells of
/// its forward neighbours inside the image.
fn scatter(cells: &mut Vec<Acc>, here: usize, width: u32, height: u32, x: u32, y: u32, d: [i16; 3])
    requires
        x < width,
        y < height,
        here == y * width + x,
        old(cells)@.len() == width * height,
        -255 <= d[0] <= 255,
        -255 <= d[1] <= 255,
        -255 <= d[2] <= 255,
        forall|i: int| 0 <= i < old(cells)@.len() && visit_share(width as int, height as int, x as int, y as int, i) != 0
            ==> bounded(#[trigger] old(cells)@[i], 4080),
    ensures
        final(cells)@.len() == old(cells)@.len(),
        forall|i: int| 0 <= i < old(cells)@.len() ==> (#[trigger] final(cells)@[i])@ == add3(
            old(cells)@[i]@,
            scaled(
                visit_share(width as int, height as int, x as int, y as int, i),
                (d[0] as int, d[1] as int, d[2] as int),
            ),
        ),
{
    let n: usize = cells.len();
    let ghost w = width as int;
    let ghost h = height as int;
    proof {
        lemma_index_in_grid(x as int, y as int, w, h);
        if x + 1 < width {
            lemma_index_in_grid(x + 1, y as int, w, h);
        }
        if y + 1 < height {
            lemma_index_in_grid(x as int, y + 1, w, h);
            assert((y + 1) * w == y * w + w) by (nonlinear_arith);
            if x + 1 < width {
                lemma_index_in_grid(x + 1, y + 1, w, h);
            }
        }
    }
    if x + 1 < width {
        diffuse_into(cells, here + 1, d, RIGHT_WEIGHT);
    }
    if y + 1 < height {
        let below: usize = here + width as usize;
        if x >= 1 {
            diffuse_into(cells, below - 1, d, DOWN_LEFT_WEIGHT);
        }
        diffuse_into(cells, below, d, DOWN_WEIGHT);
        if x + 1 < width {
            diffuse_into(cells, below + 1, d, DOWN_RIGHT_WEIGHT);
        }
    }
}

/// Converts an image in which every pixel is a cell of its own that the
/// visits of its upstream neighbours add their residuals to.
pub struct MutexConverter {
    tree: ColorTree,
}

impl MutexConverter {
    pub fn new() -> (c: Self) {
        MutexConverter { tree: get_color_tree() }
    }
}

impl Converter for MutexConverter {
    /// Visits the cells in row order; each visit quantizes its cell and adds
    /// the residual straight into the cells of its forward neighbours.
    #[verifier::rlimit(50)]
    fn convert(&self, image: Image) -> (r: Image) {
        let (width, height) = image.dimensions();
        let ghost w = width as int;
        let ghost img = image;
        let palette_fixed_point = self.tree.palette_is_fixed();
        let n: usize = image.as_pixels().len();
        let mut cells: Vec<Acc> = Vec::new();
        let mut t: usize = 0;
        while t < n
            invariant
                t <= n,
                cells@.len() == t,
                forall|i: int| 0 <= i < t ==> (#[trigger] cells@[i])@ == zero3(),
            decreases n - t,
        {
            cells.push(Acc::zero());
            t += 1;
        }
        assert forall|i: int| 0 <= i < n implies (#[trigger] cells@[i])@ == received_before(
            img,
            i % w,
            i / w,
            0,
            0,
        ) by {
            if w > 0 {
                lemma_fundamental_div_mod(i, w);
            }
        }
        let mut out: Vec<Rgb> = Vec::new();
        let mut y: u32 = 0;
        while y < height
            invariant
                image == img,
                palette_fixed(),
                w == width as int,
                img.wf(),
                width == img.width(),
                height == img.height(),
                n == w * height,
                cells@.len() == n,
                y <= height,
                forall|i: int| y * w <= i < n ==> (#[trigger] cells@[i])@ == received_before(
                    img,
                    i % w,
                    i / w,
                    0,
                    y as int,
                ),
                out@.len() == y * w,
                forall|i: int| 0 <= i < out@.len() ==> #[trigger] out@[i] == dithered(img)[i],
                forall|i: int| 0 <= i < out@.len() ==> in_palette(#[trigger] out@[i]),
            decreases height - y,
        {
            let mut x: u32 = 0;
            while x < width
                invariant
                    image == img,
                    palette_fixed(),
                palette_fixed(),
                    w == width as int,
                    img.wf(),
                    width == img.width(),
                    height == img.height(),
                    n == w * height,
                    cells@.len() == n,
                    y < height,
                    x <= width,
                    forall|i: int| y * w + x <= i < n ==> (#[trigger] cells@[i])@ == received_before(
                        img,
                        i % w,
                        i / w,
                        x as int,
                        y as int,
                    ),
                    out@.len() == y * w + x,
                    forall|i: int| 0 <= i < out@.len() ==> #[trigger] out@[i] == dithered(img)[i],
                forall|i: int| 0 <= i < out@.len() ==> in_palette(#[trigger] out@[i]),
                decreases width - x,
            {
                proof {
                    lemma_index_in_grid(x as int, y as int, w, height as int);
                    lemma_fundamental_div_mod_converse(y * w + x, w, y as int, x as int);
                    lemma_effective_unfold(img, x as int, y as int);
                    lemma_dithered_index(img, x as int, y as int);
                }
                let here: usize = y as usize * width as usize + x as usize;
                let (closest, d) = quantize_step(&self.tree, image.get_pixel(x, y), cells[here]);
                out.push(closest);
                let ghost before = cells@;
                proof {
                    assert forall|i: int| 0 <= i < n && visit_share(w, height as int, x as int, y as int, i) != 0
                        implies bounded(#[trigger] cells@[i], 4080) by {
                        lemma_fundamental_div_mod(i, w);
                        lemma_received_bounded(img, i % w, i / w, x as int, y as int);
                        assert((y + 1) * w == y * w + w) by (nonlinear_arith);
                    }
                }
                scatter(&mut cells, here, width, height, x, y, d);
                x += 1;
                proof {
                    let d3 = (d[0] as int, d[1] as int, d[2] as int);
                    lemma_cells_after_visit(img, before, cells@, x - 1, y as int, d3);
                }
            }
            assert forall|i: int| (y + 1) * w <= i < n implies (#[trigger] cells@[i])@ == received_before(
                img,
                i % w,
                i / w,
                0,
                y + 1,
            ) by {
                lemma_fundamental_div_mod(i, w);
                assert(y * w + w == (y + 1) * w) by (nonlinear_arith);
                lemma_cell_after(i, w, i % w, i / w, 0, y + 1);
            }
            assert(y * w + w == (y + 1) * w) by (nonlinear_arith);
            y += 1;
        }
        assert(y * w == w * height) by (nonlinear_arith)
            requires
                y == height,
        ;
        assert(out@ =~= dithered(img));
        proof {
            if forall|i: int| 0 <= i < img.pixels().len() ==> in_palette(#[trigger] img.pixels()[i]) {
                lemma_palette_image_fixed(img);
            }
        }
        Image::from_raw(width, height, out)
    }
}

} // verus!
