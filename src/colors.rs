use vstd::prelude::*;

use crate::image::Rgb;
use crate::palette::{in_palette, palette_color, palette_entry, PALETTE_LEN};
use kd_tree::KdTree3;

verus! {

/// A palette entry as stored in the k-d tree: its channels as coordinates, and
/// its index in the palette.
pub type SearchableRgb = ([i32; 3], usize);

/// A k-d tree over palette entries. It is held behind an opaque wrapper; what
/// the library relies on is stated by `tree_source` and the functions below.
#[verifier::external_body]
pub struct PaletteTree {
    tree: KdTree3<SearchableRgb>,
}

/// The sequence of items that a k-d tree was built from, in the order given to `build`.
pub uninterp spec fn tree_source(t: PaletteTree) -> Seq<SearchableRgb>;

/// The item that `kd_tree`'s nearest-neighbour search returns for `query` on a
/// tree built from `items`. The build and the search are deterministic, so
/// this depends on the two arguments alone.
pub uninterp spec fn kd_nearest_of(items: Seq<SearchableRgb>, query: [i32; 3]) -> SearchableRgb;

/// Squared Euclidean distance between two points.
pub open spec fn dist2(a: [i32; 3], b: [i32; 3]) -> int {
    (a[0] - b[0]) * (a[0] - b[0]) + (a[1] - b[1]) * (a[1] - b[1]) + (a[2] - b[2]) * (a[2] - b[2])
}

/// All coordinates of `p` are channel values.
pub open spec fn in_channel_range(p: [i32; 3]) -> bool {
    &&& 0 <= p[0] <= 255
    &&& 0 <= p[1] <= 255
    &&& 0 <= p[2] <= 255
}

/// The point of RGB space that a color stands at.
pub open spec fn rgb_point(c: Rgb) -> [i32; 3] {
    [c.r as i32, c.g as i32, c.b as i32]
}

/// Relies on kd_tree::KdTreeN::build (through the `KdTree3` alias): the tree holds the given items, and
/// what it answers depends on them and their order alone.
#[verifier::external_body]
fn kd_build(items: Vec<SearchableRgb>) -> (t: PaletteTree)
    ensures
        tree_source(t) == items@,
{
    PaletteTree { tree: KdTree3::build(items) }
}

/// Relies on kd_tree::KdSliceN::nearest: on a non-empty tree it returns one of
/// the items at the least squared distance from the query. The distance is
/// computed in `i32`, which cannot overflow on channel values.
#[verifier::external_body]
fn kd_nearest(t: &PaletteTree, query: [i32; 3]) -> (r: SearchableRgb)
    requires
        tree_source(*t).len() > 0,
        forall|i: int| 0 <= i < tree_source(*t).len() ==> in_channel_range(#[trigger] tree_source(*t)[i].0),
        in_channel_range(query),
    ensures
        r == kd_nearest_of(tree_source(*t), query),
        tree_source(*t).contains(r),
        forall|i: int| 0 <= i < tree_source(*t).len()
            ==> dist2(query, r.0) <= dist2(query, #[trigger] tree_source(*t)[i].0),
{
    *t.tree.nearest(&query).unwrap().item
}

/// The items the palette index is built from: each palette color's point,
/// tagged with its index, in palette order.
pub open spec fn palette_items() -> Seq<SearchableRgb> {
    Seq::new(PALETTE_LEN as nat, |i: int| (rgb_point(palette_color(i)), i as usize))
}

/// Index of the palette color that the palette index answers for `c`.
pub open spec fn nearest_index(c: Rgb) -> int {
    kd_nearest_of(palette_items(), rgb_point(c)).1 as int
}

/// The palette color that the palette index answers for `c`.
pub open spec fn quantize(c: Rgb) -> Rgb {
    palette_color(nearest_index(c))
}

/// Every palette color is its own nearest palette color.
pub open spec fn palette_fixed() -> bool {
    forall|i: int| 0 <= i < PALETTE_LEN ==> #[trigger] quantize(palette_color(i)) == palette_color(i)
}

/// Points at squared distance zero are equal in each coordinate.
proof fn lemma_dist2_zero(a: [i32; 3], b: [i32; 3])
    requires
        dist2(a, b) <= 0,
    ensures
        a[0] == b[0],
        a[1] == b[1],
        a[2] == b[2],
{
    let d0 = a[0] - b[0];
    let d1 = a[1] - b[1];
    let d2 = a[2] - b[2];
    assert(d0 * d0 >= 0 && d1 * d1 >= 0 && d2 * d2 >= 0) by (nonlinear_arith);
    assert(d0 * d0 == 0 ==> d0 == 0) by (nonlinear_arith);
    assert(d1 * d1 == 0 ==> d1 == 0) by (nonlinear_arith);
    assert(d2 * d2 == 0 ==> d2 == 0) by (nonlinear_arith);
}

/// A nearest-neighbour index over the fixed palette.
pub struct ColorTree {
    tree: PaletteTree,
}

impl ColorTree {
    #[verifier::type_invariant]
    spec fn inv(&self) -> bool {
        &&& tree_source(self.tree) == palette_items()
        &&& palette_fixed()
    }

    /// Whether the index answers every palette color with that color; it
    /// always does.
    pub fn palette_is_fixed(&self) -> (r: bool)
        ensures
            r == palette_fixed(),
            r,
    {
        proof {
            use_type_invariant(self);
        }
        true
    }

    /// Returns the palette color closest to `color` in RGB space, and the
    /// per-channel difference `color - closest`.
    pub fn find_closest(&self, color: &Rgb) -> (r: (Rgb, [i16; 3]))
        ensures
            r.0 == quantize(*color),
            in_palette(r.0),
            0 <= nearest_index(*color) < PALETTE_LEN,
            forall|i: int| 0 <= i < PALETTE_LEN
                ==> dist2(rgb_point(*color), rgb_point(r.0))
                    <= dist2(rgb_point(*color), rgb_point(#[trigger] palette_color(i))),
            r.1[0] == color.r as int - r.0.r as int,
            r.1[1] == color.g as int - r.0.g as int,
            r.1[2] == color.b as int - r.0.b as int,
    {
        proof {
            use_type_invariant(self);
        }
        let query: [i32; 3] = [color.r as i32, color.g as i32, color.b as i32];
        assert(query == rgb_point(*color));
        let item = kd_nearest(&self.tree, query);
        let ghost j: int = choose|j: int| 0 <= j < palette_items().len() && palette_items()[j] == item;
        let closest = palette_entry(item.1);
        assert(closest == palette_color(j));
        assert(in_palette(closest)) by {
            assert(palette_color(j) == closest);
        }
        assert forall|i: int| 0 <= i < PALETTE_LEN implies dist2(rgb_point(*color), rgb_point(closest))
            <= dist2(rgb_point(*color), rgb_point(#[trigger] palette_color(i))) by {
            assert(palette_items()[i].0 == rgb_point(palette_color(i)));
        }
        let diff: [i16; 3] = [
            color.r as i16 - closest.r as i16,
            color.g as i16 - closest.g as i16,
            color.b as i16 - closest.b as i16,
        ];
        (closest, diff)
    }
}

/// Builds the nearest-neighbour index over the fixed palette.
pub fn get_color_tree() -> (t: ColorTree) {
    let mut items: Vec<SearchableRgb> = Vec::with_capacity(PALETTE_LEN);
    let mut i: usize = 0;
    while i < PALETTE_LEN
        invariant
            i <= PALETTE_LEN,
            items@ == palette_items().take(i as int),
        decreases PALETTE_LEN - i,
    {
        let c = palette_entry(i);
        items.push(([c.r as i32, c.g as i32, c.b as i32], i));
        i += 1;
        assert(items@ =~= palette_items().take(i as int));
    }
    assert(items@ =~= palette_items());
    let tree = kd_build(items);
    // Each palette color is at distance zero from itself, so the index
    // answers it with an entry of the same color.
    let mut i: usize = 0;
    while i < PALETTE_LEN
        invariant
            i <= PALETTE_LEN,
            tree_source(tree) == palette_items(),
            forall|k: int| 0 <= k < i ==> #[trigger] quantize(palette_color(k)) == palette_color(k),
        decreases PALETTE_LEN - i,
    {
        let c = palette_entry(i);
        let item = kd_nearest(&tree, [c.r as i32, c.g as i32, c.b as i32]);
        proof {
            assert(palette_items()[i as int].0 == rgb_point(c));
            let j: int = choose|j: int| 0 <= j < palette_items().len() && palette_items()[j] == item;
            let q = rgb_point(c);
            let p = palette_color(j);
            assert(dist2(q, item.0) <= dist2(q, palette_items()[i as int].0));
            assert(q[0] == c.r as i32);
            assert(item.0[0] == p.r as i32);
            lemma_dist2_zero(q, item.0);
            assert(p == c);
        }
        i += 1;
    }
    ColorTree { tree }
}

} // verus!
