use vstd::prelude::*;

verus! {

/// A color with one 8-bit value per channel.
#[derive(Clone, Copy, Debug, PartialEq, Eq, Structural)]
pub struct Rgb {
    pub r: u8,
    pub g: u8,
    pub b: u8,
}

impl Rgb {
    pub fn new(r: u8, g: u8, b: u8) -> (c: Rgb)
        ensures
            c == (Rgb { r, g, b }),
    {
        Rgb { r, g, b }
    }
}

/// A width × height grid of pixels, stored row by row.
pub struct Image {
    width: u32,
    height: u32,
    pixels: Vec<Rgb>,
}

impl Image {
    /// The pixel buffer holds exactly one color per cell of the grid.
    pub closed spec fn wf(&self) -> bool {
        &&& self.pixels@.len() == self.width as int * self.height as int
        &&& self.pixels@.len() <= usize::MAX
    }

    pub closed spec fn spec_width(&self) -> u32 {
        self.width
    }

    pub closed spec fn spec_height(&self) -> u32 {
        self.height
    }

    /// The pixels, row by row: pixel (x, y) is at `y * width + x`.
    pub closed spec fn pixels(&self) -> Seq<Rgb> {
        self.pixels@
    }

    /// The pixel at column `x` of row `y`.
    pub open spec fn pixel(&self, x: int, y: int) -> Rgb {
        self.pixels()[y * self.width() as int + x]
    }

    /// An image of the given size with every pixel set to `fill`.
    pub fn new(width: u32, height: u32, fill: Rgb) -> (img: Image)
        requires
            width as int * height as int <= usize::MAX,
        ensures
            img.wf(),
            img.width() == width,
            img.height() == height,
            img.pixels() == Seq::new(width as nat * height as nat, |i: int| fill),
    {
        let n: usize = width as usize * height as usize;
        let mut pixels: Vec<Rgb> = Vec::with_capacity(n);
        let mut i: usize = 0;
        while i < n
            invariant
                i <= n,
                pixels@ == Seq::new(i as nat, |k: int| fill),
            decreases n - i,
        {
            pixels.push(fill);
            i += 1;
            assert(pixels@ =~= Seq::new(i as nat, |k: int| fill));
        }
        assert(pixels@ =~= Seq::new(width as nat * height as nat, |k: int| fill));
        Image { width, height, pixels }
    }

    /// An image of the given size holding `pixels` row by row, or `None` when
    /// their number is not `width * height`.
    pub fn from_pixels(width: u32, height: u32, pixels: Vec<Rgb>) -> (r: Option<Image>)
        ensures
            pixels@.len() == width as int * height as int <==> r.is_some(),
            r matches Some(img) ==> img.wf() && img.width() == width && img.height() == height
                && img.pixels() == pixels@,
    {
        assert(width as int * height as int <= u64::MAX) by (nonlinear_arith)
            requires
                width <= u32::MAX,
                height <= u32::MAX,
        ;
        if pixels.len() as u64 == width as u64 * height as u64 {
            Some(Image { width, height, pixels })
        } else {
            None
        }
    }

    /// An image of the given size holding `pixels` row by row.
    pub fn from_raw(width: u32, height: u32, pixels: Vec<Rgb>) -> (img: Image)
        requires
            pixels@.len() == width as int * height as int,
        ensures
            img.wf(),
            img.width() == width,
            img.height() == height,
            img.pixels() == pixels@,
    {
        let n: usize = pixels.len();
        assert(n == pixels@.len());
        Image { width, height, pixels }
    }

    pub fn dimensions(&self) -> (r: (u32, u32))
        ensures
            r.0 == self.width(),
            r.1 == self.height(),
            self.wf() ==> self.pixels().len() == r.0 as int * r.1 as int,
    {
        (self.width, self.height)
    }

    #[verifier::when_used_as_spec(spec_width)]
    pub fn width(&self) -> (r: u32)
        ensures
            r == self.width(),
    {
        self.width
    }

    #[verifier::when_used_as_spec(spec_height)]
    pub fn height(&self) -> (r: u32)
        ensures
            r == self.height(),
    {
        self.height
    }

    /// The pixels, row by row.
    pub fn as_pixels(&self) -> (r: &Vec<Rgb>)
        ensures
            r@ == self.pixels(),
    {
        &self.pixels
    }

    /// The pixels, row by row, consuming the image.
    pub fn into_pixels(self) -> (r: Vec<Rgb>)
        ensures
            r@ == self.pixels(),
    {
        self.pixels
    }

    pub fn get_pixel(&self, x: u32, y: u32) -> (c: Rgb)
        requires
            self.wf(),
            x < self.width(),
            y < self.height(),
        ensures
            c == self.pixel(x as int, y as int),
    {
        proof {
            lemma_index_in_grid(x as int, y as int, self.width as int, self.height as int);
        }
        assert(y as int * self.width as int <= y as int * self.width as int + x as int);
        self.pixels[y as usize * self.width as usize + x as usize]
    }

    pub fn put_pixel(&mut self, x: u32, y: u32, c: Rgb)
        requires
            old(self).wf(),
            x < old(self).width(),
            y < old(self).height(),
        ensures
            final(self).wf(),
            final(self).width() == old(self).width(),
            final(self).height() == old(self).height(),
            final(self).pixels() == old(self).pixels().update(
                y as int * old(self).width() as int + x as int,
                c,
            ),
    {
        proof {
            lemma_index_in_grid(x as int, y as int, self.width as int, self.height as int);
        }
        assert(y as int * self.width as int <= y as int * self.width as int + x as int);
        let i: usize = y as usize * self.width as usize + x as usize;
        self.pixels.set(i, c);
    }
}

/// Cell (x, y) of a width × height grid has its row-major index inside the grid.
pub proof fn lemma_index_in_grid(x: int, y: int, w: int, h: int)
    requires
        0 <= x < w,
        0 <= y < h,
    ensures
        0 <= y * w + x < w * h,
        y * w + x <= (h - 1) * w + (w - 1),
{
    assert(y * w <= (h - 1) * w) by (nonlinear_arith)
        requires
            0 <= y <= h - 1,
            0 <= w,
    ;
    assert((h - 1) * w + w == w * h) by (nonlinear_arith);
    assert(0 <= y * w) by (nonlinear_arith)
        requires
            0 <= y,
            0 <= w,
    ;
}

} // verus!
