//! Pixels, the rainbow colour table and the pixel grid.

use vstd::prelude::*;

verus! {

/// Number of entries of the rainbow colour table.
pub const RAINBOW_SIZE: usize = 256;

/// One pixel: red, green, blue and alpha, eight bits each.
#[derive(Debug, Clone, Copy, PartialEq, Eq, Structural)]
pub struct RgbaPixel {
    pub r: u8,
    pub g: u8,
    pub b: u8,
    pub a: u8,
}

/// The pixel a grid is filled with at construction: black, fully transparent.
pub open spec fn default_pixel() -> RgbaPixel {
    RgbaPixel { r: 0, g: 0, b: 0, a: 0 }
}

/// The pixel whose channels are the four entries of `values`, in the order r, g, b, a.
pub open spec fn pixel_of(values: Seq<u8>) -> RgbaPixel
    recommends
        values.len() == 4,
{
    RgbaPixel { r: values[0], g: values[1], b: values[2], a: values[3] }
}

/// The four channels of `p` in the order r, g, b, a.
pub open spec fn pixel_bytes(p: RgbaPixel) -> Seq<u8> {
    seq![p.r, p.g, p.b, p.a]
}

impl Default for RgbaPixel {
    fn default() -> (p: RgbaPixel)
        ensures
            p == default_pixel(),
    {
        RgbaPixel { r: 0, g: 0, b: 0, a: 0 }
    }
}

impl RgbaPixel {
    /// A pixel from its four channels, or the default pixel when none are given.
    pub fn new(values: Option<[u8; 4]>) -> (p: RgbaPixel)
        ensures
            p == match values {
                Some(v) => pixel_of(v@),
                None => default_pixel(),
            },
    {
        match values {
            Some(values) => RgbaPixel { r: values[0], g: values[1], b: values[2], a: values[3] },
            None => RgbaPixel { r: 0, g: 0, b: 0, a: 0 },
        }
    }

    /// Overwrites all four channels.
    pub fn set(&mut self, r: u8, g: u8, b: u8, a: u8)
        ensures
            *final(self) == (RgbaPixel { r, g, b, a }),
    {
        self.r = r;
        self.g = g;
        self.b = b;
        self.a = a;
    }

    /// The four channels in the order r, g, b, a.
    pub fn flat(&self) -> (bytes: [u8; 4])
        ensures
            bytes@ == pixel_bytes(*self),
    {
        [self.r, self.g, self.b, self.a]
    }
}

/// The rainbow colour table: `RAINBOW_SIZE` colours, each as red, green, blue.
pub struct RainbowGradient {
    colors: Vec<[u8; 3]>,
}

/// The colour that the table `table` gives to `index`: the entry at
/// `index` modulo `RAINBOW_SIZE`, fully opaque.
pub open spec fn rainbow_pixel(table: Seq<[u8; 3]>, index: int) -> RgbaPixel {
    let color = table[index % (RAINBOW_SIZE as int)];
    RgbaPixel { r: color[0], g: color[1], b: color[2], a: 0xff }
}

impl View for RainbowGradient {
    type V = Seq<[u8; 3]>;

    closed spec fn view(&self) -> Seq<[u8; 3]> {
        self.colors@
    }
}

impl RainbowGradient {
    #[verifier::type_invariant]
    spec fn full(&self) -> bool {
        self.colors@.len() == RAINBOW_SIZE
    }

    /// Takes `colors` as the table if it has exactly `RAINBOW_SIZE` entries.
    pub fn new(colors: Vec<[u8; 3]>) -> (gradient: Option<RainbowGradient>)
        ensures
            gradient is Some <==> colors@.len() == RAINBOW_SIZE,
            gradient matches Some(g) ==> g@ == colors@,
    {
        if colors.len() == RAINBOW_SIZE {
            Some(RainbowGradient { colors })
        } else {
            None
        }
    }

    /// The table's entry for `index`, counted modulo `RAINBOW_SIZE`.
    pub fn color(&self, index: usize) -> (color: [u8; 3])
        ensures
            self@.len() == RAINBOW_SIZE,
            color == self@[index as int % (RAINBOW_SIZE as int)],
    {
        proof {
            use_type_invariant(self);
        }
        self.colors[index % RAINBOW_SIZE]
    }
}

impl RgbaPixel {
    /// The colour of an iteration count: the table's entry at `index` modulo
    /// `RAINBOW_SIZE`, fully opaque.
    pub fn from_rainbow(gradient: &RainbowGradient, index: usize) -> (p: RgbaPixel)
        ensures
            p == rainbow_pixel(gradient@, index as int),
    {
        let rgb_gradient = gradient.color(index);
        RgbaPixel::new(Some([rgb_gradient[0], rgb_gradient[1], rgb_gradient[2], 0xff]))
    }
}

/// The colour mapping is cyclic: an index and the index `RAINBOW_SIZE` later
/// get the same colour, whatever the table holds.
pub proof fn lemma_rainbow_periodic(table: Seq<[u8; 3]>, index: nat)
    ensures
        rainbow_pixel(table, index as int) == rainbow_pixel(table, index + RAINBOW_SIZE),
{
}

/// A grid of pixels, row by row: `pixels[y][x]` is the pixel in column `x` of row `y`.
pub struct PixelImage {
    pub width: usize,
    pub height: usize,
    pub pixels: Vec<Vec<RgbaPixel>>,
}

/// The bytes of one row: its pixels from left to right, four channels each.
pub open spec fn row_bytes(row: Seq<RgbaPixel>) -> Seq<u8> {
    row.map_values(|p: RgbaPixel| pixel_bytes(p)).flatten()
}

/// The bytes of a grid: its rows from top to bottom.
pub open spec fn image_bytes(rows: Seq<Seq<RgbaPixel>>) -> Seq<u8> {
    rows.map_values(|row: Seq<RgbaPixel>| row_bytes(row)).flatten()
}

/// Appending a pixel to a row appends its four channels to the row's bytes.
pub proof fn lemma_row_bytes_push(row: Seq<RgbaPixel>, p: RgbaPixel)
    ensures
        row_bytes(row.push(p)) == row_bytes(row) + pixel_bytes(p),
{
    let f = |q: RgbaPixel| pixel_bytes(q);
    assert(row.push(p).map_values(f) =~= row.map_values(f).push(pixel_bytes(p)));
    row.map_values(f).lemma_flatten_push(pixel_bytes(p));
}

/// Appending a row to a grid appends the row's bytes to the grid's bytes.
pub proof fn lemma_image_bytes_push(rows: Seq<Seq<RgbaPixel>>, row: Seq<RgbaPixel>)
    ensures
        image_bytes(rows.push(row)) == image_bytes(rows) + row_bytes(row),
{
    let f = |r: Seq<RgbaPixel>| row_bytes(r);
    assert(rows.push(row).map_values(f) =~= rows.map_values(f).push(row_bytes(row)));
    rows.map_values(f).lemma_flatten_push(row_bytes(row));
}

/// Where channel `c` of the pixel in column `x` of row `y` stands among the
/// bytes of a grid whose rows are `width` pixels long.
pub open spec fn byte_offset(width: nat, x: int, y: int, c: int) -> int {
    4 * (y * width + x) + c
}

/// A row of `n` pixels has `4 * n` bytes, and channel `c` of its pixel `x` is byte `4 * x + c`.
pub proof fn lemma_row_bytes_index(row: Seq<RgbaPixel>, x: int, c: int)
    requires
        0 <= x < row.len(),
        0 <= c < 4,
    ensures
        row_bytes(row).len() == 4 * row.len(),
        row_bytes(row)[4 * x + c] == pixel_bytes(row[x])[c],
    decreases row.len(),
{
    lemma_row_bytes_len(row);
    let init = row.drop_last();
    assert(row =~= init.push(row.last()));
    lemma_row_bytes_push(init, row.last());
    lemma_row_bytes_len(init);
    if x < init.len() {
        lemma_row_bytes_index(init, x, c);
    }
}

/// A row of `n` pixels has `4 * n` bytes.
pub proof fn lemma_row_bytes_len(row: Seq<RgbaPixel>)
    ensures
        row_bytes(row).len() == 4 * row.len(),
    decreases row.len(),
{
    if row.len() == 0 {
        assert(row.map_values(|p: RgbaPixel| pixel_bytes(p)) =~= Seq::<Seq<u8>>::empty());
    } else {
        let init = row.drop_last();
        assert(row =~= init.push(row.last()));
        lemma_row_bytes_push(init, row.last());
        lemma_row_bytes_len(init);
    }
}

/// A grid of rows of `width` pixels has `4 * width` bytes for each row.
pub proof fn lemma_image_bytes_len(rows: Seq<Seq<RgbaPixel>>, width: nat)
    requires
        forall|y: int| 0 <= y < rows.len() ==> (#[trigger] rows[y]).len() == width,
    ensures
        image_bytes(rows).len() == 4 * width * rows.len(),
    decreases rows.len(),
{
    if rows.len() == 0 {
        assert(rows.map_values(|r: Seq<RgbaPixel>| row_bytes(r)) =~= Seq::<Seq<u8>>::empty());
    } else {
        let init = rows.drop_last();
        assert(rows =~= init.push(rows.last()));
        lemma_image_bytes_push(init, rows.last());
        lemma_image_bytes_len(init, width);
        lemma_row_bytes_len(rows.last());
        assert(4 * width * init.len() + 4 * width == 4 * width * rows.len()) by (nonlinear_arith)
            requires
                init.len() + 1 == rows.len(),
        ;
    }
}

/// In the bytes of a grid of rows of `width` pixels, channel `c` of the pixel
/// in column `x` of row `y` is the byte at `byte_offset(width, x, y, c)`.
pub proof fn lemma_image_bytes_index(rows: Seq<Seq<RgbaPixel>>, width: nat, x: int, y: int, c: int)
    requires
        forall|j: int| 0 <= j < rows.len() ==> (#[trigger] rows[j]).len() == width,
        0 <= y < rows.len(),
        0 <= x < width,
        0 <= c < 4,
    ensures
        0 <= byte_offset(width, x, y, c) < image_bytes(rows).len(),
        image_bytes(rows)[byte_offset(width, x, y, c)] == pixel_bytes(rows[y][x])[c],
    decreases rows.len(),
{
    let init = rows.drop_last();
    assert(rows =~= init.push(rows.last()));
    lemma_image_bytes_push(init, rows.last());
    lemma_image_bytes_len(init, width);
    lemma_image_bytes_len(rows, width);
    lemma_row_bytes_len(rows.last());
    assert(0 <= y * width) by (nonlinear_arith)
        requires
            0 <= y,
    ;
    if y < init.len() {
        lemma_image_bytes_index(init, width, x, y, c);
    } else {
        assert(4 * (y * width) == 4 * width * init.len()) by (nonlinear_arith)
            requires
                y == init.len(),
        ;
        lemma_row_bytes_index(rows.last(), x, c);
        assert(image_bytes(rows)[byte_offset(width, x, y, c)] == row_bytes(rows.last())[4 * x
            + c]);
    }
}

impl View for PixelImage {
    type V = Seq<Seq<RgbaPixel>>;

    open spec fn view(&self) -> Seq<Seq<RgbaPixel>> {
        Seq::new(self.pixels@.len(), |y: int| self.pixels@[y]@)
    }
}

impl PixelImage {
    /// The grid has `height` rows of `width` pixels each.
    pub open spec fn wf(&self) -> bool {
        &&& self@.len() == self.height
        &&& forall|y: int| 0 <= y < self.height ==> (#[trigger] self@[y]).len() == self.width
    }

    /// A grid of `height` rows of `width` default pixels.
    pub fn new(width: usize, height: usize) -> (image: PixelImage)
        ensures
            image.width == width,
            image.height == height,
            image.wf(),
            forall|x: int, y: int|
                0 <= x < width && 0 <= y < height ==> (#[trigger] image@[y][x]) == default_pixel(),
    {
        PixelImage { width, height, pixels: vec![vec![RgbaPixel::new(None); width]; height] }
    }

    /// Overwrites the pixel in column `x` of row `y`.
    pub fn set(&mut self, x: usize, y: usize, r: u8, g: u8, b: u8, a: u8)
        requires
            old(self).wf(),
            x < old(self).width,
            y < old(self).height,
        ensures
            final(self).wf(),
            final(self).width == old(self).width,
            final(self).height == old(self).height,
            final(self)@ == old(self)@.update(
                y as int,
                old(self)@[y as int].update(x as int, RgbaPixel { r, g, b, a }),
            ),
    {
        assert(self.pixels@[y as int]@ == self@[y as int]);
        self.pixels[y][x].set(r, g, b, a);
        assert forall|j: int| 0 <= j < self.height implies (#[trigger] self@[j]).len()
            == self.width by {
            assert(old(self)@[j].len() == self.width);
        }
        assert(self@ =~= old(self)@.update(
            y as int,
            old(self)@[y as int].update(x as int, RgbaPixel { r, g, b, a }),
        ));
    }
}

impl PixelImage {
    /// The grid as bytes: row by row, pixel by pixel, channels in the order r, g, b, a.
    pub fn flat(&mut self) -> (bytes: Vec<u8>)
        ensures
            *final(self) == *old(self),
            bytes@ == image_bytes(old(self)@),
    {
        let mut rtn: Vec<u8> = Vec::new();
        let mut y: usize = 0;
        while y < self.pixels.len()
            invariant
                *self == *old(self),
                y <= self.pixels@.len(),
                rtn@ == image_bytes(self@.take(y as int)),
            decreases self.pixels@.len() - y,
        {
            let row = &self.pixels[y];
            let mut x: usize = 0;
            while x < row.len()
                invariant
                    x <= row@.len(),
                    rtn@ == image_bytes(self@.take(y as int)) + row_bytes(row@.take(x as int)),
                decreases row@.len() - x,
            {
                let flattened = row[x].flat();
                rtn.extend_from_slice(&flattened);
                proof {
                    lemma_row_bytes_push(row@.take(x as int), row@[x as int]);
                    assert(row@.take(x as int + 1) =~= row@.take(x as int).push(row@[x as int]));
                    assert(rtn@ =~= image_bytes(self@.take(y as int)) + row_bytes(
                        row@.take(x as int + 1),
                    ));
                }
                x += 1;
            }
            proof {
                assert(row@.take(x as int) =~= row@);
                assert(self@[y as int] == row@);
                lemma_image_bytes_push(self@.take(y as int), row@);
                assert(self@.take(y as int + 1) =~= self@.take(y as int).push(row@));
            }
            y += 1;
        }
        proof {
            assert(self@.take(y as int) =~= self@);
        }
        rtn
    }
}

} // verus!
