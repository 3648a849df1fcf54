//! The render pipeline: every pixel of a grid gets the rainbow colour of the
//! iteration count that an evaluator reports for it.

use crate::pixeling::{
    image_bytes, lemma_image_bytes_len, rainbow_pixel, PixelImage, RainbowGradient, RgbaPixel,
};
use vstd::prelude::*;

verus! {

/// `counts` is a grid of `height` rows of `width` iteration counts, and
/// `counts[y][x]` is a count that `escape_time` can return for `(x, y)`.
pub open spec fn evaluated_by<F: Fn(usize, usize) -> usize>(
    escape_time: F,
    width: usize,
    height: usize,
    counts: Seq<Seq<usize>>,
) -> bool {
    &&& counts.len() == height
    &&& forall|y: int| 0 <= y < height ==> (#[trigger] counts[y]).len() == width
    &&& forall|x: int, y: int|
        0 <= x < width && 0 <= y < height ==> call_ensures(
            escape_time,
            (x as usize, y as usize),
            #[trigger] counts[y][x],
        )
}

/// The grid of colours that `table` gives to a grid of iteration counts.
pub open spec fn colored(table: Seq<[u8; 3]>, counts: Seq<Seq<usize>>) -> Seq<Seq<RgbaPixel>> {
    counts.map_values(
        |row: Seq<usize>| row.map_values(|n: usize| rainbow_pixel(table, n as int)),
    )
}

/// `escape_time` returns one count only for each pixel of the grid.
pub open spec fn deterministic<F: Fn(usize, usize) -> usize>(
    escape_time: F,
    width: usize,
    height: usize,
) -> bool {
    forall|x: usize, y: usize, m: usize, n: usize|
        x < width && y < height && #[trigger] call_ensures(escape_time, (x, y), m)
            && #[trigger] call_ensures(escape_time, (x, y), n) ==> m == n
}

/// Evaluates `escape_time` once for every pixel of a `width` by `height`
/// grid and colours the pixel by the count it returns.
pub fn render_image<F: Fn(usize, usize) -> usize>(
    width: usize,
    height: usize,
    gradient: &RainbowGradient,
    escape_time: F,
) -> (image: PixelImage)
    requires
        width > 0,
        height > 0,
        forall|x: usize, y: usize| x < width && y < height ==> call_requires(escape_time, (x, y)),
    ensures
        image.width == width,
        image.height == height,
        image.wf(),
        exists|counts: Seq<Seq<usize>>| #[trigger]
            evaluated_by(escape_time, width, height, counts) && image@ == colored(
                gradient@,
                counts,
            ),
{
    let mut pix_img = PixelImage::new(width, height);
    let ghost mut counts: Seq<Seq<usize>> = Seq::new(
        height as nat,
        |y: int| Seq::new(width as nat, |x: int| 0usize),
    );
    let mut x: usize = 0;
    while x < width
        invariant
            x <= width,
            pix_img.width == width,
            pix_img.height == height,
            pix_img.wf(),
            counts.len() == height,
            forall|j: int| 0 <= j < height ==> (#[trigger] counts[j]).len() == width,
            forall|i: usize, j: usize| i < width && j < height ==> call_requires(escape_time, (i, j)),
            forall|i: int, j: int|
                0 <= i < x && 0 <= j < height ==> call_ensures(
                    escape_time,
                    (i as usize, j as usize),
                    #[trigger] counts[j][i],
                ),
            forall|i: int, j: int|
                0 <= i < x && 0 <= j < height ==> (#[trigger] pix_img@[j][i]) == rainbow_pixel(
                    gradient@,
                    counts[j][i] as int,
                ),
        decreases width - x,
    {
        let mut y: usize = 0;
        while y < height
            invariant
                x < width,
                y <= height,
                pix_img.width == width,
                pix_img.height == height,
                pix_img.wf(),
                counts.len() == height,
                forall|j: int| 0 <= j < height ==> (#[trigger] counts[j]).len() == width,
                forall|i: usize, j: usize|
                    i < width && j < height ==> call_requires(escape_time, (i, j)),
                forall|i: int, j: int|
                    (0 <= i < x && 0 <= j < height) || (i == x && 0 <= j < y) ==> call_ensures(
                        escape_time,
                        (i as usize, j as usize),
                        #[trigger] counts[j][i],
                    ),
                forall|i: int, j: int|
                    (0 <= i < x && 0 <= j < height) || (i == x && 0 <= j < y) ==> (
                    #[trigger] pix_img@[j][i]) == rainbow_pixel(gradient@, counts[j][i] as int),
            decreases height - y,
        {
            let iterations = escape_time(x, y);
            let pix = RgbaPixel::from_rainbow(gradient, iterations);
            let ghost before = pix_img@;
            let ghost counts_before = counts;
            pix_img.set(x, y, pix.r, pix.g, pix.b, pix.a);
            proof {
                counts = counts.update(y as int, counts[y as int].update(x as int, iterations));
                assert forall|i: int, j: int|
                    (0 <= i < x && 0 <= j < height) || (i == x && 0 <= j < y + 1) implies (
                #[trigger] pix_img@[j][i]) == rainbow_pixel(gradient@, counts[j][i] as int) by {
                    if !(i == x && j == y) {
                        assert(before[j][i] == rainbow_pixel(
                            gradient@,
                            counts_before[j][i] as int,
                        ));
                    }
                }
                assert forall|i: int, j: int|
                    (0 <= i < x && 0 <= j < height) || (i == x && 0 <= j < y + 1) implies call_ensures(
                    escape_time,
                    (i as usize, j as usize),
                    #[trigger] counts[j][i],
                ) by {
                    if !(i == x && j == y) {
                        assert(counts[j][i] == counts_before[j][i]);
                    }
                }
            }
            y += 1;
        }
        x += 1;
    }
    proof {
        assert(pix_img@ =~~= colored(gradient@, counts));
        assert(evaluated_by(escape_time, width, height, counts));
    }
    pix_img
}

/// Renders a `width` by `height` grid as bytes: row by row, four bytes for
/// each pixel, in the order r, g, b, a.
pub fn render<F: Fn(usize, usize) -> usize>(
    width: usize,
    height: usize,
    gradient: &RainbowGradient,
    escape_time: F,
) -> (bytes: Vec<u8>)
    requires
        width > 0,
        height > 0,
        forall|x: usize, y: usize| x < width && y < height ==> call_requires(escape_time, (x, y)),
    ensures
        bytes@.len() == 4 * width * height,
        exists|counts: Seq<Seq<usize>>| #[trigger]
            evaluated_by(escape_time, width, height, counts) && bytes@ == image_bytes(
                colored(gradient@, counts),
            ),
{
    let mut pix_img = render_image(width, height, gradient, escape_time);
    let flattened = pix_img.flat();
    proof {
        lemma_image_bytes_len(pix_img@, width as nat);
    }
    flattened
}

/// Rendering is deterministic: where the evaluator returns one count only
/// for each pixel, two grids of counts that it produced for the same
/// resolution are the same grid, and so are their colours and their bytes.
pub proof fn lemma_render_deterministic<F: Fn(usize, usize) -> usize>(
    escape_time: F,
    width: usize,
    height: usize,
    table: Seq<[u8; 3]>,
    first: Seq<Seq<usize>>,
    second: Seq<Seq<usize>>,
)
    requires
        deterministic(escape_time, width, height),
        evaluated_by(escape_time, width, height, first),
        evaluated_by(escape_time, width, height, second),
    ensures
        first == second,
        colored(table, first) == colored(table, second),
        image_bytes(colored(table, first)) == image_bytes(colored(table, second)),
{
    assert forall|y: int| 0 <= y < height implies first[y] == second[y] by {
        assert forall|x: int| 0 <= x < width implies first[y][x] == second[y][x] by {
            assert(call_ensures(escape_time, (x as usize, y as usize), first[y][x]));
            assert(call_ensures(escape_time, (x as usize, y as usize), second[y][x]));
        }
        assert(first[y] =~= second[y]);
    }
    assert(first =~= second);
}

} // verus!
