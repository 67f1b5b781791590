//! The frame driver: which image row each output row shows, the order of the
//! pixels in a row, and which generator each row draws from.
use crate::ppm::Pixel;
use crate::rand::{lemma_state_determines_generator, seeded, Rand};
use vstd::prelude::*;

verus! {

/// The image row, counted from the bottom, that output row `row` shows: the
/// top row comes out first.
pub open spec fn image_row(height: nat, row: nat) -> nat {
    (height - 1 - row) as nat
}

/// `pixels` is output row `row` of a `width` by `height` frame shaded by
/// `shade` from base seed `base_seed`: some chain of generators, the first
/// seeded for worker `row`, links each pixel to the next through `shade`.
pub open spec fn row_rendered<F: Fn(usize, usize, Rand) -> (Pixel, Rand)>(
    shade: F,
    width: nat,
    height: nat,
    row: nat,
    base_seed: u32,
    pixels: Seq<Pixel>,
) -> bool {
    &&& pixels.len() == width
    &&& exists|gens: Seq<Rand>| #[trigger] chained(shade, width, height, row, base_seed, pixels, gens)
}

/// The generator chain that witnesses `row_rendered`.
pub open spec fn chained<F: Fn(usize, usize, Rand) -> (Pixel, Rand)>(
    shade: F,
    width: nat,
    height: nat,
    row: nat,
    base_seed: u32,
    pixels: Seq<Pixel>,
    gens: Seq<Rand>,
) -> bool {
    &&& gens.len() == width + 1
    &&& gens[0]@ == seeded(base_seed.wrapping_add(row as u32))
    &&& forall|i: int|
        0 <= i < width ==> #[trigger] shade.ensures(
            (i as usize, image_row(height, row) as usize, gens[i]),
            (pixels[i], gens[i + 1]),
        )
}

/// Renders output row `row` of a `width` by `height` frame. Pixel `i` is
/// `shade(i, j, g)`, where `j` is the image row that the output row shows and
/// `g` the generator handed on by the pixel before it; the first pixel gets a
/// generator of its own, seeded for worker `row` of a run with base seed
/// `base_seed`, so that rows can be rendered in parallel and still reproduce.
pub fn render_row<F>(
    width: usize,
    height: usize,
    row: usize,
    base_seed: u32,
    shade: &F,
) -> (r: Vec<Pixel>) where F: Fn(usize, usize, Rand) -> (Pixel, Rand)
    requires
        row < height,
        row <= u32::MAX,
        forall|i: usize, g: Rand| #[trigger] shade.requires((i, (height - 1 - row) as usize, g)),
    ensures
        r.len() == width,
        row_rendered(*shade, width as nat, height as nat, row as nat, base_seed, r@),
{
    let j = height - 1 - row;
    let mut rng = Rand::for_worker(base_seed, row as u32);
    let mut pixels: Vec<Pixel> = Vec::new();
    let ghost mut gens: Seq<Rand> = seq![rng];
    let mut i: usize = 0;
    while i < width
        invariant
            i <= width,
            j == height - 1 - row,
            pixels.len() == i,
            gens.len() == i + 1,
            gens[0]@ == seeded(base_seed.wrapping_add(row as u32)),
            gens[i as int] == rng,
            forall|i: usize, g: Rand| #[trigger] shade.requires((i, j, g)),
            forall|k: int|
                0 <= k < i ==> #[trigger] shade.ensures(
                    (k as usize, j, gens[k]),
                    (pixels@[k], gens[k + 1]),
                ),
        decreases width - i,
    {
        let (pixel, next) = shade(i, j, rng);
        pixels.push(pixel);
        proof {
            gens = gens.push(next);
        }
        rng = next;
        i = i + 1;
    }
    assert(chained(*shade, width as nat, height as nat, row as nat, base_seed, pixels@, gens));
    pixels
}

/// Two chains from equal generators agree on their first `k` pixels and on
/// the generator after them.
proof fn lemma_chains_agree<F: Fn(usize, usize, Rand) -> (Pixel, Rand)>(
    shade: F,
    width: nat,
    height: nat,
    row: nat,
    base_seed: u32,
    first: Seq<Pixel>,
    second: Seq<Pixel>,
    g1: Seq<Rand>,
    g2: Seq<Rand>,
    k: nat,
)
    requires
        forall|args: (usize, usize, Rand), x: (Pixel, Rand), y: (Pixel, Rand)|
            shade.ensures(args, x) && shade.ensures(args, y) ==> x == y,
        chained(shade, width, height, row, base_seed, first, g1),
        chained(shade, width, height, row, base_seed, second, g2),
        g1[0] == g2[0],
        k <= width,
    ensures
        g1[k as int] == g2[k as int],
        forall|i: int| 0 <= i < k ==> first[i] == second[i],
    decreases k,
{
    if k > 0 {
        let p = (k - 1) as nat;
        lemma_chains_agree(shade, width, height, row, base_seed, first, second, g1, g2, p);
        let i = p as int;
        let j = image_row(height, row) as usize;
        assert(shade.ensures((i as usize, j, g1[i]), (first[i], g1[i + 1])));
        assert(shade.ensures((i as usize, j, g2[i]), (second[i], g2[i + 1])));
    }
}

/// Reproducibility of a frame: when the shading of a pixel is a function of
/// its coordinates and generator, rendering the same row twice from the same
/// base seed gives the same pixels.
pub proof fn lemma_row_reproducible<F: Fn(usize, usize, Rand) -> (Pixel, Rand)>(
    shade: F,
    width: nat,
    height: nat,
    row: nat,
    base_seed: u32,
    first: Seq<Pixel>,
    second: Seq<Pixel>,
)
    requires
        forall|args: (usize, usize, Rand), x: (Pixel, Rand), y: (Pixel, Rand)|
            shade.ensures(args, x) && shade.ensures(args, y) ==> x == y,
        row_rendered(shade, width, height, row, base_seed, first),
        row_rendered(shade, width, height, row, base_seed, second),
    ensures
        first == second,
{
    let g1 = choose|gens: Seq<Rand>| chained(shade, width, height, row, base_seed, first, gens);
    let g2 = choose|gens: Seq<Rand>| chained(shade, width, height, row, base_seed, second, gens);
    lemma_state_determines_generator(g1[0], g2[0]);
    lemma_chains_agree(shade, width, height, row, base_seed, first, second, g1, g2, width);
    assert(first =~= second);
}

} // verus!
