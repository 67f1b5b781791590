//! Plain-text PPM ("P3") encoding of a frame of 8-bit pixels.
use vstd::prelude::*;

verus! {

/// ASCII `0`.
pub const DIGIT_ZERO: u8 = 48;
/// ASCII space.
pub const SPACE: u8 = 32;
/// ASCII line feed.
pub const NEWLINE: u8 = 10;
/// ASCII `P`.
pub const LETTER_P: u8 = 80;

/// A pixel quantized to 8 bits per channel.
#[derive(Clone, Copy, Debug, PartialEq, Eq, Structural)]
pub struct Pixel {
    pub r: u8,
    pub g: u8,
    pub b: u8,
}

/// ASCII decimal digits of `n`, most significant first, without leading zeros.
pub open spec fn decimal(n: nat) -> Seq<u8>
    decreases n,
{
    if n < 10 {
        seq![(DIGIT_ZERO + n) as u8]
    } else {
        decimal(n / 10).push((DIGIT_ZERO + n % 10) as u8)
    }
}

/// `P3`, the width and height, and the largest channel value 255, one per line.
pub open spec fn header_text(width: nat, height: nat) -> Seq<u8> {
    seq![LETTER_P] + decimal(3) + seq![NEWLINE] + decimal(width) + seq![SPACE] + decimal(height)
        + seq![NEWLINE] + decimal(255) + seq![NEWLINE]
}

/// The line of one pixel: its three channels in decimal, separated by spaces.
pub open spec fn color_text(c: Pixel) -> Seq<u8> {
    decimal(c.r as nat) + seq![SPACE] + decimal(c.g as nat) + seq![SPACE] + decimal(c.b as nat)
        + seq![NEWLINE]
}

/// The lines of a run of pixels, in order.
pub open spec fn pixels_text(pixels: Seq<Pixel>) -> Seq<u8>
    decreases pixels.len(),
{
    if pixels.len() == 0 {
        Seq::empty()
    } else {
        pixels_text(pixels.drop_last()) + color_text(pixels.last())
    }
}

/// The lines of all rows, top row first, each row left to right.
pub open spec fn rows_text(rows: Seq<Vec<Pixel>>) -> Seq<u8>
    decreases rows.len(),
{
    if rows.len() == 0 {
        Seq::empty()
    } else {
        rows_text(rows.drop_last()) + pixels_text(rows.last()@)
    }
}

/// The whole file: header, then one line per pixel.
pub open spec fn image_text(width: nat, height: nat, rows: Seq<Vec<Pixel>>) -> Seq<u8> {
    header_text(width, height) + rows_text(rows)
}

fn push_decimal(output: &mut Vec<u8>, n: usize)
    ensures
        final(output)@ == old(output)@ + decimal(n as nat),
    decreases n,
{
    if n >= 10 {
        push_decimal(output, n / 10);
    }
    output.push(DIGIT_ZERO + (n % 10) as u8);
    assert(output@ =~= old(output)@ + decimal(n as nat));
}

/// Appends the PPM header of a `width` by `height` frame to `output`.
pub fn write_header(output: &mut Vec<u8>, width: usize, height: usize)
    ensures
        final(output)@ == old(output)@ + header_text(width as nat, height as nat),
{
    output.push(LETTER_P);
    push_decimal(output, 3);
    output.push(NEWLINE);
    push_decimal(output, width);
    output.push(SPACE);
    push_decimal(output, height);
    output.push(NEWLINE);
    push_decimal(output, 255);
    output.push(NEWLINE);
    assert(output@ =~= old(output)@ + header_text(width as nat, height as nat));
}

/// Appends the line of one pixel to `output`.
pub fn write_color(output: &mut Vec<u8>, color: &Pixel)
    ensures
        final(output)@ == old(output)@ + color_text(*color),
{
    push_decimal(output, color.r as usize);
    output.push(SPACE);
    push_decimal(output, color.g as usize);
    output.push(SPACE);
    push_decimal(output, color.b as usize);
    output.push(NEWLINE);
    assert(output@ =~= old(output)@ + color_text(*color));
}

/// The PPM file of a frame: the header of `width` by `height`, then the
/// pixels of `rows` one per line, top row first.
pub fn encode_image(width: usize, height: usize, rows: &Vec<Vec<Pixel>>) -> (r: Vec<u8>)
    ensures
        r@ == image_text(width as nat, height as nat, rows@),
{
    let mut output: Vec<u8> = Vec::new();
    write_header(&mut output, width, height);
    let mut i: usize = 0;
    while i < rows.len()
        invariant
            i <= rows.len(),
            output@ == header_text(width as nat, height as nat) + rows_text(rows@.take(i as int)),
        decreases rows.len() - i,
    {
        let row = &rows[i];
        let ghost before = output@;
        let mut j: usize = 0;
        while j < row.len()
            invariant
                j <= row.len(),
                output@ == before + pixels_text(row@.take(j as int)),
            decreases row.len() - j,
        {
            write_color(&mut output, &row[j]);
            proof {
                assert(row@.take((j + 1) as int).drop_last() =~= row@.take(j as int));
            }
            j = j + 1;
        }
        proof {
            assert(row@.take(j as int) =~= row@);
            assert(rows@.take((i + 1) as int).drop_last() =~= rows@.take(i as int));
        }
        i = i + 1;
    }
    assert(rows@.take(i as int) =~= rows@);
    output
}

} // verus!
