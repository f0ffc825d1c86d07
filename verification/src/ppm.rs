//! Binary PPM encoding of an 8-bit RGB image.
//!
//! An encoded image is an ASCII header of three lines, each ended by a line
//! feed: the magic number `P6`; the width and the height in decimal with one
//! space between them; and the largest channel value, `255`. Three bytes per
//! pixel (red, green, blue) follow, slot after slot, with nothing in between
//! and nothing after.

use crate::grid::{lemma_slot_in_range, slot};
use crate::raster::Raster;
use slice_of_array::SliceFlatExt;
use vstd::prelude::*;

verus! {

/// The ASCII code of the digit `0`.
pub const ASCII_ZERO: u8 = 48;

/// The ASCII code of the letter `P`.
pub const ASCII_P: u8 = 80;

/// The ASCII code of the space.
pub const ASCII_SPACE: u8 = 32;

/// The ASCII code of the line feed.
pub const ASCII_NEWLINE: u8 = 10;

/// The number of the binary RGB format among the PPM family.
pub const FORMAT: u8 = 6;

/// The largest value of a channel.
pub const MAX_CHANNEL: u8 = 255;

/// The decimal digits of `n` in ASCII, most significant first, without
/// leading zeros; `0` is the single digit `0`.
pub open spec fn decimal(n: nat) -> Seq<u8>
    decreases n,
{
    if n < 10 {
        seq![(ASCII_ZERO + n) as u8]
    } else {
        decimal(n / 10).push((ASCII_ZERO + n % 10) as u8)
    }
}

/// The number that a sequence of ASCII digits denotes, read most
/// significant first.
pub open spec fn decimal_value(digits: Seq<u8>) -> nat
    decreases digits.len(),
{
    if digits.len() == 0 {
        0
    } else {
        (10 * decimal_value(digits.drop_last()) + (digits.last() - ASCII_ZERO)) as nat
    }
}

/// `decimal(n)` is a non-empty run of ASCII digits that denotes `n`, and it
/// starts with `0` only when `n` is zero.
pub proof fn lemma_decimal(n: nat)
    ensures
        decimal(n).len() >= 1,
        forall|k: int|
            0 <= k < decimal(n).len() ==> ASCII_ZERO <= #[trigger] decimal(n)[k] <= ASCII_ZERO + 9,
        decimal_value(decimal(n)) == n,
        decimal(n)[0] == ASCII_ZERO <==> n == 0,
    decreases n,
{
    if n < 10 {
        assert(decimal(n).drop_last() =~= Seq::<u8>::empty());
        assert(decimal_value(decimal(n).drop_last()) == 0);
    } else {
        lemma_decimal(n / 10);
        assert(decimal(n).drop_last() =~= decimal(n / 10));
    }
}

/// Renders `n` in decimal.
pub fn decimal_digits(n: usize) -> (digits: Vec<u8>)
    ensures
        digits@ == decimal(n as nat),
{
    let mut digits: Vec<u8> = Vec::new();
    digits.push(ASCII_ZERO + (n % 10) as u8);
    let mut rest: usize = n / 10;
    while rest > 0
        invariant
            decimal(n as nat) == (if rest == 0 {
                Seq::<u8>::empty()
            } else {
                decimal(rest as nat)
            }) + digits@,
        decreases rest,
    {
        digits.insert(0, ASCII_ZERO + (rest % 10) as u8);
        rest = rest / 10;
    }
    digits
}

/// The header of an image `width` pixels wide and `height` pixels high:
/// the line `P6`, the line of the two extents, and the line `255`.
pub open spec fn header(width: nat, height: nat) -> Seq<u8> {
    seq![ASCII_P] + decimal(FORMAT as nat) + seq![ASCII_NEWLINE] + decimal(width) + seq![
        ASCII_SPACE,
    ] + decimal(height) + seq![ASCII_NEWLINE] + decimal(MAX_CHANNEL as nat) + seq![ASCII_NEWLINE]
}

/// The channels of all pixels in one run: red, green and blue of the first
/// pixel, then of the second, and so on.
pub open spec fn rgb_bytes(pixels: Seq<[u8; 3]>) -> Seq<u8> {
    Seq::new(3 * pixels.len(), |k: int| pixels[k / 3][k % 3])
}

/// The whole file: the header, then the pixels' channels.
pub open spec fn encoding(width: nat, height: nat, pixels: Seq<[u8; 3]>) -> Seq<u8> {
    header(width, height) + rgb_bytes(pixels)
}

/// In the encoding of a `width` by `height` image, channel `c` of the pixel
/// in column `i` of row `j` is the byte `3 * (i + j * width) + c` places
/// after the header, and the file ends with the last pixel.
pub proof fn lemma_encoding_layout(
    width: nat,
    height: nat,
    pixels: Seq<[u8; 3]>,
    i: int,
    j: int,
    c: int,
)
    requires
        pixels.len() == width * height,
        0 <= i < width,
        0 <= j < height,
        0 <= c < 3,
    ensures
        encoding(width, height, pixels).len() == header(width, height).len() + 3 * (width
            * height),
        0 <= slot(width as int, i, j) < pixels.len(),
        encoding(width, height, pixels)[header(width, height).len() + 3 * slot(width as int, i, j)
            + c] == pixels[slot(width as int, i, j)][c],
{
    lemma_slot_in_range(width as int, height as int, i, j);
}

/// Views a run of 3-byte pixels as the run of their bytes.
///
/// Trusted: this is `SliceFlatExt::flat` of the crate `slice_of_array`, which
/// reinterprets the same memory as a slice of the arrays' elements. The
/// result is three times as long as the argument and holds the elements of
/// the first array in their order, then those of the second, and so on. For
/// elements of non-zero size it does not panic.
#[verifier::external_body]
fn flat_rgb(pixels: &[[u8; 3]]) -> (bytes: &[u8])
    ensures
        bytes@ == rgb_bytes(pixels@),
{
    pixels.flat()
}

/// Renders the header of an image `width` pixels wide and `height` pixels
/// high.
pub fn header_bytes(width: usize, height: usize) -> (bytes: Vec<u8>)
    ensures
        bytes@ == header(width as nat, height as nat),
{
    let mut bytes: Vec<u8> = Vec::new();
    bytes.push(ASCII_P);
    let mut format: Vec<u8> = decimal_digits(FORMAT as usize);
    bytes.append(&mut format);
    bytes.push(ASCII_NEWLINE);
    let mut columns: Vec<u8> = decimal_digits(width);
    bytes.append(&mut columns);
    bytes.push(ASCII_SPACE);
    let mut rows: Vec<u8> = decimal_digits(height);
    bytes.append(&mut rows);
    bytes.push(ASCII_NEWLINE);
    let mut deepest: Vec<u8> = decimal_digits(MAX_CHANNEL as usize);
    bytes.append(&mut deepest);
    bytes.push(ASCII_NEWLINE);
    bytes
}

/// Encodes an image as a binary PPM file.
pub fn encode(image: &Raster) -> (bytes: Vec<u8>)
    ensures
        bytes@ == encoding(
            image.dimensions().width() as nat,
            image.dimensions().height() as nat,
            image@,
        ),
{
    let dims = image.dimensions();
    let mut bytes: Vec<u8> = header_bytes(dims.width(), dims.height());
    let channels: &[u8] = flat_rgb(image.pixels().as_slice());
    bytes.extend_from_slice(channels);
    bytes
}

} // verus!
