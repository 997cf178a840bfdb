//! Pixel indexing and the byte layout of a rendered image.
use vstd::prelude::*;

verus! {

/// One pixel after tone mapping: three 8-bit channels.
#[derive(Clone, Copy, Debug, PartialEq, Eq, Structural)]
pub struct Rgb8 {
    pub r: u8,
    pub g: u8,
    pub b: u8,
}

/// Image coordinates `(i, j)` of the pixel stored at `pidx` in a row-major,
/// top-to-bottom buffer: `i` is the column, `j` the row counted from the
/// bottom, as the camera's viewport has its origin at the lower-left corner.
pub fn pixel_position(pidx: usize, width: usize, height: usize) -> (r: (usize, usize))
    requires
        pidx < width * height,
    ensures
        r.0 == pidx % width,
        r.1 == height - 1 - pidx / width,
        r.0 < width,
        r.1 < height,
        pidx == (height - 1 - r.1) * width + r.0,
{
    proof {
        assert(width > 0) by (nonlinear_arith)
            requires
                pidx < width * height,
        ;
        assert(pidx / width < height) by (nonlinear_arith)
            requires
                pidx < width * height,
                width > 0,
        ;
        assert(pidx == (pidx / width) * width + pidx % width) by (nonlinear_arith)
            requires
                width > 0,
        ;
    }
    let row_from_top = pidx / width;
    (pidx % width, height - 1 - row_from_top)
}

/// Channel `k` (0 = red, 1 = green, 2 = blue) of a pixel.
pub open spec fn channel(p: Rgb8, k: int) -> u8 {
    if k == 0 {
        p.r
    } else if k == 1 {
        p.g
    } else {
        p.b
    }
}

/// The pixels as a dense stream of RGB triples, in the order given.
pub open spec fn rgb_bytes(pixels: Seq<Rgb8>) -> Seq<u8> {
    Seq::new(3 * pixels.len(), |i: int| channel(pixels[i / 3], i % 3))
}

/// Flattens pixels into their RGB byte stream.
pub fn pack_pixels(pixels: &Vec<Rgb8>) -> (r: Vec<u8>)
    requires
        3 * pixels@.len() <= usize::MAX,
    ensures
        r@ == rgb_bytes(pixels@),
{
    let mut out: Vec<u8> = Vec::new();
    let mut k: usize = 0;
    while k < pixels.len()
        invariant
            k <= pixels@.len(),
            out@ == rgb_bytes(pixels@.take(k as int)),
        decreases pixels@.len() - k,
    {
        let p = pixels[k];
        proof {
            let before = rgb_bytes(pixels@.take(k as int));
            let after = rgb_bytes(pixels@.take(k as int + 1));
            assert(after =~= before + seq![p.r, p.g, p.b]);
        }
        out.push(p.r);
        out.push(p.g);
        out.push(p.b);
        k = k + 1;
    }
    assert(pixels@.take(pixels@.len() as int) =~= pixels@);
    out
}

/// The ASCII decimal digits of `n`, most significant first, with no leading zero.
pub open spec fn decimal(n: nat) -> Seq<u8>
    decreases n,
{
    if n < 10 {
        seq![(48 + n) as u8]
    } else {
        decimal(n / 10) + seq![(48 + n % 10) as u8]
    }
}

/// Writes `n` in decimal ASCII.
pub fn decimal_digits(n: usize) -> (r: Vec<u8>)
    ensures
        r@ == decimal(n as nat),
{
    let mut m: usize = n;
    let mut digits: Vec<u8> = Vec::new();
    loop
        invariant
            decimal(n as nat) == decimal(m as nat) + digits@,
        decreases m,
    {
        let d: u8 = (m % 10) as u8 + 48;
        if m < 10 {
            proof {
                assert(decimal(m as nat) =~= seq![d]);
            }
            digits.insert(0, d);
            assert(decimal(n as nat) =~= digits@);
            return digits;
        }
        let ghost old_digits = digits@;
        digits.insert(0, d);
        proof {
            assert(decimal(m as nat) == decimal((m / 10) as nat) + seq![d]);
            assert(decimal((m / 10) as nat) + digits@ =~= decimal((m / 10) as nat) + seq![d]
                + old_digits);
        }
        m = m / 10;
    }
}

/// The header of a binary portable pixmap: `P6`, then width and height in
/// decimal separated by a space, then the maximum channel value `255`, each on
/// a line of its own.
pub open spec fn ppm_header_bytes(width: nat, height: nat) -> Seq<u8> {
    seq![80u8, 54u8, 10u8] + decimal(width) + seq![32u8] + decimal(height) + seq![
        10u8,
        50u8,
        53u8,
        53u8,
        10u8,
    ]
}

/// Builds the header of a binary portable pixmap of the given size.
pub fn ppm_header(width: usize, height: usize) -> (r: Vec<u8>)
    ensures
        r@ == ppm_header_bytes(width as nat, height as nat),
{
    let mut out: Vec<u8> = vec![80u8, 54u8, 10u8];
    let mut w = decimal_digits(width);
    out.append(&mut w);
    out.push(32u8);
    let mut h = decimal_digits(height);
    out.append(&mut h);
    out.push(10u8);
    out.push(50u8);
    out.push(53u8);
    out.push(53u8);
    out.push(10u8);
    assert(out@ =~= ppm_header_bytes(width as nat, height as nat));
    out
}

/// Why an image could not be encoded.
#[derive(Clone, Copy, Debug, PartialEq, Eq, Structural)]
pub enum ImageError {
    /// The number of pixels is not width times height.
    PixelCountMismatch,
}

/// Encodes a row-major, top-to-bottom image as a binary portable pixmap:
/// the header followed by the raw RGB bytes.
pub fn encode_ppm(width: usize, height: usize, pixels: &Vec<Rgb8>) -> (r: Result<
    Vec<u8>,
    ImageError,
>)
    requires
        ppm_header_bytes(width as nat, height as nat).len() + 3 * pixels@.len() <= usize::MAX,
    ensures
        r is Ok <==> pixels@.len() == width * height,
        r is Err ==> r == Err::<Vec<u8>, ImageError>(ImageError::PixelCountMismatch),
        r matches Ok(bytes) ==> bytes@ == ppm_header_bytes(width as nat, height as nat)
            + rgb_bytes(pixels@),
{
    let expected = width.checked_mul(height);
    match expected {
        Some(count) => {
            if pixels.len() != count {
                return Err(ImageError::PixelCountMismatch);
            }
        },
        None => {
            return Err(ImageError::PixelCountMismatch);
        },
    }
    let mut out = ppm_header(width, height);
    let mut body = pack_pixels(pixels);
    out.append(&mut body);
    Ok(out)
}

} // verus!
