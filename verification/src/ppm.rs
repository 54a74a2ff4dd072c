//! The binary PPM (P6) image written for the diagnostic frame dump:
//! a text header, then three bytes (red, green, blue) per pixel, taken from
//! a buffer of four bytes per pixel in either RGBA or BGRA order.
use vstd::prelude::*;

verus! {

/// The ASCII digit for `d` (`d < 10`).
pub open spec fn digit(d: nat) -> u8 {
    (48 + d) as u8
}

/// The decimal digits of `n`, most significant first, without leading
/// zeros.
pub open spec fn decimal(n: nat) -> Seq<u8>
    decreases n,
{
    if n < 10 {
        seq![digit(n)]
    } else {
        decimal(n / 10).push(digit(n % 10))
    }
}

/// "P6\n{width} {height}\n255\n".
pub open spec fn ppm_header(width: nat, height: nat) -> Seq<u8> {
    seq![80u8, 54u8, 10u8] + decimal(width) + seq![32u8] + decimal(height) + seq![
        10u8,
        50u8,
        53u8,
        53u8,
        10u8,
    ]
}

/// Channel `c` (0 red, 1 green, 2 blue) of pixel `p` of a four-byte-per-pixel
/// buffer.
pub open spec fn channel(data: Seq<u8>, p: int, c: int, bgra: bool) -> u8 {
    if bgra {
        data[4 * p + 2 - c]
    } else {
        data[4 * p + c]
    }
}

/// The pixel section: three bytes for each complete four-byte pixel.
pub open spec fn ppm_pixels(data: Seq<u8>, bgra: bool) -> Seq<u8> {
    Seq::new(3 * (data.len() / 4), |j: int| channel(data, j / 3, j % 3, bgra))
}

/// The whole image file.
pub open spec fn ppm_image(width: nat, height: nat, data: Seq<u8>, bgra: bool) -> Seq<u8> {
    ppm_header(width, height) + ppm_pixels(data, bgra)
}

/// Appends the decimal digits of `n`.
pub fn push_decimal(out: &mut Vec<u8>, n: u32)
    ensures
        final(out)@ == old(out)@ + decimal(n as nat),
    decreases n,
{
    if n >= 10 {
        push_decimal(out, n / 10);
    }
    let d: u8 = (n % 10) as u8;
    out.push(48 + d);
    proof {
        if n < 10 {
            assert(old(out)@ + decimal(n as nat) =~= old(out)@.push(digit(n as nat)));
        } else {
            assert(old(out)@ + decimal(n as nat) =~= (old(out)@ + decimal((n / 10) as nat)).push(
                digit((n % 10) as nat),
            ));
        }
    }
}

/// The PPM header of a `width` by `height` image.
pub fn ppm_header_bytes(width: u32, height: u32) -> (out: Vec<u8>)
    ensures
        out@ == ppm_header(width as nat, height as nat),
{
    let mut out: Vec<u8> = Vec::new();
    out.push(80);
    out.push(54);
    out.push(10);
    push_decimal(&mut out, width);
    out.push(32);
    push_decimal(&mut out, height);
    out.push(10);
    out.push(50);
    out.push(53);
    out.push(53);
    out.push(10);
    assert(out@ =~= ppm_header(width as nat, height as nat));
    out
}

proof fn lemma_pixel_index(p: int, c: int)
    requires
        0 <= p,
        0 <= c < 3,
    ensures
        (3 * p + c) / 3 == p,
        (3 * p + c) % 3 == c,
{
    assert((3 * p + c) / 3 == p) by (nonlinear_arith)
        requires
            0 <= p,
            0 <= c < 3,
    ;
    assert((3 * p + c) % 3 == c) by (nonlinear_arith)
        requires
            0 <= p,
            0 <= c < 3,
    ;
}

/// The number that a string of ASCII digits spells.
pub open spec fn digits_value(s: Seq<u8>) -> int
    decreases s.len(),
{
    if s.len() == 0 {
        0
    } else {
        digits_value(s.drop_last()) * 10 + (s.last() - 48)
    }
}

/// The decimal digits of `n` are ASCII digits, start with a nonzero digit
/// unless `n` is 0, and spell `n`.
pub proof fn lemma_decimal_spells(n: nat)
    ensures
        decimal(n).len() >= 1,
        forall|i: int| 0 <= i < decimal(n).len() ==> 48 <= #[trigger] decimal(n)[i] <= 57,
        n > 0 ==> decimal(n)[0] != 48,
        digits_value(decimal(n)) == n,
    decreases n,
{
    if n >= 10 {
        lemma_decimal_spells(n / 10);
        let d = decimal(n / 10);
        assert(decimal(n).drop_last() =~= d);
        assert forall|i: int| 0 <= i < decimal(n).len() implies 48 <= #[trigger] decimal(n)[i]
            <= 57 by {
            if i < d.len() {
                assert(decimal(n)[i] == d[i]);
            }
        }
        assert(decimal(n)[0] == d[0]);
        assert(decimal(n).last() == digit(n % 10));
        assert(digit(n % 10) - 48 == n % 10);
        assert((n / 10) * 10 + n % 10 == n);
        assert(digits_value(decimal(n)) == digits_value(d) * 10 + (decimal(n).last() - 48));
    } else {
        assert(decimal(n).drop_last() =~= Seq::<u8>::empty());
        assert(decimal(n).last() == digit(n));
        assert(digit(n) - 48 == n);
        assert(digits_value(Seq::<u8>::empty()) == 0);
        assert(digits_value(decimal(n)) == digits_value(decimal(n).drop_last()) * 10 + (
        decimal(n).last() - 48));
    }
}

/// The header is "P6", a newline, the width in decimal, a space, the height
/// in decimal, a newline, "255" and a newline.
pub proof fn lemma_header_layout(width: nat, height: nat)
    ensures
        ({
            let hd = ppm_header(width, height);
            let dw = decimal(width).len() as int;
            let dh = decimal(height).len() as int;
            &&& hd.len() == dw + dh + 9
            &&& hd[0] == 80u8 && hd[1] == 54u8 && hd[2] == 10u8
            &&& hd.subrange(3, 3 + dw) == decimal(width)
            &&& hd[3 + dw] == 32u8
            &&& hd.subrange(4 + dw, 4 + dw + dh) == decimal(height)
            &&& hd.subrange(4 + dw + dh, hd.len() as int) == seq![10u8, 50u8, 53u8, 53u8, 10u8]
        }),
{
    let hd = ppm_header(width, height);
    let dw = decimal(width).len() as int;
    let dh = decimal(height).len() as int;
    assert(hd.subrange(3, 3 + dw) =~= decimal(width));
    assert(hd.subrange(4 + dw, 4 + dw + dh) =~= decimal(height));
    assert(hd.subrange(4 + dw + dh, hd.len() as int) =~= seq![10u8, 50u8, 53u8, 53u8, 10u8]);
}

/// For any frame buffer, the image is the header followed by three bytes
/// for each complete four-byte group: red, green, blue, read from bytes 0,
/// 1, 2 of the group, or from bytes 2, 1, 0 when the frame is BGRA.
pub proof fn lemma_pixel_layout(width: nat, height: nat, data: Seq<u8>, bgra: bool, p: int)
    requires
        0 <= p < data.len() / 4,
    ensures
        ({
            let img = ppm_image(width, height, data, bgra);
            let hl = ppm_header(width, height).len() as int;
            &&& img.len() == hl + 3 * (data.len() / 4)
            &&& img.subrange(0, hl) == ppm_header(width, height)
            &&& img[hl + 3 * p] == (if bgra {
                data[4 * p + 2]
            } else {
                data[4 * p]
            })
            &&& img[hl + 3 * p + 1] == data[4 * p + 1]
            &&& img[hl + 3 * p + 2] == (if bgra {
                data[4 * p]
            } else {
                data[4 * p + 2]
            })
        }),
{
    let img = ppm_image(width, height, data, bgra);
    let hl = ppm_header(width, height).len() as int;
    assert(img.subrange(0, hl) =~= ppm_header(width, height));
    lemma_pixel_index(p, 0);
    lemma_pixel_index(p, 1);
    lemma_pixel_index(p, 2);
}

/// An image of `width * height` pixels holds exactly three bytes per pixel
/// after its header, and pixel `p` is the red, green and blue channels of
/// the `p`-th four-byte group, whichever the byte order of the frame.
pub proof fn lemma_image_layout(width: nat, height: nat, data: Seq<u8>, bgra: bool, p: int)
    requires
        data.len() == 4 * width * height,
        0 <= p < width * height,
    ensures
        ppm_image(width, height, data, bgra).len() == ppm_header(width, height).len() + 3 * width
            * height,
        ppm_image(width, height, data, bgra)[ppm_header(width, height).len() + 3 * p] == (if bgra {
            data[4 * p + 2]
        } else {
            data[4 * p]
        }),
        ppm_image(width, height, data, bgra)[ppm_header(width, height).len() + 3 * p + 1] == data[4
            * p + 1],
        ppm_image(width, height, data, bgra)[ppm_header(width, height).len() + 3 * p + 2] == (if bgra {
            data[4 * p]
        } else {
            data[4 * p + 2]
        }),
{
    let wh = width * height;
    assert(data.len() / 4 == wh) by (nonlinear_arith)
        requires
            data.len() == 4 * width * height,
            wh == width * height,
    ;
    assert(3 * wh == 3 * width * height) by (nonlinear_arith)
        requires
            wh == width * height,
    ;
    lemma_pixel_index(p, 0);
    lemma_pixel_index(p, 1);
    lemma_pixel_index(p, 2);
}

/// Encodes a `width` by `height` frame whose pixels are the four-byte
/// groups of `data` (blue first when `bgra`, red first otherwise) as a PPM
/// image; a trailing partial group is ignored.
pub fn encode_ppm(width: u32, height: u32, data: &[u8], bgra: bool) -> (out: Vec<u8>)
    ensures
        out@ == ppm_image(width as nat, height as nat, data@, bgra),
{
    let mut out = ppm_header_bytes(width, height);
    let ghost hdr = out@;
    let pixels = data.len() / 4;
    let mut p: usize = 0;
    while p < pixels
        invariant
            pixels == data@.len() / 4,
            p <= pixels,
            out@.len() == hdr.len() + 3 * p,
            forall|j: int| 0 <= j < hdr.len() ==> out@[j] == hdr[j],
            forall|j: int|
                0 <= j < 3 * p ==> #[trigger] out@[hdr.len() + j] == channel(
                    data@,
                    j / 3,
                    j % 3,
                    bgra,
                ),
        decreases pixels - p,
    {
        assert(4 * p + 3 < data@.len()) by (nonlinear_arith)
            requires
                p < pixels,
                pixels == data@.len() / 4,
        ;
        assert(data@.len() == data.len());
        let base = 4 * p;
        let (r, g, b) = if bgra {
            (data[base + 2], data[base + 1], data[base])
        } else {
            (data[base], data[base + 1], data[base + 2])
        };
        let ghost before = out@;
        out.push(r);
        out.push(g);
        out.push(b);
        proof {
            assert forall|j: int| 0 <= j < 3 * (p + 1) implies #[trigger] out@[hdr.len() + j]
                == channel(data@, j / 3, j % 3, bgra) by {
                if j < 3 * p {
                    assert(out@[hdr.len() + j] == before[hdr.len() + j]);
                } else {
                    let c = j - 3 * p;
                    lemma_pixel_index(p as int, c);
                }
            }
        }
        p = p + 1;
    }
    proof {
        let img = ppm_image(width as nat, height as nat, data@, bgra);
        assert(hdr == ppm_header(width as nat, height as nat));
        assert forall|i: int| 0 <= i < out@.len() implies out@[i] == img[i] by {
            if i >= hdr.len() {
                let j = i - hdr.len();
                assert(out@[hdr.len() + j] == channel(data@, j / 3, j % 3, bgra));
            }
        }
        assert(out@ =~= img);
    }
    out
}

} // verus!
