use vstd::prelude::*;

verus! {

/// An 8-bit color of one pixel.
#[derive(Clone, Copy, Debug, PartialEq, Eq, Structural)]
pub struct Rgb {
    pub r: u8,
    pub g: u8,
    pub b: u8,
}

/// The decimal digits of `n` in ASCII, most significant first, with no
/// leading zero.
pub open spec fn decimal(n: nat) -> Seq<u8>
    decreases n,
{
    if n < 10 {
        seq![(48 + n) as u8]
    } else {
        decimal(n / 10).push((48 + n % 10) as u8)
    }
}

/// The header of a plain-text PPM image: the magic number, the size and
/// the largest channel value, one per line.
pub open spec fn header_spec(width: nat, height: nat) -> Seq<u8> {
    seq![80u8, 51u8, 10u8] + decimal(width) + seq![32u8] + decimal(height) + seq![10u8, 50u8, 53u8,
        53u8, 10u8]
}

/// One pixel's line: its three channels in decimal, apart by spaces.
pub open spec fn pixel_line(p: Rgb) -> Seq<u8> {
    decimal(p.r as nat) + seq![32u8] + decimal(p.g as nat) + seq![32u8] + decimal(p.b as nat)
        + seq![10u8]
}

/// The lines of `pixels`, in order.
pub open spec fn body_spec(pixels: Seq<Rgb>) -> Seq<u8>
    decreases pixels.len(),
{
    if pixels.len() == 0 {
        Seq::empty()
    } else {
        body_spec(pixels.drop_last()) + pixel_line(pixels.last())
    }
}

/// Appends the decimal digits of `n` to `out`.
pub fn write_decimal(out: &mut Vec<u8>, n: u32)
    ensures
        final(out)@ == old(out)@ + decimal(n as nat),
    decreases n,
{
    if n >= 10 {
        write_decimal(out, n / 10);
    }
    let d: u8 = (n % 10) as u8;
    out.push(48 + d);
    proof {
        if n >= 10 {
            assert(final(out)@ =~= old(out)@ + decimal(n as nat));
        } else {
            assert(final(out)@ =~= old(out)@ + decimal(n as nat));
        }
    }
}

fn push_all(out: &mut Vec<u8>, bytes: &[u8])
    ensures
        final(out)@ == old(out)@ + bytes@,
{
    let mut i: usize = 0;
    while i < bytes.len()
        invariant
            i <= bytes.len(),
            out@ == old(out)@ + bytes@.subrange(0, i as int),
        decreases bytes.len() - i,
    {
        out.push(bytes[i]);
        i = i + 1;
        proof {
            assert(out@ =~= old(out)@ + bytes@.subrange(0, i as int));
        }
    }
    proof {
        assert(bytes@.subrange(0, i as int) =~= bytes@);
    }
}

/// The PPM header for an image of `width` by `height` pixels.
pub fn ppm_header(width: u32, height: u32) -> (r: Vec<u8>)
    ensures
        r@ == header_spec(width as nat, height as nat),
{
    let mut out: Vec<u8> = Vec::new();
    push_all(&mut out, &[80u8, 51u8, 10u8]);
    write_decimal(&mut out, width);
    out.push(32u8);
    write_decimal(&mut out, height);
    push_all(&mut out, &[10u8, 50u8, 53u8, 53u8, 10u8]);
    proof {
        assert(out@ =~= header_spec(width as nat, height as nat));
    }
    out
}

/// Appends the line of pixel `p` to `out`.
pub fn write_pixel(out: &mut Vec<u8>, p: Rgb)
    ensures
        final(out)@ == old(out)@ + pixel_line(p),
{
    write_decimal(out, p.r as u32);
    out.push(32u8);
    write_decimal(out, p.g as u32);
    out.push(32u8);
    write_decimal(out, p.b as u32);
    out.push(10u8);
    proof {
        assert(final(out)@ =~= old(out)@ + pixel_line(p));
    }
}

/// The plain-text PPM image of `pixels`, given top row first and each row
/// from left to right; `None` when their number is not
/// `width * height`.
pub fn encode_ppm(width: u32, height: u32, pixels: &Vec<Rgb>) -> (r: Option<Vec<u8>>)
    ensures
        r is Some <==> pixels.len() == width * height,
        r matches Some(bytes) ==> bytes@ == header_spec(width as nat, height as nat) + body_spec(
            pixels@,
        ),
{
    proof {
        assert(width * height <= u32::MAX * u32::MAX) by (nonlinear_arith)
            requires
                width <= u32::MAX,
                height <= u32::MAX,
        ;
    }
    if pixels.len() as u64 != width as u64 * height as u64 {
        return None;
    }
    let mut out = ppm_header(width, height);
    let mut i: usize = 0;
    while i < pixels.len()
        invariant
            i <= pixels.len(),
            out@ == header_spec(width as nat, height as nat) + body_spec(
                pixels@.subrange(0, i as int),
            ),
        decreases pixels.len() - i,
    {
        write_pixel(&mut out, pixels[i]);
        proof {
            let next = pixels@.subrange(0, i + 1);
            assert(next.drop_last() =~= pixels@.subrange(0, i as int));
            assert(out@ =~= header_spec(width as nat, height as nat) + body_spec(next));
        }
        i = i + 1;
    }
    proof {
        assert(pixels@.subrange(0, i as int) =~= pixels@);
    }
    Some(out)
}

} // verus!
