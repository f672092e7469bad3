use vstd::prelude::*;

verus! {

// An IEEE-754 single-precision number is a sign bit above a 31-bit
// magnitude; a magnitude above that of infinity is a NaN. Numbers that are
// not NaN compare by sign and magnitude, with both zeros equal.

/// The sign bit of the single-precision number with these bits.
pub open spec fn negative(bits: u32) -> bool {
    bits >= 0x8000_0000
}

/// The magnitude bits of the single-precision number with these bits.
pub open spec fn magnitude(bits: u32) -> int {
    bits as int % 0x8000_0000
}

/// Whether these are the bits of a NaN.
pub open spec fn is_nan(bits: u32) -> bool {
    magnitude(bits) > 0x7f80_0000
}

/// Whether the number with bits `a` is less than that with bits `b`; both
/// are not NaN.
pub open spec fn value_lt(a: u32, b: u32) -> bool {
    if magnitude(a) == 0 && magnitude(b) == 0 {
        false
    } else if !negative(a) && !negative(b) {
        magnitude(a) < magnitude(b)
    } else if negative(a) && negative(b) {
        magnitude(b) < magnitude(a)
    } else {
        negative(a)
    }
}

/// The number with these bits as a signed count of magnitude steps.
pub open spec fn signed_magnitude(bits: u32) -> int {
    if negative(bits) {
        -magnitude(bits)
    } else {
        magnitude(bits)
    }
}

/// The order key of the single-precision number with bits `bits`, which is
/// not NaN: keys compare as the numbers do.
pub fn order_key(bits: u32) -> (r: u32)
    requires
        !is_nan(bits),
    ensures
        r == 0x8000_0000 + signed_magnitude(bits),
{
    let mag = bits % 0x8000_0000;
    if bits >= 0x8000_0000 {
        0x8000_0000 - mag
    } else {
        0x8000_0000 + mag
    }
}

/// The bits of the number whose order key is `key` (a zero comes back
/// positive).
pub fn bits_of_key(key: u32) -> (r: u32)
    requires
        0x8000_0000 - 0x7f80_0000 <= key <= 0x8000_0000 + 0x7f80_0000,
    ensures
        !is_nan(r),
        0x8000_0000 + signed_magnitude(r) == key,
        magnitude(r) == 0 ==> r == 0,
{
    if key >= 0x8000_0000 {
        key - 0x8000_0000
    } else {
        0x8000_0000 + (0x8000_0000 - key)
    }
}

/// Order keys compare exactly as the numbers they stand for, and a key
/// leads back to the number it came from, up to the sign of a zero.
pub proof fn lemma_keys_follow_values(a: u32, b: u32)
    requires
        !is_nan(a),
        !is_nan(b),
    ensures
        value_lt(a, b) <==> 0x8000_0000 + signed_magnitude(a) < 0x8000_0000 + signed_magnitude(b),
        signed_magnitude(a) == signed_magnitude(b) <==> (a == b || (magnitude(a) == 0 && magnitude(b) == 0)),
{
}

} // verus!
