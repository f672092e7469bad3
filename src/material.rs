use vstd::prelude::*;

verus! {

/// Which ray a dielectric surface sends out.
#[derive(Clone, Copy, Debug, PartialEq, Eq, Structural)]
pub enum Bounce {
    Reflect,
    Refract,
}

/// Chooses between the reflected and the refracted ray at a dielectric
/// surface. Where no refracted ray exists (total internal reflection) the
/// reflection probability is one and the ray reflects; otherwise it
/// reflects when the uniform draw in `[0, 1)` fell below the Schlick
/// reflectance (`draw_below_reflectance`) and refracts when it did not.
pub fn dielectric_bounce(refracts: bool, draw_below_reflectance: bool) -> (r: Bounce)
    ensures
        r == Bounce::Reflect <==> (!refracts || draw_below_reflectance),
        r == Bounce::Refract <==> (refracts && !draw_below_reflectance),
{
    if refracts && !draw_below_reflectance {
        Bounce::Refract
    } else {
        Bounce::Reflect
    }
}

} // verus!
