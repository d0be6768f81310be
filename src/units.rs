use vstd::prelude::*;

verus! {

/// Thousandths of a CSS pixel in one inch (96 pixels to the inch).
pub const MILLIPIXELS_PER_INCH: u64 = 96000;

/// Micrometres in one inch.
pub const MICROMETRES_PER_INCH: u64 = 25400;

/// The content box of the label element as laid out by the engine, in
/// thousandths of a CSS pixel.
#[derive(Clone, Copy, Debug, PartialEq, Eq, Structural)]
pub struct Measurement {
    pub width_mpx: u64,
    pub height_mpx: u64,
}

/// The physical size of a label page, in micrometres.
#[derive(Clone, Copy, Debug, PartialEq, Eq, Structural)]
pub struct PhysicalDimensions {
    pub width_um: u64,
    pub height_um: u64,
}

/// A length in thousandths of a pixel, in micrometres (px / 96 * 25.4 mm),
/// rounded down.
pub open spec fn mpx_to_um(mpx: int) -> int {
    mpx * (MICROMETRES_PER_INCH as int) / (MILLIPIXELS_PER_INCH as int)
}

pub open spec fn dimensions_of(m: Measurement) -> PhysicalDimensions {
    PhysicalDimensions {
        width_um: mpx_to_um(m.width_mpx as int) as u64,
        height_um: mpx_to_um(m.height_mpx as int) as u64,
    }
}

/// A length in thousandths of a pixel, in micrometres.
fn mpx_to_um_exec(x: u64) -> (r: u64)
    ensures
        r as int == mpx_to_um(x as int),
        r <= x,
{
    let p: u128 = (x as u128) * 25400u128;
    assert(p <= (x as u128) * 96000u128) by (nonlinear_arith)
        requires p == (x as u128) * 25400u128;
    let r: u128 = p / 96000u128;
    assert(r <= x as u128) by (nonlinear_arith)
        requires r == p / 96000u128, p <= (x as u128) * 96000u128;
    r as u64
}

/// Converts a measured label box into physical page dimensions.
pub fn physical_dimensions(m: Measurement) -> (d: PhysicalDimensions)
    ensures
        d == dimensions_of(m),
{
    PhysicalDimensions {
        width_um: mpx_to_um_exec(m.width_mpx),
        height_um: mpx_to_um_exec(m.height_mpx),
    }
}

/// Each physical dimension is the exact one, px / 96 * 25.4 mm, rounded down to
/// the micrometre: it lies at most a micrometre below the exact length.
pub proof fn lemma_dimensions_within_a_micrometre(m: Measurement)
    ensures
        dimensions_of(m).width_um * 96000 <= m.width_mpx * 25400 < (dimensions_of(m).width_um + 1)
            * 96000,
        dimensions_of(m).height_um * 96000 <= m.height_mpx * 25400 < (dimensions_of(m).height_um
            + 1) * 96000,
{
    lemma_floor_bounds(m.width_mpx as int * 25400);
    lemma_floor_bounds(m.height_mpx as int * 25400);
    lemma_um_fits(m.width_mpx as int);
    lemma_um_fits(m.height_mpx as int);
}

proof fn lemma_floor_bounds(x: int)
    requires
        x >= 0,
    ensures
        (x / 96000) * 96000 <= x < (x / 96000 + 1) * 96000,
{
    vstd::arithmetic::div_mod::lemma_fundamental_div_mod(x, 96000);
}

proof fn lemma_um_fits(mpx: int)
    requires
        0 <= mpx <= u64::MAX,
    ensures
        0 <= mpx_to_um(mpx) <= mpx,
{
    assert(mpx * 25400 <= mpx * 96000) by (nonlinear_arith)
        requires mpx >= 0;
    vstd::arithmetic::div_mod::lemma_div_is_ordered(mpx * 25400, mpx * 96000, 96000);
    vstd::arithmetic::div_mod::lemma_div_multiples_vanish(mpx, 96000);
    vstd::arithmetic::div_mod::lemma_div_pos_is_pos(mpx * 25400, 96000);
}

} // verus!
