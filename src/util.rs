use vstd::prelude::*;

verus! {

/// Number of hexes on a board with `size` hexes per edge: a centred
/// hexagonal number, and none for an empty board.
pub open spec fn hex_count_spec(size: int) -> int {
    if size == 0 {
        0
    } else {
        size * size + 2 * (size - 1) * (size - 1) + size - 1
    }
}

/// Number of hexes on a board with `size` hexes per edge.
pub fn hex_count(size: u32) -> (r: u32)
    requires
        hex_count_spec(size as int) <= u32::MAX,
    ensures
        r == hex_count_spec(size as int),
{
    if size == 0 {
        return 0;
    }
    let f: u32 = size - 1;
    assert(size * size + 2 * (f * f) + size - 1 == hex_count_spec(size as int)) by (nonlinear_arith)
        requires
            f == size - 1,
    ;
    assert(0 <= f * f <= size * size) by (nonlinear_arith)
        requires
            f == size - 1,
            1 <= size,
    ;
    let sq: u32 = size * size;
    let fq: u32 = f * f;
    sq + fq * 2 + f
}

} // verus!
