use vstd::prelude::*;

verus! {

/// An exact rational number of pixels, `numerator / denominator`.
#[derive(Clone, Copy, Debug, PartialEq, Eq, Structural)]
pub struct Fraction {
    pub numerator: i128,
    pub denominator: i128,
}

/// The screen position of the centre of tile `pos`, that is
/// `pos / game_size * window_size - window_size / 2 + tile_size / 2` with
/// `tile_size = window_size / game_size`, multiplied by `2 * game_size` so that
/// no division is left.
pub open spec fn screen_position_scaled(pos: int, window_size: int, game_size: int) -> int {
    2 * pos * window_size - window_size * game_size + window_size
}

/// Maps a grid coordinate to the pixel coordinate of its tile's centre, with
/// the grid centred on the window's origin. The result is exact: its
/// denominator is `2 * game_size`.
pub fn convert_coords_to_screen_space(pos: i32, window_size: i32, game_size: i32) -> (r: Fraction)
    requires
        0 < game_size,
    ensures
        r.denominator == 2 * game_size,
        r.numerator == screen_position_scaled(pos as int, window_size as int, game_size as int),
{
    let p: i128 = pos as i128;
    let w: i128 = window_size as i128;
    let g: i128 = game_size as i128;
    assert(-0x4000_0000_0000_0000 <= p * w <= 0x4000_0000_0000_0000) by (nonlinear_arith)
        requires
            -0x8000_0000 <= p <= 0x8000_0000,
            -0x8000_0000 <= w <= 0x8000_0000,
    ;
    assert(-0x4000_0000_0000_0000 <= w * g <= 0x4000_0000_0000_0000) by (nonlinear_arith)
        requires
            -0x8000_0000 <= g <= 0x8000_0000,
            -0x8000_0000 <= w <= 0x8000_0000,
    ;
    assert(2 * p * w == 2 * (p * w)) by (nonlinear_arith);
    Fraction { numerator: 2 * (p * w) - w * g + w, denominator: 2 * g }
}

/// The fraction of a tile's share of the window that its sprite covers, in
/// tenths.
pub const TILE_SIZE_TENTHS: i128 = 9;

/// The side of a tile's sprite in pixels along one axis: nine tenths of the
/// window size divided by the number of tiles on that axis, exactly.
pub fn size_scaling(window_size: i32, game_size: i32) -> (r: Fraction)
    requires
        0 < game_size,
    ensures
        r.numerator == TILE_SIZE_TENTHS * window_size,
        r.denominator == 10 * game_size,
{
    Fraction { numerator: TILE_SIZE_TENTHS * window_size as i128, denominator: 10 * game_size as i128 }
}

/// The leftmost and rightmost tiles of a row sit symmetrically about the
/// window's centre, the leftmost one half a tile right of the window's left
/// edge: `-window_size / 2 + tile_size / 2`, scaled by `2 * game_size`.
pub proof fn lemma_edge_tiles_symmetric(window_size: int, game_size: int)
    requires
        0 < game_size,
    ensures
        screen_position_scaled(0, window_size, game_size) + screen_position_scaled(
            game_size - 1,
            window_size,
            game_size,
        ) == 0,
        screen_position_scaled(0, window_size, game_size) == -(window_size * game_size)
            + window_size,
{
    assert(2 * (game_size - 1) * window_size == 2 * game_size * window_size - 2 * window_size)
        by (nonlinear_arith);
    assert(2 * game_size * window_size == 2 * (window_size * game_size)) by (nonlinear_arith);
    assert(2 * 0 * window_size == 0) by (nonlinear_arith);
}

} // verus!
