//! Offline transcoding between the three tile-storage encodings.
//!
//! The host streams entries from the source and writes them through the
//! ordinary storage writers; which pairs are allowed and how the row axis
//! is unflipped and reflipped is decided here.

use vstd::prelude::*;
use crate::tiles::tms_flip;
use crate::types::{OutputFormat, TileCoord};

verus! {

use vstd::arithmetic::power2::pow2;

/// Which conversions the tool performs: out of the archive into a folder
/// or the tile database, and out of the tile database into a folder or an
/// archive.
pub open spec fn conversion_supported_spec(input: OutputFormat, output: OutputFormat) -> bool {
    ||| (input == OutputFormat::Zip && output == OutputFormat::Folder)
    ||| (input == OutputFormat::Zip && output == OutputFormat::Mbtiles)
    ||| (input == OutputFormat::Mbtiles && output == OutputFormat::Folder)
    ||| (input == OutputFormat::Mbtiles && output == OutputFormat::Zip)
}

/// Conversion-pair test.
pub fn conversion_supported(input: &OutputFormat, output: &OutputFormat) -> (r: bool)
    ensures
        r == conversion_supported_spec(*input, *output),
{
    match (input, output) {
        (OutputFormat::Zip, OutputFormat::Folder) => true,
        (OutputFormat::Zip, OutputFormat::Mbtiles) => true,
        (OutputFormat::Mbtiles, OutputFormat::Folder) => true,
        (OutputFormat::Mbtiles, OutputFormat::Zip) => true,
        _ => false,
    }
}

/// The standard tile address of a tile-database row: the stored row index
/// is counted from the bottom, so it is flipped back.
pub fn mbtiles_row_to_coord(z: u32, column: u32, row: u32) -> (r: TileCoord)
    requires
        z <= 30,
        (row as nat) < pow2(z as nat),
    ensures
        r.z == z,
        r.x == column,
        r.y == pow2(z as nat) - 1 - row,
{
    TileCoord { z, x: column, y: tms_flip(z, row) }
}

/// The tile-database row of a standard tile address: flipped on the way
/// back in.
pub fn coord_to_mbtiles_row(c: &TileCoord) -> (r: u32)
    requires
        c.z <= 30,
        (c.y as nat) < pow2(c.z as nat),
    ensures
        r == pow2(c.z as nat) - 1 - c.y,
{
    tms_flip(c.z, c.y)
}

/// Unflipping a stored row yields the row that flips back to it: the two
/// conversions cancel.
pub proof fn lemma_row_conversion_roundtrip(z: nat, row: int)
    ensures
        pow2(z) - 1 - (pow2(z) - 1 - row) == row,
{
}

} // verus!
