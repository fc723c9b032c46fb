//! Brightness quantization of colour samples and the heat-map glyph table.
use vstd::prelude::*;

verus! {

/// Number of brightness buckets, and of entries in the heat map.
pub const HEAT_MAP_LENGTH: usize = 16;

/// Width in luminance units of one brightness bucket (256 / HEAT_MAP_LENGTH).
pub const BUCKET_SPAN: u32 = 16;

/// Glyph drawn for every pixel when solid colour blocks are asked for.
pub const BLOCK_GLYPH: char = '█';

/// The heat map: one glyph per brightness bucket, from the sparsest to the densest.
pub open spec fn heat_map() -> Seq<char> {
    seq![' ', '.', '´', ':', '~', '+', 'i', 'x', '!', 'I', '#', '$', 'X', '▄', '■', '█']
}

/// Luminance of a sample: the integer average of its red, green and blue parts.
pub open spec fn luminance(r: u8, g: u8, b: u8) -> nat {
    ((r + g + b) / 3) as nat
}

/// Brightness bucket of a luminance value.
pub open spec fn bucket_of_luminance(v: nat) -> nat {
    v / (BUCKET_SPAN as nat)
}

/// Brightness bucket of a colour sample.
pub open spec fn bucket_of(r: u8, g: u8, b: u8) -> nat {
    bucket_of_luminance(luminance(r, g, b))
}

/// Maps a colour sample to its brightness bucket; alpha plays no part.
pub fn quantize(r: u8, g: u8, b: u8) -> (bucket: u8)
    ensures
        bucket as nat == bucket_of(r, g, b),
        (bucket as usize) < HEAT_MAP_LENGTH,
{
    let sum: u32 = r as u32 + g as u32 + b as u32;
    ((sum / 3) / BUCKET_SPAN) as u8
}

/// Heat-map glyph of a brightness bucket.
pub fn heat_glyph(bucket: u8) -> (c: char)
    requires
        (bucket as usize) < HEAT_MAP_LENGTH,
    ensures
        c == heat_map()[bucket as int],
{
    match bucket {
        0 => ' ',
        1 => '.',
        2 => '´',
        3 => ':',
        4 => '~',
        5 => '+',
        6 => 'i',
        7 => 'x',
        8 => '!',
        9 => 'I',
        10 => '#',
        11 => '$',
        12 => 'X',
        13 => '▄',
        14 => '■',
        _ => '█',
    }
}

/// A grey sample of luminance `v` falls in bucket `v / 16`, which never exceeds
/// the last bucket: black is bucket 0, luminance 16 starts bucket 1, and white is
/// bucket 15.
pub proof fn lemma_quantize_luminance(v: u8)
    ensures
        bucket_of(v, v, v) == v as nat / 16,
        bucket_of(v, v, v) < HEAT_MAP_LENGTH,
        bucket_of(0, 0, 0) == 0,
        bucket_of(16, 16, 16) == 1,
        bucket_of(255, 255, 255) == 15,
{
}

/// Every colour sample lands in one of the heat map's buckets.
pub proof fn lemma_bucket_in_range(r: u8, g: u8, b: u8)
    ensures
        bucket_of(r, g, b) < heat_map().len(),
{
}

} // verus!
