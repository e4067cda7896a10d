use vstd::prelude::*;

verus! {

/// The sum of two channels, stopped at the brightest value.
pub open spec fn channel_sum(source: u8, dest: u8) -> u8 {
    if source + dest > 255 {
        255
    } else {
        (source + dest) as u8
    }
}

/// Adds a colour to another, channel by channel; the result is opaque.
pub fn additive_blend(source: [u8; 4], dest: [u8; 4]) -> (blended: [u8; 4])
    ensures
        blended[0] == channel_sum(source[0], dest[0]),
        blended[1] == channel_sum(source[1], dest[1]),
        blended[2] == channel_sum(source[2], dest[2]),
        blended[3] == 255,
{
    let r = add_channels(source[0], dest[0]);
    let b = add_channels(source[1], dest[1]);
    let g = add_channels(source[2], dest[2]);
    let a: u8 = 255;
    [r, b, g, a]
}

/// The sum of two channels, stopped at the brightest value.
fn add_channels(source: u8, dest: u8) -> (sum: u8)
    ensures
        sum == channel_sum(source, dest),
{
    let sum: u16 = source as u16 + dest as u16;
    if sum > 255 {
        255
    } else {
        sum as u8
    }
}

} // verus!
