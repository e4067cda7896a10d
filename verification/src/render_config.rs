use vstd::prelude::*;

verus! {

/// How the grid is drawn.
#[derive(Clone, Copy, Debug)]
pub struct RenderConfig {
    pub pixel_scale: u32,
    pub viewport_width: u32,
    pub viewport_height: u32,
    pub rad_zone_color: [u8; 4],
    pub background_color: [u8; 4],
}

} // verus!
