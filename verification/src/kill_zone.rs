use vstd::prelude::*;

verus! {

/// A rectangle of the grid that kills for a span of steps.
#[derive(Clone, Copy, Debug)]
pub struct KillZone {
    pub start_time: usize,
    pub end_time: usize,
    pub position: (u32, u32),
    pub width: u32,
    pub height: u32,
}

/// Distance along one axis from a coordinate to an extent that starts at
/// `start` and is `length` long: zero inside the extent, else the number of
/// steps to its nearest cell.
pub open spec fn axis_gap(start: u32, length: u32, coordinate: u32) -> int {
    if coordinate < start {
        start - coordinate
    } else if coordinate >= start + length {
        coordinate - (start + length - 1)
    } else {
        0
    }
}

impl KillZone {
    /// The zone has a cell, and its far edges can be written in 32 bits.
    pub open spec fn fits(self) -> bool {
        &&& 1 <= self.position.0 + self.width <= u32::MAX
        &&& 1 <= self.position.1 + self.height <= u32::MAX
    }

    /// The zone covers a cell at a step.
    pub open spec fn covers(self, point: (u32, u32), step: usize) -> bool {
        &&& self.start_time <= step <= self.end_time
        &&& self.position.0 <= point.0 < self.position.0 + self.width
        &&& self.position.1 <= point.1 < self.position.1 + self.height
    }
}

/// The least horizontal gap between a cell and the first `upto` zones;
/// the greatest 32-bit number if there is no zone.
pub open spec fn least_gap_x(zones: Seq<&KillZone>, point: (u32, u32), upto: int) -> int
    decreases upto,
{
    if upto <= 0 {
        u32::MAX as int
    } else {
        let earlier = least_gap_x(zones, point, upto - 1);
        let gap = axis_gap(zones[upto - 1].position.0, zones[upto - 1].width, point.0);
        if gap < earlier {
            gap
        } else {
            earlier
        }
    }
}

/// The least vertical gap between a cell and the first `upto` zones; the
/// greatest 32-bit number if there is no zone.
pub open spec fn least_gap_y(zones: Seq<&KillZone>, point: (u32, u32), upto: int) -> int
    decreases upto,
{
    if upto <= 0 {
        u32::MAX as int
    } else {
        let earlier = least_gap_y(zones, point, upto - 1);
        let gap = axis_gap(zones[upto - 1].position.1, zones[upto - 1].height, point.1);
        if gap < earlier {
            gap
        } else {
            earlier
        }
    }
}

/// Distance along one axis from a coordinate to an extent.
fn gap_along(start: u32, length: u32, coordinate: u32) -> (gap: u32)
    requires
        1 <= start + length <= u32::MAX,
    ensures
        gap == axis_gap(start, length, coordinate),
{
    if coordinate < start {
        start - coordinate
    } else if coordinate >= start + length {
        coordinate - (start + length - 1)
    } else {
        0
    }
}

/// The least horizontal and the least vertical gap between a cell and the
/// zones, each taken over all zones by itself.
pub fn distance_to_killzone(active_kill_zones: &Vec<&KillZone>, point: (u32, u32)) -> (distance: (
    u32,
    u32,
))
    requires
        forall|k: int| 0 <= k < active_kill_zones@.len() ==> (#[trigger] active_kill_zones@[k]).fits(),
    ensures
        distance.0 == least_gap_x(active_kill_zones@, point, active_kill_zones@.len() as int),
        distance.1 == least_gap_y(active_kill_zones@, point, active_kill_zones@.len() as int),
{
    let mut min_dx: u32 = u32::MAX;
    let mut min_dy: u32 = u32::MAX;
    let mut k: usize = 0;
    while k < active_kill_zones.len()
        invariant
            k <= active_kill_zones.len(),
            forall|j: int|
                0 <= j < active_kill_zones@.len() ==> (#[trigger] active_kill_zones@[j]).fits(),
            min_dx == least_gap_x(active_kill_zones@, point, k as int),
            min_dy == least_gap_y(active_kill_zones@, point, k as int),
        decreases active_kill_zones.len() - k,
    {
        let kill_zone = active_kill_zones[k];
        assert(active_kill_zones@[k as int].fits());
        let dist_x = gap_along(kill_zone.position.0, kill_zone.width, point.0);
        let dist_y = gap_along(kill_zone.position.1, kill_zone.height, point.1);
        if dist_x < min_dx {
            min_dx = dist_x;
        }
        if dist_y < min_dy {
            min_dy = dist_y;
        }
        k += 1;
    }
    (min_dx, min_dy)
}

/// Whether a zone covers a cell at a step.
pub fn is_point_in_killzone(kill_zones: &Vec<KillZone>, point: (u32, u32), generation_time: usize) -> (answer:
    bool)
    ensures
        answer == exists|k: int|
            0 <= k < kill_zones@.len() && (#[trigger] kill_zones@[k]).covers(point, generation_time),
{
    let mut k: usize = 0;
    while k < kill_zones.len()
        invariant
            k <= kill_zones.len(),
            forall|j: int| 0 <= j < k ==> !(#[trigger] kill_zones@[j]).covers(point, generation_time),
        decreases kill_zones.len() - k,
    {
        let kz = &kill_zones[k];
        if generation_time >= kz.start_time && generation_time <= kz.end_time && point.0
            >= kz.position.0 && (point.0 as u64) < kz.position.0 as u64 + kz.width as u64 && point.1
            >= kz.position.1 && (point.1 as u64) < kz.position.1 as u64 + kz.height as u64 {
            assert(kill_zones@[k as int].covers(point, generation_time));
            return true;
        }
        k += 1;
    }
    false
}

} // verus!
