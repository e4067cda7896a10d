use vstd::prelude::*;

verus! {

/// A rectangle of the grid that irradiates for a span of steps.
#[derive(Clone, Copy, Debug)]
pub struct RadiationZone {
    pub start_time: usize,
    pub end_time: usize,
    pub position: (u32, u32),
    pub width: u32,
    pub height: u32,
}

impl RadiationZone {
    /// The zone covers a cell at a step.
    pub open spec fn covers(self, point: (u32, u32), step: usize) -> bool {
        &&& self.start_time <= step <= self.end_time
        &&& self.position.0 <= point.0 < self.position.0 + self.width
        &&& self.position.1 <= point.1 < self.position.1 + self.height
    }

    /// From a cell to the zone, along each axis: zero where the cell lies
    /// within the zone's extent, else the way to the zone's near edge from
    /// the left or from above, and to just past its far edge from the
    /// right or from below.
    pub open spec fn displacement(self, point: (u32, u32)) -> (i64, i64) {
        (
            axis_displacement(self.position.0, self.width, point.0) as i64,
            axis_displacement(self.position.1, self.height, point.1) as i64,
        )
    }

    /// Tests whether the zone covers a cell at a step.
    pub fn is_covering(&self, point: (u32, u32), step: usize) -> (answer: bool)
        ensures
            answer == self.covers(point, step),
    {
        step >= self.start_time && step <= self.end_time && point.0 >= self.position.0
            && (point.0 as u64) < self.position.0 as u64 + self.width as u64 && point.1
            >= self.position.1 && (point.1 as u64) < self.position.1 as u64 + self.height as u64
    }

    /// Computes the displacement from a cell to the zone.
    pub fn displacement_from(&self, point: (u32, u32)) -> (displacement: (i64, i64))
        ensures
            displacement == self.displacement(point),
    {
        (
            displacement_along(self.position.0, self.width, point.0),
            displacement_along(self.position.1, self.height, point.1),
        )
    }
}

/// Displacement along one axis from a coordinate to an extent that starts
/// at `start` and is `length` long.
pub open spec fn axis_displacement(start: u32, length: u32, coordinate: u32) -> int {
    if coordinate < start {
        start - coordinate
    } else if coordinate >= start + length {
        start + length - coordinate
    } else {
        0
    }
}

/// Displacement along one axis.
pub fn displacement_along(start: u32, length: u32, coordinate: u32) -> (displacement: i64)
    ensures
        displacement == axis_displacement(start, length, coordinate),
{
    if coordinate < start {
        start as i64 - coordinate as i64
    } else if coordinate as i64 >= start as i64 + length as i64 {
        start as i64 + length as i64 - coordinate as i64
    } else {
        0
    }
}

/// Squared length of a displacement.
pub open spec fn squared_length(displacement: (i64, i64)) -> int {
    displacement.0 * displacement.0 + displacement.1 * displacement.1
}

/// The radiation of a scenario: its zones, and which of them are still to
/// come or in force.
#[derive(Debug)]
pub struct ScenarioRadiation {
    /// Times irradiated at which an agent dies, if radiation kills at all.
    pub death_threshold: Option<u32>,
    pub starting_rad_zones: Vec<RadiationZone>,
    /// Positions in `starting_rad_zones` of the zones that have not ended.
    pub remaining_rad_zones: Vec<usize>,
    /// Positions in `starting_rad_zones` of the zones in force.
    pub active_rad_zones: Vec<usize>,
}

impl ScenarioRadiation {
    /// Every listed position names a zone.
    pub open spec fn well_formed(self) -> bool {
        &&& forall|k: int|
            0 <= k < self.remaining_rad_zones@.len() ==> #[trigger] self.remaining_rad_zones@[k]
                < self.starting_rad_zones@.len()
        &&& forall|k: int|
            0 <= k < self.active_rad_zones@.len() ==> #[trigger] self.active_rad_zones@[k]
                < self.starting_rad_zones@.len()
    }

    /// Tests whether every listed position names a zone.
    pub fn is_well_formed(&self) -> (answer: bool)
        ensures
            answer == self.well_formed(),
    {
        let count = self.starting_rad_zones.len();
        let mut k: usize = 0;
        while k < self.remaining_rad_zones.len()
            invariant
                count == self.starting_rad_zones@.len(),
                k <= self.remaining_rad_zones.len(),
                forall|j: int| 0 <= j < k ==> #[trigger] self.remaining_rad_zones@[j] < count,
            decreases self.remaining_rad_zones.len() - k,
        {
            if self.remaining_rad_zones[k] >= count {
                return false;
            }
            k += 1;
        }
        let mut k: usize = 0;
        while k < self.active_rad_zones.len()
            invariant
                count == self.starting_rad_zones@.len(),
                k <= self.active_rad_zones.len(),
                forall|j: int| 0 <= j < k ==> #[trigger] self.active_rad_zones@[j] < count,
            decreases self.active_rad_zones.len() - k,
        {
            if self.active_rad_zones[k] >= count {
                return false;
            }
            k += 1;
        }
        true
    }
}

} // verus!
