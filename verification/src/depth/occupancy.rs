//! An ego-centric, scrolling voxel grid of log-odds fed by depth rays.
use vstd::prelude::*;
use crate::depth::patch_depth::{PatchDepthOutput, PatchStatus};
use crate::layout::sample_count;
use crate::ieee::{one64, real32, real64, zero32, zero64, Real32, Real64};

verus! {

/// How a ray writes evidence into the grid.
#[derive(Clone, Copy, Debug, PartialEq, Eq, Structural)]
pub enum OccupancyUpdateMode {
    /// A fixed log-odds increment per voxel; the depth variance only decides whether a
    /// ray is used.
    FixedIncrement,
    /// The depth variance widens and weakens the evidence around the measured range.
    UncertaintyAware,
}

impl Default for OccupancyUpdateMode {
    fn default() -> (r: Self)
        ensures
            r == OccupancyUpdateMode::FixedIncrement,
    {
        OccupancyUpdateMode::FixedIncrement
    }
}

#[derive(Clone, Copy, Debug, PartialEq)]
pub struct LocalOccupancySettings {
    pub enabled: bool,
    pub resolution: Real64,
    pub width_cells: usize,
    pub height_cells: usize,
    pub sample_stride: usize,
    pub min_range: Real64,
    pub max_range: Real64,
    pub max_eta_std: Real64,
    pub log_odds_hit: Real32,
    pub log_odds_miss: Real32,
    pub log_odds_min: Real32,
    pub log_odds_max: Real32,
    pub occupied_threshold: Real32,
    pub free_threshold: Real32,
    pub update_mode: OccupancyUpdateMode,
    /// Half-width of the occupied band, in standard deviations of the range.
    pub band_k: Real64,
    /// Smallest standard deviation of a range, as a fraction of the resolution.
    pub sigma_floor_factor: Real64,
    /// Smallest confidence weight of a ray.
    pub min_confidence_weight: Real64,
    /// Vertical extent of the grid, relative to the camera: from this height to the next one.
    pub min_obstacle_height: Real64,
    pub max_obstacle_height: Real64,
}

impl LocalOccupancySettings {
    /// The settings in use where nothing else is configured.
    pub open spec fn defaults() -> Self {
        LocalOccupancySettings {
            enabled: false,
            resolution: real64(0x3FB9_9999_9999_999A),
            width_cells: 160,
            height_cells: 160,
            sample_stride: 4,
            min_range: real64(0x3FD0_0000_0000_0000),
            max_range: real64(0x4028_0000_0000_0000),
            max_eta_std: real64(0x3FE0_0000_0000_0000),
            log_odds_hit: real32(0x3F59_999A),
            log_odds_miss: real32(0xBEB3_3333),
            log_odds_min: real32(0xC080_0000),
            log_odds_max: real32(0x4080_0000),
            occupied_threshold: real32(0x3F4C_CCCD),
            free_threshold: real32(0xBF4C_CCCD),
            update_mode: OccupancyUpdateMode::FixedIncrement,
            band_k: real64(0x4000_0000_0000_0000),
            sigma_floor_factor: real64(0x3FE0_0000_0000_0000),
            min_confidence_weight: real64(0x3FB9_9999_9999_999A),
            min_obstacle_height: real64(0xBFF0_0000_0000_0000),
            max_obstacle_height: one64(),
        }
    }

    /// The first rule that the settings break, if any.
    pub open spec fn broken_rule(self) -> Option<OccupancyError> {
        if !zero64().lt(self.resolution) {
            Some(OccupancyError::Resolution)
        } else if self.width_cells == 0 || self.height_cells == 0 {
            Some(OccupancyError::Dimensions)
        } else if self.sample_stride == 0 {
            Some(OccupancyError::SampleStride)
        } else if !self.min_range.lt(self.max_range) {
            Some(OccupancyError::Range)
        } else if !self.min_obstacle_height.lt(self.max_obstacle_height) {
            Some(OccupancyError::VerticalExtent)
        } else {
            None
        }
    }

    /// What a log-odds value says of its voxel.
    pub open spec fn state_of(self, value: Real32) -> OccupancyCell {
        if self.occupied_threshold.le(value) {
            OccupancyCell::Occupied
        } else if value.le(self.free_threshold) {
            OccupancyCell::Free
        } else {
            OccupancyCell::Unknown
        }
    }

    /// Says of a log-odds value whether its voxel is occupied, free or unknown.
    pub fn classify(&self, value: Real32) -> (r: OccupancyCell)
        ensures
            r == self.state_of(value),
    {
        if self.occupied_threshold.at_most(value) {
            OccupancyCell::Occupied
        } else if value.at_most(self.free_threshold) {
            OccupancyCell::Free
        } else {
            OccupancyCell::Unknown
        }
    }

    /// Whether a depth may be turned into a ray.
    pub open spec fn ray_admitted(self, sample: RaySample) -> bool {
        &&& sample.status.usable()
        &&& sample.eta.finite()
        &&& sample.eta_var.finite()
        &&& !sample.eta_var.lt(zero32())
        &&& !self.max_eta_std.lt(sample.rel_std)
        &&& !sample.range.lt(self.min_range)
        &&& !self.max_range.lt(sample.range)
        &&& sample.bearing_x.finite()
        &&& sample.bearing_y.finite()
        &&& sample.bearing_z.finite()
    }

    /// Decides whether a depth may be turned into a ray: it has a usable status, finite
    /// numbers, a variance that is not negative, a relative deviation and a range within
    /// the limits, and a finite direction.
    pub fn admits(&self, sample: &RaySample) -> (r: bool)
        ensures
            r == self.ray_admitted(*sample),
    {
        sample.status.is_usable() && sample.eta.is_finite() && sample.eta_var.is_finite()
            && !sample.eta_var.less(zero32()) && !self.max_eta_std.less(sample.rel_std)
            && !sample.range.less(self.min_range) && !self.max_range.less(sample.range)
            && sample.bearing_x.is_finite() && sample.bearing_y.is_finite()
            && sample.bearing_z.is_finite()
    }
}

impl Default for LocalOccupancySettings {
    fn default() -> (r: Self)
        ensures
            r == Self::defaults(),
    {
        LocalOccupancySettings {
            enabled: false,
            resolution: real64(0x3FB9_9999_9999_999A),
            width_cells: 160,
            height_cells: 160,
            sample_stride: 4,
            min_range: real64(0x3FD0_0000_0000_0000),
            max_range: real64(0x4028_0000_0000_0000),
            max_eta_std: real64(0x3FE0_0000_0000_0000),
            log_odds_hit: real32(0x3F59_999A),
            log_odds_miss: real32(0xBEB3_3333),
            log_odds_min: real32(0xC080_0000),
            log_odds_max: real32(0x4080_0000),
            occupied_threshold: real32(0x3F4C_CCCD),
            free_threshold: real32(0xBF4C_CCCD),
            update_mode: OccupancyUpdateMode::FixedIncrement,
            band_k: real64(0x4000_0000_0000_0000),
            sigma_floor_factor: real64(0x3FE0_0000_0000_0000),
            min_confidence_weight: real64(0x3FB9_9999_9999_999A),
            min_obstacle_height: real64(0xBFF0_0000_0000_0000),
            max_obstacle_height: one64(),
        }
    }
}

/// Why a grid could not be made.
#[derive(Clone, Copy, Debug, PartialEq, Eq, Structural)]
pub enum OccupancyError {
    Resolution,
    Dimensions,
    SampleStride,
    Range,
    VerticalExtent,
}

impl OccupancyError {
    pub open spec fn text(self) -> Seq<char> {
        match self {
            OccupancyError::Resolution => "occupancy resolution must be positive"@,
            OccupancyError::Dimensions => "occupancy grid dimensions must be non-zero"@,
            OccupancyError::SampleStride => "occupancy sample_stride must be non-zero"@,
            OccupancyError::Range => "occupancy max_range must be greater than min_range"@,
            OccupancyError::VerticalExtent => {
                "occupancy vertical extent (max_obstacle_height - min_obstacle_height) must be positive"@
            },
        }
    }

    pub fn message(&self) -> (r: &'static str)
        ensures
            r@ == self.text(),
    {
        match self {
            OccupancyError::Resolution => "occupancy resolution must be positive",
            OccupancyError::Dimensions => "occupancy grid dimensions must be non-zero",
            OccupancyError::SampleStride => "occupancy sample_stride must be non-zero",
            OccupancyError::Range => "occupancy max_range must be greater than min_range",
            OccupancyError::VerticalExtent => {
                "occupancy vertical extent (max_obstacle_height - min_obstacle_height) must be positive"
            },
        }
    }
}

#[derive(Clone, Copy, Debug, PartialEq, Eq, Structural)]
pub enum OccupancyCell {
    Unknown,
    Free,
    Occupied,
}

#[derive(Clone, Copy, Debug, PartialEq, Eq, Structural)]
pub struct OccupancyUpdateStats {
    pub rays_considered: usize,
    pub rays_integrated: usize,
    pub occupied_updates: usize,
    pub free_updates: usize,
}

impl Default for OccupancyUpdateStats {
    fn default() -> (r: Self)
        ensures
            r == (OccupancyUpdateStats {
                rays_considered: 0,
                rays_integrated: 0,
                occupied_updates: 0,
                free_updates: 0,
            }),
    {
        OccupancyUpdateStats {
            rays_considered: 0,
            rays_integrated: 0,
            occupied_updates: 0,
            free_updates: 0,
        }
    }
}

/// A depth at one pixel with what was computed from it: the relative standard deviation
/// of its range, the range, and the viewing direction.
#[derive(Clone, Copy, Debug, PartialEq)]
pub struct RaySample {
    pub status: PatchStatus,
    pub eta: Real32,
    pub eta_var: Real32,
    pub rel_std: Real64,
    pub range: Real64,
    pub bearing_x: Real64,
    pub bearing_y: Real64,
    pub bearing_z: Real64,
}

/// What was computed from the depth of one pixel.
#[derive(Clone, Copy, Debug, PartialEq)]
pub struct RayGeometry {
    pub rel_std: Real64,
    pub range: Real64,
    pub bearing_x: Real64,
    pub bearing_y: Real64,
    pub bearing_z: Real64,
}

/// A voxel by its three integer coordinates, or a step between voxels.
#[derive(Clone, Copy, Debug, PartialEq, Eq, Structural)]
pub struct VoxelIndex {
    pub x: i64,
    pub y: i64,
    pub z: i64,
}

/// A point in world coordinates.
#[derive(Clone, Copy, Debug, PartialEq)]
pub struct WorldPoint {
    pub x: Real64,
    pub y: Real64,
    pub z: Real64,
}

/// A coordinate in voxel units, rounded down.
pub open spec fn voxel_coordinate(q: Real64) -> int {
    if q.nan() {
        0
    } else {
        crate::ieee::saturated_i64(q.floored())
    }
}

/// The voxel of a point given in voxel units.
pub fn voxel_of(p: WorldPoint) -> (r: VoxelIndex)
    ensures
        r.x == voxel_coordinate(p.x),
        r.y == voxel_coordinate(p.y),
        r.z == voxel_coordinate(p.z),
{
    VoxelIndex { x: p.x.floor_to_i64(), y: p.y.floor_to_i64(), z: p.z.floor_to_i64() }
}

/// Number of layers for a rounded quotient of vertical extent and resolution: at least one.
pub open spec fn layers_of(rounded: Real64) -> int {
    if rounded.nan() || rounded.negative() || rounded.truncated() < 1 {
        1
    } else if rounded.truncated() > usize::MAX {
        usize::MAX as int
    } else {
        rounded.truncated()
    }
}

/// Number of layers for a rounded quotient of vertical extent and resolution.
pub fn layer_count(rounded: Real64) -> (r: usize)
    ensures
        r == layers_of(rounded),
        r >= 1,
{
    let n: usize = rounded.trunc_to_usize();
    if n < 1 {
        1
    } else {
        n
    }
}

/// A copy of the grid with its position in the world.
#[derive(Clone, Debug, PartialEq)]
pub struct OccupancyGridSnapshot {
    pub width: usize,
    pub height: usize,
    pub depth: usize,
    pub resolution: Real64,
    pub origin: WorldPoint,
    pub log_odds: Vec<Real32>,
}

/// Ego-centric, scrolling log-odds grid.
#[derive(Clone, Debug)]
pub struct LocalOccupancyMap {
    settings: LocalOccupancySettings,
    depth_cells: usize,
    origin: WorldPoint,
    center: VoxelIndex,
    log_odds: Vec<Real32>,
}

impl LocalOccupancyMap {
    pub closed spec fn config(self) -> LocalOccupancySettings {
        self.settings
    }

    pub closed spec fn layers(self) -> int {
        self.depth_cells as int
    }

    pub closed spec fn corner(self) -> WorldPoint {
        self.origin
    }

    pub closed spec fn anchor(self) -> VoxelIndex {
        self.center
    }

    pub closed spec fn grid(self) -> Seq<Real32> {
        self.log_odds@
    }

    pub open spec fn columns(self) -> int {
        self.config().width_cells as int
    }

    pub open spec fn rows(self) -> int {
        self.config().height_cells as int
    }

    /// The storage holds one value per voxel, and there is at least one voxel.
    pub open spec fn wf(self) -> bool {
        &&& self.config().broken_rule() is None
        &&& self.layers() >= 1
        &&& self.grid().len() == self.columns() * self.rows() * self.layers()
        &&& self.grid().len() <= i64::MAX
    }

    /// Whether the grid has a voxel with these coordinates.
    pub open spec fn has(self, x: int, y: int, z: int) -> bool {
        0 <= x < self.columns() && 0 <= y < self.rows() && 0 <= z < self.layers()
    }

    /// Position of a voxel in the storage.
    pub open spec fn position(self, x: int, y: int, z: int) -> int {
        crate::layout::cell3(self.columns(), self.rows(), x, y, z)
    }

    /// The log-odds of a voxel.
    pub open spec fn voxel(self, x: int, y: int, z: int) -> Real32 {
        self.grid()[self.position(x, y, z)]
    }

    proof fn lemma_has(self, x: int, y: int, z: int)
        requires
            self.wf(),
            self.has(x, y, z),
        ensures
            0 <= z * self.rows(),
            0 <= z * self.rows() + y <= self.grid().len(),
            0 <= (z * self.rows() + y) * self.columns() <= self.position(x, y, z),
            0 <= self.position(x, y, z) < self.grid().len(),
    {
        crate::layout::lemma_cell3_bound(self.columns(), self.rows(), self.layers(), x, y, z);
        let c = self.columns();
        let row = z * self.rows() + y;
        assert(row <= row * c) by (nonlinear_arith)
            requires
                row >= 0,
                c >= 1,
        ;
    }

    proof fn lemma_dimensions(self)
        requires
            self.wf(),
        ensures
            1 <= self.columns() <= i64::MAX,
            1 <= self.rows() <= i64::MAX,
            1 <= self.layers() <= i64::MAX,
    {
        let (w, h, d) = (self.columns(), self.rows(), self.layers());
        assert(w <= w * h * d && h <= w * h * d && d <= w * h * d) by (nonlinear_arith)
            requires
                w >= 1,
                h >= 1,
                d >= 1,
        ;
    }

    /// A grid of unknown voxels. `layers` is the rounded quotient of the vertical extent
    /// and the resolution; `corner_x` and `corner_y` place the corner of the grid in the world,
    /// which lies at the lowest height.
    pub fn new(settings: LocalOccupancySettings, layers: Real64, corner_x: Real64, corner_y: Real64) -> (r: Result<
        Self,
        OccupancyError,
    >)
        requires
            settings.broken_rule() is None ==> settings.width_cells * settings.height_cells * layers_of(
                layers,
            ) <= isize::MAX,
        ensures
            r is Ok <==> settings.broken_rule() is None,
            r matches Err(e) ==> settings.broken_rule() == Some(e),
            r matches Ok(map) ==> {
                &&& map.wf()
                &&& map.config() == settings
                &&& map.layers() == layers_of(layers)
                &&& map.corner() == (WorldPoint { x: corner_x, y: corner_y, z: settings.min_obstacle_height })
                &&& map.anchor() == VoxelIndex { x: 0, y: 0, z: 0 }
                &&& forall|i: int| 0 <= i < map.grid().len() ==> #[trigger] map.grid()[i] == zero32()
            },
    {
        if !zero64().less(settings.resolution) {
            return Err(OccupancyError::Resolution);
        }
        if settings.width_cells == 0 || settings.height_cells == 0 {
            return Err(OccupancyError::Dimensions);
        }
        if settings.sample_stride == 0 {
            return Err(OccupancyError::SampleStride);
        }
        if !settings.min_range.less(settings.max_range) {
            return Err(OccupancyError::Range);
        }
        if !settings.min_obstacle_height.less(settings.max_obstacle_height) {
            return Err(OccupancyError::VerticalExtent);
        }
        let depth_cells: usize = layer_count(layers);
        let w: usize = settings.width_cells;
        let h: usize = settings.height_cells;
        assert(w * h <= w * h * depth_cells) by (nonlinear_arith)
            requires
                w >= 1,
                h >= 1,
                depth_cells >= 1,
        ;
        let n: usize = w * h * depth_cells;
        let log_odds: Vec<Real32> = vec![zero32(); n];
        Ok(
            LocalOccupancyMap {
                settings,
                depth_cells,
                origin: WorldPoint { x: corner_x, y: corner_y, z: settings.min_obstacle_height },
                center: VoxelIndex { x: 0, y: 0, z: 0 },
                log_odds,
            },
        )
    }

    pub fn settings(&self) -> (r: &LocalOccupancySettings)
        ensures
            *r == self.config(),
    {
        &self.settings
    }

    /// Number of vertical layers.
    pub fn depth_cells(&self) -> (r: usize)
        ensures
            r == self.layers(),
    {
        self.depth_cells
    }

    /// Corner of the grid in the world.
    pub fn origin(&self) -> (r: WorldPoint)
        ensures
            r == self.corner(),
    {
        self.origin
    }

    /// Voxel coordinates, in the world, of the middle of the grid.
    pub fn center(&self) -> (r: VoxelIndex)
        ensures
            r == self.anchor(),
    {
        self.center
    }

    pub fn snapshot(&self) -> (r: OccupancyGridSnapshot)
        ensures
            r.width == self.columns(),
            r.height == self.rows(),
            r.depth == self.layers(),
            r.resolution == self.config().resolution,
            r.origin == self.corner(),
            r.log_odds@ == self.grid(),
    {
        let log_odds: Vec<Real32> = self.log_odds.clone();
        assert(log_odds@ =~= self.log_odds@);
        OccupancyGridSnapshot {
            width: self.settings.width_cells,
            height: self.settings.height_cells,
            depth: self.depth_cells,
            resolution: self.settings.resolution,
            origin: self.origin,
            log_odds,
        }
    }

    fn index(&self, x: usize, y: usize, z: usize) -> (r: usize)
        requires
            self.wf(),
            self.has(x as int, y as int, z as int),
        ensures
            r == self.position(x as int, y as int, z as int),
            r < self.grid().len(),
    {
        proof {
            self.lemma_has(x as int, y as int, z as int);
            assert(self.log_odds.len() <= usize::MAX);
        }
        (z * self.settings.height_cells + y) * self.settings.width_cells + x
    }

    /// The state of a voxel; nothing outside the grid.
    pub fn cell_state(&self, x: usize, y: usize, z: usize) -> (r: Option<OccupancyCell>)
        requires
            self.wf(),
        ensures
            r == (if self.has(x as int, y as int, z as int) {
                Some(self.config().state_of(self.voxel(x as int, y as int, z as int)))
            } else {
                None
            }),
    {
        if x >= self.settings.width_cells || y >= self.settings.height_cells || z >= self.depth_cells {
            return None;
        }
        let value: Real32 = self.log_odds[self.index(x, y, z)];
        Some(self.settings.classify(value))
    }

    /// Number of voxels in a state.
    pub open spec fn tally(self, state: OccupancyCell) -> nat {
        self.grid().filter(|v: Real32| self.config().state_of(v) == state).len()
    }

    /// Numbers of unknown, free and occupied voxels.
    pub fn counts(&self) -> (r: (usize, usize, usize))
        ensures
            r.0 == self.tally(OccupancyCell::Unknown),
            r.1 == self.tally(OccupancyCell::Free),
            r.2 == self.tally(OccupancyCell::Occupied),
            r.0 + r.1 + r.2 == self.grid().len(),
    {
        let mut unknown: usize = 0;
        let mut free: usize = 0;
        let mut occupied: usize = 0;
        let ghost in_unknown = |v: Real32| self.config().state_of(v) == OccupancyCell::Unknown;
        let ghost in_free = |v: Real32| self.config().state_of(v) == OccupancyCell::Free;
        let ghost in_occupied = |v: Real32| self.config().state_of(v) == OccupancyCell::Occupied;
        let n: usize = self.log_odds.len();
        let mut i: usize = 0;
        proof {
            reveal(Seq::filter);
        }
        while i < n
            invariant
                i <= n,
                n == self.log_odds@.len(),
                in_unknown == (|v: Real32| self.config().state_of(v) == OccupancyCell::Unknown),
                in_free == (|v: Real32| self.config().state_of(v) == OccupancyCell::Free),
                in_occupied == (|v: Real32| self.config().state_of(v) == OccupancyCell::Occupied),
                unknown == self.log_odds@.take(i as int).filter(in_unknown).len(),
                free == self.log_odds@.take(i as int).filter(in_free).len(),
                occupied == self.log_odds@.take(i as int).filter(in_occupied).len(),
                unknown + free + occupied == i,
            decreases n - i,
        {
            proof {
                crate::seqs::lemma_filter_take(self.log_odds@, i as int, in_unknown);
                crate::seqs::lemma_filter_take(self.log_odds@, i as int, in_free);
                crate::seqs::lemma_filter_take(self.log_odds@, i as int, in_occupied);
            }
            match self.settings.classify(self.log_odds[i]) {
                OccupancyCell::Occupied => {
                    occupied = occupied + 1;
                },
                OccupancyCell::Free => {
                    free = free + 1;
                },
                OccupancyCell::Unknown => {
                    unknown = unknown + 1;
                },
            }
            i = i + 1;
        }
        assert(self.log_odds@.take(n as int) =~= self.log_odds@);
        (unknown, free, occupied)
    }

    /// Whether the grid has a voxel with these coordinates.
    pub fn cell_in_bounds(&self, cell: VoxelIndex) -> (r: bool)
        requires
            self.wf(),
        ensures
            r == self.has(cell.x as int, cell.y as int, cell.z as int),
    {
        proof {
            self.lemma_dimensions();
        }
        cell.x >= 0 && cell.x < self.settings.width_cells as i64 && cell.y >= 0 && cell.y
            < self.settings.height_cells as i64 && cell.z >= 0 && cell.z < self.depth_cells as i64
    }

    /// The log-odds of a voxel; nothing outside the grid.
    pub fn log_odds_at(&self, cell: VoxelIndex) -> (r: Option<Real32>)
        requires
            self.wf(),
        ensures
            r == (if self.has(cell.x as int, cell.y as int, cell.z as int) {
                Some(self.voxel(cell.x as int, cell.y as int, cell.z as int))
            } else {
                None
            }),
    {
        if !self.cell_in_bounds(cell) {
            return None;
        }
        proof {
            self.lemma_dimensions();
            assert(self.depth_cells >= 1);
        }
        Some(self.log_odds[self.index(cell.x as usize, cell.y as usize, cell.z as usize)])
    }

    /// Whether a map differs from another by new log-odds in one voxel, limited to the
    /// configured interval. Outside the grid nothing changes.
    pub open spec fn is_written(before: Self, after: Self, cell: VoxelIndex, sum: Real32) -> bool {
        &&& after.config() == before.config()
        &&& after.layers() == before.layers()
        &&& after.corner() == before.corner()
        &&& after.anchor() == before.anchor()
        &&& after.grid() == (if before.has(cell.x as int, cell.y as int, cell.z as int) {
            before.grid().update(
                before.position(cell.x as int, cell.y as int, cell.z as int),
                sum.clamped(before.config().log_odds_min, before.config().log_odds_max),
            )
        } else {
            before.grid()
        })
    }

    /// Stores new log-odds in a voxel, limited to the configured interval. Outside the
    /// grid nothing happens.
    pub fn add_log_odds(&mut self, cell: VoxelIndex, sum: Real32)
        requires
            old(self).wf(),
            old(self).has(cell.x as int, cell.y as int, cell.z as int) ==> old(self).config().log_odds_min.le(
                old(self).config().log_odds_max,
            ),
        ensures
            final(self).wf(),
            Self::is_written(*old(self), *final(self), cell, sum),
    {
        if !self.cell_in_bounds(cell) {
            return;
        }
        let index: usize = self.index(cell.x as usize, cell.y as usize, cell.z as usize);
        let value: Real32 = sum.clamp(self.settings.log_odds_min, self.settings.log_odds_max);
        self.log_odds.set(index, value);
    }

    /// What a voxel holds after the grid has moved by `(dx, dy, dz)` voxels: the voxel
    /// that was there before, or zero where there was none.
    pub open spec fn moved_voxel(self, dx: int, dy: int, dz: int, x: int, y: int, z: int) -> Real32 {
        if self.has(x + dx, y + dy, z + dz) {
            self.voxel(x + dx, y + dy, z + dz)
        } else {
            zero32()
        }
    }

    /// Whether a map is another, moved so that its middle is at `target` and its corner at
    /// `origin`. A map that is there already stays as it is.
    pub open spec fn is_moved(before: Self, after: Self, target: VoxelIndex, origin: WorldPoint) -> bool {
        &&& after.config() == before.config()
        &&& after.layers() == before.layers()
        &&& after.anchor() == target
        &&& after.corner() == (if target == before.anchor() {
            before.corner()
        } else {
            origin
        })
        &&& target == before.anchor() ==> after.grid() == before.grid()
        &&& after.grid().len() == before.grid().len()
        &&& forall|x: int, y: int, z: int|
            #![trigger after.voxel(x, y, z)]
            after.has(x, y, z) ==> after.voxel(x, y, z) == before.moved_voxel(
                target.x - before.anchor().x,
                target.y - before.anchor().y,
                target.z - before.anchor().z,
                x,
                y,
                z,
            )
    }

    /// Moves the grid so that its middle is at `target`; what stays inside keeps its
    /// place in the world. `origin` is the new corner.
    pub fn recenter(&mut self, target: VoxelIndex, origin: WorldPoint)
        requires
            old(self).wf(),
            i64::MIN <= target.x - old(self).anchor().x,
            i64::MIN <= target.y - old(self).anchor().y,
            i64::MIN <= target.z - old(self).anchor().z,
            target.x - old(self).anchor().x + old(self).columns() - 1 <= i64::MAX,
            target.y - old(self).anchor().y + old(self).rows() - 1 <= i64::MAX,
            target.z - old(self).anchor().z + old(self).layers() - 1 <= i64::MAX,
        ensures
            final(self).wf(),
            Self::is_moved(*old(self), *final(self), target, origin),
    {
        proof {
            self.lemma_dimensions();
        }
        let dx: i64 = target.x - self.center.x;
        let dy: i64 = target.y - self.center.y;
        let dz: i64 = target.z - self.center.z;
        if dx == 0 && dy == 0 && dz == 0 {
            return;
        }
        let w: usize = self.settings.width_cells;
        let h: usize = self.settings.height_cells;
        let d: usize = self.depth_cells;
        let ghost me = *self;
        let mut shifted: Vec<Real32> = Vec::with_capacity(self.log_odds.len());
        let mut z: usize = 0;
        assert(0 * h == 0);
        assert(crate::layout::cell3(w as int, h as int, 0, 0, 0) == 0) by (nonlinear_arith);
        while z < d
            invariant
                z <= d,
                *self == me,
                me == *old(self),
                me.wf(),
                w == me.columns(),
                h == me.rows(),
                d == me.layers(),
                w >= 1,
                h >= 1,
                w <= i64::MAX,
                h <= i64::MAX,
                d <= i64::MAX,
                dx + w - 1 <= i64::MAX,
                dy + h - 1 <= i64::MAX,
                dz + d - 1 <= i64::MAX,
                shifted@.len() == me.position(0, 0, z as int),
                me.shifted_prefix(shifted@, dx as int, dy as int, dz as int),
            decreases d - z,
        {
            let mut y: usize = 0;
            while y < h
                invariant
                    z < d,
                    y <= h,
                    *self == me,
                    me == *old(self),
                    me.wf(),
                    w == me.columns(),
                    h == me.rows(),
                    d == me.layers(),
                    w >= 1,
                    h >= 1,
                    w <= i64::MAX,
                    h <= i64::MAX,
                    d <= i64::MAX,
                    dx + w - 1 <= i64::MAX,
                    dy + h - 1 <= i64::MAX,
                    dz + d - 1 <= i64::MAX,
                    shifted@.len() == me.position(0, y as int, z as int),
                    me.shifted_prefix(shifted@, dx as int, dy as int, dz as int),
                decreases h - y,
            {
                let mut x: usize = 0;
                while x < w
                    invariant
                        z < d,
                        y < h,
                        x <= w,
                        *self == me,
                        me == *old(self),
                        me.wf(),
                        w == me.columns(),
                        h == me.rows(),
                        d == me.layers(),
                        w <= i64::MAX,
                        h <= i64::MAX,
                        d <= i64::MAX,
                        dx + w - 1 <= i64::MAX,
                        dy + h - 1 <= i64::MAX,
                        dz + d - 1 <= i64::MAX,
                        shifted@.len() == me.position(x as int, y as int, z as int),
                        me.shifted_prefix(shifted@, dx as int, dy as int, dz as int),
                    decreases w - x,
                {
                    let source: VoxelIndex = VoxelIndex { x: x as i64 + dx, y: y as i64 + dy, z: z as i64 + dz };
                    let value: Real32 = match self.log_odds_at(source) {
                        Some(v) => v,
                        None => zero32(),
                    };
                    assert forall|i: int, j: int, k: int|
                        me.has(i, j, k) && #[trigger] me.position(i, j, k) == shifted@.len() implies i == x && j == y
                        && k == z by {
                        crate::layout::lemma_cell3_injective(
                            w as int,
                            h as int,
                            i,
                            j,
                            k,
                            x as int,
                            y as int,
                            z as int,
                        );
                    }
                    shifted.push(value);
                    x = x + 1;
                }
                assert(me.position(0, y + 1, z as int) == me.position(w as int, y as int, z as int))
                    by (nonlinear_arith)
                    requires
                        me.position(0, y + 1, z as int) == (z * h + (y + 1)) * w + 0,
                        me.position(w as int, y as int, z as int) == (z * h + y) * w + w,
                ;
                y = y + 1;
            }
            assert(me.position(0, 0, z + 1) == me.position(0, h as int, z as int)) by (nonlinear_arith)
                requires
                    me.position(0, 0, z + 1) == ((z + 1) * h + 0) * w + 0,
                    me.position(0, h as int, z as int) == (z * h + h) * w + 0,
            ;
            z = z + 1;
        }
        assert(me.position(0, 0, d as int) == me.grid().len()) by (nonlinear_arith)
            requires
                me.position(0, 0, d as int) == (d * h + 0) * w + 0,
                me.grid().len() == w * h * d,
        ;
        self.log_odds = shifted;
        self.center = target;
        self.origin = origin;
        assert forall|x: int, y: int, z: int| #![trigger self.voxel(x, y, z)] self.has(x, y, z) implies self.voxel(
            x,
            y,
            z,
        ) == me.moved_voxel(dx as int, dy as int, dz as int, x, y, z) by {
            me.lemma_has(x, y, z);
            assert(me.position(x, y, z) == self.position(x, y, z));
        }
    }

    /// Every voxel whose position lies in `s` holds there what it holds after a move.
    spec fn shifted_prefix(self, s: Seq<Real32>, dx: int, dy: int, dz: int) -> bool {
        forall|i: int, j: int, k: int|
            #![trigger self.position(i, j, k)]
            self.has(i, j, k) && self.position(i, j, k) < s.len() ==> s[self.position(i, j, k)]
                == self.moved_voxel(dx, dy, dz, i, j, k)
    }
}


/// A pixel whose depth becomes a ray.
#[derive(Clone, Copy, Debug, PartialEq, Eq, Structural)]
pub struct RayPixel {
    pub x: usize,
    pub y: usize,
}

impl LocalOccupancySettings {
    /// The pixel of the `k`-th sample, row by row.
    pub open spec fn sampled_pixel(self, width: int, k: int) -> (int, int) {
        let per_row = crate::layout::samples_along(width, self.sample_stride as int);
        ((k % per_row) * self.sample_stride, (k / per_row) * self.sample_stride)
    }

    /// Number of sampled pixels of a map.
    pub open spec fn sampled(self, width: int, height: int) -> int {
        crate::layout::samples_along(width, self.sample_stride as int) * crate::layout::samples_along(height, self.sample_stride as int)
    }

    /// The `k`-th sample of a depth map, with what was computed from it.
    pub open spec fn ray_sample(self, output: PatchDepthOutput, geometry: Seq<RayGeometry>, k: int) -> RaySample {
        let (x, y) = self.sampled_pixel(output.eta.width as int, k);
        RaySample {
            status: output.status.at(x, y),
            eta: output.eta.at(x, y),
            eta_var: output.eta_var.at(x, y),
            rel_std: geometry[k].rel_std,
            range: geometry[k].range,
            bearing_x: geometry[k].bearing_x,
            bearing_y: geometry[k].bearing_y,
            bearing_z: geometry[k].bearing_z,
        }
    }

    /// The samples below the `n`-th that become rays, in order.
    pub open spec fn admitted(self, output: PatchDepthOutput, geometry: Seq<RayGeometry>, n: int) -> Seq<(int, int)>
        decreases n,
    {
        if n <= 0 {
            Seq::empty()
        } else if self.ray_admitted(self.ray_sample(output, geometry, n - 1)) {
            self.admitted(output, geometry, n - 1).push(self.sampled_pixel(output.eta.width as int, n - 1))
        } else {
            self.admitted(output, geometry, n - 1)
        }
    }

    /// Picks the pixels of a depth map whose rays are used, row by row over every
    /// `sample_stride`-th pixel, and counts what was considered and used. `geometry` holds
    /// one entry per sampled pixel. An empty image or map gives nothing.
    pub fn select_rays(
        &self,
        output: &PatchDepthOutput,
        geometry: &[RayGeometry],
        image_width: usize,
        image_height: usize,
    ) -> (r: (Vec<RayPixel>, OccupancyUpdateStats))
        requires
            self.sample_stride > 0,
            output.wf(),
            geometry@.len() == self.sampled(output.eta.width as int, output.eta.height as int),
        ensures
            image_width == 0 || image_height == 0 || output.eta.width == 0 || output.eta.height == 0 ==> r.0@.len()
                == 0 && r.1.rays_considered == 0,
            image_width > 0 && image_height > 0 && output.eta.width > 0 && output.eta.height > 0 ==> {
                &&& r.1.rays_considered == self.sampled(output.eta.width as int, output.eta.height as int)
                &&& r.0@.map_values(|p: RayPixel| (p.x as int, p.y as int)) == self.admitted(
                    *output,
                    geometry@,
                    geometry@.len() as int,
                )
            },
            r.1.rays_integrated == r.0@.len(),
            r.1.occupied_updates == 0,
            r.1.free_updates == 0,
    {
        let mut rays: Vec<RayPixel> = Vec::new();
        let mut stats: OccupancyUpdateStats = OccupancyUpdateStats {
            rays_considered: 0,
            rays_integrated: 0,
            occupied_updates: 0,
            free_updates: 0,
        };
        let width: usize = output.eta.width;
        let height: usize = output.eta.height;
        if width == 0 || height == 0 || image_width == 0 || image_height == 0 {
            return (rays, stats);
        }
        let stride: usize = self.sample_stride;
        let nx: usize = sample_count(width, stride);
        let ny: usize = sample_count(height, stride);
        let ghost view = |p: RayPixel| (p.x as int, p.y as int);
        let total: usize = geometry.len();
        let mut j: usize = 0;
        assert(0 * nx == 0);
        assert(rays@.map_values(view) =~= self.admitted(*output, geometry@, 0));
        proof {
            crate::layout::lemma_samples_along(width as int, stride as int, 0);
        }
        while j < ny
            invariant
                j <= ny,
                nx >= 1,
                stride == self.sample_stride,
                stride > 0,
                output.wf(),
                width == output.eta.width,
                height == output.eta.height,
                nx == crate::layout::samples_along(width as int, stride as int),
                ny == crate::layout::samples_along(height as int, stride as int),
                total == nx * ny,
                geometry@.len() == total,
                view == (|p: RayPixel| (p.x as int, p.y as int)),
                stats.rays_considered == j * nx,
                stats.rays_integrated == rays@.len(),
                rays@.len() <= j * nx,
                stats.occupied_updates == 0,
                stats.free_updates == 0,
                rays@.map_values(view) == self.admitted(*output, geometry@, j * nx),
            decreases ny - j,
        {
            let mut i: usize = 0;
            while i < nx
                invariant
                    i <= nx,
                    j < ny,
                    nx >= 1,
                    stride == self.sample_stride,
                    stride > 0,
                    output.wf(),
                    width == output.eta.width,
                    height == output.eta.height,
                    nx == crate::layout::samples_along(width as int, stride as int),
                    ny == crate::layout::samples_along(height as int, stride as int),
                    total == nx * ny,
                    geometry@.len() == total,
                    view == (|p: RayPixel| (p.x as int, p.y as int)),
                    stats.rays_considered == j * nx + i,
                    stats.rays_integrated == rays@.len(),
                    rays@.len() <= j * nx + i,
                    stats.occupied_updates == 0,
                    stats.free_updates == 0,
                    rays@.map_values(view) == self.admitted(*output, geometry@, j * nx + i),
                decreases nx - i,
            {
                let ghost k = j * nx + i;
                proof {
                    crate::layout::lemma_samples_along(width as int, stride as int, i as int);
                    crate::layout::lemma_samples_along(height as int, stride as int, j as int);
                    crate::layout::lemma_cell2_bound(nx as int, ny as int, i as int, j as int);
                    assert(nx * ny == total);
                    assert(k == nx * j + i) by (nonlinear_arith)
                        requires
                            k == j * nx + i,
                    ;
                    vstd::arithmetic::div_mod::lemma_fundamental_div_mod_converse(k, nx as int, j as int, i as int);
                    assert(0 <= i * stride && 0 <= j * stride) by (nonlinear_arith);
                    assert(self.sampled_pixel(width as int, k) == (i * stride, j * stride));
                    crate::layout::lemma_cell2_bound(width as int, height as int, i * stride, j * stride);
                    assert(output.eta.data.len() <= usize::MAX);
                }
                let x: usize = i * stride;
                let y: usize = j * stride;
                let index: usize = y * width + x;
                let g: RayGeometry = geometry[j * nx + i];
                let sample: RaySample = RaySample {
                    status: output.status.data[index],
                    eta: output.eta.data[index],
                    eta_var: output.eta_var.data[index],
                    rel_std: g.rel_std,
                    range: g.range,
                    bearing_x: g.bearing_x,
                    bearing_y: g.bearing_y,
                    bearing_z: g.bearing_z,
                };
                assert(sample == self.ray_sample(*output, geometry@, k));
                stats.rays_considered = stats.rays_considered + 1;
                let ghost before = rays@;
                if self.admits(&sample) {
                    rays.push(RayPixel { x, y });
                    stats.rays_integrated = stats.rays_integrated + 1;
                    assert(rays@.map_values(view) =~= before.map_values(view).push((x as int, y as int)));
                }
                i = i + 1;
            }
            assert((j + 1) * nx == j * nx + nx) by (nonlinear_arith);
            j = j + 1;
        }
        assert(ny * nx == nx * ny) by (nonlinear_arith);
        (rays, stats)
    }
}

/// A coordinate axis of the grid.
#[derive(Clone, Copy, Debug, PartialEq, Eq, Structural)]
pub enum Axis {
    X,
    Y,
    Z,
}

/// Which way a ray runs along an axis.
#[derive(Clone, Copy, Debug, PartialEq, Eq, Structural)]
pub enum AxisDirection {
    Forward,
    Backward,
    Still,
}

impl AxisDirection {
    /// The way that a component of a direction points.
    pub open spec fn of_component(d: Real64) -> Self {
        if zero64().lt(d) {
            AxisDirection::Forward
        } else if d.lt(zero64()) {
            AxisDirection::Backward
        } else {
            AxisDirection::Still
        }
    }

    pub fn of(d: Real64) -> (r: Self)
        ensures
            r == Self::of_component(d),
    {
        if zero64().less(d) {
            AxisDirection::Forward
        } else if d.less(zero64()) {
            AxisDirection::Backward
        } else {
            AxisDirection::Still
        }
    }

    /// Voxels per crossing.
    pub open spec fn step(self) -> int {
        match self {
            AxisDirection::Forward => 1,
            AxisDirection::Backward => -1,
            AxisDirection::Still => 0,
        }
    }

    pub fn sign(self) -> (r: i64)
        ensures
            r == self.step(),
    {
        match self {
            AxisDirection::Forward => 1,
            AxisDirection::Backward => -1,
            AxisDirection::Still => 0,
        }
    }
}

/// What a voxel on the way of a ray means for the grid.
#[derive(Clone, Copy, Debug, PartialEq, Eq, Structural)]
pub enum RayEvent {
    /// The ray ends in this voxel, inside the grid.
    Hit,
    /// The ray passes through this voxel, inside the grid.
    Miss,
    /// The ray has not reached the grid yet.
    Outside,
    /// The ray is over: it ended outside the grid, or has left it.
    Over,
}

/// What a voxel on the way of an uncertain ray means for the grid.
#[derive(Clone, Copy, Debug, PartialEq, Eq, Structural)]
pub enum BandEvent {
    /// Before the occupied band, inside the grid.
    Free,
    /// Within the occupied band, inside the grid.
    Occupied,
    /// Beyond the occupied band, inside the grid: hidden from view.
    Occluded,
    /// The ray has not reached the grid yet.
    Outside,
    /// The ray has left the grid.
    Over,
}

/// Whether a ray of this length leads anywhere.
pub fn ray_has_length(range: Real64) -> (r: bool)
    ensures
        r == !range.le(zero64()),
{
    !range.at_most(zero64())
}

/// A straight walk through the voxels between two voxels. `t_next` are the ray
/// parameters at which the walk next crosses a voxel boundary along each axis; the ray
/// ends at parameter one.
#[derive(Clone, Copy, Debug, PartialEq)]
pub struct RayWalk {
    pub cell: VoxelIndex,
    pub end: VoxelIndex,
    pub step: VoxelIndex,
    pub t_next: WorldPoint,
    pub entered: bool,
}

impl RayWalk {
    /// A walk that has not visited its first voxel.
    pub fn new(
        start: VoxelIndex,
        end: VoxelIndex,
        dir_x: AxisDirection,
        dir_y: AxisDirection,
        dir_z: AxisDirection,
        t_next: WorldPoint,
    ) -> (r: Self)
        ensures
            r.cell == start,
            r.end == end,
            r.step.x == dir_x.step(),
            r.step.y == dir_y.step(),
            r.step.z == dir_z.step(),
            r.t_next == t_next,
            !r.entered,
    {
        RayWalk {
            cell: start,
            end,
            step: VoxelIndex { x: dir_x.sign(), y: dir_y.sign(), z: dir_z.sign() },
            t_next,
            entered: false,
        }
    }

    /// What the current voxel means, from the grid and from whether the walk has been
    /// inside it before.
    pub open spec fn event(self, map: LocalOccupancyMap) -> RayEvent {
        let inside = map.has(self.cell.x as int, self.cell.y as int, self.cell.z as int);
        if self.cell == self.end {
            if inside {
                RayEvent::Hit
            } else {
                RayEvent::Over
            }
        } else if inside {
            RayEvent::Miss
        } else if self.entered {
            RayEvent::Over
        } else {
            RayEvent::Outside
        }
    }

    /// The walk once its current voxel was visited.
    pub open spec fn visited(self, map: LocalOccupancyMap) -> Self {
        RayWalk { entered: self.entered || self.event(map) == RayEvent::Miss, ..self }
    }

    /// Visits the current voxel. After `Hit` and `Over` the walk is finished.
    pub fn visit(&mut self, map: &LocalOccupancyMap) -> (r: RayEvent)
        requires
            map.wf(),
        ensures
            r == old(self).event(*map),
            *final(self) == old(self).visited(*map),
    {
        let inside: bool = map.cell_in_bounds(self.cell);
        if self.cell == self.end {
            if inside {
                return RayEvent::Hit;
            }
            return RayEvent::Over;
        }
        if inside {
            self.entered = true;
            RayEvent::Miss
        } else if self.entered {
            RayEvent::Over
        } else {
            RayEvent::Outside
        }
    }

    /// What the current voxel means for an uncertain ray whose measured range lies
    /// `offset` before the voxel, with an occupied band of half-width `half_band`.
    pub open spec fn band_event(self, map: LocalOccupancyMap, offset: Real64, half_band: Real64) -> BandEvent {
        let inside = map.has(self.cell.x as int, self.cell.y as int, self.cell.z as int);
        if inside {
            if !offset.le(half_band) {
                BandEvent::Occluded
            } else if offset.lt(half_band.negated()) {
                BandEvent::Free
            } else {
                BandEvent::Occupied
            }
        } else if self.entered {
            BandEvent::Over
        } else {
            BandEvent::Outside
        }
    }

    /// Visits the current voxel of an uncertain ray. After `Over` the walk is finished,
    /// and after the last voxel, see `at_end`.
    pub fn visit_band(&mut self, map: &LocalOccupancyMap, offset: Real64, half_band: Real64) -> (r: BandEvent)
        requires
            map.wf(),
        ensures
            r == old(self).band_event(*map, offset, half_band),
            *final(self) == (RayWalk {
                entered: old(self).entered || map.has(
                    old(self).cell.x as int,
                    old(self).cell.y as int,
                    old(self).cell.z as int,
                ),
                ..*old(self)
            }),
    {
        if map.cell_in_bounds(self.cell) {
            self.entered = true;
            if !offset.at_most(half_band) {
                BandEvent::Occluded
            } else if offset.less(half_band.neg()) {
                BandEvent::Free
            } else {
                BandEvent::Occupied
            }
        } else if self.entered {
            BandEvent::Over
        } else {
            BandEvent::Outside
        }
    }

    /// Whether the walk stands in its last voxel.
    pub fn at_end(&self) -> (r: bool)
        ensures
            r == (self.cell == self.end),
    {
        self.cell == self.end
    }

    /// Whether every next crossing that is a number lies past the end of the ray, and at
    /// least one is a number.
    pub open spec fn past_end(self) -> bool {
        let t = self.t_next;
        &&& !(t.x.nan() && t.y.nan() && t.z.nan())
        &&& t.x.nan() || one64().lt(t.x)
        &&& t.y.nan() || one64().lt(t.y)
        &&& t.z.nan() || one64().lt(t.z)
    }

    /// The axis of the next crossing: the first of X, Y and Z with the smallest parameter.
    pub open spec fn nearest_axis(self) -> Axis {
        if self.t_next.x.le(self.t_next.y) && self.t_next.x.le(self.t_next.z) {
            Axis::X
        } else if self.t_next.y.le(self.t_next.z) {
            Axis::Y
        } else {
            Axis::Z
        }
    }

    /// The axis along which the walk leaves the current voxel; nothing past the end of
    /// the ray.
    pub fn next_axis(&self) -> (r: Option<Axis>)
        ensures
            r == (if self.past_end() {
                None
            } else {
                Some(self.nearest_axis())
            }),
    {
        let one: Real64 = one64();
        let nan_x: bool = self.t_next.x.is_nan();
        let nan_y: bool = self.t_next.y.is_nan();
        let nan_z: bool = self.t_next.z.is_nan();
        if !(nan_x && nan_y && nan_z) && (nan_x || one.less(self.t_next.x)) && (nan_y || one.less(
            self.t_next.y,
        )) && (nan_z || one.less(self.t_next.z)) {
            return None;
        }
        if self.t_next.x.at_most(self.t_next.y) && self.t_next.x.at_most(self.t_next.z) {
            Some(Axis::X)
        } else if self.t_next.y.at_most(self.t_next.z) {
            Some(Axis::Y)
        } else {
            Some(Axis::Z)
        }
    }

    /// The walk after one crossing along `axis`, with the parameter of the crossing after.
    pub open spec fn crossed(self, axis: Axis, t: Real64) -> Self {
        match axis {
            Axis::X => RayWalk {
                cell: VoxelIndex { x: (self.cell.x + self.step.x) as i64, ..self.cell },
                t_next: WorldPoint { x: t, ..self.t_next },
                ..self
            },
            Axis::Y => RayWalk {
                cell: VoxelIndex { y: (self.cell.y + self.step.y) as i64, ..self.cell },
                t_next: WorldPoint { y: t, ..self.t_next },
                ..self
            },
            Axis::Z => RayWalk {
                cell: VoxelIndex { z: (self.cell.z + self.step.z) as i64, ..self.cell },
                t_next: WorldPoint { z: t, ..self.t_next },
                ..self
            },
        }
    }

    /// Whether a crossing along `axis` keeps the coordinates in range.
    pub open spec fn can_cross(self, axis: Axis) -> bool {
        match axis {
            Axis::X => i64::MIN <= self.cell.x + self.step.x <= i64::MAX,
            Axis::Y => i64::MIN <= self.cell.y + self.step.y <= i64::MAX,
            Axis::Z => i64::MIN <= self.cell.z + self.step.z <= i64::MAX,
        }
    }

    /// Moves to the next voxel along `axis`; `t` is the parameter of the crossing after.
    pub fn cross(&mut self, axis: Axis, t: Real64)
        requires
            old(self).can_cross(axis),
        ensures
            *final(self) == old(self).crossed(axis, t),
    {
        match axis {
            Axis::X => {
                self.cell.x = self.cell.x + self.step.x;
                self.t_next.x = t;
            },
            Axis::Y => {
                self.cell.y = self.cell.y + self.step.y;
                self.t_next.y = t;
            },
            Axis::Z => {
                self.cell.z = self.cell.z + self.step.z;
                self.t_next.z = t;
            },
        }
    }
}

impl VoxelIndex {
    /// Whether a walk with these steps can get from this voxel to `later`: along each axis it
    /// stays or moves the way of its step.
    pub open spec fn leads_to(self, step: VoxelIndex, later: VoxelIndex) -> bool {
        &&& goes_along(self.x as int, step.x as int, later.x as int)
        &&& goes_along(self.y as int, step.y as int, later.y as int)
        &&& goes_along(self.z as int, step.z as int, later.z as int)
    }
}

/// Whether steps of one sign lead from a coordinate to another.
pub open spec fn goes_along(from: int, step: int, to: int) -> bool {
    &&& step > 0 ==> from <= to
    &&& step < 0 ==> to <= from
    &&& step == 0 ==> from == to
}

/// A walk goes on the way of its steps: a crossing leads onwards, and what leads onwards from
/// there leads onwards from here.
pub proof fn law_walk_goes_onwards(walk: RayWalk, axis: Axis, t: Real64, later: VoxelIndex)
    requires
        walk.can_cross(axis),
        walk.crossed(axis, t).cell.leads_to(walk.step, later),
    ensures
        walk.cell.leads_to(walk.step, walk.crossed(axis, t).cell),
        walk.cell.leads_to(walk.step, later),
        walk.crossed(axis, t).step == walk.step,
{
}

/// A straight ray that has left the grid does not enter it again.
pub proof fn law_left_grid_is_not_entered_again(
    map: LocalOccupancyMap,
    step: VoxelIndex,
    inside: VoxelIndex,
    outside: VoxelIndex,
    later: VoxelIndex,
)
    requires
        map.has(inside.x as int, inside.y as int, inside.z as int),
        !map.has(outside.x as int, outside.y as int, outside.z as int),
        inside.leads_to(step, outside),
        outside.leads_to(step, later),
    ensures
        !map.has(later.x as int, later.y as int, later.z as int),
{
}

/// A ray whose endpoint lies off the grid never marks a hit: it only carves free space.
pub proof fn law_off_grid_endpoint_marks_no_hit(walk: RayWalk, map: LocalOccupancyMap)
    requires
        !map.has(walk.end.x as int, walk.end.y as int, walk.end.z as int),
    ensures
        walk.event(map) != RayEvent::Hit,
        forall|axis: Axis, t: Real64| (#[trigger] walk.crossed(axis, t)).end == walk.end,
{
}

impl RayWalk {
    /// Whether the walk goes on behind its current voxel.
    pub open spec fn goes_on(self, map: LocalOccupancyMap) -> bool {
        &&& self.event(map) == RayEvent::Miss || self.event(map) == RayEvent::Outside
        &&& !self.past_end()
    }

    /// Whether every parameter is a number, and past the end along an axis on which the walk
    /// stands still; a step is one voxel.
    pub open spec fn is_timed(self) -> bool {
        &&& !self.t_next.x.nan() && !self.t_next.y.nan() && !self.t_next.z.nan()
        &&& self.step.x == 0 ==> one64().lt(self.t_next.x)
        &&& self.step.y == 0 ==> one64().lt(self.t_next.y)
        &&& self.step.z == 0 ==> one64().lt(self.t_next.z)
        &&& -1 <= self.step.x <= 1
        &&& -1 <= self.step.y <= 1
        &&& -1 <= self.step.z <= 1
    }

    /// How far the walk has come: the voxels along each axis, counted the way of its step.
    pub open spec fn progress(self) -> int {
        along(self.cell.x as int, self.step.x as int) + along(self.cell.y as int, self.step.y as int) + along(
            self.cell.z as int,
            self.step.z as int,
        )
    }

    proof fn lemma_crossing_is_progress(self, map: LocalOccupancyMap, t: Real64)
        requires
            self.is_timed(),
            !self.past_end(),
            self.can_cross(self.nearest_axis()),
        ensures
            self.visited(map).crossed(self.nearest_axis(), t).progress() == self.progress() + 1,
    {
        match self.nearest_axis() {
            Axis::X => assert(self.step.x != 0),
            Axis::Y => assert(self.step.y != 0),
            Axis::Z => assert(self.step.z != 0),
        }
    }
}

/// A coordinate counted the way of a step.
pub open spec fn along(c: int, step: int) -> int {
    if step > 0 {
        c
    } else if step < 0 {
        -c
    } else {
        0
    }
}

/// Whether a ray goes through these states: it starts outside of everything, and behind each
/// voxel but the last it goes on along the axis of the nearest crossing.
pub open spec fn is_ray(walks: Seq<RayWalk>, map: LocalOccupancyMap) -> bool {
    &&& walks.len() >= 1
    &&& !walks[0].entered
    &&& forall|i: int| 0 <= i < walks.len() ==> (#[trigger] walks[i]).is_timed()
    &&& forall|i: int|
        0 <= i < walks.len() - 1 ==> {
            &&& (#[trigger] walks[i]).goes_on(map)
            &&& walks[i].can_cross(walks[i].nearest_axis())
            &&& follows(walks[i], walks[i + 1], map)
        }
}

/// Whether a walk is another one after its visit and its next crossing.
pub open spec fn follows(before: RayWalk, after: RayWalk, map: LocalOccupancyMap) -> bool {
    exists|t: Real64| after == #[trigger] before.visited(map).crossed(before.nearest_axis(), t)
}

proof fn lemma_ray_progress(walks: Seq<RayWalk>, map: LocalOccupancyMap, i: int, j: int)
    requires
        is_ray(walks, map),
        0 <= i <= j < walks.len(),
    ensures
        walks[j].progress() == walks[i].progress() + (j - i),
        walks[j].end == walks[i].end,
        walks[j].step == walks[i].step,
    decreases j - i,
{
    if i < j {
        lemma_ray_progress(walks, map, i, j - 1);
        let before = walks[j - 1];
        assert(before.goes_on(map) && follows(before, walks[(j - 1) + 1], map));
        let t = choose|t: Real64| walks[j] == #[trigger] before.visited(map).crossed(before.nearest_axis(), t);
        before.lemma_crossing_is_progress(map, t);
    }
}

/// A whole ray: it visits no voxel twice; each voxel before the last lies before the end of the
/// ray, and is a miss if it is inside the grid and nothing otherwise; the last is a hit if it
/// is the end of the ray and inside the grid, and only then.
pub proof fn law_whole_ray(walks: Seq<RayWalk>, map: LocalOccupancyMap, i: int, j: int)
    requires
        is_ray(walks, map),
        0 <= i < walks.len(),
        0 <= j < walks.len(),
    ensures
        i != j ==> walks[i].cell != walks[j].cell,
        i < walks.len() - 1 ==> walks[i].cell != walks[0].end && walks[i].event(map) == (if map.has(
            walks[i].cell.x as int,
            walks[i].cell.y as int,
            walks[i].cell.z as int,
        ) {
            RayEvent::Miss
        } else {
            RayEvent::Outside
        }),
        walks.last().end == walks[0].end,
        walks.last().event(map) == RayEvent::Hit <==> walks.last().cell == walks[0].end && map.has(
            walks[0].end.x as int,
            walks[0].end.y as int,
            walks[0].end.z as int,
        ),
{
    if i < j {
        lemma_ray_progress(walks, map, i, j);
    } else {
        lemma_ray_progress(walks, map, j, i);
    }
    lemma_ray_progress(walks, map, 0, i);
    lemma_ray_progress(walks, map, 0, walks.len() - 1);
    assert(i < walks.len() - 1 ==> walks[i].goes_on(map));
    assert(walks.last() == walks[walks.len() - 1]);
}

/// Every voxel is unknown, free or occupied, and the three counts are those of `cell_state`.
pub proof fn law_states_partition_the_grid(map: LocalOccupancyMap, value: Real32)
    ensures
        map.config().state_of(value) == OccupancyCell::Unknown || map.config().state_of(value)
            == OccupancyCell::Free || map.config().state_of(value) == OccupancyCell::Occupied,
        map.tally(OccupancyCell::Unknown) + map.tally(OccupancyCell::Free) + map.tally(OccupancyCell::Occupied)
            == map.grid().len(),
{
    lemma_partition(map.config(), map.grid());
}

proof fn lemma_partition(config: LocalOccupancySettings, s: Seq<Real32>)
    ensures
        s.filter(|v: Real32| config.state_of(v) == OccupancyCell::Unknown).len() + s.filter(
            |v: Real32| config.state_of(v) == OccupancyCell::Free,
        ).len() + s.filter(|v: Real32| config.state_of(v) == OccupancyCell::Occupied).len() == s.len(),
    decreases s.len(),
{
    reveal(Seq::filter);
    if s.len() > 0 {
        lemma_partition(config, s.drop_last());
    }
}

/// Moving the grid and moving it back keeps every voxel that stayed inside.
pub proof fn law_recenter_there_and_back(
    start: LocalOccupancyMap,
    moved: LocalOccupancyMap,
    back: LocalOccupancyMap,
    dx: int,
    dy: int,
    dz: int,
    x: int,
    y: int,
    z: int,
)
    requires
        moved.config() == start.config(),
        moved.layers() == start.layers(),
        back.config() == start.config(),
        back.layers() == start.layers(),
        forall|i: int, j: int, k: int|
            #![trigger moved.voxel(i, j, k)]
            moved.has(i, j, k) ==> moved.voxel(i, j, k) == start.moved_voxel(dx, dy, dz, i, j, k),
        forall|i: int, j: int, k: int|
            #![trigger back.voxel(i, j, k)]
            back.has(i, j, k) ==> back.voxel(i, j, k) == moved.moved_voxel(-dx, -dy, -dz, i, j, k),
        start.has(x, y, z),
        start.has(x - dx, y - dy, z - dz),
    ensures
        back.voxel(x, y, z) == start.voxel(x, y, z),
{
    assert(back.has(x, y, z));
    assert(moved.has(x + -dx, y + -dy, z + -dz));
    assert(x + -dx + dx == x && y + -dy + dy == y && z + -dz + dz == z);
    let b = back.voxel(x, y, z);
    let m = moved.voxel(x + -dx, y + -dy, z + -dz);
}

/// Every voxel holds NaN or log-odds within the configured interval.
pub open spec fn log_odds_bounded(map: LocalOccupancyMap) -> bool {
    forall|i: int|
        0 <= i < map.grid().len() ==> {
            let v = #[trigger] map.grid()[i];
            v.nan() || (map.config().log_odds_min.le(v) && v.le(map.config().log_odds_max))
        }
}

/// Whether no voxel holds NaN.
pub open spec fn log_odds_are_numbers(map: LocalOccupancyMap) -> bool {
    forall|i: int| 0 <= i < map.grid().len() ==> !(#[trigger] map.grid()[i]).nan()
}

/// What an update does to a map, step by step.
pub enum MapChange {
    /// New log-odds in a voxel.
    Write { cell: VoxelIndex, sum: Real32 },
    /// A move of the grid.
    Move { target: VoxelIndex, origin: WorldPoint },
}

impl MapChange {
    /// Whether the change makes one map of another.
    pub open spec fn leads(self, before: LocalOccupancyMap, after: LocalOccupancyMap) -> bool {
        match self {
            MapChange::Write { cell, sum } => LocalOccupancyMap::is_written(before, after, cell, sum),
            MapChange::Move { target, origin } => LocalOccupancyMap::is_moved(before, after, target, origin),
        }
    }

    /// Whether the change writes NaN.
    pub open spec fn writes_nan(self) -> bool {
        self matches MapChange::Write { cell, sum } && sum.nan()
    }
}

/// Whether changes, one after the other, lead through these maps.
pub open spec fn is_update(maps: Seq<LocalOccupancyMap>, changes: Seq<MapChange>) -> bool {
    &&& maps.len() == changes.len() + 1
    &&& forall|i: int| 0 <= i < changes.len() ==> (#[trigger] changes[i]).leads(maps[i], maps[i + 1])
}

/// A whole update, any sequence of written evidence and moves, keeps the settings, the size and
/// the bounds: every voxel still holds log-odds within the configured interval. A voxel can
/// hold NaN only if it did before or NaN was written.
pub proof fn law_log_odds_stay_bounded(maps: Seq<LocalOccupancyMap>, changes: Seq<MapChange>, n: int)
    requires
        is_update(maps, changes),
        0 <= n < maps.len(),
        maps[0].wf(),
        log_odds_bounded(maps[0]),
        maps[0].config().log_odds_min.le(zero32()),
        zero32().le(maps[0].config().log_odds_max),
    ensures
        maps[n].wf(),
        maps[n].config() == maps[0].config(),
        maps[n].layers() == maps[0].layers(),
        maps[n].grid().len() == maps[0].grid().len(),
        log_odds_bounded(maps[n]),
        log_odds_are_numbers(maps[0]) && (forall|i: int|
            0 <= i < changes.len() ==> !(#[trigger] changes[i]).writes_nan()) ==> log_odds_are_numbers(maps[n]),
    decreases n,
{
    if n > 0 {
        law_log_odds_stay_bounded(maps, changes, n - 1);
        let (before, after) = (maps[n - 1], maps[n]);
        assert(changes[n - 1].leads(maps[n - 1], maps[(n - 1) + 1]));
        match changes[n - 1] {
            MapChange::Write { cell, sum } => {
                if before.has(cell.x as int, cell.y as int, cell.z as int) {
                    before.lemma_has(cell.x as int, cell.y as int, cell.z as int);
                }
            },
            MapChange::Move { target, origin } => {
                lemma_move_keeps_bounds(before, after, target, origin);
            },
        }
    }
}

proof fn lemma_move_keeps_bounds(
    before: LocalOccupancyMap,
    after: LocalOccupancyMap,
    target: VoxelIndex,
    origin: WorldPoint,
)
    requires
        before.wf(),
        log_odds_bounded(before),
        before.config().log_odds_min.le(zero32()),
        zero32().le(before.config().log_odds_max),
        LocalOccupancyMap::is_moved(before, after, target, origin),
    ensures
        log_odds_bounded(after),
        log_odds_are_numbers(before) ==> log_odds_are_numbers(after),
{
    let (dx, dy, dz) = (
        target.x - before.anchor().x,
        target.y - before.anchor().y,
        target.z - before.anchor().z,
    );
    assert forall|i: int| 0 <= i < after.grid().len() implies {
        let v = #[trigger] after.grid()[i];
        &&& v.nan() || (after.config().log_odds_min.le(v) && v.le(after.config().log_odds_max))
        &&& log_odds_are_numbers(before) ==> !v.nan()
    } by {
        let (x, y, z) = crate::layout::lemma_cell3_of_position(after.columns(), after.rows(), after.layers(), i);
        assert(after.position(x, y, z) == i);
        assert(after.voxel(x, y, z) == after.grid()[i]);
        if before.has(x + dx, y + dy, z + dz) {
            before.lemma_has(x + dx, y + dy, z + dz);
        }
    }
}

impl LocalOccupancyMap {
    /// Whether the grid covers a voxel of the world, counted from the middle of the grid when
    /// that stands at zero.
    pub open spec fn covers(self, x: int, y: int, z: int) -> bool {
        self.has(x - self.anchor().x, y - self.anchor().y, z - self.anchor().z)
    }

    /// The log-odds of a voxel of the world.
    pub open spec fn evidence(self, x: int, y: int, z: int) -> Real32 {
        self.voxel(x - self.anchor().x, y - self.anchor().y, z - self.anchor().z)
    }
}

/// A move keeps evidence at its place in the world: a voxel of the world that is covered before
/// and after keeps its log-odds, one that is newly covered is unknown, and the size and the
/// settings stay. Moving to the same place again changes nothing.
pub proof fn law_evidence_keeps_its_place(
    before: LocalOccupancyMap,
    after: LocalOccupancyMap,
    again: LocalOccupancyMap,
    target: VoxelIndex,
    origin: WorldPoint,
    other: WorldPoint,
    x: int,
    y: int,
    z: int,
)
    requires
        LocalOccupancyMap::is_moved(before, after, target, origin),
        LocalOccupancyMap::is_moved(after, again, target, other),
        after.covers(x, y, z),
    ensures
        after.evidence(x, y, z) == (if before.covers(x, y, z) {
            before.evidence(x, y, z)
        } else {
            zero32()
        }),
        after.config() == before.config(),
        after.grid().len() == before.grid().len(),
        again.grid() == after.grid(),
        again.corner() == after.corner(),
        again.anchor() == after.anchor(),
{
    let v = after.voxel(x - target.x, y - target.y, z - target.z);
}

impl RayWalk {
    /// The parameter of the next crossing along an axis.
    pub open spec fn parameter(self, axis: Axis) -> Real64 {
        match axis {
            Axis::X => self.t_next.x,
            Axis::Y => self.t_next.y,
            Axis::Z => self.t_next.z,
        }
    }
}

/// The nearest boundary is crossed first: the axis along which a walk goes on has a parameter
/// that is not above that of any axis, and it is the first such axis of X, Y and Z. The walk
/// ends where every parameter is above one, and only there.
pub proof fn law_nearest_crossing_comes_first(walk: &RayWalk, r: Option<Axis>, other: Axis)
    requires
        call_ensures(RayWalk::next_axis, (walk,), r),
        forall|a: Axis| !(#[trigger] walk.parameter(a)).nan(),
    ensures
        r matches Some(axis) ==> {
            &&& walk.parameter(axis).le(walk.parameter(other))
            &&& axis == Axis::Y ==> walk.t_next.y.lt(walk.t_next.x)
            &&& axis == Axis::Z ==> walk.t_next.z.lt(walk.t_next.x) && walk.t_next.z.lt(walk.t_next.y)
            &&& walk.parameter(axis).le(Real64 { bits: 0x3FF0_0000_0000_0000 })
        },
        r is None ==> (Real64 { bits: 0x3FF0_0000_0000_0000 }).lt(walk.parameter(other)),
{
    assert(!walk.parameter(Axis::X).nan());
    assert(!walk.parameter(Axis::Y).nan());
    assert(!walk.parameter(Axis::Z).nan());
}

/// Whether every crossing of a ray is followed, along its axis, by one that is not before it.
pub open spec fn crossings_follow(walks: Seq<RayWalk>) -> bool {
    forall|i: int|
        0 <= i < walks.len() - 1 ==> (#[trigger] walks[i]).parameter(walks[i].nearest_axis()).le(
            walks[i + 1].parameter(walks[i].nearest_axis()),
        )
}

/// Along a whole ray the parameters of the crossings never decrease, and no crossing that was
/// made lies behind one that is still ahead, along any axis: in every voxel that is visited the
/// ray has entered along each axis before it leaves along any, so the voxel meets the ray.
pub proof fn law_visited_voxels_meet_the_ray(walks: Seq<RayWalk>, map: LocalOccupancyMap, i: int, j: int, axis: Axis)
    requires
        is_ray(walks, map),
        crossings_follow(walks),
        0 <= i < j < walks.len(),
    ensures
        walks[i].parameter(walks[i].nearest_axis()).le(walks[j].parameter(axis)),
        walks[i].parameter(walks[i].nearest_axis()).le(walks[j].parameter(walks[j].nearest_axis())),
    decreases j - i,
{
    let before = walks[j - 1];
    let after = walks[j];
    assert(before.goes_on(map) && follows(before, walks[(j - 1) + 1], map));
    let t = choose|t: Real64| after == #[trigger] before.visited(map).crossed(before.nearest_axis(), t);
    assert(before.is_timed() && after.is_timed());
    let last = before.parameter(before.nearest_axis());
    assert(last.le(walks[(j - 1) + 1].parameter(before.nearest_axis())));
    assert(last.le(after.t_next.x) && last.le(after.t_next.y) && last.le(after.t_next.z));
    if i < j - 1 {
        law_visited_voxels_meet_the_ray(walks, map, i, j - 1, axis);
    }
}

/// A crossing moves the walk by one step along one axis, to that axis's next parameter, and
/// changes nothing else.
pub proof fn law_crossing_moves_one_axis(walk: RayWalk, axis: Axis, t: Real64)
    requires
        walk.can_cross(axis),
    ensures
        walk.crossed(axis, t).parameter(axis) == t,
        forall|a: Axis| a != axis ==> #[trigger] walk.crossed(axis, t).parameter(a) == walk.parameter(a),
        walk.crossed(axis, t).cell.x - walk.cell.x == (if axis == Axis::X { walk.step.x as int } else { 0 }),
        walk.crossed(axis, t).cell.y - walk.cell.y == (if axis == Axis::Y { walk.step.y as int } else { 0 }),
        walk.crossed(axis, t).cell.z - walk.cell.z == (if axis == Axis::Z { walk.step.z as int } else { 0 }),
        walk.crossed(axis, t).end == walk.end,
        walk.crossed(axis, t).step == walk.step,
        walk.crossed(axis, t).entered == walk.entered,
{
}

/// What a visit tells: a hit in the last voxel of the ray where the grid has it, a miss in any
/// other voxel that the grid has. Outside, the ray is over in its last voxel or once it was
/// inside, and has not begun before. A miss is remembered, and nothing else changes.
pub proof fn law_visit_tells_the_voxel(walk: RayWalk, map: LocalOccupancyMap)
    ensures
        walk.event(map) == RayEvent::Hit <==> walk.cell == walk.end && map.has(
            walk.cell.x as int,
            walk.cell.y as int,
            walk.cell.z as int,
        ),
        walk.event(map) == RayEvent::Miss <==> walk.cell != walk.end && map.has(
            walk.cell.x as int,
            walk.cell.y as int,
            walk.cell.z as int,
        ),
        walk.event(map) == RayEvent::Outside <==> walk.cell != walk.end && !walk.entered && !map.has(
            walk.cell.x as int,
            walk.cell.y as int,
            walk.cell.z as int,
        ),
        walk.event(map) == RayEvent::Miss ==> walk.visited(map).entered,
        walk.event(map) != RayEvent::Miss ==> walk.visited(map) == walk,
        walk.visited(map).cell == walk.cell,
        walk.visited(map).end == walk.end,
        walk.visited(map).step == walk.step,
        walk.visited(map).t_next == walk.t_next,
{
}

/// The band of an uncertain ray: a voxel of the grid is free where it lies before the measured
/// range by more than the half-width, occupied within the half-width on both sides, occluded
/// beyond it. Further out along the ray a voxel is never free again, and within a wider band it
/// stays occupied.
pub proof fn law_band_lies_around_the_range(
    walk: RayWalk,
    map: LocalOccupancyMap,
    offset: Real64,
    further: Real64,
    half_band: Real64,
    wider: Real64,
)
    requires
        map.has(walk.cell.x as int, walk.cell.y as int, walk.cell.z as int),
        offset.le(further),
        half_band.le(wider),
    ensures
        walk.band_event(map, offset, half_band) == BandEvent::Free <==> offset.value() < -half_band.value()
            && offset.value() <= half_band.value(),
        walk.band_event(map, offset, half_band) == BandEvent::Occupied <==> -half_band.value() <= offset.value()
            <= half_band.value(),
        walk.band_event(map, offset, half_band) == BandEvent::Occluded <==> half_band.value() < offset.value(),
        walk.band_event(map, offset, half_band) == BandEvent::Occluded ==> walk.band_event(map, further, half_band)
            == BandEvent::Occluded,
        walk.band_event(map, offset, half_band) == BandEvent::Occupied ==> walk.band_event(map, offset, wider)
            == BandEvent::Occupied,
        walk.band_event(map, further, half_band) == BandEvent::Free ==> walk.band_event(map, offset, half_band)
            == BandEvent::Free,
{
    half_band.lemma_negation();
    wider.lemma_negation();
}

/// Outside the grid an uncertain ray is over once it was inside, and has not begun before.
pub proof fn law_band_is_inside_the_grid(walk: RayWalk, map: LocalOccupancyMap, offset: Real64, half_band: Real64)
    requires
        !map.has(walk.cell.x as int, walk.cell.y as int, walk.cell.z as int),
    ensures
        walk.entered ==> walk.band_event(map, offset, half_band) == BandEvent::Over,
        !walk.entered ==> walk.band_event(map, offset, half_band) == BandEvent::Outside,
{
}

/// A ray runs forward along an axis where its direction has a positive component, backward
/// where it has a negative one, by one voxel per crossing; it stands still otherwise.
pub proof fn law_steps_follow_the_direction(d: Real64, r: AxisDirection, opposite: AxisDirection)
    requires
        call_ensures(AxisDirection::of, (d,), r),
        call_ensures(AxisDirection::of, (d.negated(),), opposite),
    ensures
        r.step() == 1 <==> !d.nan() && d.value() > 0,
        r.step() == -1 <==> !d.nan() && d.value() < 0,
        r.step() == 0 <==> d.nan() || d.value() == 0,
        opposite.step() == -r.step(),
{
    assert(zero64().value() == 0);
    d.lemma_negation();
}

/// The two thresholds decide what a voxel is: occupied from the occupied threshold up, free up
/// to the free threshold where it is not occupied, unknown otherwise, so also strictly between
/// them.
pub proof fn law_thresholds_decide_the_state(settings: &LocalOccupancySettings, value: Real32, r: OccupancyCell)
    requires
        call_ensures(LocalOccupancySettings::classify, (settings, value), r),
    ensures
        r == OccupancyCell::Occupied <==> settings.occupied_threshold.le(value),
        r == OccupancyCell::Free <==> value.le(settings.free_threshold) && !settings.occupied_threshold.le(value),
        settings.free_threshold.lt(value) && value.lt(settings.occupied_threshold) ==> r == OccupancyCell::Unknown,
        value.nan() ==> r == OccupancyCell::Unknown,
{
}

/// More evidence never turns an occupied voxel into another, and less never a free one, where
/// the thresholds are in order.
pub proof fn law_states_follow_the_evidence(settings: LocalOccupancySettings, less: Real32, more: Real32)
    requires
        settings.free_threshold.lt(settings.occupied_threshold),
        less.le(more),
    ensures
        settings.state_of(less) == OccupancyCell::Occupied ==> settings.state_of(more) == OccupancyCell::Occupied,
        settings.state_of(more) == OccupancyCell::Free ==> settings.state_of(less) == OccupancyCell::Free,
{
}

/// The state of a voxel of the grid is decided by its log-odds and the two thresholds.
pub proof fn law_voxel_state_by_thresholds(
    map: &LocalOccupancyMap,
    x: usize,
    y: usize,
    z: usize,
    r: Option<OccupancyCell>,
)
    requires
        map.wf(),
        call_ensures(LocalOccupancyMap::cell_state, (map, x, y, z), r),
    ensures
        r is Some <==> x < map.config().width_cells && y < map.config().height_cells && z < map.layers(),
        r matches Some(state) ==> {
            let value = map.voxel(x as int, y as int, z as int);
            &&& state == OccupancyCell::Occupied <==> map.config().occupied_threshold.le(value)
            &&& state == OccupancyCell::Free <==> value.le(map.config().free_threshold)
                && !map.config().occupied_threshold.le(value)
        },
{
}

/// The counts are those of the log-odds from the occupied threshold up, of those up to the free
/// threshold, and of the others.
pub proof fn law_counts_by_thresholds(map: &LocalOccupancyMap, r: (usize, usize, usize))
    requires
        call_ensures(LocalOccupancyMap::counts, (map,), r),
    ensures
        r.2 == map.grid().filter(|v: Real32| map.config().occupied_threshold.le(v)).len(),
        r.1 == map.grid().filter(
            |v: Real32| v.le(map.config().free_threshold) && !map.config().occupied_threshold.le(v),
        ).len(),
        r.0 == map.grid().len() - r.1 - r.2,
{
    let occupied = |v: Real32| map.config().occupied_threshold.le(v);
    let free = |v: Real32| v.le(map.config().free_threshold) && !map.config().occupied_threshold.le(v);
    assert(occupied =~= (|v: Real32| map.config().state_of(v) == OccupancyCell::Occupied));
    assert(free =~= (|v: Real32| map.config().state_of(v) == OccupancyCell::Free));
}

/// A depth becomes a ray only if it is trusted: seeded or refined, with a variance that is not
/// negative, a deviation of at most the largest one, a range between the limits, and finite
/// numbers throughout. Any such depth does.
pub proof fn law_rays_come_from_trusted_depths(settings: &LocalOccupancySettings, sample: &RaySample, r: bool)
    requires
        call_ensures(LocalOccupancySettings::admits, (settings, sample), r),
    ensures
        r ==> sample.status == PatchStatus::SeedOnly || sample.status == PatchStatus::PhotoRefined,
        r ==> sample.eta.finite() && sample.eta_var.finite() && sample.eta_var.value() >= 0,
        r ==> sample.bearing_x.finite() && sample.bearing_y.finite() && sample.bearing_z.finite(),
        r && !sample.range.nan() && !settings.min_range.nan() ==> settings.min_range.le(sample.range),
        r && !sample.range.nan() && !settings.max_range.nan() ==> sample.range.le(settings.max_range),
        r && !sample.rel_std.nan() && !settings.max_eta_std.nan() ==> sample.rel_std.le(settings.max_eta_std),
        !r ==> sample.status == PatchStatus::Unknown || sample.status == PatchStatus::Rejected
            || !sample.eta.finite() || !sample.eta_var.finite() || sample.eta_var.value() < 0
            || settings.max_eta_std.lt(sample.rel_std) || sample.range.lt(settings.min_range)
            || settings.max_range.lt(sample.range) || !sample.bearing_x.finite() || !sample.bearing_y.finite()
            || !sample.bearing_z.finite(),
{
    assert(zero32().value() == 0);
}

/// A grid is made where the resolution is positive, both sizes and the stride are not zero, and
/// the ranges and heights are in order. The error names a rule that is broken, and every rule
/// before it is kept.
pub proof fn law_error_names_the_first_broken_rule(settings: LocalOccupancySettings)
    ensures
        settings.broken_rule() is None <==> zero64().lt(settings.resolution) && settings.width_cells > 0
            && settings.height_cells > 0 && settings.sample_stride > 0 && settings.min_range.lt(settings.max_range)
            && settings.min_obstacle_height.lt(settings.max_obstacle_height),
        settings.broken_rule() == Some(OccupancyError::Resolution) <==> !zero64().lt(settings.resolution),
        settings.broken_rule() == Some(OccupancyError::Dimensions) ==> zero64().lt(settings.resolution) && (
        settings.width_cells == 0 || settings.height_cells == 0),
        settings.broken_rule() == Some(OccupancyError::SampleStride) ==> settings.sample_stride == 0
            && settings.width_cells > 0 && settings.height_cells > 0,
        settings.broken_rule() == Some(OccupancyError::Range) ==> !settings.min_range.lt(settings.max_range)
            && settings.sample_stride > 0,
        settings.broken_rule() == Some(OccupancyError::VerticalExtent) ==> !settings.min_obstacle_height.lt(
            settings.max_obstacle_height,
        ) && settings.min_range.lt(settings.max_range),
{
}

/// A point lies in its voxel: its coordinate is not below the voxel's and below the next one,
/// as far as the voxel can be written down.
pub proof fn law_point_lies_in_its_voxel(p: WorldPoint, r: VoxelIndex)
    requires
        call_ensures(voxel_of, (p,), r),
    ensures
        !p.x.nan() && i64::MIN < r.x < i64::MAX ==> p.x.ge_int(r.x as int) && p.x.lt_int(r.x + 1),
        !p.y.nan() && i64::MIN < r.y < i64::MAX ==> p.y.ge_int(r.y as int) && p.y.lt_int(r.y + 1),
        !p.z.nan() && i64::MIN < r.z < i64::MAX ==> p.z.ge_int(r.z as int) && p.z.lt_int(r.z + 1),
{
    p.x.lemma_floor_compares(r.x as int);
    p.x.lemma_floor_compares(r.x + 1);
    p.y.lemma_floor_compares(r.y as int);
    p.y.lemma_floor_compares(r.y + 1);
    p.z.lemma_floor_compares(r.z as int);
    p.z.lemma_floor_compares(r.z + 1);
}

/// The number of layers is at least one, and the whole number that was rounded to where that is
/// at least one.
pub proof fn law_layers_are_the_rounded_extent(rounded: Real64, r: usize)
    requires
        call_ensures(layer_count, (rounded,), r),
    ensures
        r >= 1,
        !rounded.nan() && rounded.ge_int(1) && r < usize::MAX ==> rounded.ge_int(r as int) && rounded.lt_int(r + 1),
        rounded.lt_int(1) || rounded.nan() ==> r == 1,
{
    if !rounded.nan() {
        rounded.lemma_floor_compares(0);
        rounded.lemma_floor_compares(1);
        rounded.lemma_floor_compares(r as int);
        rounded.lemma_floor_compares(r + 1);
        rounded.lemma_value_sign();
        assert(0 * crate::ieee::unit64() == 0);
        vstd::arithmetic::power2::lemma_pow2_pos(1074);
        if !rounded.lt_int(0) {
            rounded.lemma_trunc_nonnegative();
        }
    }
}

/// Writing evidence changes one voxel: it holds the new log-odds, or the nearer limit beyond
/// them; every other voxel, the settings and the place of the grid stay.
pub proof fn law_writing_changes_one_voxel(
    before: LocalOccupancyMap,
    after: LocalOccupancyMap,
    cell: VoxelIndex,
    sum: Real32,
    x: int,
    y: int,
    z: int,
)
    requires
        before.wf(),
        before.config().log_odds_min.le(before.config().log_odds_max),
        LocalOccupancyMap::is_written(before, after, cell, sum),
        before.has(x, y, z),
    ensures
        after.config() == before.config(),
        after.layers() == before.layers(),
        after.corner() == before.corner(),
        after.anchor() == before.anchor(),
        (x != cell.x || y != cell.y || z != cell.z) ==> after.voxel(x, y, z) == before.voxel(x, y, z),
        x == cell.x && y == cell.y && z == cell.z ==> {
            &&& sum.lt(before.config().log_odds_min) ==> after.voxel(x, y, z) == before.config().log_odds_min
            &&& before.config().log_odds_max.lt(sum) ==> after.voxel(x, y, z) == before.config().log_odds_max
            &&& sum.nan() || (before.config().log_odds_min.le(sum) && sum.le(before.config().log_odds_max))
                ==> after.voxel(x, y, z) == sum
        },
{
    before.lemma_has(x, y, z);
    if before.has(cell.x as int, cell.y as int, cell.z as int) {
        before.lemma_has(cell.x as int, cell.y as int, cell.z as int);
        crate::layout::lemma_cell3_injective(
            before.columns(),
            before.rows(),
            x,
            y,
            z,
            cell.x as int,
            cell.y as int,
            cell.z as int,
        );
    }
}

/// A grid that moves stands where it was told: its middle is the target, and its corner the
/// given one, unless it stood there already.
pub proof fn law_grid_stands_at_its_target(
    before: LocalOccupancyMap,
    after: LocalOccupancyMap,
    target: VoxelIndex,
    origin: WorldPoint,
)
    requires
        LocalOccupancyMap::is_moved(before, after, target, origin),
    ensures
        after.anchor() == target,
        target != before.anchor() ==> after.corner() == origin,
        target == before.anchor() ==> after.corner() == before.corner() && after.grid() == before.grid(),
{
}

/// Voxels are stored along X first, then along Y, then along Z.
pub proof fn law_voxels_are_stored_in_order(map: LocalOccupancyMap, x: int, y: int, z: int)
    ensures
        map.position(0, 0, 0) == 0,
        map.position(x + 1, y, z) == map.position(x, y, z) + 1,
        map.position(x, y + 1, z) == map.position(x, y, z) + map.columns(),
        map.position(x, y, z + 1) == map.position(x, y, z) + map.columns() * map.rows(),
{
    let (w, h) = (map.columns(), map.rows());
    assert((0 * h + 0) * w + 0 == 0 && (z * h + y) * w + x + 1 == (z * h + y) * w + (x + 1) && (z * h + (y + 1)) * w
        + x == (z * h + y) * w + x + w && ((z + 1) * h + y) * w + x == (z * h + y) * w + x + w * h)
        by (nonlinear_arith);
}

/// Every pixel whose coordinates are multiples of the stride is sampled, each once, row by row;
/// no other pixel is.
pub proof fn law_samples_are_the_multiples_of_the_stride(
    settings: LocalOccupancySettings,
    width: int,
    height: int,
    a: int,
    b: int,
)
    requires
        settings.sample_stride > 0,
        width > 0,
        height > 0,
        0 <= a * settings.sample_stride < width,
        0 <= b * settings.sample_stride < height,
        a >= 0,
        b >= 0,
    ensures
        exists|k: int|
            0 <= k < settings.sampled(width, height) && #[trigger] settings.sampled_pixel(width, k) == (
                a * settings.sample_stride,
                b * settings.sample_stride,
            ),
        forall|k: int|
            0 <= k < settings.sampled(width, height) ==> {
                let p = #[trigger] settings.sampled_pixel(width, k);
                &&& 0 <= p.0 < width
                &&& 0 <= p.1 < height
                &&& p.0 % (settings.sample_stride as int) == 0
                &&& p.1 % (settings.sample_stride as int) == 0
            },
        forall|k: int, l: int|
            0 <= k < l < settings.sampled(width, height) ==> {
                let p = #[trigger] settings.sampled_pixel(width, k);
                let q = #[trigger] settings.sampled_pixel(width, l);
                p.1 < q.1 || (p.1 == q.1 && p.0 < q.0)
            },
{
    let s = settings.sample_stride as int;
    let nx = crate::layout::samples_along(width, s);
    let ny = crate::layout::samples_along(height, s);
    crate::layout::lemma_samples_along(width, s, a);
    crate::layout::lemma_samples_along(height, s, b);
    let k0 = crate::layout::cell2(nx, a, b);
    crate::layout::lemma_cell2_bound(nx, ny, a, b);
    assert(b * nx + a == nx * b + a) by (nonlinear_arith);
    vstd::arithmetic::div_mod::lemma_fundamental_div_mod_converse(k0, nx, b, a);
    assert(settings.sampled_pixel(width, k0) == (a * s, b * s));
    assert forall|k: int| 0 <= k < settings.sampled(width, height) implies {
        let p = #[trigger] settings.sampled_pixel(width, k);
        &&& 0 <= p.0 < width
        &&& 0 <= p.1 < height
        &&& p.0 % s == 0
        &&& p.1 % s == 0
    } by {
        crate::layout::lemma_cell2_of_position(nx, ny, k);
        let (i, j) = (k % nx, k / nx);
        crate::layout::lemma_samples_along(width, s, i);
        crate::layout::lemma_samples_along(height, s, j);
        assert(0 <= i * s && 0 <= j * s) by (nonlinear_arith)
            requires
                i >= 0,
                j >= 0,
                s > 0,
        ;
        vstd::arithmetic::div_mod::lemma_mod_multiples_basic(i, s);
        vstd::arithmetic::div_mod::lemma_mod_multiples_basic(j, s);
    }
    assert forall|k: int, l: int| 0 <= k < l < settings.sampled(width, height) implies {
        let p = #[trigger] settings.sampled_pixel(width, k);
        let q = #[trigger] settings.sampled_pixel(width, l);
        p.1 < q.1 || (p.1 == q.1 && p.0 < q.0)
    } by {
        crate::layout::lemma_cell2_of_position(nx, ny, k);
        crate::layout::lemma_cell2_of_position(nx, ny, l);
        let (i1, j1, i2, j2) = (k % nx, k / nx, l % nx, l / nx);
        vstd::arithmetic::div_mod::lemma_div_is_ordered(k, l, nx);
        if j1 == j2 {
            assert(i1 < i2);
        }
        assert((i1 < i2 ==> i1 * s < i2 * s) && (j1 < j2 ==> j1 * s < j2 * s)) by (nonlinear_arith)
            requires
                s > 0,
        ;
    }
}

/// A sampled pixel becomes a ray exactly where its own depth, variance and status, with what was
/// computed for it, are admitted.
pub proof fn law_rays_are_the_admitted_samples(
    settings: LocalOccupancySettings,
    output: PatchDepthOutput,
    geometry: Seq<RayGeometry>,
    n: int,
    p: (int, int),
)
    requires
        n >= 0,
    ensures
        settings.admitted(output, geometry, n).contains(p) <==> exists|k: int|
            0 <= k < n && #[trigger] settings.sampled_pixel(output.eta.width as int, k) == p && settings.ray_admitted(
                RaySample {
                    status: output.status.at(p.0, p.1),
                    eta: output.eta.at(p.0, p.1),
                    eta_var: output.eta_var.at(p.0, p.1),
                    rel_std: geometry[k].rel_std,
                    range: geometry[k].range,
                    bearing_x: geometry[k].bearing_x,
                    bearing_y: geometry[k].bearing_y,
                    bearing_z: geometry[k].bearing_z,
                },
            ),
        settings.admitted(output, geometry, n).len() <= n,
    decreases n,
{
    let width = output.eta.width as int;
    if n > 0 {
        law_rays_are_the_admitted_samples(settings, output, geometry, n - 1, p);
        let before = settings.admitted(output, geometry, n - 1);
        let last = settings.sampled_pixel(width, n - 1);
        if settings.ray_admitted(settings.ray_sample(output, geometry, n - 1)) {
            crate::seqs::lemma_push_contains(before, last, p);
        }
        assert(settings.sampled_pixel(width, n - 1) == last);
    }
}

/// A walk is at its end where it stands in the last voxel along all three axes.
pub proof fn law_walk_ends_in_its_last_voxel(walk: &RayWalk, r: bool)
    requires
        call_ensures(RayWalk::at_end, (walk,), r),
    ensures
        r <==> walk.cell.x == walk.end.x && walk.cell.y == walk.end.y && walk.cell.z == walk.end.z,
{
}

/// A ray leads somewhere where its length is positive.
pub proof fn law_ray_needs_a_positive_length(range: Real64, r: bool)
    requires
        !range.nan(),
        call_ensures(ray_has_length, (range,), r),
    ensures
        r <==> zero64().lt(range),
{
}

/// A voxel has log-odds where its three coordinates are not negative and below the size of the
/// grid: those stored at its place, column by column, row by row, layer by layer.
pub proof fn law_voxels_are_read_where_they_are(
    map: &LocalOccupancyMap,
    cell: VoxelIndex,
    r: Option<Real32>,
    inside: bool,
)
    requires
        map.wf(),
        call_ensures(LocalOccupancyMap::log_odds_at, (map, cell), r),
        call_ensures(LocalOccupancyMap::cell_in_bounds, (map, cell), inside),
    ensures
        inside <==> 0 <= cell.x < map.columns() && 0 <= cell.y < map.rows() && 0 <= cell.z < map.layers(),
        r is Some <==> inside,
        r matches Some(l) ==> l == map.grid()[(cell.z * map.rows() + cell.y) * map.columns() + cell.x],
{
}

/// The rays that are used are those of the sampled pixels that are admitted; as many are counted,
/// and as many samples are considered as there are.
pub proof fn law_used_rays_are_counted(
    settings: &LocalOccupancySettings,
    output: &PatchDepthOutput,
    geometry: &[RayGeometry],
    image_width: usize,
    image_height: usize,
    r: (Vec<RayPixel>, OccupancyUpdateStats),
    i: int,
)
    requires
        settings.sample_stride > 0,
        output.wf(),
        geometry@.len() == settings.sampled(output.eta.width as int, output.eta.height as int),
        call_ensures(LocalOccupancySettings::select_rays, (settings, output, geometry, image_width, image_height), r),
        0 <= i < r.0@.len(),
    ensures
        image_width > 0 && image_height > 0 && output.eta.width > 0 && output.eta.height > 0,
        r.1.rays_integrated == r.0@.len() && r.1.rays_integrated <= r.1.rays_considered,
        r.1.rays_considered == geometry@.len(),
        r.1.occupied_updates == 0 && r.1.free_updates == 0,
        exists|k: int|
            0 <= k < geometry@.len() && #[trigger] settings.sampled_pixel(output.eta.width as int, k) == (
                r.0@[i].x as int,
                r.0@[i].y as int,
            ),
{
    let p = (r.0@[i].x as int, r.0@[i].y as int);
    let n = geometry@.len() as int;
    let taken = r.0@.map_values(|p: RayPixel| (p.x as int, p.y as int));
    assert(taken[i] == p);
    assert(taken.contains(p));
    law_rays_are_the_admitted_samples(*settings, *output, geometry@, n, p);
}

} // verus!
