//! Cameras, feature tracks and per-pixel maps shared by the depth modules.
use vstd::prelude::*;
use crate::ieee::{one64, zero64, Real64};

verus! {

pub type Timestamp = Real64;

pub type FeatureId = u64;

/// Pixel coordinates: column `u`, row `v`.
#[derive(Clone, Copy, Debug, PartialEq)]
pub struct Pixel {
    pub u: Real64,
    pub v: Real64,
}

/// Pinhole parameters: focal lengths and principal point, in pixels.
#[derive(Clone, Copy, Debug, PartialEq)]
pub struct CameraIntrinsics {
    pub fx: Real64,
    pub fy: Real64,
    pub cx: Real64,
    pub cy: Real64,
}

impl CameraIntrinsics {
    pub fn new(fx: Real64, fy: Real64, cx: Real64, cy: Real64) -> (r: Self)
        ensures
            r == (CameraIntrinsics { fx, fy, cx, cy }),
    {
        CameraIntrinsics { fx, fy, cx, cy }
    }

    /// Reads the parameters out of a camera matrix, given by rows.
    pub fn from_matrix(k: &[[Real64; 3]; 3]) -> (r: Self)
        ensures
            r.fx == k[0][0],
            r.fy == k[1][1],
            r.cx == k[0][2],
            r.cy == k[1][2],
    {
        CameraIntrinsics { fx: k[0][0], fy: k[1][1], cx: k[0][2], cy: k[1][2] }
    }

    /// The camera matrix, by rows.
    pub fn matrix(&self) -> (r: [[Real64; 3]; 3])
        ensures
            r[0]@ == seq![self.fx, zero64(), self.cx],
            r[1]@ == seq![zero64(), self.fy, self.cy],
            r[2]@ == seq![zero64(), zero64(), one64()],
    {
        [
            [self.fx, zero64(), self.cx],
            [zero64(), self.fy, self.cy],
            [zero64(), zero64(), one64()],
        ]
    }
}

/// Reading back the matrix of a camera gives the camera: the entries that hold its parameters
/// determine it.
pub proof fn law_matrix_determines_camera(camera: CameraIntrinsics, k: Seq<Seq<Real64>>, read: CameraIntrinsics)
    requires
        k.len() == 3,
        k[0] == seq![camera.fx, zero64(), camera.cx],
        k[1] == seq![zero64(), camera.fy, camera.cy],
        k[2] == seq![zero64(), zero64(), one64()],
        read.fx == k[0][0],
        read.fy == k[1][1],
        read.cx == k[0][2],
        read.cy == k[1][2],
    ensures
        read == camera,
{
}

/// Camera-to-world pose as a homogeneous matrix, by rows.
#[derive(Clone, Copy, Debug, PartialEq)]
pub struct CameraPose {
    pub t_wc: [[Real64; 4]; 4],
}

/// Entry of the identity matrix.
pub open spec fn identity_entry(row: int, col: int) -> Real64 {
    if row == col {
        one64()
    } else {
        zero64()
    }
}

impl CameraPose {
    pub fn identity() -> (r: Self)
        ensures
            forall|i: int, j: int|
                #![trigger r.t_wc[i][j]]
                0 <= i < 4 && 0 <= j < 4 ==> r.t_wc[i][j] == identity_entry(i, j),
    {
        let z: Real64 = zero64();
        let one: Real64 = one64();
        CameraPose { t_wc: [[one, z, z, z], [z, one, z, z], [z, z, one, z], [z, z, z, one]] }
    }

    pub fn new(t_wc: [[Real64; 4]; 4]) -> (r: Self)
        ensures
            r.t_wc == t_wc,
    {
        CameraPose { t_wc }
    }
}

/// One sighting of a feature, in pixels.
#[derive(Clone, Copy, Debug, PartialEq)]
pub struct FeatureObservation {
    pub id: FeatureId,
    pub uv: Pixel,
    pub stamp: Timestamp,
}

/// The sightings of one feature, oldest first.
#[derive(Clone, Debug, PartialEq)]
pub struct FeatureTrack {
    pub id: FeatureId,
    pub observations: Vec<FeatureObservation>,
}

impl FeatureTrack {
    pub fn new(id: FeatureId) -> (r: Self)
        ensures
            r.id == id,
            r.observations@ == Seq::<FeatureObservation>::empty(),
    {
        FeatureTrack { id, observations: Vec::new() }
    }

    /// Appends a sighting, stamped with the identity of the track.
    pub fn push(&mut self, uv: Pixel, stamp: Timestamp)
        ensures
            final(self).id == old(self).id,
            final(self).observations@ == old(self).observations@.push(
                FeatureObservation { id: old(self).id, uv, stamp },
            ),
    {
        self.observations.push(FeatureObservation { id: self.id, uv, stamp });
    }

    pub fn len(&self) -> (r: usize)
        ensures
            r == self.observations@.len(),
    {
        self.observations.len()
    }

    pub fn is_empty(&self) -> (r: bool)
        ensures
            r == (self.observations@.len() == 0),
    {
        self.observations.len() == 0
    }

    /// Every sighting carries the identity of its track.
    pub open spec fn consistent(self) -> bool {
        forall|i: int| 0 <= i < self.observations@.len() ==> (#[trigger] self.observations@[i]).id == self.id
    }
}

impl Default for FeatureTrack {
    /// The track of the feature zero, without sightings.
    fn default() -> (r: Self)
        ensures
            r.id == 0,
            r.observations@ == Seq::<FeatureObservation>::empty(),
    {
        FeatureTrack::new(0)
    }
}

/// Appending to a track keeps every sighting stamped with the track's identity.
pub proof fn law_push_keeps_identity(track: FeatureTrack, after: FeatureTrack, uv: Pixel, stamp: Timestamp)
    requires
        track.consistent(),
        after.id == track.id,
        after.observations@ == track.observations@.push(FeatureObservation { id: track.id, uv, stamp }),
    ensures
        after.consistent(),
        after.observations@.len() == track.observations@.len() + 1,
{
}

/// Depth of a sparse feature with its variance.
#[derive(Clone, Copy, Debug, PartialEq)]
pub struct SparseDepthSeed {
    pub id: FeatureId,
    pub uv: Pixel,
    pub depth: Real64,
    pub variance: Real64,
    pub stamp: Timestamp,
}

#[derive(Clone, Copy, Debug, PartialEq, Eq, Structural)]
pub enum DepthStatus {
    Unknown,
    Candidate,
    Valid,
    Outlier,
}

/// Why a map could not be made.
#[derive(Clone, Copy, Debug, PartialEq, Eq, Structural)]
pub enum DepthMapError {
    SizeMismatch,
}

impl DepthMapError {
    pub fn message(&self) -> (r: &'static str)
        ensures
            r@ == "depth map size mismatch"@,
    {
        "depth map size mismatch"
    }
}

/// A row-major image of per-pixel values.
#[derive(Clone, Debug, PartialEq)]
pub struct DepthMap<T> {
    pub width: usize,
    pub height: usize,
    pub data: Vec<T>,
}

impl<T> DepthMap<T> {
    /// The storage holds one value per pixel.
    pub open spec fn wf(self) -> bool {
        self.data@.len() == self.width * self.height
    }

    /// The value at column `x` of row `y`.
    pub open spec fn at(self, x: int, y: int) -> T {
        self.data@[crate::layout::cell2(self.width as int, x, y)]
    }
}

impl<T: Clone> DepthMap<T> {
    /// A map whose pixels are all copies of `value`.
    pub fn new(width: usize, height: usize, value: T) -> (r: Self)
        requires
            width * height <= usize::MAX,
        ensures
            r.width == width,
            r.height == height,
            r.wf(),
            forall|i: int| 0 <= i < width * height ==> cloned(value, #[trigger] r.data@[i]),
    {
        DepthMap { width, height, data: vec![value; width * height] }
    }

    /// Takes row-major pixel values; their number must be the number of pixels.
    pub fn from_vec(width: usize, height: usize, data: Vec<T>) -> (r: Result<Self, DepthMapError>)
        requires
            width * height <= usize::MAX,
        ensures
            r is Ok <==> data@.len() == width * height,
            r matches Ok(map) ==> map.width == width && map.height == height && map.data == data && map.wf(),
            r matches Err(e) ==> e == DepthMapError::SizeMismatch,
    {
        if data.len() != width * height {
            return Err(DepthMapError::SizeMismatch);
        }
        Ok(DepthMap { width, height, data })
    }

    /// The value of a pixel; nothing outside the map.
    pub fn get(&self, x: usize, y: usize) -> (r: Option<&T>)
        requires
            self.wf(),
        ensures
            r is Some <==> x < self.width && y < self.height,
            r matches Some(v) ==> *v == self.at(x as int, y as int),
    {
        if x < self.width && y < self.height {
            proof {
                crate::layout::lemma_cell2_bound(self.width as int, self.height as int, x as int, y as int);
                assert(self.data.len() <= usize::MAX);
            }
            Some(&self.data[y * self.width + x])
        } else {
            None
        }
    }

    /// A pixel for writing; nothing outside the map.
    pub fn get_mut(&mut self, x: usize, y: usize) -> (r: Option<&mut T>)
        requires
            old(self).wf(),
        ensures
            r is Some <==> x < old(self).width && y < old(self).height,
            r matches Some(v) ==> {
                &&& *v == old(self).at(x as int, y as int)
                &&& final(self).width == old(self).width
                &&& final(self).height == old(self).height
                &&& final(self).data@ == old(self).data@.update(
                    crate::layout::cell2(old(self).width as int, x as int, y as int),
                    *final(v),
                )
            },
            r is None ==> *final(self) == *old(self),
    {
        if x < self.width && y < self.height {
            proof {
                crate::layout::lemma_cell2_bound(self.width as int, self.height as int, x as int, y as int);
                assert(self.data.len() <= usize::MAX);
            }
            let index: usize = y * self.width + x;
            Some(&mut self.data[index])
        } else {
            None
        }
    }
}

/// What is written at one pixel is read back there, and nowhere else.
pub proof fn law_write_then_read<T>(before: DepthMap<T>, after: DepthMap<T>, x: int, y: int, v: T, i: int, j: int)
    requires
        before.wf(),
        0 <= x < before.width,
        0 <= y < before.height,
        0 <= i < before.width,
        0 <= j < before.height,
        after.width == before.width,
        after.height == before.height,
        after.data@ == before.data@.update(crate::layout::cell2(before.width as int, x, y), v),
    ensures
        after.wf(),
        after.at(i, j) == (if i == x && j == y {
            v
        } else {
            before.at(i, j)
        }),
{
    let w = before.width as int;
    let h = before.height as int;
    crate::layout::lemma_cell2_bound(w, h, x, y);
    crate::layout::lemma_cell2_bound(w, h, i, j);
    crate::layout::lemma_cell2_injective(w, x, y, i, j);
}

/// A camera that is written as a matrix and read back is the same camera.
pub proof fn law_camera_is_read_back(camera: &CameraIntrinsics, k: [[Real64; 3]; 3], read: CameraIntrinsics)
    requires
        call_ensures(CameraIntrinsics::matrix, (camera,), k),
        call_ensures(CameraIntrinsics::from_matrix, (&k,), read),
    ensures
        read.fx == camera.fx,
        read.fy == camera.fy,
        read.cx == camera.cx,
        read.cy == camera.cy,
        k[2]@[2].bits == 0x3FF0_0000_0000_0000,
        k[1]@[0].bits == 0 && k[0]@[1].bits == 0 && k[2]@[0].bits == 0 && k[2]@[1].bits == 0,
{
    assert(k[0]@[0] == camera.fx && k[0]@[2] == camera.cx && k[1]@[1] == camera.fy && k[1]@[2] == camera.cy);
}

/// The pose of a camera at the origin has ones on its diagonal and zeros beside it.
pub proof fn law_identity_pose_is_diagonal(r: CameraPose, i: int, j: int)
    requires
        call_ensures(CameraPose::identity, (), r),
        0 <= i < 4,
        0 <= j < 4,
    ensures
        r.t_wc[i][j].bits == (if i == j { 0x3FF0_0000_0000_0000u64 } else { 0u64 }),
{
}

/// A map is stored row by row: the next column is the next element, the next row one width on.
pub proof fn law_map_is_stored_by_rows<T>(map: DepthMap<T>, x: int, y: int)
    requires
        0 <= x < map.width,
        0 <= y < map.height,
        map.wf(),
    ensures
        map.at(x, y) == map.data@[y * map.width + x],
        0 <= y * map.width + x < map.data@.len(),
{
    crate::layout::lemma_cell2_bound(map.width as int, map.height as int, x, y);
}

} // verus!
