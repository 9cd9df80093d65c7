//! The calibration of the first camera, from the files that hold it: the camera's own, or a
//! chain of cameras.
use vstd::prelude::*;
use crate::dataserver::yaml::{parse_yaml, Node};
use crate::ieee::{zero64, Real64};

verus! {

/// What is wrong with a calibration file.
#[derive(Clone, Copy, Debug, PartialEq, Eq, Structural)]
pub enum CalibrationError {
    /// The camera's own file is no YAML document.
    Syntax,
    /// It lacks the size of the image in pixels.
    Resolution,
    /// It lacks the focal lengths or the principal point.
    Intrinsics,
    /// It lacks some of the sixteen numbers of the camera's pose.
    Pose,
}

impl CalibrationError {
    pub fn message(&self) -> (r: &'static str)
        ensures
            r@ == (match *self {
                CalibrationError::Syntax => "calibration that cannot be parsed"@,
                CalibrationError::Resolution => "calibration without a resolution"@,
                CalibrationError::Intrinsics => "calibration without four intrinsics"@,
                CalibrationError::Pose => "calibration with an incomplete pose"@,
            }),
    {
        match self {
            CalibrationError::Syntax => "calibration that cannot be parsed",
            CalibrationError::Resolution => "calibration without a resolution",
            CalibrationError::Intrinsics => "calibration without four intrinsics",
            CalibrationError::Pose => "calibration with an incomplete pose",
        }
    }
}

/// A camera as its calibration describes it.
#[derive(Clone, Debug)]
pub struct CameraIntrinsics {
    pub width: usize,
    pub height: usize,
    pub fx: Real64,
    pub fy: Real64,
    pub cx: Real64,
    pub cy: Real64,
    pub camera_model: Option<String>,
    pub distortion_model: Option<String>,
    pub distortion_coefficients: Option<Vec<Real64>>,
}

/// The number of pixels along an axis, in a camera's table.
pub open spec fn size_in(camera: Node, axis: int) -> Option<u64> {
    match camera.field("resolution"@) {
        Some(list) => match list.item(axis) {
            Some(n) => n.whole(),
            None => None,
        },
        None => None,
    }
}

/// One of the four intrinsics in a camera's table: the focal lengths, then the principal point.
pub open spec fn intrinsic_in(camera: Node, i: int) -> Option<Real64> {
    match camera.field("intrinsics"@) {
        Some(list) => match list.item(i) {
            Some(n) => n.number(),
            None => None,
        },
        None => None,
    }
}

/// The text under a key of a camera's table.
pub open spec fn text_in(camera: Node, key: Seq<char>) -> Option<Seq<char>> {
    match camera.field(key) {
        Some(n) => n.text(),
        None => None,
    }
}

/// The numbers of the list under a key of a camera's table.
pub open spec fn numbers_in(camera: Node, key: Seq<char>) -> Option<Seq<Real64>> {
    match camera.field(key) {
        Some(n) => match n.untagged() {
            Node::List(items) => Some(crate::dataserver::yaml::numbers_among(items@)),
            _ => None,
        },
        None => None,
    }
}

/// Whether a camera's table has both sizes of the image.
pub open spec fn has_resolution(camera: Node) -> bool {
    size_in(camera, 0) is Some && size_in(camera, 1) is Some
}

/// Whether a camera's table has all four intrinsics.
pub open spec fn has_intrinsics(camera: Node) -> bool {
    forall|i: int| 0 <= i < 4 ==> #[trigger] intrinsic_in(camera, i) is Some
}

/// The camera that a table describes, whose coefficients stand under `distortion`.
pub open spec fn describes(table: Node, distortion: Seq<char>, camera: CameraIntrinsics) -> bool {
    &&& size_in(table, 0) matches Some(w) && camera.width == w as usize
    &&& size_in(table, 1) matches Some(h) && camera.height == h as usize
    &&& intrinsic_in(table, 0) == Some(camera.fx)
    &&& intrinsic_in(table, 1) == Some(camera.fy)
    &&& intrinsic_in(table, 2) == Some(camera.cx)
    &&& intrinsic_in(table, 3) == Some(camera.cy)
    &&& text_of(camera.camera_model) == text_in(table, "camera_model"@)
    &&& text_of(camera.distortion_model) == text_in(table, "distortion_model"@)
    &&& numbers_of(camera.distortion_coefficients) == numbers_in(table, distortion)
}

pub open spec fn text_of(text: Option<String>) -> Option<Seq<char>> {
    match text {
        Some(t) => Some(t@),
        None => None,
    }
}

pub open spec fn numbers_of(numbers: Option<Vec<Real64>>) -> Option<Seq<Real64>> {
    match numbers {
        Some(v) => Some(v@),
        None => None,
    }
}

fn read_size(camera: &Node, axis: usize) -> (r: Option<u64>)
    ensures
        r == size_in(*camera, axis as int),
{
    match camera.get("resolution") {
        Some(list) => match list.at(axis) {
            Some(n) => n.as_whole(),
            None => None,
        },
        None => None,
    }
}

fn read_intrinsic(camera: &Node, i: usize) -> (r: Option<Real64>)
    ensures
        r == intrinsic_in(*camera, i as int),
{
    match camera.get("intrinsics") {
        Some(list) => match list.at(i) {
            Some(n) => n.as_number(),
            None => None,
        },
        None => None,
    }
}

fn read_text(camera: &Node, key: &str) -> (r: Option<String>)
    ensures
        text_of(r) == text_in(*camera, key@),
{
    match camera.get(key) {
        Some(n) => n.as_text(),
        None => None,
    }
}

fn read_numbers(camera: &Node, key: &str) -> (r: Option<Vec<Real64>>)
    ensures
        numbers_of(r) == numbers_in(*camera, key@),
{
    match camera.get(key) {
        Some(n) => n.as_numbers(),
        None => None,
    }
}

/// Reads the camera that a table describes.
pub fn read_camera(table: &Node, distortion: &str) -> (r: Result<CameraIntrinsics, CalibrationError>)
    ensures
        r is Ok <==> has_resolution(*table) && has_intrinsics(*table),
        r matches Ok(camera) ==> describes(*table, distortion@, camera),
        r == Err::<CameraIntrinsics, CalibrationError>(CalibrationError::Resolution) <==> !has_resolution(*table),
        r == Err::<CameraIntrinsics, CalibrationError>(CalibrationError::Intrinsics) <==> has_resolution(*table)
            && !has_intrinsics(*table),
{
    let (width, height): (u64, u64) = match (read_size(table, 0), read_size(table, 1)) {
        (Some(w), Some(h)) => (w, h),
        _ => {
            return Err(CalibrationError::Resolution);
        },
    };
    let mut values: [Real64; 4] = [zero64(); 4];
    let mut i: usize = 0;
    while i < 4
        invariant
            i <= 4,
            has_resolution(*table),
            forall|k: int| 0 <= k < i ==> #[trigger] intrinsic_in(*table, k) == Some(values@[k]),
        decreases 4 - i,
    {
        match read_intrinsic(table, i) {
            Some(x) => {
                values[i] = x;
            },
            None => {
                assert(intrinsic_in(*table, i as int) is None);
                return Err(CalibrationError::Intrinsics);
            },
        }
        i = i + 1;
    }
    Ok(
        CameraIntrinsics {
            width: width as usize,
            height: height as usize,
            fx: values[0],
            fy: values[1],
            cx: values[2],
            cy: values[3],
            camera_model: read_text(table, "camera_model"),
            distortion_model: read_text(table, "distortion_model"),
            distortion_coefficients: read_numbers(table, distortion),
        },
    )
}

/// The place of the camera on the body.
#[derive(Clone, Copy, Debug)]
pub enum CameraOffset {
    /// The pose of the camera on the body, as a matrix by rows.
    OnBody([[Real64; 4]; 4]),
    /// The inverse of that pose.
    FromBody([[Real64; 4]; 4]),
}

/// What the calibration files hold of the first camera.
#[derive(Clone, Debug)]
pub struct Calibration {
    pub camera: Option<CameraIntrinsics>,
    pub offset: Option<CameraOffset>,
}

/// The number in a row and a column of a pose that is written as one list.
pub open spec fn flat_entry(pose: Node, row: int, column: int) -> Option<Real64> {
    match pose.field("data"@) {
        Some(list) => match list.item(row * 4 + column) {
            Some(n) => n.number(),
            None => None,
        },
        None => None,
    }
}

/// The number in a row and a column of a pose that is written as a list of rows.
pub open spec fn nested_entry(pose: Node, row: int, column: int) -> Option<Real64> {
    match pose.item(row) {
        Some(list) => match list.item(column) {
            Some(n) => n.number(),
            None => None,
        },
        None => None,
    }
}

/// The number in a row and a column of a pose, in one of its two forms.
pub open spec fn pose_entry(pose: Node, nested: bool, row: int, column: int) -> Option<Real64> {
    if nested {
        nested_entry(pose, row, column)
    } else {
        flat_entry(pose, row, column)
    }
}

/// Whether a pose has all its numbers.
pub open spec fn is_complete(pose: Node, nested: bool) -> bool {
    forall|i: int, j: int| 0 <= i < 4 && 0 <= j < 4 ==> #[trigger] pose_entry(pose, nested, i, j) is Some
}

/// Whether a matrix holds the numbers of a pose.
pub open spec fn holds_pose(pose: Node, nested: bool, m: [[Real64; 4]; 4]) -> bool {
    forall|i: int, j: int|
        0 <= i < 4 && 0 <= j < 4 ==> #[trigger] pose_entry(pose, nested, i, j) == Some(m@[i]@[j])
}

fn read_pose_entry(pose: &Node, nested: bool, row: usize, column: usize) -> (r: Option<Real64>)
    requires
        row < 4,
        column < 4,
    ensures
        r == pose_entry(*pose, nested, row as int, column as int),
{
    let (list, place): (Option<&Node>, usize) = if nested {
        (pose.at(row), column)
    } else {
        (pose.get("data"), row * 4 + column)
    };
    match list {
        Some(list) => match list.at(place) {
            Some(n) => n.as_number(),
            None => None,
        },
        None => None,
    }
}

/// Reads a pose, written as a list of rows or as one list.
pub fn read_pose(pose: &Node, nested: bool) -> (r: Option<[[Real64; 4]; 4]>)
    ensures
        r is Some <==> is_complete(*pose, nested),
        r matches Some(m) ==> holds_pose(*pose, nested, m),
{
    let mut rows: [[Real64; 4]; 4] = [[zero64(); 4]; 4];
    let mut i: usize = 0;
    while i < 4
        invariant
            i <= 4,
            forall|a: int, b: int|
                0 <= a < i && 0 <= b < 4 ==> #[trigger] pose_entry(*pose, nested, a, b) == Some(rows@[a]@[b]),
        decreases 4 - i,
    {
        let mut row: [Real64; 4] = [zero64(); 4];
        let mut j: usize = 0;
        while j < 4
            invariant
                i < 4,
                j <= 4,
                forall|b: int| 0 <= b < j ==> #[trigger] pose_entry(*pose, nested, i as int, b) == Some(row@[b]),
            decreases 4 - j,
        {
            match read_pose_entry(pose, nested, i, j) {
                Some(x) => {
                    row[j] = x;
                },
                None => {
                    assert(pose_entry(*pose, nested, i as int, j as int) is None);
                    return None;
                },
            }
            j = j + 1;
        }
        rows[i] = row;
        i = i + 1;
    }
    Some(rows)
}

/// Whether a file of the camera itself can be read: what it has of camera and pose is complete.
pub open spec fn sensor_is_sound(file: Node) -> bool {
    &&& file.field("intrinsics"@) is Some ==> has_resolution(file) && has_intrinsics(file)
    &&& file.field("T_BS"@) matches Some(pose) ==> is_complete(pose, false)
}

/// The error of a file of the camera itself that cannot be read.
pub open spec fn sensor_error(file: Node) -> CalibrationError {
    if file.field("intrinsics"@) is Some && !has_resolution(file) {
        CalibrationError::Resolution
    } else if file.field("intrinsics"@) is Some && !has_intrinsics(file) {
        CalibrationError::Intrinsics
    } else {
        CalibrationError::Pose
    }
}

/// What a file of the camera itself holds.
pub open spec fn sensor_holds(file: Node, c: Calibration) -> bool {
    &&& c.camera is Some <==> file.field("intrinsics"@) is Some
    &&& c.camera matches Some(camera) ==> describes(file, "distortion_coefficients"@, camera)
    &&& own_offset(file, c.offset)
}

/// The offset in a file of the camera itself, whose pose is that of the camera on the body.
pub open spec fn own_offset(file: Node, offset: Option<CameraOffset>) -> bool {
    &&& offset is Some <==> file.field("T_BS"@) is Some
    &&& offset matches Some(offset) ==> offset matches CameraOffset::OnBody(m) && holds_pose(
        file.field("T_BS"@)->0,
        false,
        m,
    )
}

/// Reads the file of the camera itself.
pub fn load_sensor(file: &Node) -> (r: Result<Calibration, CalibrationError>)
    ensures
        r is Ok <==> sensor_is_sound(*file),
        r matches Ok(c) ==> sensor_holds(*file, c),
        r matches Err(e) ==> e == sensor_error(*file),
{
    let camera: Option<CameraIntrinsics> = match file.get("intrinsics") {
        Some(_) => match read_camera(file, "distortion_coefficients") {
            Ok(camera) => Some(camera),
            Err(e) => {
                return Err(e);
            },
        },
        None => None,
    };
    let offset: Option<CameraOffset> = match file.get("T_BS") {
        Some(pose) => match read_pose(pose, false) {
            Some(m) => Some(CameraOffset::OnBody(m)),
            None => {
                return Err(CalibrationError::Pose);
            },
        },
        None => None,
    };
    Ok(Calibration { camera, offset })
}

/// The first camera of a chain, where it has intrinsics and a resolution.
pub open spec fn chained_camera(file: Node) -> Option<Node> {
    match file.field("cam0"@) {
        Some(camera) => if camera.field("intrinsics"@) is Some && camera.field("resolution"@) is Some {
            Some(camera)
        } else {
            None
        },
        None => None,
    }
}

/// Whether the first camera of a chain can be read.
pub open spec fn chain_is_sound(camera: Node) -> bool {
    &&& has_resolution(camera) && has_intrinsics(camera)
    &&& camera.field("T_cam_imu"@) matches Some(pose) ==> is_complete(pose, true)
}

/// The error of a chain whose first camera cannot be read.
pub open spec fn chain_error(camera: Node) -> CalibrationError {
    if !has_resolution(camera) {
        CalibrationError::Resolution
    } else if !has_intrinsics(camera) {
        CalibrationError::Intrinsics
    } else {
        CalibrationError::Pose
    }
}

/// What a chain holds of its first camera. Its pose leads from the body to the camera.
pub open spec fn chain_holds(camera: Node, c: Calibration) -> bool {
    &&& c.camera matches Some(read) && describes(camera, "distortion_coeffs"@, read)
    &&& c.offset is Some <==> camera.field("T_cam_imu"@) is Some
    &&& c.offset matches Some(offset) ==> offset matches CameraOffset::FromBody(m) && holds_pose(
        camera.field("T_cam_imu"@)->0,
        true,
        m,
    )
}

/// Reads the first camera of a chain; nothing where the chain has none, or one without
/// intrinsics or resolution.
pub fn load_camchain(file: &Node) -> (r: Result<Option<Calibration>, CalibrationError>)
    ensures
        chained_camera(*file) is None ==> r matches Ok(None),
        chained_camera(*file) matches Some(camera) ==> {
            &&& r is Ok <==> chain_is_sound(camera)
            &&& r matches Ok(c) ==> c matches Some(c) && chain_holds(camera, c)
            &&& r matches Err(e) ==> e == chain_error(camera)
        },
{
    let camera: &Node = match file.get("cam0") {
        Some(camera) => camera,
        None => {
            return Ok(None);
        },
    };
    if camera.get("intrinsics").is_none() || camera.get("resolution").is_none() {
        return Ok(None);
    }
    let read: CameraIntrinsics = match read_camera(camera, "distortion_coeffs") {
        Ok(read) => read,
        Err(e) => {
            return Err(e);
        },
    };
    let offset: Option<CameraOffset> = match camera.get("T_cam_imu") {
        Some(pose) => match read_pose(pose, true) {
            Some(m) => Some(CameraOffset::FromBody(m)),
            None => {
                return Err(CalibrationError::Pose);
            },
        },
        None => None,
    };
    Ok(Some(Calibration { camera: Some(read), offset }))
}

/// Whether the calibration files can be read. The chain is consulted only where the camera has
/// no file of its own, or one without intrinsics.
pub open spec fn files_are_sound(sensor: Option<Node>, chain: Option<Node>) -> bool {
    &&& sensor matches Some(file) ==> sensor_is_sound(file)
    &&& (uses_chain(sensor, chain) matches Some(camera) ==> chain_is_sound(camera))
}

/// The camera of the chain, where the chain is what describes the camera.
pub open spec fn uses_chain(sensor: Option<Node>, chain: Option<Node>) -> Option<Node> {
    if sensor matches Some(file) && file.field("intrinsics"@) is Some {
        None
    } else {
        match chain {
            Some(file) => chained_camera(file),
            None => None,
        }
    }
}

/// What the two files together hold: the chain's camera replaces the missing one, and the pose
/// of the chain, where it has one, replaces that of the camera's own file.
pub open spec fn files_hold(sensor: Option<Node>, chain: Option<Node>, c: Calibration) -> bool {
    match uses_chain(sensor, chain) {
        Some(camera) => if camera.field("T_cam_imu"@) is Some {
            chain_holds(camera, c)
        } else {
            &&& chain_holds(camera, Calibration { offset: None, ..c })
            &&& match sensor {
                Some(file) => own_offset(file, c.offset),
                None => c.offset is None,
            }
        },
        None => match sensor {
            Some(file) => sensor_holds(file, c),
            None => c.camera is None && c.offset is None,
        },
    }
}

/// The error of calibration files that cannot be read.
pub open spec fn files_error(sensor: Option<Node>, chain: Option<Node>) -> CalibrationError {
    if sensor matches Some(file) && !sensor_is_sound(file) {
        sensor_error(sensor->0)
    } else {
        chain_error(uses_chain(sensor, chain)->0)
    }
}

/// A file that may be absent.
pub open spec fn as_node(file: Option<&Node>) -> Option<Node> {
    match file {
        Some(n) => Some(*n),
        None => None,
    }
}

/// Reads the calibration of the first camera from its own file and from the chain, as far as
/// they exist.
pub fn load_config(sensor: Option<&Node>, chain: Option<&Node>) -> (r: Result<Calibration, CalibrationError>)
    ensures
        r is Ok <==> files_are_sound(as_node(sensor), as_node(chain)),
        r matches Ok(c) ==> files_hold(as_node(sensor), as_node(chain), c),
        r matches Err(e) ==> e == files_error(as_node(sensor), as_node(chain)),
{
    let own: Calibration = match sensor {
        Some(file) => match load_sensor(file) {
            Ok(c) => c,
            Err(e) => {
                return Err(e);
            },
        },
        None => Calibration { camera: None, offset: None },
    };
    if own.camera.is_some() {
        return Ok(own);
    }
    let chained: Option<Calibration> = match chain {
        Some(file) => match load_camchain(file) {
            Ok(c) => c,
            Err(e) => {
                return Err(e);
            },
        },
        None => None,
    };
    match chained {
        Some(c) => {
            let offset: Option<CameraOffset> = match c.offset {
                Some(offset) => Some(offset),
                None => own.offset,
            };
            Ok(Calibration { camera: c.camera, offset })
        },
        None => Ok(own),
    }
}

/// Where the camera's own file has intrinsics, the chain does not matter: what is read, and
/// whether it can be read, is the same with any chain and without one.
pub proof fn law_own_file_comes_first(file: Node, chain: Option<Node>, c: Calibration)
    requires
        file.field("intrinsics"@) is Some,
    ensures
        files_are_sound(Some(file), chain) <==> sensor_is_sound(file),
        files_hold(Some(file), chain, c) <==> sensor_holds(file, c),
        !sensor_is_sound(file) ==> files_error(Some(file), chain) == sensor_error(file),
{
}

/// A chain gives a camera only if it has one with intrinsics and resolution; any other chain
/// is as good as none.
pub proof fn law_unusable_chain_is_none(sensor: Option<Node>, chain: Node, c: Calibration)
    requires
        chained_camera(chain) is None,
    ensures
        files_are_sound(sensor, Some(chain)) <==> files_are_sound(sensor, None),
        files_hold(sensor, Some(chain), c) <==> files_hold(sensor, None, c),
{
}

/// What the bytes of a file hold, where there is a file.
pub open spec fn file_value(file: Option<&[u8]>) -> Option<Node> {
    match file {
        Some(bytes) => crate::dataserver::yaml::yaml_value(bytes@),
        None => None,
    }
}

/// Whether there is a file that is no YAML document.
pub open spec fn is_unreadable(file: Option<&[u8]>) -> bool {
    file is Some && file_value(file) is None
}

/// Reads the calibration of the first camera from the bytes of its own file and of the chain,
/// as far as the files exist. A file of the camera itself that is no YAML document is an
/// error; a chain that is none is as good as no chain.
pub fn load_config_files(sensor: Option<&[u8]>, chain: Option<&[u8]>) -> (r: Result<Calibration, CalibrationError>)
    ensures
        r is Ok <==> !is_unreadable(sensor) && files_are_sound(file_value(sensor), file_value(chain)),
        r matches Ok(c) ==> files_hold(file_value(sensor), file_value(chain), c),
        r matches Err(e) ==> e == (if is_unreadable(sensor) {
            CalibrationError::Syntax
        } else {
            files_error(file_value(sensor), file_value(chain))
        }),
{
    let own: Option<Node> = match sensor {
        Some(bytes) => match parse_yaml(bytes) {
            Some(node) => Some(node),
            None => {
                return Err(CalibrationError::Syntax);
            },
        },
        None => None,
    };
    let others: Option<Node> = match chain {
        Some(bytes) => parse_yaml(bytes),
        None => None,
    };
    load_config(own.as_ref(), others.as_ref())
}

/// A chain that is no YAML document is as good as no chain.
pub proof fn law_unreadable_chain_is_none(sensor: Option<&[u8]>, chain: Option<&[u8]>, c: Calibration)
    requires
        is_unreadable(chain),
    ensures
        files_are_sound(file_value(sensor), file_value(chain)) <==> files_are_sound(file_value(sensor), None),
        files_hold(file_value(sensor), file_value(chain), c) <==> files_hold(file_value(sensor), None, c),
{
}

/// A camera is read by its keys: the two sizes from the resolution, the focal lengths and the
/// centre from the four intrinsics in their order, and the two models from their names.
pub proof fn law_camera_is_read_by_its_keys(table: &Node, distortion: &str, r: Result<CameraIntrinsics, CalibrationError>)
    requires
        call_ensures(read_camera, (table, distortion), r),
    ensures
        r matches Ok(camera) ==> {
            let sizes = table.field("resolution"@)->0;
            let numbers = table.field("intrinsics"@)->0;
            &&& sizes.item(0)->0.whole() matches Some(w) && camera.width == w as usize
            &&& sizes.item(1)->0.whole() matches Some(h) && camera.height == h as usize
            &&& numbers.item(0)->0.number() == Some(camera.fx)
            &&& numbers.item(1)->0.number() == Some(camera.fy)
            &&& numbers.item(2)->0.number() == Some(camera.cx)
            &&& numbers.item(3)->0.number() == Some(camera.cy)
            &&& camera.camera_model is None <==> text_in(*table, "camera_model"@) is None
            &&& camera.distortion_model is None <==> text_in(*table, "distortion_model"@) is None
            &&& camera.distortion_coefficients is None <==> numbers_in(*table, distortion@) is None
        },
        table.field("resolution"@) is None ==> r == Err::<CameraIntrinsics, _>(CalibrationError::Resolution),
        table.field("intrinsics"@) is None ==> r is Err,
{
    assert(intrinsic_in(*table, 0) is None <==> intrinsic_in(*table, 0) is None);
    assert(intrinsic_in(*table, 0) is Some || !has_intrinsics(*table));
}

/// A pose is read row by row: out of sixteen numbers in a list, or out of four lists of four.
pub proof fn law_pose_is_read_by_rows(pose: &Node, flat: Option<[[Real64; 4]; 4]>, nested: Option<[[Real64; 4]; 4]>, i: int, j: int)
    requires
        call_ensures(read_pose, (pose, false), flat),
        call_ensures(read_pose, (pose, true), nested),
        0 <= i < 4,
        0 <= j < 4,
    ensures
        flat matches Some(m) ==> pose.field("data"@)->0.item(4 * i + j)->0.number() == Some(m@[i]@[j]),
        nested matches Some(m) ==> pose.item(i)->0.item(j)->0.number() == Some(m@[i]@[j]),
{
    if let Some(m) = flat {
        assert(pose_entry(*pose, false, i, j) == Some(m@[i]@[j]));
    }
    if let Some(m) = nested {
        assert(pose_entry(*pose, true, i, j) == Some(m@[i]@[j]));
    }
}

/// The camera's own file says where the camera is on the body, a chain where the body is before
/// the camera; a chain is used only where the own file has no intrinsics and the chain's first
/// camera has intrinsics and a resolution, and its pose comes before that of the own file.
pub proof fn law_chain_stands_in_for_missing_intrinsics(sensor: Option<Node>, chain: Node, c: Calibration)
    requires
        files_hold(sensor, Some(chain), c),
        !(sensor matches Some(file) && file.field("intrinsics"@) is Some),
        chain.field("cam0"@) is Some,
        chain.field("cam0"@)->0.field("intrinsics"@) is Some,
        chain.field("cam0"@)->0.field("resolution"@) is Some,
    ensures
        c.camera is Some,
        c.camera matches Some(camera) ==> intrinsic_in(chain.field("cam0"@)->0, 0) == Some(camera.fx),
        chain.field("cam0"@)->0.field("T_cam_imu"@) is Some ==> (c.offset matches Some(CameraOffset::FromBody(m))
            && holds_pose(chain.field("cam0"@)->0.field("T_cam_imu"@)->0, true, m)),
        chain.field("cam0"@)->0.field("T_cam_imu"@) is None && sensor is None ==> c.offset is None,
        chain.field("cam0"@)->0.field("T_cam_imu"@) is None && (sensor matches Some(file) && file.field("T_BS"@) is Some)
            ==> (c.offset matches Some(CameraOffset::OnBody(m))),
{
}

/// What is refused: a camera's own file that is no document, or with intrinsics but no
/// resolution or not four numbers of them, or with an incomplete pose.
pub proof fn law_broken_files_are_refused(sensor: &[u8], chain: Option<&[u8]>, r: Result<Calibration, CalibrationError>)
    requires
        call_ensures(load_config_files, (Some(sensor), chain), r),
    ensures
        crate::dataserver::yaml::yaml_value(sensor@) is None ==> r == Err::<Calibration, _>(CalibrationError::Syntax),
        crate::dataserver::yaml::yaml_value(sensor@) matches Some(file) ==> {
            &&& file.field("intrinsics"@) is Some && file.field("resolution"@) is None ==> r == Err::<Calibration, _>(
                CalibrationError::Resolution,
            )
            &&& file.field("intrinsics"@) is Some && has_resolution(file) && has_intrinsics(file) && file.field(
                "T_BS"@,
            ) is None ==> r is Ok
        },
{
}

/// A camera is refused where either size of the resolution is missing or no whole number, and,
/// with both sizes, where any of the four intrinsics is missing or no number; it is read
/// otherwise.
pub proof fn law_incomplete_camera_is_refused(
    table: &Node,
    distortion: &str,
    r: Result<CameraIntrinsics, CalibrationError>,
    axis: int,
    i: int,
)
    requires
        call_ensures(read_camera, (table, distortion), r),
        axis == 0 || axis == 1,
        0 <= i < 4,
    ensures
        size_in(*table, axis) is None ==> r == Err::<CameraIntrinsics, _>(CalibrationError::Resolution),
        size_in(*table, 0) is Some && size_in(*table, 1) is Some && intrinsic_in(*table, i) is None ==> r == Err::<
            CameraIntrinsics,
            _,
        >(CalibrationError::Intrinsics),
        size_in(*table, 0) is Some && size_in(*table, 1) is Some && intrinsic_in(*table, 0) is Some && intrinsic_in(
            *table,
            1,
        ) is Some && intrinsic_in(*table, 2) is Some && intrinsic_in(*table, 3) is Some ==> r is Ok,
{
    if intrinsic_in(*table, i) is None {
        assert(!has_intrinsics(*table));
    }
    if intrinsic_in(*table, 0) is Some && intrinsic_in(*table, 1) is Some && intrinsic_in(*table, 2) is Some
        && intrinsic_in(*table, 3) is Some {
        assert forall|k: int| 0 <= k < 4 implies #[trigger] intrinsic_in(*table, k) is Some by {
            assert(k == 0 || k == 1 || k == 2 || k == 3);
        }
        assert(has_intrinsics(*table));
    }
}

/// A pose is read exactly where all of its sixteen numbers are there.
pub proof fn law_incomplete_pose_is_refused(pose: &Node, nested: bool, r: Option<[[Real64; 4]; 4]>, i: int, j: int)
    requires
        call_ensures(read_pose, (pose, nested), r),
        0 <= i < 4,
        0 <= j < 4,
    ensures
        pose_entry(*pose, nested, i, j) is None ==> r is None,
        (forall|a: int, b: int| 0 <= a < 4 && 0 <= b < 4 ==> #[trigger] pose_entry(*pose, nested, a, b) is Some)
            ==> r is Some,
{
    if pose_entry(*pose, nested, i, j) is None {
        assert(!is_complete(*pose, nested));
    }
}

/// A chain gives a camera exactly where its first camera has both intrinsics and a resolution.
pub proof fn law_chain_needs_intrinsics_and_resolution(file: Node)
    ensures
        file.field("cam0"@) is None ==> chained_camera(file) is None,
        file.field("cam0"@) matches Some(camera) ==> {
            &&& camera.field("intrinsics"@) is None ==> chained_camera(file) is None
            &&& camera.field("resolution"@) is None ==> chained_camera(file) is None
            &&& camera.field("intrinsics"@) is Some && camera.field("resolution"@) is Some ==> chained_camera(file)
                == Some(camera)
        },
{
}

/// A camera's own file is read where it has no intrinsics, or both sizes and all four numbers of
/// them, and no pose or a complete one; else the error names what is missing, first the
/// resolution, then the intrinsics, then the pose. What is read is what the file has.
pub proof fn law_own_file_says_what_it_has(file: &Node, r: Result<Calibration, CalibrationError>)
    requires
        call_ensures(load_sensor, (file,), r),
    ensures
        ({
            let camera = file.field("intrinsics"@) is Some;
            let sized = size_in(*file, 0) is Some && size_in(*file, 1) is Some;
            let numbered = forall|i: int| 0 <= i < 4 ==> #[trigger] intrinsic_in(*file, i) is Some;
            let posed = file.field("T_BS"@) matches Some(pose) ==> forall|i: int, j: int|
                0 <= i < 4 && 0 <= j < 4 ==> #[trigger] pose_entry(pose, false, i, j) is Some;
            &&& r is Ok <==> (!camera || sized && numbered) && posed
            &&& camera && !sized ==> r == Err::<Calibration, _>(CalibrationError::Resolution)
            &&& camera && sized && !numbered ==> r == Err::<Calibration, _>(CalibrationError::Intrinsics)
            &&& (!camera || sized && numbered) && !posed ==> r == Err::<Calibration, _>(CalibrationError::Pose)
            &&& r matches Ok(c) ==> {
                &&& c.camera is Some <==> camera
                &&& c.camera matches Some(read) ==> intrinsic_in(*file, 0) == Some(read.fx) && intrinsic_in(*file, 3)
                    == Some(read.cy) && numbers_of(read.distortion_coefficients) == numbers_in(
                    *file,
                    "distortion_coefficients"@,
                )
                &&& c.offset is Some <==> file.field("T_BS"@) is Some
                &&& c.offset matches Some(offset) ==> (offset matches CameraOffset::OnBody(m) && pose_entry(
                    file.field("T_BS"@)->0,
                    false,
                    1,
                    2,
                ) == Some(m@[1]@[2]))
            }
        }),
{
}

/// A chain's camera is read where both sizes and all four intrinsics are there, and no pose or a
/// complete one; else the error names what is missing in the same order.
pub proof fn law_chain_says_what_it_has(file: &Node, r: Result<Option<Calibration>, CalibrationError>)
    requires
        call_ensures(load_camchain, (file,), r),
    ensures
        chained_camera(*file) is None ==> (r matches Ok(None)),
        chained_camera(*file) matches Some(camera) ==> {
            let sized = size_in(camera, 0) is Some && size_in(camera, 1) is Some;
            let numbered = forall|i: int| 0 <= i < 4 ==> #[trigger] intrinsic_in(camera, i) is Some;
            let posed = camera.field("T_cam_imu"@) matches Some(pose) ==> forall|i: int, j: int|
                0 <= i < 4 && 0 <= j < 4 ==> #[trigger] pose_entry(pose, true, i, j) is Some;
            &&& r is Ok <==> sized && numbered && posed
            &&& !sized ==> r == Err::<Option<Calibration>, _>(CalibrationError::Resolution)
            &&& sized && !numbered ==> r == Err::<Option<Calibration>, _>(CalibrationError::Intrinsics)
            &&& sized && numbered && !posed ==> r == Err::<Option<Calibration>, _>(CalibrationError::Pose)
            &&& r matches Ok(Some(c)) ==> {
                &&& c.camera matches Some(read) && intrinsic_in(camera, 0) == Some(read.fx) && numbers_of(
                    read.distortion_coefficients,
                ) == numbers_in(camera, "distortion_coeffs"@)
                &&& c.offset is Some <==> camera.field("T_cam_imu"@) is Some
                &&& c.offset matches Some(offset) ==> (offset matches CameraOffset::FromBody(m) && pose_entry(
                    camera.field("T_cam_imu"@)->0,
                    true,
                    1,
                    2,
                ) == Some(m@[1]@[2]))
            }
        },
{
}

} // verus!
