//! The calibration of the first camera.
use echo_li::dataserver::calibration::{
    load_camchain, load_config, load_config_files, load_sensor, read_pose, Calibration, CalibrationError, CameraOffset,
};
use echo_li::dataserver::yaml::{parse_yaml, Node};
use echo_li::ieee::Real64;
use nalgebra::{Isometry3, Matrix4, Rotation3, Translation3, UnitQuaternion};

fn f(x: Real64) -> f64 {
    f64::from_bits(x.bits)
}

fn parse(text: &str) -> Node {
    parse_yaml(text.as_bytes()).unwrap()
}

fn matrix(rows: &[[Real64; 4]; 4]) -> Matrix4<f64> {
    Matrix4::from_fn(|i, j| f(rows[i][j]))
}

fn isometry(m: &Matrix4<f64>) -> Isometry3<f64> {
    let rotation = Rotation3::from_matrix(&m.fixed_view::<3, 3>(0, 0).into_owned());
    let t = m.fixed_view::<3, 1>(0, 3).into_owned();
    Isometry3::from_parts(Translation3::from(t), UnitQuaternion::from_rotation_matrix(&rotation))
}

fn camera_offset(c: &Calibration) -> Option<Isometry3<f64>> {
    c.offset.map(|offset| match offset {
        CameraOffset::OnBody(m) => isometry(&matrix(&m)),
        CameraOffset::FromBody(m) => isometry(&matrix(&m)).inverse(),
    })
}

const CHAIN: &str = "cam0:\n  \
    T_cam_imu:\n  \
    - [1.0, 0.0, 0.0, 0.1]\n  \
    - [0.0, 1.0, 0.0, 0.2]\n  \
    - [0.0, 0.0, 1.0, 0.3]\n  \
    - [0.0, 0.0, 0.0, 1.0]\n  \
    camera_model: pinhole\n  \
    distortion_coeffs: [0.0034, 0.0007, -0.0020, 0.0002]\n  \
    distortion_model: equidistant\n  \
    intrinsics: [190.97, 190.97, 254.93, 256.89]\n  \
    resolution: [512, 512]\n";

const SENSOR: &str = "intrinsics: [458.5, 457.25, 367, 248]\n\
    resolution: [752, 480]\n\
    distortion_model: radial-tangential\n\
    distortion_coefficients: [-0.5, none, 0.25]\n\
    T_BS:\n  \
      data: [1, 0, 0, 4, 0, 1, 0, 5, 0, 0, 1, 6, 0, 0, 0, 1]\n";

#[test]
fn loads_tumvi_camchain_when_no_sensor_yaml() {
    let read = load_config_files(None, Some(CHAIN.as_bytes())).unwrap();
    let intr = read.camera.as_ref().expect("camchain intrinsics loaded");
    assert_eq!(intr.width, 512);
    assert_eq!(intr.camera_model.as_deref(), Some("pinhole"));
    assert_eq!(intr.distortion_model.as_deref(), Some("equidistant"));
    assert_eq!(intr.distortion_coefficients.as_ref().unwrap().len(), 4);
    assert!((f(intr.fx) - 190.97).abs() < 1e-6);

    // camera_offset = inverse(T_cam_imu); with identity rotation, t -> -t.
    let ext = camera_offset(&read).expect("camchain extrinsics loaded");
    assert!((ext.translation.x + 0.1).abs() < 1e-9);
    assert!((ext.translation.z + 0.3).abs() < 1e-9);
}

#[test]
fn a_sensor_file_describes_its_camera() {
    let read = load_sensor(&parse(SENSOR)).unwrap();
    let camera = read.camera.as_ref().unwrap();
    assert_eq!((camera.width, camera.height), (752, 480));
    assert_eq!([camera.fx, camera.fy, camera.cx, camera.cy].map(f), [458.5, 457.25, 367.0, 248.0]);
    assert_eq!(camera.camera_model, None);
    assert_eq!(camera.distortion_model.as_deref(), Some("radial-tangential"));
    let coefficients: Vec<f64> = camera.distortion_coefficients.as_ref().unwrap().iter().map(|x| f(*x)).collect();
    assert_eq!(coefficients, vec![-0.5, 0.25]);
    let offset = camera_offset(&read).unwrap();
    assert_eq!(offset.translation, Translation3::new(4.0, 5.0, 6.0));
    assert!(matches!(read.offset, Some(CameraOffset::OnBody(_))));
}

#[test]
fn the_camera_s_own_file_comes_first() {
    let (sensor, chain) = (parse(SENSOR), parse(CHAIN));
    let read = load_config(Some(&sensor), Some(&chain)).unwrap();
    assert_eq!(read.camera.unwrap().width, 752);
    let broken = parse("cam0: {intrinsics: [], resolution: []}");
    assert!(load_config(Some(&sensor), Some(&broken)).is_ok());
    assert_eq!(load_config(None, Some(&broken)).unwrap_err(), CalibrationError::Resolution);
    let nothing = load_config(None, None).unwrap();
    assert!(nothing.camera.is_none() && nothing.offset.is_none());
}

#[test]
fn a_chain_completes_a_file_without_intrinsics() {
    let sensor = parse("T_BS: {data: [1, 0, 0, 7, 0, 1, 0, 8, 0, 0, 1, 9, 0, 0, 0, 1]}");
    let read = load_config(Some(&sensor), Some(&parse(CHAIN))).unwrap();
    assert_eq!(read.camera.as_ref().unwrap().height, 512);
    assert!((camera_offset(&read).unwrap().translation.x + 0.1).abs() < 1e-9);
    let bare = parse("cam0: {intrinsics: [1, 2, 3, 4], resolution: [5, 6]}");
    let read = load_config(Some(&sensor), Some(&bare)).unwrap();
    assert_eq!(read.camera.as_ref().unwrap().height, 6);
    assert_eq!(camera_offset(&read).unwrap().translation.x, 7.0);
    let unusable = parse("cam0: {intrinsics: [1, 2, 3, 4]}");
    assert!(load_camchain(&unusable).unwrap().is_none());
    assert!(load_camchain(&parse("cam1: {}")).unwrap().is_none());
    let read = load_config(Some(&sensor), Some(&unusable)).unwrap();
    assert!(read.camera.is_none());
    assert_eq!(camera_offset(&read).unwrap().translation.z, 9.0);
}

#[test]
fn an_incomplete_calibration_is_named() {
    let of = |text: &str| load_sensor(&parse(text)).unwrap_err();
    assert_eq!(of("{intrinsics: [1, 2, 3, 4]}"), CalibrationError::Resolution);
    assert_eq!(of("{intrinsics: [1, 2, 3, 4], resolution: [640.5, 480]}"), CalibrationError::Resolution);
    assert_eq!(of("{intrinsics: [1, 2, 3], resolution: [640, 480]}"), CalibrationError::Intrinsics);
    assert_eq!(of("{intrinsics: [1, 2, 3, x], resolution: [640, 480]}"), CalibrationError::Intrinsics);
    assert_eq!(of("{T_BS: {data: [1, 0, 0]}}"), CalibrationError::Pose);
    assert_eq!(of("{T_BS: {}}"), CalibrationError::Pose);
    let chain = parse("cam0: {intrinsics: [1, 2, 3, 4], resolution: [5, 6], T_cam_imu: [[1]]}");
    assert_eq!(load_camchain(&chain).unwrap_err(), CalibrationError::Pose);
    assert_eq!(CalibrationError::Syntax.message(), "calibration that cannot be parsed");
    assert_eq!(CalibrationError::Resolution.message(), "calibration without a resolution");
    assert_eq!(CalibrationError::Intrinsics.message(), "calibration without four intrinsics");
    assert_eq!(CalibrationError::Pose.message(), "calibration with an incomplete pose");
}

#[test]
fn a_table_with_numbers_is_read_like_a_list() {
    let file = parse("{intrinsics: {0: 1, 1: 2, 2: 3, 3: 4, x: 9}, resolution: {1: 480, 0: 640}}");
    let camera = load_sensor(&file).unwrap().camera.unwrap();
    assert_eq!((camera.width, camera.height), (640, 480));
    assert_eq!([camera.fx, camera.fy, camera.cx, camera.cy].map(f), [1.0, 2.0, 3.0, 4.0]);
    let named = parse("{intrinsics: {'0': 1, '1': 2, '2': 3, '3': 4}, resolution: [640, 480]}");
    assert_eq!(load_sensor(&named).unwrap_err(), CalibrationError::Intrinsics);
}

#[test]
fn a_pose_is_read_in_both_its_forms() {
    let flat = parse("data: [0, 1, 2, 3, 4, 5, 6, 7, 8, 9, 10, 11, 12, 13, 14, 15]");
    let rows = parse("[[0, 1, 2, 3], [4, 5, 6, 7], [8, 9, 10, 11], [12, 13, 14, 15]]");
    let (a, b) = (read_pose(&flat, false).unwrap(), read_pose(&rows, true).unwrap());
    assert_eq!(matrix(&a), matrix(&b));
    assert_eq!(f(a[2][1]), 9.0);
    assert!(read_pose(&flat, true).is_none());
    assert!(read_pose(&rows, false).is_none());
}

#[test]
fn bytes_become_values() {
    let node = parse("{a: 1, b: -2, c: 2.5, d: text, e: [true, null], 7: x, f: !unit 3}");
    let number = |key: &str| node.get(key).and_then(|n| n.as_number()).map(f);
    let whole = |key: &str| node.get(key).and_then(|n| n.as_whole());
    assert_eq!((number("a"), whole("a")), (Some(1.0), Some(1)));
    assert_eq!((number("b"), whole("b")), (Some(-2.0), None));
    assert_eq!((number("c"), whole("c")), (Some(2.5), None));
    assert_eq!((number("d"), whole("d")), (None, None));
    assert_eq!(node.get("d").unwrap().as_text().as_deref(), Some("text"));
    assert!(matches!(node.get("e").unwrap().at(0), Some(Node::Flag(true))));
    assert!(matches!(node.get("e").unwrap().at(1), Some(Node::Null)));
    assert!(node.get("e").unwrap().at(2).is_none());
    assert_eq!(node.at(7).unwrap().as_text().as_deref(), Some("x"));
    assert!(node.get("7").is_none() && node.get("g").is_none());
    match node.get("f").unwrap() {
        Node::Tagged(tag, value) => assert_eq!((tag.as_str(), value.as_whole()), ("!unit", Some(3))),
        _ => panic!("a tag is kept"),
    }
    assert_eq!(number("f"), Some(3.0));
    for text in ["{", "a: b: c", "x: [1, 2"] {
        assert!(parse_yaml(text.as_bytes()).is_none());
    }
    assert!(parse_yaml(&[0xff, 0xfe, 0x41]).is_none());
}

#[test]
fn tags_are_looked_through() {
    let file = parse("{intrinsics: !k [!x 1, 2, 3, 4], resolution: !size [640, !h 480], camera_model: !m pinhole,
        distortion_coefficients: !d [!c 0.5, no, 0.25]}");
    let camera = load_sensor(&file).unwrap().camera.unwrap();
    assert_eq!((camera.width, camera.height, f(camera.fx)), (640, 480, 1.0));
    assert_eq!(camera.camera_model.as_deref(), Some("pinhole"));
    let coefficients: Vec<f64> = camera.distortion_coefficients.unwrap().into_iter().map(f).collect();
    assert_eq!(coefficients, vec![0.5, 0.25]);
    // A key with a tag is another key.
    assert!(load_sensor(&parse("{!t intrinsics: [1]}")).unwrap().camera.is_none());
}

#[test]
fn only_the_camera_s_own_file_must_be_readable() {
    let broken: &[u8] = b"{";
    assert_eq!(load_config_files(Some(broken), None).unwrap_err(), CalibrationError::Syntax);
    assert_eq!(load_config_files(Some(broken), Some(CHAIN.as_bytes())).unwrap_err(), CalibrationError::Syntax);
    let nothing = load_config_files(None, Some(broken)).unwrap();
    assert!(nothing.camera.is_none() && nothing.offset.is_none());
    let own = load_config_files(Some(SENSOR.as_bytes()), Some(broken)).unwrap();
    assert_eq!(own.camera.unwrap().width, 752);
    let chained = load_config_files(Some(b"{}"), Some(CHAIN.as_bytes())).unwrap();
    assert_eq!(chained.camera.unwrap().width, 512);
    assert_eq!(
        load_config_files(Some(b"{intrinsics: [1, 2, 3, 4]}"), None).unwrap_err(),
        CalibrationError::Resolution
    );
}
