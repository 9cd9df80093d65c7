//! Numbers by their bits against ordinary floating point, and the small shared types.
use echo_li::cli::priors::{least_forward, least_range_variance};
use echo_li::cli::vis::{nearest_shown, scale_middle};
use echo_li::config::{default_epipolar_max_reject_frac, default_epipolar_min_baseline};
use echo_li::coordinate_suite::euclid::{least_range_squared, least_scale};
use echo_li::coordinate_suite::invdepth::{least_distance, least_inverse_depth};
use echo_li::coordinate_suite::normal::small_angle;
use echo_li::coordinate_suite::pole_limit;
use echo_li::core_types::{
    CameraIntrinsics, CameraPose, DepthMap, DepthMapError, FeatureTrack, Pixel,
};
use echo_li::depth::flowdep::{critical_variance, least_splat_weight, no_stamp};
use echo_li::depth::flowdep_kernels::{
    gaussian_reach, largest_share, least_cosine, least_depth, least_factor, least_product, least_variance,
    least_variance_rounded, least_weight, no_depth,
};
use echo_li::depth::patch_depth::fuse::{infinity32, nan32};
use echo_li::depth::patch_depth::geometry::{least_divisor, least_length_squared, nearest_depth, nearest_to_tile};
use echo_li::depth::patch_depth::residual::{least_motion, negligible_warp};
use echo_li::depth::patch_depth::solve::{infinity64, least_curvature, no_residual};
use echo_li::ieee::{one64, real32, real64, zero32, zero64, Real32, Real64};
use echo_li::layout::sample_count;
use echo_li::ordering::{sort_by_id, sort_numbers};
use echo_li::text::{is_named, same_text};

fn r(x: f64) -> Real64 {
    real64(x.to_bits())
}

fn s(x: f32) -> Real32 {
    real32(x.to_bits())
}

fn f(x: Real64) -> f64 {
    f64::from_bits(x.bits)
}

fn samples() -> Vec<f64> {
    vec![
        0.0,
        -0.0,
        f64::MIN_POSITIVE,
        -f64::MIN_POSITIVE,
        5e-324,
        -5e-324,
        0.25,
        0.5,
        0.999_999_999,
        1.0,
        1.5,
        -0.5,
        -1.0,
        -1.5,
        2.0,
        3.75,
        -3.75,
        1e6,
        -1e6,
        4503599627370495.5,
        9007199254740992.0,
        9.3e18,
        -9.3e18,
        1.7e19,
        1e300,
        -1e300,
        f64::INFINITY,
        f64::NEG_INFINITY,
        f64::NAN,
        -f64::NAN,
    ]
}

#[test]
fn comparisons_agree_with_floating_point() {
    for a in samples() {
        for b in samples() {
            assert_eq!(r(a).less(r(b)), a < b, "{} < {}", a, b);
            assert_eq!(r(a).at_most(r(b)), a <= b, "{} <= {}", a, b);
            assert_eq!(r(a).equals(r(b)), a == b, "{} == {}", a, b);
            assert_eq!(r(a) == r(b), a == b, "{} == {}", a, b);
            assert_eq!(s(a as f32) == s(b as f32), a as f32 == b as f32, "{} == {}", a, b);
            assert_eq!(s(a as f32).equals(s(b as f32)), a as f32 == b as f32, "{} == {}", a, b);
            assert_eq!(r(a).total_less(r(b)), a.total_cmp(&b).is_lt(), "{} {}", a, b);
            let (x, y) = (a as f32, b as f32);
            assert_eq!(s(x).less(s(y)), x < y);
            assert_eq!(s(x).at_most(s(y)), x <= y);
        }
    }
}

#[test]
fn classes_agree_with_floating_point() {
    for a in samples() {
        assert_eq!(r(a).is_nan(), a.is_nan());
        assert_eq!(r(a).is_finite(), a.is_finite());
        assert_eq!(r(a).neg().bits, (-a).to_bits());
        let x = a as f32;
        assert_eq!(s(x).is_nan(), x.is_nan());
        assert_eq!(s(x).is_finite(), x.is_finite());
    }
}

#[test]
fn integers_agree_with_floating_point() {
    for a in samples() {
        assert_eq!(r(a).floor_to_i64(), a.floor() as i64, "floor of {}", a);
        assert_eq!(r(a).trunc_to_i64(), a as i64, "truncation of {}", a);
        assert_eq!(r(a).trunc_to_usize(), a as usize, "size of {}", a);
        for n in [-1_000_000i64, -4, -3, -1, 0, 1, 2, 3, 4, 1_000_000, 1 << 53] {
            assert_eq!(r(a).less_than_int(n), a < n as f64, "{} < {}", a, n);
            assert_eq!(r(a).at_least_int(n), a >= n as f64, "{} >= {}", a, n);
        }
    }
}

#[test]
fn clamping_agrees_with_floating_point() {
    for a in samples() {
        assert_eq!(r(a).clamp(r(-1.0), r(2.0)).bits, a.clamp(-1.0, 2.0).to_bits());
        let x = a as f32;
        assert_eq!(s(x).clamp(s(-4.0), s(4.0)).bits, x.clamp(-4.0, 4.0).to_bits());
    }
}

#[test]
fn named_numbers_are_what_they_say() {
    assert_eq!(f(zero64()), 0.0);
    assert_eq!(f(one64()), 1.0);
    assert_eq!(f32::from_bits(zero32().bits), 0.0);
}

#[test]
fn sorting_orders_every_number() {
    let numbers: Vec<Real64> = samples().into_iter().map(r).collect();
    let mut expected = samples();
    expected.sort_by(|a, b| a.total_cmp(b));
    let sorted: Vec<u64> = sort_numbers(&numbers).iter().map(|x| x.bits).collect();
    let wanted: Vec<u64> = expected.iter().map(|x| x.to_bits()).collect();
    assert_eq!(sorted, wanted);
    assert_eq!(sort_by_id(&[5u64, 1, 3, 1]), vec![1, 1, 3, 5]);
    assert!(sort_numbers(&[]).is_empty());
}

#[test]
fn names_ignore_case_and_texts_do_not() {
    assert!(is_named("Rho3D", "rho3d"));
    assert!(is_named("RHO", "rho"));
    assert!(!is_named("rho", "rho3d"));
    assert!(!is_named("r\u{f6}", "ro"));
    assert!(same_text("clahe", "clahe"));
    assert!(!same_text("Clahe", "clahe"));
}

#[test]
fn a_stride_samples_the_first_of_each_step() {
    assert_eq!(sample_count(10, 4), 3);
    assert_eq!(sample_count(8, 4), 2);
    assert_eq!(sample_count(0, 4), 0);
    assert_eq!(sample_count(1, 4), 1);
}

#[test]
fn a_camera_is_read_back_from_its_matrix() {
    let camera = CameraIntrinsics::new(r(458.0), r(457.0), r(367.0), r(248.0));
    let k = camera.matrix();
    assert_eq!(k[0].map(f), [458.0, 0.0, 367.0]);
    assert_eq!(k[1].map(f), [0.0, 457.0, 248.0]);
    assert_eq!(k[2].map(f), [0.0, 0.0, 1.0]);
    assert_eq!(CameraIntrinsics::from_matrix(&k), camera);
}

#[test]
fn the_identity_pose_has_ones_on_the_diagonal() {
    let pose = CameraPose::identity();
    for i in 0..4 {
        for j in 0..4 {
            assert_eq!(f(pose.t_wc[i][j]), if i == j { 1.0 } else { 0.0 });
        }
    }
    assert_eq!(CameraPose::new(pose.t_wc).t_wc, pose.t_wc);
}

#[test]
fn a_track_grows_by_its_observations() {
    let mut track = FeatureTrack::new(7);
    assert!(track.is_empty());
    track.push(Pixel { u: r(1.0), v: r(2.0) }, r(0.5));
    track.push(Pixel { u: r(3.0), v: r(4.0) }, r(0.6));
    assert_eq!(track.len(), 2);
    assert!(!track.is_empty());
    assert_eq!(track.id, 7);
    assert_eq!(track.observations[1].id, 7);
    assert_eq!(f(track.observations[1].uv.u), 3.0);
    assert_eq!(f(track.observations[0].stamp), 0.5);
}

#[test]
fn a_map_gives_back_what_was_written() {
    let mut map = DepthMap::new(3, 2, 0u8);
    assert_eq!(map.get(2, 1), Some(&0));
    assert_eq!(map.get(3, 0), None);
    assert_eq!(map.get(0, 2), None);
    *map.get_mut(2, 1).unwrap() = 9;
    assert_eq!(map.get(2, 1), Some(&9));
    assert_eq!(map.get(1, 1), Some(&0));
    assert_eq!(map.data, vec![0, 0, 0, 0, 0, 9]);
    assert!(map.get_mut(3, 1).is_none());
}

#[test]
fn a_map_needs_one_value_per_cell() {
    assert_eq!(DepthMap::from_vec(2, 2, vec![1, 2, 3, 4]).unwrap().get(1, 1), Some(&4));
    assert_eq!(DepthMap::from_vec(2, 2, vec![1, 2, 3]).err(), Some(DepthMapError::SizeMismatch));
    assert!(!DepthMapError::SizeMismatch.message().is_empty());
}

#[test]
fn thresholds_are_the_numbers_they_stand_for() {
    let doubles = [
        (least_range_variance(), 1e-4),
        (least_forward(), 1e-12),
        (nearest_shown(), 1e-6),
        (scale_middle(), 0.5),
        (default_epipolar_min_baseline(), 1e-3),
        (default_epipolar_max_reject_frac(), 0.5),
        (least_range_squared(), 1e-20),
        (least_scale(), 1e-12),
        (least_distance(), 1e-10),
        (least_inverse_depth(), 1e-6),
        (small_angle(), 1e-8),
        (pole_limit(), 1e-12),
        (no_stamp(), -1.0),
        (gaussian_reach(), 100.0),
        (largest_share(), 1.0 - 1e-6),
        (least_cosine(), 0.95),
        (least_depth(), 0.1),
        (least_factor(), 0.5),
        (least_product(), 1e-6),
        (least_variance(), 1e-8),
        (least_weight(), 1e-30),
        (least_length_squared(), 1e-18),
        (nearest_depth(), 1e-6),
        (nearest_to_tile(), 1e-9),
        (least_divisor(), 1e-12),
        (least_motion(), 1e-8),
        (negligible_warp(), 1e-18),
        (least_curvature(), 1e-12),
        (no_residual(), 1e10),
        (infinity64(), f64::INFINITY),
        (zero64(), 0.0),
        (one64(), 1.0),
    ];
    for (held, meant) in doubles {
        assert_eq!(held.bits, meant.to_bits(), "{}", meant);
    }
    let singles = [
        (critical_variance(), 3.0f32),
        (least_splat_weight(), 1e-6),
        (least_variance_rounded(), 1e-8),
        (no_depth(), -1.0),
        (infinity32(), f32::INFINITY),
        (zero32(), 0.0),
    ];
    for (held, meant) in singles {
        assert_eq!(held.bits, meant.to_bits(), "{}", meant);
    }
    assert!(f32::from_bits(nan32().bits).is_nan());
}

#[test]
fn values_are_equal_as_numbers() {
    let camera = CameraIntrinsics::new(r(1.0), r(2.0), r(0.0), r(4.0));
    assert_eq!(camera, CameraIntrinsics::new(r(1.0), r(2.0), r(-0.0), r(4.0)));
    assert_ne!(camera, CameraIntrinsics::new(r(1.0), r(2.0), r(0.5), r(4.0)));
    let odd = CameraIntrinsics::new(r(f64::NAN), r(2.0), r(0.0), r(4.0));
    assert_ne!(odd, odd);
    let mut turned = CameraPose::identity();
    turned.t_wc[0][1] = r(-0.0);
    assert_eq!(turned, CameraPose::identity());
    turned.t_wc[0][1] = r(0.1);
    assert_ne!(turned, CameraPose::identity());
    let map = DepthMap::new(2, 1, s(0.0));
    assert_eq!(map, DepthMap::from_vec(2, 1, vec![s(0.0), s(-0.0)]).unwrap());
    assert_ne!(map, DepthMap::new(1, 2, s(0.0)));
    let unknown = DepthMap::new(1, 1, s(f32::NAN));
    assert_ne!(unknown, unknown.clone());
    let mut track = FeatureTrack::default();
    assert_eq!(track, FeatureTrack::new(0));
    assert!(track.is_empty());
    track.push(Pixel { u: r(0.0), v: r(1.0) }, r(2.0));
    let mut other = FeatureTrack::new(0);
    assert_ne!(track, other);
    other.push(Pixel { u: r(-0.0), v: r(1.0) }, r(2.0));
    assert_eq!(track, other);
}
