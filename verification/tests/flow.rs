//! Depth from optical flow, the pool of reference frames, trajectories and recorded data.
use echo_li::alignment::{
    align_trajectories, match_trajectories, reflection_sign, Alignment, MatchedPair,
};
use echo_li::dataserver::asl_dataset::{
    image_fields, imu_fields, is_white, pose_fields, split_fields, trimmed, Field,
};
use echo_li::depth::flowdep::{finish_prediction, is_carried, stays_visible, FlowDepFilter, FlowReference};
use echo_li::depth::flowdep_kernels::{
    depth_densification, fuse_pixel, gaussian_density, limits_counts, matched_factor, splat_cells, vogiatzis_update, BetaCounts,
    FusionSettings, FusionTerms, PixelState, PixelTriangulation, Rounded,
};
use echo_li::depth::keyframe_pool::KeyframePool;
use echo_li::ieee::{real32, real64, Real32, Real64};

fn r(x: f64) -> Real64 {
    real64(x.to_bits())
}

fn s(x: f32) -> Real32 {
    real32(x.to_bits())
}

fn f(x: Real64) -> f64 {
    f64::from_bits(x.bits)
}

fn g(x: Real32) -> f32 {
    f32::from_bits(x.bits)
}

fn both(x: f64) -> Rounded {
    Rounded { exact: r(x), rounded: s(x as f32) }
}

fn pose(tx: f64) -> [[Real64; 4]; 4] {
    let (o, l) = (r(0.0), r(1.0));
    [[l, o, o, r(tx)], [o, l, o, o], [o, o, l, o], [o, o, o, l]]
}

#[test]
fn a_full_pool_loses_its_oldest_frame() {
    let mut pool = KeyframePool::new(2);
    assert!(pool.is_empty());
    for k in 0..3 {
        pool.add_keyframe(vec![k as u8], 1, 1, pose(k as f64), r(k as f64));
    }
    let held: Vec<f64> = pool.poses().iter().map(|p| f(p[0][3])).collect();
    assert_eq!(held, vec![1.0, 2.0]);
    assert_eq!(f(pool.select_best(&[r(0.2), r(0.2)]).unwrap().stamp), 1.0);
    assert_eq!(f(pool.select_best(&[r(0.2), r(0.3)]).unwrap().stamp), 2.0);
    assert!(pool.select_best(&[r(0.0), r(f64::NAN)]).is_none());
    pool.remove_keyframe(r(1.0));
    let held: Vec<f64> = pool.poses().iter().map(|p| f(p[0][3])).collect();
    assert_eq!(held, vec![2.0]);
}

fn triangulated() -> PixelTriangulation {
    PixelTriangulation {
        u_prev: r(1.0),
        v_prev: r(1.0),
        forward: r(1.0),
        ideal: r(0.5),
        ideal_rounded: s(0.5),
        observed: r(0.25),
        product: r(0.125),
        cosine: r(1.0),
        depth: r(2.0),
        inverse_rounded: s(0.5),
    }
}

#[test]
fn only_agreeing_displacements_give_a_depth() {
    let good = triangulated();
    let pixels = [
        good,
        PixelTriangulation { u_prev: r(4.0), ..good },
        PixelTriangulation { v_prev: r(-0.5), ..good },
        PixelTriangulation { forward: r(1e-6), ..good },
        PixelTriangulation { observed: r(0.0), ..good },
        PixelTriangulation { cosine: r(0.95), ..good },
        PixelTriangulation { depth: r(0.1), ..good },
        PixelTriangulation { product: r(f64::NAN), ..good },
    ];
    let (depths, drives) = depth_densification(&pixels, 3, 4);
    let depths: Vec<f32> = depths.into_iter().map(g).collect();
    let drives: Vec<f32> = drives.into_iter().map(g).collect();
    assert_eq!(depths, vec![0.5, -1.0, -1.0, -1.0, -1.0, -1.0, -1.0, -1.0]);
    assert_eq!(drives, vec![0.5, 0.0, 0.0, 0.0, 0.0, 0.5, 0.5, 0.5]);
}

#[test]
fn a_point_is_splatted_to_four_cells() {
    let cells = splat_cells(r(1.25), r(0.5), 3, 4).unwrap();
    assert_eq!((cells.u, cells.v), (1, 0));
    assert_eq!(
        (cells.upper_left, cells.upper_right, cells.lower_left, cells.lower_right),
        (1, 2, 5, 6)
    );
    assert!(splat_cells(r(3.0), r(0.5), 3, 4).is_none());
    assert!(splat_cells(r(-0.1), r(0.5), 3, 4).is_none());
    assert!(splat_cells(r(0.0), r(2.0), 3, 4).is_none());
}

#[test]
fn limits_of_the_fusion_are_exact() {
    assert_eq!(f(gaussian_density(r(1.0), r(0.3))), 0.3);
    assert_eq!(f(gaussian_density(r(1e9), r(0.3))), 0.0);
    assert_eq!(f(matched_factor(r(5.0))), 5.0);
    assert_eq!(g(both(7.0).limit(both(1.0), both(5.0))), 5.0);
    assert_eq!(g(both(0.5).limit(both(1.0), both(5.0))), 1.0);
    assert_eq!(g(both(2.0).limit(both(1.0), both(5.0))), 2.0);
    assert_eq!(g(both(0.5).to_variance()), 0.5);
    assert!(g(both(0.0).to_variance()) > 0.0);
}

fn fusion_settings() -> FusionSettings {
    FusionSettings {
        init_var: s(1.0),
        a_init: s(10.0),
        b_init: s(10.0),
        ab_min: both(1.0),
        ab_max: both(100.0),
        min_inlier_ratio: r(0.2),
        mahal_reset_chi2: r(9.0),
    }
}

fn fusion_terms() -> FusionTerms {
    let counts = |a: f64, b: f64| BetaCounts { a: both(a), b: both(b) };
    FusionTerms {
        count_sum: r(20.0),
        inlier_share: r(0.5),
        distance: r(1.0),
        observed_var: s(0.3),
        total_weight: r(1.0),
        unexplained: counts(10.0, 11.0),
        mean: s(0.45),
        variance: both(0.05),
        expected_share: r(0.5),
        share_variance: r(0.01),
        counted: counts(12.0, 13.0),
        matched: counts(14.0, 150.0),
    }
}

fn state(invdepth: f32, var: f32, a: f32, b: f32) -> PixelState {
    PixelState { invdepth: s(invdepth), var: s(var), a: s(a), b: s(b) }
}

#[test]
fn a_pixel_is_fused_by_what_is_known_of_it() {
    let settings = fusion_settings();
    let terms = fusion_terms();
    let seen = state(0.4, 0.1, 10.0, 10.0);
    let unseen = state(-1.0, 1.0, 10.0, 10.0);
    let fuse = |p: PixelState, o: f32, t: &FusionTerms| fuse_pixel(p, s(o), t, &settings);
    assert_eq!(fuse(seen, 0.5, &terms), state(0.45, 0.05, 14.0, 100.0));
    assert_eq!(fuse(seen, -1.0, &terms), seen);
    assert_eq!(fuse(unseen, 0.5, &terms), state(0.5, 1.0, 10.0, 10.0));
    assert_eq!(fuse(unseen, -1.0, &terms), unseen);
    let moved = FusionTerms { inlier_share: r(0.1), distance: r(10.0), ..terms };
    assert_eq!(fuse(seen, 0.5, &moved), state(0.5, 0.3, 10.0, 10.0));
    let unexplained = FusionTerms { total_weight: r(0.0), ..terms };
    assert_eq!(fuse(seen, 0.5, &unexplained), state(0.4, 0.1, 10.0, 11.0));
    let degenerate = FusionTerms { share_variance: r(0.0), ..terms };
    assert_eq!(fuse(seen, 0.5, &degenerate), state(0.45, 0.05, 12.0, 13.0));
    let all = vogiatzis_update(&[seen, unseen], &[s(0.5), s(0.5)], &[terms, terms], &settings);
    assert_eq!(all, vec![state(0.45, 0.05, 14.0, 100.0), state(0.5, 1.0, 10.0, 10.0)]);
}

#[test]
fn an_unreached_pixel_is_unknown() {
    let settings = fusion_settings();
    let mean = state(0.4, 0.1, 10.0, 10.0);
    let out = finish_prediction(&[s(0.5), s(0.0)], &[mean, mean], &settings);
    assert_eq!(out, vec![mean, state(-1.0, 1.0, 10.0, 10.0)]);
    assert!(is_carried(&mean));
    assert!(!is_carried(&state(0.4, 3.0, 1.0, 1.0)));
    assert!(!is_carried(&state(0.0, 0.1, 1.0, 1.0)));
}

#[test]
fn counts_stay_within_their_limits() {
    let settings = fusion_settings();
    let counts = |a: f64, b: f64| BetaCounts { a: both(a), b: both(b) };
    for (a, b) in [(0.1, 1e9), (1.0, 100.0), (f64::INFINITY, 0.0), (33.0, -5.0)] {
        let terms = FusionTerms { matched: counts(a, b), ..fusion_terms() };
        let fused = fuse_pixel(state(0.4, 0.1, 10.0, 10.0), s(0.5), &terms, &settings);
        assert!((1.0..=100.0).contains(&g(fused.a)) && (1.0..=100.0).contains(&g(fused.b)));
    }
    // Limits in the wrong order do not matter where no count is limited.
    let crossed = FusionSettings { ab_min: both(100.0), ab_max: both(1.0), ..settings };
    let (seen, unseen) = (state(0.4, 0.1, 10.0, 10.0), state(-1.0, 1.0, 10.0, 10.0));
    assert!(limits_counts(seen, s(0.5), &fusion_terms(), &crossed));
    assert!(!limits_counts(seen, s(-1.0), &fusion_terms(), &crossed));
    assert!(!limits_counts(unseen, s(0.5), &fusion_terms(), &crossed));
    assert_eq!(fuse_pixel(seen, s(-1.0), &fusion_terms(), &crossed), seen);
    let mut filter = FlowDepFilter::new(crossed, 2, 1);
    filter.begin_frame(vec![1, 2], pose(0.0), r(0.5), &[]);
    assert_eq!(filter.reference_poses().len(), 1);
}

#[test]
fn the_flow_filter_starts_from_its_first_pair() {
    let mut filter = FlowDepFilter::new(fusion_settings(), 2, 1);
    assert_eq!(f(filter.last_stamp()), -1.0);
    assert!(filter.state().is_none());
    let first = filter.begin_frame(vec![1, 2], pose(0.0), r(0.5), &[]);
    assert!(matches!(first, FlowReference::Nothing));
    assert_eq!(f(filter.last_stamp()), 0.5);
    assert_eq!(filter.reference_poses().len(), 1);

    let second = filter.begin_frame(vec![3, 4], pose(0.1), r(1.0), &[r(0.1)]);
    match second {
        FlowReference::Kept(frame) => assert_eq!(frame.gray, vec![1, 2]),
        _ => panic!("the first frame is a reference"),
    }
    filter.finish_frame(vec![3, 4], pose(0.1), r(1.0), &[s(0.5), s(-1.0)], &[s(0.2), s(0.2)], &[], &[]);
    assert_eq!(f(filter.last_stamp()), 1.0);
    assert_eq!(
        filter.state().unwrap(),
        &vec![state(0.5, 0.2, 10.0, 10.0), state(-1.0, 1.0, 10.0, 10.0)]
    );

    let third = filter.begin_frame(vec![5, 6], pose(0.1), r(1.5), &[r(0.0), r(0.0)]);
    match third {
        FlowReference::Previous(frame) => assert_eq!(frame.gray, vec![3, 4]),
        _ => panic!("without a baseline the frame before is taken"),
    }
    let seen = state(0.4, 0.1, 10.0, 10.0);
    filter.finish_frame(
        vec![5, 6],
        pose(0.1),
        r(1.5),
        &[s(0.5), s(0.5)],
        &[s(0.2), s(0.2)],
        &[seen, seen],
        &[fusion_terms(), fusion_terms()],
    );
    assert_eq!(filter.state().unwrap()[1], state(0.45, 0.05, 14.0, 100.0));
}

#[test]
fn every_later_frame_is_compared_with_one_of_the_last_five() {
    let mut filter = FlowDepFilter::new(fusion_settings(), 2, 1);
    for n in 0..9u8 {
        let held = filter.reference_poses().len();
        assert_eq!(held, (n as usize).min(5));
        // The second of the held frames is the farthest, where there are two; none in the last round.
        let baselines: Vec<Real64> = (0..held)
            .map(|k| r(if n == 8 { 0.0 } else if k == 1 || held == 1 { 2.0 } else { 1.0 }))
            .collect();
        let reference = filter.begin_frame(vec![n, n], pose(0.1), r(n as f64), &baselines);
        match reference {
            FlowReference::Nothing => assert_eq!(n, 0),
            FlowReference::Kept(frame) => {
                let oldest = n as usize - held;
                assert_eq!(frame.gray[0] as usize, if held == 1 { oldest } else { oldest + 1 });
            }
            FlowReference::Previous(frame) => assert_eq!((n, frame.gray[0]), (8, 7)),
        }
        if n > 0 {
            let seen = state(0.4, 0.1, 10.0, 10.0);
            filter.finish_frame(
                vec![n, n],
                pose(0.1),
                r(n as f64),
                &[s(0.5), s(0.5)],
                &[s(0.2), s(0.2)],
                &[seen, seen],
                &[fusion_terms(), fusion_terms()],
            );
        }
    }
}

#[test]
fn poses_are_matched_to_the_first_not_before() {
    let estimate = [r(0.0), r(1.0), r(2.0), r(3.0)];
    let reference = [r(0.5), r(1.5), r(2.5)];
    let pairs = match_trajectories(&estimate, &reference, &[r(0.5), r(1.0), r(2.0)], r(10.0));
    let expected = [(1, 0), (1, 1), (2, 2)].map(|(estimate, reference)| MatchedPair { estimate, reference });
    assert_eq!(pairs, expected.to_vec());
    let cut = match_trajectories(&estimate, &reference, &[r(0.5), r(1.0), r(2.0)], r(1.0));
    assert_eq!(cut.len(), 1);
    assert!(match_trajectories(&[], &reference, &[r(0.5)], r(10.0)).is_empty());
}

#[test]
fn few_matches_align_by_the_first_pose() {
    assert_eq!(align_trajectories(0, 5, 5), Alignment::Identity);
    assert_eq!(align_trajectories(5, 0, 5), Alignment::Identity);
    assert_eq!(align_trajectories(5, 5, 0), Alignment::Identity);
    assert_eq!(align_trajectories(500, 500, 99), Alignment::FirstPose);
    assert_eq!(align_trajectories(500, 500, 100), Alignment::AllPoses);
    assert_eq!(f(reflection_sign(r(-0.1))), -1.0);
    assert_eq!(f(reflection_sign(r(0.0))), 1.0);
}

fn text(line: &[char], field: Field) -> String {
    line[field.start..field.end].iter().collect()
}

#[test]
fn a_record_is_split_at_its_commas() {
    let line: Vec<char> = "1403,0.1,,0.3".chars().collect();
    let fields: Vec<String> = split_fields(&line).into_iter().map(|x| text(&line, x)).collect();
    assert_eq!(fields, vec!["1403", "0.1", "", "0.3"]);
    assert_eq!(split_fields(&[]).len(), 1);
    let short: Vec<char> = "1,2,3,4,5,6".chars().collect();
    assert!(imu_fields(&short).is_none());
    let full: Vec<char> = "1,2,3,4,5,6,7,8".chars().collect();
    let read = imu_fields(&full).unwrap().map(|x| text(&full, x));
    assert_eq!(read, ["1", "2", "3", "4", "5", "6", "7"]);
}

#[test]
fn a_reference_pose_has_eight_fields() {
    let line: Vec<char> = "14,1.5,-2,0.25,1,0,0,0,9,9".chars().collect();
    let read = pose_fields(&line).map(|x| text(&line, x));
    assert_eq!(read, ["14", "1.5", "-2", "0.25", "1", "0", "0", "0"]);
    let exact: Vec<char> = "1,2,3,4,5,6,7,8".chars().collect();
    assert_eq!(text(&exact, pose_fields(&exact)[7]), "8");
}

#[test]
fn the_name_of_an_image_is_trimmed() {
    let line: Vec<char> = "1403, 1403.png\r\n".chars().collect();
    let (stamp, name) = image_fields(&line);
    assert_eq!(text(&line, stamp), "1403");
    assert_eq!(text(&line, name), "1403.png");
    let blank: Vec<char> = "1, \t ".chars().collect();
    let (_, empty) = image_fields(&blank);
    assert_eq!(text(&blank, empty), "");
    let all = Field { start: 0, end: blank.len() };
    assert_eq!(text(&blank, trimmed(&blank, all)), "1,");
    for c in (0u32..0x3100).filter_map(char::from_u32) {
        assert_eq!(is_white(c), c.is_whitespace(), "{:?}", c);
    }
}

#[test]
fn a_carried_pixel_stays_before_the_camera() {
    assert!(stays_visible(r(0.11)) && !stays_visible(r(0.1)) && !stays_visible(r(f64::NAN)));
}
