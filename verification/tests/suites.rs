//! Where the entries of vectors and matrices of the error dynamics stand.
use echo_li::coordinate_suite::euclid::{
    is_usable_scale, CouplingVariant, EuclideanSuite, LandmarkBlocks, SemiDirectBlocks, SensorInput,
};
use echo_li::coordinate_suite::invdepth::{
    conv_euc2ind, conv_ind2euc, usable_inverse_depth, InvDepthSuite, InverseDepthBlocks,
};
use echo_li::coordinate_suite::matrix::BlockMatrix;
use echo_li::coordinate_suite::normal::{
    build_m_sensor, conv_euc2normal, conv_normal2euc, pole_turn, sphere_chart_normal, sphere_chart_normal_diff0,
    sphere_chart_normal_inv_diff0, NormalBlocks, NormalSuite,
};
use echo_li::coordinate_suite::{
    base_skew, columns_beside, e3_project_sphere, e3_project_sphere_diff, is_within, rows_above, StateError,
};
use echo_li::ieee::{real64, Real64};

fn r(x: f64) -> Real64 {
    real64(x.to_bits())
}

fn f(x: Real64) -> f64 {
    f64::from_bits(x.bits)
}

// Numbers that count up from `first`, row by row.
fn counted(rows: usize, cols: usize, first: f64) -> BlockMatrix {
    let data: Vec<Real64> = (0..rows * cols).map(|i| r(first + i as f64)).collect();
    BlockMatrix::from_rows(rows, cols, data).unwrap()
}

fn at(m: &BlockMatrix, i: usize, j: usize) -> f64 {
    f(m.get(i, j))
}

fn values(m: &BlockMatrix) -> Vec<f64> {
    m.to_rows().into_iter().map(f).collect()
}

#[test]
fn a_block_is_read_back_and_the_rest_stays() {
    let mut m = BlockMatrix::zeros(4, 5);
    m.set_block(1, 2, &counted(2, 2, 7.0));
    assert_eq!(values(&m.block(1, 2, 2, 2)), vec![7.0, 8.0, 9.0, 10.0]);
    assert_eq!(values(&m).iter().filter(|x| **x == 0.0).count(), 16);
    assert_eq!((m.row_count(), m.column_count()), (4, 5));
    m.set(0, 0, r(-1.0));
    assert_eq!(at(&m.negated(), 0, 0), 1.0);
    assert_eq!(values(&BlockMatrix::identity(2)), vec![1.0, 0.0, 0.0, 1.0]);
    assert_eq!(values(&BlockMatrix::filled(1, 2, r(3.0))), vec![3.0, 3.0]);
    assert!(BlockMatrix::from_rows(2, 2, vec![r(1.0)]).is_none());
}

#[test]
fn the_cross_product_matrix_is_antisymmetric() {
    let m = base_skew(&[r(1.0), r(2.0), r(3.0)]);
    assert_eq!(values(&m), vec![0.0, -3.0, 2.0, 3.0, 0.0, -1.0, -2.0, 1.0, 0.0]);
    for i in 0..3 {
        for j in 0..3 {
            assert_eq!(at(&m, i, j), -at(&m, j, i));
        }
    }
}

#[test]
fn the_projection_of_the_pole_is_the_origin() {
    let q = [r(0.5), r(-0.5)];
    assert_eq!(e3_project_sphere(r(0.2), q).map(f), [0.5, -0.5]);
    assert_eq!(e3_project_sphere(r(0.0), q).map(f), [0.0, 0.0]);
    assert_eq!(e3_project_sphere(r(-1e-13), q).map(f), [0.0, 0.0]);
    let slopes = [r(7.0), r(8.0)];
    assert_eq!(values(&e3_project_sphere_diff(r(0.5), r(2.0), &slopes)), vec![2.0, 0.0, 7.0, 0.0, 2.0, 8.0]);
    assert_eq!(values(&e3_project_sphere_diff(r(0.0), r(2.0), &slopes)), vec![0.0; 6]);
    assert!(is_within(r(0.5), r(1.0)));
    assert!(!is_within(r(-1.0), r(1.0)));
    assert!(!is_within(r(f64::NAN), r(1.0)));
}

#[test]
fn stacking_a_state_loses_nothing() {
    let numbers: Vec<Real64> = (0..27).map(|i| r(i as f64)).collect();
    let e = StateError::from_stacked(&numbers).unwrap();
    assert_eq!(f(e.pose[0]), 6.0);
    assert_eq!(f(e.velocity[2]), 14.0);
    assert_eq!(f(e.offset[5]), 20.0);
    assert_eq!(e.landmarks[1].map(f), [24.0, 25.0, 26.0]);
    assert_eq!(e.stacked(), numbers);
    assert!(StateError::from_stacked(&numbers[..26]).is_none());
    assert!(StateError::from_stacked(&numbers[..20]).is_none());
    assert!(StateError::from_stacked(&numbers[..21]).is_some());
}

#[test]
fn rows_and_columns_are_joined() {
    let m = rows_above(&counted(2, 3, 1.0), &[r(7.0), r(8.0), r(9.0)]);
    assert_eq!(values(&m), vec![1.0, 2.0, 3.0, 4.0, 5.0, 6.0, 7.0, 8.0, 9.0]);
    let m = columns_beside(&counted(3, 2, 1.0), &[r(7.0), r(8.0), r(9.0)]);
    assert_eq!(values(&m), vec![1.0, 2.0, 7.0, 3.0, 4.0, 8.0, 5.0, 6.0, 9.0]);
}

fn landmark(first: f64, range_squared: f64) -> LandmarkBlocks {
    LandmarkBlocks {
        range_squared: r(range_squared),
        scale: r(1.0),
        input: counted(3, 3, first),
        velocity: counted(3, 3, first + 10.0),
        offset: counted(3, 6, first + 20.0),
        own: counted(3, 3, first + 40.0),
    }
}

fn sensor() -> SensorInput {
    SensorInput {
        bias_noise: counted(6, 6, 500.0),
        rotation: counted(3, 3, 600.0),
        position: counted(3, 3, 700.0),
        velocity: counted(3, 3, 800.0),
    }
}

#[test]
fn the_euclidean_matrices_have_their_blocks_in_place() {
    let suite = EuclideanSuite;
    let landmarks = [landmark(1000.0, 1.0), landmark(2000.0, 0.0)];
    let b = suite.input_matrix_b(&sensor(), &landmarks);
    assert_eq!((b.row_count(), b.column_count()), (27, 12));
    assert_eq!(at(&b, 0, 6), 500.0);
    assert_eq!(at(&b, 6, 0), 600.0);
    assert_eq!(at(&b, 9, 0), 700.0);
    assert_eq!(at(&b, 12, 0), 800.0);
    assert_eq!(at(&b, 12, 3), 600.0);
    assert_eq!(at(&b, 21, 0), 1000.0);
    assert_eq!(at(&b, 26, 2), 2008.0);
    assert_eq!(at(&b, 21, 3), 0.0);

    let gravity = counted(3, 3, 30.0);
    let offset = counted(6, 6, 300.0);
    let a = suite.additive_state_matrix(&b, &gravity, &offset, &landmarks);
    assert_eq!((a.row_count(), a.column_count()), (27, 27));
    assert_eq!(at(&a, 6, 0), -600.0);
    assert_eq!(at(&a, 9, 12), 1.0);
    assert_eq!(at(&a, 9, 13), 0.0);
    assert_eq!(at(&a, 12, 6), 30.0);
    assert_eq!(at(&a, 15, 15), 300.0);
    assert_eq!(at(&a, 21, 0), -1000.0);
    assert_eq!(at(&a, 21, 12), 1010.0);
    assert_eq!(at(&a, 21, 15), 1020.0);
    assert_eq!(at(&a, 21, 21), 1040.0);
    assert_eq!(at(&a, 21, 24), 0.0);
    assert_eq!(at(&a, 24, 12), 0.0);
    assert_eq!(at(&a, 24, 24), 0.0);

    let blocks = suite.propagation_blocks(&sensor(), &gravity, &offset, &landmarks, None);
    for i in 0..27 {
        for j in 0..27 {
            let expected = at(&a, i, j);
            let found = if i < 21 {
                if j < 21 { at(&blocks.a_ss, i, j) } else { 0.0 }
            } else if j < 21 {
                at(&blocks.a_lm_s, i - 21, j)
            } else if (i - 21) / 3 == (j - 21) / 3 {
                at(&blocks.a_lm_lm[(i - 21) / 3], (i - 21) % 3, (j - 21) % 3)
            } else {
                0.0
            };
            assert_eq!(found, expected, "{} {}", i, j);
        }
    }
    assert_eq!(values(&blocks.b_s), values(&b.block(0, 0, 21, 12)));
    assert_eq!(values(&blocks.b_lm), values(&b.block(21, 0, 6, 12)));
}

#[test]
fn the_couplings_of_the_biases_are_written_over() {
    let suite = EuclideanSuite;
    let plain = counted(21, 21, 0.0);
    let blocks = |variant: CouplingVariant| SemiDirectBlocks {
        bias_columns: counted(21, 6, 1000.0),
        bias_bias: counted(6, 6, 2000.0),
        bias_attitude: counted(6, 3, 3000.0),
        variant,
        position_attitude: counted(3, 3, 4000.0),
        gyro_bias: [r(1.0), r(2.0), r(3.0)],
        velocity_attitude: counted(3, 3, 5000.0),
    };
    let a = suite.state_matrix_a(plain.clone(), None, None);
    assert_eq!(values(&a), values(&plain));
    let a = suite.state_matrix_a(plain.clone(), Some(&blocks(CouplingVariant::Position)), None);
    assert_eq!(at(&a, 0, 0), 2000.0);
    assert_eq!(at(&a, 0, 6), 3000.0);
    assert_eq!(at(&a, 0, 9), 0.0);
    assert_eq!(at(&a, 6, 0), 1036.0);
    assert_eq!(at(&a, 9, 6), 4000.0);
    assert_eq!(at(&a, 15, 15), at(&plain, 15, 15));
    let flat = suite.state_matrix_a(plain, None, Some([r(1.0), r(2.0), r(3.0)]));
    assert_eq!(at(&flat, 6, 0), 1.0);
    assert_eq!(at(&flat, 6, 3), 0.0);
    assert_eq!(at(&flat, 9, 1), -3.0);
    assert_eq!(at(&flat, 12, 3), 1.0);
}

#[test]
fn couplings_are_known_by_their_digits() {
    assert_eq!(CouplingVariant::from_text(None), CouplingVariant::Plain);
    assert_eq!(CouplingVariant::from_text(Some("1")), CouplingVariant::Position);
    assert_eq!(CouplingVariant::from_text(Some("2")), CouplingVariant::PositionAndDecay);
    assert_eq!(CouplingVariant::from_text(Some("3")), CouplingVariant::Decay);
    assert_eq!(CouplingVariant::from_text(Some("4")), CouplingVariant::AttitudeDecay);
    assert_eq!(CouplingVariant::from_text(Some("5")), CouplingVariant::VelocityDecay);
    assert_eq!(CouplingVariant::from_text(Some("6")), CouplingVariant::BiasAdjoint);
    assert_eq!(CouplingVariant::from_text(Some("7")), CouplingVariant::Plain);
}

#[test]
fn an_innovation_is_lifted_part_by_part() {
    let suite = EuclideanSuite;
    let numbers: Vec<Real64> = (0..24).map(|i| r(i as f64)).collect();
    let innovation = StateError::from_stacked(&numbers).unwrap();
    let lifted = suite.lift_innovation(
        &innovation,
        [r(-1.0); 6],
        [r(-2.0); 3],
        vec![[r(1.0), r(2.0), r(3.0), r(4.0)]],
        &[42],
    );
    assert_eq!(lifted.bias.map(f), [0.0, 1.0, 2.0, 3.0, 4.0, 5.0]);
    assert_eq!(lifted.pose.map(f), [6.0, 7.0, 8.0, 9.0, 10.0, 11.0]);
    assert_eq!(lifted.offset.map(f), [-1.0; 6]);
    assert_eq!(lifted.velocity.map(f), [-2.0; 3]);
    assert_eq!(lifted.ids, vec![42]);
    assert_eq!(lifted.landmarks[0].map(f), [1.0, 2.0, 3.0, 4.0]);
    assert_eq!(suite.lifted_velocity(true, [r(1.0); 3], [r(2.0); 3]).map(f), [1.0; 3]);
    assert_eq!(suite.lifted_velocity(false, [r(1.0); 3], [r(2.0); 3]).map(f), [2.0; 3]);
    assert!(is_usable_scale(r(1.0)));
    assert!(!is_usable_scale(r(0.0)));
    assert!(!is_usable_scale(r(f64::INFINITY)));
}

fn inverse_landmark(first: f64, estimated: f64) -> InverseDepthBlocks {
    InverseDepthBlocks {
        origin_distance: r(1.0),
        estimated_distance: r(estimated),
        scale: r(1.0),
        input: counted(3, 3, first),
        bias: counted(3, 6, first + 10.0),
        velocity: counted(3, 3, first + 30.0),
        offset: counted(3, 6, first + 40.0),
        own: counted(3, 3, first + 60.0),
    }
}

#[test]
fn the_inverse_depth_matrices_change_only_landmarks() {
    let suite = InvDepthSuite::new();
    let plain = counted(27, 27, 0.0);
    let landmarks = [inverse_landmark(1000.0, 1.0), inverse_landmark(2000.0, 0.0)];
    let a = suite.state_matrix_a(plain.clone(), &landmarks);
    assert_eq!(at(&a, 0, 0), at(&plain, 0, 0));
    assert_eq!(at(&a, 21, 0), 1010.0);
    assert_eq!(at(&a, 21, 12), 1030.0);
    assert_eq!(at(&a, 21, 15), 1040.0);
    assert_eq!(at(&a, 21, 21), 1060.0);
    assert_eq!(at(&a, 24, 24), at(&plain, 24, 24));
    let b = suite.input_matrix_b(counted(27, 12, 0.0), &landmarks);
    assert_eq!(at(&b, 21, 0), 1000.0);
    assert_eq!(at(&b, 24, 0), 2000.0);
    assert_eq!(at(&b, 21, 3), (21 * 12 + 3) as f64);
}

#[test]
fn changes_of_landmark_coordinates_join_two_parts() {
    let m = conv_euc2ind(&counted(2, 3, 1.0), &[r(7.0), r(8.0), r(9.0)]);
    assert_eq!(values(&m), vec![1.0, 2.0, 3.0, 4.0, 5.0, 6.0, 7.0, 8.0, 9.0]);
    let m = conv_ind2euc(&counted(3, 2, 1.0), &[r(7.0), r(8.0), r(9.0)]);
    assert_eq!(values(&m), vec![1.0, 2.0, 7.0, 3.0, 4.0, 8.0, 5.0, 6.0, 9.0]);
    let m = conv_euc2normal(&counted(2, 3, 1.0), &[r(7.0), r(8.0), r(9.0)]);
    assert_eq!((m.row_count(), m.column_count()), (3, 3));
    let m = conv_normal2euc(&counted(3, 2, 1.0), &[r(7.0), r(8.0), r(9.0)]);
    assert_eq!((m.row_count(), m.column_count()), (3, 3));
    assert_eq!(f(usable_inverse_depth(r(0.5))), 0.5);
    assert_eq!(f(usable_inverse_depth(r(-0.5))), 1e-6);
    assert_eq!(f(usable_inverse_depth(r(0.0))), 1e-6);
    assert!(f(usable_inverse_depth(r(f64::NAN))).is_nan());
}

#[test]
fn the_normal_chart_turns_the_pole() {
    assert_eq!(sphere_chart_normal(r(0.0), &[r(1.0); 3], &[r(2.0); 3]).map(f), [1.0; 2]);
    assert_eq!(sphere_chart_normal(r(0.5), &[r(1.0); 3], &[r(2.0); 3]).map(f), [2.0; 2]);
    assert_eq!(pole_turn(&[r(0.1), r(0.2)]).map(f), [-0.1, -0.2, 0.0]);
    let turn = counted(3, 3, 1.0);
    let d = sphere_chart_normal_diff0(&turn);
    assert_eq!(values(&d), vec![4.0, 5.0, 6.0, -1.0, -2.0, -3.0]);
    let back = BlockMatrix::from_rows(
        3,
        3,
        [1.0, 4.0, 7.0, 2.0, 5.0, 8.0, 3.0, 6.0, 9.0].iter().map(|x| r(*x)).collect(),
    )
    .unwrap();
    let inverse = sphere_chart_normal_inv_diff0(&back);
    for i in 0..2 {
        for j in 0..3 {
            assert_eq!(at(&d, i, j), at(&inverse, j, i));
        }
    }
}

#[test]
fn the_sensor_change_is_unit_lower_triangular() {
    let m = build_m_sensor(&[r(1.0), r(2.0), r(3.0)], &counted(6, 6, 100.0));
    for i in 0..21 {
        assert_eq!(at(&m, i, i), 1.0);
        for j in i + 1..21 {
            assert_eq!(at(&m, i, j), 0.0);
        }
    }
    assert_eq!(at(&m, 15, 6), 100.0);
    assert_eq!(at(&m, 12, 7), 3.0);
}

#[test]
fn the_normal_matrices_have_their_blocks_in_place() {
    let suite = NormalSuite::new();
    let sensor = counted(21, 21, 0.0);
    let block = |first: f64| NormalBlocks { sensor: counted(3, 21, first), own: counted(3, 3, first + 100.0) };
    let a = suite.state_matrix_a(&sensor, &[block(1000.0), block(2000.0)]);
    assert_eq!(at(&a, 5, 6), at(&sensor, 5, 6));
    assert_eq!(at(&a, 21, 0), 1000.0);
    assert_eq!(at(&a, 24, 24), 2100.0);
    assert_eq!(at(&a, 24, 21), 0.0);
    assert_eq!(at(&a, 5, 21), 0.0);
    let b = suite.input_matrix_b(&counted(21, 12, 0.0), &[counted(3, 12, 1000.0)]);
    assert_eq!((b.row_count(), at(&b, 21, 0), at(&b, 20, 11)), (24, 1000.0, 251.0));
    let c = suite.output_matrix_ci_star(&counted(2, 2, 1.0));
    assert_eq!(values(&c), vec![1.0, 2.0, 0.0, 3.0, 4.0, 0.0]);
    let mut numbers = [r(0.0); 21];
    for (i, x) in numbers.iter_mut().enumerate() {
        *x = r(i as f64);
    }
    let e = suite.euclidean_innovation(&numbers, vec![[r(9.0); 3]]);
    assert_eq!(e.stacked().len(), 24);
    assert_eq!(f(e.velocity[0]), 12.0);
    assert_eq!(e.landmarks[0].map(f), [9.0; 3]);
}
