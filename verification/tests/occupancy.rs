//! The occupancy grid: rays driven through it with ordinary floating-point numbers.
use echo_li::core_types::DepthMap;
use echo_li::depth::occupancy::{
    ray_has_length, voxel_of, Axis, AxisDirection, BandEvent, LocalOccupancyMap, LocalOccupancySettings,
    OccupancyCell, OccupancyError, OccupancyUpdateMode, OccupancyUpdateStats, RayEvent, RayGeometry,
    RaySample, RayWalk, VoxelIndex, WorldPoint,
};
use echo_li::depth::patch_depth::{PatchDepthOutput, PatchStatus};
use echo_li::ieee::{real32, real64, Real32, Real64};

fn r(x: f64) -> Real64 {
    real64(x.to_bits())
}

fn s(x: f32) -> Real32 {
    real32(x.to_bits())
}

fn f(x: Real64) -> f64 {
    f64::from_bits(x.bits)
}

fn g(x: Real32) -> f32 {
    f32::from_bits(x.bits)
}

fn point(p: [f64; 3]) -> WorldPoint {
    WorldPoint { x: r(p[0]), y: r(p[1]), z: r(p[2]) }
}

fn new_map(settings: LocalOccupancySettings) -> Result<LocalOccupancyMap, OccupancyError> {
    let res = f(settings.resolution);
    let layers = r(((f(settings.max_obstacle_height) - f(settings.min_obstacle_height)) / res).round());
    let corner_x = -(settings.width_cells as f64) * 0.5 * res;
    let corner_y = -(settings.height_cells as f64) * 0.5 * res;
    LocalOccupancyMap::new(settings, layers, r(corner_x), r(corner_y))
}

fn recenter(map: &mut LocalOccupancyMap, center: [f64; 3]) {
    let res = f(map.settings().resolution);
    let target = voxel_of(point([center[0] / res, center[1] / res, center[2] / res]));
    let size = [map.settings().width_cells, map.settings().height_cells];
    let at = [target.x, target.y, target.z];
    let origin = [
        (at[0] as f64 - size[0] as f64 * 0.5) * res,
        (at[1] as f64 - size[1] as f64 * 0.5) * res,
        at[2] as f64 * res + f(map.settings().min_obstacle_height),
    ];
    map.recenter(target, point(origin));
}

fn add(map: &mut LocalOccupancyMap, cell: VoxelIndex, delta: f32) {
    if let Some(value) = map.log_odds_at(cell) {
        map.add_log_odds(cell, s(g(value) + delta));
    }
}

struct Ray {
    walk: RayWalk,
    period: [f64; 3],
}

fn start_ray(map: &LocalOccupancyMap, from: [f64; 3], to: [f64; 3]) -> Ray {
    let res = f(map.settings().resolution);
    let origin = map.origin();
    let corner = [f(origin.x), f(origin.y), f(origin.z)];
    let mut p0 = [0.0; 3];
    let mut p1 = [0.0; 3];
    for k in 0..3 {
        p0[k] = (from[k] - corner[k]) / res;
        p1[k] = (to[k] - corner[k]) / res;
    }
    let start = voxel_of(point(p0));
    let end = voxel_of(point(p1));
    let at = [start.x, start.y, start.z];
    let mut t = [f64::INFINITY; 3];
    let mut period = [f64::INFINITY; 3];
    let mut dir = [AxisDirection::Still; 3];
    for k in 0..3 {
        let d = p1[k] - p0[k];
        dir[k] = AxisDirection::of(r(d));
        if d > 0.0 {
            t[k] = ((at[k] + 1) as f64 - p0[k]) / d;
            period[k] = 1.0 / d;
        } else if d < 0.0 {
            t[k] = (at[k] as f64 - p0[k]) / d;
            period[k] = -1.0 / d;
        }
    }
    Ray { walk: RayWalk::new(start, end, dir[0], dir[1], dir[2], point(t)), period }
}

fn advance(ray: &mut Ray) -> bool {
    match ray.walk.next_axis() {
        Some(axis) => {
            let t = match axis {
                Axis::X => f(ray.walk.t_next.x) + ray.period[0],
                Axis::Y => f(ray.walk.t_next.y) + ray.period[1],
                Axis::Z => f(ray.walk.t_next.z) + ray.period[2],
            };
            ray.walk.cross(axis, r(t));
            true
        }
        None => false,
    }
}

fn integrate_ray(map: &mut LocalOccupancyMap, from: [f64; 3], to: [f64; 3], stats: &mut OccupancyUpdateStats) {
    let hit = g(map.settings().log_odds_hit);
    let miss = g(map.settings().log_odds_miss);
    let mut ray = start_ray(map, from, to);
    loop {
        match ray.walk.visit(map) {
            RayEvent::Hit => {
                add(map, ray.walk.cell, hit);
                stats.occupied_updates += 1;
                return;
            }
            RayEvent::Miss => {
                add(map, ray.walk.cell, miss);
                stats.free_updates += 1;
            }
            RayEvent::Outside => {}
            RayEvent::Over => return,
        }
        if !advance(&mut ray) {
            return;
        }
    }
}

fn integrate_ray_sigma(
    map: &mut LocalOccupancyMap,
    from: [f64; 3],
    to: [f64; 3],
    rel_std: f64,
    stats: &mut OccupancyUpdateStats,
) {
    let settings = *map.settings();
    let res = f(settings.resolution);
    let diff = [to[0] - from[0], to[1] - from[1], to[2] - from[2]];
    let range = (diff[0] * diff[0] + diff[1] * diff[1] + diff[2] * diff[2]).sqrt();
    if range <= 0.0 {
        return;
    }
    let unit = [diff[0] / range, diff[1] / range, diff[2] / range];
    let sigma_floor = res * f(settings.sigma_floor_factor);
    let sigma_m = (range * rel_std).max(sigma_floor);
    let half_band = f(settings.band_k) * sigma_m;
    let w = (sigma_floor / sigma_m).clamp(f(settings.min_confidence_weight), 1.0);
    let reach = range + half_band;
    let far = [from[0] + unit[0] * reach, from[1] + unit[1] * reach, from[2] + unit[2] * reach];
    let mut ray = start_ray(map, from, far);
    loop {
        let corner = map.origin();
        let center = [
            f(corner.x) + (ray.walk.cell.x as f64 + 0.5) * res,
            f(corner.y) + (ray.walk.cell.y as f64 + 0.5) * res,
            f(corner.z) + (ray.walk.cell.z as f64 + 0.5) * res,
        ];
        let mut z = -range;
        for k in 0..3 {
            z += (center[k] - from[k]) * unit[k];
        }
        match ray.walk.visit_band(map, r(z), r(half_band)) {
            BandEvent::Free => {
                add(map, ray.walk.cell, (g(settings.log_odds_miss) as f64 * w) as f32);
                stats.free_updates += 1;
            }
            BandEvent::Occupied => {
                let bump = (-0.5 * (z / sigma_m).powi(2)).exp();
                add(map, ray.walk.cell, (g(settings.log_odds_hit) as f64 * w * bump) as f32);
                stats.occupied_updates += 1;
            }
            BandEvent::Occluded | BandEvent::Outside => {}
            BandEvent::Over => return,
        }
        if ray.walk.at_end() || !advance(&mut ray) {
            return;
        }
    }
}

// One depth straight ahead of a camera that looks along the world's y axis.
fn single_depth_output_var(range: f32, eta_var: f32) -> PatchDepthOutput {
    PatchDepthOutput {
        eta: DepthMap::from_vec(1, 1, vec![s(range.ln())]).unwrap(),
        eta_var: DepthMap::from_vec(1, 1, vec![s(eta_var)]).unwrap(),
        status: DepthMap::from_vec(1, 1, vec![PatchStatus::PhotoRefined]).unwrap(),
    }
}

fn single_depth_output(range: f32) -> PatchDepthOutput {
    single_depth_output_var(range, 0.01)
}

fn run_single_ray(map: &mut LocalOccupancyMap, output: &PatchDepthOutput) -> OccupancyUpdateStats {
    recenter(map, [0.0, 0.0, 0.0]);
    let eta = g(output.eta.data[0]);
    let rel_std = (g(output.eta_var.data[0]) as f64).sqrt();
    let range = (eta as f64).exp();
    let geometry = [RayGeometry {
        rel_std: r(rel_std),
        range: r(range),
        bearing_x: r(0.0),
        bearing_y: r(0.0),
        bearing_z: r(1.0),
    }];
    let (rays, mut stats) = map.settings().select_rays(output, &geometry, 1, 1);
    for _ray in &rays {
        let to = [0.0, range, 0.0];
        match map.settings().update_mode {
            OccupancyUpdateMode::FixedIncrement => integrate_ray(map, [0.0; 3], to, &mut stats),
            OccupancyUpdateMode::UncertaintyAware => integrate_ray_sigma(map, [0.0; 3], to, rel_std, &mut stats),
        }
    }
    stats
}

fn planar_settings() -> LocalOccupancySettings {
    LocalOccupancySettings {
        enabled: true,
        resolution: r(1.0),
        width_cells: 11,
        height_cells: 11,
        sample_stride: 1,
        log_odds_hit: s(1.0),
        log_odds_miss: s(-1.0),
        occupied_threshold: s(0.5),
        free_threshold: s(-0.5),
        ..Default::default()
    }
}

fn v1_settings() -> LocalOccupancySettings {
    LocalOccupancySettings {
        update_mode: OccupancyUpdateMode::UncertaintyAware,
        band_k: r(2.0),
        sigma_floor_factor: r(0.5),
        min_confidence_weight: r(0.1),
        max_eta_std: r(1.0),
        log_odds_hit: s(2.0),
        log_odds_miss: s(-2.0),
        ..planar_settings()
    }
}

#[test]
fn integrates_endpoint_and_free_space() {
    let mut map = new_map(planar_settings()).unwrap();
    let stats = run_single_ray(&mut map, &single_depth_output(3.0));

    assert_eq!(stats.rays_integrated, 1);
    assert_eq!(map.cell_state(5, 5, 1), Some(OccupancyCell::Free));
    assert_eq!(map.cell_state(5, 8, 1), Some(OccupancyCell::Occupied));
}

#[test]
fn off_grid_endpoint_carves_free_without_hit() {
    let settings = LocalOccupancySettings { max_range: r(20.0), ..planar_settings() };
    let mut map = new_map(settings).unwrap();
    let stats = run_single_ray(&mut map, &single_depth_output(8.0));

    assert_eq!(stats.rays_integrated, 1);
    assert_eq!(stats.occupied_updates, 0, "off-grid endpoint must not mark a hit");
    assert!(stats.free_updates > 0, "should still carve free space up to the boundary");
    assert_eq!(map.cell_state(5, 5, 1), Some(OccupancyCell::Free));
    assert_eq!(map.cell_state(5, 10, 1), Some(OccupancyCell::Free));
}

#[test]
fn recenters_without_losing_overlap() {
    let settings = LocalOccupancySettings {
        enabled: true,
        resolution: r(1.0),
        width_cells: 7,
        height_cells: 7,
        sample_stride: 1,
        log_odds_hit: s(1.0),
        occupied_threshold: s(0.5),
        ..Default::default()
    };
    let mut map = new_map(settings).unwrap();
    add(&mut map, VoxelIndex { x: 4, y: 3, z: 1 }, 1.0);

    recenter(&mut map, [1.0, 0.0, 0.0]);

    assert_eq!(map.cell_state(3, 3, 1), Some(OccupancyCell::Occupied));
}

#[test]
fn v1_marks_surface_band_and_carves_free() {
    let mut map = new_map(v1_settings()).unwrap();
    let stats = run_single_ray(&mut map, &single_depth_output(3.0));

    assert_eq!(stats.rays_integrated, 1);
    assert!(stats.occupied_updates > 0 && stats.free_updates > 0);
    assert_eq!(map.cell_state(5, 8, 1), Some(OccupancyCell::Occupied));
    assert_eq!(map.cell_state(5, 5, 1), Some(OccupancyCell::Free));
}

#[test]
fn v1_uncertain_ray_writes_weaker_and_more_spread_occupied() {
    let surface = 214;
    let beyond = 225;

    let mut confident = new_map(v1_settings()).unwrap();
    run_single_ray(&mut confident, &single_depth_output_var(3.0, 0.0001));
    let conf = confident.snapshot().log_odds;

    let mut uncertain = new_map(v1_settings()).unwrap();
    run_single_ray(&mut uncertain, &single_depth_output_var(3.0, 0.25));
    let unc = uncertain.snapshot().log_odds;

    assert!(
        g(conf[surface]) > g(unc[surface]),
        "confident depth must write a stronger surface peak ({} vs {})",
        g(conf[surface]),
        g(unc[surface])
    );
    assert!(
        g(unc[beyond]) > g(conf[beyond]),
        "uncertain depth must spread more evidence past the surface ({} vs {})",
        g(unc[beyond]),
        g(conf[beyond])
    );
}

#[test]
fn vertical_extent_resolves_into_layers() {
    let settings = LocalOccupancySettings {
        resolution: r(1.0),
        width_cells: 11,
        height_cells: 11,
        min_obstacle_height: r(-2.0),
        max_obstacle_height: r(2.0),
        ..Default::default()
    };
    let map = new_map(settings).unwrap();
    assert_eq!(map.depth_cells(), 4);
    assert_eq!(map.snapshot().log_odds.len(), 11 * 11 * 4);
}

#[test]
fn the_grid_starts_at_the_lowest_height() {
    let settings = LocalOccupancySettings {
        resolution: r(1.0),
        width_cells: 11,
        height_cells: 11,
        min_obstacle_height: r(0.0),
        max_obstacle_height: r(2.0),
        ..Default::default()
    };
    let snapshot = new_map(settings).unwrap().snapshot();
    assert_eq!(snapshot.depth, 2);
    assert_eq!(snapshot.origin, point([-5.5, -5.5, 0.0]));
    let lower = LocalOccupancySettings { min_obstacle_height: r(-1.0), ..settings };
    assert_eq!(new_map(lower).unwrap().snapshot().origin, point([-5.5, -5.5, -1.0]));
}

#[test]
fn each_broken_rule_has_its_error() {
    let good = planar_settings();
    let errors = [
        (LocalOccupancySettings { resolution: r(0.0), ..good }, OccupancyError::Resolution),
        (LocalOccupancySettings { resolution: r(f64::NAN), ..good }, OccupancyError::Resolution),
        (LocalOccupancySettings { width_cells: 0, ..good }, OccupancyError::Dimensions),
        (LocalOccupancySettings { height_cells: 0, ..good }, OccupancyError::Dimensions),
        (LocalOccupancySettings { sample_stride: 0, ..good }, OccupancyError::SampleStride),
        (LocalOccupancySettings { max_range: good.min_range, ..good }, OccupancyError::Range),
        (
            LocalOccupancySettings { max_obstacle_height: r(-1.0), ..good },
            OccupancyError::VerticalExtent,
        ),
    ];
    for (settings, error) in errors {
        assert_eq!(new_map(settings).err(), Some(error));
    }
    assert_eq!(OccupancyError::Resolution.message(), "occupancy resolution must be positive");
    assert_eq!(OccupancyError::Dimensions.message(), "occupancy grid dimensions must be non-zero");
    assert_eq!(OccupancyError::SampleStride.message(), "occupancy sample_stride must be non-zero");
    assert_eq!(OccupancyError::Range.message(), "occupancy max_range must be greater than min_range");
    assert_eq!(
        OccupancyError::VerticalExtent.message(),
        "occupancy vertical extent (max_obstacle_height - min_obstacle_height) must be positive"
    );
}

#[test]
fn defaults_are_the_documented_numbers() {
    let d = LocalOccupancySettings::default();
    assert!(!d.enabled);
    assert_eq!(f(d.resolution), 0.10);
    assert_eq!((d.width_cells, d.height_cells, d.sample_stride), (160, 160, 4));
    assert_eq!((f(d.min_range), f(d.max_range), f(d.max_eta_std)), (0.25, 12.0, 0.5));
    assert_eq!((g(d.log_odds_hit), g(d.log_odds_miss)), (0.85, -0.35));
    assert_eq!((g(d.log_odds_min), g(d.log_odds_max)), (-4.0, 4.0));
    assert_eq!((g(d.occupied_threshold), g(d.free_threshold)), (0.8, -0.8));
    assert_eq!((f(d.band_k), f(d.sigma_floor_factor), f(d.min_confidence_weight)), (2.0, 0.5, 0.1));
    assert_eq!((f(d.min_obstacle_height), f(d.max_obstacle_height)), (-1.0, 1.0));
    assert_eq!(d.update_mode, OccupancyUpdateMode::FixedIncrement);
    assert_eq!(OccupancyUpdateMode::default(), OccupancyUpdateMode::FixedIncrement);
}

#[test]
fn counts_add_up_to_the_grid() {
    let mut map = new_map(planar_settings()).unwrap();
    run_single_ray(&mut map, &single_depth_output(3.0));
    let (unknown, free, occupied) = map.counts();
    assert_eq!((unknown, free, occupied), (11 * 11 * 2 - 4, 3, 1));
}

#[test]
fn log_odds_never_leave_their_limits() {
    let mut map = new_map(planar_settings()).unwrap();
    let cell = VoxelIndex { x: 2, y: 3, z: 0 };
    for _ in 0..10 {
        add(&mut map, cell, 1.0);
    }
    assert_eq!(map.log_odds_at(cell).map(g), Some(4.0));
    for _ in 0..20 {
        add(&mut map, cell, -1.0);
    }
    assert_eq!(map.log_odds_at(cell).map(g), Some(-4.0));
    assert_eq!(map.log_odds_at(VoxelIndex { x: -1, y: 0, z: 0 }), None);
    assert_eq!(map.log_odds_at(VoxelIndex { x: 0, y: 0, z: 2 }), None);
}

#[test]
fn moving_there_and_back_forgets_only_the_border() {
    let mut map = new_map(planar_settings()).unwrap();
    add(&mut map, VoxelIndex { x: 0, y: 0, z: 0 }, 1.0);
    add(&mut map, VoxelIndex { x: 5, y: 5, z: 1 }, 1.0);
    recenter(&mut map, [2.0, 1.0, 0.0]);
    assert_eq!(map.center(), VoxelIndex { x: 2, y: 1, z: 0 });
    assert_eq!(map.log_odds_at(VoxelIndex { x: 3, y: 4, z: 1 }).map(g), Some(1.0));
    recenter(&mut map, [0.0, 0.0, 0.0]);
    assert_eq!(map.log_odds_at(VoxelIndex { x: 5, y: 5, z: 1 }).map(g), Some(1.0));
    assert_eq!(map.log_odds_at(VoxelIndex { x: 0, y: 0, z: 0 }).map(g), Some(0.0));
}

#[test]
fn moving_within_a_voxel_changes_nothing() {
    let mut map = new_map(planar_settings()).unwrap();
    add(&mut map, VoxelIndex { x: 5, y: 5, z: 1 }, 1.0);
    let before = map.origin();
    recenter(&mut map, [0.9, 0.9, 0.9]);
    assert_eq!(map.origin(), before);
    assert_eq!(map.log_odds_at(VoxelIndex { x: 5, y: 5, z: 1 }).map(g), Some(1.0));
}

#[test]
fn unusable_depths_are_not_integrated() {
    let settings = planar_settings();
    let good = RaySample {
        status: PatchStatus::SeedOnly,
        eta: s(1.0),
        eta_var: s(0.0),
        rel_std: r(0.5),
        range: r(0.25),
        bearing_x: r(0.0),
        bearing_y: r(0.0),
        bearing_z: r(1.0),
    };
    assert!(settings.admits(&good));
    assert!(settings.admits(&RaySample { range: r(12.0), ..good }));
    assert!(!settings.admits(&RaySample { status: PatchStatus::Unknown, ..good }));
    assert!(!settings.admits(&RaySample { status: PatchStatus::Rejected, ..good }));
    assert!(!settings.admits(&RaySample { eta: s(f32::NAN), ..good }));
    assert!(!settings.admits(&RaySample { eta_var: s(f32::INFINITY), ..good }));
    assert!(!settings.admits(&RaySample { eta_var: s(-0.001), ..good }));
    assert!(!settings.admits(&RaySample { rel_std: r(0.51), ..good }));
    assert!(!settings.admits(&RaySample { range: r(0.24), ..good }));
    assert!(!settings.admits(&RaySample { range: r(12.1), ..good }));
    assert!(!settings.admits(&RaySample { bearing_y: r(f64::NAN), ..good }));
}

#[test]
fn rays_are_picked_by_the_stride() {
    let n = 5 * 4;
    let output = PatchDepthOutput {
        eta: DepthMap::new(5, 4, s(0.0)),
        eta_var: DepthMap::new(5, 4, s(0.01)),
        status: DepthMap::from_vec(
            5,
            4,
            (0..n).map(|i| if i == 12 { PatchStatus::Unknown } else { PatchStatus::SeedOnly }).collect(),
        )
        .unwrap(),
    };
    let settings = LocalOccupancySettings { sample_stride: 2, ..planar_settings() };
    let geometry = vec![
        RayGeometry {
            rel_std: r(0.1),
            range: r(1.0),
            bearing_x: r(0.0),
            bearing_y: r(0.0),
            bearing_z: r(1.0),
        };
        6
    ];
    let (rays, stats) = settings.select_rays(&output, &geometry, 10, 8);
    assert_eq!(stats.rays_considered, 6);
    assert_eq!(stats.rays_integrated, 5);
    let pixels: Vec<(usize, usize)> = rays.iter().map(|p| (p.x, p.y)).collect();
    assert_eq!(pixels, vec![(0, 0), (2, 0), (4, 0), (0, 2), (4, 2)]);
    let (none, empty) = settings.select_rays(&output, &geometry, 0, 8);
    assert!(none.is_empty());
    assert_eq!(empty, OccupancyUpdateStats::default());
}

#[test]
fn a_ray_goes_onwards_and_does_not_come_back() {
    let map = new_map(planar_settings()).unwrap();
    let mut ray = start_ray(&map, [0.3, 0.2, 0.1], [-40.0, 23.0, 2.0]);
    let mut left = false;
    let mut seen = 0;
    loop {
        let before = ray.walk.cell;
        let inside = map.cell_in_bounds(before);
        assert!(!(left && inside), "{:?}", before);
        left = left || !inside;
        seen += 1;
        if !advance(&mut ray) {
            break;
        }
        let after = ray.walk.cell;
        assert!(after.x <= before.x && after.y >= before.y && after.z >= before.z);
        assert_eq!((before.x - after.x) + (after.y - before.y) + (after.z - before.z), 1);
    }
    assert!(left);
    assert!(seen > 11);
    assert_eq!(ray.walk.cell, ray.walk.end);
}

#[test]
fn a_ray_without_length_leads_nowhere() {
    assert!(ray_has_length(r(1e-300)) && ray_has_length(r(f64::NAN)));
    assert!(!ray_has_length(r(0.0)) && !ray_has_length(r(-0.0)) && !ray_has_length(r(-1.0)));
}

#[test]
fn a_whole_ray_marks_each_voxel_once() {
    let map = new_map(planar_settings()).unwrap();
    for (from, to, hits) in [
        ([0.2, 0.3, 0.1], [4.1, -3.3, 0.4], 1),
        ([0.2, 0.3, 0.1], [9.0, 7.5, 0.4], 0),
        ([-9.3, -7.1, 0.2], [3.3, 2.2, -0.6], 1),
        ([0.2, 0.3, 0.1], [0.2, 0.3, 0.1], 1),
    ] {
        let mut ray = start_ray(&map, from, to);
        let mut seen = Vec::new();
        let mut marked = 0;
        loop {
            let cell = ray.walk.cell;
            assert!(!seen.contains(&cell));
            seen.push(cell);
            let event = ray.walk.visit(&map);
            assert_eq!(event == RayEvent::Hit, cell == ray.walk.end && map.cell_in_bounds(cell));
            match event {
                RayEvent::Hit => marked += 1,
                RayEvent::Miss => assert!(map.cell_in_bounds(cell)),
                RayEvent::Outside | RayEvent::Over => assert!(!map.cell_in_bounds(cell)),
            }
            if event == RayEvent::Hit || event == RayEvent::Over || !advance(&mut ray) {
                break;
            }
        }
        assert_eq!(marked, hits);
    }
}

#[test]
fn a_whole_update_keeps_size_and_limits() {
    let mut map = new_map(planar_settings()).unwrap();
    let mut stats = OccupancyUpdateStats::default();
    for k in 0..12 {
        let x = k as f64 * 0.7;
        recenter(&mut map, [x, 0.0, 0.0]);
        for _ in 0..3 {
            integrate_ray(&mut map, [x, 0.2, 0.1], [x + 3.0, 2.6, 0.4], &mut stats);
        }
    }
    let grid = map.snapshot();
    assert_eq!(grid.log_odds.len(), 11 * 11 * 2);
    assert!(grid.log_odds.iter().all(|v| (-4.0..=4.0).contains(&g(*v))));
    assert!(grid.log_odds.iter().any(|v| g(*v) > 0.0) && grid.log_odds.iter().any(|v| g(*v) < 0.0));
}

#[test]
fn the_grid_reaches_from_the_least_to_the_largest_height() {
    let settings = LocalOccupancySettings {
        min_obstacle_height: r(-3.0),
        max_obstacle_height: r(1.0),
        ..planar_settings()
    };
    let mut map = new_map(settings).unwrap();
    assert_eq!((f(map.origin().z), map.depth_cells()), (-3.0, 4));
    recenter(&mut map, [0.0, 0.0, 2.5]);
    assert_eq!(f(map.origin().z), -1.0);
}
