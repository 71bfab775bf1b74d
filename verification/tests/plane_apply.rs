use mtb_terrain::color::{ColorGradient, ColorStep, PlaneColor};
use mtb_terrain::color_gradient::Color32;
use mtb_terrain::mesh::Mesh;
use mtb_terrain::engine::{apply_areas, apply_points, thread_point};
use mtb_terrain::modifiers::{ColorData, ModifierData, TerraceData, ValueData};
use mtb_terrain::noise::NoiseData;
use mtb_terrain::wave::WaveData;
use mtb_terrain::planes::{plane_mesh, spawn_plane, PlaneData};
use mtb_terrain::utils::AABB;
use mtb_terrain::wanders::{WanderNoise, Wanders};

fn ramp_policy() -> PlaneColor {
    PlaneColor::Gradient(ColorGradient { low: [0, 0, 0, 1000], high: [1000, 500, 0, 1000] })
}

fn plane_with(color: PlaneColor, modifiers: Vec<ModifierData>) -> PlaneData {
    PlaneData {
        name: String::from("ridge"),
        loc: [0, 0, 0],
        subdivisions: (0, 1),
        dims: (4000, 2000),
        color,
        modifiers,
        active: true,
    }
}

fn flat_grid() -> Mesh {
    plane_mesh(&(0, 1), &(4000, 2000)).unwrap()
}

fn ramp() -> ModifierData {
    ModifierData::Value(ValueData { base: 1000, slope: [500, 0, 250] })
}

fn stairs() -> ModifierData {
    ModifierData::Terrace(TerraceData { step: 400 })
}

#[test]
fn plane_without_modifiers_keeps_the_grid_and_colours_by_policy() {
    let plane = plane_with(PlaneColor::Color([10, 20, 30, 40]), vec![]);
    let mut mesh = flat_grid();
    let before = mesh.clone();
    let out = plane.apply(&mut mesh);
    assert_eq!(mesh.positions, before.positions);
    assert_eq!(mesh.colors, vec![[10, 20, 30, 40]; 6]);
    assert_eq!(mesh.normals, before.normals);
    assert_eq!(mesh.uvs, before.uvs);
    assert_eq!(mesh.indices, before.indices);
    assert_eq!(out, mesh);
}

#[test]
fn flat_plane_under_a_gradient_has_the_low_colour() {
    // Every vertex at height zero: the range of heights is a single height.
    let plane = plane_with(ramp_policy(), vec![]);
    let mut mesh = flat_grid();
    plane.apply(&mut mesh);
    assert_eq!(mesh.colors, vec![[0, 0, 0, 1000]; 6]);
}

#[test]
fn modifiers_run_in_stack_order_on_each_vertex() {
    let plane = plane_with(ramp_policy(), vec![ramp(), stairs()]);
    let mut mesh = flat_grid();
    let out = plane.apply(&mut mesh);
    assert_eq!(
        mesh.positions,
        vec![
            [-2000, -400, -1000],
            [0, 800, -1000],
            [2000, 1600, -1000],
            [-2000, 400, 1000],
            [0, 1200, 1000],
            [2000, 2400, 1000]
        ]
    );
    // The gradient runs from the lowest vertex (-0.4) to the highest (2.4).
    assert_eq!(
        mesh.colors,
        vec![
            [0, 0, 0, 1000],
            [428, 214, 0, 1000],
            [714, 357, 0, 1000],
            [285, 142, 0, 1000],
            [571, 285, 0, 1000],
            [1000, 500, 0, 1000]
        ]
    );
    assert_eq!(out, mesh);
}

#[test]
fn modifier_order_determinism() {
    let forth = plane_with(ramp_policy(), vec![ramp(), stairs()]);
    let back = plane_with(ramp_policy(), vec![stairs(), ramp()]);
    let mut a = flat_grid();
    let mut b = flat_grid();
    forth.apply(&mut a);
    back.apply(&mut b);
    assert_eq!(a.positions[0], [-2000, -400, -1000]);
    assert_eq!(b.positions[0], [-2000, -250, -1000]);
    assert_ne!(a.positions, b.positions);
    assert_eq!(
        b.positions,
        vec![
            [-2000, -250, -1000],
            [0, 750, -1000],
            [2000, 1750, -1000],
            [-2000, 250, 1000],
            [0, 1250, 1000],
            [2000, 2250, 1000]
        ]
    );
    assert_eq!(
        b.colors,
        vec![
            [0, 0, 0, 1000],
            [400, 200, 0, 1000],
            [800, 400, 0, 1000],
            [200, 100, 0, 1000],
            [600, 300, 0, 1000],
            [1000, 500, 0, 1000]
        ]
    );
}

#[test]
fn terrace_after_noise_differs_from_noise_after_terrace() {
    let noise = ModifierData::Noise(NoiseData { seed: 7, cell: 1000, amplitude: 2000 });
    let terrace = ModifierData::Terrace(TerraceData { step: 250 });
    let steps = PlaneColor::Steps(vec![
        ColorStep { h: 0, clr: [0, 0, 1000, 1000] },
        ColorStep { h: 500, clr: [0, 1000, 0, 1000] },
    ]);
    let mut first = plane_with(steps, vec![noise, terrace]);
    first.loc = [100, 0, -200];
    let mut second = plane_with(PlaneColor::Color([1, 2, 3, 4]), vec![terrace, noise]);
    second.loc = [100, 0, -200];
    let mut a = flat_grid();
    let mut b = flat_grid();
    first.apply(&mut a);
    second.apply(&mut b);
    let heights = |m: &Mesh| m.positions.iter().map(|p| p[1]).collect::<Vec<i32>>();
    assert_eq!(heights(&a), vec![-1000, -500, 1000, 500, -500, -1500]);
    assert_eq!(heights(&b), vec![-1122, -528, 980, 470, -620, -1376]);
    assert_eq!(
        a.colors,
        vec![
            [0, 0, 1000, 1000],
            [0, 0, 1000, 1000],
            [1000, 1000, 1000, 1000],
            [1000, 1000, 1000, 1000],
            [0, 0, 1000, 1000],
            [0, 0, 1000, 1000]
        ]
    );
    assert_eq!(b.colors, vec![[1, 2, 3, 4]; 6]);
}

#[test]
fn area_passes_run_after_all_point_passes() {
    // The wave's point pass lifts each vertex, the terrace snaps that
    // height, and only then does the wave's area pass shift the vertices
    // sideways, by the wave at the snapped height.
    let wave = ModifierData::Wave(WaveData { period: 4000, amplitude: [300, 1000, -200] });
    let plane = plane_with(ramp_policy(), vec![wave, stairs()]);
    let mut mesh = flat_grid();
    plane.apply(&mut mesh);
    assert_eq!(
        mesh.positions,
        vec![
            [-2060, 1200, -960],
            [60, -1200, -1040],
            [1940, 1200, -960],
            [-1940, -1200, 960],
            [-60, 1200, 1040],
            [2060, -1200, 960]
        ]
    );
    assert_eq!(
        mesh.colors,
        vec![
            [1000, 500, 0, 1000],
            [0, 0, 0, 1000],
            [1000, 500, 0, 1000],
            [0, 0, 0, 1000],
            [1000, 500, 0, 1000],
            [0, 0, 0, 1000]
        ]
    );
}

#[test]
fn colour_modifiers_in_a_stack_leave_the_plane_colours_alone() {
    let ramp_x = ModifierData::Value(ValueData { base: 0, slope: [1000, 0, 0] });
    let mut gradient = mtb_terrain::color_gradient::ColorGradient::new(
        Color32([0, 0, 0, 0]),
        Color32([255, 255, 255, 255]),
    );
    gradient.max_height = 2000;
    let by_height = ModifierData::ColorGradient(gradient);
    let flat = ModifierData::Color(ColorData { clr: [9, 8, 7, 6] });
    // The plane's own policy at each final height, over the range -2 to 2.
    let by_policy = vec![
        [0, 0, 0, 1000],
        [500, 250, 0, 1000],
        [1000, 500, 0, 1000],
        [0, 0, 0, 1000],
        [500, 250, 0, 1000],
        [1000, 500, 0, 1000],
    ];
    let stacks = vec![
        vec![ramp_x],
        vec![ramp_x, flat],
        vec![ramp_x, by_height, flat],
        vec![flat, by_height, ramp_x],
        vec![by_height, ramp_x, by_height],
    ];
    for stack in stacks {
        let plane = plane_with(ramp_policy(), stack);
        let mut mesh = flat_grid();
        plane.apply(&mut mesh);
        assert_eq!(
            mesh.positions.iter().map(|p| p[1]).collect::<Vec<i32>>(),
            vec![-2000, 0, 2000, -2000, 0, 2000]
        );
        assert_eq!(mesh.colors, by_policy);
    }
    // With a flat policy a flat-colour modifier changes nothing either.
    let plane = plane_with(PlaneColor::Color([1, 2, 3, 4]), vec![ramp_x, flat]);
    let mut mesh = flat_grid();
    plane.apply(&mut mesh);
    assert_eq!(mesh.colors, vec![[1, 2, 3, 4]; 6]);
}

#[test]
fn every_colour_is_the_policy_at_the_final_height_over_the_whole_range() {
    let wave = ModifierData::Wave(WaveData { period: 4000, amplitude: [300, 1000, -200] });
    let noise = ModifierData::Noise(NoiseData { seed: 5, cell: 800, amplitude: 1700 });
    let policies = vec![
        ramp_policy(),
        PlaneColor::Steps(vec![
            ColorStep { h: -300, clr: [0, 0, 1000, 1000] },
            ColorStep { h: 600, clr: [0, 1000, 0, 1000] },
        ]),
        PlaneColor::Color([4, 3, 2, 1]),
    ];
    for policy in policies {
        let plane = plane_with(policy, vec![noise, wave, stairs()]);
        // The range of heights is that after the point passes.
        let mods = plane.bind_modifiers();
        let mut raised = flat_grid().positions;
        let (min_h, max_h) = apply_points(&mods, &mut raised, &plane.loc);
        assert_eq!(min_h, raised.iter().map(|p| p[1]).min().unwrap());
        assert_eq!(max_h, raised.iter().map(|p| p[1]).max().unwrap());
        let mut mesh = flat_grid();
        let out = plane.apply(&mut mesh);
        assert_eq!(out.colors.len(), out.positions.len());
        for i in 0..out.positions.len() {
            assert_eq!(out.colors[i], plane.color.apply(out.positions[i][1], min_h, max_h));
        }
    }
}

#[test]
fn wander_in_a_stack_changes_nothing() {
    let wander = ModifierData::Wander(WanderNoise {
        wander: Wanders::DrunkWanderer,
        width: 300,
        height: -5000,
        source_edge: None,
        target_edge: None,
        source_point: Some((0, 0)),
        target_point: Some((1000, 1000)),
    });
    let with = plane_with(ramp_policy(), vec![ramp(), wander, stairs()]);
    let without = plane_with(ramp_policy(), vec![ramp(), stairs()]);
    let mut a = flat_grid();
    let mut b = flat_grid();
    with.apply(&mut a);
    without.apply(&mut b);
    assert_eq!(a, b);
}

#[test]
fn applying_twice_to_fresh_grids_gives_the_same_mesh() {
    let plane = plane_with(
        ramp_policy(),
        vec![
            ModifierData::Noise(NoiseData { seed: 31, cell: 900, amplitude: 1500 }),
            ModifierData::Wave(WaveData { period: 2500, amplitude: [50, 400, 50] }),
            stairs(),
        ],
    );
    let mut a = flat_grid();
    let mut b = flat_grid();
    plane.apply(&mut a);
    plane.apply(&mut b);
    assert_eq!(a, b);
}

#[test]
fn apply_takes_any_buffer_even_an_empty_one() {
    let plane = plane_with(ramp_policy(), vec![ramp(), stairs()]);
    let mut empty = Mesh { positions: vec![], normals: vec![], uvs: vec![], colors: vec![], indices: vec![] };
    let out = plane.apply(&mut empty);
    assert_eq!(out.positions.len(), 0);
    assert_eq!(out.colors.len(), 0);
    let mut single = Mesh {
        positions: vec![[1000, 50, 2000]],
        normals: vec![[0, 1000, 0]],
        uvs: vec![[0, 0]],
        colors: vec![],
        indices: vec![],
    };
    plane.apply(&mut single);
    assert_eq!(single.positions, vec![[1000, 2000, 2000]]);
    assert_eq!(single.colors, vec![[0, 0, 0, 1000]]);
}

#[test]
fn engine_passes_compose_the_plane() {
    let plane = plane_with(ramp_policy(), vec![ramp(), stairs()]);
    let mods = plane.bind_modifiers();
    assert_eq!(mods.len(), 2);
    assert_eq!(thread_point(&mods, &[-2000, 0, -1000], &plane.loc), [-2000, -400, -1000]);
    let mut buffer = flat_grid().positions;
    let range = apply_points(&mods, &mut buffer, &plane.loc);
    assert_eq!(range, (-400, 2400));
    let raised = buffer.clone();
    apply_areas(&mods, &mut buffer);
    assert_eq!(buffer, raised);
    let mut nothing: Vec<[i32; 3]> = vec![];
    assert_eq!(apply_points(&mods, &mut nothing, &plane.loc), (i32::MAX, i32::MIN));
}

#[test]
fn bounds_are_half_the_dimensions_to_each_side() {
    let mut plane = plane_with(ramp_policy(), vec![]);
    assert_eq!(plane.get_aabb(), AABB { min_x: -2000, max_x: 2000, min_z: -1000, max_z: 1000 });
    plane.dims = (2001, 7);
    assert_eq!(plane.get_aabb(), AABB { min_x: -1000, max_x: 1000, min_z: -3, max_z: 3 });
    plane.dims = (0, -4000);
    assert_eq!(plane.get_aabb(), AABB { min_x: 0, max_x: 0, min_z: 2000, max_z: -2000 });
    plane.dims = (i32::MAX, i32::MIN);
    assert_eq!(
        plane.get_aabb(),
        AABB { min_x: -1073741823, max_x: 1073741823, min_z: 1073741824, max_z: -1073741824 }
    );
}

#[test]
fn bounds_hold_every_vertex_of_the_grid() {
    for dims in [(4000, 2000), (2001, 7), (1, 1), (0, 0), (99999, 3)] {
        let mut plane = plane_with(ramp_policy(), vec![]);
        plane.dims = dims;
        plane.subdivisions = (3, 4);
        let bounds = plane.get_aabb();
        let mesh = plane_mesh(&plane.subdivisions, &plane.dims).unwrap();
        assert!(mesh.positions.iter().all(|p| bounds.has_point(p)));
    }
}

#[test]
fn spawn_plane_builds_and_applies() {
    let plane = plane_with(ramp_policy(), vec![ramp(), stairs()]);
    let spawned = spawn_plane(&plane).unwrap();
    let mut by_hand = flat_grid();
    plane.apply(&mut by_hand);
    assert_eq!(spawned, by_hand);
    assert_eq!(spawned.positions.len(), 6);
}

#[test]
fn spawn_plane_refuses_a_grid_too_large() {
    let mut plane = plane_with(ramp_policy(), vec![]);
    plane.subdivisions = (u32::MAX, u32::MAX);
    assert!(spawn_plane(&plane).is_none());
}

#[test]
fn plane_clone_is_equal() {
    let plane = plane_with(
        PlaneColor::Steps(vec![ColorStep { h: 5, clr: [1, 2, 3, 4] }]),
        vec![ramp(), stairs()],
    );
    assert_eq!(plane.clone(), plane);
}
