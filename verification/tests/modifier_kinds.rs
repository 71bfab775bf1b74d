use mtb_terrain::color_gradient::{Color32, ColorGradient};
use mtb_terrain::modifiers::{
    set_height, ColorData, Modifier, ModifierData, TerraceData, ValueData,
};
use mtb_terrain::noise::{lattice_value, NoiseData, NoiseFn};
use mtb_terrain::wave::{triangle_wave, WaveData};
use mtb_terrain::planes::PlaneData;
use mtb_terrain::color::PlaneColor;
use mtb_terrain::utils::{AABBs, AABB};
use mtb_terrain::wanders::{WanderNoise, Wanders};

fn bare_plane() -> PlaneData {
    PlaneData {
        name: String::from("plane"),
        loc: [100, 0, -200],
        subdivisions: (0, 1),
        dims: (4000, 2000),
        color: PlaneColor::Color([1000, 1000, 1000, 1000]),
        modifiers: vec![],
        active: true,
    }
}

fn sample(data: &NoiseData, x: i32, z: i32) -> i32 {
    data.apply(&data.set(), &[x, 0, z], &[0, 0, 0])
}

fn wander(height: i32) -> WanderNoise {
    WanderNoise {
        wander: Wanders::DrunkRobot,
        width: 500,
        height,
        source_edge: None,
        target_edge: None,
        source_point: None,
        target_point: None,
    }
}

#[test]
fn terrace_snaps_to_the_nearest_step() {
    let t = TerraceData { step: 500 };
    assert_eq!(t.apply(1240), 1000);
    assert_eq!(t.apply(1250), 1500);
    assert_eq!(t.apply(-1250), -1500);
    assert_eq!(t.apply(0), 0);
    assert_eq!(t.apply(249), 0);
    assert_eq!(t.apply(250), 500);
    assert_eq!(t.apply(-249), 0);
    assert_eq!(t.apply(-250), -500);
    assert_eq!(TerraceData { step: 700 }.apply(-350), -700);
    assert_eq!(TerraceData { step: 700 }.apply(-349), 0);
    assert_eq!(TerraceData { step: 1 }.apply(77), 77);
}

#[test]
fn terrace_without_a_positive_step_changes_nothing() {
    assert_eq!(TerraceData { step: 0 }.apply(1234), 1234);
    assert_eq!(TerraceData { step: -500 }.apply(1234), 1234);
    assert_eq!(TerraceData { step: i32::MIN }.apply(i32::MAX), i32::MAX);
}

#[test]
fn terrace_saturates_at_the_scalar_limits() {
    assert_eq!(TerraceData { step: i32::MAX }.apply(i32::MAX), i32::MAX);
    assert_eq!(TerraceData { step: i32::MAX }.apply(1073741824), i32::MAX);
    assert_eq!(TerraceData { step: i32::MAX }.apply(1073741823), 0);
    assert_eq!(TerraceData { step: 3 }.apply(i32::MAX), 2147483646);
    assert_eq!(TerraceData { step: 3 }.apply(i32::MIN), i32::MIN);
    assert_eq!(TerraceData { step: 1000000000 }.apply(1600000000), 2000000000);
    assert_eq!(TerraceData { step: 1500000000 }.apply(2000000000), 1500000000);
    assert_eq!(TerraceData { step: 1500000000 }.apply(i32::MIN), -1500000000);
}

#[test]
fn terracing_twice_is_terracing_once() {
    let t = TerraceData { step: 300 };
    for h in [-10000, -451, -450, -449, -1, 0, 1, 149, 150, 151, 9999] {
        let once = t.apply(h);
        assert_eq!(t.apply(once), once);
        assert_eq!(once % 300, 0);
        assert!((once - h).abs() <= 150);
    }
}

#[test]
fn value_is_a_linear_ramp() {
    assert_eq!(ValueData { base: 100, slope: [500, 0, 0] }.apply(&[2000, 7, 9]), 1100);
    assert_eq!(
        ValueData { base: -1000, slope: [250, 1000, -500] }.apply(&[3000, 2000, 1000]),
        1250
    );
    assert_eq!(ValueData { base: 42, slope: [0, 0, 0] }.apply(&[3000, 2000, 1000]), 42);
    // A slope of one along the height hands the height on, plus the base.
    assert_eq!(ValueData { base: 5, slope: [0, 1000, 0] }.apply(&[3000, 2000, 1000]), 2005);
    // The quotient rounds towards zero.
    assert_eq!(ValueData { base: 5, slope: [1, 1, 1] }.apply(&[-999, 0, 0]), 5);
    assert_eq!(ValueData { base: 5, slope: [1, 1, 1] }.apply(&[-1000, 0, 0]), 4);
}

#[test]
fn value_saturates_at_the_scalar_limits() {
    let max = i32::MAX;
    let min = i32::MIN;
    assert_eq!(ValueData { base: 0, slope: [max, max, max] }.apply(&[max, max, max]), max);
    assert_eq!(ValueData { base: 0, slope: [min, min, min] }.apply(&[max, max, max]), min);
    assert_eq!(ValueData { base: min, slope: [-1, 0, 0] }.apply(&[1, 0, 0]), min);
}

#[test]
fn triangle_wave_rises_and_falls_over_one_period() {
    let at = |t: i64| triangle_wave(4000, t);
    assert_eq!(
        [at(0), at(500), at(1000), at(1500), at(2000), at(3000), at(3500), at(4000)],
        [0, 500, 1000, 500, 0, -1000, -500, 0]
    );
    assert_eq!([at(-1000), at(-500), at(4500)], [-1000, -500, 500]);
    assert_eq!(triangle_wave(3000, 600), 800);
    assert_eq!(triangle_wave(3, 1), 666);
    assert_eq!(triangle_wave(3, 2), -666);
    assert_eq!(triangle_wave(7, -3), -285);
    assert_eq!(triangle_wave(1, 5), 0);
}

#[test]
fn triangle_wave_repeats_after_one_period() {
    for period in [1, 2, 3, 7, 1000, 4000, i32::MAX] {
        for t in [-9000i64, -4001, -1, 0, 1, 999, 1000, 2500, 123456] {
            let w = triangle_wave(period, t);
            assert_eq!(triangle_wave(period, t + period as i64), w);
            assert_eq!(triangle_wave(period, t - period as i64), w);
            assert!((-1000..=1000).contains(&w));
        }
    }
}

#[test]
fn triangle_wave_without_a_positive_period_is_flat() {
    assert_eq!(triangle_wave(0, 1234), 0);
    assert_eq!(triangle_wave(-4000, 1000), 0);
}

#[test]
fn wave_moves_the_whole_position() {
    let w = WaveData { period: 4000, amplitude: [100, 2000, -300] };
    assert_eq!(w.apply(&[500, 0, 0]), [550, 1000, -150]);
    assert_eq!(w.apply(&[1000, 2000, 0]), [900, 0, 300]);
    let u = WaveData { period: 3000, amplitude: [1000, 1000, 1000] };
    assert_eq!(u.apply(&[100, 200, 300]), [900, 1000, 1100]);
    assert_eq!(u.apply(&[3100, 200, 300]), [3900, 1000, 1100]);
}

#[test]
fn wave_without_a_positive_period_moves_nothing() {
    assert_eq!(WaveData { period: 0, amplitude: [100, 2000, -300] }.apply(&[500, 7, 9]), [500, 7, 9]);
    assert_eq!(WaveData { period: -4, amplitude: [100, 2000, -300] }.apply(&[500, 7, 9]), [500, 7, 9]);
}

#[test]
fn wave_saturates_at_the_scalar_limits() {
    let w = WaveData { period: 4000, amplitude: [i32::MAX, i32::MIN, 0] };
    assert_eq!(w.apply(&[i32::MAX, i32::MIN, 1000]), [i32::MAX, i32::MIN, 1000]);
    // A displacement of less than a thousandth rounds to nothing.
    let faint = WaveData { period: 4000, amplitude: [999, 0, 0] };
    assert_eq!(faint.apply(&[1, 0, 0]), [1, 0, 0]);
}

#[test]
fn wave_area_pass_shifts_on_the_horizontal_plane_only() {
    let w = WaveData { period: 4000, amplitude: [100, 2000, -300] };
    let mut buffer = vec![[500, 0, 0], [1000, 2000, 0], [0, 0, 0]];
    w.apply_area(&mut buffer);
    assert_eq!(buffer, vec![[550, 0, -150], [900, 2000, 300], [0, 0, 0]]);
}

#[test]
fn lattice_values_are_fixed_by_key_and_point() {
    let key = NoiseData { seed: 7, cell: 1000, amplitude: 2000 }.set().key;
    assert_eq!(key, 337908);
    let got: Vec<i64> = [(0, 0), (1, 0), (0, 1), (1, 1), (-1, -3), (2, 3), (3, 3), (2, 4), (3, 4)]
        .iter()
        .map(|(x, z)| lattice_value(key, *x, *z))
        .collect();
    assert_eq!(got, vec![-68, -91, -401, -101, -761, 834, -185, -42, 888]);
    assert_eq!(lattice_value(0, 0, 0), -136);
    assert_eq!(lattice_value(u32::MAX, 1000000000, -1000000000), 640);
    // The lattice repeats after 46337 points along X and 46349 along Z.
    assert_eq!(lattice_value(key, 46337, 46349), -68);
    assert_eq!(lattice_value(key, -46337, 0), -68);
    for x in -50..50 {
        for z in -50..50 {
            assert!((-1000..=1000).contains(&lattice_value(key, x, z)));
        }
    }
}

#[test]
fn noise_seed_gives_the_key() {
    assert_eq!(NoiseData { seed: 0, cell: 1, amplitude: 1 }.set().key, 11);
    assert_eq!(NoiseData { seed: u32::MAX, cell: 1, amplitude: 1 }.set().key, 48282);
    assert_eq!(NoiseData { seed: 2147483647, cell: 1, amplitude: 1 }.set().key, 11);
    let nfn = NoiseData { seed: 7, cell: 250, amplitude: -9 }.set();
    assert_eq!(nfn, NoiseFn { key: 337908, cell: 250, amplitude: -9 });
}

#[test]
fn noise_blends_the_lattice_values_around_a_point() {
    let data = NoiseData { seed: 7, cell: 1000, amplitude: 2000 };
    assert_eq!(sample(&data, 0, 0), -136);
    assert_eq!(sample(&data, 2000, 3000), 1668);
    assert_eq!(sample(&data, 1500, 2500), -96);
    assert_eq!(sample(&data, -250, -2750), -210);
    assert_eq!(sample(&data, 2999, 3001), -364);
    let along_x: Vec<i32> = (0..9).map(|i| sample(&data, i * 250, 0)).collect();
    assert_eq!(along_x, vec![-136, -146, -158, -170, -182, -514, -846, -1178, -1510]);
    let other = NoiseData { seed: 7, cell: 700, amplitude: -3000 };
    assert_eq!(sample(&other, 123456, -98765), -2088);
    assert_eq!(sample(&NoiseData { seed: 7, cell: 1000, amplitude: -2000 }, 1500, 2500), 96);
}

#[test]
fn noise_is_the_same_on_every_call() {
    let data = NoiseData { seed: 99, cell: 640, amplitude: 5000 };
    let first = data.set();
    let second = data.set();
    assert_eq!(first, second);
    for x in [-5000, -641, -1, 0, 1, 639, 640, 12345] {
        for z in [-7777, 0, 320, 64000] {
            let pos = [x, 0, z];
            assert_eq!(data.apply(&first, &pos, &[0, 0, 0]), data.apply(&second, &pos, &[0, 0, 0]));
        }
    }
}

#[test]
fn noise_stays_within_its_amplitude() {
    for amplitude in [0, 1, 999, 2000, -2000, 123456] {
        let data = NoiseData { seed: 3, cell: 170, amplitude };
        for x in -40..40 {
            for z in -40..40 {
                let h = sample(&data, x * 37, z * 41) as i64;
                assert!(h.abs() <= (amplitude as i64).abs());
            }
        }
    }
}

#[test]
fn noise_without_a_positive_cell_is_flat() {
    assert_eq!(sample(&NoiseData { seed: 7, cell: 0, amplitude: 2000 }, 1500, 2500), 0);
    assert_eq!(sample(&NoiseData { seed: 7, cell: -5, amplitude: 2000 }, 1, 2), 0);
}

#[test]
fn noise_is_laid_over_the_world() {
    let data = NoiseData { seed: 7, cell: 1000, amplitude: 2000 };
    let nfn = data.set();
    assert_eq!(data.apply(&nfn, &[1500, 0, 2500], &[100, 0, -200]), -318);
    assert_eq!(data.apply(&nfn, &[1500, 999, 2500], &[100, 55, -200]), sample(&data, 1600, 2300));
    assert_eq!(data.apply(&nfn, &[-2000, 0, -1000], &[100, 0, -200]), -1122);
    // Two planes side by side read the same field on their common edge.
    assert_eq!(
        data.apply(&nfn, &[2000, 0, 700], &[0, 0, 0]),
        data.apply(&nfn, &[-2000, 0, 700], &[4000, 0, 0])
    );
}

#[test]
fn noise_at_the_limits_of_the_scalar_range() {
    let data = NoiseData { seed: 123456789, cell: i32::MAX, amplitude: i32::MAX };
    let nfn = data.set();
    assert_eq!(
        data.apply(&nfn, &[i32::MAX, 0, i32::MIN], &[i32::MAX, 0, i32::MIN]),
        -1425929141
    );
    let fine = NoiseData { seed: 1, cell: 1, amplitude: i32::MAX };
    assert_eq!(sample(&fine, 5, 9), -878320811);
    let deep = NoiseData { seed: 1, cell: 1, amplitude: i32::MIN };
    assert_eq!(sample(&deep, 5, 9), 878320812);
}

#[test]
fn set_height_replaces_the_height_only() {
    assert_eq!(set_height(&[1, 2, 3], 9), [1, 9, 3]);
}

#[test]
fn wander_containment() {
    let w = wander(-3000);
    let empty = AABBs::new();
    for pos in [[0, 0, 0], [1234, -5678, 91011], [i32::MIN, i32::MAX, i32::MIN], [5, 7, 5]] {
        assert_eq!(w.apply(&pos, &empty), pos[1]);
    }
}

#[test]
fn wander_builds_no_boxes() {
    let w = wander(-3000);
    let boxes = w.aabbs(&bare_plane());
    assert_eq!(boxes.boxes.len(), 0);
    assert!(!boxes.has_point(&[0, 0, 0]));
}

#[test]
fn wander_sets_its_height_inside_a_box() {
    let w = wander(-3000);
    let path = AABBs {
        boxes: vec![
            AABB { min_x: 0, max_x: 1000, min_z: 0, max_z: 1000 },
            AABB { min_x: 3000, max_x: 4000, min_z: -500, max_z: 500 },
        ],
    };
    assert_eq!(w.apply(&[500, 77, 500], &path), -3000);
    assert_eq!(w.apply(&[3500, 77, 0], &path), -3000);
    // The edges belong to the box.
    assert_eq!(w.apply(&[0, 77, 1000], &path), -3000);
    assert_eq!(w.apply(&[4000, 77, -500], &path), -3000);
    // Outside every box the height passes through.
    assert_eq!(w.apply(&[2000, 77, 0], &path), 77);
    assert_eq!(w.apply(&[1001, 77, 500], &path), 77);
    assert_eq!(w.apply(&[500, 77, -1], &path), 77);
}

#[test]
fn boxes_test_the_horizontal_coordinates() {
    let b = AABB { min_x: -10, max_x: 10, min_z: 20, max_z: 30 };
    assert!(b.has_point(&[0, 999999, 25]));
    assert!(b.has_point(&[-10, 0, 20]));
    assert!(b.has_point(&[10, 0, 30]));
    assert!(!b.has_point(&[11, 0, 25]));
    assert!(!b.has_point(&[0, 0, 19]));
    let inverted = AABB { min_x: 10, max_x: -10, min_z: 20, max_z: 30 };
    assert!(!inverted.has_point(&[0, 0, 25]));
    let set = AABBs { boxes: vec![inverted, b] };
    assert!(set.has_point(&[0, 0, 25]));
    assert_eq!(set.clone(), set);
}

#[test]
fn modifiers_bind_to_their_plane() {
    let plane = bare_plane();
    let gradient = ColorGradient::new(Color32([0, 0, 0, 255]), Color32([255, 255, 255, 255]));
    let noise = NoiseData { seed: 7, cell: 1000, amplitude: 2000 };
    assert_eq!(
        ModifierData::Color(ColorData { clr: [1, 2, 3, 4] }).set(&plane),
        Modifier::Color(ColorData { clr: [1, 2, 3, 4] })
    );
    assert_eq!(
        ModifierData::ColorGradient(gradient).set(&plane),
        Modifier::ColorGradient(gradient)
    );
    assert_eq!(
        ModifierData::Noise(noise).set(&plane),
        Modifier::Noise(noise, NoiseFn { key: 337908, cell: 1000, amplitude: 2000 })
    );
    assert_eq!(
        ModifierData::Wander(wander(5)).set(&plane),
        Modifier::Wander(wander(5), AABBs { boxes: vec![] })
    );
    assert_eq!(
        ModifierData::Terrace(TerraceData { step: 3 }).set(&plane),
        Modifier::Terrace(TerraceData { step: 3 })
    );
}

#[test]
fn each_kind_has_its_point_pass() {
    let plane = bare_plane();
    let pos = [1500, 1240, 2500];
    let loc = plane.loc;
    let gradient = ColorGradient::new(Color32([0, 0, 0, 255]), Color32([255, 255, 255, 255]));
    let point = |data: ModifierData| data.set(&plane).apply_point(&pos, &loc);
    assert_eq!(point(ModifierData::Color(ColorData { clr: [1, 2, 3, 4] })), 1240);
    assert_eq!(point(ModifierData::ColorGradient(gradient)), 1240);
    assert_eq!(point(ModifierData::Value(ValueData { base: 100, slope: [500, 0, 0] })), 850);
    assert_eq!(
        point(ModifierData::Noise(NoiseData { seed: 7, cell: 1000, amplitude: 2000 })),
        -318
    );
    assert_eq!(
        point(ModifierData::Wave(WaveData { period: 4000, amplitude: [100, 2000, -300] })),
        1240 + 2000 * 760 / 1000
    );
    assert_eq!(point(ModifierData::Terrace(TerraceData { step: 500 })), 1000);
    assert_eq!(point(ModifierData::Wander(wander(-3000))), 1240);
}

#[test]
fn only_a_wave_has_an_area_pass() {
    let plane = bare_plane();
    let gradient = ColorGradient::new(Color32([0, 0, 0, 255]), Color32([255, 255, 255, 255]));
    let buffer = vec![[500, 0, 0], [1000, 2000, 0], [0, 0, 0]];
    let still = [
        ModifierData::Color(ColorData { clr: [1, 2, 3, 4] }),
        ModifierData::ColorGradient(gradient),
        ModifierData::Value(ValueData { base: 100, slope: [500, 0, 0] }),
        ModifierData::Noise(NoiseData { seed: 7, cell: 1000, amplitude: 2000 }),
        ModifierData::Terrace(TerraceData { step: 500 }),
        ModifierData::Wander(wander(-3000)),
    ];
    for data in still {
        let mut b = buffer.clone();
        data.set(&plane).apply_area(&mut b);
        assert_eq!(b, buffer);
    }
    let mut b = buffer.clone();
    ModifierData::Wave(WaveData { period: 4000, amplitude: [100, 2000, -300] })
        .set(&plane)
        .apply_area(&mut b);
    assert_eq!(b, vec![[550, 0, -150], [900, 2000, 300], [0, 0, 0]]);
}
