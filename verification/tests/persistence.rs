use mtb_terrain::color::{ColorGradient, PlaneColor};
use mtb_terrain::io::{
    collect_vertices, load_data, write_data, IOName, LoadError, PlaneEntity, SavePlaneData,
};
use mtb_terrain::modifiers::{ModifierData, TerraceData, ValueData};
use mtb_terrain::noise::NoiseData;
use mtb_terrain::wave::WaveData;
use mtb_terrain::planes::{spawn_plane, PlaneData, Planes};
use mtb_terrain::vertex::{spawn_vertex, Vertex, VertexEntity};

fn hills(name: &str, subdivisions: (u32, u32)) -> PlaneData {
    PlaneData {
        name: String::from(name),
        loc: [2000, 0, -3000],
        subdivisions,
        dims: (4000, 2000),
        color: PlaneColor::Gradient(ColorGradient {
            low: [0, 200, 0, 1000],
            high: [900, 900, 900, 1000],
        }),
        modifiers: vec![
            ModifierData::Noise(NoiseData { seed: 11, cell: 750, amplitude: 1800 }),
            ModifierData::Value(ValueData { base: 0, slope: [0, 1000, 100] }),
            ModifierData::Wave(WaveData { period: 3000, amplitude: [40, 300, 40] }),
            ModifierData::Terrace(TerraceData { step: 50 }),
        ],
        active: true,
    }
}

fn handles(vertices: &Vec<Vertex>) -> Vec<VertexEntity> {
    vertices
        .iter()
        .map(|v| VertexEntity { translation: v.loc, vertex: *v, picked: false })
        .collect()
}

#[test]
fn name_starts_empty() {
    assert_eq!(IOName::new().data, "");
}

#[test]
fn record_of_a_plane_has_no_overrides() {
    let plane = hills("north", (1, 2));
    let record = SavePlaneData::from_pd(&plane);
    assert_eq!(record.plane, plane);
    assert!(record.vertex.is_empty());
}

#[test]
fn record_without_overrides_spawns_the_plane_alone() {
    let plane = hills("north", (1, 2));
    let spawned = SavePlaneData::from_pd(&plane).spawn().unwrap();
    assert_eq!(spawned.mesh, spawn_plane(&plane).unwrap());
    assert!(spawned.skipped.is_empty());
    // The modifiers did run: the loaded plane is not the flat grid.
    assert!(spawned.mesh.positions.iter().any(|p| p[1] != 0));
}

#[test]
fn override_wins_over_the_modifier_stack() {
    let plane = hills("north", (1, 2));
    let procedural = spawn_plane(&plane).unwrap();
    let l = [123, -456, 789];
    let c = [10, 20, 30, 40];
    let record = SavePlaneData { plane, vertex: vec![Vertex::new(3, &l, &c)] };
    let spawned = record.spawn().unwrap();
    assert_ne!(procedural.positions[3], l);
    assert_eq!(spawned.mesh.positions[3], l);
    assert_eq!(spawned.mesh.colors[3], c);
    for i in (0..12).filter(|i| *i != 3) {
        assert_eq!(spawned.mesh.positions[i], procedural.positions[i]);
        assert_eq!(spawned.mesh.colors[i], procedural.colors[i]);
    }
}

#[test]
fn stale_overrides_are_reported_when_a_record_is_spawned() {
    // The overrides were authored on a finer grid than the plane has now.
    let plane = hills("north", (0, 0));
    let record = SavePlaneData {
        plane,
        vertex: vec![
            Vertex::new(0, &[1, 1, 1], &[1, 1, 1, 1]),
            Vertex::new(4, &[2, 2, 2], &[2, 2, 2, 2]),
            Vertex::new(3, &[3, 3, 3], &[3, 3, 3, 3]),
            Vertex::new(11, &[4, 4, 4], &[4, 4, 4, 4]),
        ],
    };
    let spawned = record.spawn().unwrap();
    assert_eq!(spawned.skipped, vec![1, 3]);
    assert_eq!(spawned.mesh.positions.len(), 4);
    assert_eq!(spawned.mesh.positions[0], [1, 1, 1]);
    assert_eq!(spawned.mesh.positions[3], [3, 3, 3]);
}

#[test]
fn save_load_round_trip() {
    let plane = hills("north", (2, 3));
    // The live scene: the plane as built, then edited by hand at N vertices.
    let mut live = spawn_plane(&plane).unwrap();
    let procedural = live.clone();
    let mut vertices = spawn_vertex(&live);
    for (i, l, c) in [
        (0usize, [5, 6, 7], [1, 2, 3, 4]),
        (7, [-50, 600, 70], [100, 200, 300, 400]),
        (19, [0, 0, 0], [0, 0, 0, 0]),
    ] {
        vertices[i].loc = l;
        vertices[i].clr = c;
        live.positions[i] = l;
        live.colors[i] = c;
    }
    let scene = vec![PlaneEntity { data: plane.clone(), children: (0..20).collect() }];
    let records = write_data(&handles(&vertices), &scene);
    assert_eq!(records.len(), 1);
    assert_eq!(records[0].plane, plane);
    assert_eq!(records[0].vertex, vertices);

    let loaded = load_data(&records).unwrap();
    assert_eq!(loaded.len(), 1);
    assert!(loaded[0].skipped.is_empty());
    assert_eq!(loaded[0].mesh, live);
    for i in [0, 7, 19] {
        assert_eq!(loaded[0].mesh.positions[i], vertices[i].loc);
        assert_eq!(loaded[0].mesh.colors[i], vertices[i].clr);
    }
    for i in (0..20).filter(|i| ![0, 7, 19].contains(i)) {
        assert_eq!(loaded[0].mesh.positions[i], procedural.positions[i]);
        assert_eq!(loaded[0].mesh.colors[i], procedural.colors[i]);
    }
}

#[test]
fn save_load_round_trip_with_overrides_at_some_vertices_only() {
    let plane = hills("south", (1, 1));
    let procedural = spawn_plane(&plane).unwrap();
    let overrides = vec![
        Vertex::new(8, &[1, 2, 3], &[4, 5, 6, 7]),
        Vertex::new(2, &[8, 9, 10], &[11, 12, 13, 14]),
    ];
    let arena = handles(&overrides);
    let scene = vec![PlaneEntity { data: plane, children: vec![0, 1] }];
    let first = load_data(&write_data(&arena, &scene)).unwrap();
    let second = load_data(&write_data(&arena, &scene)).unwrap();
    assert_eq!(first, second);
    assert_eq!(first[0].mesh.positions[8], [1, 2, 3]);
    assert_eq!(first[0].mesh.colors[2], [11, 12, 13, 14]);
    for i in [0, 1, 3, 4, 5, 6, 7] {
        assert_eq!(first[0].mesh.positions[i], procedural.positions[i]);
        assert_eq!(first[0].mesh.colors[i], procedural.colors[i]);
    }
}

#[test]
fn write_data_pairs_each_plane_with_its_own_children() {
    let arena = handles(&vec![
        Vertex::new(0, &[0, 0, 0], &[0, 0, 0, 0]),
        Vertex::new(1, &[1, 1, 1], &[1, 1, 1, 1]),
        Vertex::new(0, &[2, 2, 2], &[2, 2, 2, 2]),
        Vertex::new(3, &[3, 3, 3], &[3, 3, 3, 3]),
    ]);
    let scene = vec![
        PlaneEntity { data: hills("a", (0, 0)), children: vec![1, 0] },
        PlaneEntity { data: hills("b", (0, 1)), children: vec![] },
        // 7 and 4 are no vertices of the scene: a label, a light.
        PlaneEntity { data: hills("c", (1, 0)), children: vec![7, 3, 4, 2] },
    ];
    let records = write_data(&arena, &scene);
    assert_eq!(records.len(), 3);
    assert_eq!(records[0].plane.name, "a");
    assert_eq!(records[0].vertex, vec![arena[1].vertex, arena[0].vertex]);
    assert_eq!(records[1].plane, hills("b", (0, 1)));
    assert!(records[1].vertex.is_empty());
    assert_eq!(records[2].plane.subdivisions, (1, 0));
    assert_eq!(records[2].vertex, vec![arena[3].vertex, arena[2].vertex]);
    assert_eq!(collect_vertices(&vec![2, 2, 9], &arena), vec![arena[2].vertex, arena[2].vertex]);
    assert!(write_data(&arena, &vec![]).is_empty());
}

#[test]
fn load_builds_every_plane_in_order() {
    let records = vec![
        SavePlaneData::from_pd(&hills("a", (0, 0))),
        SavePlaneData::from_pd(&hills("b", (3, 1))),
    ];
    let loaded = load_data(&records).unwrap();
    assert_eq!(loaded.len(), 2);
    assert_eq!(loaded[0].mesh.positions.len(), 4);
    assert_eq!(loaded[1].mesh.positions.len(), 15);
    assert_eq!(loaded[1].mesh, spawn_plane(&hills("b", (3, 1))).unwrap());
    assert_eq!(load_data(&vec![]), Ok(vec![]));
}

#[test]
fn load_fails_as_a_whole_on_a_grid_too_large() {
    let records = vec![
        SavePlaneData::from_pd(&hills("a", (0, 0))),
        SavePlaneData::from_pd(&hills("b", (u32::MAX, 7))),
        SavePlaneData::from_pd(&hills("c", (u32::MAX, u32::MAX))),
    ];
    assert_eq!(load_data(&records), Err(LoadError::GridTooLarge(1)));
    assert!(records[1].spawn().is_none());
}

#[test]
fn planes_hold_their_list() {
    let planes = Planes { planes: vec![hills("a", (0, 0)), hills("b", (0, 1))] };
    assert_eq!(planes.planes.len(), 2);
    assert_eq!(planes.planes[1].name, "b");
}
