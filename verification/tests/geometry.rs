use museum::fixed::SCALE;
use museum::scene::{
    ColorRgb, CullFace, FloorBuilder, SceneBuilder, WallBuilder, WALL_HEIGHT,
};
use museum::vec2::Vec2;

fn v2(x: i64, z: i64) -> Vec2 {
    Vec2 { x, z }
}

#[test]
fn wall_quad_has_four_vertices_two_triangles() {
    let wall = WallBuilder::new(v2(0, 0), v2(2000, 0)).with_offset(100).with_height(3000);
    let built = wall.build();
    assert_eq!(built.mesh.vertices.len(), 4);
    assert_eq!(built.mesh.indices, vec![0u16, 2, 1, 3, 1, 2]);
}

#[test]
fn wall_normal_is_the_unit_perpendicular() {
    // An axis-aligned wall divides exactly: its normal is the unit
    // perpendicular with no rounding at all.
    let built = WallBuilder::new(v2(0, 0), v2(2000, 0)).build();
    let n = built.mesh.vertices[0].normal;
    assert_eq!((n.x, n.y, n.z), (0, 0, -1000));
    for v in &built.mesh.vertices {
        assert_eq!(v.normal, n);
    }
}

#[test]
fn oblique_wall_normal_is_unit_up_to_rounding() {
    let built = WallBuilder::new(v2(300, 400), v2(2000, 900)).build();
    let n = built.mesh.vertices[0].normal;
    // Segment direction (1700, 500), length floor 1772: the normal is the
    // perpendicular (500, -1700) scaled by SCALE and divided by the length,
    // each component rounded toward zero.
    assert_eq!((n.x, n.y, n.z), (282, 0, -959));
    // Unit length up to rounding: |n|^2 within the proven band around
    // SCALE^2.
    let norm2: i128 = (n.x as i128) * (n.x as i128) + (n.z as i128) * (n.z as i128);
    assert!(1000 * 1000 - 4 * 1000 <= norm2 && norm2 <= 1000 * 1000 + 6 * 1000 + 2);
    // Perpendicular up to rounding: the scalar product with the direction is
    // smaller than the sum of the direction's component magnitudes.
    let dot: i128 = (n.x as i128) * 1700 + (n.z as i128) * 500;
    assert!(dot.abs() < 1700 + 500);
    assert!(n.x != 0 || n.z != 0);
}

#[test]
fn wall_vertex_positions_follow_spec() {
    let wall = WallBuilder::new(v2(1000, 2000), v2(3000, 4000))
        .with_offset(500)
        .with_height(2500);
    let built = wall.build();
    let p: Vec<(i64, i64, i64)> = built
        .mesh
        .vertices
        .iter()
        .map(|v| (v.position.x, v.position.y, v.position.z))
        .collect();
    assert_eq!(p[0], (1000, 500, 2000));
    assert_eq!(p[1], (3000, 500, 4000));
    assert_eq!(p[2], (1000, 3000, 2000));
    assert_eq!(p[3], (3000, 3000, 4000));
}

#[test]
fn wall_uv_and_material_follow_the_descriptor() {
    let built = WallBuilder::new(v2(0, 0), v2(2000, 0))
        .with_tiles(3000, 2000)
        .with_transparency(true)
        .with_cull(CullFace::Back)
        .with_color(ColorRgb { r: 1, g: 2, b: 3 })
        .build();
    // Texture coordinates matched to the vertex order: bottom-left carries
    // the full repeat counts, top-right the origin.
    let uv: Vec<(i64, i64)> = built.mesh.vertices.iter().map(|v| (v.uv.u, v.uv.v)).collect();
    assert_eq!(uv, vec![(3000, 2000), (0, 2000), (3000, 0), (0, 0)]);
    assert!(built.material.transparent);
    assert_eq!(built.material.cull, Some(CullFace::Back));
    assert_eq!(built.material.color, ColorRgb { r: 1, g: 2, b: 3 });
}

#[test]
fn floor_uv_runs_from_origin_to_repeat_counts() {
    let built = FloorBuilder::new(v2(0, 0), v2(2000, 2000)).with_tiles(5000, 7000).build();
    let uv: Vec<(i64, i64)> = built.mesh.vertices.iter().map(|v| (v.uv.u, v.uv.v)).collect();
    assert_eq!(uv, vec![(0, 0), (5000, 0), (0, 7000), (5000, 7000)]);
    assert!(!built.material.transparent);
}

#[test]
fn wall_collider_caches_squared_length() {
    let built = WallBuilder::new(v2(0, 0), v2(3000, 4000)).build();
    let c = built.collider.expect("collision is on by default");
    assert_eq!(c.from, v2(0, 0));
    assert_eq!(c.to, v2(3000, 4000));
    assert_eq!(c.len2, 3000 * 3000 + 4000 * 4000);
}

#[test]
fn wall_without_collision_has_no_collider() {
    let built = WallBuilder::new(v2(0, 0), v2(1000, 0)).with_collision(false).build();
    assert!(built.collider.is_none());
}

#[test]
fn wall_defaults_match_builder_contract() {
    let w = WallBuilder::new(v2(0, 0), v2(1000, 0));
    assert!(w.collision);
    assert_eq!(w.h_off, 0);
    assert_eq!(w.height, WALL_HEIGHT);
    assert_eq!(w.texture, None);
    assert_eq!(w.tiles_wide, SCALE);
    assert_eq!(w.tiles_tall, SCALE);
    assert!(!w.transparent);
    assert_eq!(w.cull, None);
    assert_eq!(w.txt, None);
}

#[test]
fn autotile_by_length_ten_units_tile_two_gives_five() {
    // A wall from (0,0) to (10,0) world units with a two-unit texture tile
    // repeats five times along its length.
    let w = WallBuilder::new(v2(0, 0), v2(10000, 0)).autotile_len();
    assert_eq!(w.tiles_wide, 5 * SCALE);
}

#[test]
fn autotile_uses_length_and_height() {
    let w = WallBuilder::new(v2(0, 0), v2(3000, 4000)).with_height(2750).autotile();
    assert_eq!(w.tiles_wide, 5000);
    assert_eq!(w.tiles_tall, 2750);
}

#[test]
fn untextured_tint_sits_in_its_band() {
    // Along the reference axis the angle fraction is maximal, across it a
    // quarter turn: both tints stay in the 0.4..0.5 band.
    let along = WallBuilder::new(v2(0, 0), v2(0, 10000));
    let across = WallBuilder::new(v2(0, 0), v2(10000, 0));
    assert_eq!(across.color, ColorRgb { r: 450, g: 450, b: 450 });
    assert_eq!(along.color, ColorRgb { r: 500, g: 500, b: 500 });
    for w in [&along, &across] {
        assert!(400 <= w.color.r && w.color.r <= 500);
    }
}

#[test]
fn textured_tint_sits_in_the_brighter_band() {
    let w = WallBuilder::new(v2(0, 0), v2(10000, 0)).with_texture(5);
    assert_eq!(w.texture, Some(5));
    assert_eq!(w.color, ColorRgb { r: 650, g: 650, b: 650 });
}

#[test]
fn wall_midpoint_is_the_readable_trigger() {
    let built = WallBuilder::new(v2(0, 0), v2(4000, 2000)).with_text(11).build();
    let r = built.readable.expect("text panel attached");
    assert_eq!(r.text, 11);
    assert_eq!(r.point, v2(2000, 1000));
}

#[test]
fn floor_vertices_share_the_offset_elevation() {
    let built = FloorBuilder::new(v2(0, 0), v2(4000, 6000)).with_offset(250).build();
    assert_eq!(built.mesh.vertices.len(), 4);
    assert_eq!(built.mesh.indices, vec![0u16, 2, 1, 3, 1, 2]);
    for v in &built.mesh.vertices {
        assert_eq!(v.position.y, 250);
        assert_eq!((v.normal.x, v.normal.y, v.normal.z), (0, SCALE, 0));
    }
}

#[test]
fn floor_autotile_repeats_by_extent() {
    let f = FloorBuilder::new(v2(1000, 2000), v2(5000, 8000)).autotile();
    assert_eq!(f.tiles_wide, 2000);
    assert_eq!(f.tiles_tall, 3000);
}

#[test]
fn floor_defaults_and_styling() {
    let f = FloorBuilder::new(v2(0, 0), v2(1000, 1000));
    assert_eq!(f.color, ColorRgb { r: 700, g: 700, b: 700 });
    assert_eq!(f.height, 0);
    let f = f.with_brightness(900).with_cull(CullFace::Front).with_texture(3).with_tiles(7, 9);
    assert_eq!(f.color, ColorRgb { r: 900, g: 900, b: 900 });
    assert_eq!(f.cull, Some(CullFace::Front));
    assert_eq!(f.texture, Some(3));
    assert_eq!((f.tiles_wide, f.tiles_tall), (7, 9));
}

#[test]
fn scene_builder_builds_everything_in_order() {
    let scene = SceneBuilder::new()
        .with_wall(WallBuilder::new(v2(0, 0), v2(1000, 0)))
        .with_wall(WallBuilder::new(v2(1000, 0), v2(1000, 1000)).with_collision(false))
        .with_floor(FloorBuilder::new(v2(0, 0), v2(1000, 1000)))
        .finish();
    assert_eq!(scene.walls.len(), 2);
    assert_eq!(scene.floors.len(), 1);
    assert!(scene.walls[0].collider.is_some());
    assert!(scene.walls[1].collider.is_none());
    assert_eq!(scene.walls[1].mesh.vertices[0].position.x, 1000);
    // Only the colliding wall contributes a segment.
    let colliders = scene.colliders();
    assert_eq!(colliders.len(), 1);
    assert_eq!(colliders[0].from, v2(0, 0));
    assert_eq!(colliders[0].to, v2(1000, 0));
    assert_eq!(colliders[0].len2, 1_000_000);
}
