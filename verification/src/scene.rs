//! The geometry builder: declarative wall and floor descriptors are turned
//! into renderable quad meshes (positions, normals, texture coordinates,
//! triangle indices), material settings, and — for walls with collision — an
//! immutable collision segment.
//!
//! Textures, fonts and entity handles of the host engine are carried through
//! as plain numeric identifiers; the adapter around the crate maps them to
//! real resources.

use vstd::prelude::*;

use crate::collide::{wf_collider, LineCollider};
use crate::fixed::{
    abs_i64, div_tz, div_tz_spec, isqrt, lemma_div_tz_mag, lemma_div_tz_remainder, lemma_mul_mag,
    lemma_sqrt_floor, lemma_sqrt_floor_ge, lemma_sqrt_floor_le, lemma_square_nonneg, mag,
    sqrt_floor, SCALE, WORLD_LIMIT,
};
use crate::vec2::{in_box2, sq_dist2, Vec2, Vec3};

verus! {

/// Default wall height, in fixed-point world units.
pub const WALL_HEIGHT: i64 = 3700;

/// Which face of a surface the renderer is asked to cull.
#[derive(Clone, Copy, PartialEq, Eq, Structural, Debug)]
pub enum CullFace {
    Front,
    Back,
}

/// A flat tint, each channel fixed-point in `[0, SCALE]`.
#[derive(Clone, Copy, PartialEq, Eq, Structural, Debug)]
pub struct ColorRgb {
    pub r: i64,
    pub g: i64,
    pub b: i64,
}

/// A texture coordinate pair, fixed-point (one unit is one texture repeat).
#[derive(Clone, Copy, PartialEq, Eq, Structural, Debug)]
pub struct Uv {
    pub u: i64,
    pub v: i64,
}

/// One mesh vertex: position, flat normal and texture coordinates.
#[derive(Clone, Copy, PartialEq, Eq, Structural, Debug)]
pub struct Vertex {
    pub position: Vec3,
    pub normal: Vec3,
    pub uv: Uv,
}

/// A triangle-list mesh.
#[derive(Clone, Debug)]
pub struct Mesh {
    pub vertices: Vec<Vertex>,
    pub indices: Vec<u16>,
}

/// The mathematical content of a [`Mesh`].
pub ghost struct MeshModel {
    pub vertices: Seq<Vertex>,
    pub indices: Seq<u16>,
}

impl View for Mesh {
    type V = MeshModel;

    open spec fn view(&self) -> MeshModel {
        MeshModel { vertices: self.vertices@, indices: self.indices@ }
    }
}

/// Material settings forwarded to the renderer together with a quad.
#[derive(Clone, Copy, Debug)]
pub struct Material {
    pub color: ColorRgb,
    pub texture: Option<u64>,
    pub cull: Option<CullFace>,
    pub transparent: bool,
}

/// A point of interest attached to a wall: the text panel to open and the
/// trigger point (the wall's midpoint).
#[derive(Clone, Copy, PartialEq, Eq, Structural, Debug)]
pub struct Readable {
    pub text: u64,
    pub point: Vec2,
}

/// Everything one wall descriptor builds.
#[derive(Clone, Debug)]
pub struct BuiltWall {
    pub mesh: Mesh,
    pub material: Material,
    pub collider: Option<LineCollider>,
    pub readable: Option<Readable>,
}

/// The mathematical content of a [`BuiltWall`].
pub ghost struct BuiltWallModel {
    pub mesh: MeshModel,
    pub material: Material,
    pub collider: Option<LineCollider>,
    pub readable: Option<Readable>,
}

impl View for BuiltWall {
    type V = BuiltWallModel;

    open spec fn view(&self) -> BuiltWallModel {
        BuiltWallModel {
            mesh: self.mesh@,
            material: self.material,
            collider: self.collider,
            readable: self.readable,
        }
    }
}

/// The fraction of a full turn between a planar direction and the reference
/// axis `+z`, as a fixed-point value in `[0, SCALE/2]`. It is the piecewise
/// linear angle of the diamond metric: `0` along `+z`, a quarter of `SCALE`
/// across it, half of `SCALE` along `-z`. The walls' tint is derived from it
/// as a cheap stand-in for directional shading in an unlit render mode; the
/// exact shape of the ramp is cosmetic.
pub open spec fn angle_frac(d: Vec2) -> int {
    let n = mag(d.x as int) + mag(d.z as int);
    if d.z >= 0 {
        div_tz_spec(mag(d.x as int) * (SCALE as int / 4), n)
    } else {
        SCALE as int / 2 - div_tz_spec(mag(d.x as int) * (SCALE as int / 4), n)
    }
}

/// The grey tint derived from a wall's planar direction `d = from - to`:
/// `0.4 + 0.2 * frac` of full brightness for an untextured wall and
/// `0.6 + 0.2 * frac` once a texture is applied, `frac` being the angle
/// fraction in `[0, 1/2]`. The bands are therefore `[0.4, 0.5]` and
/// `[0.6, 0.7]` of full brightness.
pub open spec fn wall_tint(d: Vec2, textured: bool) -> int {
    let base: int = if textured {
        600
    } else {
        400
    };
    base + div_tz_spec(angle_frac(d), 5)
}

/// Executable angle fraction; see [`angle_frac`].
fn angle_frac_exec(d: Vec2) -> (r: i64)
    requires
        in_box2(d, 2 * WORLD_LIMIT as int),
        !(d.x == 0 && d.z == 0),
    ensures
        r == angle_frac(d),
        0 <= r <= SCALE / 2,
{
    let ax = abs_i64(d.x);
    let az = abs_i64(d.z);
    let n = ax + az;
    proof {
        lemma_mul_mag(ax as int, 250, 0x100000, 250);
        lemma_div_tz_mag((ax as int) * 250, n as int, 250);
        assert((ax as int) * 250 <= (n as int) * 250) by (nonlinear_arith)
            requires
                0 <= ax <= n,
        ;
        assert(div_tz_spec((ax as int) * 250, n as int) >= 0);
    }
    let q = div_tz((ax as i128) * 250, n as i128) as i64;
    if d.z >= 0 {
        q
    } else {
        500 - q
    }
}

/// Executable wall tint; see [`wall_tint`].
fn wall_tint_exec(d: Vec2, textured: bool) -> (r: i64)
    requires
        in_box2(d, 2 * WORLD_LIMIT as int),
        !(d.x == 0 && d.z == 0),
    ensures
        r == wall_tint(d, textured),
        !textured ==> 400 <= r <= 500,
        textured ==> 600 <= r <= 700,
{
    let frac = angle_frac_exec(d);
    proof {
        lemma_div_tz_mag(frac as int, 5, 100);
        assert(div_tz_spec(frac as int, 5) >= 0);
    }
    let shade = div_tz(frac as i128, 5) as i64;
    if textured {
        600 + shade
    } else {
        400 + shade
    }
}

/// The fixed-point length of the planar segment from `a` to `b` (rounded
/// down; coordinates are fixed-point, so this is the world length times
/// [`SCALE`]).
pub open spec fn seg_length(a: Vec2, b: Vec2) -> int {
    sqrt_floor(sq_dist2(a, b) as nat) as int
}

/// Executable segment length; see [`seg_length`].
fn seg_length_exec(a: Vec2, b: Vec2) -> (r: i64)
    requires
        in_box2(a, WORLD_LIMIT as int),
        in_box2(b, WORLD_LIMIT as int),
    ensures
        r == seg_length(a, b),
        0 <= r <= 0x200000,
{
    let dx: i128 = (b.x - a.x) as i128;
    let dz: i128 = (b.z - a.z) as i128;
    proof {
        lemma_mul_mag(dx as int, dx as int, 0x100000, 0x100000);
        lemma_mul_mag(dz as int, dz as int, 0x100000, 0x100000);
        lemma_square_nonneg(dx as int);
        lemma_square_nonneg(dz as int);
    }
    let n: u128 = (dx * dx + dz * dz) as u128;
    let r = isqrt(n);
    proof {
        crate::fixed::lemma_sqrt_floor_le(n as nat, 0x200000);
        assert(0x200000 * 0x200000 == 0x40000000000) by (nonlinear_arith);
    }
    r as i64
}

/// A declarative wall: a styled line segment in the horizontal plane,
/// extruded vertically into a single-sided quad.
#[derive(Clone, Copy, Debug)]
pub struct WallBuilder {
    /// Whether this wall contributes a collision segment.
    pub collision: bool,
    /// Base elevation of the quad above the ground plane.
    pub h_off: i64,
    /// Vertical extent of the quad.
    pub height: i64,
    /// Texture of the wall, if any.
    pub texture: Option<u64>,
    /// Tint of the wall.
    pub color: ColorRgb,
    /// Where the wall begins.
    pub from: Vec2,
    /// Where the wall ends.
    pub to: Vec2,
    /// How many times the texture repeats horizontally (fixed-point; a
    /// negative count flips the texture).
    pub tiles_wide: i64,
    /// How many times the texture repeats vertically (fixed-point).
    pub tiles_tall: i64,
    /// Whether the surface uses alpha blending instead of opaque rendering.
    pub transparent: bool,
    /// Which face to cull, if any.
    pub cull: Option<CullFace>,
    /// Text panel shown when the wall is inspected, if any.
    pub txt: Option<u64>,
}

/// A wall descriptor is well formed when its endpoints are distinct level
/// coordinates and its vertical extents are in coordinate range.
pub open spec fn wf_wall(w: WallBuilder) -> bool {
    &&& in_box2(w.from, WORLD_LIMIT as int)
    &&& in_box2(w.to, WORLD_LIMIT as int)
    &&& w.from != w.to
    &&& mag(w.height as int) <= WORLD_LIMIT
    &&& mag(w.h_off as int) <= WORLD_LIMIT
}

/// The planar direction `from - to` a wall's tint and normal derive from.
pub open spec fn wall_dir(w: WallBuilder) -> Vec2 {
    Vec2 { x: (w.from.x - w.to.x) as i64, z: (w.from.z - w.to.z) as i64 }
}

/// The flat normal of a wall quad: the perpendicular of `from - to` in the
/// horizontal plane, scaled to the fixed-point unit length. Each component is
/// the exact scaled value rounded toward zero, so the magnitude misses the
/// unit by at most a few subunits and the deviation from exact
/// perpendicularity stays below one subunit per component; see
/// [`lemma_wall_quad_shape`] and [`lemma_wall_normal_unit`].
pub open spec fn wall_normal(w: WallBuilder) -> Vec3 {
    let len = seg_length(w.from, w.to);
    Vec3 {
        x: div_tz_spec((w.to.z - w.from.z) * (SCALE as int), len) as i64,
        y: 0,
        z: div_tz_spec((w.from.x - w.to.x) * (SCALE as int), len) as i64,
    }
}

/// A non-degenerate wall has a positive fixed-point length, and neither
/// component of its planar direction exceeds that length in magnitude.
pub proof fn lemma_wall_length(w: WallBuilder)
    requires
        wf_wall(w),
    ensures
        1 <= seg_length(w.from, w.to) <= 0x200000,
        mag(w.to.x - w.from.x) <= seg_length(w.from, w.to),
        mag(w.to.z - w.from.z) <= seg_length(w.from, w.to),
{
    let dx = w.to.x - w.from.x;
    let dz = w.to.z - w.from.z;
    let len2 = sq_dist2(w.from, w.to);
    lemma_mul_mag(dx, dx, 0x100000, 0x100000);
    lemma_mul_mag(dz, dz, 0x100000, 0x100000);
    lemma_square_nonneg(dx);
    lemma_square_nonneg(dz);
    assert(dx != 0 || dz != 0);
    assert(len2 > 0) by (nonlinear_arith)
        requires
            dx != 0 || dz != 0,
            len2 == dx * dx + dz * dz,
    ;
    lemma_sqrt_floor_ge(len2 as nat, 1);
    assert(0x200000 * 0x200000 == 0x40000000000) by (nonlinear_arith);
    lemma_sqrt_floor_le(len2 as nat, 0x200000);
    lemma_sqrt_floor(len2 as nat);
    let l = sqrt_floor(len2 as nat) as int;
    assert(-l <= dx <= l) by (nonlinear_arith)
        requires
            dx * dx <= len2,
            len2 < (l + 1) * (l + 1),
            l >= 0,
    ;
    assert(-l <= dz <= l) by (nonlinear_arith)
        requires
            dz * dz <= len2,
            len2 < (l + 1) * (l + 1),
            l >= 0,
    ;
}

/// The four vertices of a wall quad: bottom-left, bottom-right, top-left,
/// top-right, with texture coordinates matched to that order so the texture
/// is upright.
pub open spec fn wall_vertices(w: WallBuilder) -> Seq<Vertex> {
    let n = wall_normal(w);
    let top = (w.h_off + w.height) as i64;
    seq![
        Vertex {
            position: Vec3 { x: w.from.x, y: w.h_off, z: w.from.z },
            normal: n,
            uv: Uv { u: w.tiles_wide, v: w.tiles_tall },
        },
        Vertex {
            position: Vec3 { x: w.to.x, y: w.h_off, z: w.to.z },
            normal: n,
            uv: Uv { u: 0, v: w.tiles_tall },
        },
        Vertex {
            position: Vec3 { x: w.from.x, y: top, z: w.from.z },
            normal: n,
            uv: Uv { u: w.tiles_wide, v: 0 },
        },
        Vertex {
            position: Vec3 { x: w.to.x, y: top, z: w.to.z },
            normal: n,
            uv: Uv { u: 0, v: 0 },
        },
    ]
}

/// The two triangles of every quad, as vertex indices with a consistent
/// winding, sharing the diagonal between the first and last vertices.
pub open spec fn quad_indices() -> Seq<u16> {
    seq![0u16, 2u16, 1u16, 3u16, 1u16, 2u16]
}

/// The midpoint of a wall, used as the trigger point of its text panel.
pub open spec fn wall_midpoint(w: WallBuilder) -> Vec2 {
    Vec2 {
        x: div_tz_spec(w.from.x + w.to.x, 2) as i64,
        z: div_tz_spec(w.from.z + w.to.z, 2) as i64,
    }
}

/// Everything [`WallBuilder::build`] produces, as one mathematical value.
pub open spec fn wall_parts(w: WallBuilder) -> BuiltWallModel {
    BuiltWallModel {
        mesh: MeshModel { vertices: wall_vertices(w), indices: quad_indices() },
        material: Material {
            color: w.color,
            texture: w.texture,
            cull: w.cull,
            transparent: w.transparent,
        },
        collider: if w.collision {
            Some(LineCollider { from: w.from, to: w.to, len2: sq_dist2(w.from, w.to) as i64 })
        } else {
            None
        },
        readable: match w.txt {
            Some(t) => Some(Readable { text: t, point: wall_midpoint(w) }),
            None => None,
        },
    }
}

impl WallBuilder {
    /// Create a new wall with the default height, collision enabled, no
    /// texture, and a grey tint derived from the wall's planar angle.
    pub fn new(from: Vec2, to: Vec2) -> (w: WallBuilder)
        requires
            in_box2(from, WORLD_LIMIT as int),
            in_box2(to, WORLD_LIMIT as int),
            from != to,
        ensures
            w == (WallBuilder {
                collision: true,
                h_off: 0,
                height: WALL_HEIGHT,
                texture: None,
                color: grey(wall_tint(Vec2 { x: (from.x - to.x) as i64, z: (from.z - to.z) as i64 }, false)),
                from,
                to,
                tiles_wide: SCALE,
                tiles_tall: SCALE,
                transparent: false,
                cull: None,
                txt: None,
            }),
            wf_wall(w),
    {
        let d = Vec2 { x: from.x - to.x, z: from.z - to.z };
        let tint = wall_tint_exec(d, false);
        WallBuilder {
            collision: true,
            h_off: 0,
            height: WALL_HEIGHT,
            texture: None,
            color: ColorRgb { r: tint, g: tint, b: tint },
            from,
            to,
            tiles_wide: SCALE,
            tiles_tall: SCALE,
            transparent: false,
            cull: None,
            txt: None,
        }
    }

    /// Attach a text panel shown when this wall is inspected.
    pub fn with_text(self, txt: u64) -> (w: WallBuilder)
        ensures
            w == (WallBuilder { txt: Some(txt), ..self }),
    {
        WallBuilder { txt: Some(txt), ..self }
    }

    /// Set which face the renderer culls.
    pub fn with_cull(self, cull: CullFace) -> (w: WallBuilder)
        ensures
            w == (WallBuilder { cull: Some(cull), ..self }),
    {
        WallBuilder { cull: Some(cull), ..self }
    }

    /// Set how many times the texture repeats, horizontally and vertically
    /// (fixed-point counts).
    pub fn with_tiles(self, wide: i64, tall: i64) -> (w: WallBuilder)
        ensures
            w == (WallBuilder { tiles_wide: wide, tiles_tall: tall, ..self }),
    {
        WallBuilder { tiles_wide: wide, tiles_tall: tall, ..self }
    }

    /// Derive the texture repeats from the wall's size: its planar length
    /// across (texture unit of one world unit), its height up.
    pub fn autotile(self) -> (w: WallBuilder)
        requires
            wf_wall(self),
        ensures
            w == (WallBuilder {
                tiles_wide: seg_length(self.from, self.to) as i64,
                tiles_tall: self.height,
                ..self
            }),
    {
        let len = seg_length_exec(self.from, self.to);
        let tall = self.height;
        WallBuilder { tiles_wide: len, tiles_tall: tall, ..self }
    }

    /// Derive the horizontal texture repeats from the wall's length with a
    /// texture unit of two world units, keeping one repeat vertically.
    pub fn autotile_len(self) -> (w: WallBuilder)
        requires
            wf_wall(self),
        ensures
            w == (WallBuilder {
                tiles_wide: (seg_length(self.from, self.to) / 2) as i64,
                ..self
            }),
    {
        let len = seg_length_exec(self.from, self.to);
        WallBuilder { tiles_wide: len / 2, ..self }
    }

    /// Apply a texture; the tint moves to the brighter band used under a
    /// texture.
    pub fn with_texture(self, texture: u64) -> (w: WallBuilder)
        requires
            wf_wall(self),
        ensures
            w == (WallBuilder {
                texture: Some(texture),
                color: grey(wall_tint(wall_dir(self), true)),
                ..self
            }),
    {
        let d = Vec2 { x: self.from.x - self.to.x, z: self.from.z - self.to.z };
        let tint = wall_tint_exec(d, true);
        WallBuilder {
            texture: Some(texture),
            color: ColorRgb { r: tint, g: tint, b: tint },
            ..self
        }
    }

    /// Set the base elevation above the ground plane.
    pub fn with_offset(self, off: i64) -> (w: WallBuilder)
        ensures
            w == (WallBuilder { h_off: off, ..self }),
    {
        WallBuilder { h_off: off, ..self }
    }

    /// Set the vertical extent of the quad.
    pub fn with_height(self, height: i64) -> (w: WallBuilder)
        ensures
            w == (WallBuilder { height, ..self }),
    {
        WallBuilder { height, ..self }
    }

    /// Override the tint.
    pub fn with_color(self, color: ColorRgb) -> (w: WallBuilder)
        ensures
            w == (WallBuilder { color, ..self }),
    {
        WallBuilder { color, ..self }
    }

    /// Enable or disable the collision segment.
    pub fn with_collision(self, collision: bool) -> (w: WallBuilder)
        ensures
            w == (WallBuilder { collision, ..self }),
    {
        WallBuilder { collision, ..self }
    }

    /// Enable or disable alpha blending for this wall's surface.
    pub fn with_transparency(self, transparent: bool) -> (w: WallBuilder)
        ensures
            w == (WallBuilder { transparent, ..self }),
    {
        WallBuilder { transparent, ..self }
    }

    /// Build the wall: exactly one quad of four vertices and two triangles,
    /// the fixed-point unit perpendicular of `from - to` as the flat normal
    /// on every vertex, texture coordinates matched to the vertex order, and
    /// — when collision is enabled — exactly one collision segment with its
    /// squared length cached.
    pub fn build(&self) -> (r: BuiltWall)
        requires
            wf_wall(*self),
        ensures
            r@ == wall_parts(*self),
    {
        proof {
            lemma_wall_length(*self);
        }
        let l = seg_length_exec(self.from, self.to);
        let ax: i128 = (self.to.z - self.from.z) as i128;
        let az: i128 = (self.from.x - self.to.x) as i128;
        proof {
            lemma_mul_mag(ax as int, SCALE as int, l as int, SCALE as int);
            lemma_mul_mag(az as int, SCALE as int, l as int, SCALE as int);
            lemma_div_tz_mag((ax as int) * (SCALE as int), l as int, SCALE as int);
            lemma_div_tz_mag((az as int) * (SCALE as int), l as int, SCALE as int);
        }
        let nx: i64 = div_tz(ax * (SCALE as i128), l as i128) as i64;
        let nz: i64 = div_tz(az * (SCALE as i128), l as i128) as i64;
        let n = Vec3 { x: nx, y: 0, z: nz };
        proof {
            assert(n == wall_normal(*self));
        }
        let top = self.h_off + self.height;
        let vertices: Vec<Vertex> = vec![
            Vertex {
                position: Vec3 { x: self.from.x, y: self.h_off, z: self.from.z },
                normal: n,
                uv: Uv { u: self.tiles_wide, v: self.tiles_tall },
            },
            Vertex {
                position: Vec3 { x: self.to.x, y: self.h_off, z: self.to.z },
                normal: n,
                uv: Uv { u: 0, v: self.tiles_tall },
            },
            Vertex {
                position: Vec3 { x: self.from.x, y: top, z: self.from.z },
                normal: n,
                uv: Uv { u: self.tiles_wide, v: 0 },
            },
            Vertex {
                position: Vec3 { x: self.to.x, y: top, z: self.to.z },
                normal: n,
                uv: Uv { u: 0, v: 0 },
            },
        ];
        let indices: Vec<u16> = vec![0u16, 2u16, 1u16, 3u16, 1u16, 2u16];
        let collider = if self.collision {
            Some(LineCollider::new(self.from, self.to))
        } else {
            None
        };
        let readable = match self.txt {
            Some(t) => {
                let mx = div_tz(self.from.x as i128 + self.to.x as i128, 2) as i64;
                let mz = div_tz(self.from.z as i128 + self.to.z as i128, 2) as i64;
                proof {
                    lemma_div_tz_mag(self.from.x as int + self.to.x as int, 2, WORLD_LIMIT as int);
                    lemma_div_tz_mag(self.from.z as int + self.to.z as int, 2, WORLD_LIMIT as int);
                }
                Some(Readable { text: t, point: Vec2 { x: mx, z: mz } })
            },
            None => None,
        };
        proof {
            assert(wall_vertices(*self) =~= seq![
                vertices@[0],
                vertices@[1],
                vertices@[2],
                vertices@[3],
            ]);
            assert(vertices@ =~= wall_vertices(*self));
            assert(indices@ =~= quad_indices());
        }
        BuiltWall {
            mesh: Mesh { vertices, indices },
            material: Material {
                color: self.color,
                texture: self.texture,
                cull: self.cull,
                transparent: self.transparent,
            },
            collider,
            readable,
        }
    }
}

/// The collision segment of a wall with collision enabled is well formed: its
/// endpoints are the wall's distinct level coordinates and its cached squared
/// length is the true one — exactly what the motion resolver relies on.
pub proof fn lemma_wall_collider_wf(w: WallBuilder)
    requires
        wf_wall(w),
    ensures
        w.collision ==> wall_parts(w).collider == Some(
            LineCollider { from: w.from, to: w.to, len2: sq_dist2(w.from, w.to) as i64 },
        ),
        !w.collision ==> wall_parts(w).collider is None,
        match wall_parts(w).collider {
            Some(c) => wf_collider(c),
            None => true,
        },
{
    if w.collision {
        crate::fixed::lemma_mul_mag(w.to.x - w.from.x, w.to.x - w.from.x, 0x80000, 0x80000);
        crate::fixed::lemma_mul_mag(w.to.z - w.from.z, w.to.z - w.from.z, 0x80000, 0x80000);
    }
}

/// A grey tint with the given brightness on every channel.
pub open spec fn grey(v: int) -> ColorRgb {
    ColorRgb { r: v as i64, g: v as i64, b: v as i64 }
}

/// The fixed upward normal of every floor vertex (unit length in fixed-point).
pub open spec fn floor_normal() -> Vec3 {
    Vec3 { x: 0, y: SCALE, z: 0 }
}

/// A declarative floor (or ceiling): a styled axis-aligned rectangle lying in
/// a horizontal plane.
#[derive(Clone, Copy, Debug)]
pub struct FloorBuilder {
    /// One corner of the rectangle.
    pub from: Vec2,
    /// The opposite corner.
    pub to: Vec2,
    /// Texture of the floor, if any.
    pub texture: Option<u64>,
    /// Tint of the floor.
    pub color: ColorRgb,
    /// Elevation of the plane the rectangle lies in.
    pub height: i64,
    /// How many times the texture repeats along x (fixed-point).
    pub tiles_wide: i64,
    /// How many times the texture repeats along z (fixed-point).
    pub tiles_tall: i64,
    /// Which face to cull, if any.
    pub cull: Option<CullFace>,
}

/// A floor descriptor is well formed when its corners are level coordinates
/// and its elevation is in coordinate range. Degenerate rectangles are
/// permitted: a floor has no direction-derived styling and no collider.
pub open spec fn wf_floor(f: FloorBuilder) -> bool {
    &&& in_box2(f.from, WORLD_LIMIT as int)
    &&& in_box2(f.to, WORLD_LIMIT as int)
    &&& mag(f.height as int) <= WORLD_LIMIT
}

/// The four vertices of a floor quad, all at the same elevation, with the
/// fixed upward normal.
pub open spec fn floor_vertices(f: FloorBuilder) -> Seq<Vertex> {
    seq![
        Vertex {
            position: Vec3 { x: f.from.x, y: f.height, z: f.from.z },
            normal: floor_normal(),
            uv: Uv { u: 0, v: 0 },
        },
        Vertex {
            position: Vec3 { x: f.to.x, y: f.height, z: f.from.z },
            normal: floor_normal(),
            uv: Uv { u: f.tiles_wide, v: 0 },
        },
        Vertex {
            position: Vec3 { x: f.from.x, y: f.height, z: f.to.z },
            normal: floor_normal(),
            uv: Uv { u: 0, v: f.tiles_tall },
        },
        Vertex {
            position: Vec3 { x: f.to.x, y: f.height, z: f.to.z },
            normal: floor_normal(),
            uv: Uv { u: f.tiles_wide, v: f.tiles_tall },
        },
    ]
}

/// Everything one floor descriptor builds.
#[derive(Clone, Debug)]
pub struct BuiltFloor {
    pub mesh: Mesh,
    pub material: Material,
}

/// The mathematical content of a [`BuiltFloor`].
pub ghost struct BuiltFloorModel {
    pub mesh: MeshModel,
    pub material: Material,
}

impl View for BuiltFloor {
    type V = BuiltFloorModel;

    open spec fn view(&self) -> BuiltFloorModel {
        BuiltFloorModel { mesh: self.mesh@, material: self.material }
    }
}

/// Everything [`FloorBuilder::build`] produces, as one mathematical value.
pub open spec fn floor_parts(f: FloorBuilder) -> BuiltFloorModel {
    BuiltFloorModel {
        mesh: MeshModel { vertices: floor_vertices(f), indices: quad_indices() },
        material: Material {
            color: f.color,
            texture: f.texture,
            cull: f.cull,
            transparent: false,
        },
    }
}

impl FloorBuilder {
    /// Create a new floor at ground level, untextured, in a dimmed default
    /// grey (seven tenths of full brightness).
    pub fn new(from: Vec2, to: Vec2) -> (f: FloorBuilder)
        requires
            in_box2(from, WORLD_LIMIT as int),
            in_box2(to, WORLD_LIMIT as int),
        ensures
            f == (FloorBuilder {
                from,
                to,
                texture: None,
                color: grey(700),
                height: 0,
                tiles_wide: SCALE,
                tiles_tall: SCALE,
                cull: None,
            }),
            wf_floor(f),
    {
        FloorBuilder {
            from,
            to,
            texture: None,
            color: ColorRgb { r: 700, g: 700, b: 700 },
            height: 0,
            tiles_wide: SCALE,
            tiles_tall: SCALE,
            cull: None,
        }
    }

    /// Set which face the renderer culls.
    pub fn with_cull(self, cull: CullFace) -> (f: FloorBuilder)
        ensures
            f == (FloorBuilder { cull: Some(cull), ..self }),
    {
        FloorBuilder { cull: Some(cull), ..self }
    }

    /// Set a uniform brightness as the tint.
    pub fn with_brightness(self, brightness: i64) -> (f: FloorBuilder)
        ensures
            f == (FloorBuilder { color: grey(brightness as int), ..self }),
    {
        self.with_color(ColorRgb { r: brightness, g: brightness, b: brightness })
    }

    /// Set how many times the texture repeats along each axis (fixed-point
    /// counts).
    pub fn with_tiles(self, wide: i64, tall: i64) -> (f: FloorBuilder)
        ensures
            f == (FloorBuilder { tiles_wide: wide, tiles_tall: tall, ..self }),
    {
        FloorBuilder { tiles_wide: wide, tiles_tall: tall, ..self }
    }

    /// Derive the texture repeats from the rectangle's extent along each
    /// axis, with a texture unit of two world units.
    pub fn autotile(self) -> (f: FloorBuilder)
        requires
            wf_floor(self),
        ensures
            f == (FloorBuilder {
                tiles_wide: (mag(self.from.x - self.to.x) / 2) as i64,
                tiles_tall: (mag(self.from.z - self.to.z) / 2) as i64,
                ..self
            }),
    {
        let wide = abs_i64(self.from.x - self.to.x) / 2;
        let tall = abs_i64(self.from.z - self.to.z) / 2;
        FloorBuilder { tiles_wide: wide, tiles_tall: tall, ..self }
    }

    /// Apply a texture (the tint is kept).
    pub fn with_texture(self, texture: u64) -> (f: FloorBuilder)
        ensures
            f == (FloorBuilder { texture: Some(texture), ..self }),
    {
        FloorBuilder { texture: Some(texture), ..self }
    }

    /// Set the elevation of the plane the rectangle lies in.
    pub fn with_offset(self, off: i64) -> (f: FloorBuilder)
        ensures
            f == (FloorBuilder { height: off, ..self }),
    {
        FloorBuilder { height: off, ..self }
    }

    /// Override the tint.
    pub fn with_color(self, color: ColorRgb) -> (f: FloorBuilder)
        ensures
            f == (FloorBuilder { color, ..self }),
    {
        FloorBuilder { color, ..self }
    }

    /// Build the floor: one quad of four vertices and two triangles, all
    /// vertices at elevation `height`, all carrying the fixed upward normal.
    /// Floors never produce a collision segment.
    pub fn build(&self) -> (r: BuiltFloor)
        requires
            wf_floor(*self),
        ensures
            r@ == floor_parts(*self),
    {
        let n = Vec3 { x: 0, y: SCALE, z: 0 };
        let vertices: Vec<Vertex> = vec![
            Vertex {
                position: Vec3 { x: self.from.x, y: self.height, z: self.from.z },
                normal: n,
                uv: Uv { u: 0, v: 0 },
            },
            Vertex {
                position: Vec3 { x: self.to.x, y: self.height, z: self.from.z },
                normal: n,
                uv: Uv { u: self.tiles_wide, v: 0 },
            },
            Vertex {
                position: Vec3 { x: self.from.x, y: self.height, z: self.to.z },
                normal: n,
                uv: Uv { u: 0, v: self.tiles_tall },
            },
            Vertex {
                position: Vec3 { x: self.to.x, y: self.height, z: self.to.z },
                normal: n,
                uv: Uv { u: self.tiles_wide, v: self.tiles_tall },
            },
        ];
        let indices: Vec<u16> = vec![0u16, 2u16, 1u16, 3u16, 1u16, 2u16];
        proof {
            assert(vertices@ =~= floor_vertices(*self));
            assert(indices@ =~= quad_indices());
        }
        BuiltFloor {
            mesh: Mesh { vertices, indices },
            material: Material {
                color: self.color,
                texture: self.texture,
                cull: self.cull,
                transparent: false,
            },
        }
    }
}

/// Every vertex of a floor quad lies at the floor's elevation and carries the
/// fixed upward normal; the quad has exactly four vertices and two triangles.
pub proof fn lemma_floor_flat(f: FloorBuilder)
    requires
        wf_floor(f),
    ensures
        floor_parts(f).mesh.vertices.len() == 4,
        floor_parts(f).mesh.indices.len() == 6,
        forall|k: int|
            0 <= k < 4 ==> #[trigger] floor_parts(f).mesh.vertices[k].position.y == f.height,
        forall|k: int|
            0 <= k < 4 ==> #[trigger] floor_parts(f).mesh.vertices[k].normal == floor_normal(),
{
}

/// A whole scene under construction: the wall and floor descriptors collected
/// so far.
pub struct SceneBuilder {
    /// All walls in the scene.
    pub walls: Vec<WallBuilder>,
    /// All floors and ceilings in the scene.
    pub floors: Vec<FloorBuilder>,
}

/// Everything a finished scene is made of. The collision segments sit inside
/// the built walls; the adapter registers meshes with the renderer and hands
/// the colliders to the motion resolver.
pub struct Scene {
    pub walls: Vec<BuiltWall>,
    pub floors: Vec<BuiltFloor>,
}

/// The collision segments of a sequence of built walls, in wall order.
pub open spec fn colliders_of(ws: Seq<BuiltWall>) -> Seq<LineCollider>
    decreases ws.len(),
{
    if ws.len() == 0 {
        Seq::empty()
    } else {
        let rest = colliders_of(ws.drop_last());
        match ws.last().collider {
            Some(c) => rest.push(c),
            None => rest,
        }
    }
}

impl Scene {
    /// Collect the collision segment of every wall that has one, in order:
    /// the set the motion resolver walks each frame. When every present
    /// segment is well formed (as [`SceneBuilder::finish`] guarantees), so is
    /// every collected one.
    pub fn colliders(&self) -> (r: Vec<LineCollider>)
        ensures
            r@ == colliders_of(self.walls@),
            (forall|i: int|
                0 <= i < self.walls@.len() ==> match (#[trigger] self.walls@[i]).collider {
                    Some(c) => wf_collider(c),
                    None => true,
                }) ==> forall|k: int| 0 <= k < r@.len() ==> wf_collider(#[trigger] r@[k]),
    {
        let mut r: Vec<LineCollider> = Vec::new();
        let mut i: usize = 0;
        proof {
            assert(self.walls@.take(0) =~= Seq::<BuiltWall>::empty());
        }
        while i < self.walls.len()
            invariant
                0 <= i <= self.walls@.len(),
                r@ == colliders_of(self.walls@.take(i as int)),
                forall|k: int|
                    0 <= k < r@.len() ==> exists|j: int|
                        0 <= j < i && self.walls@[j].collider == Some(#[trigger] r@[k]),
            decreases self.walls@.len() - i,
        {
            proof {
                assert(self.walls@.take(i as int + 1).drop_last() =~= self.walls@.take(i as int));
                assert(self.walls@.take(i as int + 1).last() == self.walls@[i as int]);
            }
            match self.walls[i].collider {
                Some(c) => {
                    r.push(c);
                    proof {
                        assert(self.walls@[i as int].collider == Some(r@.last()));
                    }
                },
                None => {},
            }
            i = i + 1;
        }
        proof {
            assert(self.walls@.take(self.walls@.len() as int) =~= self.walls@);
        }
        r
    }
}

impl SceneBuilder {
    /// Create an empty scene builder.
    pub fn new() -> (s: SceneBuilder)
        ensures
            s.walls@.len() == 0,
            s.floors@.len() == 0,
    {
        SceneBuilder { walls: Vec::new(), floors: Vec::new() }
    }

    /// Add a wall to this scene.
    pub fn with_wall(self, wall: WallBuilder) -> (s: SceneBuilder)
        ensures
            s.walls@ == self.walls@.push(wall),
            s.floors@ == self.floors@,
    {
        let mut walls = self.walls;
        walls.push(wall);
        SceneBuilder { walls, floors: self.floors }
    }

    /// Add a floor to this scene.
    pub fn with_floor(self, floor: FloorBuilder) -> (s: SceneBuilder)
        ensures
            s.floors@ == self.floors@.push(floor),
            s.walls@ == self.walls@,
    {
        let mut floors = self.floors;
        floors.push(floor);
        SceneBuilder { walls: self.walls, floors }
    }

    /// Finish the scene: build every wall and floor, in order.
    pub fn finish(self) -> (scene: Scene)
        requires
            forall|i: int| 0 <= i < self.walls@.len() ==> wf_wall(#[trigger] self.walls@[i]),
            forall|i: int| 0 <= i < self.floors@.len() ==> wf_floor(#[trigger] self.floors@[i]),
        ensures
            scene.walls@.len() == self.walls@.len(),
            scene.floors@.len() == self.floors@.len(),
            forall|i: int|
                0 <= i < self.walls@.len() ==> #[trigger] scene.walls@[i]@ == wall_parts(
                    self.walls@[i],
                ),
            forall|i: int|
                0 <= i < self.floors@.len() ==> #[trigger] scene.floors@[i]@ == floor_parts(
                    self.floors@[i],
                ),
            forall|i: int|
                0 <= i < scene.walls@.len() ==> match #[trigger] scene.walls@[i].collider {
                    Some(c) => wf_collider(c),
                    None => true,
                },
    {
        let mut walls: Vec<BuiltWall> = Vec::new();
        let mut i: usize = 0;
        while i < self.walls.len()
            invariant
                forall|k: int| 0 <= k < self.walls@.len() ==> wf_wall(#[trigger] self.walls@[k]),
                0 <= i <= self.walls@.len(),
                walls@.len() == i,
                forall|k: int|
                    0 <= k < i ==> #[trigger] walls@[k]@ == wall_parts(self.walls@[k]),
            decreases self.walls@.len() - i,
        {
            walls.push(self.walls[i].build());
            i = i + 1;
        }
        let mut floors: Vec<BuiltFloor> = Vec::new();
        let mut j: usize = 0;
        while j < self.floors.len()
            invariant
                forall|k: int|
                    0 <= k < self.floors@.len() ==> wf_floor(#[trigger] self.floors@[k]),
                0 <= j <= self.floors@.len(),
                floors@.len() == j,
                forall|k: int|
                    0 <= k < j ==> #[trigger] floors@[k]@ == floor_parts(self.floors@[k]),
            decreases self.floors@.len() - j,
        {
            floors.push(self.floors[j].build());
            j = j + 1;
        }
        proof {
            assert forall|k: int|
                0 <= k < walls@.len() implies match (#[trigger] walls@[k]).collider {
                Some(c) => wf_collider(c),
                None => true,
            } by {
                assert(walls@[k]@ == wall_parts(self.walls@[k]));
                assert(walls@[k].collider == wall_parts(self.walls@[k]).collider);
                lemma_wall_collider_wf(self.walls@[k]);
            }
        }
        Scene { walls, floors }
    }
}

/// A wall quad always has exactly four vertices and two triangles, and every
/// vertex carries the same nonzero horizontal normal: the fixed-point unit
/// perpendicular of the planar segment direction `to - from`. Each normal
/// component times the segment length misses the exact scaled perpendicular
/// by less than the length (one rounding unit), so the scalar product with
/// the direction — exactly zero before rounding — stays smaller than the sum
/// of the direction's component magnitudes.
pub proof fn lemma_wall_quad_shape(w: WallBuilder)
    requires
        wf_wall(w),
    ensures
        wall_parts(w).mesh.vertices.len() == 4,
        wall_parts(w).mesh.indices.len() == 6,
        forall|k: int|
            0 <= k < 4 ==> #[trigger] wall_parts(w).mesh.vertices[k].normal == wall_normal(w),
        wall_normal(w).y == 0,
        ({
            let n = wall_normal(w);
            let len = seg_length(w.from, w.to);
            &&& mag(n.x * len - (w.to.z - w.from.z) * SCALE) < len
            &&& mag(n.z * len - (w.from.x - w.to.x) * SCALE) < len
            &&& mag(n.x * (w.to.x - w.from.x) + n.z * (w.to.z - w.from.z)) < mag(
                w.to.x - w.from.x,
            ) + mag(w.to.z - w.from.z)
        }),
        wall_normal(w) != (Vec3 { x: 0, y: 0, z: 0 }),
{
    lemma_wall_length(w);
    lemma_wall_normal_unit(w);
    let dx = w.to.x - w.from.x;
    let dz = w.to.z - w.from.z;
    let a = w.to.z - w.from.z;
    let b = w.from.x - w.to.x;
    let len = seg_length(w.from, w.to);
    let s: int = SCALE as int;
    lemma_mul_mag(a, s, len, s);
    lemma_mul_mag(b, s, len, s);
    lemma_div_tz_mag(a * s, len, s);
    lemma_div_tz_mag(b * s, len, s);
    lemma_div_tz_remainder(a * s, len);
    lemma_div_tz_remainder(b * s, len);
    let n = wall_normal(w);
    let qx = div_tz_spec(a * s, len);
    let qz = div_tz_spec(b * s, len);
    assert(n.x == qx && n.z == qz);
    let ex = a * s - qx * len;
    let ez = b * s - qz * len;
    assert(n.x * len - a * s == -ex && n.z * len - b * s == -ez) by (nonlinear_arith)
        requires
            n.x == qx,
            n.z == qz,
            ex == a * s - qx * len,
            ez == b * s - qz * len,
    ;
    let t = n.x * dx + n.z * dz;
    assert(t * len == (qx * len) * dx + (qz * len) * dz) by (nonlinear_arith)
        requires
            t == qx * dx + qz * dz,
    ;
    assert((a * s - ex) * dx + (b * s - ez) * dz == s * (a * dx + b * dz) - (ex * dx + ez * dz))
        by (nonlinear_arith);
    assert(a * dx + b * dz == 0) by (nonlinear_arith)
        requires
            a == dz,
            b == -dx,
    ;
    assert(s * (a * dx + b * dz) == 0) by (nonlinear_arith)
        requires
            a * dx + b * dz == 0,
    ;
    assert(t * len == -(ex * dx + ez * dz));
    lemma_mul_mag(ex, dx, len - 1, mag(dx));
    lemma_mul_mag(ez, dz, len - 1, mag(dz));
    let m = mag(dx) + mag(dz);
    assert(m >= 1);
    assert((len - 1) * mag(dx) + (len - 1) * mag(dz) < len * m) by (nonlinear_arith)
        requires
            len >= 1,
            m == mag(dx) + mag(dz),
            m >= 1,
            mag(dx) >= 0,
            mag(dz) >= 0,
    ;
    assert(-(len * m) < t * len < len * m);
    assert(-m < t < m) by (nonlinear_arith)
        requires
            -(len * m) < t * len < len * m,
            len >= 1,
            m >= 1,
    ;
}

/// The wall normal's magnitude is the fixed-point unit up to rounding: its
/// squared length never falls more than a few thousandths under the squared
/// unit, and for walls at least one world unit long it also never rises more
/// than a few thousandths over it. (A wall much shorter than one world unit
/// offers too few subunits for the quotient to stay near the unit from
/// above.) In particular the normal is never the zero vector.
pub proof fn lemma_wall_normal_unit(w: WallBuilder)
    requires
        wf_wall(w),
    ensures
        SCALE * SCALE - 4 * SCALE <= wall_normal(w).x * wall_normal(w).x + wall_normal(w).z
            * wall_normal(w).z,
        seg_length(w.from, w.to) >= SCALE ==> wall_normal(w).x * wall_normal(w).x + wall_normal(
            w,
        ).z * wall_normal(w).z <= SCALE * SCALE + 6 * SCALE + 2,
        wall_normal(w) != (Vec3 { x: 0, y: 0, z: 0 }),
{
    lemma_wall_length(w);
    let dx = w.to.x - w.from.x;
    let dz = w.to.z - w.from.z;
    let a = w.to.z - w.from.z;
    let b = w.from.x - w.to.x;
    let len = seg_length(w.from, w.to);
    let len2 = sq_dist2(w.from, w.to);
    let s: int = SCALE as int;
    lemma_square_nonneg(dx);
    lemma_square_nonneg(dz);
    lemma_sqrt_floor(len2 as nat);
    assert(len == sqrt_floor(len2 as nat) as int);
    assert(len * len <= len2 < (len + 1) * (len + 1));
    assert(len2 <= len * len + 2 * len) by (nonlinear_arith)
        requires
            len2 < (len + 1) * (len + 1),
    ;
    lemma_mul_mag(a, s, len, s);
    lemma_mul_mag(b, s, len, s);
    lemma_div_tz_mag(a * s, len, s);
    lemma_div_tz_mag(b * s, len, s);
    lemma_div_tz_remainder(a * s, len);
    lemma_div_tz_remainder(b * s, len);
    let n = wall_normal(w);
    let qx = div_tz_spec(a * s, len);
    let qz = div_tz_spec(b * s, len);
    assert(n.x == qx && n.z == qz);
    let ex = a * s - qx * len;
    let ez = b * s - qz * len;
    let u = qx * len;
    let v = qz * len;
    assert(u * u == (qx * qx) * (len * len)) by (nonlinear_arith)
        requires
            u == qx * len,
    ;
    assert(v * v == (qz * qz) * (len * len)) by (nonlinear_arith)
        requires
            v == qz * len,
    ;
    assert(a * a + b * b == len2) by (nonlinear_arith)
        requires
            len2 == dx * dx + dz * dz,
            a == dz,
            b == -dx,
    ;
    assert(u * u >= (a * a) * (s * s) - 2 * ((s * len) * (len - 1))) by (nonlinear_arith)
        requires
            u == a * s - ex,
            -(len - 1) <= ex <= len - 1,
            -len <= a <= len,
            len >= 1,
            s == 1000,
    ;
    assert(v * v >= (b * b) * (s * s) - 2 * ((s * len) * (len - 1))) by (nonlinear_arith)
        requires
            v == b * s - ez,
            -(len - 1) <= ez <= len - 1,
            -len <= b <= len,
            len >= 1,
            s == 1000,
    ;
    assert((a * a) * (s * s) + (b * b) * (s * s) == (a * a + b * b) * (s * s))
        by (nonlinear_arith);
    assert((a * a + b * b) * (s * s) >= (s * s) * (len * len)) by (nonlinear_arith)
        requires
            a * a + b * b >= len * len,
            s == 1000,
    ;
    assert(4 * ((s * len) * (len - 1)) <= (4 * s) * (len * len)) by (nonlinear_arith)
        requires
            len >= 1,
            s == 1000,
    ;
    assert((s * s) * (len * len) - (4 * s) * (len * len) == (s * s - 4 * s) * (len * len))
        by (nonlinear_arith);
    assert((qx * qx) * (len * len) + (qz * qz) * (len * len) >= (s * s - 4 * s) * (len * len));
    assert(len * len >= 1) by (nonlinear_arith)
        requires
            len >= 1,
    ;
    assert(qx * qx + qz * qz >= s * s - 4 * s) by (nonlinear_arith)
        requires
            (qx * qx) * (len * len) + (qz * qz) * (len * len) >= (s * s - 4 * s) * (len * len),
            len * len >= 1,
    ;
    if n.x == 0 && n.z == 0 {
        assert(qx * qx + qz * qz == 0) by (nonlinear_arith)
            requires
                qx == 0,
                qz == 0,
        ;
        assert(false);
    }
    if len >= s {
        assert(u * u <= (a * a) * (s * s) + 2 * ((s * len) * (len - 1)) + (len - 1) * (len - 1))
            by (nonlinear_arith)
            requires
                u == a * s - ex,
                -(len - 1) <= ex <= len - 1,
                -len <= a <= len,
                len >= 1,
                s == 1000,
        ;
        assert(v * v <= (b * b) * (s * s) + 2 * ((s * len) * (len - 1)) + (len - 1) * (len - 1))
            by (nonlinear_arith)
            requires
                v == b * s - ez,
                -(len - 1) <= ez <= len - 1,
                -len <= b <= len,
                len >= 1,
                s == 1000,
        ;
        assert((a * a + b * b) * (s * s) <= (len * len) * (s * s) + (2 * len) * (s * s))
            by (nonlinear_arith)
            requires
                a * a + b * b <= len * len + 2 * len,
                s == 1000,
        ;
        assert((2 * len) * (s * s) <= (2 * s) * (len * len)) by (nonlinear_arith)
            requires
                len >= s,
                s == 1000,
        ;
        assert((len - 1) * (len - 1) <= len * len) by (nonlinear_arith)
            requires
                len >= 1,
        ;
        assert((qx * qx) * (len * len) + (qz * qz) * (len * len) <= (len * len) * (s * s) + (2
            * s) * (len * len) + (4 * s) * (len * len) + 2 * (len * len));
        assert((len * len) * (s * s) + (2 * s) * (len * len) + (4 * s) * (len * len) + 2 * (len
            * len) == (s * s + 6 * s + 2) * (len * len)) by (nonlinear_arith);
        assert(qx * qx + qz * qz <= s * s + 6 * s + 2) by (nonlinear_arith)
            requires
                (qx * qx) * (len * len) + (qz * qz) * (len * len) <= (s * s + 6 * s + 2) * (len
                    * len),
                len * len >= 1,
        ;
    }
}

} // verus!
