use vstd::prelude::*;
use vstd::pervasive::unreached;
use crate::canvas::{canvas_rows, canvas_width, Canvas, Color};
use crate::fixed::{floor_div, lemma_mul_within, within, LIMIT, ONE};
use crate::lighting::{
    diffuse_intensity,
    diffuse_sum,
    light_wf,
    lights_wf,
    specular_intensity,
    specular_sum,
    unit_bounded,
    Light,
    Vec3,
};
use crate::geometry::{
    interpolate_spec,
    perspective_interpolate,
    triple_bounded,
    weights_bounded,
    widen,
    widen64,
    ScreenVertex,
};

verus! {

/// One slot of the attributes a vertex stage attaches to a vertex.
#[derive(Clone, Copy, Debug, PartialEq, Eq)]
pub enum VertexAttr {
    /// A texture coordinate `(u, v)`, `ONE` standing for 1.0.
    TextureCoord(i64, i64),
    /// A scalar light intensity, `ONE` standing for 1.0.
    LightIntensity(i64),
}

/// The values an attribute holds lie in `[-LIMIT, LIMIT]`.
pub open spec fn attr_bounded(a: VertexAttr) -> bool {
    match a {
        VertexAttr::TextureCoord(u, v) => within(u as int, LIMIT as int) && within(
            v as int,
            LIMIT as int,
        ),
        VertexAttr::LightIntensity(i) => within(i as int, LIMIT as int),
    }
}

/// Every attribute of the bag is bounded.
pub open spec fn bag_bounded(s: Seq<VertexAttr>) -> bool {
    forall|i: int| 0 <= i < s.len() ==> attr_bounded(#[trigger] s[i])
}

/// Slot `i` of the bag holds a texture coordinate.
pub open spec fn has_texcoord(s: Seq<VertexAttr>, i: int) -> bool {
    0 <= i < s.len() && s[i] is TextureCoord
}

/// Slot `i` of the bag holds a light intensity.
pub open spec fn has_intensity(s: Seq<VertexAttr>, i: int) -> bool {
    0 <= i < s.len() && s[i] is LightIntensity
}

pub open spec fn u_of(a: VertexAttr) -> int {
    match a {
        VertexAttr::TextureCoord(u, _) => u as int,
        _ => 0,
    }
}

pub open spec fn v_of(a: VertexAttr) -> int {
    match a {
        VertexAttr::TextureCoord(_, v) => v as int,
        _ => 0,
    }
}

pub open spec fn intensity_of(a: VertexAttr) -> int {
    match a {
        VertexAttr::LightIntensity(i) => i as int,
        _ => 0,
    }
}

/// The color handed back with a discarded sample.
pub open spec fn discarded() -> (Color, bool) {
    ((0, 0, 0), true)
}

/// The programmable part of the pipeline: a vertex stage run for each corner
/// of each triangle and a fragment stage run for each covered pixel.
pub trait Shader {
    /// The shader's data are consistent (indices in range, values bounded).
    spec fn wf(&self) -> bool;

    /// The number of triangles the shader's mesh holds.
    spec fn triangle_count(&self) -> nat;

    /// Corner `c` of triangle `t`: its screen position and attribute bag.
    spec fn corner(&self, t: int, c: int) -> (ScreenVertex, Seq<VertexAttr>);

    /// The bag follows the schema of this shader's vertex stage.
    spec fn fits(&self, a: Seq<VertexAttr>) -> bool;

    /// The color of a sample and whether it is discarded, given its
    /// barycentric weights, the perspective reciprocals and the three bags.
    spec fn shade(
        &self,
        b: (int, int, int),
        ws: (int, int, int),
        a0: Seq<VertexAttr>,
        a1: Seq<VertexAttr>,
        a2: Seq<VertexAttr>,
    ) -> (Color, bool);

    /// The number of triangles.
    fn triangles(&self) -> (r: usize)
        requires
            self.wf(),
        ensures
            r == self.triangle_count(),
    ;

    /// The vertex stage: the screen position and attribute bag of corner `v`
    /// of triangle `t`.
    fn vertex(&self, t: u32, v: u32) -> (r: (ScreenVertex, Vec<VertexAttr>))
        requires
            self.wf(),
            t < self.triangle_count(),
            v < 3,
        ensures
            r.0 == self.corner(t as int, v as int).0,
            r.1@ == self.corner(t as int, v as int).1,
            r.0.wf(),
            bag_bounded(r.1@),
            self.fits(r.1@),
    ;

    /// Whether the bag follows the schema of this shader's vertex stage.
    fn accepts(&self, bag: &Vec<VertexAttr>) -> (r: bool)
        ensures
            r == self.fits(bag@),
    ;

    /// The fragment stage: the color of a sample and whether it is
    /// discarded. Each bag must follow the schema of this shader's vertex
    /// stage; handing it another is a contract violation.
    fn fragment(
        &self,
        bc: (i128, i128, i128),
        ws: (i64, i64, i64),
        attrs: (&Vec<VertexAttr>, &Vec<VertexAttr>, &Vec<VertexAttr>),
    ) -> (r: (Color, bool))
        requires
            self.wf(),
            weights_bounded(bc),
            triple_bounded(ws),
            bag_bounded(attrs.0@),
            bag_bounded(attrs.1@),
            bag_bounded(attrs.2@),
            self.fits(attrs.0@),
            self.fits(attrs.1@),
            self.fits(attrs.2@),
        ensures
            r == self.shade(
                widen(bc),
                widen64(ws),
                attrs.0@,
                attrs.1@,
                attrs.2@,
            ),
    ;
}

/// The texture coordinate in slot `slot` of a bag, if that slot holds one.
pub fn texcoord_in(bag: &Vec<VertexAttr>, slot: usize) -> (r: Option<(i64, i64)>)
    ensures
        r is Some <==> has_texcoord(bag@, slot as int),
        r matches Some(p) ==> bag@[slot as int] == VertexAttr::TextureCoord(p.0, p.1),
{
    if slot < bag.len() {
        match bag[slot] {
            VertexAttr::TextureCoord(u, v) => Some((u, v)),
            _ => None,
        }
    } else {
        None
    }
}

/// The light intensity in slot `slot` of a bag, if that slot holds one.
pub fn intensity_in(bag: &Vec<VertexAttr>, slot: usize) -> (r: Option<i64>)
    ensures
        r is Some <==> has_intensity(bag@, slot as int),
        r matches Some(i) ==> bag@[slot as int] == VertexAttr::LightIntensity(i),
{
    if slot < bag.len() {
        match bag[slot] {
            VertexAttr::LightIntensity(i) => Some(i),
            _ => None,
        }
    } else {
        None
    }
}

/// `v` limited to `[lo, hi]`.
pub open spec fn clamp_to(v: int, lo: int, hi: int) -> int {
    if v < lo {
        lo
    } else if v > hi {
        hi
    } else {
        v
    }
}

/// The texture column for the coordinate `u`: `u * (width - 1)` rounded
/// down, with `u` limited to `[0, 1]`.
pub open spec fn texel_x(u: int, width: int) -> int {
    clamp_to(u, 0, ONE as int) * (width - 1) / (ONE as int)
}

/// The texture row for the coordinate `v`: row 0 is the top while `v = 0` is
/// the bottom, so the row is `height - 1 - round(v * (height - 1))`, with
/// `v` limited to `[0, 1]`.
pub open spec fn texel_y(v: int, height: int) -> int {
    height - 1 - (2 * clamp_to(v, 0, ONE as int) * (height - 1) + ONE as int) / (2 * ONE as int)
}

/// The texture has at least one pixel.
pub open spec fn texture_wf(tex: Canvas) -> bool {
    canvas_width(tex) >= 1 && canvas_rows(tex).len() >= 1 && canvas_rows(tex).len() <= u32::MAX
        && forall|y: int|
        0 <= y < canvas_rows(tex).len() ==> #[trigger] canvas_rows(tex)[y].len() == canvas_width(
            tex,
        )
}

/// The texel that the coordinates `(u, v)` select.
pub open spec fn sample_spec(tex: Canvas, u: int, v: int) -> Color {
    let w = canvas_width(tex) as int;
    let h = canvas_rows(tex).len() as int;
    canvas_rows(tex)[texel_y(v, h)][texel_x(u, w)]
}

/// Samples `tex` at the coordinates `(u, v)` (see `texel_x`, `texel_y`).
pub fn sample(tex: &Canvas, u: i128, v: i128) -> (r: Color)
    requires
        texture_wf(*tex),
    ensures
        r == sample_spec(*tex, u as int, v as int),
{
    let (w, h) = tex.dimensions();
    let one: i128 = ONE as i128;
    let uc: i128 = if u < 0 {
        0
    } else if u > one {
        one
    } else {
        u
    };
    let vc: i128 = if v < 0 {
        0
    } else if v > one {
        one
    } else {
        v
    };
    let wm: i128 = w as i128 - 1;
    let hm: i128 = h as i128 - 1;
    proof {
        assert(0 <= uc * wm <= one * wm) by (nonlinear_arith)
            requires
                0 <= uc <= one,
                0 <= wm,
        ;
        assert(0 <= vc * hm <= one * hm) by (nonlinear_arith)
            requires
                0 <= vc <= one,
                0 <= hm,
        ;
    }
    let tx: i128 = uc * wm / one;
    let rv: i128 = (2 * (vc * hm) + one) / (2 * one);
    proof {
        assert(tx <= wm) by (nonlinear_arith)
            requires
                tx as int == (uc * wm) as int / (one as int),
                0 <= uc * wm <= one * wm,
                one > 0,
        ;
        assert(0 <= rv <= hm) by (nonlinear_arith)
            requires
                rv as int == (2 * (vc * hm) + one) as int / (2 * one) as int,
                0 <= vc * hm <= one * hm,
                one > 0,
        ;
    }
    let ty: i128 = hm - rv;
    proof {
        assert(2 * vc * hm == 2 * (vc * hm)) by (nonlinear_arith);
        assert(tx == texel_x(u as int, w as int));
        assert(ty == texel_y(v as int, h as int));
    }
    tex.get_pixel(tx as u32, ty as u32)
}

/// The mesh's indices refer to existing positions and texture coordinates,
/// and every position and texture coordinate is bounded.
pub open spec fn mesh_wf(indices: Seq<u32>, positions: Seq<ScreenVertex>, texcoords: Seq<i64>) -> bool {
    &&& forall|i: int|
        0 <= i < indices.len() ==> (#[trigger] indices[i] as int) < positions.len() && 2
            * indices[i] + 1 < texcoords.len()
    &&& forall|j: int| 0 <= j < positions.len() ==> (#[trigger] positions[j]).wf()
    &&& forall|j: int| 0 <= j < texcoords.len() ==> within(#[trigger] texcoords[j] as int, LIMIT as int)
}

/// Checks `mesh_wf`.
pub fn mesh_valid(indices: &Vec<u32>, positions: &Vec<ScreenVertex>, texcoords: &Vec<i64>) -> (r:
    bool)
    ensures
        r == mesh_wf(indices@, positions@, texcoords@),
{
    let mut i: usize = 0;
    while i < indices.len()
        invariant
            i <= indices.len(),
            forall|k: int|
                0 <= k < i ==> (#[trigger] indices@[k] as int) < positions@.len() && 2
                    * indices@[k] + 1 < texcoords@.len(),
        decreases indices.len() - i,
    {
        let id = indices[i] as usize;
        if id >= positions.len() || texcoords.len() < 2 || id > (texcoords.len() - 2) / 2 {
            return false;
        }
        i += 1;
    }
    let mut j: usize = 0;
    while j < positions.len()
        invariant
            j <= positions.len(),
            forall|k: int| 0 <= k < j ==> (#[trigger] positions@[k]).wf(),
        decreases positions.len() - j,
    {
        let p = positions[j];
        if p.x < -LIMIT || p.x > LIMIT || p.y < -LIMIT || p.y > LIMIT || p.z < -LIMIT || p.z > LIMIT
            || p.w < -LIMIT || p.w > LIMIT {
            return false;
        }
        j += 1;
    }
    let mut k: usize = 0;
    while k < texcoords.len()
        invariant
            k <= texcoords.len(),
            forall|m: int| 0 <= m < k ==> within(#[trigger] texcoords@[m] as int, LIMIT as int),
        decreases texcoords.len() - k,
    {
        if texcoords[k] < -LIMIT || texcoords[k] > LIMIT {
            return false;
        }
        k += 1;
    }
    true
}

/// Checks `texture_wf`.
pub fn texture_valid(tex: &Canvas) -> (r: bool)
    ensures
        r == texture_wf(*tex),
{
    let (w, h) = tex.dimensions();
    w >= 1 && h >= 1
}

/// Perspective-correct interpolation of the texture coordinates in slot
/// `slot` of three bags.
pub open spec fn interpolate_uv(
    b: (int, int, int),
    ws: (int, int, int),
    a0: Seq<VertexAttr>,
    a1: Seq<VertexAttr>,
    a2: Seq<VertexAttr>,
    slot: int,
) -> (Option<int>, Option<int>) {
    (
        interpolate_spec(b, ws, (u_of(a0[slot]), u_of(a1[slot]), u_of(a2[slot]))),
        interpolate_spec(b, ws, (v_of(a0[slot]), v_of(a1[slot]), v_of(a2[slot]))),
    )
}

/// A corner of a triangle of the mesh lies in its index list.
pub proof fn lemma_corner_in_range(t: int, c: int, len: int)
    requires
        0 <= t < len / 3,
        0 <= c < 3,
    ensures
        0 <= 3 * t + c < len,
        t * 3 + c < len,
{
    assert(3 * t + c < len) by (nonlinear_arith)
        requires
            0 <= t < len / 3,
            0 <= c < 3,
    ;
}

/// Corner `c` of triangle `t` of an indexed mesh: its position and the
/// index of its vertex.
pub open spec fn mesh_corner(indices: Seq<u32>, t: int, c: int) -> int {
    indices[3 * t + c] as int
}

/// Textured shading without lighting: the color is the diffuse texture's
/// texel at the interpolated texture coordinate.
pub struct VanillaShader {
    pub indices: Vec<u32>,
    pub positions: Vec<ScreenVertex>,
    pub texcoords: Vec<i64>,
    pub diffuse: Canvas,
}

impl VanillaShader {
    /// A shader over the given mesh and texture, if the mesh's indices are
    /// in range, its values bounded and the texture not empty.
    pub fn new(indices: Vec<u32>, positions: Vec<ScreenVertex>, texcoords: Vec<i64>, diffuse: Canvas) -> (r:
        Option<VanillaShader>)
        ensures
            r is Some <==> (mesh_wf(indices@, positions@, texcoords@) && texture_wf(diffuse)),
            r matches Some(s) ==> s.indices@ == indices@ && s.positions@ == positions@
                && s.texcoords@ == texcoords@ && s.diffuse == diffuse,
    {
        if mesh_valid(&indices, &positions, &texcoords) && texture_valid(&diffuse) {
            Some(VanillaShader { indices, positions, texcoords, diffuse })
        } else {
            None
        }
    }
}

impl Shader for VanillaShader {
    open spec fn wf(&self) -> bool {
        mesh_wf(self.indices@, self.positions@, self.texcoords@) && texture_wf(self.diffuse)
    }

    open spec fn triangle_count(&self) -> nat {
        self.indices@.len() / 3
    }

    open spec fn corner(&self, t: int, c: int) -> (ScreenVertex, Seq<VertexAttr>) {
        let id = mesh_corner(self.indices@, t, c);
        (
            self.positions@[id],
            seq![VertexAttr::TextureCoord(self.texcoords@[2 * id], self.texcoords@[2 * id + 1])],
        )
    }

    open spec fn fits(&self, a: Seq<VertexAttr>) -> bool {
        has_texcoord(a, 0)
    }

    open spec fn shade(
        &self,
        b: (int, int, int),
        ws: (int, int, int),
        a0: Seq<VertexAttr>,
        a1: Seq<VertexAttr>,
        a2: Seq<VertexAttr>,
    ) -> (Color, bool) {
        match interpolate_uv(b, ws, a0, a1, a2, 0) {
            (Some(u), Some(v)) => (sample_spec(self.diffuse, u, v), false),
            _ => discarded(),
        }
    }

    fn accepts(&self, bag: &Vec<VertexAttr>) -> (r: bool) {
        texcoord_in(bag, 0).is_some()
    }

    fn triangles(&self) -> (r: usize) {
        self.indices.len() / 3
    }

    fn vertex(&self, t: u32, v: u32) -> (r: (ScreenVertex, Vec<VertexAttr>)) {
        let n = self.indices.len();
        proof {
            lemma_corner_in_range(t as int, v as int, n as int);
        }
        let k = t as usize * 3 + v as usize;
        let id = self.indices[k] as usize;
        let nt = self.texcoords.len();
        proof {
            assert(2 * self.indices@[k as int] + 1 < nt);
        }
        let tc = VertexAttr::TextureCoord(self.texcoords[2 * id], self.texcoords[2 * id + 1]);
        (self.positions[id], vec![tc])
    }

    fn fragment(
        &self,
        bc: (i128, i128, i128),
        ws: (i64, i64, i64),
        attrs: (&Vec<VertexAttr>, &Vec<VertexAttr>, &Vec<VertexAttr>),
    ) -> (r: (Color, bool)) {
        match uv_at(bc, ws, attrs) {
            Some((u, v)) => (sample(&self.diffuse, u, v), false),
            None => ((0, 0, 0), true),
        }
    }
}

/// A channel value limited to `[0, 255]`.
pub open spec fn channel(v: int) -> u8 {
    clamp_to(v, 0, 255) as u8
}

/// A texel scaled by the light intensity plus the ambient term, each
/// channel limited to `[0, 255]`.
pub open spec fn gouraud_spec(li: int, ambient: int, c: Color) -> Color {
    let k = li + ambient;
    (
        channel(c.0 * k / (ONE as int)),
        channel(c.1 * k / (ONE as int)),
        channel(c.2 * k / (ONE as int)),
    )
}

/// The diffuse texel scaled by the diffuse intensity plus the ambient term,
/// plus the specular texel scaled by the specular intensity, each channel
/// limited to `[0, 255]`.
pub open spec fn blinnphong_spec(di: int, si: int, ambient: int, d: Color, s: Color) -> Color {
    let k = di + ambient;
    (
        channel((d.0 * k + s.0 * si) / (ONE as int)),
        channel((d.1 * k + s.1 * si) / (ONE as int)),
        channel((d.2 * k + s.2 * si) / (ONE as int)),
    )
}

/// The color with each channel limited to `[0, 255]`.
pub fn clamp(r: i128, g: i128, b: i128) -> (c: Color)
    ensures
        c == (channel(r as int), channel(g as int), channel(b as int)),
{
    (clamp_channel(r), clamp_channel(g), clamp_channel(b))
}

fn clamp_channel(v: i128) -> (r: u8)
    ensures
        r == channel(v as int),
{
    if v < 0 {
        0
    } else if v > 255 {
        255
    } else {
        v as u8
    }
}

/// Gouraud shading of a texel (see `gouraud_spec`).
pub fn calc_gouraud_color(li_int: i64, ambient: i64, rgb: Color) -> (r: Color)
    requires
        within(li_int as int, LIMIT as int),
        within(ambient as int, LIMIT as int),
    ensures
        r == gouraud_spec(li_int as int, ambient as int, rgb),
{
    let k: i128 = li_int as i128 + ambient as i128;
    let one: i128 = ONE as i128;
    proof {
        lemma_mul_within(rgb.0 as int, k as int, 255, 2 * LIMIT);
        lemma_mul_within(rgb.1 as int, k as int, 255, 2 * LIMIT);
        lemma_mul_within(rgb.2 as int, k as int, 255, 2 * LIMIT);
    }
    clamp(
        floor_div(rgb.0 as i128 * k, one),
        floor_div(rgb.1 as i128 * k, one),
        floor_div(rgb.2 as i128 * k, one),
    )
}

/// Blinn-Phong shading of a diffuse and a specular texel (see
/// `blinnphong_spec`).
pub fn calc_blinnphong_color(
    diffuse_int: i64,
    spec_int: i64,
    ambient: i64,
    diffuse_rgb: Color,
    spec_rgb: Color,
) -> (r: Color)
    requires
        within(diffuse_int as int, LIMIT as int),
        within(spec_int as int, LIMIT as int),
        within(ambient as int, LIMIT as int),
    ensures
        r == blinnphong_spec(
            diffuse_int as int,
            spec_int as int,
            ambient as int,
            diffuse_rgb,
            spec_rgb,
        ),
{
    let k: i128 = diffuse_int as i128 + ambient as i128;
    let si: i128 = spec_int as i128;
    let one: i128 = ONE as i128;
    let (d, s) = (diffuse_rgb, spec_rgb);
    proof {
        lemma_mul_within(d.0 as int, k as int, 255, 2 * LIMIT);
        lemma_mul_within(d.1 as int, k as int, 255, 2 * LIMIT);
        lemma_mul_within(d.2 as int, k as int, 255, 2 * LIMIT);
        lemma_mul_within(s.0 as int, si as int, 255, LIMIT as int);
        lemma_mul_within(s.1 as int, si as int, 255, LIMIT as int);
        lemma_mul_within(s.2 as int, si as int, 255, LIMIT as int);
    }
    clamp(
        floor_div(d.0 as i128 * k + s.0 as i128 * si, one),
        floor_div(d.1 as i128 * k + s.1 as i128 * si, one),
        floor_div(d.2 as i128 * k + s.2 as i128 * si, one),
    )
}

/// An interpolated intensity limited to `[-LIMIT, LIMIT]`.
pub open spec fn saturated(v: int) -> int {
    clamp_to(v, -LIMIT as int, LIMIT as int)
}

fn saturate(v: i128) -> (r: i64)
    ensures
        r == saturated(v as int),
{
    if v < -(LIMIT as i128) {
        -LIMIT
    } else if v > LIMIT as i128 {
        LIMIT
    } else {
        v as i64
    }
}

/// Perspective-correct interpolation of the intensities in slot `slot` of
/// three bags.
pub open spec fn interpolate_intensity(
    b: (int, int, int),
    ws: (int, int, int),
    a0: Seq<VertexAttr>,
    a1: Seq<VertexAttr>,
    a2: Seq<VertexAttr>,
    slot: int,
) -> Option<int> {
    interpolate_spec(
        b,
        ws,
        (intensity_of(a0[slot]), intensity_of(a1[slot]), intensity_of(a2[slot])),
    )
}

/// Perspective-correct interpolation of the intensities in slot `slot`,
/// limited to `[-LIMIT, LIMIT]`, or `None` where the interpolation is
/// undefined.
fn intensity_at(
    bc: (i128, i128, i128),
    ws: (i64, i64, i64),
    attrs: (&Vec<VertexAttr>, &Vec<VertexAttr>, &Vec<VertexAttr>),
    slot: usize,
) -> (r: Option<i64>)
    requires
        weights_bounded(bc),
        triple_bounded(ws),
        bag_bounded(attrs.0@),
        bag_bounded(attrs.1@),
        bag_bounded(attrs.2@),
        has_intensity(attrs.0@, slot as int),
        has_intensity(attrs.1@, slot as int),
        has_intensity(attrs.2@, slot as int),
    ensures
        match interpolate_intensity(
            widen(bc),
            widen64(ws),
            attrs.0@,
            attrs.1@,
            attrs.2@,
            slot as int,
        ) {
            Some(v) => r matches Some(i) && i as int == saturated(v),
            None => r is None,
        },
{
    match (intensity_in(attrs.0, slot), intensity_in(attrs.1, slot), intensity_in(attrs.2, slot)) {
        (Some(i0), Some(i1), Some(i2)) => {
            proof {
                assert(attr_bounded(attrs.0@[slot as int]));
                assert(attr_bounded(attrs.1@[slot as int]));
                assert(attr_bounded(attrs.2@[slot as int]));
            }
            match perspective_interpolate(bc, ws, (i0, i1, i2)) {
                Some(v) => Some(saturate(v)),
                None => None,
            }
        },
        _ => unreached(),
    }
}

/// Perspective-correct interpolation of the texture coordinates in slot 0,
/// or `None` where it is undefined.
fn uv_at(
    bc: (i128, i128, i128),
    ws: (i64, i64, i64),
    attrs: (&Vec<VertexAttr>, &Vec<VertexAttr>, &Vec<VertexAttr>),
) -> (r: Option<(i128, i128)>)
    requires
        weights_bounded(bc),
        triple_bounded(ws),
        bag_bounded(attrs.0@),
        bag_bounded(attrs.1@),
        bag_bounded(attrs.2@),
        has_texcoord(attrs.0@, 0),
        has_texcoord(attrs.1@, 0),
        has_texcoord(attrs.2@, 0),
    ensures
        match interpolate_uv(widen(bc), widen64(ws), attrs.0@, attrs.1@, attrs.2@, 0) {
            (Some(u), Some(v)) => r matches Some(p) && p.0 as int == u && p.1 as int == v,
            _ => r is None,
        },
{
    let (uv0, uv1, uv2) = match (
        texcoord_in(attrs.0, 0),
        texcoord_in(attrs.1, 0),
        texcoord_in(attrs.2, 0),
    ) {
        (Some(p0), Some(p1), Some(p2)) => (p0, p1, p2),
        _ => unreached(),
    };
    proof {
        assert(attr_bounded(attrs.0@[0]));
        assert(attr_bounded(attrs.1@[0]));
        assert(attr_bounded(attrs.2@[0]));
    }
    let u = perspective_interpolate(bc, ws, (uv0.0, uv1.0, uv2.0));
    let v = perspective_interpolate(bc, ws, (uv0.1, uv1.1, uv2.1));
    match (u, v) {
        (Some(u), Some(v)) => Some((u, v)),
        _ => None,
    }
}

/// Every index of the mesh has a normal, and every normal component lies
/// in `[-ONE, ONE]`.
pub open spec fn normals_wf(indices: Seq<u32>, normals: Seq<i64>) -> bool {
    &&& forall|i: int| 0 <= i < indices.len() ==> 3 * (#[trigger] indices[i]) + 2 < normals.len()
    &&& forall|j: int| 0 <= j < normals.len() ==> within(#[trigger] normals[j] as int, ONE as int)
}

/// Checks `normals_wf`.
pub fn normals_valid(indices: &Vec<u32>, normals: &Vec<i64>) -> (r: bool)
    ensures
        r == normals_wf(indices@, normals@),
{
    let mut i: usize = 0;
    while i < indices.len()
        invariant
            i <= indices.len(),
            forall|k: int| 0 <= k < i ==> 3 * (#[trigger] indices@[k]) + 2 < normals@.len(),
        decreases indices.len() - i,
    {
        let id = indices[i] as usize;
        if normals.len() < 3 || id > (normals.len() - 3) / 3 {
            return false;
        }
        i += 1;
    }
    let mut j: usize = 0;
    while j < normals.len()
        invariant
            j <= normals.len(),
            forall|k: int| 0 <= k < j ==> within(#[trigger] normals@[k] as int, ONE as int),
        decreases normals.len() - j,
    {
        if normals[j] < -ONE || normals[j] > ONE {
            return false;
        }
        j += 1;
    }
    true
}

/// Checks `lights_wf`.
pub fn lights_valid(lights: &Vec<Light>) -> (r: bool)
    ensures
        r == lights_wf(lights@),
{
    let mut i: usize = 0;
    while i < lights.len()
        invariant
            i <= lights.len(),
            forall|k: int| 0 <= k < i ==> light_wf(#[trigger] lights@[k]),
        decreases lights.len() - i,
    {
        let l = lights[i];
        if !vec3_valid(l.dir) {
            return false;
        }
        i += 1;
    }
    true
}

/// Checks `unit_bounded`.
pub fn vec3_valid(v: Vec3) -> (r: bool)
    ensures
        r == unit_bounded(v),
{
    -ONE <= v.0 && v.0 <= ONE && -ONE <= v.1 && v.1 <= ONE && -ONE <= v.2 && v.2 <= ONE
}

/// The normal of vertex `id`.
pub open spec fn normal_of(normals: Seq<i64>, id: int) -> Vec3 {
    (normals[3 * id], normals[3 * id + 1], normals[3 * id + 2])
}

/// The texture coordinate of vertex `id`, as an attribute.
pub open spec fn texcoord_of(texcoords: Seq<i64>, id: int) -> VertexAttr {
    VertexAttr::TextureCoord(texcoords[2 * id], texcoords[2 * id + 1])
}

/// Texture shading scaled by a per-vertex diffuse light intensity that is
/// interpolated across the triangle. The normals (three components per
/// vertex) and the lights' directions must be unit vectors: the intensity
/// is `max(0, n · dir) * weight` summed over the lights, and the vectors
/// are used as given.
pub struct GouraudShader {
    pub indices: Vec<u32>,
    pub positions: Vec<ScreenVertex>,
    pub texcoords: Vec<i64>,
    pub normals: Vec<i64>,
    pub diffuse: Canvas,
    pub light_source: Vec<Light>,
    pub ambient: i64,
}

impl GouraudShader {
    /// A shader over the given mesh, texture and lights, if the mesh's
    /// indices are in range, its values, the lights and the ambient term
    /// bounded and the texture not empty.
    pub fn new(
        indices: Vec<u32>,
        positions: Vec<ScreenVertex>,
        texcoords: Vec<i64>,
        normals: Vec<i64>,
        diffuse: Canvas,
        light_source: Vec<Light>,
        ambient: i64,
    ) -> (r: Option<GouraudShader>)
        ensures
            r is Some <==> (mesh_wf(indices@, positions@, texcoords@) && normals_wf(
                indices@,
                normals@,
            ) && texture_wf(diffuse) && lights_wf(light_source@) && within(
                ambient as int,
                LIMIT as int,
            )),
            r matches Some(s) ==> s.indices@ == indices@ && s.positions@ == positions@
                && s.texcoords@ == texcoords@ && s.normals@ == normals@ && s.diffuse == diffuse
                && s.light_source@ == light_source@ && s.ambient == ambient,
    {
        if mesh_valid(&indices, &positions, &texcoords) && normals_valid(&indices, &normals)
            && texture_valid(&diffuse) && lights_valid(&light_source) && -LIMIT <= ambient
            && ambient <= LIMIT {
            Some(
                GouraudShader {
                    indices,
                    positions,
                    texcoords,
                    normals,
                    diffuse,
                    light_source,
                    ambient,
                },
            )
        } else {
            None
        }
    }
}

impl Shader for GouraudShader {
    open spec fn wf(&self) -> bool {
        &&& mesh_wf(self.indices@, self.positions@, self.texcoords@)
        &&& normals_wf(self.indices@, self.normals@)
        &&& texture_wf(self.diffuse)
        &&& lights_wf(self.light_source@)
        &&& within(self.ambient as int, LIMIT as int)
    }

    open spec fn triangle_count(&self) -> nat {
        self.indices@.len() / 3
    }

    open spec fn corner(&self, t: int, c: int) -> (ScreenVertex, Seq<VertexAttr>) {
        let id = mesh_corner(self.indices@, t, c);
        let n = normal_of(self.normals@, id);
        (
            self.positions@[id],
            seq![
                texcoord_of(self.texcoords@, id),
                VertexAttr::LightIntensity(diffuse_sum(n, self.light_source@) as i64),
            ],
        )
    }

    open spec fn fits(&self, a: Seq<VertexAttr>) -> bool {
        has_texcoord(a, 0) && has_intensity(a, 1)
    }

    open spec fn shade(
        &self,
        b: (int, int, int),
        ws: (int, int, int),
        a0: Seq<VertexAttr>,
        a1: Seq<VertexAttr>,
        a2: Seq<VertexAttr>,
    ) -> (Color, bool) {
        match (interpolate_uv(b, ws, a0, a1, a2, 0), interpolate_intensity(b, ws, a0, a1, a2, 1)) {
            ((Some(u), Some(v)), Some(li)) => (
                gouraud_spec(saturated(li), self.ambient as int, sample_spec(self.diffuse, u, v)),
                false,
            ),
            _ => discarded(),
        }
    }

    fn accepts(&self, bag: &Vec<VertexAttr>) -> (r: bool) {
        texcoord_in(bag, 0).is_some() && intensity_in(bag, 1).is_some()
    }

    fn triangles(&self) -> (r: usize) {
        self.indices.len() / 3
    }

    fn vertex(&self, t: u32, v: u32) -> (r: (ScreenVertex, Vec<VertexAttr>)) {
        let n = self.indices.len();
        proof {
            lemma_corner_in_range(t as int, v as int, n as int);
        }
        let k = t as usize * 3 + v as usize;
        let id = self.indices[k] as usize;
        let nt = self.texcoords.len();
        let nn = self.normals.len();
        proof {
            assert(2 * self.indices@[k as int] + 1 < nt);
            assert(3 * self.indices@[k as int] + 2 < nn);
        }
        let normal = (self.normals[3 * id], self.normals[3 * id + 1], self.normals[3 * id + 2]);
        let li = diffuse_intensity(normal, &self.light_source);
        let tc = VertexAttr::TextureCoord(self.texcoords[2 * id], self.texcoords[2 * id + 1]);
        (self.positions[id], vec![tc, VertexAttr::LightIntensity(li)])
    }

    fn fragment(
        &self,
        bc: (i128, i128, i128),
        ws: (i64, i64, i64),
        attrs: (&Vec<VertexAttr>, &Vec<VertexAttr>, &Vec<VertexAttr>),
    ) -> (r: (Color, bool)) {
        let uv = uv_at(bc, ws, attrs);
        let li = intensity_at(bc, ws, attrs, 1);
        match (uv, li) {
            (Some((u, v)), Some(li)) => {
                let texel = sample(&self.diffuse, u, v);
                (calc_gouraud_color(li, self.ambient, texel), false)
            },
            _ => ((0, 0, 0), true),
        }
    }
}

/// Each light has a halfway vector, and each lies in `[-ONE, ONE]`.
pub open spec fn halfways_wf(lights: Seq<Light>, halfways: Seq<Vec3>) -> bool {
    halfways.len() == lights.len() && forall|i: int|
        0 <= i < halfways.len() ==> unit_bounded(#[trigger] halfways[i])
}

/// Checks `halfways_wf`.
pub fn halfways_valid(lights: &Vec<Light>, halfways: &Vec<Vec3>) -> (r: bool)
    ensures
        r == halfways_wf(lights@, halfways@),
{
    if halfways.len() != lights.len() {
        return false;
    }
    let mut i: usize = 0;
    while i < halfways.len()
        invariant
            i <= halfways.len(),
            forall|k: int| 0 <= k < i ==> unit_bounded(#[trigger] halfways@[k]),
        decreases halfways.len() - i,
    {
        if !vec3_valid(halfways[i]) {
            return false;
        }
        i += 1;
    }
    true
}

/// Texture shading with per-vertex diffuse and specular intensities
/// interpolated across the triangle. `halfways[i]` is the unit vector
/// halfway between the direction to the eye and the direction to light `i`.
/// The normals, the lights' directions and the halfway vectors must be unit
/// vectors: they are used as given. The shininess `phong_exp` is a whole
/// power.
pub struct BlinnPhongShader {
    pub indices: Vec<u32>,
    pub positions: Vec<ScreenVertex>,
    pub texcoords: Vec<i64>,
    pub normals: Vec<i64>,
    pub diffuse: Canvas,
    pub spec: Canvas,
    pub light_source: Vec<Light>,
    pub halfways: Vec<Vec3>,
    pub ambient: i64,
    pub phong_exp: u32,
}

impl BlinnPhongShader {
    /// A shader over the given mesh, textures and lights, if the mesh's
    /// indices are in range, its values, the lights and the ambient term
    /// bounded, every light has a halfway vector and neither texture is
    /// empty.
    pub fn new(
        indices: Vec<u32>,
        positions: Vec<ScreenVertex>,
        texcoords: Vec<i64>,
        normals: Vec<i64>,
        diffuse: Canvas,
        spec: Canvas,
        light_source: Vec<Light>,
        halfways: Vec<Vec3>,
        ambient: i64,
        phong_exp: u32,
    ) -> (r: Option<BlinnPhongShader>)
        ensures
            r is Some <==> (mesh_wf(indices@, positions@, texcoords@) && normals_wf(
                indices@,
                normals@,
            ) && texture_wf(diffuse) && texture_wf(spec) && lights_wf(light_source@)
                && halfways_wf(light_source@, halfways@) && within(ambient as int, LIMIT as int)),
            r matches Some(s) ==> s.indices@ == indices@ && s.positions@ == positions@
                && s.texcoords@ == texcoords@ && s.normals@ == normals@ && s.diffuse == diffuse
                && s.spec == spec && s.light_source@ == light_source@ && s.halfways@ == halfways@
                && s.ambient == ambient && s.phong_exp == phong_exp,
    {
        if mesh_valid(&indices, &positions, &texcoords) && normals_valid(&indices, &normals)
            && texture_valid(&diffuse) && texture_valid(&spec) && lights_valid(&light_source)
            && halfways_valid(&light_source, &halfways) && -LIMIT <= ambient && ambient <= LIMIT {
            Some(
                BlinnPhongShader {
                    indices,
                    positions,
                    texcoords,
                    normals,
                    diffuse,
                    spec,
                    light_source,
                    halfways,
                    ambient,
                    phong_exp,
                },
            )
        } else {
            None
        }
    }
}

impl Shader for BlinnPhongShader {
    open spec fn wf(&self) -> bool {
        &&& mesh_wf(self.indices@, self.positions@, self.texcoords@)
        &&& normals_wf(self.indices@, self.normals@)
        &&& texture_wf(self.diffuse)
        &&& texture_wf(self.spec)
        &&& lights_wf(self.light_source@)
        &&& halfways_wf(self.light_source@, self.halfways@)
        &&& within(self.ambient as int, LIMIT as int)
    }

    open spec fn triangle_count(&self) -> nat {
        self.indices@.len() / 3
    }

    open spec fn corner(&self, t: int, c: int) -> (ScreenVertex, Seq<VertexAttr>) {
        let id = mesh_corner(self.indices@, t, c);
        let n = normal_of(self.normals@, id);
        (
            self.positions@[id],
            seq![
                texcoord_of(self.texcoords@, id),
                VertexAttr::LightIntensity(diffuse_sum(n, self.light_source@) as i64),
                VertexAttr::LightIntensity(
                    specular_sum(n, self.light_source@, self.halfways@, self.phong_exp as nat)
                        as i64,
                ),
            ],
        )
    }

    open spec fn fits(&self, a: Seq<VertexAttr>) -> bool {
        has_texcoord(a, 0) && has_intensity(a, 1) && has_intensity(a, 2)
    }

    open spec fn shade(
        &self,
        b: (int, int, int),
        ws: (int, int, int),
        a0: Seq<VertexAttr>,
        a1: Seq<VertexAttr>,
        a2: Seq<VertexAttr>,
    ) -> (Color, bool) {
        match (
            interpolate_uv(b, ws, a0, a1, a2, 0),
            interpolate_intensity(b, ws, a0, a1, a2, 1),
            interpolate_intensity(b, ws, a0, a1, a2, 2),
        ) {
            ((Some(u), Some(v)), Some(di), Some(si)) => (
                blinnphong_spec(
                    saturated(di),
                    saturated(si),
                    self.ambient as int,
                    sample_spec(self.diffuse, u, v),
                    sample_spec(self.spec, u, v),
                ),
                false,
            ),
            _ => discarded(),
        }
    }

    fn accepts(&self, bag: &Vec<VertexAttr>) -> (r: bool) {
        texcoord_in(bag, 0).is_some() && intensity_in(bag, 1).is_some() && intensity_in(bag, 2).is_some()
    }

    fn triangles(&self) -> (r: usize) {
        self.indices.len() / 3
    }

    fn vertex(&self, t: u32, v: u32) -> (r: (ScreenVertex, Vec<VertexAttr>)) {
        let n = self.indices.len();
        proof {
            lemma_corner_in_range(t as int, v as int, n as int);
        }
        let k = t as usize * 3 + v as usize;
        let id = self.indices[k] as usize;
        let nt = self.texcoords.len();
        let nn = self.normals.len();
        proof {
            assert(2 * self.indices@[k as int] + 1 < nt);
            assert(3 * self.indices@[k as int] + 2 < nn);
        }
        let normal = (self.normals[3 * id], self.normals[3 * id + 1], self.normals[3 * id + 2]);
        let di = diffuse_intensity(normal, &self.light_source);
        let si = specular_intensity(normal, &self.light_source, &self.halfways, self.phong_exp);
        let tc = VertexAttr::TextureCoord(self.texcoords[2 * id], self.texcoords[2 * id + 1]);
        (
            self.positions[id],
            vec![tc, VertexAttr::LightIntensity(di), VertexAttr::LightIntensity(si)],
        )
    }

    fn fragment(
        &self,
        bc: (i128, i128, i128),
        ws: (i64, i64, i64),
        attrs: (&Vec<VertexAttr>, &Vec<VertexAttr>, &Vec<VertexAttr>),
    ) -> (r: (Color, bool)) {
        let uv = uv_at(bc, ws, attrs);
        let di = intensity_at(bc, ws, attrs, 1);
        let si = intensity_at(bc, ws, attrs, 2);
        match (uv, di, si) {
            (Some((u, v)), Some(di), Some(si)) => {
                let d = sample(&self.diffuse, u, v);
                let s = sample(&self.spec, u, v);
                (calc_blinnphong_color(di, si, self.ambient, d, s), false)
            },
            _ => ((0, 0, 0), true),
        }
    }
}

} // verus!
