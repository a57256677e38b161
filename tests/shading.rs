use rasterizer::canvas::Canvas;
use rasterizer::fixed::{LIMIT, ONE, SUBPIXEL};
use rasterizer::geometry::ScreenVertex;
use rasterizer::lighting::{diffuse_intensity, pow_fixed_exec, specular_intensity, Light};
use rasterizer::shader::{
    calc_blinnphong_color,
    calc_gouraud_color,
    clamp,
    BlinnPhongShader,
    GouraudShader,
    Shader,
    VanillaShader,
    VertexAttr,
};
use rasterizer::transforms::viewport;

fn sv(x: i64, y: i64) -> ScreenVertex {
    ScreenVertex { x, y, z: 0, w: ONE }
}

fn triangle() -> Vec<ScreenVertex> {
    vec![sv(0, 0), sv(64, 0), sv(0, 64)]
}

fn light(z: i64, weight: i64) -> Light {
    Light { dir: (0, 0, z), weight }
}

fn up_normals() -> Vec<i64> {
    vec![0, 0, ONE, 0, 0, ONE, 0, 0, ONE]
}

fn gouraud() -> GouraudShader {
    GouraudShader::new(
        vec![0, 1, 2],
        triangle(),
        vec![0; 6],
        up_normals(),
        Canvas::new(1, 1, (200, 100, 40)).unwrap(),
        vec![light(ONE, ONE * 8 / 10), light(-ONE, ONE)],
        ONE / 5,
    )
    .unwrap()
}

fn blinn_phong() -> BlinnPhongShader {
    BlinnPhongShader::new(
        vec![0, 1, 2],
        triangle(),
        vec![0; 6],
        up_normals(),
        Canvas::new(1, 1, (100, 100, 100)).unwrap(),
        Canvas::new(1, 1, (200, 40, 0)).unwrap(),
        vec![light(ONE, ONE / 2)],
        vec![(0, 0, -ONE)],
        0,
        4,
    )
    .unwrap()
}

#[test]
fn blinn_phong_fragment_rejects_gouraud_bag() {
    let g = gouraud();
    let b = blinn_phong();
    let bag = g.vertex(0, 0).1;
    assert_eq!(bag.len(), 2);
    // The Gouraud bag lacks the specular slot: handing it to the Blinn-Phong
    // fragment stage is outside its contract, and the schema check says so.
    assert!(g.accepts(&bag));
    assert!(!b.accepts(&bag));
    let own = b.vertex(0, 0).1;
    assert!(b.accepts(&own));
    assert!(!g.accepts(&vec![VertexAttr::LightIntensity(0), VertexAttr::LightIntensity(0)]));
    assert!(!g.accepts(&vec![VertexAttr::TextureCoord(0, 0)]));
    assert_eq!(b.fragment((1, 0, 0), (1, 1, 1), (&own, &own, &own)), ((150, 70, 50), false));
}

#[test]
fn vanilla_fragment_rejects_intensity_bag() {
    let s = VanillaShader::new(vec![0, 1, 2], triangle(), vec![0; 6], Canvas::new(1, 1, (1, 2, 3)).unwrap())
        .unwrap();
    let bad = vec![VertexAttr::LightIntensity(0)];
    let good = vec![VertexAttr::TextureCoord(0, 0)];
    assert!(!s.accepts(&bad));
    assert!(!s.accepts(&vec![]));
    assert!(s.accepts(&good));
    assert_eq!(s.fragment((1, 0, 0), (1, 1, 1), (&good, &good, &good)), ((1, 2, 3), false));
}

#[test]
fn gouraud_vertex_sums_light_intensity() {
    let g = gouraud();
    let (pos, bag) = g.vertex(0, 1);
    assert_eq!(pos, sv(64, 0));
    assert_eq!(bag, vec![VertexAttr::TextureCoord(0, 0), VertexAttr::LightIntensity(52428)]);
}

#[test]
fn gouraud_fragment_scales_texel() {
    let g = gouraud();
    let bag = g.vertex(0, 0).1;
    let (c, drop) = g.fragment((3, 2, 1), (5, 5, 5), (&bag, &bag, &bag));
    assert!(!drop);
    // Intensity 52428 plus ambient 13107 is 65535 / 65536.
    assert_eq!(c, (199, 99, 39));
}

#[test]
fn blinn_phong_vertex_and_fragment() {
    let b = blinn_phong();
    let bag = b.vertex(0, 2).1;
    assert_eq!(
        bag,
        vec![
            VertexAttr::TextureCoord(0, 0),
            VertexAttr::LightIntensity(ONE / 2),
            VertexAttr::LightIntensity(ONE / 2),
        ]
    );
    let (c, drop) = b.fragment((1, 1, 1), (1, 1, 1), (&bag, &bag, &bag));
    assert!(!drop);
    assert_eq!(c, (150, 70, 50));
}

#[test]
fn fragment_discards_where_weights_cancel() {
    let g = gouraud();
    let bag = g.vertex(0, 0).1;
    assert_eq!(g.fragment((1, 1, 0), (1, -1, 7), (&bag, &bag, &bag)), ((0, 0, 0), true));
}

#[test]
fn texture_rows_are_flipped() {
    // Row 0 (top) red, row 1 (bottom) blue.
    let tex = Canvas::from_rgb_bytes(1, 2, vec![255, 0, 0, 0, 0, 255]).unwrap();
    let s = VanillaShader::new(vec![0, 1, 2], triangle(), vec![0; 6], tex).unwrap();
    let bottom = vec![VertexAttr::TextureCoord(0, 0)];
    let top = vec![VertexAttr::TextureCoord(0, ONE)];
    let low = vec![VertexAttr::TextureCoord(0, -5 * ONE)];
    assert_eq!(s.fragment((1, 0, 0), (1, 1, 1), (&bottom, &bottom, &bottom)), ((0, 0, 255), false));
    assert_eq!(s.fragment((1, 0, 0), (1, 1, 1), (&top, &top, &top)), ((255, 0, 0), false));
    assert_eq!(s.fragment((1, 0, 0), (1, 1, 1), (&low, &low, &low)), ((0, 0, 255), false));
}

#[test]
fn color_formulas() {
    assert_eq!(calc_gouraud_color(ONE / 2, ONE / 4, (200, 100, 40)), (150, 75, 30));
    assert_eq!(calc_gouraud_color(2 * ONE, 0, (200, 100, 0)), (255, 200, 0));
    assert_eq!(calc_gouraud_color(-ONE, 0, (200, 100, 0)), (0, 0, 0));
    assert_eq!(
        calc_blinnphong_color(ONE / 2, ONE / 4, 0, (100, 100, 100), (200, 40, 0)),
        (100, 60, 50)
    );
    assert_eq!(clamp(-3, 300, 7), (0, 255, 7));
}

#[test]
fn light_intensities() {
    let n = (0, 0, ONE);
    assert_eq!(diffuse_intensity(n, &vec![light(ONE, ONE * 8 / 10), light(-ONE, ONE)]), 52428);
    assert_eq!(diffuse_intensity(n, &vec![]), 0);
    assert_eq!(pow_fixed_exec(ONE / 2, 3), ONE / 8);
    assert_eq!(pow_fixed_exec(ONE / 2, 0), ONE);
    assert_eq!(specular_intensity(n, &vec![light(ONE, ONE / 2)], &vec![(0, 0, -ONE)], 7), ONE / 2);
    assert_eq!(
        specular_intensity(n, &vec![light(ONE, ONE)], &vec![(0, ONE / 2, ONE / 2)], 2),
        ONE / 4
    );
}

#[test]
fn shaders_reject_malformed_input() {
    let tex = || Canvas::new(1, 1, (0, 0, 0)).unwrap();
    assert!(VanillaShader::new(vec![0, 1, 3], triangle(), vec![0; 6], tex()).is_none());
    assert!(VanillaShader::new(vec![0, 1, 2], triangle(), vec![0; 5], tex()).is_none());
    assert!(VanillaShader::new(vec![0, 1, 2], triangle(), vec![0, 0, LIMIT + 1, 0, 0, 0], tex()).is_none());
    assert!(VanillaShader::new(vec![0, 1, 2], triangle(), vec![0; 6], Canvas::new(0, 0, (0, 0, 0)).unwrap()).is_none());
    let mut far = triangle();
    far[1].x = LIMIT + 1;
    assert!(VanillaShader::new(vec![0, 1, 2], far, vec![0; 6], tex()).is_none());
    let skewed = vec![Light { dir: (0, ONE + 1, 0), weight: 1 }];
    assert!(GouraudShader::new(vec![0, 1, 2], triangle(), vec![0; 6], up_normals(), tex(), skewed, 0).is_none());
    assert!(GouraudShader::new(vec![0, 1, 2], triangle(), vec![0; 6], vec![0; 8], tex(), vec![], 0).is_none());
    assert!(BlinnPhongShader::new(
        vec![0, 1, 2],
        triangle(),
        vec![0; 6],
        up_normals(),
        tex(),
        tex(),
        vec![light(ONE, 1)],
        vec![],
        0,
        1
    )
    .is_none());
}

#[test]
fn many_strong_lights_saturate() {
    let n = (0, 0, ONE);
    let many = vec![light(ONE, ONE); 40];
    assert_eq!(diffuse_intensity(n, &many), 40 * ONE);
    let strong = vec![light(ONE, i64::MAX / 2), light(ONE, i64::MAX / 2)];
    assert_eq!(diffuse_intensity(n, &strong), LIMIT);
    let negative = vec![light(ONE, i64::MIN), light(ONE, ONE)];
    assert_eq!(diffuse_intensity(n, &negative), -LIMIT + ONE);
    let halfways = vec![(0, 0, ONE); 2];
    assert_eq!(specular_intensity(n, &strong, &halfways, 3), LIMIT);
    let g = GouraudShader::new(
        vec![0, 1, 2],
        triangle(),
        vec![0; 6],
        up_normals(),
        Canvas::new(1, 1, (0, 0, 0)).unwrap(),
        many,
        0,
    );
    assert!(g.is_some());
}

#[test]
fn viewport_maps_ndc_corners() {
    let vp = viewport(640, 480);
    let lo = vp.to_screen(-ONE, -ONE, 0, ONE).unwrap();
    let hi = vp.to_screen(ONE, ONE, 0, ONE).unwrap();
    assert_eq!((lo.x, lo.y), (-SUBPIXEL / 2, -SUBPIXEL / 2));
    assert_eq!((hi.x, hi.y), (SUBPIXEL * 639 + SUBPIXEL / 2, SUBPIXEL * 479 + SUBPIXEL / 2));
    let mid = vp.to_screen(0, 0, 5, -7).unwrap();
    assert_eq!((mid.x, mid.y, mid.z, mid.w), (SUBPIXEL * 639 / 2, SUBPIXEL * 479 / 2, 5, -7));
    assert!(vp.to_screen(ONE * 1_000_000, 0, 0, ONE).is_none());
    assert!(vp.to_screen(0, 0, LIMIT + 1, ONE).is_none());
}
