use rasterizer::canvas::Canvas;
use rasterizer::fixed::ONE;
use rasterizer::geometry::{barycentric, perspective_interpolate, ScreenVertex};
use rasterizer::render::{rasterize, rasterize_triangle, DEPTH_EMPTY};
use rasterizer::shader::{Shader, VanillaShader, VertexAttr};
use rasterizer::transforms::{perspective, project_vertices, viewport, Mat4, Viewport};

const BLACK: (u8, u8, u8) = (0, 0, 0);
const RED: (u8, u8, u8) = (255, 0, 0);
const BLUE: (u8, u8, u8) = (0, 0, 255);

/// Projects a camera-space point with the frustum (-1, 1, -1, 1, -1, -10)
/// and maps it to the screen.
fn project(vp: &Viewport, x: f64, y: f64, z: f64) -> ScreenVertex {
    let (n, f) = (-1.0f64, -10.0f64);
    let cx = n * x;
    let cy = n * y;
    let cz = (f + n) / (n - f) * z + 2.0 * f * n / (f - n);
    let cw = z;
    let one = ONE as f64;
    vp.to_screen(
        (cx / cw * one).round() as i64,
        (cy / cw * one).round() as i64,
        (cz / cw * one).round() as i64,
        (one / cw).round() as i64,
    )
    .unwrap()
}

/// A 2 by 1 texture: red on the left, blue on the right.
fn two_color_texture() -> Canvas {
    Canvas::from_rgb_bytes(2, 1, vec![255, 0, 0, 0, 0, 255]).unwrap()
}

fn painted(img: &Canvas) -> Vec<(u32, u32, (u8, u8, u8))> {
    let mut out = Vec::new();
    for row in 0..img.height() {
        for col in 0..img.width() {
            let c = img.pixel_at(col, row).unwrap();
            if c != BLACK {
                out.push((col, row, c));
            }
        }
    }
    out
}

fn fresh(w: u32, h: u32) -> (Vec<i64>, Canvas) {
    (vec![DEPTH_EMPTY; (w * h) as usize], Canvas::new(w, h, BLACK).unwrap())
}

/// The frustum (-1, 1, -1, 1, -1, -10) in fixed point.
fn frustum() -> Mat4 {
    perspective(-ONE, ONE, -ONE, ONE, -ONE, -10 * ONE).unwrap()
}

#[test]
fn perspective_matrix_entries() {
    // -11/9 and -20/9 rounded down.
    assert_eq!(
        frustum(),
        Mat4 {
            r0: (-ONE, 0, 0, 0),
            r1: (0, -ONE, 0, 0),
            r2: (0, 0, -80100, -145636),
            r3: (0, 0, ONE, 0),
        }
    );
    let off = perspective(0, 2 * ONE, -ONE, 3 * ONE, -ONE, -3 * ONE).unwrap();
    assert_eq!(off.r0, (-ONE, 0, -ONE, 0));
    assert_eq!(off.r1, (0, -ONE / 2, -ONE / 2, 0));
    assert_eq!(off.r2, (0, 0, -2 * ONE, -3 * ONE));
    assert!(perspective(ONE, ONE, -ONE, ONE, -ONE, -2 * ONE).is_none());
    assert!(perspective(-ONE, ONE, -ONE, ONE, -ONE, -ONE).is_none());
}

#[test]
fn matrix_products() {
    let id = Mat4 { r0: (ONE, 0, 0, 0), r1: (0, ONE, 0, 0), r2: (0, 0, ONE, 0), r3: (0, 0, 0, ONE) };
    let shift = Mat4 { r0: (ONE, 0, 0, 0), r1: (0, ONE, 0, 0), r2: (0, 0, ONE, -4 * ONE), r3: (0, 0, 0, ONE) };
    assert_eq!(id.mul(&frustum()), Some(frustum()));
    assert_eq!(frustum().mul(&id), Some(frustum()));
    let p = frustum().mul(&shift).unwrap();
    // The shift moves z by -4 before the projection.
    assert_eq!(p.r2, (0, 0, -80100, -145636 + 4 * 80100));
    assert_eq!(p.r3, (0, 0, ONE, -4 * ONE));
    let big = Mat4 { r0: (0x100_0001, 0, 0, 0), ..id };
    assert!(big.mul(&id).is_none());
}

#[test]
fn unit_triangle_paints_red_region() {
    let vp = viewport(4, 4);
    let points = vec![0, 0, -2 * ONE, ONE, 0, -2 * ONE, 0, ONE, -2 * ONE];
    let positions = project_vertices(&frustum(), &vp, &points).unwrap();
    assert_eq!(
        positions,
        vec![
            ScreenVertex { x: 24, y: 24, z: -7282, w: -32768 },
            ScreenVertex { x: 40, y: 24, z: -7282, w: -32768 },
            ScreenVertex { x: 24, y: 40, z: -7282, w: -32768 },
        ]
    );
    let texture = Canvas::new(1, 1, RED).unwrap();
    let shader = VanillaShader::new(vec![0, 1, 2], positions, vec![0; 6], texture).unwrap();
    let (mut z, mut img) = fresh(4, 4);
    rasterize(shader.triangles(), &shader, &mut z, &mut img);
    assert_eq!(painted(&img), vec![(1, 1, RED), (1, 2, RED), (2, 2, RED)]);
    let drawn: Vec<usize> = (0..16).filter(|&i| z[i] != DEPTH_EMPTY).collect();
    assert_eq!(drawn, vec![5, 6, 9]);
    assert_eq!(z[5], -7282);
}

#[test]
fn projection_rejects_bad_input() {
    let vp = viewport(4, 4);
    // A point on the camera plane has clip w = 0.
    assert!(project_vertices(&frustum(), &vp, &vec![0, 0, 0]).is_none());
    assert!(project_vertices(&frustum(), &vp, &vec![0, 0]).is_none());
    let mut big = frustum();
    big.r0.0 = 0x100_0001;
    assert!(project_vertices(&big, &vp, &vec![0, 0, -ONE]).is_none());
    assert_eq!(project_vertices(&frustum(), &vp, &vec![]), Some(vec![]));
    let p = vp.project(&frustum(), 0, 0, -ONE).unwrap();
    // On the near plane the depth is 1.0 and w' is -1.0.
    assert_eq!((p.x, p.y, p.z, p.w), (24, 24, ONE, -ONE));
}

/// Two triangles covering the center of a 4 by 4 image, projected with the
/// frustum (-1, 1, -1, 1, -1, -10): the first at camera depth -2 (red),
/// the second at -3 (blue), drawn in the given order.
fn overlapping(order: [usize; 2]) -> (Canvas, Vec<i64>) {
    let vp = viewport(4, 4);
    let h = ONE / 2;
    let near = vec![-ONE, -ONE, -2 * ONE, ONE, -ONE, -2 * ONE, 0, ONE, -2 * ONE];
    let far = vec![-3 * h, -3 * h, -3 * ONE, 3 * h, -3 * h, -3 * ONE, 0, 3 * h, -3 * ONE];
    let mut points = Vec::new();
    let mut texcoords = Vec::new();
    for &k in order.iter() {
        let (tri, u) = if k == 0 { (&near, 0) } else { (&far, ONE) };
        points.extend_from_slice(tri);
        for _ in 0..3 {
            texcoords.push(u);
            texcoords.push(0);
        }
    }
    let positions = project_vertices(&frustum(), &vp, &points).unwrap();
    let shader =
        VanillaShader::new(vec![0, 1, 2, 3, 4, 5], positions, texcoords, two_color_texture())
            .unwrap();
    let (mut z, mut img) = fresh(4, 4);
    rasterize(2, &shader, &mut z, &mut img);
    (img, z)
}

#[test]
fn nearer_triangle_wins_in_either_order() {
    let (a, za) = overlapping([0, 1]);
    let (b, zb) = overlapping([1, 0]);
    let pa = painted(&a);
    assert_eq!(pa.len(), 5);
    assert!(pa.iter().all(|p| p.2 == RED));
    assert_eq!(pa, painted(&b));
    // Pixel (1, 1), y up, holds the nearer depth, about -1/9; the farther
    // triangle's is about -13/27.
    assert_eq!(za[5], -7282);
    assert_eq!(zb[5], -7282);
    assert_eq!(za, zb);
}

#[test]
fn rendering_twice_gives_identical_images() {
    let a = overlapping([1, 0]).0.into_rgb_bytes();
    let b = overlapping([1, 0]).0.into_rgb_bytes();
    assert_eq!(a, b);
    assert_eq!(a.len(), 48);
}

/// A screen vertex at pixel coordinates `(x, y)` (sub-pixel units) with the
/// given depth and perspective reciprocal.
fn sv(x: i64, y: i64, z: i64, w: i64) -> ScreenVertex {
    ScreenVertex { x, y, z, w }
}

/// Whether the pixel center `(px + 0.5, py + 0.5)` lies in the triangle,
/// edges included, computed with floating point.
fn inside(t: &[ScreenVertex; 3], px: u32, py: u32) -> bool {
    let p = ((px as f64 + 0.5) * 16.0, (py as f64 + 0.5) * 16.0);
    let e = |a: &ScreenVertex, b: &ScreenVertex| {
        (b.x as f64 - a.x as f64) * (p.1 - a.y as f64) - (b.y as f64 - a.y as f64) * (p.0 - a.x as f64)
    };
    let (e0, e1, e2) = (e(&t[0], &t[1]), e(&t[1], &t[2]), e(&t[2], &t[0]));
    (e0 >= 0.0 && e1 >= 0.0 && e2 >= 0.0) || (e0 <= 0.0 && e1 <= 0.0 && e2 <= 0.0)
}

#[test]
fn painted_pixels_are_the_covered_ones() {
    let t = [sv(5, 3, 0, ONE), sv(120, 30, 0, ONE), sv(40, 110, 0, ONE)];
    let shader =
        VanillaShader::new(vec![0, 1, 2], t.to_vec(), vec![0; 6], Canvas::new(1, 1, RED).unwrap())
            .unwrap();
    let (mut z, mut img) = fresh(8, 8);
    rasterize(1, &shader, &mut z, &mut img);
    let mut count = 0;
    for py in 0..8u32 {
        for px in 0..8u32 {
            let c = img.pixel_at(px, 7 - py).unwrap();
            assert_eq!(c == RED, inside(&t, px, py), "pixel {} {}", px, py);
            if c == RED {
                count += 1;
            }
        }
    }
    assert!(count > 10);
}

#[test]
fn shared_edge_is_painted_once_without_gaps() {
    // Two coplanar triangles splitting the square [8, 56] x [8, 56] along
    // its diagonal: the first red, the second blue.
    let (p0, p1, p2, p3) = (sv(8, 8, 0, ONE), sv(56, 8, 0, ONE), sv(56, 56, 0, ONE), sv(8, 56, 0, ONE));
    let positions = vec![p0, p1, p2, p2, p3, p0];
    let texcoords = vec![0, 0, 0, 0, 0, 0, ONE, 0, ONE, 0, ONE, 0];
    let shader = VanillaShader::new(
        vec![0, 1, 2, 3, 4, 5],
        positions,
        texcoords,
        two_color_texture(),
    )
    .unwrap();
    let (mut z, mut img) = fresh(4, 4);
    rasterize(2, &shader, &mut z, &mut img);
    for py in 0..4u32 {
        for px in 0..4u32 {
            let c = img.pixel_at(px, 3 - py).unwrap();
            let expected = if px >= py { RED } else { BLUE };
            assert_eq!(c, expected, "pixel {} {}", px, py);
        }
    }
}

#[test]
fn degenerate_and_offscreen_triangles_paint_nothing() {
    let line = [sv(0, 0, 0, ONE), sv(32, 32, 0, ONE), sv(64, 64, 0, ONE)];
    let offscreen = [sv(-100, -100, 0, ONE), sv(-50, -100, 0, ONE), sv(-100, -50, 0, ONE)];
    for t in [line, offscreen].iter() {
        let shader = VanillaShader::new(
            vec![0, 1, 2],
            t.to_vec(),
            vec![0; 6],
            Canvas::new(1, 1, RED).unwrap(),
        )
        .unwrap();
        let (mut z, mut img) = fresh(4, 4);
        rasterize(1, &shader, &mut z, &mut img);
        assert!(painted(&img).is_empty());
        assert!(z.iter().all(|&d| d == DEPTH_EMPTY));
    }
}

#[test]
fn depth_outside_range_is_discarded() {
    let t = vec![sv(0, 0, 2 * ONE, ONE), sv(64, 0, 2 * ONE, ONE), sv(0, 64, 2 * ONE, ONE)];
    let shader =
        VanillaShader::new(vec![0, 1, 2], t, vec![0; 6], Canvas::new(1, 1, RED).unwrap()).unwrap();
    let (mut z, mut img) = fresh(4, 4);
    rasterize(1, &shader, &mut z, &mut img);
    assert!(painted(&img).is_empty());
}

#[test]
fn rasterize_triangle_respects_stored_depth() {
    let t = [sv(0, 0, 100, ONE), sv(64, 0, 100, ONE), sv(0, 64, 100, ONE)];
    let bag = vec![VertexAttr::TextureCoord(0, 0)];
    let shader =
        VanillaShader::new(vec![0, 1, 2], t.to_vec(), vec![0; 6], Canvas::new(1, 1, RED).unwrap())
            .unwrap();
    let (mut z, mut img) = fresh(4, 4);
    z[0] = 200;
    z[1] = 100;
    rasterize_triangle(
        [(t[0], bag.clone()), (t[1], bag.clone()), (t[2], bag)],
        &shader,
        &mut z,
        &mut img,
    );
    // Pixel (0, 0) held something nearer, pixel (1, 0) an equal depth.
    assert_eq!(img.pixel_at(0, 3), Some(BLACK));
    assert_eq!(img.pixel_at(1, 3), Some(BLACK));
    assert_eq!(img.pixel_at(2, 3), Some(RED));
    assert_eq!(z[0], 200);
    assert_eq!(z[2], 100);
}

#[test]
fn perspective_interpolation_is_not_linear() {
    // Midpoint of the edge from a vertex at w' = 1 to one at w' = 3.
    let r = perspective_interpolate((1, 1, 0), (1, 3, 3), (0, ONE, 0));
    assert_eq!(r, Some(3 * ONE as i128 / 4));
    assert_ne!(r, Some(ONE as i128 / 2));
    assert_eq!(perspective_interpolate((1, 1, 0), (1, -1, 5), (0, ONE, 0)), None);
    assert_eq!(perspective_interpolate((1, 0, 0), (-2, 1, 1), (-7, 0, 0)), Some(-7));
    assert_eq!(perspective_interpolate((1, 2, 0), (1, 1, 1), (-1, 0, 0)), Some(-1));
}

#[test]
fn textured_quad_at_raking_angle_samples_perspective_correctly() {
    // A floor quad at y = -1 receding from z = -1.5 (u = 0) to z = -6
    // (u = 1), drawn over a 5 by 1 texture of distinct colors.
    let vp = viewport(8, 8);
    let positions = vec![
        project(&vp, -1.0, -1.0, -1.5),
        project(&vp, 1.0, -1.0, -1.5),
        project(&vp, 1.0, -1.0, -6.0),
        project(&vp, -1.0, -1.0, -6.0),
    ];
    let texcoords = vec![0, 0, 0, 0, ONE, 0, ONE, 0];
    let raw = vec![10, 0, 0, 20, 0, 0, 30, 0, 0, 40, 0, 0, 50, 0, 0];
    let texture = Canvas::from_rgb_bytes(5, 1, raw).unwrap();
    // Pixel (3, 1), y up: its center row maps to y_ndc = -0.5, where the
    // floor lies at z = -2, so u = (2 - 1.5) / (6 - 1.5) = 1/9; averaging
    // in screen space would give about 1/3.
    let b = barycentric(positions[0], positions[1], positions[2], 3 * 16 + 8, 16 + 8).unwrap();
    let ws = (positions[0].w, positions[1].w, positions[2].w);
    let u = perspective_interpolate(b, ws, (0, 0, ONE)).unwrap();
    assert!((u as f64 / ONE as f64 - 1.0 / 9.0).abs() < 0.01);
    let naive = (b.2 * ONE as i128) / (b.0 + b.1 + b.2);
    assert!((naive as f64 / ONE as f64 - 1.0 / 3.0).abs() < 0.05);
    let shader =
        VanillaShader::new(vec![0, 1, 2, 2, 3, 0], positions, texcoords, texture).unwrap();
    let (mut z, mut img) = fresh(8, 8);
    rasterize(2, &shader, &mut z, &mut img);
    assert_eq!(img.pixel_at(3, 6), Some((10, 0, 0)));
}
