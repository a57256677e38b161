use vstd::prelude::*;
use vstd::arithmetic::div_mod::lemma_fundamental_div_mod;
use crate::canvas::{canvas_rows, canvas_width, Canvas, Color};
use crate::fixed::{floor_div, ONE, SUBPIXEL};
use crate::geometry::{
    lemma_interpolate_constant,
    area2,
    weight0,
    weight1,
    barycentric,
    barycentric_spec,
    covers,
    interpolate_spec,
    perspective_interpolate,
    ScreenVertex,
};
use crate::shader::{bag_bounded, clamp_to, Shader, VertexAttr};

verus! {

/// The depth-buffer value that stands for "nothing drawn yet": every depth a
/// sample can have is greater.
pub const DEPTH_EMPTY: i64 = i64::MIN;

/// A corner of a triangle as the rasterizer sees it: screen position and
/// attribute bag.
pub type Corner = (ScreenVertex, Seq<VertexAttr>);

/// The view of one of the three corners handed to `rasterize_triangle`.
pub open spec fn corner_of(vs: [(ScreenVertex, Vec<VertexAttr>); 3], k: int) -> Corner {
    (vs@[k].0, vs@[k].1@)
}

/// The sub-pixel coordinate of the center of pixel `p`.
pub open spec fn center(p: int) -> int {
    p * SUBPIXEL + SUBPIXEL / 2
}

/// The smallest of three values.
pub open spec fn min3(a: int, b: int, c: int) -> int {
    if a <= b && a <= c {
        a
    } else if b <= c {
        b
    } else {
        c
    }
}

/// The largest of three values.
pub open spec fn max3(a: int, b: int, c: int) -> int {
    if a >= b && a >= c {
        a
    } else if b >= c {
        b
    } else {
        c
    }
}

/// The first pixel of the bounding span that starts at sub-pixel coordinate
/// `lo`: `floor(lo)` in pixels, limited to `[0, size]`.
pub open spec fn span_start(lo: int, size: int) -> int {
    clamp_to(lo / SUBPIXEL as int, 0, size)
}

/// One past the last pixel of the bounding span that ends at sub-pixel
/// coordinate `hi`: `ceil(hi)` in pixels, limited to `[0, size]`.
pub open spec fn span_end(hi: int, size: int) -> int {
    clamp_to(-((-hi) / SUBPIXEL as int), 0, size)
}

/// Pixel `(px, py)` lies in the triangle's bounding box clipped to a
/// `width` by `height` image.
pub open spec fn in_box(
    c0: Corner,
    c1: Corner,
    c2: Corner,
    width: int,
    height: int,
    px: int,
    py: int,
) -> bool {
    let (v0, v1, v2) = (c0.0, c1.0, c2.0);
    &&& span_start(min3(v0.x as int, v1.x as int, v2.x as int), width) <= px
    &&& px < span_end(max3(v0.x as int, v1.x as int, v2.x as int), width)
    &&& span_start(min3(v0.y as int, v1.y as int, v2.y as int), height) <= py
    &&& py < span_end(max3(v0.y as int, v1.y as int, v2.y as int), height)
}

/// The depth and color the triangle offers at pixel `(px, py)` (y up): the
/// pixel's center must lie in the triangle (edges included), the
/// perspective-correct depth must be defined and lie in `[-ONE, ONE]`, and
/// the shader must not discard the sample.
pub open spec fn fragment_at<S: Shader>(
    s: &S,
    c0: Corner,
    c1: Corner,
    c2: Corner,
    px: int,
    py: int,
) -> Option<(int, Color)> {
    let (v0, v1, v2) = (c0.0, c1.0, c2.0);
    let ws = (v0.w as int, v1.w as int, v2.w as int);
    match barycentric_spec(v0, v1, v2, center(px), center(py)) {
        None => None,
        Some(b) => if !covers(b) {
            None
        } else {
            match interpolate_spec(b, ws, (v0.z as int, v1.z as int, v2.z as int)) {
                None => None,
                Some(z) => if z < -ONE || z > ONE {
                    None
                } else {
                    let (c, drop) = s.shade(b, ws, c0.1, c1.1, c2.1);
                    if drop {
                        None
                    } else {
                        Some((z, c))
                    }
                },
            }
        },
    }
}

/// The triangle's sample at `(px, py)` passes the depth test against the
/// stored depth `old`: it is strictly greater (nearer).
pub open spec fn wins<S: Shader>(
    s: &S,
    c0: Corner,
    c1: Corner,
    c2: Corner,
    width: int,
    height: int,
    old: i64,
    px: int,
    py: int,
) -> bool {
    in_box(c0, c1, c2, width, height, px, py) && match fragment_at(s, c0, c1, c2, px, py) {
        Some((z, _)) => old < z,
        None => false,
    }
}

/// The stored depth at `(px, py)` after the triangle is drawn over `old`.
pub open spec fn depth_after<S: Shader>(
    s: &S,
    c0: Corner,
    c1: Corner,
    c2: Corner,
    width: int,
    height: int,
    old: i64,
    px: int,
    py: int,
) -> i64 {
    if wins(s, c0, c1, c2, width, height, old, px, py) {
        fragment_at(s, c0, c1, c2, px, py)->Some_0.0 as i64
    } else {
        old
    }
}

/// The color at `(px, py)` after the triangle is drawn over `old`, with
/// `old_depth` the depth stored there before.
pub open spec fn color_after<S: Shader>(
    s: &S,
    c0: Corner,
    c1: Corner,
    c2: Corner,
    width: int,
    height: int,
    old_depth: i64,
    old: Color,
    px: int,
    py: int,
) -> Color {
    if wins(s, c0, c1, c2, width, height, old_depth, px, py) {
        fragment_at(s, c0, c1, c2, px, py)->Some_0.1
    } else {
        old
    }
}

/// The depth buffer and image rows after one triangle is drawn. The depth
/// of pixel `(px, py)` (y up) is at index `px + py * width`; its color is in
/// row `height - 1 - py`, row 0 being the top of the image.
pub open spec fn triangle_pass<S: Shader>(
    s: &S,
    c0: Corner,
    c1: Corner,
    c2: Corner,
    width: int,
    depth: Seq<i64>,
    rows: Seq<Seq<Color>>,
) -> (Seq<i64>, Seq<Seq<Color>>) {
    let height = rows.len() as int;
    (
        Seq::new(
            depth.len(),
            |i: int| depth_after(s, c0, c1, c2, width, height, depth[i], i % width, i / width),
        ),
        Seq::new(
            rows.len(),
            |r: int|
                Seq::new(
                    rows[r].len(),
                    |px: int|
                        color_after(
                            s,
                            c0,
                            c1,
                            c2,
                            width,
                            height,
                            depth[px + (height - 1 - r) * width],
                            rows[r][px],
                            px,
                            height - 1 - r,
                        ),
                ),
        ),
    )
}

/// A depth buffer fits a `width` by `height` image whose rows all hold
/// `width` pixels.
pub open spec fn frame_wf(width: int, depth: Seq<i64>, rows: Seq<Seq<Color>>) -> bool {
    &&& 0 <= width <= u32::MAX
    &&& rows.len() <= u32::MAX
    &&& depth.len() == width * rows.len()
    &&& forall|r: int| 0 <= r < rows.len() ==> (#[trigger] rows[r]).len() == width
}

/// The pixel index of `(px, py)` lies in the buffer, and different pixels
/// have different indices.
pub proof fn lemma_pixel_index(width: int, height: int, px: int, py: int)
    requires
        0 <= px < width,
        0 <= py < height,
    ensures
        0 <= px + py * width < width * height,
        (px + py * width) % width == px,
        (px + py * width) / width == py,
{
    assert(0 <= px + py * width < width * height) by (nonlinear_arith)
        requires
            0 <= px < width,
            0 <= py < height,
    ;
    lemma_fundamental_div_mod(px + py * width, width);
    let i = px + py * width;
    vstd::arithmetic::div_mod::lemma_fundamental_div_mod_converse(i, width, py, px);
}

/// Every index of a `width` by `height` buffer is the index of a pixel.
pub proof fn lemma_index_pixel(width: int, height: int, i: int)
    requires
        0 <= width,
        0 <= i < width * height,
    ensures
        0 <= i % width < width,
        0 <= i / width < height,
        i == i % width + (i / width) * width,
{
    assert(width > 0) by (nonlinear_arith)
        requires
            0 <= i < width * height,
            width >= 0,
    ;
    lemma_fundamental_div_mod(i, width);
    assert(width * (i / width) == (i / width) * width) by (nonlinear_arith);
    assert(0 <= i / width < height) by (nonlinear_arith)
        requires
            0 <= i < width * height,
            width > 0,
            i == width * (i / width) + i % width,
            0 <= i % width < width,
    ;
}

/// The index of pixel `(px, py)` in a depth buffer of the given width.
pub open spec fn pix(width: int, px: int, py: int) -> int {
    px + py * width
}

/// The bounding span `[span_start(lo), span_end(hi))` of pixels along an axis
/// of length `size`.
fn span(lo: i64, hi: i64, size: u32) -> (r: (u32, u32))
    ensures
        r.0 == span_start(lo as int, size as int),
        r.1 == span_end(hi as int, size as int),
{
    let s: i128 = floor_div(lo as i128, SUBPIXEL as i128);
    let e: i128 = -floor_div(-(hi as i128), SUBPIXEL as i128);
    let n: i128 = size as i128;
    let a: u32 = if s < 0 {
        0
    } else if s > n {
        size
    } else {
        s as u32
    };
    let b: u32 = if e < 0 {
        0
    } else if e > n {
        size
    } else {
        e as u32
    };
    (a, b)
}

fn min3_exec(a: i64, b: i64, c: i64) -> (r: i64)
    ensures
        r == min3(a as int, b as int, c as int),
{
    if a <= b && a <= c {
        a
    } else if b <= c {
        b
    } else {
        c
    }
}

fn max3_exec(a: i64, b: i64, c: i64) -> (r: i64)
    ensures
        r == max3(a as int, b as int, c as int),
{
    if a >= b && a >= c {
        a
    } else if b >= c {
        b
    } else {
        c
    }
}

/// Draws one triangle: for each pixel of its bounding box (clipped to the
/// image) whose center it covers, with a depth in range that the shader does
/// not discard and that is strictly greater than the stored one, stores the
/// depth and writes the shaded color into the row-flipped image position.
pub fn rasterize_triangle<S: Shader>(
    vs: [(ScreenVertex, Vec<VertexAttr>); 3],
    shader: &S,
    z_buffer: &mut Vec<i64>,
    img: &mut Canvas,
)
    requires
        shader.wf(),
        forall|k: int|
            0 <= k < 3 ==> (#[trigger] vs@[k]).0.wf() && bag_bounded(vs@[k].1@) && shader.fits(
                vs@[k].1@,
            ),
        frame_wf(canvas_width(*old(img)) as int, old(z_buffer)@, canvas_rows(*old(img))),
    ensures
        canvas_width(*final(img)) == canvas_width(*old(img)),
        (final(z_buffer)@, canvas_rows(*final(img))) == triangle_pass(
            shader,
            corner_of(vs, 0),
            corner_of(vs, 1),
            corner_of(vs, 2),
            canvas_width(*old(img)) as int,
            old(z_buffer)@,
            canvas_rows(*old(img)),
        ),
{
    let (w, h) = img.dimensions();
    let v0 = vs[0].0;
    let v1 = vs[1].0;
    let v2 = vs[2].0;
    let ws = (v0.w, v1.w, v2.w);
    let zs = (v0.z, v1.z, v2.z);
    let (x0, x1) = span(min3_exec(v0.x, v1.x, v2.x), max3_exec(v0.x, v1.x, v2.x), w);
    let (y0, y1) = span(min3_exec(v0.y, v1.y, v2.y), max3_exec(v0.y, v1.y, v2.y), h);
    let ghost c0 = corner_of(vs, 0);
    let ghost c1 = corner_of(vs, 1);
    let ghost c2 = corner_of(vs, 2);
    let ghost wi = w as int;
    let ghost hi = h as int;
    let ghost z_old = z_buffer@;
    let ghost rows_old = canvas_rows(*img);
    assert(vs@[0].0.wf() && vs@[1].0.wf() && vs@[2].0.wf());
    let mut x: u32 = x0;
    while x < x1
        invariant
            x0 <= x,
            x1 <= w,
            y1 <= h,
            shader.wf(),
            c0 == corner_of(vs, 0) && c1 == corner_of(vs, 1) && c2 == corner_of(vs, 2),
            v0 == c0.0 && v1 == c1.0 && v2 == c2.0,
            v0.wf() && v1.wf() && v2.wf(),
            ws == (v0.w, v1.w, v2.w),
            zs == (v0.z, v1.z, v2.z),
            forall|k: int|
                0 <= k < 3 ==> (#[trigger] vs@[k]).0.wf() && bag_bounded(vs@[k].1@)
                    && shader.fits(vs@[k].1@),
            x0 == span_start(min3(v0.x as int, v1.x as int, v2.x as int), wi),
            x1 == span_end(max3(v0.x as int, v1.x as int, v2.x as int), wi),
            y0 == span_start(min3(v0.y as int, v1.y as int, v2.y as int), hi),
            y1 == span_end(max3(v0.y as int, v1.y as int, v2.y as int), hi),
            wi == w && hi == h,
            canvas_width(*img) == w,
            frame_wf(wi, z_old, rows_old),
            frame_wf(wi, z_buffer@, canvas_rows(*img)),
            canvas_rows(*img).len() == hi,
            z_old.len() == z_buffer@.len(),
            forall|px: int, py: int|
                0 <= px < wi && 0 <= py < hi ==> #[trigger] z_buffer@[pix(wi, px, py)] == if px
                    < x {
                    depth_after(shader, c0, c1, c2, wi, hi, z_old[pix(wi, px, py)], px, py)
                } else {
                    z_old[pix(wi, px, py)]
                },
            forall|px: int, r: int|
                0 <= px < wi && 0 <= r < hi ==> #[trigger] canvas_rows(*img)[r][px] == if px < x {
                    color_after(
                        shader,
                        c0,
                        c1,
                        c2,
                        wi,
                        hi,
                        z_old[pix(wi, px, hi - 1 - r)],
                        rows_old[r][px],
                        px,
                        hi - 1 - r,
                    )
                } else {
                    rows_old[r][px]
                },
        decreases x1 - x,
    {
        let mut y: u32 = y0;
        while y < y1
            invariant
                x0 <= x < x1,
                y0 <= y,
                x1 <= w,
                y1 <= h,
                shader.wf(),
                c0 == corner_of(vs, 0) && c1 == corner_of(vs, 1) && c2 == corner_of(vs, 2),
                v0 == c0.0 && v1 == c1.0 && v2 == c2.0,
                v0.wf() && v1.wf() && v2.wf(),
                ws == (v0.w, v1.w, v2.w),
                zs == (v0.z, v1.z, v2.z),
                forall|k: int|
                    0 <= k < 3 ==> (#[trigger] vs@[k]).0.wf() && bag_bounded(vs@[k].1@)
                        && shader.fits(vs@[k].1@),
                x0 == span_start(min3(v0.x as int, v1.x as int, v2.x as int), wi),
                x1 == span_end(max3(v0.x as int, v1.x as int, v2.x as int), wi),
                y0 == span_start(min3(v0.y as int, v1.y as int, v2.y as int), hi),
                y1 == span_end(max3(v0.y as int, v1.y as int, v2.y as int), hi),
                wi == w && hi == h,
                canvas_width(*img) == w,
                frame_wf(wi, z_old, rows_old),
                frame_wf(wi, z_buffer@, canvas_rows(*img)),
                canvas_rows(*img).len() == hi,
                z_old.len() == z_buffer@.len(),
                forall|px: int, py: int|
                    0 <= px < wi && 0 <= py < hi ==> #[trigger] z_buffer@[pix(wi, px, py)] == if px
                        < x || (px == x && py < y) {
                        depth_after(shader, c0, c1, c2, wi, hi, z_old[pix(wi, px, py)], px, py)
                    } else {
                        z_old[pix(wi, px, py)]
                    },
                forall|px: int, r: int|
                    0 <= px < wi && 0 <= r < hi ==> #[trigger] canvas_rows(*img)[r][px] == if px
                        < x || (px == x && hi - 1 - r < y) {
                        color_after(
                            shader,
                            c0,
                            c1,
                            c2,
                            wi,
                            hi,
                            z_old[pix(wi, px, hi - 1 - r)],
                            rows_old[r][px],
                            px,
                            hi - 1 - r,
                        )
                    } else {
                        rows_old[r][px]
                    },
            decreases y1 - y,
        {
            let zlen = z_buffer.len();
            proof {
                lemma_pixel_index(wi, hi, x as int, y as int);
                assert(y as int * w as int <= zlen) by (nonlinear_arith)
                    requires
                        y < hi,
                        zlen == wi * hi,
                        wi == w,
                ;
            }
            let idx: usize = x as usize + y as usize * w as usize;
            let sx: i64 = x as i64 * SUBPIXEL + SUBPIXEL / 2;
            let sy: i64 = y as i64 * SUBPIXEL + SUBPIXEL / 2;
            let ghost before_z = z_buffer@;
            let ghost before_rows = canvas_rows(*img);
            let mut hit: Option<(i64, Color)> = None;
            if let Some(b) = barycentric(v0, v1, v2, sx, sy) {
                if b.0 >= 0 && b.1 >= 0 && b.2 >= 0 {
                    if let Some(z) = perspective_interpolate(b, ws, zs) {
                        if -(ONE as i128) <= z && z <= ONE as i128 {
                            let (c, drop) = shader.fragment(
                                b,
                                ws,
                                (&vs[0].1, &vs[1].1, &vs[2].1),
                            );
                            if !drop {
                                hit = Some((z as i64, c));
                            }
                        }
                    }
                }
            }
            proof {
                assert(in_box(c0, c1, c2, wi, hi, x as int, y as int));
                assert(hit matches Some(p) ==> fragment_at(shader, c0, c1, c2, x as int, y as int)
                    == Some((p.0 as int, p.1)));
                assert(hit is None ==> fragment_at(shader, c0, c1, c2, x as int, y as int) is None);
            }
            if let Some((z, c)) = hit {
                if z_buffer[idx] < z {
                    z_buffer.set(idx, z);
                    img.put_pixel(x, h - 1 - y, c);
                }
            }
            proof {
                assert forall|px: int, py: int| 0 <= px < wi && 0 <= py < hi implies #[trigger] z_buffer@[pix(wi, px, py)] == if px
                        < x || (px == x && py < y + 1) {
                        depth_after(shader, c0, c1, c2, wi, hi, z_old[pix(wi, px, py)], px, py)
                    } else {
                        z_old[pix(wi, px, py)]
                    } by {
                    lemma_pixel_index(wi, hi, px, py);
                    if px != x || py != y {
                        assert(before_z[pix(wi, px, py)] == z_buffer@[pix(wi, px, py)]);
                    }
                }
                assert forall|px: int, r: int| 0 <= px < wi && 0 <= r < hi implies #[trigger] canvas_rows(*img)[r][px] == if px
                        < x || (px == x && hi - 1 - r < y + 1) {
                        color_after(
                            shader,
                            c0,
                            c1,
                            c2,
                            wi,
                            hi,
                            z_old[pix(wi, px, hi - 1 - r)],
                            rows_old[r][px],
                            px,
                            hi - 1 - r,
                        )
                    } else {
                        rows_old[r][px]
                    } by {
                    if px != x || r != hi - 1 - y {
                        assert(before_rows[r][px] == canvas_rows(*img)[r][px]);
                    }
                    assert(before_z[pix(wi, x as int, y as int)] == z_old[pix(wi, x as int, y as int)]);
                }
            }
            y += 1;
        }
        x += 1;
    }
    proof {
        let tp = triangle_pass(shader, c0, c1, c2, wi, z_old, rows_old);
        assert forall|i: int| 0 <= i < z_old.len() implies z_buffer@[i] == tp.0[i] by {
            lemma_index_pixel(wi, hi, i);
            assert(i == pix(wi, i % wi, i / wi));
        }
        assert(z_buffer@ =~= tp.0);
        assert forall|r: int| 0 <= r < hi implies canvas_rows(*img)[r] =~= tp.1[r] by {
            assert forall|px: int| 0 <= px < wi implies canvas_rows(*img)[r][px] == tp.1[r][px] by {
            }
        }
        assert(canvas_rows(*img) =~= tp.1);
    }
}

/// The depth buffer and image rows after the first `n` triangles of the
/// shader's mesh are drawn, in order, over `depth` and `rows`.
pub open spec fn render_spec<S: Shader>(
    s: &S,
    n: nat,
    width: int,
    depth: Seq<i64>,
    rows: Seq<Seq<Color>>,
) -> (Seq<i64>, Seq<Seq<Color>>)
    decreases n,
{
    if n == 0 {
        (depth, rows)
    } else {
        let prev = render_spec(s, (n - 1) as nat, width, depth, rows);
        let t = n - 1;
        triangle_pass(s, s.corner(t, 0), s.corner(t, 1), s.corner(t, 2), width, prev.0, prev.1)
    }
}

/// Drawing a triangle keeps a depth buffer fitted to its image.
pub proof fn lemma_pass_keeps_frame<S: Shader>(
    s: &S,
    c0: Corner,
    c1: Corner,
    c2: Corner,
    width: int,
    depth: Seq<i64>,
    rows: Seq<Seq<Color>>,
)
    requires
        frame_wf(width, depth, rows),
    ensures
        frame_wf(
            width,
            triangle_pass(s, c0, c1, c2, width, depth, rows).0,
            triangle_pass(s, c0, c1, c2, width, depth, rows).1,
        ),
{
    let tp = triangle_pass(s, c0, c1, c2, width, depth, rows);
    assert forall|r: int| 0 <= r < tp.1.len() implies (#[trigger] tp.1[r]).len() == width by {
        assert(rows[r].len() == width);
    }
}

/// Draws the first `len` triangles of the shader's mesh in order: for each,
/// runs the vertex stage on its three corners and rasterizes the result.
pub fn rasterize<S: Shader>(len: usize, shader: &S, z_buf: &mut Vec<i64>, img: &mut Canvas)
    requires
        shader.wf(),
        len <= shader.triangle_count(),
        len <= u32::MAX,
        frame_wf(canvas_width(*old(img)) as int, old(z_buf)@, canvas_rows(*old(img))),
    ensures
        canvas_width(*final(img)) == canvas_width(*old(img)),
        (final(z_buf)@, canvas_rows(*final(img))) == render_spec(
            shader,
            len as nat,
            canvas_width(*old(img)) as int,
            old(z_buf)@,
            canvas_rows(*old(img)),
        ),
{
    let ghost width = canvas_width(*img) as int;
    let ghost z0 = z_buf@;
    let ghost rows0 = canvas_rows(*img);
    let mut i: usize = 0;
    while i < len
        invariant
            i <= len,
            len <= shader.triangle_count(),
            len <= u32::MAX,
            shader.wf(),
            canvas_width(*img) == width,
            frame_wf(width, z_buf@, canvas_rows(*img)),
            (z_buf@, canvas_rows(*img)) == render_spec(shader, i as nat, width, z0, rows0),
        decreases len - i,
    {
        let v0 = shader.vertex(i as u32, 0);
        let v1 = shader.vertex(i as u32, 1);
        let v2 = shader.vertex(i as u32, 2);
        let t = [v0, v1, v2];
        proof {
            assert(corner_of(t, 0) == shader.corner(i as int, 0));
            assert(corner_of(t, 1) == shader.corner(i as int, 1));
            assert(corner_of(t, 2) == shader.corner(i as int, 2));
            lemma_pass_keeps_frame(
                shader,
                corner_of(t, 0),
                corner_of(t, 1),
                corner_of(t, 2),
                width,
                z_buf@,
                canvas_rows(*img),
            );
        }
        rasterize_triangle(t, shader, z_buf, img);
        i += 1;
    }
}

/// Cramer's rule for the edge weights: with the vertices and the point
/// taken relative to the third vertex (`(a, b)`, `(c, e)` and `(x, y)`),
/// the weights `c0`, `c1` combine the first two into the point times the
/// doubled area `d`.
proof fn lemma_weights_combine(a: int, b: int, c: int, e: int, x: int, y: int)
    ensures
        (e * x - c * y) * a + (a * y - b * x) * c == x * (e * a - c * b),
        (e * x - c * y) * b + (a * y - b * x) * e == y * (e * a - c * b),
{
    assert((e * x - c * y) * a == e * x * a - c * y * a) by (nonlinear_arith);
    assert((a * y - b * x) * c == a * y * c - b * x * c) by (nonlinear_arith);
    assert(x * (e * a - c * b) == x * e * a - x * c * b) by (nonlinear_arith);
    assert(e * x * a == x * e * a && c * y * a == a * y * c && b * x * c == x * c * b)
        by (nonlinear_arith);
    assert((e * x - c * y) * b == e * x * b - c * y * b) by (nonlinear_arith);
    assert((a * y - b * x) * e == a * y * e - b * x * e) by (nonlinear_arith);
    assert(y * (e * a - c * b) == y * e * a - y * c * b) by (nonlinear_arith);
    assert(e * x * b == b * x * e && c * y * b == y * c * b && a * y * e == y * e * a)
        by (nonlinear_arith);
}

/// `p0 * v0 + p1 * v1 + (d - p0 - p1) * v2` is `p0 * (v0 - v2) + p1 * (v1 - v2) + d * v2`.
proof fn lemma_shift_combination(p0: int, p1: int, d: int, v0: int, v1: int, v2: int)
    ensures
        p0 * v0 + p1 * v1 + (d - p0 - p1) * v2 == p0 * (v0 - v2) + p1 * (v1 - v2) + d * v2,
{
    assert(p0 * (v0 - v2) == p0 * v0 - p0 * v2) by (nonlinear_arith);
    assert(p1 * (v1 - v2) == p1 * v1 - p1 * v2) by (nonlinear_arith);
    assert((d - p0 - p1) * v2 == d * v2 - p0 * v2 - p1 * v2) by (nonlinear_arith);
}

/// The barycentric weights reproduce the sample point: the weighted sum of
/// the vertices is the point times the sum of the weights, and that sum is
/// the triangle's absolute doubled area.
pub proof fn lemma_barycentric_combination(
    v0: ScreenVertex,
    v1: ScreenVertex,
    v2: ScreenVertex,
    sx: int,
    sy: int,
)
    requires
        barycentric_spec(v0, v1, v2, sx, sy) is Some,
    ensures
        ({
            let b = barycentric_spec(v0, v1, v2, sx, sy)->Some_0;
            let d = area2(v0, v1, v2);
            &&& b.0 + b.1 + b.2 == if d > 0 {
                d
            } else {
                -d
            }
            &&& b.0 * v0.x + b.1 * v1.x + b.2 * v2.x == sx * (b.0 + b.1 + b.2)
            &&& b.0 * v0.y + b.1 * v1.y + b.2 * v2.y == sy * (b.0 + b.1 + b.2)
        }),
{
    let (x0, y0, x1, y1, x2, y2) = (
        v0.x as int,
        v0.y as int,
        v1.x as int,
        v1.y as int,
        v2.x as int,
        v2.y as int,
    );
    let d = area2(v0, v1, v2);
    let c0 = weight0(v1, v2, sx, sy);
    let c1 = weight1(v0, v2, sx, sy);
    let (a, b, c, e, x, y) = (x0 - x2, y0 - y2, x1 - x2, y1 - y2, sx - x2, sy - y2);
    assert((x2 - x1) * (y0 - y2) == -(c * b)) by (nonlinear_arith)
        requires
            c == x1 - x2,
            b == y0 - y2,
    ;
    assert((x2 - x1) * (sy - y2) == -(c * y)) by (nonlinear_arith)
        requires
            c == x1 - x2,
            y == sy - y2,
    ;
    assert((y2 - y0) * (sx - x2) == -(b * x)) by (nonlinear_arith)
        requires
            b == y0 - y2,
            x == sx - x2,
    ;
    assert(d == e * a - c * b);
    assert(c0 == e * x - c * y);
    assert(c1 == a * y - b * x);
    lemma_weights_combine(a, b, c, e, x, y);
    lemma_shift_combination(c0, c1, d, x0, x1, x2);
    lemma_shift_combination(c0, c1, d, y0, y1, y2);
    assert(x * d + d * x2 == sx * d) by (nonlinear_arith)
        requires
            x == sx - x2,
    ;
    assert(y * d + d * y2 == sy * d) by (nonlinear_arith)
        requires
            y == sy - y2,
    ;
    assert(c0 * x0 + c1 * x1 + (d - c0 - c1) * x2 == sx * d);
    assert(c0 * y0 + c1 * y1 + (d - c0 - c1) * y2 == sy * d);
    assert((-c0) * x0 + (-c1) * x1 + (-(d - c0 - c1)) * x2 == sx * (-d)) by (nonlinear_arith)
        requires
            c0 * x0 + c1 * x1 + (d - c0 - c1) * x2 == sx * d,
    ;
    assert((-c0) * y0 + (-c1) * y1 + (-(d - c0 - c1)) * y2 == sy * (-d)) by (nonlinear_arith)
        requires
            c0 * y0 + c1 * y1 + (d - c0 - c1) * y2 == sy * d,
    ;
}

/// A point that non-negative weights with a positive sum combine from three
/// values lies between the smallest and the largest of them.
pub proof fn lemma_combination_between(b: (int, int, int), a0: int, a1: int, a2: int, p: int)
    requires
        covers(b),
        b.0 + b.1 + b.2 > 0,
        b.0 * a0 + b.1 * a1 + b.2 * a2 == p * (b.0 + b.1 + b.2),
    ensures
        min3(a0, a1, a2) <= p <= max3(a0, a1, a2),
{
    let lo = min3(a0, a1, a2);
    let hi = max3(a0, a1, a2);
    assert(lo * (b.0 + b.1 + b.2) <= p * (b.0 + b.1 + b.2)) by (nonlinear_arith)
        requires
            b.0 >= 0,
            b.1 >= 0,
            b.2 >= 0,
            lo <= a0,
            lo <= a1,
            lo <= a2,
            b.0 * a0 + b.1 * a1 + b.2 * a2 == p * (b.0 + b.1 + b.2),
    ;
    assert(p * (b.0 + b.1 + b.2) <= hi * (b.0 + b.1 + b.2)) by (nonlinear_arith)
        requires
            b.0 >= 0,
            b.1 >= 0,
            b.2 >= 0,
            a0 <= hi,
            a1 <= hi,
            a2 <= hi,
            b.0 * a0 + b.1 * a1 + b.2 * a2 == p * (b.0 + b.1 + b.2),
    ;
    assert(lo <= p <= hi) by (nonlinear_arith)
        requires
            lo * (b.0 + b.1 + b.2) <= p * (b.0 + b.1 + b.2),
            p * (b.0 + b.1 + b.2) <= hi * (b.0 + b.1 + b.2),
            b.0 + b.1 + b.2 > 0,
    ;
}

/// A pixel of the image whose center lies between `lo` and `hi` lies in the
/// bounding span of `[lo, hi]`.
pub proof fn lemma_center_in_span(lo: int, hi: int, size: int, p: int)
    requires
        0 <= p < size,
        lo <= center(p) <= hi,
    ensures
        span_start(lo, size) <= p < span_end(hi, size),
{
    let k = SUBPIXEL as int;
    lemma_fundamental_div_mod(lo, k);
    lemma_fundamental_div_mod(-hi, k);
    assert(lo / k <= p) by (nonlinear_arith)
        requires
            lo == k * (lo / k) + lo % k,
            0 <= lo % k,
            lo <= p * k + 8,
            k == 16,
    ;
    assert(-((-hi) / k) > p) by (nonlinear_arith)
        requires
            -hi == k * ((-hi) / k) + (-hi) % k,
            (-hi) % k < k,
            p * k + 8 <= hi,
            k == 16,
    ;
}

/// A pixel of the image whose center the triangle covers lies in the
/// triangle's clipped bounding box.
pub proof fn lemma_covered_in_box(c0: Corner, c1: Corner, c2: Corner, width: int, height: int, px: int, py: int)
    requires
        0 <= px < width,
        0 <= py < height,
        barycentric_spec(c0.0, c1.0, c2.0, center(px), center(py)) matches Some(b) && covers(b),
    ensures
        in_box(c0, c1, c2, width, height, px, py),
{
    let (v0, v1, v2) = (c0.0, c1.0, c2.0);
    let b = barycentric_spec(v0, v1, v2, center(px), center(py))->Some_0;
    lemma_barycentric_combination(v0, v1, v2, center(px), center(py));
    lemma_combination_between(b, v0.x as int, v1.x as int, v2.x as int, center(px));
    lemma_combination_between(b, v0.y as int, v1.y as int, v2.y as int, center(py));
    lemma_center_in_span(
        min3(v0.x as int, v1.x as int, v2.x as int),
        max3(v0.x as int, v1.x as int, v2.x as int),
        width,
        px,
    );
    lemma_center_in_span(
        min3(v0.y as int, v1.y as int, v2.y as int),
        max3(v0.y as int, v1.y as int, v2.y as int),
        height,
        py,
    );
}

/// Where every vertex has the same depth `z` and the perspective
/// reciprocals share a sign, the interpolated depth at a covered point is
/// exactly `z`.
pub proof fn lemma_flat_depth(b: (int, int, int), ws: (int, int, int), z: int)
    requires
        covers(b),
        b.0 + b.1 + b.2 > 0,
        (ws.0 > 0 && ws.1 > 0 && ws.2 > 0) || (ws.0 < 0 && ws.1 < 0 && ws.2 < 0),
    ensures
        interpolate_spec(b, ws, (z, z, z)) == Some(z),
{
    let den = b.0 * ws.0 + b.1 * ws.1 + b.2 * ws.2;
    if ws.0 > 0 {
        assert(den > 0) by (nonlinear_arith)
            requires
                den == b.0 * ws.0 + b.1 * ws.1 + b.2 * ws.2,
                b.0 >= 0 && b.1 >= 0 && b.2 >= 0,
                b.0 + b.1 + b.2 > 0,
                ws.0 > 0 && ws.1 > 0 && ws.2 > 0,
        ;
    } else {
        assert(den < 0) by (nonlinear_arith)
            requires
                den == b.0 * ws.0 + b.1 * ws.1 + b.2 * ws.2,
                b.0 >= 0 && b.1 >= 0 && b.2 >= 0,
                b.0 + b.1 + b.2 > 0,
                ws.0 < 0 && ws.1 < 0 && ws.2 < 0,
        ;
    }
    lemma_interpolate_constant(b, ws, z);
}

/// A triangle whose vertices share one depth in `[-ONE, ONE]` and whose
/// perspective reciprocals share a sign, drawn over a pixel of the image
/// where nothing was drawn yet, paints that pixel exactly when the pixel's
/// center lies in the triangle, edges included, and the shader does not
/// discard the sample; the pixel then takes the shader's color.
pub proof fn lemma_coverage_exact<S: Shader>(
    s: &S,
    c0: Corner,
    c1: Corner,
    c2: Corner,
    width: int,
    depth: Seq<i64>,
    rows: Seq<Seq<Color>>,
    px: int,
    py: int,
)
    requires
        frame_wf(width, depth, rows),
        0 <= px < width,
        0 <= py < rows.len(),
        depth[pix(width, px, py)] == DEPTH_EMPTY,
        c0.0.z == c1.0.z && c1.0.z == c2.0.z,
        -ONE <= c0.0.z <= ONE,
        (c0.0.w > 0 && c1.0.w > 0 && c2.0.w > 0) || (c0.0.w < 0 && c1.0.w < 0 && c2.0.w < 0),
    ensures
        ({
            let p = triangle_pass(s, c0, c1, c2, width, depth, rows);
            let h = rows.len() as int;
            let ws = (c0.0.w as int, c1.0.w as int, c2.0.w as int);
            let painted = painted_by(s, c0, c1, c2, px, py);
            &&& (p.0[pix(width, px, py)] != DEPTH_EMPTY <==> painted)
            &&& painted ==> p.0[pix(width, px, py)] == c0.0.z && p.1[h - 1 - py][px]
                == sample_color(s, c0, c1, c2, px, py)
            &&& !painted ==> p.1[h - 1 - py][px] == rows[h - 1 - py][px]
        }),
{
    let h = rows.len() as int;
    lemma_pixel_index(width, h, px, py);
    let i = pix(width, px, py);
    assert(i % width == px && i / width == py);
    let (v0, v1, v2) = (c0.0, c1.0, c2.0);
    let ws = (v0.w as int, v1.w as int, v2.w as int);
    match barycentric_spec(v0, v1, v2, center(px), center(py)) {
        Some(b) => {
            if covers(b) {
                lemma_covered_in_box(c0, c1, c2, width, h, px, py);
                lemma_barycentric_combination(v0, v1, v2, center(px), center(py));
                lemma_flat_depth(b, ws, v0.z as int);
            }
        },
        None => {},
    }
    assert(rows[h - 1 - py].len() == width);
}

/// Of two triangles that both offer a sample at a pixel, the nearer one
/// (greater depth) ends up in the depth buffer and the image whichever is
/// drawn first, provided the pixel held something farther before.
pub proof fn lemma_nearer_wins<S: Shader>(
    s: &S,
    a0: Corner,
    a1: Corner,
    a2: Corner,
    b0: Corner,
    b1: Corner,
    b2: Corner,
    width: int,
    depth: Seq<i64>,
    rows: Seq<Seq<Color>>,
    px: int,
    py: int,
)
    requires
        frame_wf(width, depth, rows),
        0 <= px < width,
        0 <= py < rows.len(),
        in_box(a0, a1, a2, width, rows.len() as int, px, py),
        in_box(b0, b1, b2, width, rows.len() as int, px, py),
        fragment_at(s, a0, a1, a2, px, py) is Some,
        fragment_at(s, b0, b1, b2, px, py) is Some,
        fragment_at(s, b0, b1, b2, px, py)->Some_0.0 < fragment_at(s, a0, a1, a2, px, py)->Some_0.0,
        depth[pix(width, px, py)] < fragment_at(s, a0, a1, a2, px, py)->Some_0.0,
    ensures
        ({
            let h = rows.len() as int;
            let fa = fragment_at(s, a0, a1, a2, px, py)->Some_0;
            let pa = triangle_pass(s, a0, a1, a2, width, depth, rows);
            let pab = triangle_pass(s, b0, b1, b2, width, pa.0, pa.1);
            let pb = triangle_pass(s, b0, b1, b2, width, depth, rows);
            let pba = triangle_pass(s, a0, a1, a2, width, pb.0, pb.1);
            &&& pab.0[pix(width, px, py)] == fa.0 && pab.1[h - 1 - py][px] == fa.1
            &&& pba.0[pix(width, px, py)] == fa.0 && pba.1[h - 1 - py][px] == fa.1
        }),
{
    let h = rows.len() as int;
    lemma_pixel_index(width, h, px, py);
    let i = pix(width, px, py);
    assert(i % width == px && i / width == py);
    assert(h - 1 - (h - 1 - py) == py);
    lemma_pass_keeps_frame(s, a0, a1, a2, width, depth, rows);
    lemma_pass_keeps_frame(s, b0, b1, b2, width, depth, rows);
    assert(rows[h - 1 - py].len() == width);
}

/// Of two triangles that offer samples of equal depth at a pixel (two
/// coplanar triangles sharing an edge), the one drawn first keeps the
/// pixel: a tie does not overwrite.
pub proof fn lemma_tie_keeps_first<S: Shader>(
    s: &S,
    a0: Corner,
    a1: Corner,
    a2: Corner,
    b0: Corner,
    b1: Corner,
    b2: Corner,
    width: int,
    depth: Seq<i64>,
    rows: Seq<Seq<Color>>,
    px: int,
    py: int,
)
    requires
        frame_wf(width, depth, rows),
        0 <= px < width,
        0 <= py < rows.len(),
        in_box(a0, a1, a2, width, rows.len() as int, px, py),
        fragment_at(s, a0, a1, a2, px, py) is Some,
        fragment_at(s, b0, b1, b2, px, py) is Some,
        fragment_at(s, b0, b1, b2, px, py)->Some_0.0 == fragment_at(s, a0, a1, a2, px, py)->Some_0.0,
        depth[pix(width, px, py)] < fragment_at(s, a0, a1, a2, px, py)->Some_0.0,
    ensures
        ({
            let h = rows.len() as int;
            let fa = fragment_at(s, a0, a1, a2, px, py)->Some_0;
            let pa = triangle_pass(s, a0, a1, a2, width, depth, rows);
            let pab = triangle_pass(s, b0, b1, b2, width, pa.0, pa.1);
            pab.0[pix(width, px, py)] == fa.0 && pab.1[h - 1 - py][px] == fa.1
        }),
{
    let h = rows.len() as int;
    lemma_pixel_index(width, h, px, py);
    let i = pix(width, px, py);
    assert(i % width == px && i / width == py);
    assert(h - 1 - (h - 1 - py) == py);
    lemma_pass_keeps_frame(s, a0, a1, a2, width, depth, rows);
    assert(rows[h - 1 - py].len() == width);
}

/// Rendering is deterministic: drawing the same triangles with the same
/// shader into two equal sets of fresh buffers gives equal depth buffers
/// and identical images.
pub proof fn lemma_render_deterministic<S: Shader>(
    s: &S,
    n: nat,
    width: int,
    depth1: Seq<i64>,
    rows1: Seq<Seq<Color>>,
    depth2: Seq<i64>,
    rows2: Seq<Seq<Color>>,
)
    requires
        depth1 == depth2,
        rows1 == rows2,
    ensures
        render_spec(s, n, width, depth1, rows1) == render_spec(s, n, width, depth2, rows2),
{
}

/// The triangle paints pixel `(px, py)` over an empty depth entry: the
/// pixel's center lies in it, edges included, and the shader keeps the
/// sample.
pub open spec fn painted_by<S: Shader>(s: &S, c0: Corner, c1: Corner, c2: Corner, px: int, py: int) -> bool {
    let ws = (c0.0.w as int, c1.0.w as int, c2.0.w as int);
    match barycentric_spec(c0.0, c1.0, c2.0, center(px), center(py)) {
        Some(b) => covers(b) && !s.shade(b, ws, c0.1, c1.1, c2.1).1,
        None => false,
    }
}

/// The color the shader gives the triangle's sample at `(px, py)`.
pub open spec fn sample_color<S: Shader>(s: &S, c0: Corner, c1: Corner, c2: Corner, px: int, py: int) -> Color {
    let ws = (c0.0.w as int, c1.0.w as int, c2.0.w as int);
    s.shade(
        barycentric_spec(c0.0, c1.0, c2.0, center(px), center(py))->Some_0,
        ws,
        c0.1,
        c1.1,
        c2.1,
    ).0
}

/// The vertices share one depth and their perspective reciprocals a sign.
pub open spec fn flat(c0: Corner, c1: Corner, c2: Corner, d: int) -> bool {
    &&& c0.0.z == d && c1.0.z == d && c2.0.z == d
    &&& (c0.0.w > 0 && c1.0.w > 0 && c2.0.w > 0) || (c0.0.w < 0 && c1.0.w < 0 && c2.0.w < 0)
}

/// Wherever a flat triangle offers a sample, its depth is the shared one.
proof fn lemma_flat_fragment<S: Shader>(s: &S, c0: Corner, c1: Corner, c2: Corner, d: int, px: int, py: int)
    requires
        flat(c0, c1, c2, d),
    ensures
        fragment_at(s, c0, c1, c2, px, py) matches Some(f) ==> f.0 == d,
{
    let ws = (c0.0.w as int, c1.0.w as int, c2.0.w as int);
    match barycentric_spec(c0.0, c1.0, c2.0, center(px), center(py)) {
        Some(b) => {
            if covers(b) {
                lemma_barycentric_combination(c0.0, c1.0, c2.0, center(px), center(py));
                lemma_flat_depth(b, ws, d);
            }
        },
        None => {},
    }
}

/// Two coplanar triangles (one shared depth in `[-ONE, ONE]`, as two
/// triangles sharing an edge of a flat face have) drawn in turn over a pixel
/// of the image where nothing was drawn: a pixel the first paints keeps the
/// first's color, one only the second paints takes the second's, and one
/// neither paints is unchanged. So the union of the two is painted with no
/// gap, and a pixel on the shared edge is painted once net, by the first.
pub proof fn lemma_coplanar_pair<S: Shader>(
    s: &S,
    a0: Corner,
    a1: Corner,
    a2: Corner,
    b0: Corner,
    b1: Corner,
    b2: Corner,
    d: int,
    width: int,
    depth: Seq<i64>,
    rows: Seq<Seq<Color>>,
    px: int,
    py: int,
)
    requires
        frame_wf(width, depth, rows),
        0 <= px < width,
        0 <= py < rows.len(),
        depth[pix(width, px, py)] == DEPTH_EMPTY,
        -ONE <= d <= ONE,
        flat(a0, a1, a2, d),
        flat(b0, b1, b2, d),
    ensures
        ({
            let h = rows.len() as int;
            let i = pix(width, px, py);
            let pa = triangle_pass(s, a0, a1, a2, width, depth, rows);
            let pb = triangle_pass(s, b0, b1, b2, width, pa.0, pa.1);
            let ina = painted_by(s, a0, a1, a2, px, py);
            let inb = painted_by(s, b0, b1, b2, px, py);
            &&& ina ==> pb.0[i] == d && pb.1[h - 1 - py][px] == sample_color(s, a0, a1, a2, px, py)
            &&& (!ina && inb) ==> pb.0[i] == d && pb.1[h - 1 - py][px] == sample_color(
                s,
                b0,
                b1,
                b2,
                px,
                py,
            )
            &&& (!ina && !inb) ==> pb.0[i] == DEPTH_EMPTY && pb.1[h - 1 - py][px] == rows[h - 1
                - py][px]
        }),
{
    let h = rows.len() as int;
    let i = pix(width, px, py);
    lemma_pixel_index(width, h, px, py);
    assert(i % width == px && i / width == py);
    assert(h - 1 - (h - 1 - py) == py);
    lemma_coverage_exact(s, a0, a1, a2, width, depth, rows, px, py);
    lemma_pass_keeps_frame(s, a0, a1, a2, width, depth, rows);
    let pa = triangle_pass(s, a0, a1, a2, width, depth, rows);
    assert(rows[h - 1 - py].len() == width);
    assert(pa.1[h - 1 - py].len() == width);
    if painted_by(s, a0, a1, a2, px, py) {
        lemma_flat_fragment(s, b0, b1, b2, d, px, py);
        assert(!wins(s, b0, b1, b2, width, h, pa.0[i], px, py));
    } else {
        lemma_coverage_exact(s, b0, b1, b2, width, pa.0, pa.1, px, py);
    }
}

} // verus!
