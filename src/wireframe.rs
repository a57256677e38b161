use vstd::prelude::*;
use crate::canvas::{canvas_rows, canvas_wf, canvas_width, Canvas, Color};

verus! {

/// The endpoints of a line flipped into image coordinates
/// (`width - x`, `height - y`), with the axes exchanged where the line is
/// steeper than diagonal and the endpoints ordered along the main axis:
/// `(a0, b0, a1, b1, steep)` with `a0 <= a1`.
pub open spec fn line_setup(width: int, height: int, x0: int, y0: int, x1: int, y1: int) -> (
    int,
    int,
    int,
    int,
    bool,
) {
    let (a0, b0, a1, b1) = (width - x0, height - y0, width - x1, height - y1);
    let da = if a0 >= a1 {
        a0 - a1
    } else {
        a1 - a0
    };
    let db = if b0 >= b1 {
        b0 - b1
    } else {
        b1 - b0
    };
    let steep = da < db;
    let (a0, b0, a1, b1) = if steep {
        (b0, a0, b1, a1)
    } else {
        (a0, b0, a1, b1)
    };
    if a0 > a1 {
        (a1, b1, a0, b0, steep)
    } else {
        (a0, b0, a1, b1, steep)
    }
}

/// The pixel `(column, row)` the line puts at step `a` of its main axis:
/// the minor coordinate is interpolated linearly and rounded down.
pub open spec fn line_pixel(s: (int, int, int, int, bool), a: int) -> (int, int) {
    let b = (s.1 * (s.2 - a) + s.3 * (a - s.0)) / (s.2 - s.0);
    if s.4 {
        (b, a)
    } else {
        (a, b)
    }
}

/// Some step before `end` puts the line on pixel `(col, row)`.
pub open spec fn line_hits(s: (int, int, int, int, bool), end: int, col: int, row: int) -> bool {
    exists|a: int| s.0 <= a < end && #[trigger] line_pixel(s, a) == (col, row)
}

/// The rows after a line from `(x0, y0)` to `(x1, y1)` is drawn in `color`:
/// the pixels of its steps from `a0` up to, not including, `a1`, where they
/// lie in the image.
pub open spec fn line_drawn(
    width: int,
    x0: int,
    y0: int,
    x1: int,
    y1: int,
    color: Color,
    rows: Seq<Seq<Color>>,
) -> Seq<Seq<Color>> {
    let s = line_setup(width, rows.len() as int, x0, y0, x1, y1);
    Seq::new(
        rows.len(),
        |r: int|
            Seq::new(
                rows[r].len(),
                |c: int|
                    if line_hits(s, s.2, c, r) {
                        color
                    } else {
                        rows[r][c]
                    },
            ),
    )
}

/// Draws a line between two points given from the bottom right corner of
/// the image (see `line_drawn`).
pub fn draw_line(x0: u32, y0: u32, x1: u32, y1: u32, img: &mut Canvas, color: Color)
    requires
        canvas_wf(*old(img)),
        x0 <= canvas_width(*old(img)),
        x1 <= canvas_width(*old(img)),
        y0 <= canvas_rows(*old(img)).len(),
        y1 <= canvas_rows(*old(img)).len(),
    ensures
        canvas_width(*final(img)) == canvas_width(*old(img)),
        canvas_rows(*final(img)) == line_drawn(
            canvas_width(*old(img)) as int,
            x0 as int,
            y0 as int,
            x1 as int,
            y1 as int,
            color,
            canvas_rows(*old(img)),
        ),
{
    let (width, height) = img.dimensions();
    let ghost rows0 = canvas_rows(*img);
    let ghost s = line_setup(width as int, height as int, x0 as int, y0 as int, x1 as int, y1 as int);
    let (mut a0, mut b0, mut a1, mut b1) = (width - x0, height - y0, width - x1, height - y1);
    let da = if a0 >= a1 {
        a0 - a1
    } else {
        a1 - a0
    };
    let db = if b0 >= b1 {
        b0 - b1
    } else {
        b1 - b0
    };
    let steep = da < db;
    if steep {
        let (t0, t1) = (a0, a1);
        a0 = b0;
        a1 = b1;
        b0 = t0;
        b1 = t1;
    }
    if a0 > a1 {
        let (ta, tb) = (a0, b0);
        a0 = a1;
        b0 = b1;
        a1 = ta;
        b1 = tb;
    }
    assert(s == (a0 as int, b0 as int, a1 as int, b1 as int, steep));
    let mut a: u32 = a0;
    while a < a1
        invariant
            a0 <= a <= a1 || (a == a0 && a1 <= a0),
            s == (a0 as int, b0 as int, a1 as int, b1 as int, steep),
            canvas_width(*img) == width,
            canvas_rows(*img).len() == height,
            rows0.len() == height,
            forall|r: int| 0 <= r < height ==> (#[trigger] canvas_rows(*img)[r]).len() == width,
            forall|r: int| 0 <= r < height ==> (#[trigger] rows0[r]).len() == width,
            forall|c: int, r: int|
                0 <= c < width && 0 <= r < height ==> #[trigger] canvas_rows(*img)[r][c] == if line_hits(
                    s,
                    a as int,
                    c,
                    r,
                ) {
                    color
                } else {
                    rows0[r][c]
                },
        decreases a1 - a,
    {
        let span: u128 = (a1 - a0) as u128;
        let m: u128 = 0xffff_ffff;
        let da: u128 = (a1 - a) as u128;
        let db: u128 = (a - a0) as u128;
        assert(b0 as u128 * da <= m * m && b1 as u128 * db <= m * m) by (nonlinear_arith)
            requires
                b0 <= m,
                b1 <= m,
                da <= m,
                db <= m,
        ;
        let p: u128 = b0 as u128 * (a1 - a) as u128;
        let q: u128 = b1 as u128 * (a - a0) as u128;
        assert(p + q <= 2 * 0xffff_ffff_ffff_ffff_ffff_ffff) by (nonlinear_arith)
            requires
                p == b0 * (a1 - a),
                q == b1 * (a - a0),
                b0 <= 0xffff_ffff,
                b1 <= 0xffff_ffff,
                0 <= a1 - a <= 0xffff_ffff,
                0 <= a - a0 <= 0xffff_ffff,
        ;
        let num: u128 = p + q;
        let b: u128 = num / span;
        let ghost before = canvas_rows(*img);
        let (col, row) = if steep {
            (b, a as u128)
        } else {
            (a as u128, b)
        };
        assert(line_pixel(s, a as int) == (col as int, row as int));
        if col < width as u128 && row < height as u128 {
            img.put_pixel(col as u32, row as u32, color);
        }
        proof {
            assert forall|c: int, r: int| 0 <= c < width && 0 <= r < height implies #[trigger] canvas_rows(*img)[r][c] == if line_hits(s, a + 1, c, r) {
                color
            } else {
                rows0[r][c]
            } by {
                if line_hits(s, a + 1, c, r) {
                    let w = choose|w: int| s.0 <= w < a + 1 && #[trigger] line_pixel(s, w) == (c, r);
                    if w != a {
                        assert(line_hits(s, a as int, c, r));
                    }
                } else {
                    if line_hits(s, a as int, c, r) {
                        let w = choose|w: int| s.0 <= w < a && #[trigger] line_pixel(s, w) == (c, r);
                        assert(s.0 <= w < a + 1 && line_pixel(s, w) == (c, r));
                    }
                    if (c, r) == (col as int, row as int) {
                        assert(s.0 <= a < a + 1 && line_pixel(s, a as int) == (c, r));
                    }
                }
                assert(before[r][c] == canvas_rows(*img)[r][c] || (c, r) == (col as int, row as int));
            }
        }
        a += 1;
    }
    proof {
        let target = line_drawn(width as int, x0 as int, y0 as int, x1 as int, y1 as int, color, rows0);
        assert forall|r: int| 0 <= r < height implies canvas_rows(*img)[r] =~= target[r] by {
            assert forall|c: int| 0 <= c < width implies canvas_rows(*img)[r][c] == target[r][c] by {
                if a1 <= a0 {
                    assert(!line_hits(s, a1 as int, c, r));
                }
            }
        }
        assert(canvas_rows(*img) =~= target);
    }
}

/// The vertex edge `e` of an indexed mesh starts at: edge `3 t + j` runs
/// from corner `j` of triangle `t` to the next corner.
pub open spec fn edge_from(indices: Seq<u32>, e: int) -> int {
    indices[e] as int
}

/// The vertex edge `e` of an indexed mesh ends at.
pub open spec fn edge_to(indices: Seq<u32>, e: int) -> int {
    if e % 3 == 2 {
        indices[e - 2] as int
    } else {
        indices[e + 1] as int
    }
}

/// The rows after the first `n` edges of the mesh are drawn in white, in
/// order, between the pixel positions of their vertices.
pub open spec fn wireframe_spec(
    width: int,
    indices: Seq<u32>,
    points: Seq<(u32, u32)>,
    n: nat,
    rows: Seq<Seq<Color>>,
) -> Seq<Seq<Color>>
    decreases n,
{
    if n == 0 {
        rows
    } else {
        let prev = wireframe_spec(width, indices, points, (n - 1) as nat, rows);
        let p = points[edge_from(indices, n - 1)];
        let q = points[edge_to(indices, n - 1)];
        line_drawn(width, p.0 as int, p.1 as int, q.0 as int, q.1 as int, (255, 255, 255), prev)
    }
}

/// Draws every edge of every triangle of an indexed mesh in white, the
/// vertices given as pixel positions from the bottom right corner.
pub fn draw_wireframe(indices: &Vec<u32>, points: &Vec<(u32, u32)>, img: &mut Canvas)
    requires
        canvas_wf(*old(img)),
        forall|i: int| 0 <= i < indices@.len() ==> (#[trigger] indices@[i] as int) < points@.len(),
        forall|j: int|
            0 <= j < points@.len() ==> (#[trigger] points@[j]).0 <= canvas_width(*old(img))
                && points@[j].1 <= canvas_rows(*old(img)).len(),
    ensures
        canvas_width(*final(img)) == canvas_width(*old(img)),
        canvas_rows(*final(img)) == wireframe_spec(
            canvas_width(*old(img)) as int,
            indices@,
            points@,
            (3 * (indices@.len() / 3)) as nat,
            canvas_rows(*old(img)),
        ),
{
    let ghost width = canvas_width(*img) as int;
    let ghost rows0 = canvas_rows(*img);
    let n: usize = indices.len() / 3 * 3;
    let mut e: usize = 0;
    while e < n
        invariant
            e <= n,
            n == 3 * (indices@.len() / 3),
            n <= indices@.len(),
            canvas_width(*img) == width,
            canvas_rows(*img).len() == rows0.len(),
            canvas_wf(*img),
            forall|i: int| 0 <= i < indices@.len() ==> (#[trigger] indices@[i] as int) < points@.len(),
            forall|j: int|
                0 <= j < points@.len() ==> (#[trigger] points@[j]).0 <= width && points@[j].1
                    <= rows0.len(),
            canvas_rows(*img) == wireframe_spec(width, indices@, points@, e as nat, rows0),
        decreases n - e,
    {
        let k: usize = if e % 3 == 2 {
            e - 2
        } else {
            e + 1
        };
        proof {
            if e % 3 != 2 {
                assert(e + 1 < n) by (nonlinear_arith)
                    requires
                        e < n,
                        n == 3 * (indices@.len() / 3),
                        e % 3 != 2,
                ;
            }
        }
        let p = points[indices[e] as usize];
        let q = points[indices[k] as usize];
        let ghost before = canvas_rows(*img);
        draw_line(p.0, p.1, q.0, q.1, img, (255, 255, 255));
        proof {
            assert forall|r: int| 0 <= r < canvas_rows(*img).len() implies #[trigger] canvas_rows(*img)[r].len() == canvas_width(*img) by {
                assert(before[r].len() == width);
            }
        }
        e += 1;
    }
}

} // verus!
