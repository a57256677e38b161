use rasterizer::canvas::Canvas;
use rasterizer::wireframe::{draw_line, draw_wireframe};

const WHITE: (u8, u8, u8) = (255, 255, 255);

fn lit(img: &Canvas) -> Vec<(u32, u32)> {
    let mut out = Vec::new();
    for row in 0..img.height() {
        for col in 0..img.width() {
            if img.pixel_at(col, row) != Some((0, 0, 0)) {
                out.push((col, row));
            }
        }
    }
    out
}

#[test]
fn canvas_bytes_round_trip() {
    let raw: Vec<u8> = (0..12).collect();
    let c = Canvas::from_rgb_bytes(2, 2, raw.clone()).unwrap();
    assert_eq!((c.width(), c.height()), (2, 2));
    assert_eq!(c.pixel_at(1, 0), Some((3, 4, 5)));
    assert_eq!(c.pixel_at(0, 1), Some((6, 7, 8)));
    assert_eq!(c.pixel_at(2, 0), None);
    assert_eq!(c.pixel_at(0, 2), None);
    assert_eq!(c.into_rgb_bytes(), raw);
    assert!(Canvas::from_rgb_bytes(2, 2, vec![0; 11]).is_none());
}

#[test]
fn new_canvas_is_filled() {
    let c = Canvas::new(3, 2, (9, 8, 7)).unwrap();
    assert_eq!(c.pixel_at(2, 1), Some((9, 8, 7)));
    assert_eq!(c.into_rgb_bytes(), [9, 8, 7].repeat(6));
}

#[test]
fn lines_in_each_direction() {
    let mut img = Canvas::new(4, 4, (0, 0, 0)).unwrap();
    draw_line(4, 4, 0, 4, &mut img, WHITE);
    assert_eq!(lit(&img), vec![(0, 0), (1, 0), (2, 0), (3, 0)]);

    let mut img = Canvas::new(4, 4, (0, 0, 0)).unwrap();
    draw_line(4, 4, 4, 0, &mut img, WHITE);
    assert_eq!(lit(&img), vec![(0, 0), (0, 1), (0, 2), (0, 3)]);

    let mut img = Canvas::new(4, 4, (0, 0, 0)).unwrap();
    draw_line(0, 0, 4, 4, &mut img, (1, 2, 3));
    assert_eq!(lit(&img), vec![(0, 0), (1, 1), (2, 2), (3, 3)]);
    assert_eq!(img.pixel_at(2, 2), Some((1, 2, 3)));

    let mut img = Canvas::new(4, 4, (0, 0, 0)).unwrap();
    draw_line(2, 2, 2, 2, &mut img, WHITE);
    assert!(lit(&img).is_empty());
}

#[test]
fn wireframe_draws_every_edge() {
    let mut img = Canvas::new(4, 4, (0, 0, 0)).unwrap();
    draw_wireframe(&vec![0, 1, 2], &vec![(4, 4), (0, 4), (4, 0)], &mut img);
    assert_eq!(
        lit(&img),
        vec![(0, 0), (1, 0), (2, 0), (3, 0), (0, 1), (3, 1), (0, 2), (2, 2), (0, 3), (1, 3)]
    );
}
