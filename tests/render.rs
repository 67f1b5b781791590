use raytracer::ppm::Pixel;
use raytracer::rand::Rand;
use raytracer::render::render_row;

fn tag(i: usize, j: usize, mut g: Rand) -> (Pixel, Rand) {
    let v = g.next();
    (
        Pixel {
            r: i as u8,
            g: j as u8,
            b: (v & 0xff) as u8,
        },
        g,
    )
}

#[test]
fn first_output_row_is_top_image_row() {
    let row = render_row(4, 3, 0, 9, &tag);
    assert_eq!(row.len(), 4);
    assert!(row.iter().all(|p| p.g == 2));
    let last = render_row(4, 3, 2, 9, &tag);
    assert!(last.iter().all(|p| p.g == 0));
}

#[test]
fn pixels_come_left_to_right() {
    let row = render_row(5, 1, 0, 0, &tag);
    let xs: Vec<u8> = row.iter().map(|p| p.r).collect();
    assert_eq!(xs, vec![0, 1, 2, 3, 4]);
}

#[test]
fn row_draws_from_its_worker_generator_in_order() {
    let row = render_row(6, 4, 1, 100, &tag);
    let mut expected = Rand::for_worker(100, 1);
    for p in &row {
        assert_eq!(p.b, (expected.next() & 0xff) as u8);
    }
}

#[test]
fn rendering_a_row_twice_gives_the_same_pixels() {
    let a = render_row(16, 8, 3, 77, &tag);
    let b = render_row(16, 8, 3, 77, &tag);
    assert_eq!(a, b);
}

#[test]
fn empty_row() {
    assert!(render_row(0, 1, 0, 5, &tag).is_empty());
}
