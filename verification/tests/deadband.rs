use idp_tool::dimensions::{HEIGHT, WIDTH};
use idp_tool::pixel::BadType;
use idp_tool::pixelops::{is_dead_band, make_pixel_f32, make_pixel_u16};

#[test]
fn row_zero_dead_columns_are_1632_through_1863() {
    for col in 0..WIDTH {
        let dead = is_dead_band(col, WIDTH, HEIGHT).unwrap();
        assert_eq!(dead, (1632..=1863).contains(&col), "row 0 col {}", col);
    }
}

#[test]
fn row_1632_dead_columns_are_0_through_231() {
    for col in 0..WIDTH {
        let i = 1632 * WIDTH + col;
        let dead = is_dead_band(i, WIDTH, HEIGHT).unwrap();
        assert_eq!(dead, (0..=231).contains(&col), "row 1632 col {}", col);
    }
}

#[test]
fn every_row_has_232_dead_columns() {
    for row in [1usize, 100, 816, 1631] {
        let mut n = 0;
        for col in 0..WIDTH {
            if is_dead_band(row * WIDTH + col, WIDTH, HEIGHT).unwrap() {
                n += 1;
            }
        }
        assert_eq!(n, 232, "row {}", row);
    }
}

#[test]
fn other_geometries_are_undefined() {
    assert_eq!(is_dead_band(0, 4, 4), None);
    assert_eq!(is_dead_band(10, WIDTH, 1000), None);
}

#[test]
fn pixels_are_tagged_by_geometry_alone() {
    let p = make_pixel_u16(0, 12345);
    assert_eq!(p.valid, BadType::Unknown);
    assert_eq!(f32::from_bits(p.value), 12345.0);

    let q = make_pixel_u16(1632, 7); // row 0, first dead column
    assert_eq!(q.valid, BadType::DeadBand);
    assert_eq!(f32::from_bits(q.value), 7.0);

    let r = make_pixel_f32(1631, (-2.5f32).to_bits()); // row 0, last live column
    assert_eq!(r.valid, BadType::Unknown);
    assert_eq!(f32::from_bits(r.value), -2.5);

    let s = make_pixel_f32(1863, 1.0f32.to_bits()); // row 0, last dead column
    assert_eq!(s.valid, BadType::DeadBand);
}
