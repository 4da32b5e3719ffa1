use idp_tool::decoder::encode_idp_u16;
use idp_tool::dimensions::{HEIGHT, WIDTH};
use idp_tool::error::ImageError;
use idp_tool::fileset::NamedFile;
use idp_tool::imageops::to_diff_pair;
use idp_tool::pixel::BadType;

fn image_bytes<F: Fn(usize, usize) -> u16>(f: F) -> Vec<u8> {
    let mut samples: Vec<u16> = Vec::with_capacity(WIDTH * HEIGHT);
    for row in 0..HEIGHT {
        for col in 0..WIDTH {
            samples.push(f(row, col));
        }
    }
    encode_idp_u16(WIDTH as u32, HEIGHT as u32, &samples)
}

fn nf(name: &str, data: Vec<u8>) -> NamedFile {
    NamedFile { name: name.as_bytes().to_vec(), data }
}

/// With a margin of 815 rows/columns only rows 815..=816 and columns
/// 815..=1048 survive, and the dead band covers all of that window except
/// four pixels: (815, 815), (815, 816), (816, 815) and (816, 1048).
#[test]
fn full_analysis_of_a_synthetic_file_set() {
    let open_lhs = image_bytes(|_, _| 100);
    let open_rhs = image_bytes(|_, _| 0);
    let short_lhs = image_bytes(|row, col| match (row, col) {
        (815, 815) => 10,
        (815, 816) => 30,
        (816, 815) => 50,
        (816, 1048) => 20,
        _ => 0,
    });
    let short_rhs = image_bytes(|_, _| 0);
    let files = vec![
        nf("set_PNReset_C1717.idp", open_lhs),
        nf("set_PNReset_C2525.idp", open_rhs),
        nf("set_PNReset_C1725.idp", short_lhs),
        nf("set_PNReset_C2517.idp", short_rhs),
    ];
    let (open_diff, short_diff, stats) =
        to_diff_pair(&files, 0.3f32.to_bits(), 0.75f32.to_bits(), 815).unwrap();

    assert_eq!(open_diff.len(), WIDTH * HEIGHT);
    assert_eq!(short_diff.len(), WIDTH * HEIGHT);
    // open difference: |100 - 0| everywhere outside the dead band
    assert_eq!(f32::from_bits(open_diff[0].value), 100.0);
    assert_eq!(open_diff[0].valid, BadType::Unknown);
    let dead_idx = 1632; // row 0, first dead column
    assert_eq!(f32::from_bits(open_diff[dead_idx].value), 999.0);
    assert_eq!(open_diff[dead_idx].valid, BadType::DeadBand);
    // short difference at the four surviving pixels
    assert_eq!(f32::from_bits(short_diff[815 * WIDTH + 815].value), 10.0);
    assert_eq!(f32::from_bits(short_diff[815 * WIDTH + 816].value), 30.0);
    assert_eq!(f32::from_bits(short_diff[816 * WIDTH + 815].value), 50.0);
    assert_eq!(f32::from_bits(short_diff[816 * WIDTH + 1048].value), 20.0);

    assert_eq!(stats.bad_opens, 0);
    assert_eq!(stats.number_of_bad_columns, 0);
    assert_eq!(stats.number_of_bad_rows, 0);
    assert_eq!(stats.number_of_pixels_measured, 4);
    assert_eq!(stats.number_of_open_bads_in_bad_cols, 0);
    assert_eq!(stats.number_of_open_bads_in_bad_rows, 0);
    // median of [10, 20, 30, 50] picks index 2 (even count), 30; times 0.75
    assert_eq!(f32::from_bits(stats.threshold_for_shorts), 22.5);
    // 10 and 20 lie below 22.5
    assert_eq!(stats.bad_shorts, 2);
    // diagonals 1630 (one pixel, bad) and 1864 (one pixel, bad) are bad;
    // diagonal 1631 (30 and 50, no shorts) is not
    assert_eq!(stats.number_of_bad_diagonals, 2);
    assert_eq!(stats.number_of_short_bads_not_in_bad_diagonals, 0);
    assert_eq!(stats.number_of_adjacent_bad_diagonals, 0);
}

/// A margin of 816 ignores every row, so nothing is left unsettled and
/// the short files are never needed.
#[test]
fn short_phase_is_skipped_when_nothing_is_left() {
    let open_lhs = image_bytes(|_, _| 100);
    let open_rhs = image_bytes(|_, _| 0);
    let files = vec![
        nf("set_PNReset_C1717.idp", open_lhs),
        nf("set_PNReset_C2525.idp", open_rhs),
    ];
    let (_open_diff, short_diff, stats) =
        to_diff_pair(&files, 0.3f32.to_bits(), 0.75f32.to_bits(), 816).unwrap();
    assert_eq!(short_diff.len(), 0);
    assert_eq!(stats.bad_shorts, 0);
    assert_eq!(f32::from_bits(stats.threshold_for_shorts), 0.0);
    assert_eq!(stats.number_of_bad_diagonals, 0);
    assert_eq!(stats.number_of_adjacent_bad_diagonals, 0);
    assert_eq!(stats.number_of_pixels_measured, 0);
}

#[test]
fn missing_open_pair_is_a_format_error() {
    match to_diff_pair(&Vec::new(), 0.3f32.to_bits(), 0.75f32.to_bits(), 0) {
        Err(ImageError::FormatError(_)) => {},
        _ => panic!("expected a format error"),
    }
}

#[test]
fn undecodable_open_file_is_a_format_error() {
    let files = vec![
        nf("set_PNReset_C1717.idp", vec![1, 2, 3]),
        nf("set_PNReset_C2525.idp", vec![4, 5, 6]),
    ];
    match to_diff_pair(&files, 0.3f32.to_bits(), 0.75f32.to_bits(), 0) {
        Err(ImageError::FormatError(_)) => {},
        _ => panic!("expected a format error"),
    }
}

#[test]
fn missing_short_pair_is_a_format_error() {
    let open_lhs = image_bytes(|_, _| 100);
    let open_rhs = image_bytes(|_, _| 0);
    let files = vec![
        nf("set_PNReset_C1717.idp", open_lhs),
        nf("set_PNReset_C2525.idp", open_rhs),
    ];
    match to_diff_pair(&files, 0.3f32.to_bits(), 0.75f32.to_bits(), 815) {
        Err(ImageError::FormatError(_)) => {},
        _ => panic!("expected a format error"),
    }
}
