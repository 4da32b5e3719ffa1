use idp_tool::error::ImageError;
use idp_tool::floatbits::DEAD_BAND_VALUE_BITS;
use idp_tool::imageops::{
    apply_mask, count_adjacent_bad_diagonals, count_bad_pixels, diff_pixels, mark_ignored_pixels,
    mark_open_bads, mark_short_bads, median_of_unmasked_pixel_values, pixels_to_mask,
};
use idp_tool::pixel::{BadType, Pixel};

fn px(value: f32, valid: BadType) -> Pixel {
    Pixel { value: value.to_bits(), valid }
}

#[test]
fn diffing_an_image_against_itself_gives_zero() {
    let img = vec![
        px(1.5, BadType::Unknown),
        px(7.0, BadType::DeadBand),
        px(-2.25, BadType::Unknown),
        px(0.0, BadType::Unknown),
    ];
    let d = diff_pixels(&img, &img).unwrap();
    for (i, p) in d.iter().enumerate() {
        if img[i].valid == BadType::DeadBand {
            assert_eq!(p.valid, BadType::DeadBand);
            assert_eq!(f32::from_bits(p.value), 999.0);
        } else {
            assert_eq!(p.valid, BadType::Unknown);
            assert_eq!(p.value, 0.0f32.to_bits());
        }
    }
}

#[test]
fn diff_takes_absolute_values() {
    let a = vec![px(1.0, BadType::Unknown), px(5.0, BadType::Unknown)];
    let b = vec![px(3.5, BadType::Unknown), px(2.0, BadType::Unknown)];
    let d = diff_pixels(&a, &b).unwrap();
    assert_eq!(f32::from_bits(d[0].value), 2.5);
    assert_eq!(f32::from_bits(d[1].value), 3.0);
}

#[test]
fn diff_rejects_unequal_shapes() {
    let a = vec![px(1.0, BadType::Unknown)];
    let b = vec![px(1.0, BadType::Unknown), px(2.0, BadType::Unknown)];
    match diff_pixels(&a, &b) {
        Err(ImageError::ShapeMismatch) => {},
        _ => panic!("expected a shape mismatch"),
    }
}

#[test]
fn edge_margin_is_ignored_but_dead_band_is_preserved() {
    // 4x4 grid, margin 1: only the four centre pixels pass through.
    let mut ps = Vec::new();
    for i in 0..16 {
        let tag = if i == 1 || i == 5 { BadType::DeadBand } else { BadType::Unknown };
        ps.push(px(i as f32, tag));
    }
    let r = mark_ignored_pixels(&ps, 1, 4, 4);
    for (i, p) in r.iter().enumerate() {
        let row = i / 4;
        let col = i % 4;
        let edge = row == 0 || row == 3 || col == 0 || col == 3;
        if i == 1 {
            // dead band on the edge stays dead
            assert_eq!(p.valid, BadType::DeadBand);
        } else if i == 5 {
            // dead band in the interior stays dead
            assert_eq!(p.valid, BadType::DeadBand);
        } else if edge {
            assert_eq!(p.valid, BadType::Ignored, "index {}", i);
        } else {
            assert_eq!(p.valid, BadType::Unknown, "index {}", i);
        }
        assert_eq!(p.value, ps[i].value, "values always pass through");
    }
}

#[test]
fn open_thresholder_flags_low_unknown_pixels() {
    let ps = vec![
        px(0.1, BadType::Unknown),
        px(0.5, BadType::Unknown),
        px(0.1, BadType::DeadBand),
        px(0.1, BadType::Ignored),
        px(0.3, BadType::Unknown), // not strictly below the threshold
        px(0.2999, BadType::Unknown),
    ];
    let (marked, count) = mark_open_bads(0.3f32.to_bits(), &ps);
    assert_eq!(count, 2);
    assert_eq!(marked[0].valid, BadType::OpenBad);
    assert_eq!(marked[1].valid, BadType::Unknown);
    assert_eq!(marked[2].valid, BadType::DeadBand);
    assert_eq!(marked[3].valid, BadType::Ignored);
    assert_eq!(marked[4].valid, BadType::Unknown);
    assert_eq!(marked[5].valid, BadType::OpenBad);
}

#[test]
fn majority_masking_promotes_bad_columns_and_rows() {
    // 4x4 grid: column 2 has 3 of 4 pixels OpenBad (> 4/2), row 1 too.
    let mut ps = Vec::new();
    for i in 0..16 {
        let row = i / 4;
        let col = i % 4;
        let open = (col == 2 && row <= 2) || (row == 1 && col <= 1);
        ps.push(px(1.0, if open { BadType::OpenBad } else { BadType::Unknown }));
    }
    let (mask, n_bad_cols, n_bad_rows, measured, in_bad_cols, in_bad_rows, unknown) =
        pixels_to_mask(&ps, 4, 4);
    assert_eq!(n_bad_cols, 1);
    assert_eq!(n_bad_rows, 1);
    assert_eq!(measured, 16);
    assert_eq!(in_bad_cols, 3);
    assert_eq!(in_bad_rows, 3);
    assert_eq!(unknown, 9);
    for i in 0..16 {
        let row = i / 4;
        let col = i % 4;
        let expect = match (col == 2, row == 1) {
            (true, true) => BadType::OpenBadBoth,
            (true, false) => BadType::OpenBadCol,
            (false, true) => BadType::OpenBadRow,
            (false, false) => ps[i].valid,
        };
        assert_eq!(mask[i].valid, expect, "index {}", i);
        if expect == BadType::OpenBadBoth || expect == BadType::OpenBadCol || expect
            == BadType::OpenBadRow
        {
            assert_eq!(mask[i].value, DEAD_BAND_VALUE_BITS);
        }
    }
}

#[test]
fn masking_leaves_dead_and_ignored_alone() {
    // A single column of a 1x4 grid that is all OpenBad except protected
    // tags.  With width 1 each open row is also a bad row (1 > 1/2).
    let ps = vec![
        px(1.0, BadType::OpenBad),
        px(1.0, BadType::OpenBad),
        px(1.0, BadType::OpenBad),
        px(1.0, BadType::DeadBand),
    ];
    let (mask, n_bad_cols, n_bad_rows, measured, _, _, _) = pixels_to_mask(&ps, 1, 4);
    assert_eq!(n_bad_cols, 1); // 3 > 4/2
    assert_eq!(n_bad_rows, 3);
    assert_eq!(measured, 3);
    assert_eq!(mask[0].valid, BadType::OpenBadBoth);
    assert_eq!(mask[3].valid, BadType::DeadBand);
}

#[test]
fn median_of_three_averages_the_lower_middle_pair() {
    let ms = vec![
        px(0.0, BadType::Unknown),
        px(0.0, BadType::DeadBand),
        px(0.0, BadType::Unknown),
        px(0.0, BadType::Ignored),
        px(0.0, BadType::Unknown),
    ];
    let ps = vec![
        px(5.0, BadType::Unknown),
        px(99.0, BadType::Unknown),
        px(1.0, BadType::Unknown),
        px(99.0, BadType::Unknown),
        px(3.0, BadType::Unknown),
    ];
    // collected [5, 1, 3] sorts to [1, 3, 5]; n = 3 odd, so (v[1] + v[0]) / 2.
    let r = median_of_unmasked_pixel_values(&ms, &ps);
    assert_eq!(f32::from_bits(r), 2.0);
}

#[test]
fn median_of_four_takes_the_upper_middle_value() {
    let ms = vec![
        px(0.0, BadType::Unknown),
        px(0.0, BadType::Unknown),
        px(0.0, BadType::Unknown),
        px(0.0, BadType::Unknown),
    ];
    let ps = vec![
        px(2.0, BadType::Unknown),
        px(4.0, BadType::Unknown),
        px(1.0, BadType::Unknown),
        px(3.0, BadType::Unknown),
    ];
    // collected [2, 4, 1, 3] sorts to [1, 2, 3, 4]; n = 4 even, so v[2].
    let r = median_of_unmasked_pixel_values(&ms, &ps);
    assert_eq!(f32::from_bits(r), 3.0);
}

#[test]
fn mask_propagation_takes_values_from_the_image_and_tags_from_the_mask() {
    let ms = vec![px(9.0, BadType::OpenBadCol), px(9.0, BadType::Unknown)];
    let ps = vec![px(1.5, BadType::Unknown), px(2.5, BadType::Unknown)];
    let r = apply_mask(&ms, &ps).unwrap();
    assert_eq!(f32::from_bits(r[0].value), 1.5);
    assert_eq!(r[0].valid, BadType::OpenBadCol);
    assert_eq!(f32::from_bits(r[1].value), 2.5);
    assert_eq!(r[1].valid, BadType::Unknown);
}

#[test]
fn mask_propagation_rejects_unequal_shapes() {
    let ms = vec![px(0.0, BadType::Unknown)];
    let ps = vec![px(0.0, BadType::Unknown), px(0.0, BadType::Unknown)];
    match apply_mask(&ms, &ps) {
        Err(ImageError::ShapeMismatch) => {},
        _ => panic!("expected a shape mismatch"),
    }
}

#[test]
fn short_analysis_tallies_diagonals() {
    // 2x2 grid: diagonal ids are 0, 1, 1, 2 and there are w + h = 4 slots.
    let ps = vec![
        px(0.1, BadType::Unknown),
        px(0.9, BadType::Unknown),
        px(0.2, BadType::Unknown),
        px(0.15, BadType::Unknown),
    ];
    let (marked, count, not_in_bad, n_bad_diags, adjacent) =
        mark_short_bads(0.5f32.to_bits(), &ps, 2, 2);
    assert_eq!(count, 3);
    assert_eq!(marked[0].valid, BadType::ShortBad);
    assert_eq!(marked[1].valid, BadType::Unknown);
    assert_eq!(marked[2].valid, BadType::ShortBad);
    assert_eq!(marked[3].valid, BadType::ShortBad);
    // diagonal 0: 1 of 1 bad; diagonal 1: 1 of 2 (not > 1); diagonal 2: 1 of 1.
    assert_eq!(n_bad_diags, 2);
    // the short defect on diagonal 1 lies on no bad diagonal
    assert_eq!(not_in_bad, 1);
    // flags [true, false, true, false] hold no adjacent pair
    assert_eq!(adjacent, 0);
}

#[test]
fn short_analysis_skips_settled_pixels() {
    let ps = vec![
        px(0.1, BadType::OpenBadCol),
        px(0.1, BadType::DeadBand),
        px(0.1, BadType::Unknown),
        px(0.1, BadType::Ignored),
    ];
    let (marked, count, _, n_bad_diags, _) = mark_short_bads(0.5f32.to_bits(), &ps, 2, 2);
    assert_eq!(count, 1);
    assert_eq!(marked[0].valid, BadType::OpenBadCol);
    assert_eq!(marked[2].valid, BadType::ShortBad);
    assert_eq!(n_bad_diags, 1);
}

#[test]
fn diagonal_adjacency_consumes_counted_pairs() {
    let flags = vec![true, true, true, false, true, true];
    assert_eq!(count_adjacent_bad_diagonals(&flags), 2);
}

#[test]
fn diagonal_adjacency_on_runs() {
    assert_eq!(count_adjacent_bad_diagonals(&vec![]), 0);
    assert_eq!(count_adjacent_bad_diagonals(&vec![true]), 0);
    assert_eq!(count_adjacent_bad_diagonals(&vec![true, true]), 1);
    assert_eq!(count_adjacent_bad_diagonals(&vec![true, true, true]), 1);
    assert_eq!(count_adjacent_bad_diagonals(&vec![true, true, true, true]), 2);
    assert_eq!(count_adjacent_bad_diagonals(&vec![false, true, true, false]), 1);
}

#[test]
fn counting_bad_pairs_needs_both_unknown() {
    let ms = vec![
        px(0.0, BadType::Unknown),
        px(0.0, BadType::OpenBad),
        px(0.0, BadType::Unknown),
    ];
    let ps = vec![
        px(0.1, BadType::Unknown),
        px(0.1, BadType::Unknown),
        px(0.9, BadType::Unknown),
    ];
    assert_eq!(count_bad_pixels(0.5f32.to_bits(), &ms, &ps), 1);
}

#[test]
fn error_descriptions_name_the_kind() {
    assert_eq!(ImageError::FormatError("x".to_string()).description(), "Format error");
    assert_eq!(ImageError::IoError("x".to_string()).description(), "IO error");
    assert_eq!(ImageError::ShapeMismatch.description(), "Shape mismatch");
}
