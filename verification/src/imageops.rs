//! The defect-classification passes.
//!
//! Every pass consumes one pixel sequence and produces a fresh one; no
//! pass mutates a buffer it does not own.  A pass never overwrites a
//! `DeadBand` or `Ignored` tag.

use vstd::prelude::*;
use crate::dimensions::{HEIGHT, WIDTH};
use crate::error::{ImageError, ImageResult};
use crate::floatbits::{
    DEAD_BAND_VALUE_BITS,
    F32_TWO_BITS,
    f32_add,
    f32_div,
    f32_le_order,
    f32_mul,
    f32_is_finite_bits,
    f32_lt_bits,
    f32_lt_spec,
    f32_mag,
    f32_sub,
    f32_sub_bits,
    f32_abs_bits,
};
use crate::pixel::{BadType, Pixel};

verus! {

/// The difference of one pixel pair: a `DeadBand` left pixel propagates
/// the dead-band tag with the sentinel value; any other pair yields the
/// absolute difference of the values, classified `Unknown`.
pub open spec fn diff_pixel_spec(l: Pixel, r: Pixel) -> Pixel {
    if l.valid is DeadBand {
        (Pixel { value: DEAD_BAND_VALUE_BITS, valid: BadType::DeadBand })
    } else {
        (Pixel { value: f32_mag(f32_sub(l.value, r.value)) as u32, valid: BadType::Unknown })
    }
}

/// The difference engine: absolute per-pixel difference of two equal-shape
/// classified images, propagating dead-band status from the left image.
/// Unequal shapes are rejected.  Diffing an image against itself gives,
/// for every non-`DeadBand` pixel of finite value, exactly the value zero
/// classified `Unknown`.
pub fn diff_pixels(lhs: &Vec<Pixel>, rhs: &Vec<Pixel>) -> (res: Result<Vec<Pixel>, ImageError>)
    ensures
        res is Ok <==> lhs@.len() == rhs@.len(),
        res matches Err(e) ==> e is ShapeMismatch,
        res matches Ok(d) ==> {
            &&& d@.len() == lhs@.len()
            &&& forall|i: int| 0 <= i < lhs@.len() ==> d@[i] == diff_pixel_spec(lhs@[i], rhs@[i])
            &&& forall|i: int|
                0 <= i < lhs@.len() && !(lhs@[i].valid is DeadBand) && lhs@[i] == rhs@[i]
                    && f32_is_finite_bits(lhs@[i].value) ==> d@[i] == (Pixel {
                    value: 0u32,
                    valid: BadType::Unknown,
                })
        },
{
    if lhs.len() != rhs.len() {
        return Err(ImageError::ShapeMismatch);
    }
    let n = lhs.len();
    let mut diffs: Vec<Pixel> = Vec::with_capacity(n);
    let mut i: usize = 0;
    while i < n
        invariant
            i <= n,
            n == lhs@.len() == rhs@.len(),
            diffs@.len() == i,
            forall|j: int| 0 <= j < i ==> diffs@[j] == diff_pixel_spec(lhs@[j], rhs@[j]),
            forall|j: int|
                0 <= j < i && !(lhs@[j].valid is DeadBand) && lhs@[j] == rhs@[j]
                    && f32_is_finite_bits(lhs@[j].value) ==> diffs@[j] == (Pixel {
                    value: 0u32,
                    valid: BadType::Unknown,
                }),
        decreases n - i,
    {
        let l = lhs[i];
        let r = rhs[i];
        let p = match l.valid {
            BadType::DeadBand => Pixel { value: DEAD_BAND_VALUE_BITS, valid: BadType::DeadBand },
            _ => {
                let d = f32_sub_bits(l.value, r.value);
                Pixel { value: f32_abs_bits(d), valid: BadType::Unknown }
            },
        };
        diffs.push(p);
        i = i + 1;
    }
    Ok(diffs)
}

/// What the edge-ignore masker does to the pixel at `(row, col)`: inside
/// the margin every pixel becomes `Ignored` unless it is already
/// `DeadBand`; outside the margin the pixel passes through.
pub open spec fn ignore_pixel_spec(p: Pixel, row: int, col: int, m: int, w: int, h: int) -> Pixel {
    if row < m || row >= h - m || col < m || col >= w - m {
        if p.valid is DeadBand {
            p
        } else {
            (Pixel { value: p.value, valid: BadType::Ignored })
        }
    } else {
        p
    }
}

/// The whole image after the edge-ignore masker.
pub open spec fn mark_ignored_spec(ps: Seq<Pixel>, m: int, w: int, h: int) -> Seq<Pixel> {
    Seq::new(ps.len(), |i: int| ignore_pixel_spec(ps[i], i / w, i % w, m, w, h))
}

/// Marks a margin of `ignore_edges` rows and columns as `Ignored`,
/// preserving `DeadBand` pixels.
pub fn mark_ignored_pixels(ps: &Vec<Pixel>, ignore_edges: usize, width: usize, height: usize) -> (r:
    Vec<Pixel>)
    requires
        ps@.len() == width * height,
        0 < width,
        0 < height,
        ignore_edges <= width,
        ignore_edges <= height,
    ensures
        r@ == mark_ignored_spec(ps@, ignore_edges as int, width as int, height as int),
{
    let total_pix = ps.len();
    let mut mask_pixels: Vec<Pixel> = Vec::with_capacity(total_pix);
    let mut i: usize = 0;
    while i < total_pix
        invariant
            i <= total_pix,
            total_pix == ps@.len(),
            0 < width,
            ignore_edges <= width,
            ignore_edges <= height,
            mask_pixels@.len() == i,
            forall|j: int|
                0 <= j < i ==> mask_pixels@[j] == ignore_pixel_spec(
                    ps@[j],
                    j / (width as int),
                    j % (width as int),
                    ignore_edges as int,
                    width as int,
                    height as int,
                ),
        decreases total_pix - i,
    {
        let row = i / width;
        let col = i % width;
        let this_pix = ps[i];
        let p = if row < ignore_edges || row >= height - ignore_edges || col < ignore_edges || col
            >= width - ignore_edges {
            if this_pix.valid == BadType::DeadBand {
                this_pix
            } else {
                Pixel { value: this_pix.value, valid: BadType::Ignored }
            }
        } else {
            this_pix
        };
        mask_pixels.push(p);
        i = i + 1;
    }
    proof {
        assert(mask_pixels@ =~= mark_ignored_spec(
            ps@,
            ignore_edges as int,
            width as int,
            height as int,
        ));
    }
    mask_pixels
}

/// What the open-defect thresholder does to one pixel: a still-`Unknown`
/// pixel whose value lies below the threshold becomes `OpenBad`; every
/// other pixel passes through.
pub open spec fn open_pixel_spec(p: Pixel, threshold: u32) -> Pixel {
    if p.valid is Unknown && f32_lt_spec(p.value, threshold) {
        (Pixel { value: p.value, valid: BadType::OpenBad })
    } else {
        p
    }
}

/// The whole image after the open-defect thresholder.
pub open spec fn mark_open_spec(ps: Seq<Pixel>, threshold: u32) -> Seq<Pixel> {
    Seq::new(ps.len(), |i: int| open_pixel_spec(ps[i], threshold))
}

/// How many pixels the open-defect thresholder reclassifies.
pub open spec fn count_open_spec(ps: Seq<Pixel>, threshold: u32) -> int
    decreases ps.len(),
{
    if ps.len() == 0 {
        0
    } else {
        count_open_spec(ps.drop_last(), threshold) + if ps.last().valid is Unknown && f32_lt_spec(
            ps.last().value,
            threshold,
        ) {
            1int
        } else {
            0int
        }
    }
}

/// Flags candidate open-bond defects: every still-`Unknown` pixel with
/// value below `threshold` becomes `OpenBad`, and the number of pixels so
/// reclassified is returned beside the new image.
pub fn mark_open_bads(threshold: u32, ps: &Vec<Pixel>) -> (r: (Vec<Pixel>, u64))
    ensures
        r.0@ == mark_open_spec(ps@, threshold),
        r.1 == count_open_spec(ps@, threshold),
{
    let total_pix = ps.len();
    let mut count: u64 = 0;
    let mut marked_pixels: Vec<Pixel> = Vec::with_capacity(total_pix);
    let mut i: usize = 0;
    while i < total_pix
        invariant
            i <= total_pix,
            total_pix == ps@.len(),
            marked_pixels@.len() == i,
            count == count_open_spec(ps@.take(i as int), threshold),
            count <= i,
            forall|j: int| 0 <= j < i ==> marked_pixels@[j] == open_pixel_spec(ps@[j], threshold),
        decreases total_pix - i,
    {
        let p = ps[i];
        let is_unknown = p.valid == BadType::Unknown;
        let below = f32_lt_bits(p.value, threshold);
        proof {
            assert(ps@.take(i + 1).drop_last() =~= ps@.take(i as int));
            assert(ps@.take(i + 1).last() == ps@[i as int]);
        }
        if is_unknown && below {
            count = count + 1;
            marked_pixels.push(Pixel { value: p.value, valid: BadType::OpenBad });
        } else {
            marked_pixels.push(p);
        }
        i = i + 1;
    }
    proof {
        assert(ps@.take(total_pix as int) =~= ps@);
        assert(marked_pixels@ =~= mark_open_spec(ps@, threshold));
    }
    (marked_pixels, count)
}

/// The mask propagator: each output pixel takes its value from `ps` (the
/// short-test difference image) and its tag from the corresponding pixel
/// of `ms` (the open-test mask).
pub open spec fn apply_mask_spec(ms: Seq<Pixel>, ps: Seq<Pixel>) -> Seq<Pixel> {
    Seq::new(ps.len(), |i: int| (Pixel { value: ps[i].value, valid: ms[i].valid }))
}

/// Transplants the open-test classification mask onto a short-test
/// difference image of the same shape; unequal shapes are rejected.
pub fn apply_mask(ms: &Vec<Pixel>, ps: &Vec<Pixel>) -> (res: Result<Vec<Pixel>, ImageError>)
    ensures
        res is Ok <==> ms@.len() == ps@.len(),
        res matches Err(e) ==> e is ShapeMismatch,
        res matches Ok(d) ==> d@ == apply_mask_spec(ms@, ps@),
{
    if ms.len() != ps.len() {
        return Err(ImageError::ShapeMismatch);
    }
    let n = ps.len();
    let mut masked_pixels: Vec<Pixel> = Vec::with_capacity(n);
    let mut i: usize = 0;
    while i < n
        invariant
            i <= n,
            n == ms@.len() == ps@.len(),
            masked_pixels@.len() == i,
            forall|j: int|
                0 <= j < i ==> masked_pixels@[j] == (Pixel {
                    value: ps@[j].value,
                    valid: ms@[j].valid,
                }),
        decreases n - i,
    {
        masked_pixels.push(Pixel { value: ps[i].value, valid: ms[i].valid });
        i = i + 1;
    }
    proof {
        assert(masked_pixels@ =~= apply_mask_spec(ms@, ps@));
    }
    Ok(masked_pixels)
}

/// How many index pairs have both tags `Unknown` and a `ps` value below
/// the threshold.
pub open spec fn count_bad_pairs_spec(ms: Seq<Pixel>, ps: Seq<Pixel>, threshold: u32) -> int
    decreases ms.len(),
{
    if ms.len() == 0 || ps.len() == 0 {
        0
    } else {
        count_bad_pairs_spec(ms.drop_last(), ps.drop_last(), threshold) + if ms.last().valid
            is Unknown && ps.last().valid is Unknown && f32_lt_spec(ps.last().value, threshold) {
            1int
        } else {
            0int
        }
    }
}

/// Counts the pixels that are `Unknown` in both images and lie below the
/// threshold in the second.
pub fn count_bad_pixels(threshold: u32, ms: &Vec<Pixel>, ps: &Vec<Pixel>) -> (r: u64)
    requires
        ms@.len() == ps@.len(),
    ensures
        r == count_bad_pairs_spec(ms@, ps@, threshold),
{
    let mut count: u64 = 0;
    let n = ms.len();
    let mut i: usize = 0;
    while i < n
        invariant
            i <= n,
            n == ms@.len() == ps@.len(),
            count == count_bad_pairs_spec(ms@.take(i as int), ps@.take(i as int), threshold),
            count <= i,
        decreases n - i,
    {
        proof {
            assert(ms@.take(i + 1).drop_last() =~= ms@.take(i as int));
            assert(ps@.take(i + 1).drop_last() =~= ps@.take(i as int));
        }
        if ms[i].valid == BadType::Unknown && ps[i].valid == BadType::Unknown && f32_lt_bits(
            ps[i].value,
            threshold,
        ) {
            count = count + 1;
        }
        i = i + 1;
    }
    proof {
        assert(ms@.take(n as int) =~= ms@);
        assert(ps@.take(n as int) =~= ps@);
    }
    count
}


/// Number of indices `i < k` whose index/pixel pair satisfies `pred`.
pub open spec fn cnt_pred(ps: Seq<Pixel>, pred: spec_fn(int, Pixel) -> bool, k: int) -> int
    decreases k,
{
    if k <= 0 {
        0
    } else {
        cnt_pred(ps, pred, k - 1) + if pred(k - 1, ps[k - 1]) {
            1int
        } else {
            0int
        }
    }
}

/// The predicate "lies in column `c` and is classified `OpenBad`".
pub open spec fn col_open_pred(w: int, c: int) -> spec_fn(int, Pixel) -> bool {
    |i: int, p: Pixel| i % w == c && p.valid is OpenBad
}

/// The predicate "lies in row `r` and is classified `OpenBad`".
pub open spec fn row_open_pred(w: int, r: int) -> spec_fn(int, Pixel) -> bool {
    |i: int, p: Pixel| i / w == r && p.valid is OpenBad
}

/// Number of `OpenBad` pixels in column `c` of the full grid.
pub open spec fn open_bads_in_col(ps: Seq<Pixel>, w: int, c: int) -> int {
    cnt_pred(ps, col_open_pred(w, c), ps.len() as int)
}

/// Number of `OpenBad` pixels in row `r` of the full grid.
pub open spec fn open_bads_in_row(ps: Seq<Pixel>, w: int, r: int) -> int {
    cnt_pred(ps, row_open_pred(w, r), ps.len() as int)
}

/// Whether column `c` is bad: more than half its pixels are `OpenBad`.
pub open spec fn bad_col_spec(ps: Seq<Pixel>, w: int, h: int, c: int) -> bool {
    open_bads_in_col(ps, w, c) > h / 2
}

/// Whether row `r` is bad: more than half its pixels are `OpenBad`.
pub open spec fn bad_row_spec(ps: Seq<Pixel>, w: int, h: int, r: int) -> bool {
    open_bads_in_row(ps, w, r) > w / 2
}

/// What the majority masker does to the pixel at index `i`: `DeadBand` and
/// `Ignored` pass through; otherwise a bad column and/or row reclassifies
/// the pixel (with the sentinel value), and a pixel in no bad line passes
/// through.
pub open spec fn mask_pixel_spec(ps: Seq<Pixel>, w: int, h: int, i: int) -> Pixel {
    let p = ps[i];
    if p.valid is DeadBand || p.valid is Ignored {
        p
    } else {
        let bc = bad_col_spec(ps, w, h, i % w);
        let br = bad_row_spec(ps, w, h, i / w);
        if bc && br {
            (Pixel { value: DEAD_BAND_VALUE_BITS, valid: BadType::OpenBadBoth })
        } else if bc {
            (Pixel { value: DEAD_BAND_VALUE_BITS, valid: BadType::OpenBadCol })
        } else if br {
            (Pixel { value: DEAD_BAND_VALUE_BITS, valid: BadType::OpenBadRow })
        } else {
            p
        }
    }
}

/// The whole image after the majority masker.
pub open spec fn pixels_to_mask_spec(ps: Seq<Pixel>, w: int, h: int) -> Seq<Pixel> {
    Seq::new(ps.len(), |i: int| mask_pixel_spec(ps, w, h, i))
}

/// Number of bad columns among the first `j`.
pub open spec fn cnt_bad_cols(ps: Seq<Pixel>, w: int, h: int, j: int) -> int
    decreases j,
{
    if j <= 0 {
        0
    } else {
        cnt_bad_cols(ps, w, h, j - 1) + if bad_col_spec(ps, w, h, j - 1) {
            1int
        } else {
            0int
        }
    }
}

/// Number of bad rows among the first `j`.
pub open spec fn cnt_bad_rows(ps: Seq<Pixel>, w: int, h: int, j: int) -> int
    decreases j,
{
    if j <= 0 {
        0
    } else {
        cnt_bad_rows(ps, w, h, j - 1) + if bad_row_spec(ps, w, h, j - 1) {
            1int
        } else {
            0int
        }
    }
}

/// The predicate "is classified `DeadBand`".
pub open spec fn dead_pred() -> spec_fn(int, Pixel) -> bool {
    |i: int, p: Pixel| p.valid is DeadBand
}

/// The predicate "is classified `Ignored`".
pub open spec fn ignored_pred() -> spec_fn(int, Pixel) -> bool {
    |i: int, p: Pixel| p.valid is Ignored
}

/// The predicate "is `OpenBad` and lies in a bad column".
pub open spec fn open_in_bad_col_pred(ps: Seq<Pixel>, w: int, h: int) -> spec_fn(
    int,
    Pixel,
) -> bool {
    |i: int, p: Pixel| p.valid is OpenBad && bad_col_spec(ps, w, h, i % w)
}

/// The predicate "is `OpenBad` and lies in a bad row".
pub open spec fn open_in_bad_row_pred(ps: Seq<Pixel>, w: int, h: int) -> spec_fn(
    int,
    Pixel,
) -> bool {
    |i: int, p: Pixel| p.valid is OpenBad && bad_row_spec(ps, w, h, i / w)
}

/// The predicate "is neither `DeadBand` nor `Ignored` and lies in no bad
/// column or row" — the pixels the mask leaves for the short test.
pub open spec fn unknown_after_mask_pred(ps: Seq<Pixel>, w: int, h: int) -> spec_fn(
    int,
    Pixel,
) -> bool {
    |i: int, p: Pixel|
        !(p.valid is DeadBand) && !(p.valid is Ignored) && !bad_col_spec(ps, w, h, i % w)
            && !bad_row_spec(ps, w, h, i / w)
}

/// The row/column majority masker.  Columns with more than `height / 2`
/// `OpenBad` pixels and rows with more than `width / 2` are promoted whole
/// (except `DeadBand` and `Ignored` pixels) to `OpenBadCol`, `OpenBadRow`
/// or `OpenBadBoth`.  Beside the mask it returns, in order: the number of
/// bad columns, of bad rows, of measured pixels (total minus ignored minus
/// dead-band), of `OpenBad` pixels inside bad columns, of `OpenBad` pixels
/// inside bad rows, and of pixels left unsettled by the mask.
pub fn pixels_to_mask(ps: &Vec<Pixel>, width: usize, height: usize) -> (r: (
    Vec<Pixel>,
    u64,
    u64,
    u64,
    usize,
    usize,
    u64,
))
    requires
        ps@.len() == width * height,
        0 < width,
        0 < height,
    ensures
        r.0@ == pixels_to_mask_spec(ps@, width as int, height as int),
        r.1 == cnt_bad_cols(ps@, width as int, height as int, width as int),
        r.2 == cnt_bad_rows(ps@, width as int, height as int, height as int),
        r.3 == ps@.len() - cnt_pred(ps@, ignored_pred(), ps@.len() as int) - cnt_pred(
            ps@,
            dead_pred(),
            ps@.len() as int,
        ),
        r.4 == cnt_pred(ps@, open_in_bad_col_pred(ps@, width as int, height as int), ps@.len() as int),
        r.5 == cnt_pred(ps@, open_in_bad_row_pred(ps@, width as int, height as int), ps@.len() as int),
        r.6 == cnt_pred(ps@, unknown_after_mask_pred(ps@, width as int, height as int), ps@.len() as int),
{
    let total_pix = ps.len();
    let ghost w = width as int;
    let ghost h = height as int;

    let mut bad_pix_in_col: Vec<usize> = Vec::with_capacity(width);
    let mut c0: usize = 0;
    while c0 < width
        invariant
            c0 <= width,
            bad_pix_in_col@.len() == c0,
            forall|c: int| 0 <= c < c0 ==> bad_pix_in_col@[c] == 0,
        decreases width - c0,
    {
        bad_pix_in_col.push(0);
        c0 = c0 + 1;
    }
    let mut bad_pix_in_row: Vec<usize> = Vec::with_capacity(height);
    let mut r0: usize = 0;
    while r0 < height
        invariant
            r0 <= height,
            bad_pix_in_row@.len() == r0,
            forall|r: int| 0 <= r < r0 ==> bad_pix_in_row@[r] == 0,
        decreases height - r0,
    {
        bad_pix_in_row.push(0);
        r0 = r0 + 1;
    }

    let mut idx: usize = 0;
    while idx < total_pix
        invariant
            idx <= total_pix,
            total_pix == ps@.len(),
            ps@.len() == w * h,
            w == width as int,
            h == height as int,
            0 < width,
            0 < height,
            bad_pix_in_col@.len() == width,
            bad_pix_in_row@.len() == height,
            forall|c: int|
                0 <= c < w ==> #[trigger] bad_pix_in_col@[c] == cnt_pred(
                    ps@,
                    col_open_pred(w, c),
                    idx as int,
                ),
            forall|r: int|
                0 <= r < h ==> #[trigger] bad_pix_in_row@[r] == cnt_pred(
                    ps@,
                    row_open_pred(w, r),
                    idx as int,
                ),
            forall|c: int| 0 <= c < w ==> #[trigger] bad_pix_in_col@[c] <= idx,
            forall|r: int| 0 <= r < h ==> #[trigger] bad_pix_in_row@[r] <= idx,
        decreases total_pix - idx,
    {
        let col = idx % width;
        let row = idx / width;
        proof {
            assert(idx as int % w == col as int);
            assert(idx as int / w == row as int);
            assert((row as int) < h) by (nonlinear_arith)
                requires
                    (idx as int) < w * h,
                    0 < w,
                    row as int == idx as int / w,
            ;
        }
        if ps[idx].valid == BadType::OpenBad {
            let cur_c = bad_pix_in_col[col];
            bad_pix_in_col.set(col, cur_c + 1);
            let cur_r = bad_pix_in_row[row];
            bad_pix_in_row.set(row, cur_r + 1);
        }
        idx = idx + 1;
    }

    let ghost n = ps@.len() as int;
    let mut bad_cols: Vec<bool> = Vec::with_capacity(width);
    let mut c1: usize = 0;
    while c1 < width
        invariant
            c1 <= width,
            w == width as int,
            h == height as int,
            total_pix == ps@.len(),
            n == ps@.len() as int,
            bad_pix_in_col@.len() == width,
            forall|c: int|
                0 <= c < w ==> #[trigger] bad_pix_in_col@[c] == cnt_pred(
                    ps@,
                    col_open_pred(w, c),
                    n,
                ),
            bad_cols@.len() == c1,
            forall|c: int| 0 <= c < c1 ==> #[trigger] bad_cols@[c] == bad_col_spec(ps@, w, h, c),
        decreases width - c1,
    {
        bad_cols.push(bad_pix_in_col[c1] > height / 2);
        c1 = c1 + 1;
    }
    let mut bad_rows: Vec<bool> = Vec::with_capacity(height);
    let mut r1: usize = 0;
    while r1 < height
        invariant
            r1 <= height,
            w == width as int,
            h == height as int,
            total_pix == ps@.len(),
            n == ps@.len() as int,
            bad_pix_in_row@.len() == height,
            forall|r: int|
                0 <= r < h ==> #[trigger] bad_pix_in_row@[r] == cnt_pred(
                    ps@,
                    row_open_pred(w, r),
                    n,
                ),
            bad_rows@.len() == r1,
            forall|r: int| 0 <= r < r1 ==> #[trigger] bad_rows@[r] == bad_row_spec(ps@, w, h, r),
        decreases height - r1,
    {
        bad_rows.push(bad_pix_in_row[r1] > width / 2);
        r1 = r1 + 1;
    }

    let mut number_of_bad_columns: u64 = 0;
    let mut c2: usize = 0;
    while c2 < width
        invariant
            c2 <= width,
            w == width as int,
            h == height as int,
            bad_cols@.len() == width,
            forall|c: int| 0 <= c < w ==> #[trigger] bad_cols@[c] == bad_col_spec(ps@, w, h, c),
            number_of_bad_columns == cnt_bad_cols(ps@, w, h, c2 as int),
            number_of_bad_columns <= c2,
        decreases width - c2,
    {
        if bad_cols[c2] {
            number_of_bad_columns = number_of_bad_columns + 1;
        }
        c2 = c2 + 1;
    }
    let mut number_of_bad_rows: u64 = 0;
    let mut r2: usize = 0;
    while r2 < height
        invariant
            r2 <= height,
            w == width as int,
            h == height as int,
            bad_rows@.len() == height,
            forall|r: int| 0 <= r < h ==> #[trigger] bad_rows@[r] == bad_row_spec(ps@, w, h, r),
            number_of_bad_rows == cnt_bad_rows(ps@, w, h, r2 as int),
            number_of_bad_rows <= r2,
        decreases height - r2,
    {
        if bad_rows[r2] {
            number_of_bad_rows = number_of_bad_rows + 1;
        }
        r2 = r2 + 1;
    }

    let mut mask_pixels: Vec<Pixel> = Vec::with_capacity(total_pix);
    let mut num_dead_band: u64 = 0;
    let mut num_ignored: u64 = 0;
    let mut num_in_bad_col: usize = 0;
    let mut num_in_bad_row: usize = 0;
    let mut num_unknown: u64 = 0;
    let mut i: usize = 0;
    while i < total_pix
        invariant
            i <= total_pix,
            total_pix == ps@.len(),
            ps@.len() == w * h,
            w == width as int,
            h == height as int,
            0 < width,
            0 < height,
            bad_cols@.len() == width,
            bad_rows@.len() == height,
            forall|c: int| 0 <= c < w ==> #[trigger] bad_cols@[c] == bad_col_spec(ps@, w, h, c),
            forall|r: int| 0 <= r < h ==> #[trigger] bad_rows@[r] == bad_row_spec(ps@, w, h, r),
            mask_pixels@.len() == i,
            forall|j: int| 0 <= j < i ==> mask_pixels@[j] == mask_pixel_spec(ps@, w, h, j),
            num_dead_band == cnt_pred(ps@, dead_pred(), i as int),
            num_ignored == cnt_pred(ps@, ignored_pred(), i as int),
            num_in_bad_col == cnt_pred(ps@, open_in_bad_col_pred(ps@, w, h), i as int),
            num_in_bad_row == cnt_pred(ps@, open_in_bad_row_pred(ps@, w, h), i as int),
            num_unknown == cnt_pred(ps@, unknown_after_mask_pred(ps@, w, h), i as int),
            num_dead_band <= i,
            num_ignored <= i,
            num_in_bad_col <= i,
            num_in_bad_row <= i,
            num_unknown <= i,
            num_dead_band + num_ignored <= i,
        decreases total_pix - i,
    {
        let col = i % width;
        let row = i / width;
        proof {
            assert(i as int % w == col as int);
            assert(i as int / w == row as int);
            assert((row as int) < h) by (nonlinear_arith)
                requires
                    (i as int) < w * h,
                    0 < w,
                    row as int == i as int / w,
            ;
        }
        let this_pix = ps[i];
        let bc = bad_cols[col];
        let br = bad_rows[row];
        let p = match this_pix.valid {
            BadType::DeadBand => {
                num_dead_band = num_dead_band + 1;
                this_pix
            },
            BadType::Ignored => {
                num_ignored = num_ignored + 1;
                this_pix
            },
            _ => {
                if this_pix.valid == BadType::OpenBad {
                    if bc {
                        num_in_bad_col = num_in_bad_col + 1;
                    }
                    if br {
                        num_in_bad_row = num_in_bad_row + 1;
                    }
                }
                if bc && br {
                    Pixel { value: DEAD_BAND_VALUE_BITS, valid: BadType::OpenBadBoth }
                } else if bc {
                    Pixel { value: DEAD_BAND_VALUE_BITS, valid: BadType::OpenBadCol }
                } else if br {
                    Pixel { value: DEAD_BAND_VALUE_BITS, valid: BadType::OpenBadRow }
                } else {
                    num_unknown = num_unknown + 1;
                    this_pix
                }
            },
        };
        mask_pixels.push(p);
        i = i + 1;
    }
    let num_measured: u64 = total_pix as u64 - (num_ignored + num_dead_band);
    proof {
        assert(mask_pixels@ =~= pixels_to_mask_spec(ps@, w, h));
    }
    (
        mask_pixels,
        number_of_bad_columns,
        number_of_bad_rows,
        num_measured,
        num_in_bad_col,
        num_in_bad_row,
        num_unknown,
    )
}


/// The predicate "the mask pixel is still classified `Unknown`".
pub open spec fn unknown_tag_pred() -> spec_fn(int, Pixel) -> bool {
    |i: int, p: Pixel| p.valid is Unknown
}

/// The values of `ps` at the first `k` indices whose `ms` pixel is still
/// `Unknown`, in index order.
pub open spec fn unmasked_values_spec(ms: Seq<Pixel>, ps: Seq<Pixel>, k: int) -> Seq<u32>
    decreases k,
{
    if k <= 0 {
        Seq::empty()
    } else {
        unmasked_values_spec(ms, ps, k - 1) + if ms[k - 1].valid is Unknown {
            seq![ps[k - 1].value]
        } else {
            Seq::empty()
        }
    }
}

/// The collection has exactly one value per still-`Unknown` mask pixel.
pub proof fn lemma_unmasked_values_len(ms: Seq<Pixel>, ps: Seq<Pixel>, k: int)
    ensures
        unmasked_values_spec(ms, ps, k).len() == cnt_pred(ms, unknown_tag_pred(), k),
    decreases k,
{
    if k > 0 {
        lemma_unmasked_values_len(ms, ps, k - 1);
    }
}

/// The median-derived threshold base: collect the values of the
/// short-test difference image at still-`Unknown` mask pixels, sort them
/// ascending, and pick by parity of the count `n` (`mid = n / 2`): an odd
/// `n` averages the two values at `mid` and `mid - 1`, an even `n` takes
/// the value at `mid` alone.
pub open spec fn median_spec(ms: Seq<Pixel>, ps: Seq<Pixel>) -> u32 {
    let sorted = unmasked_values_spec(ms, ps, ms.len() as int).sort_by(f32_le_order());
    let n = sorted.len() as int;
    let mid = n / 2;
    if n % 2 == 1 {
        f32_div(f32_add(sorted[mid], sorted[mid - 1]), F32_TWO_BITS)
    } else {
        sorted[mid]
    }
}

/// Derives the short-test threshold base from the median of the values at
/// still-unclassified mask pixels.  At least two such pixels are required:
/// with fewer there is no pair of middle values to pick from.
pub fn median_of_unmasked_pixel_values(ms: &Vec<Pixel>, ps: &Vec<Pixel>) -> (r: u32)
    requires
        ms@.len() == ps@.len(),
        cnt_pred(ms@, unknown_tag_pred(), ms@.len() as int) >= 2,
    ensures
        r == median_spec(ms@, ps@),
{
    let n_pix = ms.len();
    let mut unmasked_pixel_values: Vec<u32> = Vec::new();
    let mut i: usize = 0;
    while i < n_pix
        invariant
            i <= n_pix,
            n_pix == ms@.len() == ps@.len(),
            unmasked_pixel_values@ == unmasked_values_spec(ms@, ps@, i as int),
        decreases n_pix - i,
    {
        if ms[i].valid == BadType::Unknown {
            unmasked_pixel_values.push(ps[i].value);
            proof {
                assert(unmasked_pixel_values@ =~= unmasked_values_spec(ms@, ps@, i + 1));
            }
        }
        i = i + 1;
    }
    proof {
        lemma_unmasked_values_len(ms@, ps@, n_pix as int);
    }
    let sorted = crate::sorting::sort_f32_bits(&unmasked_pixel_values);
    let num_elems = sorted.len();
    let mid_elem = num_elems / 2;
    let mid_elem_prev = mid_elem - 1;
    if num_elems % 2 == 1 {
        let sum = crate::floatbits::f32_add_bits(sorted[mid_elem], sorted[mid_elem_prev]);
        crate::floatbits::f32_div_bits(sum, F32_TWO_BITS)
    } else {
        sorted[mid_elem]
    }
}


/// The anti-diagonal id of linear index `i`: `row + col`.
pub open spec fn diag_of(w: int, i: int) -> int {
    i / w + i % w
}

/// The predicate "is measured for diagonal `d`": still `Unknown` after the
/// mask and lying on that diagonal.
pub open spec fn diag_measured_pred(w: int, d: int) -> spec_fn(int, Pixel) -> bool {
    |i: int, p: Pixel| diag_of(w, i) == d && p.valid is Unknown
}

/// The predicate "is a short defect on diagonal `d`".
pub open spec fn diag_short_pred(w: int, d: int, threshold: u32) -> spec_fn(int, Pixel) -> bool {
    |i: int, p: Pixel| diag_of(w, i) == d && p.valid is Unknown && f32_lt_spec(p.value, threshold)
}

/// Number of measured pixels on diagonal `d`.
pub open spec fn diag_measured(ps: Seq<Pixel>, w: int, d: int) -> int {
    cnt_pred(ps, diag_measured_pred(w, d), ps.len() as int)
}

/// Number of short defects on diagonal `d`.
pub open spec fn diag_shorts(ps: Seq<Pixel>, w: int, d: int, threshold: u32) -> int {
    cnt_pred(ps, diag_short_pred(w, d, threshold), ps.len() as int)
}

/// Whether diagonal `d` is bad: more than half its measured pixels are
/// short defects.
pub open spec fn bad_diag_spec(ps: Seq<Pixel>, w: int, d: int, threshold: u32) -> bool {
    diag_shorts(ps, w, d, threshold) > diag_measured(ps, w, d) / 2
}

/// The bad flags of all `w + h` diagonal slots, in diagonal order.
pub open spec fn diag_flags_spec(ps: Seq<Pixel>, w: int, h: int, threshold: u32) -> Seq<bool> {
    Seq::new((w + h) as nat, |d: int| bad_diag_spec(ps, w, d, threshold))
}

/// What the short-defect thresholder does to one pixel: a still-`Unknown`
/// pixel below the threshold becomes `ShortBad`; everything else passes
/// through.
pub open spec fn short_pixel_spec(p: Pixel, threshold: u32) -> Pixel {
    if p.valid is Unknown && f32_lt_spec(p.value, threshold) {
        (Pixel { value: p.value, valid: BadType::ShortBad })
    } else {
        p
    }
}

/// The whole image after the short-defect thresholder.
pub open spec fn mark_short_spec(ps: Seq<Pixel>, threshold: u32) -> Seq<Pixel> {
    Seq::new(ps.len(), |i: int| short_pixel_spec(ps[i], threshold))
}

/// The predicate "becomes `ShortBad`".
pub open spec fn short_bad_pred(threshold: u32) -> spec_fn(int, Pixel) -> bool {
    |i: int, p: Pixel| p.valid is Unknown && f32_lt_spec(p.value, threshold)
}

/// The predicate "becomes `ShortBad` but lies on no bad diagonal".
pub open spec fn short_not_in_bad_diag_pred(ps: Seq<Pixel>, w: int, threshold: u32) -> spec_fn(
    int,
    Pixel,
) -> bool {
    |i: int, p: Pixel|
        p.valid is Unknown && f32_lt_spec(p.value, threshold) && !bad_diag_spec(
            ps,
            w,
            diag_of(w, i),
            threshold,
        )
}

/// Number of bad diagonals among the first `j` slots.
pub open spec fn cnt_bad_diags(ps: Seq<Pixel>, w: int, threshold: u32, j: int) -> int
    decreases j,
{
    if j <= 0 {
        0
    } else {
        cnt_bad_diags(ps, w, threshold, j - 1) + if bad_diag_spec(ps, w, j - 1, threshold) {
            1int
        } else {
            0int
        }
    }
}

/// The state of the adjacency scan after the first `k` flags: the number
/// of adjacent pairs counted so far, and whether the last flag seen is
/// still available to pair.  A counted pair is consumed: its second
/// member cannot pair again, so a run of `r >= 2` consecutive bad
/// diagonals contributes `r / 2` pairs.
pub open spec fn adjacent_scan(flags: Seq<bool>, k: int) -> (int, bool)
    decreases k,
{
    if k <= 0 {
        (0, false)
    } else {
        let s = adjacent_scan(flags, k - 1);
        if flags[k - 1] && s.1 {
            (s.0 + 1, false)
        } else {
            (s.0, flags[k - 1])
        }
    }
}

/// The number of adjacent bad-diagonal pairs in the whole flag sequence.
pub open spec fn count_adjacent_spec(flags: Seq<bool>) -> int {
    adjacent_scan(flags, flags.len() as int).0
}

/// Counts adjacent pairs of bad diagonals: scanning the flags in order, a
/// bad flag whose predecessor is bad and still unpaired counts one pair
/// and consumes both members.
pub fn count_adjacent_bad_diagonals(flags: &Vec<bool>) -> (r: usize)
    ensures
        r == count_adjacent_spec(flags@),
{
    let mut sum: usize = 0;
    let mut prev_diag_bad: bool = false;
    let mut i: usize = 0;
    while i < flags.len()
        invariant
            i <= flags@.len(),
            sum == adjacent_scan(flags@, i as int).0,
            prev_diag_bad == adjacent_scan(flags@, i as int).1,
            sum <= i,
        decreases flags@.len() - i,
    {
        if flags[i] && prev_diag_bad {
            sum = sum + 1;
            prev_diag_bad = false;
        } else {
            prev_diag_bad = flags[i];
        }
        i = i + 1;
    }
    sum
}

/// The short-defect and diagonal analyzer.  Every still-`Unknown` pixel
/// below the threshold becomes `ShortBad`; per anti-diagonal the measured
/// pixels and short defects are tallied.  Beside the new image it
/// returns, in order: the number of short defects, the number of short
/// defects lying on no bad diagonal, the number of bad diagonals, and the
/// number of adjacent bad-diagonal pairs.
pub fn mark_short_bads(threshold: u32, ps: &Vec<Pixel>, width: usize, height: usize) -> (r: (
    Vec<Pixel>,
    u64,
    usize,
    usize,
    usize,
))
    requires
        ps@.len() == width * height,
        0 < width,
        0 < height,
        width + height <= usize::MAX,
    ensures
        r.0@ == mark_short_spec(ps@, threshold),
        r.1 == cnt_pred(ps@, short_bad_pred(threshold), ps@.len() as int),
        r.2 == cnt_pred(ps@, short_not_in_bad_diag_pred(ps@, width as int, threshold), ps@.len() as int),
        r.3 == cnt_bad_diags(ps@, width as int, threshold, width as int + height as int),
        r.4 == count_adjacent_spec(diag_flags_spec(ps@, width as int, height as int, threshold)),
{
    let total_pix = ps.len();
    let ghost w = width as int;
    let ghost h = height as int;
    let n_diags = width + height;

    let mut sdstats: Vec<crate::pixel::ShortDiagonalStats> = Vec::with_capacity(n_diags);
    let mut d0: usize = 0;
    while d0 < n_diags
        invariant
            d0 <= n_diags,
            sdstats@.len() == d0,
            forall|d: int|
                0 <= d < d0 ==> #[trigger] sdstats@[d] == (crate::pixel::ShortDiagonalStats {
                    number_of_pixels_measured: 0,
                    number_of_bad_shorts: 0,
                }),
        decreases n_diags - d0,
    {
        sdstats.push(
            crate::pixel::ShortDiagonalStats {
                number_of_pixels_measured: 0,
                number_of_bad_shorts: 0,
            },
        );
        d0 = d0 + 1;
    }

    let mut count: u64 = 0;
    let mut marked_pixels: Vec<Pixel> = Vec::with_capacity(total_pix);
    let mut idx: usize = 0;
    while idx < total_pix
        invariant
            idx <= total_pix,
            total_pix == ps@.len(),
            ps@.len() == w * h,
            w == width as int,
            h == height as int,
            0 < width,
            0 < height,
            n_diags == width + height,
            width + height <= usize::MAX,
            sdstats@.len() == n_diags,
            marked_pixels@.len() == idx,
            forall|j: int| 0 <= j < idx ==> marked_pixels@[j] == short_pixel_spec(ps@[j], threshold),
            count == cnt_pred(ps@, short_bad_pred(threshold), idx as int),
            count <= idx,
            forall|d: int|
                0 <= d < n_diags ==> #[trigger] sdstats@[d].number_of_pixels_measured == cnt_pred(
                    ps@,
                    diag_measured_pred(w, d),
                    idx as int,
                ),
            forall|d: int|
                0 <= d < n_diags ==> #[trigger] sdstats@[d].number_of_bad_shorts == cnt_pred(
                    ps@,
                    diag_short_pred(w, d, threshold),
                    idx as int,
                ),
            forall|d: int| 0 <= d < n_diags ==> #[trigger] sdstats@[d].number_of_pixels_measured <= idx,
            forall|d: int| 0 <= d < n_diags ==> #[trigger] sdstats@[d].number_of_bad_shorts <= idx,
        decreases total_pix - idx,
    {
        let col = idx % width;
        let row = idx / width;
        proof {
            assert((row as int) < h) by (nonlinear_arith)
                requires
                    (idx as int) < w * h,
                    0 < w,
                    row as int == idx as int / w,
            ;
            assert(diag_of(w, idx as int) == row + col);
        }
        let d = row + col;
        let p = ps[idx];
        let mark = if p.valid == BadType::Unknown {
            let cur = sdstats[d];
            let below = f32_lt_bits(p.value, threshold);
            if below {
                count = count + 1;
                sdstats.set(
                    d,
                    crate::pixel::ShortDiagonalStats {
                        number_of_pixels_measured: cur.number_of_pixels_measured + 1,
                        number_of_bad_shorts: cur.number_of_bad_shorts + 1,
                    },
                );
                Pixel { value: p.value, valid: BadType::ShortBad }
            } else {
                sdstats.set(
                    d,
                    crate::pixel::ShortDiagonalStats {
                        number_of_pixels_measured: cur.number_of_pixels_measured + 1,
                        number_of_bad_shorts: cur.number_of_bad_shorts,
                    },
                );
                p
            }
        } else {
            p
        };
        marked_pixels.push(mark);
        idx = idx + 1;
    }

    let ghost n = ps@.len() as int;
    let mut short_bad_diagonals: Vec<bool> = Vec::with_capacity(n_diags);
    let mut d1: usize = 0;
    while d1 < n_diags
        invariant
            d1 <= n_diags,
            w == width as int,
            h == height as int,
            n == ps@.len() as int,
            n_diags == width + height,
            sdstats@.len() == n_diags,
            forall|d: int|
                0 <= d < n_diags ==> #[trigger] sdstats@[d].number_of_pixels_measured == cnt_pred(
                    ps@,
                    diag_measured_pred(w, d),
                    n,
                ),
            forall|d: int|
                0 <= d < n_diags ==> #[trigger] sdstats@[d].number_of_bad_shorts == cnt_pred(
                    ps@,
                    diag_short_pred(w, d, threshold),
                    n,
                ),
            short_bad_diagonals@.len() == d1,
            forall|d: int|
                0 <= d < d1 ==> #[trigger] short_bad_diagonals@[d] == bad_diag_spec(
                    ps@,
                    w,
                    d,
                    threshold,
                ),
        decreases n_diags - d1,
    {
        let st = sdstats[d1];
        short_bad_diagonals.push(st.number_of_bad_shorts > st.number_of_pixels_measured / 2);
        d1 = d1 + 1;
    }
    proof {
        assert(short_bad_diagonals@ =~= diag_flags_spec(ps@, w, h, threshold));
    }

    let mut number_of_bad_diagonals: usize = 0;
    let mut d2: usize = 0;
    while d2 < n_diags
        invariant
            d2 <= n_diags,
            w == width as int,
            n_diags == width + height,
            short_bad_diagonals@.len() == n_diags,
            forall|d: int|
                0 <= d < n_diags ==> #[trigger] short_bad_diagonals@[d] == bad_diag_spec(
                    ps@,
                    w,
                    d,
                    threshold,
                ),
            number_of_bad_diagonals == cnt_bad_diags(ps@, w, threshold, d2 as int),
            number_of_bad_diagonals <= d2,
        decreases n_diags - d2,
    {
        if short_bad_diagonals[d2] {
            number_of_bad_diagonals = number_of_bad_diagonals + 1;
        }
        d2 = d2 + 1;
    }

    let mut number_of_short_bads_not_in_bad_diagonals: usize = 0;
    let mut i2: usize = 0;
    while i2 < total_pix
        invariant
            i2 <= total_pix,
            total_pix == ps@.len(),
            ps@.len() == w * h,
            w == width as int,
            h == height as int,
            0 < width,
            0 < height,
            n_diags == width + height,
            short_bad_diagonals@.len() == n_diags,
            forall|d: int|
                0 <= d < n_diags ==> #[trigger] short_bad_diagonals@[d] == bad_diag_spec(
                    ps@,
                    w,
                    d,
                    threshold,
                ),
            number_of_short_bads_not_in_bad_diagonals == cnt_pred(
                ps@,
                short_not_in_bad_diag_pred(ps@, w, threshold),
                i2 as int,
            ),
            number_of_short_bads_not_in_bad_diagonals <= i2,
        decreases total_pix - i2,
    {
        let col = i2 % width;
        let row = i2 / width;
        proof {
            assert((row as int) < h) by (nonlinear_arith)
                requires
                    (i2 as int) < w * h,
                    0 < w,
                    row as int == i2 as int / w,
            ;
            assert(diag_of(w, i2 as int) == row + col);
        }
        let p = ps[i2];
        if p.valid == BadType::Unknown && f32_lt_bits(p.value, threshold)
            && !short_bad_diagonals[row + col] {
            number_of_short_bads_not_in_bad_diagonals = number_of_short_bads_not_in_bad_diagonals
                + 1;
        }
        i2 = i2 + 1;
    }

    let number_of_adjacent_bad_diagonals = count_adjacent_bad_diagonals(&short_bad_diagonals);
    proof {
        assert(marked_pixels@ =~= mark_short_spec(ps@, threshold));
    }
    (
        marked_pixels,
        count,
        number_of_short_bads_not_in_bad_diagonals,
        number_of_bad_diagonals,
        number_of_adjacent_bad_diagonals,
    )
}


/// Counts the mask pixels still tagged `Unknown` — the pixels whose
/// short-test values feed the median.
pub fn count_unknown_tags(ms: &Vec<Pixel>) -> (r: usize)
    ensures
        r == cnt_pred(ms@, unknown_tag_pred(), ms@.len() as int),
{
    let mut count: usize = 0;
    let mut i: usize = 0;
    while i < ms.len()
        invariant
            i <= ms@.len(),
            count == cnt_pred(ms@, unknown_tag_pred(), i as int),
            count <= i,
        decreases ms@.len() - i,
    {
        if ms[i].valid == BadType::Unknown {
            count = count + 1;
        }
        i = i + 1;
    }
    count
}

/// The bytes of the token naming the first open-test file.
pub open spec fn tok_c1717() -> Seq<u8> {
    seq![67u8, 49u8, 55u8, 49u8, 55u8]
}

/// The bytes of the token naming the second open-test file.
pub open spec fn tok_c2525() -> Seq<u8> {
    seq![67u8, 50u8, 53u8, 50u8, 53u8]
}

/// The bytes of the token naming the first short-test file.
pub open spec fn tok_c1725() -> Seq<u8> {
    seq![67u8, 49u8, 55u8, 50u8, 53u8]
}

/// The bytes of the token naming the second short-test file.
pub open spec fn tok_c2517() -> Seq<u8> {
    seq![67u8, 50u8, 53u8, 49u8, 55u8]
}

/// The open-test difference image of a file set: the absolute difference
/// of the first two files whose names hold the open-test tokens.
pub open spec fn open_diff_of(fs: Seq<crate::fileset::NamedFile>) -> Seq<Pixel> {
    let p = crate::fileset::first_two_of(fs, tok_c1717(), tok_c2525());
    crate::file::diff_images_spec(fs[p.0].data@, fs[p.1].data@)
}

/// The open-test image after the edge-ignore masker.
pub open spec fn open_ignored_of(fs: Seq<crate::fileset::NamedFile>, m: int) -> Seq<Pixel> {
    mark_ignored_spec(open_diff_of(fs), m, WIDTH as int, HEIGHT as int)
}

/// The open-test image after the open-defect thresholder.
pub open spec fn open_marked_of(
    fs: Seq<crate::fileset::NamedFile>,
    open_threshold: u32,
    m: int,
) -> Seq<Pixel> {
    mark_open_spec(open_ignored_of(fs, m), open_threshold)
}

/// The mask for the short test: the open-test image after the majority
/// masker.
pub open spec fn open_mask_of(
    fs: Seq<crate::fileset::NamedFile>,
    open_threshold: u32,
    m: int,
) -> Seq<Pixel> {
    pixels_to_mask_spec(open_marked_of(fs, open_threshold, m), WIDTH as int, HEIGHT as int)
}

/// The count of pixels the mask leaves unsettled (in no bad line, not
/// dead, not ignored); the short test runs only when it is positive.
pub open spec fn num_unknown_of(
    fs: Seq<crate::fileset::NamedFile>,
    open_threshold: u32,
    m: int,
) -> int {
    let marked = open_marked_of(fs, open_threshold, m);
    cnt_pred(
        marked,
        unknown_after_mask_pred(marked, WIDTH as int, HEIGHT as int),
        marked.len() as int,
    )
}

/// The short-test difference image of a file set.
pub open spec fn short_diff_of(fs: Seq<crate::fileset::NamedFile>) -> Seq<Pixel> {
    let p = crate::fileset::first_two_of(fs, tok_c1725(), tok_c2517());
    crate::file::diff_images_spec(fs[p.0].data@, fs[p.1].data@)
}

/// The derived short-test threshold: the ratio times the median of the
/// short-difference values at still-`Unknown` mask pixels.
pub open spec fn short_threshold_of(
    fs: Seq<crate::fileset::NamedFile>,
    open_threshold: u32,
    short_threshold: u32,
    m: int,
) -> u32 {
    f32_mul(short_threshold, median_spec(open_mask_of(fs, open_threshold, m), short_diff_of(fs)))
}

/// The short-test image after the mask is transplanted onto it.
pub open spec fn short_masked_of(
    fs: Seq<crate::fileset::NamedFile>,
    open_threshold: u32,
    m: int,
) -> Seq<Pixel> {
    apply_mask_spec(open_mask_of(fs, open_threshold, m), short_diff_of(fs))
}

/// When the whole analysis of a file set succeeds: the open pair is
/// found and decodes, and — whenever any pixels are left unsettled for
/// the short test — the short pair is found and decodes and at least two
/// mask pixels are still `Unknown`, so that a median exists.
pub open spec fn to_diff_pair_ok_spec(
    fs: Seq<crate::fileset::NamedFile>,
    open_threshold: u32,
    m: int,
) -> bool {
    &&& crate::fileset::cnt_matches(fs, tok_c1717(), tok_c2525(), fs.len() as int) >= 2
    &&& ({
        let p = crate::fileset::first_two_of(fs, tok_c1717(), tok_c2525());
        crate::file::idp_decodable(fs[p.0].data@) && crate::file::idp_decodable(fs[p.1].data@)
    })
    &&& (num_unknown_of(fs, open_threshold, m) > 0 ==> {
        &&& crate::fileset::cnt_matches(fs, tok_c1725(), tok_c2517(), fs.len() as int) >= 2
        &&& ({
            let p = crate::fileset::first_two_of(fs, tok_c1725(), tok_c2517());
            crate::file::idp_decodable(fs[p.0].data@) && crate::file::idp_decodable(
                fs[p.1].data@,
            )
        })
        &&& cnt_pred(
            open_mask_of(fs, open_threshold, m),
            unknown_tag_pred(),
            open_mask_of(fs, open_threshold, m).len() as int,
        ) >= 2
    })
}

/// Analyses one file set: selects the open-test pair by name, diffs it,
/// masks the edges, thresholds open defects, promotes bad rows and
/// columns; then — if any pixels are left — selects the short-test pair,
/// derives the short threshold from the median, transplants the mask and
/// analyses short defects and diagonals.  Returns the open and short
/// difference images and the summary statistics.  Any missing pair,
/// undecodable file, or unsettled-pixel count too small for a median is a
/// format error, fatal for this file set only.
pub fn to_diff_pair(
    file_set: &Vec<crate::fileset::NamedFile>,
    open_threshold: u32,
    short_threshold: u32,
    ignore_edges: usize,
) -> (res: ImageResult<(Vec<Pixel>, Vec<Pixel>, crate::pixel::BondingStats)>)
    requires
        ignore_edges <= HEIGHT,
    ensures
        res is Ok <==> to_diff_pair_ok_spec(file_set@, open_threshold, ignore_edges as int),
        res matches Err(e) ==> e is FormatError,
        res matches Ok(out) ==> {
            let fs = file_set@;
            let m = ignore_edges as int;
            let marked = open_marked_of(fs, open_threshold, m);
            let n = marked.len() as int;
            &&& out.0@ == open_diff_of(fs)
            &&& out.2.bad_opens == count_open_spec(open_ignored_of(fs, m), open_threshold)
            &&& out.2.number_of_bad_columns == cnt_bad_cols(
                marked,
                WIDTH as int,
                HEIGHT as int,
                WIDTH as int,
            )
            &&& out.2.number_of_bad_rows == cnt_bad_rows(
                marked,
                WIDTH as int,
                HEIGHT as int,
                HEIGHT as int,
            )
            &&& out.2.number_of_pixels_measured == n - cnt_pred(marked, ignored_pred(), n)
                - cnt_pred(marked, dead_pred(), n)
            &&& out.2.number_of_open_bads_in_bad_cols == cnt_pred(
                marked,
                open_in_bad_col_pred(marked, WIDTH as int, HEIGHT as int),
                n,
            )
            &&& out.2.number_of_open_bads_in_bad_rows == cnt_pred(
                marked,
                open_in_bad_row_pred(marked, WIDTH as int, HEIGHT as int),
                n,
            )
            &&& (num_unknown_of(fs, open_threshold, m) == 0 ==> {
                &&& out.1@ == Seq::<Pixel>::empty()
                &&& out.2.bad_shorts == 0
                &&& out.2.threshold_for_shorts == 0
                &&& out.2.number_of_short_bads_not_in_bad_diagonals == 0
                &&& out.2.number_of_bad_diagonals == 0
                &&& out.2.number_of_adjacent_bad_diagonals == 0
            })
            &&& (num_unknown_of(fs, open_threshold, m) > 0 ==> {
                let thr = short_threshold_of(fs, open_threshold, short_threshold, m);
                let masked = short_masked_of(fs, open_threshold, m);
                let nn = masked.len() as int;
                &&& out.1@ == short_diff_of(fs)
                &&& out.2.threshold_for_shorts == thr
                &&& out.2.bad_shorts == cnt_pred(masked, short_bad_pred(thr), nn)
                &&& out.2.number_of_short_bads_not_in_bad_diagonals == cnt_pred(
                    masked,
                    short_not_in_bad_diag_pred(masked, WIDTH as int, thr),
                    nn,
                )
                &&& out.2.number_of_bad_diagonals == cnt_bad_diags(
                    masked,
                    WIDTH as int,
                    thr,
                    WIDTH as int + HEIGHT as int,
                )
                &&& out.2.number_of_adjacent_bad_diagonals == count_adjacent_spec(
                    diag_flags_spec(masked, WIDTH as int, HEIGHT as int, thr),
                )
            })
        },
{
    let ghost fs = file_set@;
    let ghost m = ignore_edges as int;
    let tok_a: Vec<u8> = vec![67u8, 49u8, 55u8, 49u8, 55u8];
    let tok_b: Vec<u8> = vec![67u8, 50u8, 53u8, 50u8, 53u8];
    proof {
        assert(tok_a@ =~= tok_c1717());
        assert(tok_b@ =~= tok_c2525());
    }
    let open_sel = crate::fileset::select_pair(file_set, &tok_a, &tok_b);
    let (oi, oj) = match open_sel {
        Some(p) => p,
        None => {
            return Err(ImageError::FormatError("missing open-test pair".to_string()));
        },
    };
    proof {
        let ghost pw = (oi as int, oj as int);
        assert(crate::fileset::is_first_two(fs, tok_c1717(), tok_c2525(), pw.0, pw.1));
        let ghost pc = crate::fileset::first_two_of(fs, tok_c1717(), tok_c2525());
        assert(crate::fileset::is_first_two(fs, tok_c1717(), tok_c2525(), pc.0, pc.1));
        crate::fileset::lemma_first_two_unique(
            fs,
            tok_c1717(),
            tok_c2525(),
            pc.0,
            pc.1,
            pw.0,
            pw.1,
        );
    }
    let lhs = file_set[oi].data.clone();
    let rhs = file_set[oj].data.clone();
    proof {
        assert(lhs@ =~= fs[oi as int].data@);
        assert(rhs@ =~= fs[oj as int].data@);
    }
    let open_diff_pix = match crate::file::absolute_difference_of_IDP_Imges(lhs, rhs) {
        Ok(d) => d,
        Err(_) => {
            return Err(ImageError::FormatError("open abs diff failed".to_string()));
        },
    };
    proof {
        assert(open_diff_pix@ == open_diff_of(fs));
        assert(open_diff_pix@.len() == WIDTH * HEIGHT);
    }
    let ig_marked_pixels = mark_ignored_pixels(&open_diff_pix, ignore_edges, WIDTH, HEIGHT);
    let (marked_pixels, bad_opens) = mark_open_bads(open_threshold, &ig_marked_pixels);
    proof {
        assert(marked_pixels@ == open_marked_of(fs, open_threshold, m));
    }
    let (mask_for_shorts, number_of_bad_columns, number_of_bad_rows, num_total,
        number_of_open_bads_in_bad_cols, number_of_open_bads_in_bad_rows, num_unknown) =
        pixels_to_mask(&marked_pixels, WIDTH, HEIGHT);
    proof {
        assert(mask_for_shorts@ == open_mask_of(fs, open_threshold, m));
        assert(num_unknown == num_unknown_of(fs, open_threshold, m));
    }

    if num_unknown > 0 {
        let tok_c: Vec<u8> = vec![67u8, 49u8, 55u8, 50u8, 53u8];
        let tok_d: Vec<u8> = vec![67u8, 50u8, 53u8, 49u8, 55u8];
        proof {
            assert(tok_c@ =~= tok_c1725());
            assert(tok_d@ =~= tok_c2517());
        }
        let short_sel = crate::fileset::select_pair(file_set, &tok_c, &tok_d);
        let (si, sj) = match short_sel {
            Some(p) => p,
            None => {
                return Err(ImageError::FormatError("missing short-test pair".to_string()));
            },
        };
        proof {
            let ghost pw = (si as int, sj as int);
            assert(crate::fileset::is_first_two(fs, tok_c1725(), tok_c2517(), pw.0, pw.1));
            let ghost pc = crate::fileset::first_two_of(fs, tok_c1725(), tok_c2517());
            assert(crate::fileset::is_first_two(fs, tok_c1725(), tok_c2517(), pc.0, pc.1));
            crate::fileset::lemma_first_two_unique(
                fs,
                tok_c1725(),
                tok_c2517(),
                pc.0,
                pc.1,
                pw.0,
                pw.1,
            );
        }
        let slhs = file_set[si].data.clone();
        let srhs = file_set[sj].data.clone();
        proof {
            assert(slhs@ =~= fs[si as int].data@);
            assert(srhs@ =~= fs[sj as int].data@);
        }
        let short_diff_pix = match crate::file::absolute_difference_of_IDP_Imges(slhs, srhs) {
            Ok(d) => d,
            Err(_) => {
                return Err(ImageError::FormatError("short abs diff failed".to_string()));
            },
        };
        proof {
            assert(short_diff_pix@ == short_diff_of(fs));
            assert(short_diff_pix@.len() == WIDTH * HEIGHT);
        }
        let n_unmasked = count_unknown_tags(&mask_for_shorts);
        if n_unmasked < 2 {
            return Err(
                ImageError::FormatError("too few unmasked pixels for a median".to_string()),
            );
        }
        let median = median_of_unmasked_pixel_values(&mask_for_shorts, &short_diff_pix);
        let threshold_for_shorts = crate::floatbits::f32_mul_bits(short_threshold, median);
        let masked_short_diff_pix = match apply_mask(&mask_for_shorts, &short_diff_pix) {
            Ok(v) => v,
            Err(_) => {
                return Err(ImageError::FormatError("unable to apply open mask".to_string()));
            },
        };
        proof {
            assert(masked_short_diff_pix@ == short_masked_of(fs, open_threshold, m));
        }
        let (_marked_short_pixels, num_bad_shorts, number_of_short_bads_not_in_bad_diagonals,
            number_of_bad_diagonals, number_of_adjacent_bad_diagonals) = mark_short_bads(
            threshold_for_shorts,
            &masked_short_diff_pix,
            WIDTH,
            HEIGHT,
        );
        let stats = crate::pixel::BondingStats {
            bad_opens,
            number_of_bad_columns,
            number_of_bad_rows,
            bad_shorts: num_bad_shorts,
            threshold_for_shorts,
            number_of_pixels_measured: num_total,
            number_of_open_bads_in_bad_cols,
            number_of_open_bads_in_bad_rows,
            number_of_short_bads_not_in_bad_diagonals,
            number_of_bad_diagonals,
            number_of_adjacent_bad_diagonals,
        };
        Ok((open_diff_pix, short_diff_pix, stats))
    } else {
        let stats = crate::pixel::BondingStats {
            bad_opens,
            number_of_bad_columns,
            number_of_bad_rows,
            bad_shorts: 0,
            threshold_for_shorts: 0,
            number_of_pixels_measured: num_total,
            number_of_open_bads_in_bad_cols,
            number_of_open_bads_in_bad_rows,
            number_of_short_bads_not_in_bad_diagonals: 0,
            number_of_bad_diagonals: 0,
            number_of_adjacent_bad_diagonals: 0,
        };
        Ok((open_diff_pix, Vec::new(), stats))
    }
}

} // verus!
