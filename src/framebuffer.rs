//! Layout of the rendered image: RGB8 bytes, row-major, top row first.

use vstd::prelude::*;

verus! {

/// Bytes of one RGB8 row of `width` pixels.
pub open spec fn row_bytes(width: int) -> int {
    3 * width
}

/// Position in the image buffer of byte `b` of row `j`, where rows are
/// numbered from the bottom of an image `height` rows high.
pub open spec fn byte_offset(width: int, height: int, j: int, b: int) -> int {
    (height - 1 - j) * row_bytes(width) + b
}

proof fn lemma_offset_in_range(w: int, n: int, k: int, b: int)
    requires
        0 <= k < n,
        0 <= b < 3 * w,
    ensures
        0 <= k * (3 * w) + b < n * (3 * w),
        k * (3 * w) + b >= 0,
{
    assert(k * (3 * w) + b < n * (3 * w)) by (nonlinear_arith)
        requires
            0 <= k < n,
            0 <= b < 3 * w,
    ;
    assert(k * (3 * w) >= 0) by (nonlinear_arith)
        requires
            0 <= k,
            0 <= w,
    ;
}

/// Joins the rows of an image, given bottom row first as a renderer numbers
/// them, into one buffer that holds the top row first.
pub fn assemble_rows(rows: &Vec<Vec<u8>>, width: usize) -> (r: Vec<u8>)
    requires
        rows@.len() * row_bytes(width as int) <= usize::MAX,
        forall|j: int| 0 <= j < rows@.len() ==> (#[trigger] rows@[j])@.len() == row_bytes(
            width as int,
        ),
    ensures
        r@.len() == rows@.len() * row_bytes(width as int),
        forall|j: int, b: int|
            0 <= j < rows@.len() && 0 <= b < row_bytes(width as int) ==> r@[byte_offset(
                width as int,
                rows@.len() as int,
                j,
                b,
            )] == #[trigger] rows@[j]@[b],
{
    let ghost w = width as int;
    let ghost h = rows@.len() as int;
    let mut out: Vec<u8> = Vec::new();
    let mut k: usize = 0;
    while k < rows.len()
        invariant
            k <= h,
            h == rows@.len(),
            h * (3 * w) <= usize::MAX,
            forall|j: int| 0 <= j < h ==> (#[trigger] rows@[j])@.len() == 3 * w,
            out@.len() == k * (3 * w),
            forall|m: int, b: int|
                0 <= m < k && 0 <= b < 3 * w ==> out@[m * (3 * w) + b] == #[trigger] rows@[h
                    - 1 - m]@[b],
        decreases h - k,
    {
        let row = &rows[rows.len() - 1 - k];
        proof {
            assert((k + 1) * (3 * w) <= h * (3 * w)) by (nonlinear_arith)
                requires
                    k + 1 <= h,
                    0 <= w,
            ;
            assert((k + 1) * (3 * w) == k * (3 * w) + 3 * w) by (nonlinear_arith);
        }
        let ghost before = out@;
        let mut b: usize = 0;
        while b < row.len()
            invariant
                b <= row@.len(),
                row@.len() == 3 * w,
                row == rows@[h - 1 - k],
                k < h,
                k * (3 * w) + 3 * w <= usize::MAX,
                out@.len() == k * (3 * w) + b,
                forall|i: int| 0 <= i < k * (3 * w) ==> out@[i] == before[i],
                forall|c: int| 0 <= c < b ==> out@[k * (3 * w) + c] == #[trigger] row@[c],
            decreases row@.len() - b,
        {
            out.push(row[b]);
            b += 1;
        }
        proof {
            assert forall|m: int, c: int|
                0 <= m < k + 1 && 0 <= c < 3 * w implies out@[m * (3 * w) + c]
                == #[trigger] rows@[h - 1 - m]@[c] by {
                if m < k {
                    lemma_offset_in_range(w, k as int, m, c);
                }
            }
        }
        k += 1;
    }
    proof {
        assert forall|j: int, b: int| 0 <= j < h && 0 <= b < 3 * w implies out@[byte_offset(
            w,
            h,
            j,
            b,
        )] == #[trigger] rows@[j]@[b] by {
            assert(h - 1 - (h - 1 - j) == j);
        }
    }
    out
}

} // verus!
