use vstd::prelude::*;

verus! {

/// Length of one side of the image traced before filtering: the requested
/// length times the oversampling factor, widened by the `kernel_len - 1`
/// samples that a filter of `kernel_len` taps consumes.
pub open spec fn oversampled_len(extent: int, factor: int, kernel_len: int) -> int {
    extent * factor + (kernel_len - 1)
}

/// Length of one side after filtering with `kernel_len` taps and keeping one
/// sample in `decimation`.
pub open spec fn convolved_len(input: int, kernel_len: int, decimation: int) -> int {
    (input - (kernel_len - 1)) / decimation
}

/// The oversampled length of one side, or `None` where it does not fit in a
/// `usize`.
pub fn oversampled_extent(extent: usize, factor: usize, kernel_len: usize) -> (r: Option<usize>)
    requires
        kernel_len >= 1,
    ensures
        r == (if oversampled_len(extent as int, factor as int, kernel_len as int) <= usize::MAX {
            Some(oversampled_len(extent as int, factor as int, kernel_len as int) as usize)
        } else {
            None
        }),
{
    match extent.checked_mul(factor) {
        Some(scaled) => scaled.checked_add(kernel_len - 1),
        None => {
            assert(extent * factor + (kernel_len - 1) >= extent * factor) by (nonlinear_arith)
                requires kernel_len >= 1;
            None
        },
    }
}

/// The length of one side of a filtered image: each output sample takes a
/// full window of `kernel_len` input samples, windows start `decimation`
/// samples apart.
pub fn convolved_extent(input: usize, kernel_len: usize, decimation: usize) -> (r: usize)
    requires
        kernel_len >= 1,
        decimation >= 1,
        input + 1 >= kernel_len,
    ensures
        r == convolved_len(input as int, kernel_len as int, decimation as int),
{
    (input - (kernel_len - 1)) / decimation
}

/// The input samples `[start, end)` under the filter for output sample
/// `out_index`; the window lies wholly inside the input.
pub fn filter_window(out_index: usize, input: usize, kernel_len: usize, decimation: usize) -> (r: (
    usize,
    usize,
))
    requires
        kernel_len >= 1,
        decimation >= 1,
        input + 1 >= kernel_len,
        out_index < convolved_len(input as int, kernel_len as int, decimation as int),
    ensures
        r.0 == out_index * decimation,
        r.1 == r.0 + kernel_len,
        r.1 <= input,
{
    proof {
        lemma_window_inside(out_index as int, input as int, kernel_len as int, decimation as int);
    }
    let start = out_index * decimation;
    (start, start + kernel_len)
}

/// `sample` is what `weigh` returned for a window holding `window`.
pub open spec fn weighed<T, F: Fn(&[T]) -> T>(weigh: F, window: Seq<T>, sample: T) -> bool {
    exists|w: &[T]| w@ == window && #[trigger] weigh.ensures((w,), sample)
}

/// One pass of the separable reconstruction filter over a row: output
/// sample `y` is what `weigh` makes of the window of `kernel_len` input
/// samples that starts at `y * decimation`.
pub fn convolve_row<T, F: Fn(&[T]) -> T>(row: &[T], kernel_len: usize, decimation: usize, weigh: F) -> (r: Vec<T>)
    requires
        kernel_len >= 1,
        decimation >= 1,
        row@.len() + 1 >= kernel_len,
        forall|w: &[T]| w@.len() == kernel_len ==> #[trigger] weigh.requires((w,)),
    ensures
        r@.len() == convolved_len(row@.len() as int, kernel_len as int, decimation as int),
        forall|y: int|
            0 <= y < r@.len() ==> #[trigger] weighed(
                weigh,
                row@.subrange(y * decimation, y * decimation + kernel_len),
                r@[y],
            ),
{
    let n = convolved_extent(row.len(), kernel_len, decimation);
    let mut out: Vec<T> = Vec::with_capacity(n);
    let mut y: usize = 0;
    while y < n
        invariant
            y <= n,
            n == convolved_len(row@.len() as int, kernel_len as int, decimation as int),
            kernel_len >= 1,
            decimation >= 1,
            row@.len() + 1 >= kernel_len,
            forall|w: &[T]| w@.len() == kernel_len ==> #[trigger] weigh.requires((w,)),
            out@.len() == y,
            forall|j: int|
                0 <= j < y ==> #[trigger] weighed(
                    weigh,
                    row@.subrange(j * decimation, j * decimation + kernel_len),
                    out@[j],
                ),
        decreases n - y,
    {
        let (start, end) = filter_window(y, row.len(), kernel_len, decimation);
        let window = &row[start..end];
        let sample = weigh(window);
        let ghost before = out@;
        out.push(sample);
        assert(forall|j: int| 0 <= j < y ==> out@[j] == before[j]);
        y += 1;
    }
    out
}

proof fn lemma_window_inside(out_index: int, input: int, kernel_len: int, decimation: int)
    requires
        0 <= out_index,
        kernel_len >= 1,
        decimation >= 1,
        input + 1 >= kernel_len,
        out_index < convolved_len(input, kernel_len, decimation),
    ensures
        0 <= out_index * decimation,
        out_index * decimation + kernel_len <= input,
{
    let m = input - (kernel_len - 1);
    assert((out_index + 1) * decimation <= m) by (nonlinear_arith)
        requires
            0 <= out_index,
            decimation >= 1,
            m >= 0,
            out_index < m / decimation,
    {
        assert(m / decimation * decimation <= m) by (nonlinear_arith)
            requires decimation >= 1, m >= 0;
        assert((out_index + 1) * decimation <= m / decimation * decimation) by (nonlinear_arith)
            requires out_index + 1 <= m / decimation, decimation >= 1;
    }
    assert((out_index + 1) * decimation == out_index * decimation + decimation) by (nonlinear_arith);
    assert(0 <= out_index * decimation) by (nonlinear_arith)
        requires 0 <= out_index, decimation >= 1;
}

/// Filtering an oversampled side of length `extent * factor + kernel_len - 1`
/// with a `kernel_len`-tap filter, keeping one sample in `factor`, gives back
/// exactly `extent` samples.
pub proof fn lemma_oversampling_round_trip(extent: nat, factor: nat, kernel_len: nat)
    requires
        factor >= 1,
        kernel_len >= 1,
    ensures
        convolved_len(oversampled_len(extent as int, factor as int, kernel_len as int), kernel_len as int, factor as int)
            == extent,
{
    assert((extent as int * factor as int) / (factor as int) == extent as int) by (nonlinear_arith)
        requires factor >= 1;
}

} // verus!
