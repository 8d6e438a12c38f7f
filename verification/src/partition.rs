//! Splitting the particle buffer into near-equal contiguous index ranges,
//! one per active worker: the ranges tile `[0, len)` exactly, with no
//! overlaps and no gaps, so each particle belongs to exactly one job.

use vstd::prelude::*;

use crate::math::lemma_mul_bound;

verus! {

/// The ceiling of `len / workers`: the chunk each worker is given.
pub open spec fn chunk_size_spec(len: int, workers: int) -> int
    recommends
        workers >= 1,
{
    (len + workers - 1) / workers
}

/// Where worker `i`'s range starts, clamped into the buffer.
pub open spec fn range_begin_spec(len: int, workers: int, i: int) -> int {
    let c = chunk_size_spec(len, workers);
    if i * c < len {
        i * c
    } else {
        len
    }
}

/// Where worker `i`'s range ends (exclusive), clamped into the buffer.
pub open spec fn range_end_spec(len: int, workers: int, i: int) -> int {
    range_begin_spec(len, workers, i + 1)
}

/// Enough chunks of the ceiling size cover the whole buffer.
pub proof fn lemma_chunks_cover(len: int, workers: int)
    requires
        workers >= 1,
        len >= 0,
    ensures
        workers * chunk_size_spec(len, workers) >= len,
        chunk_size_spec(len, workers) >= 0,
        len >= 1 ==> chunk_size_spec(len, workers) >= 1,
{
    let c = chunk_size_spec(len, workers);
    vstd::arithmetic::div_mod::lemma_fundamental_div_mod(len + workers - 1, workers);
    vstd::arithmetic::div_mod::lemma_mod_bound(len + workers - 1, workers);
    vstd::arithmetic::div_mod::lemma_div_pos_is_pos(len + workers - 1, workers);
    if len >= 1 {
        vstd::arithmetic::div_mod::lemma_div_is_ordered(workers, len + workers - 1, workers);
        vstd::arithmetic::div_mod::lemma_div_by_self(workers);
    }
}

/// The ranges tile the buffer: the first starts at zero, each starts where
/// the one before it ends, and the last ends at the buffer's length.
pub proof fn lemma_partition_tiles(len: int, workers: int)
    requires
        workers >= 1,
        len >= 0,
    ensures
        range_begin_spec(len, workers, 0) == 0,
        forall|i: int|
            0 <= i < workers ==> #[trigger] range_begin_spec(len, workers, i)
                <= range_end_spec(len, workers, i),
        range_end_spec(len, workers, workers - 1) == len,
{
    let c = chunk_size_spec(len, workers);
    lemma_chunks_cover(len, workers);
    assert forall|i: int| 0 <= i < workers implies #[trigger] range_begin_spec(len, workers, i)
        <= range_end_spec(len, workers, i) by {
        assert(i * c <= (i + 1) * c) by (nonlinear_arith)
            requires
                c >= 0,
        ;
    }
    assert(workers * c >= len);
    assert(range_end_spec(len, workers, workers - 1) == len);
}

/// No particle is in two ranges: ranges of distinct workers are disjoint.
pub proof fn lemma_partition_disjoint(len: int, workers: int, i: int, j: int)
    requires
        workers >= 1,
        len >= 0,
        0 <= i < j < workers,
    ensures
        range_end_spec(len, workers, i) <= range_begin_spec(len, workers, j),
{
    let c = chunk_size_spec(len, workers);
    lemma_chunks_cover(len, workers);
    assert((i + 1) * c <= j * c) by (nonlinear_arith)
        requires
            c >= 0,
            i + 1 <= j,
    ;
}

/// No particle is missed: every index of the buffer lies in the range of
/// exactly one worker, namely the index divided by the chunk size.
pub proof fn lemma_partition_covers(len: int, workers: int, idx: int)
    requires
        workers >= 1,
        0 <= idx < len,
    ensures
        ({
            let c = chunk_size_spec(len, workers);
            let i = idx / c;
            &&& 0 <= i < workers
            &&& range_begin_spec(len, workers, i) <= idx < range_end_spec(len, workers, i)
        }),
{
    let c = chunk_size_spec(len, workers);
    lemma_chunks_cover(len, workers);
    vstd::arithmetic::div_mod::lemma_fundamental_div_mod(idx, c);
    vstd::arithmetic::div_mod::lemma_mod_bound(idx, c);
    vstd::arithmetic::div_mod::lemma_div_pos_is_pos(idx, c);
    let i = idx / c;
    assert(i * c <= idx < (i + 1) * c) by (nonlinear_arith)
        requires
            idx == c * i + idx % c,
            0 <= idx % c < c,
    ;
    assert(i < workers) by (nonlinear_arith)
        requires
            i * c <= idx,
            idx < len,
            len <= workers * c,
            c >= 1,
            i >= 0,
    ;
}

/// The executable ranges: one `(begin, end)` pair per worker.
pub fn chunk_ranges(len: usize, workers: usize) -> (r: Vec<(usize, usize)>)
    requires
        1 <= workers,
    ensures
        r@.len() == workers,
        forall|i: int|
            0 <= i < workers ==> (#[trigger] r@[i]).0 == range_begin_spec(
                len as int,
                workers as int,
                i,
            ) && r@[i].1 == range_end_spec(len as int, workers as int, i),
{
    let c: usize = if len % workers == 0 {
        len / workers
    } else {
        proof {
            // a remainder forces at least two workers, so the quotient
            // leaves room for the rounding increment
            vstd::arithmetic::div_mod::lemma_mod_bound(len as int, 1);
            assert(workers >= 2);
            vstd::arithmetic::div_mod::lemma_div_is_ordered_by_denominator(len as int, 2, workers as int);
            vstd::arithmetic::div_mod::lemma_div_is_ordered(len as int, usize::MAX as int, 2);
            vstd::arithmetic::div_mod::lemma_div_is_strictly_smaller(usize::MAX as int, 2);
        }
        len / workers + 1
    };
    proof {
        vstd::arithmetic::div_mod::lemma_fundamental_div_mod(len as int, workers as int);
        vstd::arithmetic::div_mod::lemma_mod_bound(len as int, workers as int);
        if len % workers == 0 {
            vstd::arithmetic::div_mod::lemma_div_multiples_vanish_fancy(
                len as int / workers as int,
                workers as int - 1,
                workers as int,
            );
            vstd::arithmetic::div_mod::lemma_basic_div(workers as int - 1, workers as int);
        } else {
            vstd::arithmetic::div_mod::lemma_div_multiples_vanish_fancy(
                len as int / workers as int + 1,
                len as int % workers as int - 1,
                workers as int,
            );
            assert((workers as int) * (len as int / workers as int + 1) == (workers as int) * (
            len as int / workers as int) + workers as int) by (nonlinear_arith);
        }
        assert(c == chunk_size_spec(len as int, workers as int));
        lemma_chunks_cover(len as int, workers as int);
    }
    let mut r: Vec<(usize, usize)> = Vec::new();
    let mut i: usize = 0;
    let mut begin: usize = 0;
    proof {
        assert((0int) * (c as int) == 0) by (nonlinear_arith);
    }
    while i < workers
        invariant
            0 <= i <= workers,
            c == chunk_size_spec(len as int, workers as int),
            workers >= 1,
            begin == range_begin_spec(len as int, workers as int, i as int),
            begin <= len,
            r@.len() == i,
            forall|k: int|
                0 <= k < i ==> (#[trigger] r@[k]).0 == range_begin_spec(
                    len as int,
                    workers as int,
                    k,
                ) && r@[k].1 == range_end_spec(len as int, workers as int, k),
        decreases workers - i,
    {
        proof {
            lemma_mul_bound(i as int, c as int, workers as int, c as int);
            assert((i as int) * (c as int) <= (workers as int) * (c as int)) by (nonlinear_arith)
                requires
                    0 <= i <= workers,
                    c >= 0,
            ;
            assert(((i as int) + 1) * (c as int) == (i as int) * (c as int) + c)
                by (nonlinear_arith);
        }
        let end: usize = if c > len - begin {
            len
        } else {
            begin + c
        };
        proof {
            assert(end == range_end_spec(len as int, workers as int, i as int)) by {
                let ii = i as int;
                let cc = c as int;
                let ll = len as int;
                assert((ii + 1) * cc == ii * cc + cc) by (nonlinear_arith);
                if begin < len {
                    assert(begin == ii * cc);
                } else {
                    assert(begin == ll);
                    assert(ii * cc >= ll);
                    assert((ii + 1) * cc >= ll) by (nonlinear_arith)
                        requires
                            ii * cc >= ll,
                            cc >= 0,
                            (ii + 1) * cc == ii * cc + cc,
                    ;
                }
            }
        }
        r.push((begin, end));
        begin = end;
        i = i + 1;
    }
    r
}

} // verus!
