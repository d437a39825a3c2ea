//! The decision content of the parallel reduction: splitting a workload of
//! `total` items into `parts` contiguous, disjoint, near-equal index ranges,
//! and rounding a chunk of values element by element. Each worker owns one
//! range, rounds its values, and accumulates its own partial sum of
//! differences; nothing here is shared between workers, and the laws below
//! show that chunked processing agrees with processing the whole.

use vstd::arithmetic::div_mod::lemma_div_pos_is_pos;
use vstd::arithmetic::div_mod::lemma_fundamental_div_mod;
use vstd::arithmetic::div_mod::lemma_mod_bound;
use vstd::prelude::*;

use crate::policy::RoundingMode;
use crate::policy::Value;

verus! {

/// The index where chunk `i` begins when `total` items are split into
/// `parts` near-equal chunks: every chunk gets `total / parts` items and the
/// first `total % parts` chunks take one extra. Chunk `i` is the half-open
/// index range from `chunk_lo(total, parts, i)` to
/// `chunk_lo(total, parts, i + 1)`.
pub open spec fn chunk_lo(total: int, parts: int, i: int) -> int {
    i * (total / parts) + (if i <= total % parts {
        i
    } else {
        total % parts
    })
}

/// Stepping from one chunk boundary to the next adds one chunk's size:
/// the base share, plus one while the remainder is still being spread.
pub proof fn lemma_chunk_lo_step(total: int, parts: int, i: int)
    requires
        0 <= total,
        1 <= parts,
        0 <= i,
    ensures
        chunk_lo(total, parts, i + 1) == chunk_lo(total, parts, i) + total / parts + (
        if i < total % parts {
            1int
        } else {
            0int
        }),
{
    let b = total / parts;
    assert((i + 1) * b == i * b + b) by (nonlinear_arith);
}

/// The chunk boundaries end exactly at the total: after the last chunk
/// nothing is left over and nothing is counted twice.
pub proof fn lemma_chunk_lo_total(total: int, parts: int)
    requires
        0 <= total,
        1 <= parts,
    ensures
        chunk_lo(total, parts, parts) == total,
{
    let b = total / parts;
    lemma_fundamental_div_mod(total, parts);
    lemma_mod_bound(total, parts);
    assert(parts * b == b * parts) by (nonlinear_arith);
}

/// Every chunk boundary lies within the workload: boundaries grow from zero
/// and never pass the total.
pub proof fn lemma_chunk_lo_bounds(total: int, parts: int, i: int)
    requires
        0 <= total,
        1 <= parts,
        0 <= i <= parts,
    ensures
        0 <= chunk_lo(total, parts, i) <= total,
    decreases parts - i,
{
    lemma_div_pos_is_pos(total, parts);
    lemma_mod_bound(total, parts);
    assert(i * (total / parts) >= 0) by (nonlinear_arith)
        requires
            0 <= i,
            0 <= total / parts,
    ;
    if i == parts {
        lemma_chunk_lo_total(total, parts);
    } else {
        lemma_chunk_lo_step(total, parts, i);
        lemma_chunk_lo_bounds(total, parts, i + 1);
    }
}

/// The chunks tile the workload: the first begins at zero, each ends where
/// the next begins, the last ends at the total, and chunk sizes differ by at
/// most one, the first `total % parts` chunks taking the extra item.
pub proof fn lemma_chunks_tile(total: int, parts: int)
    requires
        0 <= total,
        1 <= parts,
    ensures
        chunk_lo(total, parts, 0) == 0,
        chunk_lo(total, parts, parts) == total,
        forall|i: int|
            0 <= i < parts ==> #[trigger] chunk_lo(total, parts, i + 1) == chunk_lo(
                total,
                parts,
                i,
            ) + total / parts + (if i < total % parts {
                1int
            } else {
                0int
            }),
{
    lemma_chunk_lo_total(total, parts);
    assert forall|i: int| 0 <= i < parts implies #[trigger] chunk_lo(total, parts, i + 1)
        == chunk_lo(total, parts, i) + total / parts + (if i < total % parts {
        1int
    } else {
        0int
    }) by {
        lemma_chunk_lo_step(total, parts, i);
    }
}

/// The half-open index ranges of all `parts` chunks, in order. Workers take
/// one range each and process disjoint slices of the workload.
pub fn partition_bounds(total: usize, parts: usize) -> (bounds: Vec<(usize, usize)>)
    requires
        1 <= parts,
    ensures
        bounds@.len() == parts,
        forall|i: int|
            0 <= i < parts ==> (#[trigger] bounds@[i]).0 == chunk_lo(
                total as int,
                parts as int,
                i,
            ) && bounds@[i].1 == chunk_lo(total as int, parts as int, i + 1),
{
    let base: usize = total / parts;
    let rem: usize = total % parts;
    let mut bounds: Vec<(usize, usize)> = Vec::new();
    let mut lo: usize = 0;
    let mut i: usize = 0;
    while i < parts
        invariant
            1 <= parts,
            i <= parts,
            base == total as int / parts as int,
            rem == total as int % parts as int,
            lo == chunk_lo(total as int, parts as int, i as int),
            lo <= total,
            bounds@.len() == i,
            forall|j: int|
                0 <= j < i ==> (#[trigger] bounds@[j]).0 == chunk_lo(
                    total as int,
                    parts as int,
                    j,
                ) && bounds@[j].1 == chunk_lo(total as int, parts as int, j + 1),
        decreases parts - i,
    {
        proof {
            lemma_chunk_lo_step(total as int, parts as int, i as int);
            lemma_chunk_lo_bounds(total as int, parts as int, i as int + 1);
        }
        let extra: usize = if i < rem {
            1
        } else {
            0
        };
        let hi: usize = lo + base + extra;
        bounds.push((lo, hi));
        lo = hi;
        i = i + 1;
    }
    bounds
}

/// Element-wise rounding of a whole sequence under one rule.
pub open spec fn round_seq(s: Seq<Value>, mode: RoundingMode) -> Seq<Value> {
    s.map(|i: int, v: Value| v.round_spec(mode))
}

/// Every value of the sequence is a faithful abstraction of a finite double.
pub open spec fn all_wf(s: Seq<Value>) -> bool {
    forall|i: int| 0 <= i < s.len() ==> (#[trigger] s[i]).wf()
}

/// A worker's pass over its chunk: round every value under the one rule the
/// reduction was given.
pub fn round_all(values: &Vec<Value>, mode: RoundingMode) -> (r: Vec<Value>)
    requires
        all_wf(values@),
    ensures
        r@ == round_seq(values@, mode),
{
    let mut r: Vec<Value> = Vec::new();
    let mut i: usize = 0;
    while i < values.len()
        invariant
            all_wf(values@),
            i <= values@.len(),
            r@.len() == i,
            forall|j: int| 0 <= j < i ==> r@[j] == values@[j].round_spec(mode),
        decreases values@.len() - i,
    {
        let v = values[i].round(mode);
        r.push(v);
        i = i + 1;
    }
    proof {
        assert(r@ =~= round_seq(values@, mode));
    }
    r
}

/// Splitting the workload does not change what is computed: rounding two
/// adjacent chunks and joining the results equals rounding the joined whole,
/// wherever the boundary falls.
pub proof fn lemma_round_seq_concat(a: Seq<Value>, b: Seq<Value>, mode: RoundingMode)
    ensures
        round_seq(a + b, mode) == round_seq(a, mode) + round_seq(b, mode),
{
    assert(round_seq(a + b, mode) =~= round_seq(a, mode) + round_seq(b, mode));
}

/// A worker that owns the index range `[lo, hi)` computes exactly that slice
/// of the full result: rounding a chunk gives the matching chunk of the
/// rounded whole.
pub proof fn lemma_round_seq_chunk(s: Seq<Value>, mode: RoundingMode, lo: int, hi: int)
    requires
        0 <= lo <= hi <= s.len(),
    ensures
        round_seq(s.subrange(lo, hi), mode) == round_seq(s, mode).subrange(lo, hi),
{
    assert(round_seq(s.subrange(lo, hi), mode) =~= round_seq(s, mode).subrange(lo, hi));
}

} // verus!
