//! Splitting an object of known size into the byte ranges of a multipart upload.

use vstd::prelude::*;

verus! {

/// Length in bytes of every part but the last one (5 MiB).
pub const CHUNK_SIZE: u64 = 5242880;

/// Largest number of parts that one upload may be split into.
pub const MAX_CHUNKS: u64 = 10000;

/// One part of an upload: its 1-based number and the byte range it covers.
#[derive(Clone, Copy, Debug, PartialEq, Eq, Structural)]
pub struct Chunk {
    pub part_number: u64,
    pub offset: u64,
    pub length: u64,
}

/// Why a size cannot be planned.
#[derive(Clone, Copy, Debug, PartialEq, Eq, Structural)]
pub enum SizeError {
    /// The object has no bytes.
    Empty,
    /// The object needs more parts than the configured maximum.
    TooManyParts,
}

/// Number of parts of `part_size` bytes needed for `total` bytes: the ceiling
/// of `total / part_size`.
pub open spec fn part_count(total: nat, part_size: nat) -> nat
    recommends
        part_size > 0,
{
    if total % part_size == 0 {
        total / part_size
    } else {
        total / part_size + 1
    }
}

/// Length of the part with 0-based index `i`: a full part, except for the last
/// one, which holds what remains.
pub open spec fn chunk_length(total: nat, part_size: nat, i: nat) -> int {
    if i + 1 < part_count(total, part_size) {
        part_size as int
    } else {
        total - i * part_size
    }
}

/// `c` is the part with 0-based index `i` of the plan for `total` bytes.
pub open spec fn is_chunk_of(c: Chunk, total: nat, part_size: nat, i: nat) -> bool {
    &&& c.part_number == i + 1
    &&& c.offset == i * part_size
    &&& c.length == chunk_length(total, part_size, i)
}

/// `chunks` is the plan for `total` bytes in parts of `part_size` bytes.
pub open spec fn is_plan(chunks: Seq<Chunk>, total: nat, part_size: nat) -> bool {
    &&& chunks.len() == part_count(total, part_size)
    &&& forall|i: int|
        0 <= i < chunks.len() ==> is_chunk_of(#[trigger] chunks[i], total, part_size, i as nat)
}

/// Whether `total` bytes can be uploaded in parts of `part_size` bytes with
/// at most `max_parts` parts.
pub open spec fn plannable(total: nat, part_size: nat, max_parts: nat) -> bool {
    total > 0 && part_count(total, part_size) <= max_parts
}

/// What planning answers for a size: the error when there is one.
pub open spec fn plan_error(total: nat, part_size: nat, max_parts: nat) -> Option<SizeError> {
    if total == 0 {
        Some(SizeError::Empty)
    } else if part_count(total, part_size) > max_parts {
        Some(SizeError::TooManyParts)
    } else {
        None
    }
}

/// Splits `total_size` bytes into parts of `part_size` bytes, the last one
/// holding the remainder. A size that is an exact multiple of `part_size`
/// gets no trailing empty part.
pub fn plan_chunks(
    total_size: u64,
    part_size: u64,
    max_parts: u64,
) -> (r: Result<Vec<Chunk>, SizeError>)
    requires
        part_size > 0,
    ensures
        match r {
            Ok(chunks) => {
                &&& plan_error(total_size as nat, part_size as nat, max_parts as nat) is None
                &&& is_plan(chunks@, total_size as nat, part_size as nat)
            },
            Err(e) => plan_error(total_size as nat, part_size as nat, max_parts as nat) == Some(e),
        },
{
    if total_size == 0 {
        return Err(SizeError::Empty);
    }
    // Counting up from the number of full parts, rather than down from one
    // more, keeps the count from overflowing when `part_size` is 1.
    let mut chunk_count: u64 = total_size / part_size;
    let mut last_length: u64 = total_size % part_size;
    if last_length == 0 {
        last_length = part_size;
    } else {
        assert(total_size / part_size < total_size) by (nonlinear_arith)
            requires
                part_size > 1,
                total_size > 0,
        ;
        chunk_count = chunk_count + 1;
    }
    proof {
        let t = total_size as int;
        let p = part_size as int;
        assert(t == (t / p) * p + t % p) by (nonlinear_arith)
            requires
                p > 0,
        ;
        assert(chunk_count >= 1) by (nonlinear_arith)
            requires
                p > 0,
                t > 0,
                chunk_count == (if t % p == 0 { t / p } else { t / p + 1 }),
                t == (t / p) * p + t % p,
                0 <= t % p < p,
        ;
        assert(chunk_count == part_count(t as nat, p as nat));
        assert((chunk_count - 1) * p + last_length == t) by (nonlinear_arith)
            requires
                p > 0,
                chunk_count == (if t % p == 0 { t / p } else { t / p + 1 }),
                last_length == (if t % p == 0 { p } else { t % p }),
                t == (t / p) * p + t % p,
        ;
    }
    if chunk_count > max_parts {
        return Err(SizeError::TooManyParts);
    }
    let mut chunks: Vec<Chunk> = Vec::new();
    let mut index: u64 = 0;
    while index < chunk_count
        invariant
            0 < chunk_count,
            index <= chunk_count,
            chunk_count == part_count(total_size as nat, part_size as nat),
            (chunk_count - 1) * part_size + last_length == total_size,
            0 < last_length <= part_size,
            chunks@.len() == index,
            forall|i: int|
                0 <= i < index ==> is_chunk_of(
                    #[trigger] chunks@[i],
                    total_size as nat,
                    part_size as nat,
                    i as nat,
                ),
        decreases chunk_count - index,
    {
        assert(index * part_size <= (chunk_count - 1) * part_size) by (nonlinear_arith)
            requires
                index < chunk_count,
        ;
        let offset: u64 = index * part_size;
        let length: u64 = if index == chunk_count - 1 {
            last_length
        } else {
            part_size
        };
        proof {
            if index == chunk_count - 1 {
                assert(total_size - index * part_size == last_length);
            }
        }
        chunks.push(Chunk { part_number: index + 1, offset, length });
        index = index + 1;
    }
    Ok(chunks)
}

/// 0-based index of the part that holds byte `b`.
pub open spec fn part_index(b: int, part_size: nat) -> int {
    b / part_size as int
}

/// Sum of the lengths of `chunks`.
pub open spec fn total_length(chunks: Seq<Chunk>) -> int
    decreases chunks.len(),
{
    if chunks.len() == 0 {
        0
    } else {
        total_length(chunks.drop_last()) + chunks.last().length
    }
}

/// The plan for a non-empty size tiles `[0, total)`: the first part starts at
/// 0, each part starts where the one before it ends, the last one ends at
/// `total`, no part is empty or longer than `part_size`, every byte lies in
/// exactly one part, the lengths add up to `total`, and there are
/// `ceil(total / part_size)` parts.
pub proof fn lemma_plan_tiles(total: nat, part_size: nat, chunks: Seq<Chunk>)
    requires
        total > 0,
        part_size > 0,
        is_plan(chunks, total, part_size),
    ensures
        chunks.len() >= 1,
        (chunks.len() - 1) * part_size < total <= chunks.len() * part_size,
        chunks[0].offset == 0,
        forall|i: int|
            0 <= i < chunks.len() ==> 0 < (#[trigger] chunks[i]).length <= part_size,
        forall|i: int|
            0 <= i < chunks.len() - 1 ==> (#[trigger] chunks[i]).offset + chunks[i].length
                == chunks[i + 1].offset,
        chunks.last().offset + chunks.last().length == total,
        forall|b: int|
            0 <= b < total ==> {
                let i = #[trigger] part_index(b, part_size);
                &&& 0 <= i < chunks.len()
                &&& chunks[i].offset <= b < chunks[i].offset + chunks[i].length
            },
        forall|i: int, j: int|
            0 <= i < j < chunks.len() ==> (#[trigger] chunks[i]).offset + chunks[i].length
                <= (#[trigger] chunks[j]).offset,
        total_length(chunks) == total,
{
    let n = chunks.len() as int;
    let p = part_size as int;
    let t = total as int;
    assert(t == (t / p) * p + t % p) by (nonlinear_arith)
        requires
            p > 0,
    ;
    assert(n >= 1 && (n - 1) * p < t <= n * p) by (nonlinear_arith)
        requires
            p > 0,
            t > 0,
            n == (if t % p == 0 { t / p } else { t / p + 1 }),
            t == (t / p) * p + t % p,
            0 <= t % p < p,
    ;
    assert forall|i: int| 0 <= i < n implies 0 < (#[trigger] chunks[i]).length <= p by {
        assert(is_chunk_of(chunks[i], total, part_size, i as nat));
        if i + 1 >= n {
            assert(i == n - 1);
            assert((n - 1) * p + p == n * p) by (nonlinear_arith);
        }
    }
    assert forall|i: int| 0 <= i < n - 1 implies (#[trigger] chunks[i]).offset + chunks[i].length
        == chunks[i + 1].offset by {
        assert(is_chunk_of(chunks[i], total, part_size, i as nat));
        assert(is_chunk_of(chunks[i + 1], total, part_size, (i + 1) as nat));
        assert(i * p + p == (i + 1) * p) by (nonlinear_arith);
    }
    assert(is_chunk_of(chunks[0], total, part_size, 0));
    assert(is_chunk_of(chunks[n - 1], total, part_size, (n - 1) as nat));
    assert forall|b: int| 0 <= b < t implies {
        let i = #[trigger] part_index(b, part_size);
        &&& 0 <= i < n
        &&& chunks[i].offset <= b < chunks[i].offset + chunks[i].length
    } by {
        let i = b / p;
        assert(b == i * p + b % p && 0 <= b % p < p) by (nonlinear_arith)
            requires
                p > 0,
                i == b / p,
                b >= 0,
        ;
        assert(i >= n ==> i * p >= n * p) by (nonlinear_arith)
            requires
                p > 0,
        ;
        assert(i >= 0) by (nonlinear_arith)
            requires
                p > 0,
                i == b / p,
                b >= 0,
        ;
        assert(is_chunk_of(chunks[i], total, part_size, i as nat));
    }
    assert forall|i: int, j: int| 0 <= i < j < n implies (#[trigger] chunks[i]).offset
        + chunks[i].length <= (#[trigger] chunks[j]).offset by {
        assert(is_chunk_of(chunks[i], total, part_size, i as nat));
        assert(is_chunk_of(chunks[j], total, part_size, j as nat));
        assert(chunks[i].length <= p);
        assert(i * p + p <= j * p) by (nonlinear_arith)
            requires
                i < j,
                p > 0,
        ;
    }
    lemma_total_length_prefix(total, part_size, chunks, n);
    assert(chunks.take(n) == chunks);
}

proof fn lemma_total_length_prefix(total: nat, part_size: nat, chunks: Seq<Chunk>, k: int)
    requires
        total > 0,
        part_size > 0,
        is_plan(chunks, total, part_size),
        0 < k <= chunks.len(),
    ensures
        total_length(chunks.take(k)) == chunks[k - 1].offset + chunks[k - 1].length,
    decreases k,
{
    let p = part_size as int;
    assert(chunks.take(k).drop_last() == chunks.take(k - 1));
    assert(chunks.take(k).last() == chunks[k - 1]);
    assert(total_length(chunks.take(k)) == total_length(chunks.take(k - 1)) + chunks[k - 1].length);
    assert(is_chunk_of(chunks[k - 1], total, part_size, (k - 1) as nat));
    if k == 1 {
        assert(chunks.take(0).len() == 0);
        assert(total_length(chunks.take(0)) == 0);
        assert(0 * p == 0);
    } else {
        lemma_total_length_prefix(total, part_size, chunks, k - 1);
        assert(is_chunk_of(chunks[k - 2], total, part_size, (k - 2) as nat));
        assert((k - 2) * p + p == (k - 1) * p) by (nonlinear_arith);
    }
}

/// A size equal to the part size gets exactly one part, which is a full part,
/// never a full part followed by an empty one.
pub proof fn lemma_exact_part_is_single(part_size: nat, max_parts: nat, chunks: Seq<Chunk>)
    requires
        part_size > 0,
        max_parts > 0,
        is_plan(chunks, part_size, part_size),
    ensures
        plan_error(part_size, part_size, max_parts) is None,
        chunks.len() == 1,
        chunks[0] == (Chunk { part_number: 1, offset: 0, length: part_size as u64 }),
{
    assert(part_size % part_size == 0 && part_size / part_size == 1) by (nonlinear_arith)
        requires
            part_size > 0,
    ;
    assert(is_chunk_of(chunks[0], part_size, part_size, 0));
}

/// A size that is an exact multiple of the part size is split into full parts
/// only: `total / part_size` of them.
pub proof fn lemma_exact_multiple_has_no_empty_part(
    part_size: nat,
    count: nat,
    chunks: Seq<Chunk>,
)
    requires
        part_size > 0,
        count > 0,
        is_plan(chunks, count * part_size, part_size),
    ensures
        chunks.len() == count,
        forall|i: int| 0 <= i < chunks.len() ==> (#[trigger] chunks[i]).length == part_size,
{
    let t: nat = count * part_size;
    assert(t % part_size == 0 && t / part_size == count) by (nonlinear_arith)
        requires
            part_size > 0,
            t == count * part_size,
    ;
    assert forall|i: int| 0 <= i < chunks.len() implies (#[trigger] chunks[i]).length
        == part_size by {
        assert(is_chunk_of(chunks[i], t, part_size, i as nat));
        if i + 1 >= count {
            assert(t - i * part_size == part_size) by (nonlinear_arith)
                requires
                    i == count - 1,
                    t == count * part_size,
            ;
        }
    }
}

} // verus!
