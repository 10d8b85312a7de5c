//! The search engine: sequential exhaustive search, the partitioned search
//! over the full nonce space, and the validator.

use crate::difficulty::{meets_difficulty, meets_spec};
use crate::digest::{compute_hash, digest_chars};
use vstd::prelude::*;

verus! {

/// A typed failure of the engine.
#[derive(Clone, Copy, Debug, PartialEq, Eq, Structural)]
pub enum PowError {
    /// The difficulty argument exceeds the ceiling of 64.
    DifficultyTooHigh,
    /// The worker count is 0 or exceeds 64.
    InvalidWorkerCount,
    /// The attempt budget ran out before a solution was found.
    SearchAborted,
    /// The searched space was exhausted without success.
    NoSolutionFound,
}

/// A nonce is valid for a payload and difficulty when the digest text of
/// the pair meets the difficulty.
pub open spec fn nonce_valid(data: Seq<u8>, nonce: u64, difficulty: u32) -> bool {
    meets_spec(digest_chars(data, nonce), difficulty)
}

/// Confirms a caller-supplied nonce by recomputing the digest and applying
/// the difficulty predicate.  The difficulty is not range-checked: one
/// beyond the digest's 64 characters is simply never met.
pub fn valid(data: &[u8], nonce: u64, difficulty: u32) -> (r: bool)
    ensures
        r == nonce_valid(data@, nonce, difficulty),
        difficulty > MAX_DIFFICULTY ==> !r,
{
    let hash = compute_hash(data, nonce);
    meets_difficulty(hash.as_str(), difficulty)
}

/// The difficulty ceiling the searches accept.
pub const MAX_DIFFICULTY: u32 = 64;

/// The largest worker count the partitioned search accepts.
pub const MAX_WORKERS: u32 = 64;

/// Above this difficulty a scan gives up once its attempt budget runs out.
pub const ABORT_DIFFICULTY: u32 = 20;

/// A scan looks at its attempt budget at every multiple of this many nonces.
pub const CHECK_INTERVAL: u64 = 1_000_000;

/// The attempt budget of one scan, counted from the start of its range.
pub const ATTEMPT_BUDGET: u64 = 100_000_000;

/// The nonce at which a scan that starts at `start` gives up when the abort
/// heuristic is in force: the first multiple of the check interval that lies
/// more than the attempt budget beyond the start.
pub open spec fn abort_point(start: u64) -> int {
    ((start + ATTEMPT_BUDGET) / (CHECK_INTERVAL as int) + 1) * (CHECK_INTERVAL as int)
}

/// One past the last nonce a scan of `[start, end)` looks at: `end`, unless
/// the difficulty puts the abort heuristic in force and the abort point
/// comes first.
pub open spec fn scan_limit(start: u64, end: u64, difficulty: u32) -> int {
    if difficulty > ABORT_DIFFICULTY && abort_point(start) + 1 < end {
        abort_point(start) + 1
    } else {
        end as int
    }
}

proof fn lemma_abort_point_shape(start: u64)
    ensures
        abort_point(start) % (CHECK_INTERVAL as int) == 0,
        abort_point(start) > start + ATTEMPT_BUDGET,
        forall|m: u64|
            #[trigger] (m % CHECK_INTERVAL) == 0 && m > start + ATTEMPT_BUDGET ==> m
                >= abort_point(start),
{
    let k = CHECK_INTERVAL as int;
    let s = start + ATTEMPT_BUDGET;
    let q = s / k;
    vstd::arithmetic::div_mod::lemma_fundamental_div_mod(s as int, k);
    vstd::arithmetic::div_mod::lemma_mod_bound(s as int, k);
    vstd::arithmetic::div_mod::lemma_mod_multiples_basic(q + 1, k);
    assert forall|m: u64| #[trigger] (m % CHECK_INTERVAL) == 0 && m > start + ATTEMPT_BUDGET implies
        m >= abort_point(start) by {
        let j = m as int / k;
        vstd::arithmetic::div_mod::lemma_fundamental_div_mod(m as int, k);
        vstd::arithmetic::div_mod::lemma_mod_bound(m as int, k);
        if j <= q {
            vstd::arithmetic::mul::lemma_mul_inequality(j, q, k);
            assert(false);
        }
        vstd::arithmetic::mul::lemma_mul_inequality(q + 1, j, k);
    }
}

/// Scans the nonces of `[start, end)` in ascending order and returns the
/// first one whose digest meets the difficulty.  When the difficulty is
/// above the abort threshold the scan gives up at the abort point; `None`
/// says that no nonce below the scan limit is valid.
pub fn scan_range(data: &[u8], difficulty: u32, start: u64, end: u64) -> (r: Option<u64>)
    requires
        start <= end,
    ensures
        match r {
            Some(n) => {
                &&& start <= n < end
                &&& n < scan_limit(start, end, difficulty)
                &&& nonce_valid(data@, n, difficulty)
                &&& forall|m: u64| start <= m < n ==> !nonce_valid(data@, m, difficulty)
            },
            None => forall|m: u64|
                start <= m < scan_limit(start, end, difficulty) ==> !nonce_valid(
                    data@,
                    m,
                    difficulty,
                ),
        },
{
    proof {
        lemma_abort_point_shape(start);
    }
    let mut nonce: u64 = start;
    while nonce < end
        invariant
            start <= nonce <= end,
            forall|m: u64| start <= m < nonce ==> !nonce_valid(data@, m, difficulty),
            difficulty > ABORT_DIFFICULTY ==> nonce <= abort_point(start),
            abort_point(start) % (CHECK_INTERVAL as int) == 0,
            abort_point(start) > start + ATTEMPT_BUDGET,
            forall|m: u64|
                #[trigger] (m % CHECK_INTERVAL) == 0 && m > start + ATTEMPT_BUDGET ==> m
                    >= abort_point(start),
        decreases end - nonce,
    {
        let hash = compute_hash(data, nonce);
        if meets_difficulty(hash.as_str(), difficulty) {
            return Some(nonce);
        }
        if difficulty > ABORT_DIFFICULTY && nonce > 0 && nonce % CHECK_INTERVAL == 0 && nonce
            - start > ATTEMPT_BUDGET {
            assert(nonce == abort_point(start));
            return None;
        }
        assert(difficulty > ABORT_DIFFICULTY ==> nonce < abort_point(start));
        nonce = nonce + 1;
    }
    None
}

/// Sequential search: tries nonces from 0 upward and returns the first
/// valid one, so the winner is the smallest valid nonce.  Above the abort
/// threshold the search gives up at the abort point with `SearchAborted`;
/// otherwise exhausting the space yields `NoSolutionFound`.
pub fn compute(data: &[u8], difficulty: u32) -> (r: Result<u64, PowError>)
    ensures
        (r == Err::<u64, PowError>(PowError::DifficultyTooHigh)) <==> difficulty > MAX_DIFFICULTY,
        r != Err::<u64, PowError>(PowError::InvalidWorkerCount),
        (match r {
            Ok(n) => {
                &&& nonce_valid(data@, n, difficulty)
                &&& forall|m: u64| m < n ==> !nonce_valid(data@, m, difficulty)
                &&& n < scan_limit(0, u64::MAX, difficulty)
            },
            Err(_) => true,
        }),
        (r == Err::<u64, PowError>(PowError::SearchAborted)) ==> ABORT_DIFFICULTY < difficulty
            <= MAX_DIFFICULTY,
        (r == Err::<u64, PowError>(PowError::NoSolutionFound)) ==> difficulty <= ABORT_DIFFICULTY,
        (r == Err::<u64, PowError>(PowError::SearchAborted) || r == Err::<u64, PowError>(
            PowError::NoSolutionFound,
        )) ==> forall|m: u64|
            m < scan_limit(0, u64::MAX, difficulty) ==> !nonce_valid(data@, m, difficulty),
        difficulty <= MAX_DIFFICULTY && (exists|n: u64|
            n < scan_limit(0, u64::MAX, difficulty) && nonce_valid(data@, n, difficulty)) ==> r is Ok,
        difficulty == 0 ==> r == Ok::<u64, PowError>(0u64),
{
    if difficulty > MAX_DIFFICULTY {
        return Err(PowError::DifficultyTooHigh);
    }
    proof {
        // nonce 0 is valid at difficulty 0, which forces the result Ok(0).
        assert(nonce_valid(data@, 0, 0));
    }
    match scan_range(data, difficulty, 0, u64::MAX) {
        Some(n) => Ok(n),
        None => {
            if difficulty > ABORT_DIFFICULTY {
                Err(PowError::SearchAborted)
            } else {
                Err(PowError::NoSolutionFound)
            }
        },
    }
}

/// The size of every partition but the last: the nonce space divided evenly
/// by the worker count.
pub open spec fn chunk_len(workers: u32) -> int {
    u64::MAX as int / workers as int
}

/// Where the partition of worker `i` begins.
pub open spec fn part_start(workers: u32, i: int) -> int {
    i * chunk_len(workers)
}

/// One past where the partition of worker `i` ends; the last partition
/// absorbs the remainder of the division.
pub open spec fn part_end(workers: u32, i: int) -> int {
    if i == workers - 1 {
        u64::MAX as int
    } else {
        (i + 1) * chunk_len(workers)
    }
}

/// The scan limit of worker `i`'s partition.
pub open spec fn part_limit(workers: u32, i: int, difficulty: u32) -> int
    recommends
        0 < workers,
        0 <= i < workers,
{
    scan_limit(part_start(workers, i) as u64, part_end(workers, i) as u64, difficulty)
}

/// Worker `i` found nothing: no nonce of its partition below its scan limit
/// is valid.
pub open spec fn part_clean(data: Seq<u8>, workers: u32, i: int, difficulty: u32) -> bool {
    forall|m: u64|
        part_start(workers, i) <= m < part_limit(workers, i, difficulty) ==> !nonce_valid(
            data,
            m,
            difficulty,
        )
}

/// Every worker found nothing.
pub open spec fn searched_all(data: Seq<u8>, workers: u32, difficulty: u32) -> bool {
    forall|i: int| 0 <= i < workers ==> part_clean(data, workers, i, difficulty)
}

/// Partitioned search: divides the nonce space into `workers` contiguous
/// ranges and scans each with the sequential per-nonce logic.  A returned
/// nonce is valid and lies in the scanned part of some partition, but it
/// need not be the smallest valid nonce.  `NoSolutionFound` says that every
/// partition was scanned up to its limit without success.
pub fn compute_parallel(data: &[u8], difficulty: u32, workers: u32) -> (r: Result<u64, PowError>)
    ensures
        (r == Err::<u64, PowError>(PowError::DifficultyTooHigh)) <==> difficulty > MAX_DIFFICULTY,
        difficulty <= MAX_DIFFICULTY ==> ((r == Err::<u64, PowError>(PowError::InvalidWorkerCount))
            <==> (workers == 0 || workers > MAX_WORKERS)),
        r != Err::<u64, PowError>(PowError::SearchAborted),
        (match r {
            Ok(n) => {
                &&& nonce_valid(data@, n, difficulty)
                &&& exists|i: int|
                    0 <= i < workers && #[trigger] part_start(workers, i) <= n < part_limit(
                        workers,
                        i,
                        difficulty,
                    )
            },
            Err(_) => true,
        }),
        (r == Err::<u64, PowError>(PowError::NoSolutionFound)) ==> searched_all(
            data@,
            workers,
            difficulty,
        ),
        difficulty <= MAX_DIFFICULTY && 0 < workers <= MAX_WORKERS && !searched_all(
            data@,
            workers,
            difficulty,
        ) ==> r is Ok,
        r is Ok ==> difficulty <= MAX_DIFFICULTY && 0 < workers <= MAX_WORKERS,
{
    if difficulty > MAX_DIFFICULTY {
        return Err(PowError::DifficultyTooHigh);
    }
    if workers == 0 || workers > MAX_WORKERS {
        return Err(PowError::InvalidWorkerCount);
    }
    let chunk: u64 = u64::MAX / (workers as u64);
    proof {
        vstd::arithmetic::div_mod::lemma_fundamental_div_mod(u64::MAX as int, workers as int);
        vstd::arithmetic::div_mod::lemma_mod_bound(u64::MAX as int, workers as int);
    }
    let mut i: u32 = 0;
    while i < workers
        invariant
            difficulty <= MAX_DIFFICULTY,
            0 < workers <= MAX_WORKERS,
            i <= workers,
            chunk == chunk_len(workers),
            workers * chunk_len(workers) <= u64::MAX,
            forall|j: int| 0 <= j < i ==> part_clean(data@, workers, j, difficulty),
        decreases workers - i,
    {
        proof {
            vstd::arithmetic::mul::lemma_mul_inequality(i as int, i as int + 1, chunk as int);
            vstd::arithmetic::mul::lemma_mul_inequality(i as int + 1, workers as int, chunk as int);
        }
        let start: u64 = (i as u64) * chunk;
        let end: u64 = if i == workers - 1 {
            u64::MAX
        } else {
            (i as u64 + 1) * chunk
        };
        proof {
            assert(start as int == part_start(workers, i as int));
            assert(end as int == part_end(workers, i as int));
        }
        match scan_range(data, difficulty, start, end) {
            Some(n) => {
                proof {
                    assert(part_start(workers, i as int) <= n < part_limit(
                        workers,
                        i as int,
                        difficulty,
                    ));
                }
                return Ok(n);
            },
            None => {},
        }
        i = i + 1;
    }
    Err(PowError::NoSolutionFound)
}

} // verus!
