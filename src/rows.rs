use vstd::prelude::*;
use vstd::arithmetic::div_mod::{lemma_div_is_ordered, lemma_div_by_multiple};
use vstd::arithmetic::mul::lemma_mul_inequality;

verus! {

/// Rows `start` up to, not including, `end` of the image.
#[derive(Clone, Copy, Debug, PartialEq, Eq, Structural)]
pub struct RowRange {
    pub start: u32,
    pub end: u32,
}

/// What one worker hands back: its index, and the channels of its rows,
/// three bytes per pixel, row after row.
#[derive(Debug)]
pub struct WorkerRows {
    pub worker: u32,
    pub channels: Vec<u8>,
}

/// The first row of worker `k` when `height` rows are split evenly and in
/// order among `workers` workers.
pub open spec fn row_start(height: nat, workers: nat, k: nat) -> nat {
    k * height / workers
}

proof fn lemma_row_start_bounds(height: nat, workers: nat, k: nat)
    requires
        workers > 0,
        k <= workers,
    ensures
        row_start(height, workers, k) <= height,
        k < workers ==> row_start(height, workers, k) <= row_start(height, workers, k + 1),
{
    lemma_mul_inequality(k as int, workers as int, height as int);
    lemma_div_is_ordered((k * height) as int, (workers * height) as int, workers as int);
    lemma_div_by_multiple(height as int, workers as int);
    assert(workers * height == height * workers) by (nonlinear_arith);
    if k < workers {
        lemma_mul_inequality(k as int, (k + 1) as int, height as int);
        lemma_div_is_ordered((k * height) as int, ((k + 1) * height) as int, workers as int);
    }
}

/// The row ranges of an even, ordered split tile the image: the first starts
/// at row zero, the last ends at the last row, each ends where the next
/// starts, and none runs backwards.
pub proof fn lemma_row_split_tiles(height: nat, workers: nat)
    requires
        workers > 0,
    ensures
        row_start(height, workers, 0) == 0,
        row_start(height, workers, workers) == height,
        forall|k: nat| k < workers ==>
            #[trigger] row_start(height, workers, k) <= row_start(height, workers, k + 1),
{
    lemma_div_by_multiple(height as int, workers as int);
    assert(workers * height == height * workers) by (nonlinear_arith);
    assert forall|k: nat| k < workers implies
        #[trigger] row_start(height, workers, k) <= row_start(height, workers, k + 1) by {
        lemma_row_start_bounds(height, workers, k);
    }
}

/// First row of worker `k`.
fn row_bound(height: u32, workers: u32, k: u32) -> (r: u32)
    requires
        workers > 0,
        k <= workers,
    ensures
        r == row_start(height as nat, workers as nat, k as nat),
{
    proof {
        lemma_row_start_bounds(height as nat, workers as nat, k as nat);
    }
    assert(k as u64 * height as u64 <= u32::MAX as u64 * u32::MAX as u64) by (nonlinear_arith);
    let p: u64 = k as u64 * height as u64;
    (p / workers as u64) as u32
}

/// Splits `height` rows into `workers` contiguous ranges, in order, whose
/// lengths differ by at most one; range `k` starts at `k * height / workers`.
pub fn partition_rows(height: u32, workers: u32) -> (r: Vec<RowRange>)
    requires
        workers > 0,
    ensures
        r@.len() == workers,
        forall|k: int| 0 <= k < workers ==> {
            &&& (#[trigger] r@[k]).start == row_start(height as nat, workers as nat, k as nat)
            &&& r@[k].end == row_start(height as nat, workers as nat, (k + 1) as nat)
        },
{
    let mut out: Vec<RowRange> = Vec::new();
    let mut k: u32 = 0;
    while k < workers
        invariant
            workers > 0,
            k <= workers,
            out@.len() == k,
            forall|j: int| 0 <= j < k ==> {
                &&& (#[trigger] out@[j]).start == row_start(height as nat, workers as nat, j as nat)
                &&& out@[j].end == row_start(height as nat, workers as nat, (j + 1) as nat)
            },
        decreases workers - k,
    {
        let start = row_bound(height, workers, k);
        let end = row_bound(height, workers, k + 1);
        out.push(RowRange { start, end });
        k = k + 1;
    }
    out
}

/// Number of channels worker `k` owes: three per pixel of its rows.
pub open spec fn block_len(width: nat, height: nat, workers: nat, k: nat) -> int {
    (row_start(height, workers, k + 1) - row_start(height, workers, k)) * width * 3
}

/// No two results carry the same worker index.
pub open spec fn tags_distinct(rs: Seq<WorkerRows>) -> bool {
    forall|i: int, j: int|
        0 <= i < rs.len() && 0 <= j < rs.len() && i != j ==> #[trigger] rs[i].worker != #[trigger] rs[j].worker
}

/// Some result carries worker index `k`.
pub open spec fn has_result(rs: Seq<WorkerRows>, k: nat) -> bool {
    exists|i: int| 0 <= i < rs.len() && #[trigger] rs[i].worker == k
}

/// Every worker `0..workers` has a result.
pub open spec fn tags_cover(rs: Seq<WorkerRows>, workers: nat) -> bool {
    forall|k: nat| k < workers ==> #[trigger] has_result(rs, k)
}

/// Every result names a worker that exists and holds exactly the channels
/// its rows call for.
pub open spec fn blocks_fit(rs: Seq<WorkerRows>, width: nat, height: nat, workers: nat) -> bool {
    forall|i: int| 0 <= i < rs.len() ==> {
        &&& (#[trigger] rs[i]).worker < workers
        &&& rs[i].channels@.len() == block_len(width, height, workers, rs[i].worker as nat)
    }
}

/// The results make a whole image: one from each worker, each of the right
/// size.
pub open spec fn assembles(rs: Seq<WorkerRows>, width: nat, height: nat, workers: nat) -> bool {
    &&& workers > 0
    &&& rs.len() == workers
    &&& tags_distinct(rs)
    &&& tags_cover(rs, workers)
    &&& blocks_fit(rs, width, height, workers)
}

/// Position of the result of worker `k`.
pub open spec fn tag_index(rs: Seq<WorkerRows>, k: nat) -> int {
    choose|i: int| 0 <= i < rs.len() && rs[i].worker == k
}

/// The channels of workers `0..k`, in worker order.
pub open spec fn ordered_channels(rs: Seq<WorkerRows>, k: nat) -> Seq<u8>
    decreases k,
{
    if k == 0 {
        Seq::empty()
    } else {
        ordered_channels(rs, (k - 1) as nat) + rs[tag_index(rs, (k - 1) as nat)].channels@
    }
}

proof fn lemma_ordered_len(rs: Seq<WorkerRows>, width: nat, height: nat, workers: nat, k: nat)
    requires
        assembles(rs, width, height, workers),
        k <= workers,
    ensures
        ordered_channels(rs, k).len() == row_start(height, workers, k) * width * 3,
    decreases k,
{
    if k == 0 {
        assert(row_start(height, workers, 0) == 0);
    } else {
        let j = (k - 1) as nat;
        lemma_ordered_len(rs, width, height, workers, j);
        assert(has_result(rs, j));
        let i = tag_index(rs, j);
        assert(rs[i].channels@.len() == block_len(width, height, workers, j));
        lemma_row_start_bounds(height, workers, j);
        let a = row_start(height, workers, j);
        let b = row_start(height, workers, k);
        assert(a * width * 3 + (b - a) * width * 3 == b * width * 3) by (nonlinear_arith);
    }
}

/// Copies the bytes of `src` onto the end of `out`.
fn append_bytes(out: &mut Vec<u8>, src: &Vec<u8>)
    ensures
        final(out)@ == old(out)@ + src@,
{
    let n = src.len();
    let mut i: usize = 0;
    while i < n
        invariant
            n == src@.len(),
            i <= n,
            out@ == old(out)@ + src@.take(i as int),
        decreases n - i,
    {
        out.push(src[i]);
        i = i + 1;
        assert(out@ =~= old(out)@ + src@.take(i as int));
    }
    assert(src@.take(n as int) =~= src@);
}

/// Puts the results of `workers` workers back together into one image of
/// `width` by `height` pixels, rows in order, whatever order the results came
/// in. `None` unless every worker has exactly one result of the right size.
pub fn assemble_rows(results: &Vec<WorkerRows>, workers: u32, width: u32, height: u32) -> (r: Option<Vec<u8>>)
    ensures
        r is Some <==> assembles(results@, width as nat, height as nat, workers as nat),
        r matches Some(img) ==> {
            &&& img@ == ordered_channels(results@, workers as nat)
            &&& img@.len() == width * height * 3
        },
{
    if workers == 0 || results.len() != workers as usize {
        return None;
    }
    let n = results.len();
    let mut seen: Vec<bool> = Vec::new();
    let mut t: usize = 0;
    while t < n
        invariant
            t <= n,
            seen@.len() == t,
            forall|j: int| 0 <= j < t ==> !(#[trigger] seen@[j]),
        decreases n - t,
    {
        seen.push(false);
        t = t + 1;
    }
    let ghost rs = results@;
    let mut i: usize = 0;
    while i < n
        invariant
            rs == results@,
            n == rs.len(),
            n == workers,
            workers > 0,
            i <= n,
            seen@.len() == n,
            forall|j: int| 0 <= j < i ==> {
                &&& (#[trigger] rs[j]).worker < workers
                &&& seen@[rs[j].worker as int]
                &&& rs[j].channels@.len() == block_len(width as nat, height as nat, workers as nat, rs[j].worker as nat)
            },
            forall|a: int, b: int| 0 <= a < i && 0 <= b < i && a != b ==> #[trigger] rs[a].worker != #[trigger] rs[b].worker,
            forall|k: int| 0 <= k < n && #[trigger] seen@[k] ==> exists|j: int| 0 <= j < i && rs[j].worker == k,
        decreases n - i,
    {
        let tag = results[i].worker;
        if tag >= workers {
            return None;
        }
        if seen[tag as usize] {
            assert(!tags_distinct(rs)) by {
                let j = choose|j: int| 0 <= j < i && rs[j].worker == tag;
                assert(rs[j].worker == rs[i as int].worker);
            }
            return None;
        }
        proof {
            lemma_row_start_bounds(height as nat, workers as nat, tag as nat);
        }
        let lo = row_bound(height, workers, tag);
        let hi = row_bound(height, workers, tag + 1);
        assert((hi - lo) as u64 * width as u64 <= u32::MAX as u64 * u32::MAX as u64) by (nonlinear_arith)
            requires lo <= hi;
        let pixels: u64 = (hi - lo) as u64 * width as u64;
        let len = results[i].channels.len();
        let fits = match pixels.checked_mul(3) {
            Some(expected) => len as u64 == expected,
            None => false,
        };
        assert(pixels * 3 == block_len(width as nat, height as nat, workers as nat, tag as nat));
        if !fits {
            assert(!blocks_fit(rs, width as nat, height as nat, workers as nat)) by {
                assert(rs[i as int].channels@.len() != block_len(width as nat, height as nat, workers as nat, tag as nat));
            }
            return None;
        }
        seen.set(tag as usize, true);
        i = i + 1;
    }
    let mut img: Vec<u8> = Vec::new();
    let mut k: u32 = 0;
    while k < workers
        invariant
            rs == results@,
            n == rs.len(),
            n == workers,
            k <= workers,
            tags_distinct(rs),
            blocks_fit(rs, width as nat, height as nat, workers as nat),
            forall|kk: nat| kk < k ==> #[trigger] has_result(rs, kk),
            img@ == ordered_channels(rs, k as nat),
        decreases workers - k,
    {
        let mut j: usize = 0;
        let mut found = false;
        while j < n && !found
            invariant
                rs == results@,
                n == rs.len(),
                j <= n,
                found ==> j > 0 && rs[j - 1].worker == k,
                !found ==> forall|a: int| 0 <= a < j ==> #[trigger] rs[a].worker != k,
            decreases n - j,
        {
            if results[j].worker == k {
                found = true;
            }
            j = j + 1;
        }
        if !found {
            assert(!tags_cover(rs, workers as nat)) by {
                if tags_cover(rs, workers as nat) {
                    assert(has_result(rs, k as nat));
                }
            }
            return None;
        }
        let at = j - 1;
        assert(tag_index(rs, k as nat) == at as int) by {
            let c = tag_index(rs, k as nat);
            assert(0 <= c < rs.len() && rs[c].worker == k);
        }
        append_bytes(&mut img, &results[at].channels);
        assert(has_result(rs, k as nat));
        k = k + 1;
    }
    proof {
        assert(tags_cover(rs, workers as nat));
        lemma_ordered_len(rs, width as nat, height as nat, workers as nat, workers as nat);
        lemma_row_split_tiles(height as nat, workers as nat);
        assert(height as nat * width as nat * 3 == width * height * 3) by (nonlinear_arith);
    }
    Some(img)
}

} // verus!
