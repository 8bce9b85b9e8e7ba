use vstd::prelude::*;
use vstd::arithmetic::div_mod::lemma_fundamental_div_mod;
use crate::error::ProfileError;

verus! {

/// The number of workers a batch is spread over.
pub const WORKERS: usize = 4;

/// Items per worker for `k` items over `n` workers: `ceil(k / n)`.
pub open spec fn chunk_size(k: int, n: int) -> int {
    (k + n - 1) / n
}

/// `n` chunks of `ceil(k / n)` items hold all `k` items, and no chunk
/// could be a whole worker smaller.
pub proof fn lemma_chunk_size(k: int, n: int)
    requires
        k >= 0,
        n > 0,
    ensures
        chunk_size(k, n) >= 0,
        chunk_size(k, n) * n >= k,
        k > 0 ==> chunk_size(k, n) > 0,
{
    lemma_fundamental_div_mod(k + n - 1, n);
    let q = (k + n - 1) / n;
    let r = (k + n - 1) % n;
    assert(0 <= r < n) by {
        vstd::arithmetic::div_mod::lemma_mod_bound(k + n - 1, n);
    }
    assert(q * n == k + n - 1 - r) by (nonlinear_arith)
        requires
            k + n - 1 == n * q + r,
    ;
    assert(q >= 0) by (nonlinear_arith)
        requires
            q * n == k + n - 1 - r,
            r < n,
            n > 0,
            k >= 0,
    ;
    if k > 0 {
        assert(q > 0) by (nonlinear_arith)
            requires
                q * n == k + n - 1 - r,
                r < n,
                k > 0,
                q >= 0,
        ;
    }
}

/// The smaller of two integers.
pub open spec fn min(a: int, b: int) -> int {
    if a <= b {
        a
    } else {
        b
    }
}

/// The index ranges of the chunks a batch of `k` items is split into for
/// `workers` workers: chunk `i` is `[i * c, min((i + 1) * c, k))` with
/// `c = ceil(k / workers)`; only non-empty chunks are listed, and together
/// they cover the batch.
pub open spec fn is_chunking(r: Seq<(usize, usize)>, k: int, workers: int) -> bool {
    let c = chunk_size(k, workers);
    &&& r.len() <= workers
    &&& forall|i: int|
        0 <= i < r.len() ==> {
            &&& (#[trigger] r[i]).0 == i * c
            &&& r[i].1 == min((i + 1) * c, k)
            &&& r[i].0 < r[i].1
        }
    &&& r.len() * c >= k
}

/// Splits a batch of `k` items into at most `workers` contiguous chunks of
/// at most `ceil(k / workers)` items, as index ranges.
pub fn chunk_bounds(k: usize, workers: usize) -> (r: Vec<(usize, usize)>)
    requires
        workers > 0,
    ensures
        is_chunking(r@, k as int, workers as int),
{
    let q: usize = k / workers;
    if k % workers != 0 {
        proof {
            lemma_fundamental_div_mod(k as int, workers as int);
            let qi = q as int;
            let ri = (k % workers) as int;
            assert(qi < k) by (nonlinear_arith)
                requires
                    k as int == workers * qi + ri,
                    ri > 0,
                    workers >= 2,
                    qi >= 0,
            ;
        }
    }
    let c: usize = if k % workers == 0 {
        q
    } else {
        q + 1
    };
    proof {
        let ki = k as int;
        let wi = workers as int;
        lemma_chunk_size(ki, wi);
        lemma_fundamental_div_mod(ki, wi);
        lemma_fundamental_div_mod(ki + wi - 1, wi);
        vstd::arithmetic::div_mod::lemma_mod_bound(ki, wi);
        vstd::arithmetic::div_mod::lemma_mod_bound(ki + wi - 1, wi);
        let q1 = ki / wi;
        let r1 = ki % wi;
        let q2 = (ki + wi - 1) / wi;
        let r2 = (ki + wi - 1) % wi;
        assert(c == q2) by (nonlinear_arith)
            requires
                ki == wi * q1 + r1,
                0 <= r1 < wi,
                ki + wi - 1 == wi * q2 + r2,
                0 <= r2 < wi,
                c == q1 + if r1 == 0 { 0int } else { 1int },
                wi > 0,
        ;
    }
    let ghost cs = chunk_size(k as int, workers as int);
    let mut r: Vec<(usize, usize)> = Vec::new();
    let mut start: usize = 0;
    let mut i: usize = 0;
    while i < workers && start < k
        invariant
            cs == chunk_size(k as int, workers as int),
            c == cs,
            cs * workers >= k,
            k > 0 ==> cs > 0,
            i <= workers,
            r@.len() == i,
            start as int == min(i * cs, k as int),
            forall|j: int|
                0 <= j < r@.len() ==> {
                    &&& (#[trigger] r@[j]).0 == j * cs
                    &&& r@[j].1 == min((j + 1) * cs, k as int)
                    &&& r@[j].0 < r@[j].1
                },
        decreases workers - i,
    {
        assert(start as int == i * cs);
        let end: usize = if k - start < c {
            k
        } else {
            start + c
        };
        assert((i + 1) * cs == i * cs + cs) by (nonlinear_arith);
        r.push((start, end));
        start = end;
        i += 1;
    }
    proof {
        if i == workers && start < k {
            assert(i * cs >= k) by (nonlinear_arith)
                requires
                    cs * workers >= k,
                    i == workers,
            ;
        }
        assert(r@.len() * cs >= k);
    }
    r
}

/// Item `x` lies in chunk `i` of `r`.
pub open spec fn in_chunk(r: Seq<(usize, usize)>, i: int, x: int) -> bool {
    0 <= i < r.len() && r[i].0 <= x < r[i].1
}

/// Item `x` lies in some chunk of `r`.
pub open spec fn covered(r: Seq<(usize, usize)>, x: int) -> bool {
    exists|i: int| #[trigger] in_chunk(r, i, x)
}

/// A chunking hands each worker at most `ceil(k / workers)` items, stays
/// within the batch, and places every item in exactly one chunk.
pub proof fn lemma_chunking_partitions(r: Seq<(usize, usize)>, k: int, workers: int)
    requires
        k >= 0,
        workers > 0,
        is_chunking(r, k, workers),
    ensures
        r.len() <= workers,
        forall|i: int|
            0 <= i < r.len() ==> 0 <= (#[trigger] r[i]).0 && r[i].0 < r[i].1 && r[i].1 <= k
                && r[i].1 - r[i].0 <= chunk_size(k, workers),
        forall|x: int| 0 <= x < k ==> #[trigger] covered(r, x),
        forall|i: int, j: int, x: int|
            #[trigger] in_chunk(r, i, x) && #[trigger] in_chunk(r, j, x) ==> i == j,
{
    let c = chunk_size(k, workers);
    lemma_chunk_size(k, workers);
    assert forall|i: int|
        0 <= i < r.len() implies 0 <= (#[trigger] r[i]).0 && r[i].0 < r[i].1 && r[i].1 <= k
            && r[i].1 - r[i].0 <= c by {
        assert(r[i].0 == i * c);
        assert(i * c >= 0) by (nonlinear_arith)
            requires
                i >= 0,
                c >= 0,
        ;
        assert((i + 1) * c == i * c + c) by (nonlinear_arith);
    }
    assert forall|x: int| 0 <= x < k implies #[trigger] covered(r, x) by {
        lemma_fundamental_div_mod(x, c);
        vstd::arithmetic::div_mod::lemma_mod_bound(x, c);
        let i = x / c;
        let m = x % c;
        assert(0 <= i) by (nonlinear_arith)
            requires
                x == c * i + m,
                0 <= m < c,
                x >= 0,
        ;
        assert(i < r.len()) by (nonlinear_arith)
            requires
                x == c * i + m,
                0 <= m,
                x < k,
                r.len() * c >= k,
                c > 0,
        ;
        assert(r[i].0 == i * c);
        assert(r[i].1 == min((i + 1) * c, k));
        assert(i * c <= x < (i + 1) * c) by (nonlinear_arith)
            requires
                x == c * i + m,
                0 <= m < c,
        ;
        assert(in_chunk(r, i, x));
    }
    assert forall|i: int, j: int, x: int|
        #[trigger] in_chunk(r, i, x) && #[trigger] in_chunk(r, j, x) implies i == j by {
        assert(r[i].0 == i * c && r[j].0 == j * c);
        assert(x < (i + 1) * c && x < (j + 1) * c);
        assert(i == j) by (nonlinear_arith)
            requires
                i * c <= x < (i + 1) * c,
                j * c <= x < (j + 1) * c,
                c > 0,
        ;
    }
}

/// The outcome of a batch whose item (or worker) results are `results`:
/// the first error, in order, if there is one.
pub open spec fn joined(results: Seq<Result<(), ProfileError>>) -> Result<(), ProfileError>
    decreases results.len(),
{
    if results.len() == 0 {
        Ok(())
    } else {
        match joined(results.drop_last()) {
            Err(e) => Err(e),
            Ok(()) => results.last(),
        }
    }
}

proof fn lemma_joined_err_extends(results: Seq<Result<(), ProfileError>>, j: int)
    requires
        0 <= j <= results.len(),
        joined(results.take(j)) is Err,
    ensures
        joined(results) == joined(results.take(j)),
    decreases results.len() - j,
{
    if j < results.len() {
        assert(results.take(j + 1).drop_last() =~= results.take(j));
        lemma_joined_err_extends(results, j + 1);
    } else {
        assert(results.take(j) =~= results);
    }
}

/// Joins the results of a batch's workers, taken in submission order:
/// the first error, or success when every worker succeeded.
pub fn join_results(results: Vec<Result<(), ProfileError>>) -> (r: Result<(), ProfileError>)
    ensures
        r == joined(results@),
{
    let ghost rs = results@;
    let mut pending = results;
    let mut i: usize = 0;
    while i < pending.len()
        invariant
            i <= pending@.len(),
            pending@ == rs,
            rs == results@,
            joined(rs.take(i as int)) is Ok,
        decreases pending@.len() - i,
    {
        assert(rs.take(i + 1).drop_last() =~= rs.take(i as int));
        if pending[i].is_err() {
            assert(joined(rs.take(i + 1)) == rs[i as int]);
            proof {
                lemma_joined_err_extends(rs, i + 1);
            }
            let e = pending.remove(i);
            assert(e == rs[i as int]);
            return e;
        }
        i += 1;
    }
    assert(rs.take(i as int) =~= rs);
    assert(joined(rs) is Ok);
    assert(joined(rs)->Ok_0 == ());
    assert(joined(rs) == Ok::<(), ProfileError>(()));
    Ok(())
}

/// A batch fails exactly when one of its results is an error.
pub proof fn lemma_joined_fails_iff_any_fails(results: Seq<Result<(), ProfileError>>)
    ensures
        joined(results) is Err <==> exists|i: int| 0 <= i < results.len() && (#[trigger] results[i]) is Err,
    decreases results.len(),
{
    if results.len() > 0 {
        let prev = results.drop_last();
        lemma_joined_fails_iff_any_fails(prev);
        if joined(prev) is Err {
            let i = choose|i: int| 0 <= i < prev.len() && (#[trigger] prev[i]) is Err;
            assert(results[i] == prev[i]);
        } else if joined(results) is Err {
            assert(results[results.len() - 1] is Err);
        } else {
            assert forall|i: int| 0 <= i < results.len() implies !((#[trigger] results[i]) is Err) by {
                if i < prev.len() {
                    assert(results[i] == prev[i]);
                }
            }
        }
    }
}

} // verus!
