//! Division of a run range among workers.
use vstd::prelude::*;

use crate::config::Config;

verus! {

/// Number of runs of `first..=last` that worker `i` of `n` gets.
pub open spec fn subset_len(first: int, last: int, n: int, i: int) -> int {
    if first + i > last {
        0
    } else {
        (last - first - i) / n + 1
    }
}

/// Runs of worker `i` of `n`: `first + i`, `first + i + n`, ... up to `last`.
pub open spec fn subset_spec(first: int, last: int, n: int, i: int) -> Seq<int> {
    Seq::new(subset_len(first, last, n, i) as nat, |j: int| first + i + j * n)
}

/// The run range `first_run_number..=last_run_number`, dealt round-robin to
/// `n_threads` workers: run `first + k` goes to worker `k % n_threads`.
pub fn create_subsets(config: &Config) -> (r: Vec<Vec<i32>>)
    requires
        config.n_threads >= 1,
    ensures
        r@.len() == config.n_threads,
        forall|i: int|
            0 <= i < r@.len() ==> (#[trigger] r@[i])@.map_values(|x: i32| x as int) == subset_spec(
                config.first_run_number as int,
                config.last_run_number as int,
                config.n_threads as int,
                i,
            ),
{
    let n = config.n_threads as usize;
    let first = config.first_run_number as i64;
    let last = config.last_run_number as i64;
    let mut subsets: Vec<Vec<i32>> = Vec::new();
    let mut i: usize = 0;
    while i < n
        invariant
            n == config.n_threads,
            n >= 1,
            first == config.first_run_number,
            last == config.last_run_number,
            i <= n,
            subsets@.len() == i,
            forall|k: int|
                0 <= k < i ==> (#[trigger] subsets@[k])@.map_values(|x: i32| x as int) == subset_spec(
                    first as int,
                    last as int,
                    n as int,
                    k,
                ),
        decreases n - i,
    {
        let mut runs: Vec<i32> = Vec::new();
        let mut run: i64 = first + i as i64;
        let mut j: usize = 0;
        while run <= last
            invariant
                n == config.n_threads,
                n >= 1,
                i < n,
                first == config.first_run_number,
                last == config.last_run_number,
                run == first + i + j * n,
                runs@.len() == j,
                forall|m: int| 0 <= m < j ==> #[trigger] runs@[m] == first + i + m * n,
                j == 0 || run - n <= last,
                j <= subset_len(first as int, last as int, n as int, i as int),
                run <= last ==> j < subset_len(first as int, last as int, n as int, i as int),
            decreases last - run + n,
        {
            runs.push(run as i32);
            proof {
                assert((last - first - i) / (n as int) >= j) by {
                    assert(j * n <= last - first - i);
                    vstd::arithmetic::div_mod::lemma_div_is_ordered(j * n, last - first - i, n as int);
                    vstd::arithmetic::div_mod::lemma_div_multiples_vanish(j as int, n as int);
                }
            }
            proof {
                assert((j + 1) * n == j * n + n) by (nonlinear_arith);
            }
            run = run + n as i64;
            j = runs.len();
            proof {
                if run <= last {
                    assert(j * n <= last - first - i) by (nonlinear_arith)
                        requires
                            run == first + i + j * n,
                            run <= last,
                    ;
                    vstd::arithmetic::div_mod::lemma_div_is_ordered(j * n, last - first - i, n as int);
                    vstd::arithmetic::div_mod::lemma_div_multiples_vanish(j as int, n as int);
                }
            }
        }
        proof {
            let len = subset_len(first as int, last as int, n as int, i as int);
            if j < len {
                assert(first + i <= last);
                assert((last - first - i) / (n as int) >= j);
                assert(j * n <= last - first - i) by {
                    vstd::arithmetic::div_mod::lemma_fundamental_div_mod(last - first - i, n as int);
                    vstd::arithmetic::mul::lemma_mul_inequality(j as int, (last - first - i) / (n as int), n as int);
                    vstd::arithmetic::mul::lemma_mul_is_commutative(n as int, (last - first - i) / (n as int));
                }
                assert(false);
            }
            assert(runs@.map_values(|x: i32| x as int) =~= subset_spec(first as int, last as int, n as int, i as int));
        }
        subsets.push(runs);
        i = i + 1;
    }
    subsets
}

proof fn lemma_div_gap(x: int, y: int, n: int)
    requires
        n >= 1,
        0 <= y <= x,
        x - y < n,
    ensures
        y / n <= x / n <= y / n + 1,
{
    vstd::arithmetic::div_mod::lemma_div_is_ordered(y, x, n);
    vstd::arithmetic::div_mod::lemma_fundamental_div_mod(x, n);
    vstd::arithmetic::div_mod::lemma_fundamental_div_mod(y, n);
    vstd::arithmetic::div_mod::lemma_mod_bound(x, n);
    vstd::arithmetic::div_mod::lemma_mod_bound(y, n);
    let qx = x / n;
    let qy = y / n;
    assert((qx - qy) * n < 2 * n) by (nonlinear_arith)
        requires
            x == n * qx + x % n,
            y == n * qy + y % n,
            0 <= x % n < n,
            0 <= y % n < n,
            x - y < n,
    ;
    assert(qx - qy < 2) by (nonlinear_arith)
        requires
            (qx - qy) * n < 2 * n,
            n >= 1,
    ;
}

/// Round-robin division of `first..=last` among `n` workers: every run of
/// the range goes to exactly one worker, no worker gets a run outside it,
/// and the numbers of runs of two workers differ by at most one.
pub proof fn lemma_partition(first: int, last: int, n: int)
    requires
        n >= 1,
    ensures
        forall|r: int|
            first <= r <= last ==> #[trigger] subset_spec(first, last, n, (r - first) % n).contains(r),
        forall|i: int, j: int, r: int|
            0 <= i < n && 0 <= j < n && #[trigger] subset_spec(first, last, n, i).contains(r)
                && #[trigger] subset_spec(first, last, n, j).contains(r) ==> i == j,
        forall|i: int, r: int|
            0 <= i < n && #[trigger] subset_spec(first, last, n, i).contains(r) ==> first <= r <= last,
        forall|i: int, j: int|
            0 <= i < n && 0 <= j < n ==> #[trigger] subset_len(first, last, n, i) <= #[trigger] subset_len(
                first,
                last,
                n,
                j,
            ) + 1,
{
    assert forall|r: int| first <= r <= last implies #[trigger] subset_spec(first, last, n, (r - first) % n).contains(r) by {
        let k = r - first;
        vstd::arithmetic::div_mod::lemma_fundamental_div_mod(k, n);
        vstd::arithmetic::div_mod::lemma_mod_bound(k, n);
        let i = k % n;
        let q = k / n;
        assert(q >= 0) by {
            vstd::arithmetic::div_mod::lemma_div_pos_is_pos(k, n);
        }
        assert(q * n == k - i) by (nonlinear_arith)
            requires
                k == n * q + i,
        ;
        vstd::arithmetic::div_mod::lemma_div_is_ordered(q * n, last - first - i, n);
        vstd::arithmetic::div_mod::lemma_div_multiples_vanish(q, n);
        let sub = subset_spec(first, last, n, i);
        assert(0 <= q < sub.len());
        assert(sub[q] == first + i + q * n);
        assert(sub[q] == r);
    }
    assert forall|i: int, j: int, r: int|
        0 <= i < n && 0 <= j < n && #[trigger] subset_spec(first, last, n, i).contains(r)
            && #[trigger] subset_spec(first, last, n, j).contains(r) implies i == j by {
        let a = choose|a: int| 0 <= a < subset_spec(first, last, n, i).len() && subset_spec(first, last, n, i)[a] == r;
        let b = choose|b: int| 0 <= b < subset_spec(first, last, n, j).len() && subset_spec(first, last, n, j)[b] == r;
        assert(i + a * n == j + b * n);
        assert(i == j) by (nonlinear_arith)
            requires
                i + a * n == j + b * n,
                0 <= i < n,
                0 <= j < n,
        {
            if a < b {
                assert((b - a) * n >= n) by (nonlinear_arith)
                    requires
                        b - a >= 1,
                        n >= 1,
                ;
            } else if a > b {
                assert((a - b) * n >= n) by (nonlinear_arith)
                    requires
                        a - b >= 1,
                        n >= 1,
                ;
            }
        }
    }
    assert forall|i: int, r: int| 0 <= i < n && #[trigger] subset_spec(first, last, n, i).contains(r) implies first <= r <= last by {
        let sub = subset_spec(first, last, n, i);
        let a = choose|a: int| 0 <= a < sub.len() && sub[a] == r;
        assert(a <= (last - first - i) / n);
        vstd::arithmetic::div_mod::lemma_fundamental_div_mod(last - first - i, n);
        vstd::arithmetic::div_mod::lemma_mod_bound(last - first - i, n);
        assert(a * n <= last - first - i) by (nonlinear_arith)
            requires
                a <= (last - first - i) / n,
                last - first - i == n * ((last - first - i) / n) + (last - first - i) % n,
                0 <= (last - first - i) % n,
                n >= 1,
        ;
        assert(a * n >= 0) by (nonlinear_arith)
            requires
                a >= 0,
                n >= 1,
        ;
    }
    assert forall|i: int, j: int| 0 <= i < n && 0 <= j < n implies #[trigger] subset_len(first, last, n, i)
        <= #[trigger] subset_len(first, last, n, j) + 1 by {
        let d = last - first;
        if first + i <= last && first + j <= last {
            if i <= j {
                lemma_div_gap(d - i, d - j, n);
            } else {
                lemma_div_gap(d - j, d - i, n);
            }
        } else if first + i <= last {
            vstd::arithmetic::div_mod::lemma_basic_div(d - i, n);
        }
    }
}

} // verus!
