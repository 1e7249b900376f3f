use std::collections::HashMap;
use vstd::prelude::*;

verus! {

broadcast use vstd::std_specs::hash::group_hash_axioms;

/// The longest array that `get_distances` takes: with it every sum of
/// distances fits the result's integer type.
pub const MAX_LENGTH: usize = 0x8000_0000;

/// How far two positions are apart.
pub open spec fn distance(i: int, j: int) -> int {
    if i <= j {
        j - i
    } else {
        i - j
    }
}

/// The sum of the distances from position `at` to the positions in
/// `from..to` that hold the same value as `at` does.
pub open spec fn distance_sum_in(arr: Seq<i32>, at: int, from: int, to: int) -> int
    decreases to - from,
{
    if to <= from {
        0
    } else if arr[to - 1] == arr[at] {
        distance_sum_in(arr, at, from, to - 1) + distance(at, to - 1)
    } else {
        distance_sum_in(arr, at, from, to - 1)
    }
}

/// The sum of the distances from position `at` to every position that
/// holds the same value.
pub open spec fn distance_sum(arr: Seq<i32>, at: int) -> int {
    distance_sum_in(arr, at, 0, arr.len() as int)
}

/// How many positions in `from..to` hold the value.
pub open spec fn occurrences(arr: Seq<i32>, value: i32, from: int, to: int) -> int
    decreases to - from,
{
    if to <= from {
        0
    } else if arr[to - 1] == value {
        occurrences(arr, value, from, to - 1) + 1
    } else {
        occurrences(arr, value, from, to - 1)
    }
}

/// The sum of the positions in `from..to` that hold the value.
pub open spec fn position_sum(arr: Seq<i32>, value: i32, from: int, to: int) -> int
    decreases to - from,
{
    if to <= from {
        0
    } else if arr[to - 1] == value {
        position_sum(arr, value, from, to - 1) + (to - 1)
    } else {
        position_sum(arr, value, from, to - 1)
    }
}

proof fn lemma_counts_bounded(arr: Seq<i32>, value: i32, from: int, to: int)
    requires
        0 <= from <= to,
    ensures
        0 <= occurrences(arr, value, from, to) <= to - from,
        0 <= position_sum(arr, value, from, to) <= (to - from) * to,
        occurrences(arr, value, from, to) == 0 ==> position_sum(arr, value, from, to) == 0,
    decreases to - from,
{
    if from < to {
        lemma_counts_bounded(arr, value, from, to - 1);
        assert((to - 1 - from) * (to - 1) + (to - 1) <= (to - from) * to) by (nonlinear_arith)
            requires
                0 <= from < to,
        ;
        assert((to - 1 - from) * (to - 1) <= (to - from) * to) by (nonlinear_arith)
            requires
                0 <= from < to,
        ;
    } else {
        assert((to - from) * to == 0) by (nonlinear_arith)
            requires
                to == from,
        ;
    }
}

proof fn lemma_counts_from_front(arr: Seq<i32>, value: i32, from: int, to: int)
    requires
        0 <= from < to,
    ensures
        occurrences(arr, value, from, to) == occurrences(arr, value, from + 1, to) + if arr[from]
            == value {
            1int
        } else {
            0
        },
        position_sum(arr, value, from, to) == position_sum(arr, value, from + 1, to) + if arr[from]
            == value {
            from
        } else {
            0
        },
    decreases to - from,
{
    if from + 1 < to {
        lemma_counts_from_front(arr, value, from, to - 1);
    } else {
        assert(occurrences(arr, value, from, to - 1) == 0);
        assert(position_sum(arr, value, from, to - 1) == 0);
    }
}

proof fn lemma_distances_to_the_left(arr: Seq<i32>, at: int, from: int, to: int)
    requires
        0 <= from <= to <= at + 1,
    ensures
        distance_sum_in(arr, at, from, to) == occurrences(arr, arr[at], from, to) * at
            - position_sum(arr, arr[at], from, to),
    decreases to - from,
{
    if from < to {
        lemma_distances_to_the_left(arr, at, from, to - 1);
        let before = occurrences(arr, arr[at], from, to - 1);
        assert((before + 1) * at == before * at + at) by (nonlinear_arith);
    } else {
        assert(0 * at == 0) by (nonlinear_arith);
    }
}

proof fn lemma_distances_to_the_right(arr: Seq<i32>, at: int, from: int, to: int)
    requires
        0 <= at <= from <= to,
    ensures
        distance_sum_in(arr, at, from, to) == position_sum(arr, arr[at], from, to) - occurrences(
            arr,
            arr[at],
            from,
            to,
        ) * at,
    decreases to - from,
{
    if from < to {
        lemma_distances_to_the_right(arr, at, from, to - 1);
        let before = occurrences(arr, arr[at], from, to - 1);
        assert((before + 1) * at == before * at + at) by (nonlinear_arith);
    } else {
        assert(0 * at == 0) by (nonlinear_arith);
    }
}

proof fn lemma_distances_split(arr: Seq<i32>, at: int, from: int, mid: int, to: int)
    requires
        from <= mid <= to,
    ensures
        distance_sum_in(arr, at, from, to) == distance_sum_in(arr, at, from, mid) + distance_sum_in(
            arr,
            at,
            mid,
            to,
        ),
    decreases to - mid,
{
    if mid < to {
        lemma_distances_split(arr, at, from, mid, to - 1);
    }
}

proof fn lemma_distances_bounded(arr: Seq<i32>, at: int, from: int, to: int, n: int)
    requires
        0 <= from <= to <= n,
        0 <= at < n,
    ensures
        0 <= distance_sum_in(arr, at, from, to) <= (to - from) * n,
    decreases to - from,
{
    if from < to {
        lemma_distances_bounded(arr, at, from, to - 1, n);
        assert((to - 1 - from) * n + n == (to - from) * n) by (nonlinear_arith);
    } else {
        assert((to - from) * n == 0) by (nonlinear_arith)
            requires
                to == from,
        ;
    }
}

/// What the counter holds while an array is walked: for every value seen
/// in `from..to`, how often it was seen and the sum of its positions.
spec fn summarises(counter: Map<i32, (u64, u64)>, arr: Seq<i32>, from: int, to: int) -> bool {
    forall|value: i32|
        {
            let seen = occurrences(arr, value, from, to);
            &&& #[trigger] counter.contains_key(value) <==> seen > 0
            &&& seen > 0 ==> counter[value] == (seen as u64, position_sum(arr, value, from, to) as u64)
        }
}

/// For each position, the sum of the distances to all positions that hold
/// the same value: for `[2, 1, 3, 1, 2, 3, 3]` it is `[4, 2, 7, 2, 4, 4, 5]`.
pub fn get_distances(arr: Vec<i32>) -> (result: Vec<i64>)
    requires
        arr@.len() <= MAX_LENGTH,
    ensures
        result@.len() == arr@.len(),
        forall|at: int| 0 <= at < arr@.len() ==> result@[at] == distance_sum(arr@, at),
{
    let n = arr.len();
    let ghost a = arr@;
    let mut result: Vec<i64> = Vec::new();
    let mut counter: HashMap<i32, (u64, u64)> = HashMap::new();
    let mut i: usize = 0;
    while i < n
        invariant
            i <= n,
            n == a.len(),
            a == arr@,
            n <= MAX_LENGTH,
            result@.len() == i,
            forall|at: int| 0 <= at < i ==> result@[at] == distance_sum_in(a, at, 0, at),
            summarises(counter@, a, 0, i as int),
        decreases n - i,
    {
        let value = arr[i];
        let ghost seen = occurrences(a, value, 0, i as int);
        let ghost sum = position_sum(a, value, 0, i as int);
        proof {
            lemma_counts_bounded(a, value, 0, i as int);
            lemma_distances_to_the_left(a, i as int, 0, i as int);
            lemma_distances_bounded(a, i as int, 0, i as int, n as int);
            assert(i * i <= 0x8000_0000 * 0x8000_0000) by (nonlinear_arith)
                requires
                    i <= 0x8000_0000,
            ;
            assert(seen * i <= i * i) by (nonlinear_arith)
                requires
                    0 <= seen <= i,
            ;
            assert(i * n <= 0x8000_0000 * 0x8000_0000) by (nonlinear_arith)
                requires
                    i <= n <= 0x8000_0000,
            ;
            assert(counter@.contains_key(value) <==> seen > 0);
        }
        let (count, positions): (u64, u64) = match counter.get(&value) {
            Some(entry) => (entry.0, entry.1),
            None => (0, 0),
        };
        assert(count == seen && positions == sum);
        let to_the_left: u64 = count * (i as u64) - positions;
        result.push(to_the_left as i64);
        counter.insert(value, (count + 1, positions + i as u64));
        proof {
            assert forall|other: i32|
                {
                    let seen = occurrences(a, other, 0, i + 1);
                    &&& #[trigger] counter@.contains_key(other) <==> seen > 0
                    &&& seen > 0 ==> counter@[other] == (
                        seen as u64,
                        position_sum(a, other, 0, i + 1) as u64,
                    )
                } by {
                lemma_counts_bounded(a, other, 0, i as int);
            }
        }
        i = i + 1;
    }
    counter.clear();
    let mut i: usize = n;
    while i > 0
        invariant
            i <= n,
            n == a.len(),
            a == arr@,
            n <= MAX_LENGTH,
            result@.len() == n,
            forall|at: int| 0 <= at < i ==> result@[at] == distance_sum_in(a, at, 0, at),
            forall|at: int| i <= at < n ==> result@[at] == distance_sum(a, at),
            summarises(counter@, a, i as int, n as int),
        decreases i,
    {
        i = i - 1;
        let value = arr[i];
        let ghost seen = occurrences(a, value, i + 1, n as int);
        let ghost sum = position_sum(a, value, i + 1, n as int);
        proof {
            lemma_counts_bounded(a, value, i + 1, n as int);
            lemma_distances_to_the_right(a, i as int, i + 1, n as int);
            lemma_distances_bounded(a, i as int, i + 1, n as int, n as int);
            lemma_distances_bounded(a, i as int, 0, i as int, n as int);
            lemma_distances_bounded(a, i as int, 0, n as int, n as int);
            lemma_distances_split(a, i as int, 0, i + 1, n as int);
            assert(distance_sum_in(a, i as int, 0, i + 1) == distance_sum_in(a, i as int, 0, i as int));
            assert((n - (i + 1)) * n <= 0x8000_0000 * 0x8000_0000) by (nonlinear_arith)
                requires
                    i < n <= 0x8000_0000,
            ;
            assert(seen * i <= 0x8000_0000 * 0x8000_0000) by (nonlinear_arith)
                requires
                    0 <= seen <= n - (i + 1),
                    i < n <= 0x8000_0000,
            ;
            assert(n * n <= 0x8000_0000 * 0x8000_0000) by (nonlinear_arith)
                requires
                    n <= 0x8000_0000,
            ;
            assert(counter@.contains_key(value) <==> seen > 0);
        }
        let (count, positions): (u64, u64) = match counter.get(&value) {
            Some(entry) => (entry.0, entry.1),
            None => (0, 0),
        };
        assert(count == seen && positions == sum);
        let to_the_right: u64 = positions - count * (i as u64);
        let total: i64 = result[i] + to_the_right as i64;
        result.set(i, total);
        let ghost before = counter@;
        counter.insert(value, (count + 1, positions + i as u64));
        proof {
            assert forall|other: i32|
                {
                    let seen = occurrences(a, other, i as int, n as int);
                    &&& #[trigger] counter@.contains_key(other) <==> seen > 0
                    &&& seen > 0 ==> counter@[other] == (
                        seen as u64,
                        position_sum(a, other, i as int, n as int) as u64,
                    )
                } by {
                lemma_counts_bounded(a, other, i + 1, n as int);
                lemma_counts_bounded(a, other, i as int, n as int);
                lemma_counts_from_front(a, other, i as int, n as int);
                assert(before.contains_key(other) <==> occurrences(a, other, i + 1, n as int) > 0);
            }
        }
    }
    result
}

} // verus!
