//! Finite sums over the positions of a list, and how they can be
//! rearranged.

use vstd::prelude::*;

verus! {

/// The sum of `f` over the positions below `n`.
pub open spec fn sum_to(n: nat, f: spec_fn(int) -> int) -> int
    decreases n,
{
    if n == 0 {
        0
    } else {
        sum_to((n - 1) as nat, f) + f(n - 1)
    }
}

/// Sums of functions that agree below `n` are equal.
pub proof fn lemma_sum_same(n: nat, f: spec_fn(int) -> int, g: spec_fn(int) -> int)
    requires
        forall|k: int| 0 <= k < n ==> #[trigger] f(k) == g(k),
    ensures
        sum_to(n, f) == sum_to(n, g),
    decreases n,
{
    if n > 0 {
        lemma_sum_same((n - 1) as nat, f, g);
    }
}

/// The sum of a sum is the sum of the sums.
pub proof fn lemma_sum_add(n: nat, f: spec_fn(int) -> int, g: spec_fn(int) -> int)
    ensures
        sum_to(n, |k: int| f(k) + g(k)) == sum_to(n, f) + sum_to(n, g),
    decreases n,
{
    if n > 0 {
        lemma_sum_add((n - 1) as nat, f, g);
    }
}

/// The sum of a difference is the difference of the sums.
pub proof fn lemma_sum_sub(n: nat, f: spec_fn(int) -> int, g: spec_fn(int) -> int)
    ensures
        sum_to(n, |k: int| f(k) - g(k)) == sum_to(n, f) - sum_to(n, g),
    decreases n,
{
    if n > 0 {
        lemma_sum_sub((n - 1) as nat, f, g);
    }
}

/// A sum of values that are not negative is not negative and is at least
/// each of them.
pub proof fn lemma_sum_nonneg(n: nat, f: spec_fn(int) -> int)
    requires
        forall|k: int| 0 <= k < n ==> #[trigger] f(k) >= 0,
    ensures
        sum_to(n, f) >= 0,
        forall|k: int| 0 <= k < n ==> #[trigger] f(k) <= sum_to(n, f),
    decreases n,
{
    if n > 0 {
        lemma_sum_nonneg((n - 1) as nat, f);
    }
}

/// A sum of values that are no greater than those of another sum is no
/// greater than that sum.
pub proof fn lemma_sum_le(n: nat, f: spec_fn(int) -> int, g: spec_fn(int) -> int)
    requires
        forall|k: int| 0 <= k < n ==> #[trigger] f(k) <= g(k),
    ensures
        sum_to(n, f) <= sum_to(n, g),
    decreases n,
{
    if n > 0 {
        lemma_sum_le((n - 1) as nat, f, g);
    }
}

/// A sum that is zero everywhere but at one position is the value there.
pub proof fn lemma_sum_pick(n: nat, f: spec_fn(int) -> int, at: int)
    requires
        forall|k: int| 0 <= k < n && k != at ==> #[trigger] f(k) == 0,
    ensures
        sum_to(n, f) == (if 0 <= at < n {
            f(at)
        } else {
            0
        }),
    decreases n,
{
    if n > 0 {
        lemma_sum_pick((n - 1) as nat, f, at);
    }
}

/// A sum over rows of sums over columns is the sum over columns of the sums
/// over rows.
pub proof fn lemma_sum_swap(n: nat, m: nat, h: spec_fn(int, int) -> int)
    ensures
        sum_to(n, |j: int| sum_to(m, |s: int| h(j, s))) == sum_to(
            m,
            |s: int| sum_to(n, |j: int| h(j, s)),
        ),
    decreases n,
{
    let rows = |j: int| sum_to(m, |s: int| h(j, s));
    let columns = |s: int| sum_to(n, |j: int| h(j, s));
    if n == 0 {
        assert forall|s: int| 0 <= s < m implies #[trigger] columns(s) == 0 by {}
        lemma_sum_pick(m, columns, -1);
    } else {
        let fewer = (n - 1) as nat;
        lemma_sum_swap(fewer, m, h);
        let columns_before = |s: int| sum_to(fewer, |j: int| h(j, s));
        let last_row = |s: int| h(n - 1, s);
        lemma_sum_add(m, columns_before, last_row);
        assert forall|s: int| 0 <= s < m implies #[trigger] columns(s) == columns_before(s)
            + last_row(s) by {}
        lemma_sum_same(m, columns, |s: int| columns_before(s) + last_row(s));
        let rows_before = |j: int| sum_to(m, |s: int| h(j, s));
        assert(rows(n - 1) == sum_to(m, last_row)) by {
            lemma_sum_same(m, |s: int| h(n - 1, s), last_row);
        }
    }
}

/// Two lists of slots point at each other: position `j` of the first names
/// `s` exactly when position `s` of the second names `j`.
pub open spec fn slots_are_mutual(a: Seq<Option<usize>>, b: Seq<Option<usize>>) -> bool {
    &&& a.len() == b.len()
    &&& a.len() <= usize::MAX
    &&& forall|j: int| 0 <= j < a.len() && (#[trigger] a[j]) is Some ==> a[j]->0 < a.len()
    &&& forall|s: int| 0 <= s < b.len() && (#[trigger] b[s]) is Some ==> b[s]->0 < b.len()
    &&& forall|j: int, s: int|
        0 <= j < a.len() && 0 <= s < a.len() ==> (#[trigger] a[j] == Some(s as usize)
            <==> #[trigger] b[s] == Some(j as usize))
}

/// What position `j` gets through its slot.
pub open spec fn through_slot(slot: Option<usize>, j: int, h: spec_fn(int, int) -> int) -> int {
    match slot {
        Some(s) => h(j, s as int),
        None => 0,
    }
}

/// What position `s` gives through its slot.
pub open spec fn into_slot(slot: Option<usize>, s: int, h: spec_fn(int, int) -> int) -> int {
    match slot {
        Some(j) => h(j as int, s),
        None => 0,
    }
}

/// Where slots point at each other, all that is received through the one
/// kind of slot is all that is given through the other.
#[verifier::rlimit(50)]
pub proof fn lemma_sum_over_mutual_slots(
    a: Seq<Option<usize>>,
    b: Seq<Option<usize>>,
    h: spec_fn(int, int) -> int,
)
    requires
        slots_are_mutual(a, b),
    ensures
        sum_to(a.len(), |j: int| through_slot(a[j], j, h)) == sum_to(
            a.len(),
            |s: int| into_slot(b[s], s, h),
        ),
{
    let n = a.len();
    let pair = |j: int, s: int|
        if a[j] == Some(s as usize) {
            h(j, s)
        } else {
            0
        };
    let received = |j: int| through_slot(a[j], j, h);
    let given = |s: int| into_slot(b[s], s, h);
    let rows = |j: int| sum_to(n, |s: int| pair(j, s));
    let columns = |s: int| sum_to(n, |j: int| pair(j, s));
    assert forall|j: int| 0 <= j < n implies #[trigger] rows(j) == received(j) by {
        let row = |s: int| pair(j, s);
        let at: int = if a[j] is Some {
            a[j]->0 as int
        } else {
            -1
        };
        assert forall|k: int| 0 <= k < n && k != at implies #[trigger] row(k) == 0 by {}
        lemma_sum_pick(n, row, at);
    }
    assert forall|s: int| 0 <= s < n implies #[trigger] columns(s) == given(s) by {
        let column = |j: int| pair(j, s);
        let at: int = if b[s] is Some {
            b[s]->0 as int
        } else {
            -1
        };
        assert forall|k: int| 0 <= k < n && k != at implies #[trigger] column(k) == 0 by {
            if a[k] == Some(s as usize) {
                assert(b[s] == Some(k as usize));
            }
        }
        lemma_sum_pick(n, column, at);
        if b[s] is Some {
            assert(a[at] == Some(s as usize));
        }
    }
    lemma_sum_same(n, rows, received);
    lemma_sum_same(n, columns, given);
    lemma_sum_swap(n, n, pair);
    lemma_sum_same(n, rows, |j: int| sum_to(n, |s: int| pair(j, s)));
    lemma_sum_same(n, columns, |s: int| sum_to(n, |j: int| pair(j, s)));
}

} // verus!
