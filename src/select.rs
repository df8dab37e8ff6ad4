use vstd::prelude::*;
use crate::submission::{Submission, ArchiveKey, key_of, accepted, holds_key, key_is_held};

verus! {

/// Submission `i` is accepted and its key is not archived yet.
pub open spec fn is_candidate(subs: Seq<Submission>, archived: Seq<ArchiveKey>, i: int) -> bool {
    0 <= i < subs.len() && accepted(subs[i]) && !holds_key(archived, key_of(subs[i]))
}

/// The order of processing: later submissions first; among equal times,
/// the one listed first.
pub open spec fn precedes(subs: Seq<Submission>, i: int, j: int) -> bool {
    subs[i].epoch_second > subs[j].epoch_second || (subs[i].epoch_second == subs[j].epoch_second
        && i < j)
}

/// Submission `i` is the one archived for its key: it precedes every other
/// candidate with the same key.
pub open spec fn is_winner(subs: Seq<Submission>, archived: Seq<ArchiveKey>, i: int) -> bool {
    &&& is_candidate(subs, archived, i)
    &&& forall|j: int|
        #![trigger is_candidate(subs, archived, j)]
        is_candidate(subs, archived, j) && key_of(subs[j]) == key_of(subs[i]) && j != i
            ==> precedes(subs, i, j)
}

/// `r` lists, as indices into `subs`, exactly the winners, in processing order.
pub open spec fn is_selection(
    subs: Seq<Submission>,
    archived: Seq<ArchiveKey>,
    r: Seq<usize>,
) -> bool {
    &&& forall|k: int| 0 <= k < r.len() ==> is_winner(subs, archived, #[trigger] r[k] as int)
    &&& forall|i: int|
        is_winner(subs, archived, i) ==> exists|k: int| 0 <= k < r.len() && #[trigger] r[k] == i
    &&& forall|k1: int, k2: int|
        0 <= k1 < k2 < r.len() ==> precedes(subs, #[trigger] r[k1] as int, #[trigger] r[k2] as int)
}

/// For each submission, whether it is a candidate.
fn candidate_flags(subs: &Vec<Submission>, archived: &Vec<ArchiveKey>) -> (r: Vec<bool>)
    ensures
        r@.len() == subs@.len(),
        forall|i: int| 0 <= i < subs@.len() ==> r@[i] == is_candidate(subs@, archived@, i),
{
    let mut r: Vec<bool> = Vec::new();
    let mut i: usize = 0;
    while i < subs.len()
        invariant
            i <= subs@.len(),
            r@.len() == i,
            forall|t: int| 0 <= t < i ==> r@[t] == is_candidate(subs@, archived@, t),
        decreases subs@.len() - i,
    {
        let c = subs[i].is_accepted() && !key_is_held(archived, &subs[i]);
        r.push(c);
        i = i + 1;
    }
    r
}

fn precedes_exec(subs: &Vec<Submission>, i: usize, j: usize) -> (r: bool)
    requires
        i < subs@.len(),
        j < subs@.len(),
    ensures
        r == precedes(subs@, i as int, j as int),
{
    subs[i].epoch_second > subs[j].epoch_second || (subs[i].epoch_second == subs[j].epoch_second
        && i < j)
}

fn winner_exec(subs: &Vec<Submission>, archived: &Vec<ArchiveKey>, cand: &Vec<bool>, i: usize) -> (r: bool)
    requires
        i < subs@.len(),
        cand@.len() == subs@.len(),
        forall|t: int| 0 <= t < subs@.len() ==> cand@[t] == is_candidate(subs@, archived@, t),
    ensures
        r == is_winner(subs@, archived@, i as int),
{
    if !cand[i] {
        return false;
    }
    let mut j: usize = 0;
    while j < subs.len()
        invariant
            i < subs@.len(),
            j <= subs@.len(),
            cand@.len() == subs@.len(),
            forall|t: int| 0 <= t < subs@.len() ==> cand@[t] == is_candidate(subs@, archived@, t),
            forall|t: int|
                0 <= t < j && is_candidate(subs@, archived@, t) && key_of(subs@[t]) == key_of(
                    subs@[i as int],
                ) && t != i ==> precedes(subs@, i as int, t),
        decreases subs@.len() - j,
    {
        if j != i && cand[j] && !precedes_exec(subs, i, j) && subs[j].same_key(&subs[i]) {
            return false;
        }
        j = j + 1;
    }
    assert forall|t: int|
        #![trigger is_candidate(subs@, archived@, t)]
        is_candidate(subs@, archived@, t) && key_of(subs@[t]) == key_of(subs@[i as int]) && t
            != i implies precedes(subs@, i as int, t) by {}
    true
}

/// The submissions to archive, as indices into `subs`: for each key that has
/// an accepted submission and is not in `archived`, the most recent such
/// submission (the first listed among equally recent ones); most recent first.
pub fn select_submissions(subs: &Vec<Submission>, archived: &Vec<ArchiveKey>) -> (r: Vec<usize>)
    ensures
        is_selection(subs@, archived@, r@),
{
    let cand = candidate_flags(subs, archived);
    let mut r: Vec<usize> = Vec::new();
    let mut i: usize = 0;
    while i < subs.len()
        invariant
            i <= subs@.len(),
            cand@.len() == subs@.len(),
            forall|t: int| 0 <= t < subs@.len() ==> cand@[t] == is_candidate(subs@, archived@, t),
            forall|k: int| 0 <= k < r@.len() ==> is_winner(subs@, archived@, #[trigger] r@[k] as int),
            forall|k: int| 0 <= k < r@.len() ==> #[trigger] r@[k] < i,
            forall|w: int|
                0 <= w < i && is_winner(subs@, archived@, w) ==> exists|k: int|
                    0 <= k < r@.len() && #[trigger] r@[k] == w,
            forall|k1: int, k2: int|
                0 <= k1 < k2 < r@.len() ==> precedes(
                    subs@,
                    #[trigger] r@[k1] as int,
                    #[trigger] r@[k2] as int,
                ),
        decreases subs@.len() - i,
    {
        if winner_exec(subs, archived, &cand, i) {
            let mut p: usize = 0;
            while p < r.len() && !precedes_exec(subs, i, r[p])
                invariant
                    i < subs@.len(),
                    p <= r@.len(),
                    forall|k: int| 0 <= k < r@.len() ==> #[trigger] r@[k] < i,
                    forall|k: int| 0 <= k < p ==> precedes(subs@, #[trigger] r@[k] as int, i as int),
                decreases r@.len() - p,
            {
                p = p + 1;
            }
            let ghost old_r = r@;
            r.insert(p, i);
            proof {
                assert forall|k1: int, k2: int| 0 <= k1 < k2 < r@.len() implies precedes(
                    subs@,
                    #[trigger] r@[k1] as int,
                    #[trigger] r@[k2] as int,
                ) by {
                    if k2 < p {
                    } else if k2 == p {
                    } else if k1 < p {
                        assert(precedes(subs@, i as int, old_r[p as int] as int));
                    } else if k1 == p {
                        assert(precedes(subs@, i as int, old_r[p as int] as int));
                        if k2 - 1 > p {
                            assert(precedes(subs@, old_r[p as int] as int, old_r[k2 - 1] as int));
                        }
                    } else {
                        assert(r@[k1] == old_r[k1 - 1]);
                        assert(r@[k2] == old_r[k2 - 1]);
                    }
                }
                assert forall|w: int|
                    0 <= w < i + 1 && is_winner(subs@, archived@, w) implies exists|k: int|
                        0 <= k < r@.len() && #[trigger] r@[k] == w by {
                    if w == i {
                        assert(r@[p as int] == w);
                    } else {
                        let k0 = choose|k: int| 0 <= k < old_r.len() && old_r[k] == w;
                        if k0 < p {
                            assert(r@[k0] == w);
                        } else {
                            assert(r@[k0 + 1] == w);
                        }
                    }
                }
            }
        }
        i = i + 1;
    }
    r
}

/// The candidate with key `k` that comes first in processing order among
/// indices below `n`, or -1 when there is none.
pub open spec fn first_with_key(
    subs: Seq<Submission>,
    archived: Seq<ArchiveKey>,
    k: (Seq<char>, Seq<char>),
    n: int,
) -> int
    decreases n,
{
    if n <= 0 {
        -1
    } else {
        let b = first_with_key(subs, archived, k, n - 1);
        if is_candidate(subs, archived, n - 1) && key_of(subs[n - 1]) == k && (b < 0 || precedes(
            subs,
            n - 1,
            b,
        )) {
            n - 1
        } else {
            b
        }
    }
}

proof fn lemma_first_with_key(
    subs: Seq<Submission>,
    archived: Seq<ArchiveKey>,
    k: (Seq<char>, Seq<char>),
    n: int,
)
    requires
        0 <= n <= subs.len(),
    ensures
        ({
            let b = first_with_key(subs, archived, k, n);
            &&& b < n
            &&& b >= 0 ==> is_candidate(subs, archived, b) && key_of(subs[b]) == k
            &&& forall|j: int|
                0 <= j < n && is_candidate(subs, archived, j) && key_of(subs[j]) == k ==> b >= 0
                    && (b == j || precedes(subs, b, j))
        }),
    decreases n,
{
    if n > 0 {
        lemma_first_with_key(subs, archived, k, n - 1);
        let b0 = first_with_key(subs, archived, k, n - 1);
        let b = first_with_key(subs, archived, k, n);
        assert forall|j: int|
            0 <= j < n && is_candidate(subs, archived, j) && key_of(subs[j]) == k implies b >= 0
                && (b == j || precedes(subs, b, j)) by {
            if j < n - 1 {
                assert(b0 >= 0 && (b0 == j || precedes(subs, b0, j)));
            }
        }
    }
}

/// Every candidate's key has a winner, which is never later than that candidate.
proof fn lemma_candidate_has_winner(subs: Seq<Submission>, archived: Seq<ArchiveKey>, i: int) -> (w: int)
    requires
        is_candidate(subs, archived, i),
    ensures
        is_winner(subs, archived, w),
        key_of(subs[w]) == key_of(subs[i]),
        w == i || precedes(subs, w, i),
{
    let k = key_of(subs[i]);
    lemma_first_with_key(subs, archived, k, subs.len() as int);
    let w = first_with_key(subs, archived, k, subs.len() as int);
    assert forall|j: int|
        #![trigger is_candidate(subs, archived, j)]
        is_candidate(subs, archived, j) && key_of(subs[j]) == key_of(subs[w]) && j != w
            implies precedes(subs, w, j) by {}
    w
}

/// Each key occurs at most once among the selected submissions, and none of
/// them is already archived.
pub proof fn lemma_selection_keys_unique(
    subs: Seq<Submission>,
    archived: Seq<ArchiveKey>,
    r: Seq<usize>,
)
    requires
        is_selection(subs, archived, r),
    ensures
        forall|k1: int, k2: int|
            0 <= k1 < r.len() && 0 <= k2 < r.len() && k1 != k2 ==> key_of(subs[#[trigger] r[k1] as int])
                != key_of(subs[#[trigger] r[k2] as int]),
        forall|k: int| 0 <= k < r.len() ==> !holds_key(archived, key_of(subs[#[trigger] r[k] as int])),
{
    assert forall|k1: int, k2: int|
        0 <= k1 < r.len() && 0 <= k2 < r.len() && k1 != k2 implies key_of(subs[#[trigger] r[k1] as int])
            != key_of(subs[#[trigger] r[k2] as int]) by {
        let a = r[k1] as int;
        let b = r[k2] as int;
        assert(is_winner(subs, archived, a));
        assert(is_winner(subs, archived, b));
        if k1 < k2 {
            assert(precedes(subs, a, b));
        } else {
            assert(precedes(subs, b, a));
        }
        if key_of(subs[a]) == key_of(subs[b]) {
            assert(is_candidate(subs, archived, b));
            assert(is_candidate(subs, archived, a));
        }
    }
    assert forall|k: int| 0 <= k < r.len() implies !holds_key(archived, key_of(subs[#[trigger] r[k] as int])) by {
        assert(is_winner(subs, archived, r[k] as int));
    }
}

/// Keys listed without repetition.
pub open spec fn distinct_keys(keys: Seq<(Seq<char>, Seq<char>)>) -> bool {
    forall|a: int, b: int| 0 <= a < b < keys.len() ==> keys[a] != keys[b]
}

/// The archive holds at most one entry per key after any run: if the keys
/// archived so far (`before`, the keys whose view `archived` holds) are
/// distinct, so are they together with the keys of any of the selected
/// submissions (`written`, ascending positions in the selection) that a run
/// archives.
pub proof fn lemma_run_keeps_keys_unique(
    subs: Seq<Submission>,
    archived: Seq<ArchiveKey>,
    r: Seq<usize>,
    written: Seq<int>,
)
    requires
        is_selection(subs, archived, r),
        distinct_keys(archived.map_values(|a: ArchiveKey| a@)),
        forall|t: int| 0 <= t < written.len() ==> 0 <= #[trigger] written[t] < r.len(),
        forall|t1: int, t2: int| 0 <= t1 < t2 < written.len() ==> #[trigger] written[t1] < #[trigger] written[t2],
    ensures
        distinct_keys(
            archived.map_values(|a: ArchiveKey| a@) + written.map_values(
                |t: int| key_of(subs[r[t] as int]),
            ),
        ),
{
    lemma_selection_keys_unique(subs, archived, r);
    let before = archived.map_values(|a: ArchiveKey| a@);
    let added = written.map_values(|t: int| key_of(subs[r[t] as int]));
    let all = before + added;
    assert forall|a: int, b: int| 0 <= a < b < all.len() implies all[a] != all[b] by {
        if b >= before.len() {
            let tb = written[b - before.len()];
            assert(all[b] == key_of(subs[r[tb] as int]));
            if a >= before.len() {
                let ta = written[a - before.len()];
                assert(ta < tb);
                assert(all[a] == key_of(subs[r[ta] as int]));
            } else {
                assert(!holds_key(archived, key_of(subs[r[tb] as int])));
                assert(archived[a]@ == all[a]);
            }
        }
    }
}

/// Running again with nothing new is a no-op: once every selected submission
/// is archived (`archived2` holds the keys of `archived` and of the
/// selection), a second selection over the same submissions is empty.
pub proof fn lemma_rerun_selects_nothing(
    subs: Seq<Submission>,
    archived: Seq<ArchiveKey>,
    r: Seq<usize>,
    archived2: Seq<ArchiveKey>,
    r2: Seq<usize>,
)
    requires
        is_selection(subs, archived, r),
        forall|k: (Seq<char>, Seq<char>)| holds_key(archived, k) ==> holds_key(archived2, k),
        forall|k: int| 0 <= k < r.len() ==> holds_key(archived2, key_of(subs[#[trigger] r[k] as int])),
        is_selection(subs, archived2, r2),
    ensures
        r2.len() == 0,
{
    if r2.len() > 0 {
        let i = r2[0] as int;
        assert(is_winner(subs, archived2, i));
        assert(is_candidate(subs, archived, i));
        let w = lemma_candidate_has_winner(subs, archived, i);
        let k = choose|k: int| 0 <= k < r.len() && r[k] == w;
        assert(holds_key(archived2, key_of(subs[r[k] as int])));
    }
}

/// Of two accepted submissions for the same unarchived problem, the earlier
/// one is never selected, and the problem's selected submission is at least
/// as recent as the later one.
pub proof fn lemma_most_recent_wins(
    subs: Seq<Submission>,
    archived: Seq<ArchiveKey>,
    r: Seq<usize>,
    i: int,
    j: int,
)
    requires
        is_selection(subs, archived, r),
        0 <= i < subs.len(),
        0 <= j < subs.len(),
        accepted(subs[i]),
        accepted(subs[j]),
        key_of(subs[i]) == key_of(subs[j]),
        !holds_key(archived, key_of(subs[i])),
        subs[i].epoch_second > subs[j].epoch_second,
    ensures
        forall|k: int| 0 <= k < r.len() ==> #[trigger] r[k] != j,
        exists|k: int|
            0 <= k < r.len() && key_of(subs[#[trigger] r[k] as int]) == key_of(subs[i])
                && subs[r[k] as int].epoch_second >= subs[i].epoch_second,
{
    assert(is_candidate(subs, archived, i));
    assert(!is_winner(subs, archived, j));
    let w = lemma_candidate_has_winner(subs, archived, i);
    let k = choose|k: int| 0 <= k < r.len() && r[k] == w;
    assert(key_of(subs[r[k] as int]) == key_of(subs[i]));
}

} // verus!
