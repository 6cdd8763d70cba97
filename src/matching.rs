//! Closest-match resolution: the task whose description is nearest to a query
//! by case-insensitive edit distance, the first one in store order on a tie.
use vstd::prelude::*;
use crate::task::Task;
use crate::text::{edit_distance, levenshtein_of, lower_of, lowercase};

verus! {

/// `i` is the position of the first smallest entry of `d`.
pub open spec fn is_first_min(d: Seq<usize>, i: int) -> bool {
    &&& 0 <= i < d.len()
    &&& forall|j: int| 0 <= j < d.len() ==> d[i] <= #[trigger] d[j]
    &&& forall|j: int| 0 <= j < i ==> d[i] < #[trigger] d[j]
}

/// The case-insensitive edit distance from a task's description to a query.
pub open spec fn task_distance(t: Task, query: Seq<char>) -> usize {
    levenshtein_of(lower_of(t.description@), lower_of(query))
}

/// The distance of each task of `tasks` to `query`, in store order.
pub open spec fn task_distances(tasks: Seq<Task>, query: Seq<char>) -> Seq<usize> {
    Seq::new(tasks.len(), |j: int| task_distance(tasks[j], query))
}

/// The description of `t` equals `query` when case is ignored.
pub open spec fn matches_exactly(t: Task, query: Seq<char>) -> bool {
    lower_of(t.description@) == lower_of(query)
}

/// The index of the closest task; meaningful only for a non-empty store.
pub open spec fn closest_index(tasks: Seq<Task>, query: Seq<char>) -> int {
    choose|i: int| is_first_min(task_distances(tasks, query), i)
}

/// A sequence has at most one first smallest entry.
pub proof fn lemma_first_min_unique(d: Seq<usize>, i: int, j: int)
    requires
        is_first_min(d, i),
        is_first_min(d, j),
    ensures
        i == j,
{
    if i < j {
        assert(d[j] < d[i]);
    } else if j < i {
        assert(d[i] < d[j]);
    }
}

/// Every non-empty sequence has a first smallest entry.
pub proof fn lemma_first_min_exists(d: Seq<usize>)
    requires
        d.len() > 0,
    ensures
        exists|i: int| is_first_min(d, i),
    decreases d.len(),
{
    if d.len() == 1 {
        assert(is_first_min(d, 0));
    } else {
        let p = d.drop_last();
        lemma_first_min_exists(p);
        let k = choose|i: int| is_first_min(p, i);
        let n = d.len() - 1;
        if d[n] < d[k] {
            assert forall|j: int| 0 <= j < d.len() implies d[n] <= #[trigger] d[j] by {
                if j < n {
                    assert(p[j] == d[j]);
                }
            }
            assert forall|j: int| 0 <= j < n implies d[n] < #[trigger] d[j] by {
                assert(p[j] == d[j]);
            }
            assert(is_first_min(d, n));
        } else {
            assert forall|j: int| 0 <= j < d.len() implies d[k] <= #[trigger] d[j] by {
                if j < n {
                    assert(p[j] == d[j]);
                }
            }
            assert forall|j: int| 0 <= j < k implies d[k] < #[trigger] d[j] by {
                assert(p[j] == d[j]);
            }
            assert(is_first_min(d, k));
        }
    }
}

/// The closest task of a non-empty store is well defined, and it is the one
/// that any first-minimum search over the distances finds.
pub proof fn lemma_closest_index(tasks: Seq<Task>, query: Seq<char>)
    requires
        tasks.len() > 0,
    ensures
        is_first_min(task_distances(tasks, query), closest_index(tasks, query)),
        forall|i: int|
            #[trigger] is_first_min(task_distances(tasks, query), i) ==> i == closest_index(
                tasks,
                query,
            ),
{
    let d = task_distances(tasks, query);
    lemma_first_min_exists(d);
    let c = closest_index(tasks, query);
    assert forall|i: int| #[trigger] is_first_min(d, i) implies i == c by {
        lemma_first_min_unique(d, i, c);
    }
}

/// Resolution is deterministic: one store and one query single out one index.
/// When some description equals the query up to case, the task picked is at
/// distance zero, so no merely close description can win over an exact one.
pub proof fn lemma_closest_determined(tasks: Seq<Task>, query: Seq<char>, i: int, j: int, k: int)
    requires
        is_first_min(task_distances(tasks, query), i),
        is_first_min(task_distances(tasks, query), j),
        0 <= k < tasks.len(),
        task_distance(tasks[k], query) == 0,
    ensures
        i == j,
        task_distance(tasks[i], query) == 0,
{
    let d = task_distances(tasks, query);
    lemma_first_min_unique(d, i, j);
    assert(d[i] <= d[k]);
}

/// The position of the first smallest distance, or `None` when there is none.
pub fn first_minimum(distances: &Vec<usize>) -> (r: Option<usize>)
    ensures
        r.is_none() <==> distances@.len() == 0,
        r matches Some(i) ==> is_first_min(distances@, i as int),
{
    if distances.len() == 0 {
        return None;
    }
    let mut best: usize = 0;
    let mut i: usize = 1;
    while i < distances.len()
        invariant
            1 <= i <= distances@.len(),
            best < i,
            forall|j: int| 0 <= j < i ==> distances@[best as int] <= #[trigger] distances@[j],
            forall|j: int| 0 <= j < best ==> distances@[best as int] < #[trigger] distances@[j],
        decreases distances@.len() - i,
    {
        if distances[i] < distances[best] {
            best = i;
        }
        i = i + 1;
    }
    Some(best)
}

/// The index of the task nearest to `query` by case-insensitive edit distance,
/// the first such task in store order on a tie; `None` for an empty store.
/// A task whose description equals the query up to case is always the one found.
pub fn find_closest_task(tasks: &Vec<Task>, query: &str) -> (r: Option<usize>)
    ensures
        r.is_none() <==> tasks@.len() == 0,
        r matches Some(i) ==> is_first_min(task_distances(tasks@, query@), i as int),
        r matches Some(i) ==> (exists|k: int|
            0 <= k < tasks@.len() && #[trigger] matches_exactly(tasks@[k], query@))
            ==> matches_exactly(tasks@[i as int], query@),
{
    let query_lower = lowercase(query);
    let mut distances: Vec<usize> = Vec::new();
    let mut i: usize = 0;
    while i < tasks.len()
        invariant
            i <= tasks@.len(),
            query_lower@ == lower_of(query@),
            distances@.len() == i,
            forall|j: int|
                0 <= j < i ==> #[trigger] distances@[j] == task_distance(tasks@[j], query@),
            forall|j: int|
                0 <= j < i ==> (distances@[j] == 0) == #[trigger] matches_exactly(
                    tasks@[j],
                    query@,
                ),
        decreases tasks@.len() - i,
    {
        let description_lower = lowercase(tasks[i].description.as_str());
        let d = edit_distance(description_lower.as_str(), query_lower.as_str());
        distances.push(d);
        i = i + 1;
    }
    assert(distances@ =~= task_distances(tasks@, query@));
    let r = first_minimum(&distances);
    if let Some(b) = r {
        assert forall|k: int|
            0 <= k < tasks@.len() && #[trigger] matches_exactly(tasks@[k], query@) implies matches_exactly(
            tasks@[b as int],
            query@,
        ) by {
            assert(distances@[k] == 0);
            assert(distances@[b as int] <= distances@[k]);
        }
    }
    r
}

} // verus!
