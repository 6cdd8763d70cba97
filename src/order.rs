//! Listing order: a stable insertion sort by creation time or by description
//! with case ignored.
use vstd::prelude::*;
use crate::task::Task;
use crate::text::{lower_of, lowercase, text_less, text_precedes};

verus! {

/// `a` must come strictly before `b` in a listing: by description without
/// regard to case when `alphabetical`, else by creation time.
pub open spec fn precedes(a: Task, b: Task, alphabetical: bool) -> bool {
    if alphabetical {
        text_less(lower_of(a.description@), lower_of(b.description@))
    } else {
        a.created_at < b.created_at
    }
}

/// `t` put into `s` after every task that it does not strictly precede.
pub open spec fn insert_sorted(s: Seq<Task>, t: Task, alphabetical: bool) -> Seq<Task>
    decreases s.len(),
{
    if s.len() == 0 {
        seq![t]
    } else if precedes(t, s.last(), alphabetical) {
        insert_sorted(s.drop_last(), t, alphabetical).push(s.last())
    } else {
        s.push(t)
    }
}

/// The stable sort of `s`: tasks in listing order, and tasks that neither
/// precedes the other kept in their store order.
pub open spec fn sorted_tasks(s: Seq<Task>, alphabetical: bool) -> Seq<Task>
    decreases s.len(),
{
    if s.len() == 0 {
        s
    } else {
        insert_sorted(sorted_tasks(s.drop_last(), alphabetical), s.last(), alphabetical)
    }
}

/// Putting `t` in at a position where everything after it is strictly preceded
/// by `t`, and the task just before it is not, is `insert_sorted`.
proof fn lemma_insert_at(s: Seq<Task>, t: Task, alphabetical: bool, p: int)
    requires
        0 <= p <= s.len(),
        forall|k: int| p <= k < s.len() ==> precedes(t, #[trigger] s[k], alphabetical),
        p == 0 || !precedes(t, s[p - 1], alphabetical),
    ensures
        insert_sorted(s, t, alphabetical) == s.insert(p, t),
    decreases s.len(),
{
    if p == s.len() {
        if s.len() == 0 {
            assert(s.insert(p, t) =~= seq![t]);
        } else {
            assert(s.insert(p, t) =~= s.push(t));
        }
    } else {
        let q = s.drop_last();
        assert(precedes(t, s[s.len() - 1], alphabetical));
        assert forall|k: int| p <= k < q.len() implies precedes(t, #[trigger] q[k], alphabetical) by {
            assert(q[k] == s[k]);
        }
        if p > 0 {
            assert(q[p - 1] == s[p - 1]);
        }
        lemma_insert_at(q, t, alphabetical, p);
        assert(q.insert(p, t).push(s.last()) =~= s.insert(p, t));
    }
}

/// No text strictly precedes a text that strictly precedes it.
pub proof fn lemma_text_less_asymmetric(a: Seq<char>, b: Seq<char>)
    ensures
        !(text_less(a, b) && text_less(b, a)),
    decreases a.len(),
{
    if a.len() > 0 && b.len() > 0 && (a[0] as u32) == (b[0] as u32) {
        lemma_text_less_asymmetric(a.drop_first(), b.drop_first());
    }
}

/// Every neighbour in `s` is in listing order: no task strictly precedes the
/// one just before it.
pub open spec fn in_listing_order(s: Seq<Task>, alphabetical: bool) -> bool {
    forall|k: int| 0 <= k < s.len() - 1 ==> !precedes(#[trigger] s[k + 1], s[k], alphabetical)
}

proof fn lemma_insert_sorted(s: Seq<Task>, t: Task, alphabetical: bool)
    requires
        in_listing_order(s, alphabetical),
    ensures
        insert_sorted(s, t, alphabetical).to_multiset() == s.to_multiset().insert(t),
        in_listing_order(insert_sorted(s, t, alphabetical), alphabetical),
        insert_sorted(s, t, alphabetical).last() == t || (s.len() > 0
            && insert_sorted(s, t, alphabetical).last() == s.last()),
    decreases s.len(),
{
    broadcast use vstd::seq_lib::group_to_multiset_ensures;
    if s.len() == 0 {
        assert(seq![t] =~= Seq::<Task>::empty().push(t));
    } else {
        let q = s.drop_last();
        assert(s =~= q.push(s.last()));
        if precedes(t, s.last(), alphabetical) {
            assert forall|k: int| 0 <= k < q.len() - 1 implies !precedes(
                #[trigger] q[k + 1],
                q[k],
                alphabetical,
            ) by {
                assert(q[k + 1] == s[k + 1] && q[k] == s[k]);
            }
            lemma_insert_sorted(q, t, alphabetical);
            let r = insert_sorted(q, t, alphabetical);
            if alphabetical {
                lemma_text_less_asymmetric(
                    lower_of(t.description@),
                    lower_of(s.last().description@),
                );
            }
            let rr = r.push(s.last());
            assert forall|k: int| 0 <= k < rr.len() - 1 implies !precedes(
                #[trigger] rr[k + 1],
                rr[k],
                alphabetical,
            ) by {
                if k + 1 < r.len() {
                    assert(rr[k + 1] == r[k + 1] && rr[k] == r[k]);
                } else {
                    assert(rr[k + 1] == s.last() && rr[k] == r.last());
                    if r.last() != t {
                        assert(!precedes(s[s.len() - 2 + 1], s[s.len() - 2], alphabetical));
                    }
                }
            }
        } else {
            let rr = s.push(t);
            assert forall|k: int| 0 <= k < rr.len() - 1 implies !precedes(
                #[trigger] rr[k + 1],
                rr[k],
                alphabetical,
            ) by {
                if k + 1 < s.len() {
                    assert(rr[k + 1] == s[k + 1] && rr[k] == s[k]);
                }
            }
        }
    }
}

/// A listing holds exactly the tasks of the store, each as often as the store
/// does, and no task in it strictly precedes the one before it.
pub proof fn lemma_listing(s: Seq<Task>, alphabetical: bool)
    ensures
        sorted_tasks(s, alphabetical).to_multiset() == s.to_multiset(),
        in_listing_order(sorted_tasks(s, alphabetical), alphabetical),
    decreases s.len(),
{
    broadcast use vstd::seq_lib::group_to_multiset_ensures;
    if s.len() > 0 {
        let q = s.drop_last();
        assert(s =~= q.push(s.last()));
        lemma_listing(q, alphabetical);
        lemma_insert_sorted(sorted_tasks(q, alphabetical), s.last(), alphabetical);
    }
}

fn precedes_exec(a: &Task, b: &Task, alphabetical: bool) -> (r: bool)
    ensures
        r == precedes(*a, *b, alphabetical),
{
    if alphabetical {
        let a_lower = lowercase(a.description.as_str());
        let b_lower = lowercase(b.description.as_str());
        text_precedes(a_lower.as_str(), b_lower.as_str())
    } else {
        a.created_at < b.created_at
    }
}

/// The tasks in listing order: by description without regard to case when
/// `alphabetical`, else by creation time, oldest first; ties keep store order.
pub fn list_tasks(tasks: &Vec<Task>, alphabetical: bool) -> (r: Vec<Task>)
    ensures
        r@ == sorted_tasks(tasks@, alphabetical),
{
    let mut sorted: Vec<Task> = Vec::new();
    let mut i: usize = 0;
    while i < tasks.len()
        invariant
            i <= tasks@.len(),
            sorted@ == sorted_tasks(tasks@.subrange(0, i as int), alphabetical),
        decreases tasks@.len() - i,
    {
        let t = tasks[i].clone();
        let mut p: usize = sorted.len();
        while p > 0 && precedes_exec(&t, &sorted[p - 1], alphabetical)
            invariant
                p <= sorted@.len(),
                t == tasks@[i as int],
                forall|k: int|
                    p <= k < sorted@.len() ==> precedes(t, #[trigger] sorted@[k], alphabetical),
            decreases p,
        {
            p = p - 1;
        }
        proof {
            lemma_insert_at(sorted@, t, alphabetical, p as int);
            let prefix = tasks@.subrange(0, i as int + 1);
            assert(prefix.drop_last() =~= tasks@.subrange(0, i as int));
        }
        sorted.insert(p, t);
        i = i + 1;
    }
    assert(tasks@.subrange(0, tasks@.len() as int) =~= tasks@);
    sorted
}

} // verus!
