//! The pending-task queue: producers append at the tail, the one consumer
//! takes the first runnable task and propagates its completion to every
//! remaining task's dependency set.

use vstd::prelude::*;

use crate::task::{deps_without, lemma_deps_without, Task, TaskView};

verus! {

/// A task is runnable when its dependency set is empty.
pub open spec fn runnable(t: TaskView) -> bool {
    t.deps.len() == 0
}

/// Index of the first runnable task in `s`, scanning from the head, or
/// -1 when no task is runnable.
pub open spec fn first_runnable(s: Seq<TaskView>) -> int
    decreases s.len(),
{
    if s.len() == 0 {
        -1
    } else if runnable(s[0]) {
        0
    } else {
        let rest = first_runnable(s.drop_first());
        if rest < 0 {
            -1
        } else {
            rest + 1
        }
    }
}

/// `t` with every dependency on `id` removed.
pub open spec fn strip_dep(t: TaskView, id: u64) -> TaskView {
    TaskView { deps: deps_without(t.deps, id), ..t }
}

/// Every task in `s` with its dependency on `id` removed: the update a
/// dequeue applies to the tasks left behind.
pub open spec fn propagate_dequeue(s: Seq<TaskView>, id: u64) -> Seq<TaskView> {
    s.map_values(|t: TaskView| strip_dep(t, id))
}

/// All task identifiers in `s` are distinct. Identifiers stand for task
/// identity, so a well-formed producer never reuses one while the task
/// is queued.
pub open spec fn distinct_ids(s: Seq<TaskView>) -> bool {
    forall|i: int, j: int|
        0 <= i < s.len() && 0 <= j < s.len() && i != j ==> s[i].id != s[j].id
}

/// What `first_runnable` returns: an index in range holding the first
/// runnable task, or -1 exactly when no task is runnable.
pub proof fn lemma_first_runnable(s: Seq<TaskView>)
    ensures
        -1 <= first_runnable(s) < s.len(),
        first_runnable(s) >= 0 ==> runnable(s[first_runnable(s)]),
        first_runnable(s) >= 0 ==> forall|j: int| 0 <= j < first_runnable(s) ==> !runnable(s[j]),
        first_runnable(s) == -1 ==> forall|j: int| 0 <= j < s.len() ==> !runnable(s[j]),
    decreases s.len(),
{
    if s.len() > 0 && !runnable(s[0]) {
        let rest = s.drop_first();
        lemma_first_runnable(rest);
        assert(forall|j: int| 0 <= j < rest.len() ==> rest[j] == s[j + 1]);
        let f = first_runnable(s);
        if first_runnable(rest) >= 0 {
            assert(f == first_runnable(rest) + 1);
            assert(s[f] == rest[f - 1]);
            assert forall|j: int| 0 <= j < f implies !runnable(s[j]) by {
                if j > 0 {
                    assert(!runnable(rest[j - 1]));
                }
            }
        } else {
            assert forall|j: int| 0 <= j < s.len() implies !runnable(s[j]) by {
                if j > 0 {
                    assert(!runnable(rest[j - 1]));
                }
            }
        }
    }
}

/// The relation between a queue before a dequeue (`s`), the queue after
/// it (`s2`), and the returned task (`r`). This is the full dequeue
/// policy: the first runnable task in head-to-tail order is selected and
/// removed, its identifier is removed from every remaining task's
/// dependency set, the relative order of the rest is kept, and `None`
/// comes back exactly when the queue is empty or every task still has an
/// unresolved dependency.
pub open spec fn dequeue_post(s: Seq<TaskView>, s2: Seq<TaskView>, r: Option<TaskView>) -> bool {
    let i = first_runnable(s);
    &&& (r is None <==> i == -1)
    &&& ((forall|j: int| 0 <= j < s.len() ==> !runnable(s[j])) <==> r is None)
    &&& (i == -1 ==> s2 == s)
    &&& (i >= 0 ==> {
        &&& 0 <= i < s.len()
        &&& r == Some(s[i])
        &&& runnable(s[i])
        &&& (forall|j: int| 0 <= j < i ==> !runnable(s[j]))
        &&& s2 == propagate_dequeue(s.remove(i), s[i].id)
        &&& s2.len() == s.len() - 1
        &&& (forall|j: int| 0 <= j < s2.len() ==> !s2[j].deps.contains(s[i].id))
    })
}

/// View of an optional task.
pub open spec fn view_opt(r: Option<Task>) -> Option<TaskView> {
    match r {
        Some(t) => Some(t@),
        None => None,
    }
}

/// The pending-task queue, in enqueue order from head to tail.
pub struct Queue {
    queue: Vec<Task>,
}

impl View for Queue {
    type V = Seq<TaskView>;

    closed spec fn view(&self) -> Seq<TaskView> {
        self.queue@.map_values(|t: Task| t@)
    }
}

impl Queue {
    /// An empty queue.
    pub fn new() -> (q: Queue)
        ensures
            q@ == Seq::<TaskView>::empty(),
    {
        let q = Queue { queue: Vec::new() };
        proof {
            assert(q@ =~= Seq::<TaskView>::empty());
        }
        q
    }

    /// Append a task at the tail. Never blocks and never fails.
    pub fn enqueue(&mut self, item: Task)
        ensures
            final(self)@ == old(self)@.push(item@),
    {
        self.queue.push(item);
        proof {
            assert(self@ =~= old(self)@.push(self.queue@.last()@));
        }
    }

    /// How many tasks are pending.
    pub fn length(&self) -> (n: usize)
        ensures
            n == self@.len(),
    {
        self.queue.len()
    }

    /// Whether no task is pending.
    pub fn is_empty(&self) -> (b: bool)
        ensures
            b == (self@.len() == 0),
    {
        self.queue.len() == 0
    }

    /// Remove and return the first runnable task, removing its identifier
    /// from every remaining task's dependency set in the same pass.
    /// Returns `None`, leaving the queue unchanged, when the queue is
    /// empty or every task still has an unresolved dependency.
    pub fn dequeue_next_runnable(&mut self) -> (r: Option<Task>)
        ensures
            dequeue_post(old(self)@, final(self)@, view_opt(r)),
    {
        let ghost s = self@;
        proof {
            lemma_first_runnable(s);
            assert(s.len() == self.queue@.len());
        }
        let n = self.queue.len();
        let mut i: usize = 0;
        while i < n && self.queue[i].dependencies.len() > 0
            invariant
                i <= n,
                n == self.queue.len(),
                self == old(self),
                s == self@,
                n == s.len(),
                forall|j: int| 0 <= j < i ==> !runnable(s[j]),
            decreases n - i,
        {
            proof {
                assert(s[i as int] == self.queue@[i as int]@);
                assert(!runnable(s[i as int]));
            }
            i = i + 1;
        }
        if i == n {
            proof {
                assert(first_runnable(s) == -1);
            }
            return None;
        }
        proof {
            assert(s[i as int] == self.queue@[i as int]@);
            assert(runnable(s[i as int]));
            assert(first_runnable(s) == i as int) by {
                let f = first_runnable(s);
                if f >= 0 && f < i {
                    assert(!runnable(s[f]));
                }
            }
        }
        let t = self.queue.remove(i);
        let id = t.id;
        let ghost s_removed = self@;
        proof {
            assert(s_removed =~= s.remove(i as int));
        }
        let m = self.queue.len();
        let mut j: usize = 0;
        while j < m
            invariant
                j <= m,
                m == self.queue.len(),
                0 <= first_runnable(s) < s.len(),
                id == s[first_runnable(s)].id,
                s_removed.len() == m,
                forall|k: int| 0 <= k < j ==> self.queue@[k]@ == strip_dep(s_removed[k], id),
                forall|k: int| j <= k < m ==> self.queue@[k]@ == s_removed[k],
            decreases m - j,
        {
            let ghost before = self.queue@;
            let mut task_j = self.queue.remove(j);
            task_j.remove_dependency(id);
            let ghost tj = task_j;
            self.queue.insert(j, task_j);
            proof {
                assert(self.queue@ =~= before.update(j as int, tj));
                assert(tj@ == strip_dep(s_removed[j as int], id));
                assert forall|k: int| 0 <= k < j + 1 implies self.queue@[k]@ == strip_dep(
                    s_removed[k],
                    id,
                ) by {
                    if k < j {
                        assert(self.queue@[k] == before[k]);
                        assert(before[k]@ == strip_dep(s_removed[k], id));
                    }
                }
            }
            j = j + 1;
        }
        proof {
            let fr = first_runnable(s);
            assert forall|k: int| 0 <= k < m implies self@[k] == strip_dep(
                s.remove(fr)[k],
                id,
            ) by {
                assert(self@[k] == self.queue@[k]@);
                assert(self.queue@[k]@ == strip_dep(s_removed[k], id));
                assert(s_removed[k] == s.remove(fr)[k]);
            }
            assert(self@ =~= propagate_dequeue(s.remove(fr), id));
            assert forall|k: int| 0 <= k < self@.len() implies !self@[k].deps.contains(
                s[fr].id,
            ) by {
                lemma_deps_without(s_removed[k].deps, id);
            }
        }
        Some(t)
    }

    /// Dequeue under the queue's policy; the name the producers and the
    /// manager share for `dequeue_next_runnable`.
    pub fn dequeue(&mut self) -> (r: Option<Task>)
        ensures
            dequeue_post(old(self)@, final(self)@, view_opt(r)),
    {
        self.dequeue_next_runnable()
    }
}

/// FIFO tie-break: the selected task is never a later-enqueued runnable
/// task; whatever index `j` holds a runnable task, the selection falls on
/// `j` or on an earlier index.
pub proof fn lemma_fifo_selection(s: Seq<TaskView>, j: int)
    requires
        0 <= j < s.len(),
        runnable(s[j]),
    ensures
        0 <= first_runnable(s) <= j,
{
    lemma_first_runnable(s);
}

/// A dequeue that selects neither of two queued tasks keeps their
/// head-to-tail order: enqueue order is preserved as dequeue order among
/// tasks with no dependency relationship, since each of them is selected
/// only once it is the earliest runnable task.
pub proof fn lemma_fifo_order_preserved(s: Seq<TaskView>, a: int, b: int)
    requires
        0 <= a < b < s.len(),
        first_runnable(s) >= 0,
        first_runnable(s) != a,
        first_runnable(s) != b,
    ensures
        ({
            let i = first_runnable(s);
            let s2 = propagate_dequeue(s.remove(i), s[i].id);
            let a2 = if a < i {
                a
            } else {
                a - 1
            };
            let b2 = if b < i {
                b
            } else {
                b - 1
            };
            &&& 0 <= a2 < b2 < s2.len()
            &&& s2[a2] == strip_dep(s[a], s[i].id)
            &&& s2[b2] == strip_dep(s[b], s[i].id)
        }),
{
    lemma_first_runnable(s);
    let i = first_runnable(s);
    let removed = s.remove(i);
    assert(forall|k: int|
        0 <= k < removed.len() ==> removed[k] == (if k < i {
            s[k]
        } else {
            s[k + 1]
        }));
}

/// A task that depends on another queued task is never selected, and a
/// dequeue of any third task keeps the whole configuration: identifiers
/// stay distinct, both tasks stay queued under their identifiers, and
/// the dependency stays recorded. By induction over dequeues, task `b`
/// is never dequeued before task `a` when `b` depends on `a`.
pub proof fn lemma_dependent_waits(s: Seq<TaskView>, a: int, b: int)
    requires
        distinct_ids(s),
        0 <= a < s.len(),
        0 <= b < s.len(),
        a != b,
        s[b].deps.contains(s[a].id),
    ensures
        first_runnable(s) != b,
        ({
            let i = first_runnable(s);
            i >= 0 && i != a && i != b ==> ({
                let s2 = propagate_dequeue(s.remove(i), s[i].id);
                let a2 = if a < i {
                    a
                } else {
                    a - 1
                };
                let b2 = if b < i {
                    b
                } else {
                    b - 1
                };
                &&& distinct_ids(s2)
                &&& 0 <= a2 < s2.len()
                &&& 0 <= b2 < s2.len()
                &&& a2 != b2
                &&& s2[a2].id == s[a].id
                &&& s2[b2].id == s[b].id
                &&& s2[b2].deps.contains(s2[a2].id)
            })
        }),
{
    lemma_first_runnable(s);
    let i = first_runnable(s);
    assert(s[b].deps.len() > 0);
    if i >= 0 && i != a && i != b {
        let removed = s.remove(i);
        let s2 = propagate_dequeue(removed, s[i].id);
        let a2 = if a < i {
            a
        } else {
            a - 1
        };
        let b2 = if b < i {
            b
        } else {
            b - 1
        };
        assert(forall|k: int|
            0 <= k < removed.len() ==> removed[k] == (if k < i {
                s[k]
            } else {
                s[k + 1]
            }));
        assert(removed[a2] == s[a]);
        assert(removed[b2] == s[b]);
        assert(forall|k: int| 0 <= k < s2.len() ==> s2[k].id == removed[k].id);
        assert(distinct_ids(s2)) by {
            assert forall|k1: int, k2: int|
                0 <= k1 < s2.len() && 0 <= k2 < s2.len() && k1 != k2 implies s2[k1].id
                != s2[k2].id by {
                let j1 = if k1 < i {
                    k1
                } else {
                    k1 + 1
                };
                let j2 = if k2 < i {
                    k2
                } else {
                    k2 + 1
                };
                assert(s2[k1].id == s[j1].id && s2[k2].id == s[j2].id);
            }
        }
        assert(s[i].id != s[a].id);
        lemma_deps_without(s[b].deps, s[i].id);
        assert(s2[b2] == strip_dep(s[b], s[i].id));
    }
}

} // verus!
