//! Round-robin fairness of the scheduler.
//!
//! The statement proved here ([`lemma_round_robin`]): starting from any
//! well-formed schedule state with `k` tasks `Ready`, the first `k`
//! successive yields resume exactly those `k` tasks, each exactly once, in
//! ascending cyclic index order starting just after the task that initiated
//! the sequence — provided each resumed task yields in turn, which is the
//! cooperative contract.

use vstd::prelude::*;

use crate::runtime::{
    cpos, next_ready_from, sched_ok, slot, yield_transform, lemma_next_ready_from_some,
    MAX_TASKS,
};
use crate::task::{Task, TaskState};

verus! {

/// The schedule state `(table, current)` after `j` successive yields.
pub open spec fn yields(t: Seq<Task>, cur: int, j: nat) -> (Seq<Task>, int)
    decreases j,
{
    if j == 0 {
        (t, cur)
    } else {
        let prev = yields(t, cur, (j - 1) as nat);
        yield_transform(prev.0, prev.1)
    }
}

/// The slot that is executing after `j` successive yields.
pub open spec fn runner_after(t: Seq<Task>, cur: int, j: nat) -> int {
    yields(t, cur, j).1
}

/// Number of `Ready` slots of `t` at cyclic positions `[k, MAX_TASKS)`
/// forward of `cur`.
pub open spec fn ready_count_from(t: Seq<Task>, cur: int, k: int) -> int
    decreases MAX_TASKS - k,
{
    if k >= MAX_TASKS {
        0
    } else {
        (if t[slot(cur, k)].state is Ready {
            1int
        } else {
            0int
        }) + ready_count_from(t, cur, k + 1)
    }
}

/// Number of `Ready` slots other than `cur` itself — in a well-formed state,
/// where `cur` is `Running`, the number of `Ready` tasks altogether.
pub open spec fn ready_count(t: Seq<Task>, cur: int) -> int {
    ready_count_from(t, cur, 1)
}

/// The table of `t` as it stands midway through a round that began at
/// `cur0`, when the task in slot `c` is the one executing: `c` is `Running`,
/// the round's initiator `cur0` has gone back to `Ready`, and every other
/// slot still reads as it did in `t` (tasks already resumed have yielded and
/// are `Ready` again, exactly as they started).
pub open spec fn rr_state(t: Seq<Task>, cur0: int, c: int) -> Seq<Task> {
    Seq::new(
        t.len(),
        |i: int|
            if i == c {
                t[i].with_state(TaskState::Running)
            } else if i == cur0 {
                t[i].with_state(TaskState::Ready)
            } else {
                t[i]
            },
    )
}

proof fn lemma_ready_count_nonneg(t: Seq<Task>, cur: int, k: int)
    requires
        k <= MAX_TASKS,
    ensures
        0 <= ready_count_from(t, cur, k) <= MAX_TASKS - k,
    decreases MAX_TASKS - k,
{
    if k < MAX_TASKS {
        lemma_ready_count_nonneg(t, cur, k + 1);
    }
}

/// A positive count ahead means the scan from there finds someone: in a
/// well-formed state it cannot run into a second `Running` slot.
proof fn lemma_ready_count_some(t: Seq<Task>, cur0: int, k: int)
    requires
        sched_ok(t, cur0),
        1 <= k <= MAX_TASKS,
        ready_count_from(t, cur0, k) > 0,
    ensures
        next_ready_from(t, cur0, k) is Some,
    decreases MAX_TASKS - k,
{
    if k >= MAX_TASKS {
    } else if t[slot(cur0, k)].state is Ready {
    } else if t[slot(cur0, k)].state is Running {
        assert(slot(cur0, k) != cur0);
        assert(false);
    } else {
        lemma_ready_count_some(t, cur0, k + 1);
    }
}

/// A zero count ahead means nothing ahead is `Ready`.
proof fn lemma_ready_count_zero(t: Seq<Task>, cur0: int, k: int)
    requires
        ready_count_from(t, cur0, k) == 0,
    ensures
        forall|j: int| k <= j < MAX_TASKS ==> !(t[slot(cur0, j)].state is Ready),
    decreases MAX_TASKS - k,
{
    if k < MAX_TASKS {
        lemma_ready_count_nonneg(t, cur0, k + 1);
        lemma_ready_count_zero(t, cur0, k + 1);
    }
}

/// Splitting the count at the first `Ready` position `q` past `k`.
proof fn lemma_ready_count_split(t: Seq<Task>, cur0: int, k: int, q: int)
    requires
        1 <= k <= q < MAX_TASKS,
        t[slot(cur0, q)].state is Ready,
        forall|j: int| k <= j < q ==> !(t[slot(cur0, j)].state is Ready),
    ensures
        ready_count_from(t, cur0, k) == 1 + ready_count_from(t, cur0, q + 1),
    decreases q - k,
{
    if k < q {
        lemma_ready_count_split(t, cur0, k + 1, q);
    }
}

/// If every slot scanned before position `q` is neither `Ready` nor
/// `Running`, and position `q` is `Ready`, the scan stops exactly there.
proof fn lemma_next_ready_from_finds(u: Seq<Task>, c: int, k: int, q: int)
    requires
        u.len() == MAX_TASKS,
        0 <= c < MAX_TASKS,
        1 <= k <= q < MAX_TASKS,
        forall|j: int|
            k <= j < q ==> !(u[slot(c, j)].state is Ready) && !(u[slot(c, j)].state is Running),
        u[slot(c, q)].state is Ready,
    ensures
        next_ready_from(u, c, k) == Some(slot(c, q)),
    decreases q - k,
{
    if k < q {
        lemma_next_ready_from_finds(u, c, k + 1, q);
    }
}

/// One step of a round: from the mid-round state at `c`, with at least one
/// of the round's `Ready` tasks still ahead, the next yield resumes the
/// nearest of them — and nothing else changes shape.
proof fn lemma_rr_step(t: Seq<Task>, cur0: int, c: int)
    requires
        sched_ok(t, cur0),
        0 <= c < MAX_TASKS,
        c == cur0 || t[c].state is Ready,
        ready_count_from(t, cur0, cpos(cur0, c) + 1) > 0,
    ensures
        match next_ready_from(t, cur0, cpos(cur0, c) + 1) {
            Some(n) => {
                &&& 0 <= n < MAX_TASKS
                &&& t[n].state is Ready
                &&& cpos(cur0, c) < cpos(cur0, n) < MAX_TASKS
                &&& yield_transform(rr_state(t, cur0, c), c) == (rr_state(t, cur0, n), n)
                &&& ready_count_from(t, cur0, cpos(cur0, n) + 1) == ready_count_from(
                    t,
                    cur0,
                    cpos(cur0, c) + 1,
                ) - 1
                &&& forall|m: int|
                    0 <= m < MAX_TASKS && t[m].state is Ready && cpos(cur0, m) > cpos(cur0, c)
                        ==> cpos(cur0, n) <= cpos(cur0, m)
            },
            None => false,
        },
{
    let p = cpos(cur0, c);
    lemma_ready_count_some(t, cur0, p + 1);
    match next_ready_from(t, cur0, p + 1) {
        Some(n) => {
            lemma_next_ready_from_some(t, cur0, p + 1, n);
            let q = cpos(cur0, n);
            let u = rr_state(t, cur0, c);
            // The slots between c and n read the same in u as in t and are
            // neither Ready nor Running there.
            assert forall|j: int|
                1 <= j < q - p implies !(u[slot(c, j)].state is Ready) && !(u[slot(
                c,
                j,
            )].state is Running) by {
                let pj = p + j;
                assert(slot(c, j) == slot(cur0, pj));
                assert(slot(cur0, pj) != c);
                assert(slot(cur0, pj) != cur0);
                assert(u[slot(cur0, pj)] == t[slot(cur0, pj)]);
                assert(!(t[slot(cur0, pj)].state is Ready));
                assert(!(t[slot(cur0, pj)].state is Running));
            }
            assert(slot(c, q - p) == n);
            assert(n != c && n != cur0);
            assert(u[n] == t[n]);
            lemma_next_ready_from_finds(u, c, 1, q - p);
            // The yielded-to state is the mid-round state at n.
            let u2 = yield_transform(u, c);
            assert(u2.1 == n);
            assert forall|i: int| 0 <= i < MAX_TASKS implies u2.0[i] == rr_state(
                t,
                cur0,
                n,
            )[i] by {
                if i == n {
                } else if i == c {
                    if c != cur0 {
                        assert(t[c].state is Ready);
                        assert(t[c].with_state(TaskState::Ready) == t[c]);
                    }
                } else {
                }
            }
            assert(u2.0 =~= rr_state(t, cur0, n));
            // One fewer Ready task remains ahead.
            lemma_ready_count_split(t, cur0, p + 1, q);
            // Nothing Ready was skipped over.
            assert forall|m: int|
                0 <= m < MAX_TASKS && t[m].state is Ready && cpos(cur0, m) > p implies cpos(
                cur0,
                n,
            ) <= cpos(cur0, m) by {
                if cpos(cur0, m) < q {
                    let j = cpos(cur0, m);
                    assert(slot(cur0, j) == m);
                    assert(!(t[slot(cur0, j)].state is Ready));
                }
            }
        },
        None => {},
    }
}

/// Invariant of a round: after `j` of the round's yields the table is the
/// mid-round state at the `j`-th resumed task, which was `Ready` in the
/// starting state, and exactly `k - j` of the round's tasks remain ahead.
proof fn lemma_rr_invariant(t: Seq<Task>, cur0: int, j: nat)
    requires
        sched_ok(t, cur0),
        j <= ready_count(t, cur0),
    ensures
        0 <= runner_after(t, cur0, j) < MAX_TASKS,
        yields(t, cur0, j).0 == rr_state(t, cur0, runner_after(t, cur0, j)),
        j == 0 ==> runner_after(t, cur0, j) == cur0,
        j > 0 ==> t[runner_after(t, cur0, j)].state is Ready && runner_after(t, cur0, j) != cur0,
        ready_count_from(t, cur0, cpos(cur0, runner_after(t, cur0, j)) + 1) == ready_count(
            t,
            cur0,
        ) - j,
    decreases j,
{
    if j == 0 {
        assert forall|i: int| 0 <= i < MAX_TASKS implies rr_state(t, cur0, cur0)[i] == t[i] by {
            if i == cur0 {
                assert(t[cur0].state is Running);
                assert(t[cur0].with_state(TaskState::Running) == t[cur0]);
            }
        }
        assert(rr_state(t, cur0, cur0) =~= t);
        assert(cpos(cur0, cur0) == 0);
    } else {
        lemma_rr_invariant(t, cur0, (j - 1) as nat);
        let c = runner_after(t, cur0, (j - 1) as nat);
        lemma_rr_step(t, cur0, c);
        match next_ready_from(t, cur0, cpos(cur0, c) + 1) {
            Some(n) => {
                assert(yields(t, cur0, j) == yield_transform(
                    rr_state(t, cur0, c),
                    c,
                ));
                assert(runner_after(t, cur0, j) == n);
                assert(cpos(cur0, n) > 0);
            },
            None => {},
        }
    }
}

/// Tasks are resumed in strictly ascending cyclic order from the initiator.
proof fn lemma_rr_monotone(t: Seq<Task>, cur0: int, j1: nat, j2: nat)
    requires
        sched_ok(t, cur0),
        j1 < j2 <= ready_count(t, cur0),
    ensures
        cpos(cur0, runner_after(t, cur0, j1)) < cpos(cur0, runner_after(t, cur0, j2)),
    decreases j2,
{
    lemma_rr_invariant(t, cur0, (j2 - 1) as nat);
    let c = runner_after(t, cur0, (j2 - 1) as nat);
    lemma_rr_step(t, cur0, c);
    match next_ready_from(t, cur0, cpos(cur0, c) + 1) {
        Some(n) => {
            assert(runner_after(t, cur0, j2) == n);
        },
        None => {},
    }
    if j1 < j2 - 1 {
        lemma_rr_monotone(t, cur0, j1, (j2 - 1) as nat);
    }
}

/// A `Ready` task whose cyclic position has been passed was resumed.
proof fn lemma_rr_reaches(t: Seq<Task>, cur0: int, m: int, j: nat)
    requires
        sched_ok(t, cur0),
        0 <= m < MAX_TASKS,
        t[m].state is Ready,
        j <= ready_count(t, cur0),
        cpos(cur0, runner_after(t, cur0, j)) >= cpos(cur0, m),
    ensures
        exists|i: nat| 1 <= i <= j && runner_after(t, cur0, i) == m,
    decreases j,
{
    lemma_rr_invariant(t, cur0, j);
    if j == 0 {
        // the initiator is Running, so cpos(cur0, m) >= 1 > 0: impossible
        assert(m != cur0);
        assert(false);
    } else {
        lemma_rr_invariant(t, cur0, (j - 1) as nat);
        let c = runner_after(t, cur0, (j - 1) as nat);
        lemma_rr_step(t, cur0, c);
        match next_ready_from(t, cur0, cpos(cur0, c) + 1) {
            Some(n) => {
                assert(runner_after(t, cur0, j) == n);
                if cpos(cur0, c) >= cpos(cur0, m) {
                    lemma_rr_reaches(t, cur0, m, (j - 1) as nat);
                    let i = choose|i: nat|
                        1 <= i <= (j - 1) as nat && runner_after(t, cur0, i) == m;
                    assert(1 <= i <= j && runner_after(t, cur0, i) == m);
                } else {
                    // m lies ahead of c, so the step's minimality pins it:
                    // cpos(n) <= cpos(m) <= cpos(n), hence n == m.
                    assert(cpos(cur0, n) == cpos(cur0, m));
                    assert(n == m);
                    assert(1 <= j <= j && runner_after(t, cur0, j) == m);
                }
            },
            None => {},
        }
    }
}

/// Round-robin fairness. In any well-formed schedule state with `k` tasks
/// `Ready`, the `k` successive yields that follow resume tasks that were
/// `Ready` at the start (first clause), in strictly ascending cyclic index
/// order starting just after the initiating task (second clause), and every
/// task that was `Ready` is resumed by one of them (third clause) — so each
/// of the `k` tasks runs exactly once before the initiator runs again.
pub proof fn lemma_round_robin(t: Seq<Task>, cur0: int)
    requires
        sched_ok(t, cur0),
    ensures
        forall|j: nat|
            1 <= j <= ready_count(t, cur0) ==> t[runner_after(t, cur0, j)].state is Ready,
        forall|j1: nat, j2: nat|
            1 <= j1 < j2 <= ready_count(t, cur0) ==> cpos(cur0, runner_after(t, cur0, j1))
                < cpos(cur0, runner_after(t, cur0, j2)),
        forall|m: int|
            0 <= m < MAX_TASKS && t[m].state is Ready ==> exists|i: nat|
                1 <= i <= ready_count(t, cur0) && runner_after(t, cur0, i) == m,
{
    let k = ready_count(t, cur0);
    lemma_ready_count_nonneg(t, cur0, 1);
    assert forall|j: nat| 1 <= j <= k implies t[runner_after(t, cur0, j)].state is Ready by {
        lemma_rr_invariant(t, cur0, j);
    }
    assert forall|j1: nat, j2: nat|
        1 <= j1 < j2 <= k implies cpos(cur0, runner_after(t, cur0, j1)) < cpos(
        cur0,
        runner_after(t, cur0, j2),
    ) by {
        lemma_rr_monotone(t, cur0, j1, j2);
    }
    assert forall|m: int|
        0 <= m < MAX_TASKS && t[m].state is Ready implies exists|i: nat|
        1 <= i <= k && runner_after(t, cur0, i) == m by {
        lemma_rr_invariant(t, cur0, k as nat);
        let rk = runner_after(t, cur0, k as nat);
        lemma_ready_count_zero(t, cur0, cpos(cur0, rk) + 1);
        // nothing Ready lies beyond the k-th resumed task
        if cpos(cur0, m) > cpos(cur0, rk) {
            let j = cpos(cur0, m);
            assert(slot(cur0, j) == m);
            assert(!(t[slot(cur0, j)].state is Ready));
        }
        lemma_rr_reaches(t, cur0, m, k as nat);
        let i = choose|i: nat| 1 <= i <= k as nat && runner_after(t, cur0, i) == m;
        assert(1 <= i <= k && runner_after(t, cur0, i) == m);
    }
}

} // verus!
