//! A sleep that yields to the executor until its time has run out, and the
//! cancellation flags of running tasks.
use vstd::prelude::*;
use std::collections::BTreeMap;
use vstd::std_specs::iter::IteratorSpec;
use crate::task::TaskId;

verus! {

/// A pending sleep of task `task_id`: the time left and whether it has
/// been put on the list of sleeping tasks.
pub struct Sleep {
    pub remaining: u64,
    pub task_id: TaskId,
    pub registered: bool,
}

/// What polling a sleep gives.
#[derive(Debug, Clone, Copy, PartialEq, Eq, Structural)]
pub enum SleepPoll {
    /// The time has run out.
    Ready,
    /// Still sleeping; the task must be put on the list of sleeping tasks
    /// with this number and the time left, then woken later.
    Register(u64, u64),
    /// Still sleeping and already on the list.
    Pending,
}

impl Sleep {
    /// One poll: ready when no time is left; otherwise pending, registering
    /// the task on the first poll.
    pub fn poll(&mut self) -> (p: SleepPoll)
        ensures
            old(self).remaining == 0 ==> p == SleepPoll::Ready && *final(self) == *old(self),
            old(self).remaining != 0 && !old(self).registered ==> p == SleepPoll::Register(
                old(self).task_id@,
                old(self).remaining,
            ) && final(self).registered && final(self).remaining == old(self).remaining
                && final(self).task_id == old(self).task_id,
            old(self).remaining != 0 && old(self).registered ==> p == SleepPoll::Pending
                && *final(self) == *old(self),
    {
        if self.remaining == 0 {
            return SleepPoll::Ready;
        }
        if !self.registered {
            self.registered = true;
            return SleepPoll::Register(self.task_id.as_u64(), self.remaining);
        }
        SleepPoll::Pending
    }
}

/// A sleep of `duration` for task `task_id`, not yet registered.
pub fn sleep(duration: u64, task_id: TaskId) -> (s: Sleep)
    ensures
        s.remaining == duration,
        s.task_id == task_id,
        !s.registered,
{
    Sleep { remaining: duration, task_id, registered: false }
}

/// Raises the cancellation flag of task `task_id`; returns whether the task
/// has a flag (is registered for cancellation).
pub fn cancel_task(signals: &mut BTreeMap<u64, bool>, task_id: u64) -> (r: bool)
    ensures
        r == old(signals)@.contains_key(task_id),
        r ==> final(signals)@ == old(signals)@.insert(task_id, true),
        !r ==> final(signals)@ == old(signals)@,
{
    if signals.contains_key(&task_id) {
        signals.insert(task_id, true);
        true
    } else {
        false
    }
}

/// The sleeping tasks after one timer tick: each time left goes down by
/// one, and the tasks whose time runs out leave the table (a task already
/// at zero stays, at zero).
pub open spec fn ticked(m: Map<u64, u64>) -> Map<u64, u64> {
    Map::new(
        |k: u64| m.contains_key(k) && m[k] != 1,
        |k: u64|
            if m[k] > 0 {
                (m[k] - 1) as u64
            } else {
                0
            },
    )
}

/// The table after the tick has reached the tasks in `done`.
pub open spec fn ticked_part(m: Map<u64, u64>, done: Set<u64>) -> Map<u64, u64> {
    Map::new(
        |k: u64| m.contains_key(k) && !(done.contains(k) && m[k] == 1),
        |k: u64|
            if done.contains(k) && m[k] > 0 {
                (m[k] - 1) as u64
            } else {
                m[k]
            },
    )
}

/// The tasks among `ks` whose time runs out at this tick, in order.
pub open spec fn waking(m: Map<u64, u64>, ks: Seq<u64>) -> Seq<u64>
    decreases ks.len(),
{
    if ks.len() == 0 {
        seq![]
    } else {
        waking(m, ks.drop_last()) + if m.contains_key(ks.last()) && m[ks.last()] == 1 {
            seq![ks.last()]
        } else {
            seq![]
        }
    }
}

/// One timer tick for the sleeping tasks, given by number with the time
/// each has left: every time left above zero goes down by one; the tasks
/// that reach zero are removed and returned, each once, to be woken.
pub fn tick_sleepers(sleepers: &mut BTreeMap<u64, u64>) -> (woken: Vec<u64>)
    ensures
        final(sleepers)@ == ticked(old(sleepers)@),
        woken@.no_duplicates(),
        forall|k: u64| woken@.contains(k) <==> (old(sleepers)@.contains_key(k) && old(sleepers)@[k] == 1),
{
    broadcast use vstd::std_specs::btree::group_btree_axioms;
    let ghost m = sleepers@;
    let keys = sleeper_numbers(sleepers);
    let ghost ks = keys@;
    let mut woken: Vec<u64> = Vec::new();
    let mut i: usize = 0;
    assert(ks.take(0).to_set() =~= Set::<u64>::empty());
    assert(ticked_part(m, Set::empty()) =~= m);
    while i < keys.len()
        invariant
            ks == keys@,
            ks.to_set() == m.dom(),
            ks.no_duplicates(),
            i <= ks.len(),
            sleepers@ == ticked_part(m, ks.take(i as int).to_set()),
            woken@ == waking(m, ks.take(i as int)),
            woken@.no_duplicates(),
            forall|j: int| 0 <= j < woken@.len() ==> done_before(ks, i as int, #[trigger] woken@[j]),
        decreases ks.len() - i,
    {
        let k = keys[i];
        let ghost done = ks.take(i as int).to_set();
        proof {
            assert(ks.to_set().contains(k)) by {
                assert(ks[i as int] == k);
            }
            assert(!done.contains(k)) by {
                if done.contains(k) {
                    let j = choose|j: int| 0 <= j < i && ks.take(i as int)[j] == k;
                    assert(ks[j] == ks[i as int]);
                }
            }
            assert(ks.take(i + 1).drop_last() =~= ks.take(i as int));
            let t1 = ks.take(i + 1);
            let t0 = ks.take(i as int);
            assert forall|x: u64| t1.to_set().contains(x) <==> done.insert(k).contains(x) by {
                if t1.contains(x) {
                    let j = choose|j: int| 0 <= j < t1.len() && t1[j] == x;
                    if j < i {
                        assert(t0[j] == x);
                    }
                }
                if t0.contains(x) {
                    let j = choose|j: int| 0 <= j < t0.len() && t0[j] == x;
                    assert(t1[j] == x);
                }
                if x == k {
                    assert(t1[i as int] == k);
                }
            }
            assert(t1.to_set() =~= done.insert(k));
        }
        let r: u64 = match sleepers.get(&k) {
            Some(v) => *v,
            None => 0,
        };
        assert(r == m[k]);
        if r > 0 {
            if r == 1 {
                sleepers.remove(&k);
                proof {
                    assert forall|j: int| 0 <= j < woken@.len() implies woken@[j] != k by {
                        assert(done_before(ks, i as int, woken@[j]));
                    }
                }
                woken.push(k);
            } else {
                sleepers.insert(k, r - 1);
            }
        }
        i = i + 1;
        assert(sleepers@ =~= ticked_part(m, ks.take(i as int).to_set()));
        assert forall|j: int| 0 <= j < woken@.len() implies done_before(ks, i as int, #[trigger] woken@[j]) by {
            if woken@[j] != k {
                assert(done_before(ks, i - 1, woken@[j]));
            } else {
                assert(ks[i - 1] == k);
            }
        }
    }
    proof {
        assert(ks.take(ks.len() as int) =~= ks);
        assert(ticked_part(m, m.dom()) =~= ticked(m));
        lemma_waking_contains(m, ks);
    }
    woken
}

/// The numbers of the sleeping tasks, each once.
fn sleeper_numbers(sleepers: &BTreeMap<u64, u64>) -> (ks: Vec<u64>)
    ensures
        ks@.to_set() == sleepers@.dom(),
        ks@.no_duplicates(),
{
    broadcast use vstd::std_specs::btree::group_btree_axioms;
    proof {
        vstd::std_specs::btree::axiom_spec_keys_iter(sleepers);
    }
    let ghost all = IteratorSpec::remaining(&vstd::std_specs::btree::spec_keys_iter(sleepers)).unref();
    let mut keys: Vec<u64> = Vec::new();
    for k in it: sleepers.keys()
        invariant
            it.seq().unref() == all,
            keys@ == all.take(it.index()),
    {
        keys.push(*k);
        assert(keys@ =~= all.take(it.index() + 1));
    }
    assert(keys@ =~= all);
    keys
}

/// `k` is one of the first `i` numbers of `ks`.
pub open spec fn done_before(ks: Seq<u64>, i: int, k: u64) -> bool {
    exists|j: int| 0 <= j < i && ks[j] == k
}

/// A number is among those woken exactly when its time was one.
proof fn lemma_waking_contains(m: Map<u64, u64>, ks: Seq<u64>)
    ensures
        forall|k: u64| waking(m, ks).contains(k) <==> (ks.contains(k) && m.contains_key(k) && m[k] == 1),
    decreases ks.len(),
{
    if ks.len() > 0 {
        lemma_waking_contains(m, ks.drop_last());
        assert forall|k: u64| waking(m, ks).contains(k) <==> (ks.contains(k) && m.contains_key(k)
            && m[k] == 1) by {
            let w = waking(m, ks.drop_last());
            if ks.contains(k) && !ks.drop_last().contains(k) {
                let j = choose|j: int| 0 <= j < ks.len() && ks[j] == k;
                if j < ks.len() - 1 {
                    assert(ks.drop_last()[j] == k);
                }
            }
            if ks.drop_last().contains(k) {
                let j = choose|j: int| 0 <= j < ks.drop_last().len() && ks.drop_last()[j] == k;
                assert(ks[j] == k);
            }
            if waking(m, ks).contains(k) && !w.contains(k) {
                let j = choose|j: int| 0 <= j < waking(m, ks).len() && waking(m, ks)[j] == k;
                assert(j >= w.len());
                assert(ks[ks.len() - 1] == k);
            }
            if w.contains(k) {
                let j = choose|j: int| 0 <= j < w.len() && w[j] == k;
                assert(waking(m, ks)[j] == k);
            }
            if k == ks.last() && m.contains_key(k) && m[k] == 1 {
                assert(waking(m, ks)[w.len() as int] == k);
            }
        }
    } else {
        assert forall|k: u64| !waking(m, ks).contains(k) by {}
    }
}

} // verus!
