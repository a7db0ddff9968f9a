//! The order in which systems run within a tick.
use vstd::prelude::*;

verus! {

/// The systems a simulation runs. Per-player systems carry the index of
/// their player's seat.
#[derive(Clone, Copy, Debug, PartialEq, Eq, Structural)]
pub enum SystemKind {
    Collision,
    Inertia,
    Gravity,
    Explosion,
    GameState,
    Firing { seat: usize },
    TankControl { seat: usize },
    Ai { seat: usize },
}

/// A system registered under a name and a priority.
#[derive(Debug)]
pub struct Registration {
    pub name: String,
    pub priority: i32,
    pub kind: SystemKind,
}

/// Priorities never fall along `s`.
pub open spec fn by_priority(s: Seq<(i32, SystemKind)>) -> bool {
    forall|i: int, j: int| 0 <= i < j < s.len() ==> (#[trigger] s[i]).0 <= (#[trigger] s[j]).0
}

/// The systems of a simulation in the order they run: by rising priority,
/// and in order of registration among equal priorities.
#[derive(Debug)]
pub struct Schedule {
    systems: Vec<Registration>,
}

impl Schedule {
    /// The priority and kind of each system, in running order.
    pub closed spec fn entries(&self) -> Seq<(i32, SystemKind)> {
        self.systems@.map_values(|r: Registration| (r.priority, r.kind))
    }

    pub open spec fn wf(&self) -> bool {
        by_priority(self.entries())
    }

    pub fn new() -> (r: Schedule)
        ensures
            r.wf(),
            r.entries().len() == 0,
    {
        Schedule { systems: Vec::new() }
    }

    pub fn len(&self) -> (r: usize)
        ensures
            r == self.entries().len(),
    {
        self.systems.len()
    }

    /// The kind of the `i`-th system to run.
    pub fn kind(&self, i: usize) -> (r: SystemKind)
        requires
            i < self.entries().len(),
        ensures
            r == self.entries()[i as int].1,
    {
        self.systems[i].kind
    }

    /// The name of the `i`-th system to run.
    pub fn name(&self, i: usize) -> (r: &String)
        requires
            i < self.entries().len(),
    {
        &self.systems[i].name
    }

    /// Registers a system. It runs after every system of lower or equal
    /// priority registered so far and before every one of higher priority.
    pub fn add_system(&mut self, kind: SystemKind, name: String, priority: i32)
        requires
            old(self).wf(),
        ensures
            final(self).wf(),
            exists|k: int|
                0 <= k <= old(self).entries().len() && final(self).entries() == old(
                    self,
                ).entries().insert(k, (priority, kind)) && (forall|j: int|
                    0 <= j < k ==> (#[trigger] old(self).entries()[j]).0 <= priority) && (forall|
                    j: int,
                |
                    k <= j < old(self).entries().len() ==> (#[trigger] old(
                        self,
                    ).entries()[j]).0 > priority),
            (old(self).entries().len() == 0 || old(self).entries().last().0 <= priority)
                ==> final(self).entries() == old(self).entries().push((priority, kind)),
    {
        let n = self.systems.len();
        let mut k: usize = 0;
        while k < n && self.systems[k].priority <= priority
            invariant
                0 <= k <= n,
                n == self.systems@.len(),
                forall|j: int| 0 <= j < k ==> (#[trigger] self.systems@[j]).priority <= priority,
            decreases n - k,
        {
            k += 1;
        }
        let ghost old_entries = self.entries();
        proof {
            if n > 0 && old_entries.last().0 <= priority && k < n {
                assert(old_entries[k as int].0 <= old_entries[n - 1].0);
            }
            if k < n {
                assert(old_entries[k as int].0 > priority);
            }
            assert forall|j: int| k <= j < n implies (#[trigger] old_entries[j]).0 > priority by {
                assert(old_entries[k as int].0 > priority);
                assert(old_entries[k as int].0 <= old_entries[j].0);
            }
        }
        self.systems.insert(k, Registration { name, priority, kind });
        assert(self.entries() =~= old_entries.insert(k as int, (priority, kind)));
        if k == n {
            assert(self.entries() =~= old_entries.push((priority, kind)));
        }
        proof {
            let e = self.entries();
            assert forall|i: int, j: int| 0 <= i < j < e.len() implies (#[trigger] e[i]).0 <= (
            #[trigger] e[j]).0 by {
                if j < k {
                    assert(e[i] == old_entries[i] && e[j] == old_entries[j]);
                } else if j == k {
                    assert(e[i] == old_entries[i]);
                } else if i < k {
                    assert(e[i] == old_entries[i] && e[j] == old_entries[j - 1]);
                } else if i == k {
                    assert(e[j] == old_entries[j - 1]);
                } else {
                    assert(e[i] == old_entries[i - 1] && e[j] == old_entries[j - 1]);
                }
            }
        }
    }
}

} // verus!
