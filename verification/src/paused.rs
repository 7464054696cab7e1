//! The processes that global limiting holds suspended, oldest first.

use std::collections::HashSet;
use std::collections::VecDeque;
use vstd::prelude::*;

verus! {

broadcast use vstd::std_specs::hash::group_hash_axioms;

/// A first-in, first-out queue of process identifiers in which no identifier
/// occurs twice. A set of its members answers membership without a walk
/// through the queue.
pub struct PausedQueue {
    order: VecDeque<i32>,
    members: HashSet<i32>,
}

impl View for PausedQueue {
    type V = Seq<i32>;

    /// The identifiers in the order in which they were suspended.
    closed spec fn view(&self) -> Seq<i32> {
        self.order@
    }
}

impl PausedQueue {
    #[verifier::type_invariant]
    spec fn well_formed(self) -> bool {
        &&& self.order@.no_duplicates()
        &&& self.members@ == self.order@.to_set()
    }

    /// A queue that holds nothing.
    pub fn new() -> (queue: Self)
        ensures
            queue@ == Seq::<i32>::empty(),
            queue@.no_duplicates(),
    {
        let order: VecDeque<i32> = VecDeque::new();
        let members: HashSet<i32> = HashSet::new();
        assert(order@.to_set() =~= Set::<i32>::empty());
        PausedQueue { order, members }
    }

    /// How many processes are held.
    pub fn len(&self) -> (n: usize)
        ensures
            n == self@.len(),
    {
        self.order.len()
    }

    /// Whether nothing is held.
    pub fn is_empty(&self) -> (empty: bool)
        ensures
            empty == (self@.len() == 0),
    {
        self.order.len() == 0
    }

    /// Whether `pid` is held.
    pub fn contains(&self, pid: i32) -> (held: bool)
        ensures
            held == self@.contains(pid),
    {
        proof {
            use_type_invariant(self);
        }
        self.members.contains(&pid)
    }

    /// Puts `pid` behind the others. A `pid` that is already held keeps its
    /// place and the queue stays as it is.
    pub fn push_back(&mut self, pid: i32) -> (added: bool)
        ensures
            added == !old(self)@.contains(pid),
            added ==> final(self)@ == old(self)@.push(pid),
            !added ==> final(self)@ == old(self)@,
            old(self)@.no_duplicates(),
            final(self)@.no_duplicates(),
    {
        proof {
            use_type_invariant(&*self);
        }
        if self.members.contains(&pid) {
            return false;
        }
        let mut taken = PausedQueue::new();
        std::mem::swap(self, &mut taken);
        let PausedQueue { mut order, mut members } = taken;
        let ghost before = order@;
        order.push_back(pid);
        members.insert(pid);
        proof {
            assert(order@.to_set() =~= before.to_set().insert(pid)) by {
                assert forall|p: i32| #[trigger]
                    order@.to_set().contains(p) <==> before.to_set().insert(pid).contains(
                        p,
                    ) by {
                    if before.contains(p) {
                        let i = choose|i: int| 0 <= i < before.len() && before[i] == p;
                        assert(order@[i] == p);
                    }
                    if p == pid {
                        assert(order@[before.len() as int] == p);
                    }
                }
            }
        }
        *self = PausedQueue { order, members };
        true
    }

    /// Takes out the process that has been held longest.
    pub fn pop_front(&mut self) -> (head: Option<i32>)
        ensures
            old(self)@.len() == 0 ==> head is None && final(self)@ == old(self)@,
            old(self)@.len() > 0 ==> head == Some(old(self)@[0]) && final(self)@ == old(
                self,
            )@.drop_first(),
            old(self)@.no_duplicates(),
            final(self)@.no_duplicates(),
    {
        proof {
            use_type_invariant(&*self);
        }
        let mut taken = PausedQueue::new();
        std::mem::swap(self, &mut taken);
        let PausedQueue { mut order, mut members } = taken;
        let ghost before = order@;
        let head = order.pop_front();
        match head {
            Some(pid) => {
                members.remove(&pid);
                proof {
                    assert(order@.to_set() =~= before.to_set().remove(pid)) by {
                        assert forall|p: i32| #[trigger]
                            order@.to_set().contains(p) <==> before.to_set().remove(pid).contains(
                                p,
                            ) by {
                            if order@.contains(p) {
                                let i = choose|i: int| 0 <= i < order@.len() && order@[i] == p;
                                assert(before[i + 1] == p);
                            }
                            if before.contains(p) && p != pid {
                                let i = choose|i: int| 0 <= i < before.len() && before[i] == p;
                                assert(order@[i - 1] == p);
                            }
                        }
                    }
                }
            },
            None => {},
        }
        *self = PausedQueue { order, members };
        head
    }

    /// Takes every process out, oldest first.
    pub fn drain(&mut self) -> (pids: Vec<i32>)
        ensures
            pids@ == old(self)@,
            pids@.no_duplicates(),
            final(self)@ == Seq::<i32>::empty(),
    {
        let mut taken = PausedQueue::new();
        std::mem::swap(self, &mut taken);
        taken.to_vec()
    }

    /// The identifiers held, oldest first; none occurs twice.
    pub fn to_vec(&self) -> (pids: Vec<i32>)
        ensures
            pids@ == self@,
            pids@.no_duplicates(),
    {
        proof {
            use_type_invariant(self);
        }
        let mut pids: Vec<i32> = Vec::new();
        let mut i: usize = 0;
        while i < self.order.len()
            invariant
                i <= self.order@.len(),
                pids@ == self.order@.subrange(0, i as int),
            decreases self.order@.len() - i,
        {
            pids.push(self.order[i]);
            i = i + 1;
        }
        pids
    }
}

} // verus!
