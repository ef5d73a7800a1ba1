//! The pool of read-only connections, and what becomes of a connection when the
//! task that used it ends.
//!
//! Connections are checked out exclusively, so queries run concurrently and the
//! time limit of one query can only interrupt its own connection.

use vstd::prelude::*;

use crate::errors::EngineError;
use crate::errors::EngineErrorView;

verus! {

/// Connections, idle or lent. A slot is whatever stands for a connection.
#[derive(Debug)]
pub struct Pool<T> {
    idle: Vec<T>,
    permits: usize,
    lent: usize,
    lost: usize,
}

/// The mathematical value of a [`Pool`].
pub struct PoolView<T> {
    /// The idle slots.
    pub idle: Seq<T>,
    /// How many callers may still check out a slot. A checkout takes a permit, a
    /// return gives it back, a loss takes it along.
    pub permits: nat,
    /// How many slots are lent.
    pub lent: nat,
    /// How many slots are gone for good.
    pub lost: nat,
}

impl<T> PoolView<T> {
    /// How many slots the pool was made with.
    pub open spec fn capacity(self) -> nat {
        self.idle.len() + self.lent + self.lost
    }

    /// How many slots are left, idle or lent.
    pub open spec fn size(self) -> nat {
        self.idle.len() + self.lent
    }

    /// True if whoever gets a permit finds an idle slot, and no idle slot waits in
    /// vain.
    pub open spec fn balanced(self) -> bool {
        self.permits == self.idle.len()
    }

    /// A pool of idle slots, with a permit for each.
    pub open spec fn fresh(slots: Seq<T>) -> PoolView<T> {
        PoolView { idle: slots, permits: slots.len(), lent: 0, lost: 0 }
    }

    /// The pool once a slot was checked out.
    pub open spec fn taken(self) -> PoolView<T> {
        PoolView {
            idle: self.idle.drop_last(),
            permits: (self.permits - 1) as nat,
            lent: self.lent + 1,
            lost: self.lost,
        }
    }

    /// The pool once a slot was returned.
    pub open spec fn returned(self, slot: T) -> PoolView<T> {
        PoolView {
            idle: self.idle.push(slot),
            permits: self.permits + 1,
            lent: (self.lent - 1) as nat,
            lost: self.lost,
        }
    }

    /// The pool once a lent slot was lost.
    pub open spec fn forgotten(self) -> PoolView<T> {
        PoolView {
            idle: self.idle,
            permits: self.permits,
            lent: (self.lent - 1) as nat,
            lost: self.lost + 1,
        }
    }
}

impl<T> Pool<T> {
    /// The mathematical value.
    pub closed spec fn view(&self) -> PoolView<T> {
        PoolView {
            idle: self.idle@,
            permits: self.permits as nat,
            lent: self.lent as nat,
            lost: self.lost as nat,
        }
    }

    /// What holds of every pool.
    #[verifier::type_invariant]
    spec fn wf(&self) -> bool {
        &&& self.permits == self.idle@.len()
        &&& self.idle@.len() + self.lent + self.lost <= usize::MAX
    }

    /// A pool of idle slots.
    pub fn new(slots: Vec<T>) -> (r: Self)
        ensures
            r@ == PoolView::fresh(slots@),
    {
        let n: usize = slots.len();
        assert(slots@.len() == n);
        Pool { idle: slots, permits: n, lent: 0, lost: 0 }
    }

    /// How many slots may be checked out.
    pub fn permits(&self) -> (r: usize)
        ensures
            r == self@.permits,
            self@.balanced(),
    {
        proof {
            use_type_invariant(self);
        }
        self.permits
    }

    /// How many slots are lent.
    pub fn lent(&self) -> (r: usize)
        ensures
            r == self@.lent,
    {
        self.lent
    }

    /// Checks out a slot, if one is idle.
    pub fn checkout(&mut self) -> (r: Option<T>)
        ensures
            match r {
                Some(slot) => old(self)@.permits > 0 && slot == old(self)@.idle.last()
                    && final(self)@ == old(self)@.taken(),
                None => old(self)@.permits == 0 && final(self)@ == old(self)@,
            },
    {
        proof {
            use_type_invariant(&*self);
        }
        if self.permits == 0 {
            return None;
        }
        let mut next = Pool { idle: Vec::new(), permits: 0, lent: 0, lost: 0 };
        std::mem::swap(self, &mut next);
        let Pool { mut idle, permits, lent, lost } = next;
        let slot = idle.pop();
        *self = Pool { idle, permits: permits - 1, lent: lent + 1, lost };
        slot
    }

    /// Returns a slot to the pool.
    pub fn checkin(&mut self, slot: T)
        requires
            old(self)@.lent > 0,
        ensures
            final(self)@ == old(self)@.returned(slot),
    {
        proof {
            use_type_invariant(&*self);
        }
        let mut next = Pool { idle: Vec::new(), permits: 0, lent: 0, lost: 0 };
        std::mem::swap(self, &mut next);
        let Pool { mut idle, permits, lent, lost } = next;
        idle.push(slot);
        *self = Pool { idle, permits: permits + 1, lent: lent - 1, lost };
    }

    /// Gives up a lent slot that will not come back.
    pub fn forget(&mut self)
        requires
            old(self)@.lent > 0,
        ensures
            final(self)@ == old(self)@.forgotten(),
    {
        proof {
            use_type_invariant(&*self);
        }
        self.lent = self.lent - 1;
        self.lost = self.lost + 1;
    }
}

// ---- the end of a task ----

/// How the task that uses a slot ended.
#[derive(Debug, Clone, Copy)]
pub enum Ending {
    /// It finished and gives the slot back, whatever its result.
    Finished,
    /// It panicked; the slot is gone.
    Panicked,
    /// It ran longer than it may and goes on; it was told to stop.
    TimedOut,
}

/// What a task was doing.
#[derive(Debug, Clone, Copy)]
pub enum Work {
    Query,
    Describe,
}

/// What becomes of the slot.
#[derive(Debug, Clone, Copy)]
pub enum Fate {
    /// It returns to the pool.
    Return,
    /// It is lost.
    Forget,
    /// It stays lent until the task stops.
    Reclaim,
}

/// What is done when a task has ended.
#[derive(Debug)]
pub struct Settled {
    pub fate: Fate,
    /// What the caller is answered instead of the result, if the task has none.
    pub error: Option<EngineError>,
}

/// What becomes of the slot of a task.
pub open spec fn fate_of(ending: Ending) -> Fate {
    match ending {
        Ending::Finished => Fate::Return,
        Ending::Panicked => Fate::Forget,
        Ending::TimedOut => Fate::Reclaim,
    }
}

/// What the caller is answered instead of a result.
pub open spec fn failure_of(ending: Ending, work: Work, limit: nat) -> Option<EngineErrorView> {
    match (ending, work) {
        (Ending::Finished, _) => None,
        (Ending::Panicked, Work::Query) => Some(EngineErrorView::QueryTask),
        (Ending::Panicked, Work::Describe) => Some(EngineErrorView::DescribeTask),
        (Ending::TimedOut, Work::Query) => Some(EngineErrorView::QueryTimeout(limit)),
        (Ending::TimedOut, Work::Describe) => Some(EngineErrorView::DescribeTimeout(limit)),
    }
}

/// Decides what becomes of the slot, and what the caller is answered, when a task
/// with a limit of `limit_secs` seconds has ended or overrun it.
pub fn settle(ending: Ending, work: Work, limit_secs: u64) -> (r: Settled)
    ensures
        r.fate == fate_of(ending),
        match r.error {
            Some(e) => failure_of(ending, work, limit_secs as nat) == Some(e@),
            None => failure_of(ending, work, limit_secs as nat) is None,
        },
{
    match ending {
        Ending::Finished => Settled { fate: Fate::Return, error: None },
        Ending::Panicked => Settled {
            fate: Fate::Forget,
            error: Some(
                match work {
                    Work::Query => EngineError::QueryTask,
                    Work::Describe => EngineError::DescribeTask,
                },
            ),
        },
        Ending::TimedOut => Settled {
            fate: Fate::Reclaim,
            error: Some(
                match work {
                    Work::Query => EngineError::QueryTimeout(limit_secs),
                    Work::Describe => EngineError::DescribeTimeout(limit_secs),
                },
            ),
        },
    }
}

/// What becomes of a slot whose interrupted task has stopped at last.
pub open spec fn reclaim_fate(panicked: bool) -> Fate {
    if panicked {
        Fate::Forget
    } else {
        Fate::Return
    }
}

/// Decides what becomes of a slot whose interrupted task has stopped at last.
pub fn reclaim(panicked: bool) -> (r: Fate)
    ensures
        r == reclaim_fate(panicked),
{
    if panicked {
        Fate::Forget
    } else {
        Fate::Return
    }
}

/// The pool once a lent slot has met its fate; `slot` is the slot that comes back.
pub open spec fn after<T>(v: PoolView<T>, fate: Fate, slot: T) -> PoolView<T> {
    match fate {
        Fate::Return => v.returned(slot),
        Fate::Forget => v.forgotten(),
        Fate::Reclaim => v,
    }
}

/// There are always as many permits as idle slots: a new pool has one for each, and a
/// checkout, a return and a loss keep it so. So whoever holds a permit finds a slot.
pub proof fn law_a_permit_finds_a_slot<T>(v: PoolView<T>, slots: Seq<T>, slot: T)
    ensures
        PoolView::fresh(slots).balanced(),
        v.balanced() && v.permits > 0 ==> v.idle.len() > 0 && v.taken().balanced(),
        v.balanced() && v.lent > 0 ==> v.returned(slot).balanced(),
        v.balanced() && v.lent > 0 ==> v.forgotten().balanced(),
{
}

/// No step loses count: a checkout, a return and a loss keep the capacity, and only
/// a loss makes the pool smaller, by one.
pub proof fn law_slots_are_accounted_for<T>(v: PoolView<T>, slot: T)
    ensures
        v.idle.len() > 0 ==> v.taken().capacity() == v.capacity() && v.taken().size() == v.size(),
        v.lent > 0 ==> v.returned(slot).capacity() == v.capacity() && v.returned(slot).size()
            == v.size(),
        v.lent > 0 ==> v.forgotten().capacity() == v.capacity() && v.forgotten().size() == v.size()
            - 1,
{
}

/// A slow query never shrinks the pool for good: its slot stays lent while it is
/// interrupted, and comes back when it stops. Only a panic costs a slot.
pub proof fn law_slow_queries_do_not_shrink_the_pool<T>(v: PoolView<T>, slot: T, panicked: bool)
    requires
        v.balanced(),
        v.permits > 0,
    ensures
        ({
            let lent = v.taken();
            let waiting = after(lent, fate_of(Ending::TimedOut), slot);
            let done = after(waiting, reclaim_fate(panicked), slot);
            &&& waiting == lent
            &&& done.lent == v.lent
            &&& !panicked ==> done.size() == v.size() && done.permits == v.permits
            &&& panicked ==> done.size() == v.size() - 1 && done.permits == v.permits - 1
            &&& done.balanced()
        }),
{
}

/// What becomes of the slot of a task, and what its caller is answered: a task that
/// finished answers for itself and gives the slot back, one that panicked takes it along,
/// and one that overran its limit keeps it until it stops; a failure is told by what the
/// task was doing.
pub proof fn law_endings_are_told_apart(limit: nat)
    ensures
        fate_of(Ending::Finished) == Fate::Return,
        fate_of(Ending::Panicked) == Fate::Forget,
        fate_of(Ending::TimedOut) == Fate::Reclaim,
        reclaim_fate(false) == Fate::Return,
        reclaim_fate(true) == Fate::Forget,
        failure_of(Ending::Finished, Work::Query, limit) is None,
        failure_of(Ending::Finished, Work::Describe, limit) is None,
        failure_of(Ending::Panicked, Work::Query, limit) == Some(EngineErrorView::QueryTask),
        failure_of(Ending::Panicked, Work::Describe, limit) == Some(EngineErrorView::DescribeTask),
        failure_of(Ending::TimedOut, Work::Query, limit) == Some(
            EngineErrorView::QueryTimeout(limit),
        ),
        failure_of(Ending::TimedOut, Work::Describe, limit) == Some(
            EngineErrorView::DescribeTimeout(limit),
        ),
{
}

/// A new pool lends nothing yet and holds the slots that it was given; giving back what
/// was checked out leaves the pool as it was, and a lost slot touches no idle one.
pub proof fn law_returning_undoes_a_checkout<T>(v: PoolView<T>, slots: Seq<T>, slot: T)
    ensures
        PoolView::fresh(slots).idle == slots,
        PoolView::fresh(slots).lent == 0 && PoolView::fresh(slots).lost == 0,
        v.idle.len() > 0 && v.permits > 0 ==> v.taken().returned(v.idle.last()) == v,
        v.lent > 0 ==> v.returned(slot).taken() == v && v.returned(slot).idle.last() == slot,
        v.forgotten().idle == v.idle && v.forgotten().permits == v.permits,
{
    if v.idle.len() > 0 && v.permits > 0 {
        assert(v.taken().returned(v.idle.last()).idle =~= v.idle);
    }
    assert(v.returned(slot).taken().idle =~= v.idle);
}

} // verus!
