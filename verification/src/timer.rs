//! Timeouts: what the engine asks for, and the queue in which they wait
//! until they are due.

use vstd::prelude::*;
use crate::algorithm::Step;

verus! {

/// A timeout that the engine asks for: after `delay` milliseconds it is handed
/// back, and acted on only if the height, round and step still fit.
#[derive(Clone, Copy, Debug, PartialEq, Eq)]
pub struct TimeoutInfo {
    pub delay: u128,
    pub height: usize,
    pub round: usize,
    pub step: Step,
}

/// A timeout that waits, with the time at which it is due, in milliseconds
/// on the timer's clock.
#[derive(Clone, Copy, Debug, PartialEq, Eq)]
pub struct Alarm {
    pub due: u128,
    pub info: TimeoutInfo,
}

/// The time at which a timeout asked for at `now` is due: `delay` later, or
/// at the end of the clock where that cannot be counted.
pub open spec fn due_at(now: u128, delay: u128) -> u128 {
    if now + delay > u128::MAX {
        u128::MAX
    } else {
        (now + delay) as u128
    }
}

/// The timeouts among the first `k` that wait which are due at `now`, in the
/// order in which they were asked for.
pub open spec fn due_upto(waiting: Seq<Alarm>, k: nat, now: u128) -> Seq<TimeoutInfo>
    decreases k,
{
    if k == 0 {
        Seq::empty()
    } else {
        let rest = due_upto(waiting, (k - 1) as nat, now);
        if waiting[k - 1].due <= now {
            rest.push(waiting[k - 1].info)
        } else {
            rest
        }
    }
}

/// The timeouts among the first `k` that wait which are not yet due at `now`,
/// in the order in which they were asked for.
pub open spec fn later_upto(waiting: Seq<Alarm>, k: nat, now: u128) -> Seq<Alarm>
    decreases k,
{
    if k == 0 {
        Seq::empty()
    } else {
        let rest = later_upto(waiting, (k - 1) as nat, now);
        if waiting[k - 1].due <= now {
            rest
        } else {
            rest.push(waiting[k - 1])
        }
    }
}

/// Whether `time` is the earliest time at which one of `waiting` is due.
pub open spec fn is_earliest(waiting: Seq<Alarm>, time: u128) -> bool {
    &&& exists|i: int| 0 <= i < waiting.len() && (#[trigger] waiting[i]).due == time
    &&& forall|i: int| 0 <= i < waiting.len() ==> time <= (#[trigger] waiting[i]).due
}

/// The timeouts that wait to be handed back to the engine. Nothing is ever
/// cancelled: the engine drops what is out of date when it comes back.
#[derive(Debug)]
pub struct WaitTimer {
    pub waiting: Vec<Alarm>,
}

impl View for WaitTimer {
    type V = Seq<Alarm>;

    open spec fn view(&self) -> Seq<Alarm> {
        self.waiting@
    }
}

impl WaitTimer {
    /// A timer on which nothing waits.
    pub fn new() -> (timer: Self)
        ensures
            timer@ == Seq::<Alarm>::empty(),
    {
        WaitTimer { waiting: Vec::new() }
    }

    /// Takes a timeout that the engine asks for at `now`.
    pub fn set(&mut self, now: u128, info: TimeoutInfo)
        ensures
            final(self)@ == old(self)@.push(Alarm { due: due_at(now, info.delay), info }),
    {
        let due: u128 = if info.delay > u128::MAX - now {
            u128::MAX
        } else {
            now + info.delay
        };
        self.waiting.push(Alarm { due, info });
    }

    /// The earliest time at which a timeout is due, if any waits.
    pub fn next_due(&self) -> (next: Option<u128>)
        ensures
            self@.len() == 0 ==> next.is_none(),
            self@.len() > 0 ==> next.is_some() && is_earliest(self@, next.unwrap()),
    {
        if self.waiting.len() == 0 {
            return None;
        }
        let mut best: u128 = self.waiting[0].due;
        let mut i: usize = 1;
        while i < self.waiting.len()
            invariant
                1 <= i <= self.waiting.len(),
                exists|j: int| 0 <= j < i && (#[trigger] self@[j]).due == best,
                forall|j: int| 0 <= j < i ==> best <= (#[trigger] self@[j]).due,
            decreases self.waiting.len() - i,
        {
            if self.waiting[i].due < best {
                best = self.waiting[i].due;
            }
            i += 1;
        }
        Some(best)
    }

    /// Hands back every timeout that is due at `now`, in the order in which
    /// they were asked for; the others go on waiting.
    pub fn take_due(&mut self, now: u128) -> (due: Vec<TimeoutInfo>)
        ensures
            due@ == due_upto(old(self)@, old(self)@.len(), now),
            final(self)@ == later_upto(old(self)@, old(self)@.len(), now),
    {
        let mut due: Vec<TimeoutInfo> = Vec::new();
        let mut later: Vec<Alarm> = Vec::new();
        let mut i: usize = 0;
        while i < self.waiting.len()
            invariant
                *self == *old(self),
                i <= self.waiting.len(),
                due@ == due_upto(self@, i as nat, now),
                later@ == later_upto(self@, i as nat, now),
            decreases self.waiting.len() - i,
        {
            let alarm = self.waiting[i];
            if alarm.due <= now {
                due.push(alarm.info);
            } else {
                later.push(alarm);
            }
            i += 1;
        }
        self.waiting = later;
        due
    }
}

/// A timeout is handed back only at or after the time at which it is due, and
/// every timeout is either handed back or goes on waiting: none is lost and
/// none is made up.
pub proof fn lemma_due_and_later_split(waiting: Seq<Alarm>, k: nat, now: u128)
    requires
        k <= waiting.len(),
    ensures
        due_upto(waiting, k, now).len() + later_upto(waiting, k, now).len() == k,
        forall|i: int|
            0 <= i < later_upto(waiting, k, now).len() ==> (#[trigger] later_upto(
                waiting,
                k,
                now,
            )[i]).due > now,
        forall|i: int|
            0 <= i < due_upto(waiting, k, now).len() ==> exists|j: int|
                0 <= j < k && waiting[j].due <= now && waiting[j].info == #[trigger] due_upto(
                    waiting,
                    k,
                    now,
                )[i],
    decreases k,
{
    if k > 0 {
        lemma_due_and_later_split(waiting, (k - 1) as nat, now);
        let due_rest = due_upto(waiting, (k - 1) as nat, now);
        let later_rest = later_upto(waiting, (k - 1) as nat, now);
        let due = due_upto(waiting, k, now);
        let later = later_upto(waiting, k, now);
        assert forall|i: int| 0 <= i < later.len() implies (#[trigger] later[i]).due > now by {
            if i < later_rest.len() {
                assert(later[i] == later_rest[i]);
            }
        }
        assert forall|i: int| 0 <= i < due.len() implies exists|j: int|
            0 <= j < k && waiting[j].due <= now && waiting[j].info == #[trigger] due[i] by {
            if i < due_rest.len() {
                assert(due[i] == due_rest[i]);
                let j = choose|j: int|
                    0 <= j < k - 1 && waiting[j].due <= now && waiting[j].info == due_rest[i];
                assert(waiting[j].info == due[i]);
            } else {
                assert(waiting[k - 1].info == due[i]);
            }
        }
    }
}

} // verus!
