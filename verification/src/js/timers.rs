//! The page's timers: ids, what each timer is, and when a fired timer is forgotten.
use vstd::prelude::*;

use std::collections::HashMap;

use crate::text::str_equal;

verus! {

broadcast use vstd::std_specs::hash::group_hash_axioms;

/// A timer that is due.
#[derive(Debug, Clone, Copy, PartialEq, Eq, Structural)]
pub enum TimerMessage {
    Fire { timer_id: u32 },
}

/// What scheduled a timer.
#[derive(Debug, Clone, Copy, PartialEq, Eq, Structural)]
pub enum TimerKind {
    Timeout,
    Interval,
    AnimationFrame,
}

/// The kind a page names when it schedules a timer: `timeout`, `interval` or
/// `animationFrame`; any other name is refused.
pub open spec fn timer_kind_named(name: Seq<char>) -> Result<TimerKind, Seq<char>> {
    if name == "timeout"@ {
        Ok(TimerKind::Timeout)
    } else if name == "interval"@ {
        Ok(TimerKind::Interval)
    } else if name == "animationFrame"@ {
        Ok(TimerKind::AnimationFrame)
    } else {
        Err("unsupported timer kind: "@ + name)
    }
}

/// Reads the kind of timer a page schedules.
pub fn timer_kind_from_name(name: &str) -> (r: Result<TimerKind, String>)
    ensures
        match timer_kind_named(name@) {
            Ok(k) => r == Ok::<TimerKind, String>(k),
            Err(m) => r matches Err(e) && e@ == m,
        },
{
    if str_equal(name, "timeout") {
        Ok(TimerKind::Timeout)
    } else if str_equal(name, "interval") {
        Ok(TimerKind::Interval)
    } else if str_equal(name, "animationFrame") {
        Ok(TimerKind::AnimationFrame)
    } else {
        let mut m = String::from_str("unsupported timer kind: ");
        m.append(name);
        Err(m)
    }
}

/// A live timer: its kind and whether it fires again.
#[derive(Debug, Clone, Copy, PartialEq, Eq, Structural)]
pub struct TimerInfo {
    pub kind: TimerKind,
    pub repeating: bool,
}

/// Nanoseconds in a millisecond.
pub const NANOS_PER_MILLI: u64 = 1_000_000;

/// The delay a timer waits: animation frames wait at least 16 ms and repeating timers at
/// least 1 ms; any other zero delay stays zero.
pub open spec fn effective_delay(base_nanos: u64, kind: TimerKind, repeating: bool) -> u64 {
    let d: u64 = if kind == TimerKind::AnimationFrame && base_nanos == 0 {
        16_000_000
    } else {
        base_nanos
    };
    if repeating && d == 0 {
        NANOS_PER_MILLI
    } else {
        d
    }
}

/// The delay of a timer, from the delay the page asked for (already in nanoseconds,
/// zero for a delay that is not positive).
pub fn effective_delay_nanos(base_nanos: u64, kind: TimerKind, repeating: bool) -> (r: u64)
    ensures
        r == effective_delay(base_nanos, kind, repeating),
{
    let mut d = base_nanos;
    if kind == TimerKind::AnimationFrame && d == 0 {
        d = 16 * NANOS_PER_MILLI;
    }
    if repeating && d == 0 {
        d = NANOS_PER_MILLI;
    }
    d
}

/// The id after `id`: counting up, wrapping past the largest id back to 1 (0 is never used).
pub open spec fn following_id(id: u32) -> u32 {
    if id == u32::MAX {
        1
    } else {
        (id + 1) as u32
    }
}

/// The live timers by id, and the id the next timer gets.
pub struct TimerTable {
    next_id: u32,
    timers: HashMap<u32, TimerInfo>,
}

impl TimerTable {
    pub closed spec fn next(&self) -> u32 {
        self.next_id
    }

    pub closed spec fn live(&self) -> Map<u32, TimerInfo> {
        self.timers@
    }

    /// Ids are never 0, and finitely many timers are live.
    pub closed spec fn wf(&self) -> bool {
        &&& self.next_id >= 1
        &&& self.timers@.dom().finite()
    }

    /// No timers; the first id is 1.
    pub fn new() -> (r: TimerTable)
        ensures
            r.wf(),
            r.next() == 1,
            r.live() == Map::<u32, TimerInfo>::empty(),
    {
        TimerTable { next_id: 1, timers: HashMap::new() }
    }

    fn take_id(&mut self) -> (id: u32)
        requires
            old(self).wf(),
        ensures
            final(self).wf(),
            id == old(self).next(),
            final(self).next() == following_id(id),
            final(self).live() == old(self).live(),
    {
        let id = self.next_id;
        self.next_id = if id == u32::MAX {
            1
        } else {
            id + 1
        };
        id
    }

    /// Registers a timer and returns its id.
    pub fn register(&mut self, kind: TimerKind, repeating: bool) -> (id: u32)
        requires
            old(self).wf(),
        ensures
            final(self).wf(),
            id == old(self).next(),
            id >= 1,
            final(self).next() == following_id(id),
            final(self).live() == old(self).live().insert(
                id,
                TimerInfo { kind, repeating },
            ),
    {
        let id = self.take_id();
        self.timers.insert(id, TimerInfo { kind, repeating });
        id
    }

    /// Forgets a timer; says whether it was live.
    pub fn clear(&mut self, id: u32) -> (was_live: bool)
        requires
            old(self).wf(),
        ensures
            final(self).wf(),
            was_live == old(self).live().contains_key(id),
            final(self).live() == old(self).live().remove(id),
            final(self).next() == old(self).next(),
    {
        match self.timers.remove(&id) {
            Some(_) => true,
            None => false,
        }
    }

    /// The kind of a fired timer, if it is still live.
    pub fn fired_kind(&self, id: u32) -> (r: Option<TimerKind>)
        ensures
            match r {
                Some(k) => self.live().contains_key(id) && self.live()[id].kind == k,
                None => !self.live().contains_key(id),
            },
    {
        match self.timers.get(&id) {
            Some(info) => Some(info.kind),
            None => None,
        }
    }

    /// After a timer's callback ran: a timer that does not repeat is forgotten. Says
    /// whether it was forgotten.
    pub fn finish_fired(&mut self, id: u32) -> (removed: bool)
        requires
            old(self).wf(),
        ensures
            final(self).wf(),
            final(self).next() == old(self).next(),
            removed == (old(self).live().contains_key(id) && !old(self).live()[id].repeating),
            final(self).live() == (if old(self).live().contains_key(id)
                && old(self).live()[id].repeating {
                old(self).live()
            } else {
                old(self).live().remove(id)
            }),
    {
        let repeating = match self.timers.get(&id) {
            Some(info) => info.repeating,
            None => false,
        };
        if repeating {
            return false;
        }
        match self.timers.remove(&id) {
            Some(_) => true,
            None => false,
        }
    }

    /// Whether any timer is live.
    pub fn has_active_timers(&self) -> (r: bool)
        ensures
            r == (self.live().dom().len() > 0),
            r == (exists|id: u32| self.live().contains_key(id)),
    {
        let r = !self.timers.is_empty();
        proof {
            if r {
                let id = self.timers@.dom().choose();
                assert(self.live().contains_key(id));
            } else {
                assert(self.live().dom() =~= Set::<u32>::empty());
            }
        }
        r
    }
}

/// Clearing a timer right after registering it leaves the other timers as they were.
pub proof fn lemma_register_then_clear(live: Map<u32, TimerInfo>, id: u32, info: TimerInfo)
    requires
        !live.contains_key(id),
    ensures
        live.insert(id, info).remove(id) == live,
{
    assert(live.insert(id, info).remove(id) =~= live);
}

/// Every id handed out is at least 1, and the id after it is too.
pub proof fn lemma_ids_positive(id: u32)
    requires
        id >= 1,
    ensures
        following_id(id) >= 1,
        following_id(id) != id,
{
}

} // verus!
