//! The tracker's state in memory: the log of finished timers and one slot
//! per class for its running timer.

use vstd::prelude::*;
use crate::class::Class;
use crate::ledger::{Entry, Ledger};
use crate::time::Time;

verus! {

/// The log of finished timers and the running timers, one per class at
/// most.
pub struct Data {
    times: Vec<Time>,
    active_times: [Option<Time>; 8],
}

/// The running timers that a list of classes and timers stands for: each
/// timer is filed under the class it comes with, a later one replacing an
/// earlier one of that class.
pub open spec fn active_of(list: Seq<(Class, Time)>) -> Map<Class, Time>
    decreases list.len(),
{
    if list.len() == 0 {
        Map::empty()
    } else {
        active_of(list.drop_last()).insert(list.last().0, list.last().1)
    }
}

/// Every class has a position among the eight slots, and no two share one.
pub proof fn lemma_ordinal(c: Class)
    ensures
        0 <= c.ordinal() < 8,
        Class::at(c.ordinal()) == c,
{
}

/// The classes and timers of a list of picked entries.
pub open spec fn filed_of(entries: Seq<Entry>) -> Seq<(Class, Time)> {
    entries.map_values(|e: Entry| (e.label, e.time))
}

proof fn lemma_parts_below(l: Ledger, k: int)
    requires
        0 <= k <= 8,
    ensures
        forall|c: Class|
            #![trigger active_of(filed_of(l.active_below(k))).dom().contains(c)]
            {
                &&& active_of(filed_of(l.active_below(k))).dom().contains(c) <==> l.is_active(c)
                    && c.ordinal() < k
                &&& l.is_active(c) && c.ordinal() < k ==> active_of(
                    filed_of(l.active_below(k)),
                )[c] == l.active[c]
            },
    decreases k,
{
    if k > 0 {
        lemma_parts_below(l, k - 1);
        let here = Class::at(k - 1);
        let rest = l.active_below(k - 1);
        if l.is_active(here) {
            let e = Entry { label: here, time: l.active[here], active: true };
            assert(filed_of(rest.push(e)) =~= filed_of(rest).push((e.label, e.time)));
            assert(filed_of(rest).push((e.label, e.time)).drop_last() =~= filed_of(rest));
        }
        assert forall|c: Class|
            #![trigger active_of(filed_of(l.active_below(k))).dom().contains(c)]
            {
                &&& active_of(filed_of(l.active_below(k))).dom().contains(c) <==> l.is_active(c)
                    && c.ordinal() < k
                &&& l.is_active(c) && c.ordinal() < k ==> active_of(
                    filed_of(l.active_below(k)),
                )[c] == l.active[c]
            } by {
            lemma_ordinal(c);
            lemma_ordinal(here);
            assert(active_of(filed_of(rest)).dom().contains(c) <==> l.is_active(c) && c.ordinal()
                < k - 1);
        }
    }
}

/// A state is given back by its parts: the running timers, listed with
/// their classes in canonical order, stand for the same running timers
/// again.
pub proof fn law_parts_round_trip(l: Ledger)
    ensures
        active_of(filed_of(l.active_below(8))) == l.active,
{
    lemma_parts_below(l, 8);
    assert forall|c: Class|
        active_of(filed_of(l.active_below(8))).dom().contains(c) == l.active.dom().contains(
            c,
        ) by {
        lemma_ordinal(c);
    }
    assert(active_of(filed_of(l.active_below(8))) =~= l.active);
}

impl View for Data {
    type V = Ledger;

    closed spec fn view(&self) -> Ledger {
        Ledger {
            history: self.times@,
            active: Map::new(
                |c: Class| self.active_times@[c.ordinal()] is Some,
                |c: Class| self.active_times@[c.ordinal()]->Some_0,
            ),
        }
    }
}

impl Data {
    /// An empty store.
    pub fn new() -> (r: Data)
        ensures
            r@ == Ledger::empty(),
    {
        let r = Data { times: Vec::new(), active_times: [None, None, None, None, None, None, None, None] };
        proof {
            assert forall|c: Class| !(#[trigger] r@.active.dom().contains(c)) by {
                lemma_ordinal(c);
            }
            assert(r@.active =~= Map::<Class, Time>::empty());
            assert(r@.history =~= Seq::<Time>::empty());
        }
        r
    }

    /// The running timer of a class, if it has one.
    pub fn get_active(&self, class: Class) -> (r: Option<Time>)
        ensures
            r == (if self@.is_active(class) {
                Some(self@.active[class])
            } else {
                None::<Time>
            }),
    {
        self.active_times[class.index()]
    }

    /// Files a timer as the running timer of a class.
    pub fn insert_active(&mut self, class: Class, time: Time)
        ensures
            final(self)@ == (Ledger {
                active: old(self)@.active.insert(class, time),
                ..old(self)@
            }),
    {
        let i: usize = class.index();
        self.active_times[i] = Some(time);
        proof {
            assert forall|c: Class|
                c != class implies c.ordinal() != class.ordinal() by {
                lemma_ordinal(c);
                lemma_ordinal(class);
            }
            assert(self@.active =~= old(self)@.active.insert(class, time));
        }
    }

    /// Removes the running timer of a class, if it has one.
    pub fn remove_active(&mut self, class: Class)
        ensures
            final(self)@ == (Ledger { active: old(self)@.active.remove(class), ..old(self)@ }),
    {
        let i: usize = class.index();
        self.active_times[i] = None;
        proof {
            assert forall|c: Class|
                c != class implies c.ordinal() != class.ordinal() by {
                lemma_ordinal(c);
                lemma_ordinal(class);
            }
            assert(self@.active =~= old(self)@.active.remove(class));
        }
    }

    /// Appends a timer at the tail of the log.
    pub fn push_history(&mut self, time: Time)
        ensures
            final(self)@ == (Ledger { history: old(self)@.history.push(time), ..old(self)@ }),
    {
        self.times.push(time);
    }

    /// Number of timers in the log.
    pub fn history_len(&self) -> (r: usize)
        ensures
            r == self@.history.len(),
    {
        self.times.len()
    }

    /// The timer at a position of the log, the oldest at position 0.
    pub fn history_at(&self, i: usize) -> (r: Time)
        requires
            i < self@.history.len(),
        ensures
            r == self@.history[i as int],
    {
        self.times[i]
    }

    /// The log, oldest first.
    pub fn times(&self) -> (r: Vec<Time>)
        ensures
            r@ == self@.history,
    {
        let mut out: Vec<Time> = Vec::new();
        let mut i: usize = 0;
        while i < self.times.len()
            invariant
                i <= self.times.len(),
                out@ == self.times@.take(i as int),
            decreases self.times.len() - i,
        {
            out.push(self.times[i]);
            i += 1;
            assert(out@ =~= self.times@.take(i as int));
        }
        assert(out@ =~= self.times@);
        out
    }

    /// The running timers in the canonical order of their classes.
    pub fn active(&self) -> (r: Vec<Entry>)
        ensures
            r@ == self@.active_below(8),
    {
        let mut out: Vec<Entry> = Vec::new();
        let mut i: usize = 0;
        while i < 8
            invariant
                i <= 8,
                out@ == self@.active_below(i as int),
            decreases 8 - i,
        {
            let c = Class::from_index(i);
            match self.active_times[i] {
                Some(t) => {
                    out.push(Entry { label: c, time: t, active: true });
                },
                None => {},
            }
            i += 1;
        }
        out
    }

    /// What a persisted document holds of the store: the log, oldest
    /// first, and the running timers with their classes. Loading it gives
    /// the same store again.
    pub fn save(&self) -> (r: (Vec<Time>, Vec<(Class, Time)>))
        ensures
            r.0@ == self@.history,
            r.1@ == filed_of(self@.active_below(8)),
            (Ledger { history: r.0@, active: active_of(r.1@) }) == self@,
    {
        let times = self.times();
        let entries = self.active();
        let mut filed: Vec<(Class, Time)> = Vec::new();
        let mut i: usize = 0;
        while i < entries.len()
            invariant
                i <= entries.len(),
                filed@ == filed_of(entries@.take(i as int)),
            decreases entries.len() - i,
        {
            let e = entries[i];
            filed.push((e.label, e.time));
            i += 1;
            assert(filed@ =~= filed_of(entries@.take(i as int)));
        }
        proof {
            assert(entries@.take(i as int) =~= entries@);
            law_parts_round_trip(self@);
        }
        (times, filed)
    }

    /// The store that a persisted document gives: its log and running
    /// timers where the document could be read, an empty store where it
    /// could not.
    pub fn load(parsed: Option<(Vec<Time>, Vec<(Class, Time)>)>) -> (r: Data)
        ensures
            match parsed {
                Some((times, active)) => r@.history == times@ && r@.active == active_of(active@),
                None => r@ == Ledger::empty(),
            },
    {
        match parsed {
            Some((times, active)) => Data::from_parts(times, active),
            None => Data::new(),
        }
    }

    /// A store with a given log and the running timers that a list stands
    /// for.
    pub fn from_parts(times: Vec<Time>, active: Vec<(Class, Time)>) -> (r: Data)
        ensures
            r@.history == times@,
            r@.active == active_of(active@),
    {
        let mut r = Data::new();
        let mut i: usize = 0;
        while i < active.len()
            invariant
                i <= active.len(),
                r@.history == Seq::<Time>::empty(),
                r@.active == active_of(active@.take(i as int)),
            decreases active.len() - i,
        {
            let filed = active[i];
            r.insert_active(filed.0, filed.1);
            i += 1;
            assert(active@.take(i as int).drop_last() =~= active@.take(i as int - 1));
        }
        assert(active@.take(i as int) =~= active@);
        r.times = times;
        r
    }
}

} // verus!
