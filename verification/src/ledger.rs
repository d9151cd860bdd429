//! The tracker's state as a mathematical value, its transitions, and the
//! rules that pick which timers a report shows.

use vstd::prelude::*;
use crate::class::Class;
use crate::clock::{Span, Stamp};
use crate::time::{Time, TimeError};

verus! {

/// The state of the tracker: the log of finished timers, oldest first, and
/// the running timer of each class that has one.
pub struct Ledger {
    pub history: Seq<Time>,
    pub active: Map<Class, Time>,
}

/// One timer picked for a report, with the class it is listed under.
#[derive(Clone, Copy, PartialEq, Eq, Structural, Debug)]
pub struct Entry {
    pub label: Class,
    pub time: Time,
    pub active: bool,
}

impl Ledger {
    /// The state before anything was tracked.
    pub open spec fn empty() -> Ledger {
        Ledger { history: Seq::empty(), active: Map::empty() }
    }

    /// Every logged timer is closed; every running timer is open and filed
    /// under its own class.
    pub open spec fn wf(self) -> bool {
        &&& forall|i: int| 0 <= i < self.history.len() ==> (#[trigger] self.history[i]).is_closed()
        &&& forall|c: Class| #[trigger]
            self.active.dom().contains(c) ==> self.active[c].class == c && self.active[c].is_open()
    }

    /// Whether a class has a running timer.
    pub open spec fn is_active(self, class: Class) -> bool {
        self.active.dom().contains(class)
    }

    /// Starting a timer for `class` at the clock reading `now`.
    pub open spec fn start(self, class: Class, now: Stamp) -> Result<Ledger, TimeError> {
        if self.is_active(class) {
            Err(TimeError::AlreadyActive)
        } else {
            Ok(
                Ledger {
                    active: self.active.insert(
                        class,
                        Time { start: Some(now), end: None, class },
                    ),
                    ..self
                },
            )
        }
    }

    /// The running timer of `class`, closed at the clock reading `now`.
    pub open spec fn closed_timer(self, class: Class, now: Stamp) -> Time {
        Time { end: Some(now), ..self.active[class] }
    }

    /// Stopping the timer of `class` at the clock reading `now`: the timer
    /// is closed and moves to the tail of the log, unless its length
    /// cannot be told.
    pub open spec fn stop(self, class: Class, now: Stamp) -> Result<Ledger, TimeError> {
        if !self.is_active(class) {
            Err(TimeError::NotActive)
        } else {
            let t = self.closed_timer(class, now);
            match t.rendered_at(now) {
                Err(e) => Err(e),
                Ok(_) => Ok(
                    Ledger { history: self.history.push(t), active: self.active.remove(class) },
                ),
            }
        }
    }

    /// Cancelling the timer of `class`: it is dropped without a trace.
    pub open spec fn cancel(self, class: Class) -> Result<Ledger, TimeError> {
        if !self.is_active(class) {
            Err(TimeError::NotActive)
        } else {
            Ok(Ledger { active: self.active.remove(class), ..self })
        }
    }

    /// The state after an attempted transition: a refused one changes
    /// nothing.
    pub open spec fn after(self, outcome: Result<Ledger, TimeError>) -> Ledger {
        match outcome {
            Ok(next) => next,
            Err(_) => self,
        }
    }

    /// The running timers of the classes at positions below `k`, in
    /// canonical order.
    pub open spec fn active_below(self, k: int) -> Seq<Entry>
        decreases k,
    {
        if k <= 0 {
            Seq::empty()
        } else {
            let c = Class::at(k - 1);
            let rest = self.active_below(k - 1);
            if self.is_active(c) {
                rest.push(Entry { label: c, time: self.active[c], active: true })
            } else {
                rest
            }
        }
    }

    /// What a report on one class lists: its running timer, then its
    /// logged timers from the newest back, `previous + 1` entries at most.
    pub open spec fn picked_for(self, class: Class, previous: Option<i32>, active_only: bool) -> Seq<
        Entry,
    > {
        let n: int = match previous {
            Some(p) => p + 1,
            None => 1,
        };
        let head: Seq<Entry> = if self.is_active(class) {
            seq![Entry { label: class, time: self.active[class], active: true }]
        } else {
            Seq::empty()
        };
        if active_only {
            head
        } else {
            head + recent_of(self.history, class, n - head.len())
        }
    }

    /// What a report on all classes lists: every running timer, then for
    /// each class without one its newest logged timer.
    pub open spec fn picked_for_all(self, active_only: bool) -> Seq<Entry> {
        if active_only {
            self.active_below(8)
        } else {
            self.active_below(8) + recent_unshown(self.history, self.active.dom())
        }
    }
}

/// The newest `limit` timers of `class` in a log, newest first.
pub open spec fn recent_of(history: Seq<Time>, class: Class, limit: int) -> Seq<Entry>
    decreases history.len(),
{
    if history.len() == 0 || limit <= 0 {
        Seq::empty()
    } else if history.last().class == class {
        seq![Entry { label: class, time: history.last(), active: false }] + recent_of(
            history.drop_last(),
            class,
            limit - 1,
        )
    } else {
        recent_of(history.drop_last(), class, limit)
    }
}

/// Whether every named class is among those shown.
pub open spec fn all_named_in(shown: Set<Class>) -> bool {
    forall|c: Class| c.is_named() ==> #[trigger] shown.contains(c)
}

/// Walking a log from the newest timer back: the first timer met of each
/// class not yet shown, until every named class has been shown.
pub open spec fn recent_unshown(history: Seq<Time>, shown: Set<Class>) -> Seq<Entry>
    decreases history.len(),
{
    if history.len() == 0 || all_named_in(shown) {
        Seq::empty()
    } else if shown.contains(history.last().class) {
        recent_unshown(history.drop_last(), shown)
    } else {
        seq![Entry { label: history.last().class, time: history.last(), active: false }]
            + recent_unshown(history.drop_last(), shown.insert(history.last().class))
    }
}

/// The sum of the lengths of the picked timers, taken in order; the first
/// failure on the way ends it.
pub open spec fn total_of(entries: Seq<Entry>, now: Stamp) -> Result<Span, TimeError>
    decreases entries.len(),
{
    if entries.len() == 0 {
        Ok(Span::of_nanos(0))
    } else {
        match total_of(entries.drop_last(), now) {
            Err(e) => Err(e),
            Ok(acc) => match entries.last().time.elapsed_at(now) {
                Err(e) => Err(e),
                Ok(d) => match Span::checked_of_nanos(acc.total_nanos() + d.total_nanos()) {
                    Some(s) => Ok(s),
                    None => Err(TimeError::OutOfRange),
                },
            },
        }
    }
}

/// Starting a class twice in a row: the second start is refused as
/// already active, whatever became of the first.
pub proof fn law_start_twice(l: Ledger, class: Class, first: Stamp, second: Stamp)
    ensures
        l.after(l.start(class, first)).start(class, second) == Err::<Ledger, TimeError>(
            TimeError::AlreadyActive,
        ),
        ({
            let once = l.after(l.start(class, first));
            once.after(once.start(class, second)) == once
        }),
{
}

/// Stopping or cancelling a class that has no running timer is refused as
/// not active and changes nothing; in the state before anything was
/// tracked that is so of every class.
pub proof fn law_stop_needs_start(l: Ledger, class: Class, now: Stamp)
    requires
        !l.is_active(class),
    ensures
        l.stop(class, now) == Err::<Ledger, TimeError>(TimeError::NotActive),
        l.cancel(class) == Err::<Ledger, TimeError>(TimeError::NotActive),
        l.after(l.stop(class, now)) == l,
        l.after(l.cancel(class)) == l,
        !Ledger::empty().is_active(class),
{
}

/// A start followed by a stop of the same class appends exactly one
/// timer to the log: it carries the class and both clock readings, its end
/// is not before its start, and the class is no longer active. The stop
/// succeeds exactly when the second reading is not before the first and
/// the span between them is representable.
pub proof fn law_start_then_stop(l: Ledger, class: Class, begin: Stamp, end: Stamp)
    requires
        l.start(class, begin) is Ok,
    ensures
        ({
            let started = l.start(class, begin)->Ok_0;
            let t = Time { start: Some(begin), end: Some(end), class };
            &&& started.stop(class, end) is Ok <==> 0 <= end.offset() - begin.offset()
                <= crate::clock::max_span_nanos()
            &&& started.stop(class, end) matches Ok(done) ==> {
                &&& done.history == l.history.push(t)
                &&& done.history.len() == l.history.len() + 1
                &&& done.history.last().class == class
                &&& done.history.last().is_closed()
                &&& end.offset() >= begin.offset()
                &&& !done.is_active(class)
                &&& done.active == l.active
            }
        }),
{
    let started = l.start(class, begin)->Ok_0;
    assert(started.active.remove(class) =~= l.active);
}

/// Stopping a class whose running timer is open, at a reading that is not
/// before the timer's start and within a representable span of it,
/// succeeds. It appends exactly that timer, closed at the reading, at the
/// tail of the log and leaves the rest of the log as it was; the class is
/// no longer active and the other classes keep their timers. The logged
/// timer's end is not before its start, and its length is the distance of
/// the two, whatever the clock reads later.
pub proof fn law_stop_logs_closed_timer(l: Ledger, class: Class, now: Stamp, later: Stamp)
    requires
        l.wf(),
        l.is_active(class),
        0 <= now.offset() - l.active[class].start->Some_0.offset() <= crate::clock::max_span_nanos(),
    ensures
        ({
            let begin = l.active[class].start->Some_0;
            let t = Time { start: Some(begin), end: Some(now), class };
            &&& l.stop(class, now) is Ok
            &&& l.stop(class, now)->Ok_0.history == l.history.push(t)
            &&& l.stop(class, now)->Ok_0.history.len() == l.history.len() + 1
            &&& l.stop(class, now)->Ok_0.history.last() == t
            &&& forall|i: int|
                0 <= i < l.history.len() ==> l.stop(class, now)->Ok_0.history[i] == l.history[i]
            &&& l.stop(class, now)->Ok_0.active == l.active.remove(class)
            &&& !l.stop(class, now)->Ok_0.is_active(class)
            &&& now.offset() >= begin.offset()
            &&& t.elapsed_at(later) == Ok::<Span, TimeError>(
                Span::of_nanos(now.offset() - begin.offset()),
            )
            &&& l.stop(class, now)->Ok_0.wf()
        }),
{
    assert(l.active.dom().contains(class));
    let running = l.active[class];
    assert(running.class == class && running.is_open());
    assert(l.closed_timer(class, now) == Time {
        start: running.start,
        end: Some(now),
        class,
    });
}

/// A start followed by a cancel of the same class gives back the state
/// before the start: the log is as long as it was and the class is not
/// active.
pub proof fn law_start_then_cancel(l: Ledger, class: Class, begin: Stamp)
    requires
        l.start(class, begin) is Ok,
    ensures
        l.start(class, begin)->Ok_0.cancel(class) is Ok,
        l.start(class, begin)->Ok_0.cancel(class)->Ok_0 == l,
        !l.start(class, begin)->Ok_0.cancel(class)->Ok_0.is_active(class),
{
    let started = l.start(class, begin)->Ok_0;
    assert(started.active.remove(class) =~= l.active);
}

proof fn lemma_unshown_distinct(history: Seq<Time>, shown: Set<Class>)
    ensures
        forall|i: int|
            0 <= i < recent_unshown(history, shown).len() ==> {
                &&& !shown.contains((#[trigger] recent_unshown(history, shown)[i]).label)
                &&& !recent_unshown(history, shown)[i].active
            },
        forall|i: int, j: int|
            0 <= i < j < recent_unshown(history, shown).len() ==> (#[trigger] recent_unshown(
                history,
                shown,
            )[i]).label != (#[trigger] recent_unshown(history, shown)[j]).label,
    decreases history.len(),
{
    if history.len() == 0 || all_named_in(shown) {
    } else if shown.contains(history.last().class) {
        lemma_unshown_distinct(history.drop_last(), shown);
    } else {
        let wider = shown.insert(history.last().class);
        lemma_unshown_distinct(history.drop_last(), wider);
        let tail = recent_unshown(history.drop_last(), wider);
        let all = recent_unshown(history, shown);
        assert(all[0].label == history.last().class);
        assert forall|i: int| 1 <= i < all.len() implies #[trigger] all[i] == tail[i - 1] by {}
        assert forall|i: int| 0 <= i < all.len() implies !shown.contains(
            (#[trigger] all[i]).label,
        ) && !all[i].active by {
            if i > 0 {
                assert(!wider.contains(tail[i - 1].label));
            }
        }
        assert forall|i: int, j: int| 0 <= i < j < all.len() implies (#[trigger] all[i]).label != (
        #[trigger] all[j]).label by {
            assert(!wider.contains(tail[j - 1].label));
            if i > 0 {
                assert(tail[i - 1].label != tail[j - 1].label);
            }
        }
    }
}

proof fn lemma_active_sorted(l: Ledger, k: int)
    requires
        0 <= k <= 8,
    ensures
        forall|i: int|
            0 <= i < l.active_below(k).len() ==> {
                &&& 0 <= (#[trigger] l.active_below(k)[i]).label.ordinal() < k
                &&& l.is_active(l.active_below(k)[i].label)
                &&& l.active_below(k)[i].active
            },
        forall|i: int, j: int|
            0 <= i < j < l.active_below(k).len() ==> (#[trigger] l.active_below(k)[i]).label
                != (#[trigger] l.active_below(k)[j]).label,
    decreases k,
{
    if k > 0 {
        lemma_active_sorted(l, k - 1);
        let rest = l.active_below(k - 1);
        let all = l.active_below(k);
        assert(Class::at(k - 1).ordinal() == k - 1);
        assert forall|i: int, j: int| 0 <= i < j < all.len() implies (#[trigger] all[i]).label != (
        #[trigger] all[j]).label by {
            if j < rest.len() {
                assert(rest[i].label != rest[j].label);
            } else {
                assert(rest[i].label.ordinal() < k - 1);
            }
        }
    }
}

/// A report on all classes lists no class twice: each running timer once,
/// and one logged timer at most for each class that has none running.
pub proof fn law_one_entry_per_class(l: Ledger, active_only: bool)
    ensures
        forall|i: int, j: int|
            0 <= i < j < l.picked_for_all(active_only).len() ==> (#[trigger] l.picked_for_all(
                active_only,
            )[i]).label != (#[trigger] l.picked_for_all(active_only)[j]).label,
        forall|i: int|
            0 <= i < l.picked_for_all(active_only).len() ==> ((#[trigger] l.picked_for_all(
                active_only,
            )[i]).active <==> l.is_active(l.picked_for_all(active_only)[i].label)),
        l.picked_for_all(active_only).len() <= 8,
{
    lemma_active_sorted(l, 8);
    lemma_unshown_distinct(l.history, l.active.dom());
    let head = l.active_below(8);
    let tail = recent_unshown(l.history, l.active.dom());
    let all = l.picked_for_all(active_only);
    assert forall|i: int| 0 <= i < all.len() implies ((#[trigger] all[i]).active <==> l.is_active(
        all[i].label,
    )) by {
        if i < head.len() {
            assert(all[i] == head[i]);
        } else {
            assert(all[i] == tail[i - head.len()]);
        }
    }
    assert forall|i: int, j: int| 0 <= i < j < all.len() implies (#[trigger] all[i]).label != (
    #[trigger] all[j]).label by {
        if j < head.len() {
            assert(all[i] == head[i] && all[j] == head[j]);
        } else if i < head.len() {
            assert(all[i] == head[i] && all[j] == tail[j - head.len()]);
        } else {
            assert(all[i] == tail[i - head.len()] && all[j] == tail[j - head.len()]);
        }
    }
    lemma_distinct_labels_are_few(all);
}

/// A list of entries with pairwise distinct labels has eight entries at
/// most, there being eight classes.
proof fn lemma_distinct_labels_are_few(entries: Seq<Entry>)
    requires
        forall|i: int, j: int|
            0 <= i < j < entries.len() ==> (#[trigger] entries[i]).label != (
            #[trigger] entries[j]).label,
    ensures
        entries.len() <= 8,
{
    let ords = Seq::new(entries.len(), |i: int| entries[i].label.ordinal());
    assert forall|i: int, j: int| 0 <= i < j < ords.len() implies ords[i] != ords[j] by {
        assert(entries[i].label != entries[j].label);
    }
    assert(ords.no_duplicates());
    let found = ords.to_set();
    ords.unique_seq_to_set();
    let range = Set::new(|x: int| 0 <= x < 8);
    assert(found.subset_of(range)) by {
        assert forall|x: int| found.contains(x) implies range.contains(x) by {
            let i = choose|i: int| 0 <= i < ords.len() && ords[i] == x;
            assert(0 <= entries[i].label.ordinal() < 8);
        }
    }
    assert(range =~= vstd::set_lib::set_int_range(0, 8));
    vstd::set_lib::lemma_int_range(0, 8);
    vstd::set_lib::lemma_len_subset(found, range);
}

/// A report on one class lists timers of that class only, and of logged
/// timers no more than are asked for.
pub proof fn law_class_report_is_bounded(
    l: Ledger,
    class: Class,
    previous: Option<i32>,
    active_only: bool,
)
    ensures
        forall|i: int|
            0 <= i < l.picked_for(class, previous, active_only).len() ==> (#[trigger] l.picked_for(
                class,
                previous,
                active_only,
            )[i]).label == class,
        ({
            let n: int = match previous {
                Some(p) => p + 1,
                None => 1,
            };
            let head: int = if l.is_active(class) {
                1
            } else {
                0
            };
            l.picked_for(class, previous, active_only).len() <= if n > head {
                n
            } else {
                head
            }
        }),
{
    let n: int = match previous {
        Some(p) => p + 1,
        None => 1,
    };
    let head: int = if l.is_active(class) {
        1
    } else {
        0
    };
    lemma_recent_bounded(l.history, class, n - head);
}

proof fn lemma_recent_bounded(history: Seq<Time>, class: Class, limit: int)
    ensures
        recent_of(history, class, limit).len() <= if limit > 0 {
            limit
        } else {
            0
        },
        forall|i: int|
            0 <= i < recent_of(history, class, limit).len() ==> {
                &&& (#[trigger] recent_of(history, class, limit)[i]).label == class
                &&& recent_of(history, class, limit)[i].time.class == class
                &&& !recent_of(history, class, limit)[i].active
            },
    decreases history.len(),
{
    if history.len() == 0 || limit <= 0 {
    } else if history.last().class == class {
        lemma_recent_bounded(history.drop_last(), class, limit - 1);
    } else {
        lemma_recent_bounded(history.drop_last(), class, limit);
    }
}

/// The state before anything was tracked is well formed, and every
/// transition keeps a well-formed state well formed.
pub proof fn law_transitions_keep_wf(l: Ledger, class: Class, now: Stamp)
    requires
        l.wf(),
    ensures
        Ledger::empty().wf(),
        l.after(l.start(class, now)).wf(),
        l.after(l.stop(class, now)).wf(),
        l.after(l.cancel(class)).wf(),
{
}

} // verus!
