//! The tracker's commands: start, stop and cancel a class's timer, and the
//! reports over running and logged timers.

use vstd::prelude::*;
use vstd::string::*;
use crate::class::{lowercase_of, Class};
use crate::clock::{Span, Stamp};
use crate::ledger::{all_named_in, recent_of, recent_unshown, total_of, Entry, Ledger};
use crate::store::{lemma_ordinal, Data};
use crate::text::{push_span, span_text};
use crate::time::{Time, TimeError};

verus! {

/// What a report is asked to show.
pub struct ShowArgs {
    /// Report on this class only.
    pub class: Option<String>,
    /// Leave logged timers out.
    pub active_only: bool,
    /// How many more logged timers of the class to show.
    pub previous: Option<i32>,
    /// End the report on all classes with the total.
    pub sum: bool,
}

/// A command to the tracker.
pub enum Commands {
    /// Start the timer of a class.
    Start { class: String },
    /// Stop the timer of a class and log it.
    Stop { class: String },
    /// Drop the timer of a class.
    Cancel { class: String },
    /// Report on timers.
    Show(ShowArgs),
}

/// What the tracker is asked to do in one invocation.
pub struct Cli {
    pub command: Option<Commands>,
    /// List the named classes, where no command is given.
    pub list_classes: bool,
}

/// The tracker: a store and the commands on it.
pub struct App {
    pub data: Data,
}

/// The texts of a list of strings.
pub open spec fn texts(lines: Seq<String>) -> Seq<Seq<char>> {
    lines.map_values(|s: String| s@)
}

/// Whether a list of strings, or a failure, is the wanted one.
pub open spec fn lines_agree(
    r: Result<Vec<String>, TimeError>,
    want: Result<Seq<Seq<char>>, TimeError>,
) -> bool {
    match want {
        Ok(lines) => r is Ok && texts(r->Ok_0@) == lines,
        Err(e) => r == Err::<Vec<String>, TimeError>(e),
    }
}

/// Whether a string, or a failure, is the wanted one.
pub open spec fn text_agrees(r: Result<String, TimeError>, want: Result<Seq<char>, TimeError>) -> bool {
    match want {
        Ok(text) => r is Ok && r->Ok_0@ == text,
        Err(e) => r == Err::<String, TimeError>(e),
    }
}

/// The line of a report for one picked timer.
pub open spec fn entry_line(e: Entry, now: Stamp) -> Result<Seq<char>, TimeError> {
    match e.time.rendered_at(now) {
        Err(x) => Err(x),
        Ok(text) => if e.active {
            Ok(e.label.name() + ": "@ + text + " (active)"@)
        } else {
            Ok(e.label.name() + ": "@ + text)
        },
    }
}

/// The lines for a list of picked timers, in order; the first timer whose
/// length cannot be told fails the whole.
pub open spec fn lines_of(entries: Seq<Entry>, now: Stamp) -> Result<Seq<Seq<char>>, TimeError>
    decreases entries.len(),
{
    if entries.len() == 0 {
        Ok(Seq::empty())
    } else {
        match lines_of(entries.drop_last(), now) {
            Err(e) => Err(e),
            Ok(lines) => match entry_line(entries.last(), now) {
                Err(e) => Err(e),
                Ok(line) => Ok(lines.push(line)),
            },
        }
    }
}

/// The notice that a class has nothing to show.
pub open spec fn notice(class: Class) -> Seq<char> {
    "No timer found for "@ + class.name()
}

/// The report on one class: the lines of its picked timers, or the notice
/// alone where none was picked.
pub open spec fn class_report(
    l: Ledger,
    class: Class,
    previous: Option<i32>,
    active_only: bool,
    now: Stamp,
) -> Result<Seq<Seq<char>>, TimeError> {
    let picked = l.picked_for(class, previous, active_only);
    match lines_of(picked, now) {
        Err(e) => Err(e),
        Ok(lines) => if picked.len() == 0 {
            Ok(lines.push(notice(class)))
        } else {
            Ok(lines)
        },
    }
}

/// The line that gives the total over the newest timer of each class.
pub open spec fn sum_line(l: Ledger, now: Stamp) -> Result<Seq<char>, TimeError> {
    match total_of(l.picked_for_all(false), now) {
        Err(e) => Err(e),
        Ok(total) => Ok("Total: "@ + span_text(total.secs as nat)),
    }
}

/// The report on all classes, with the total at its end where it is asked
/// for and logged timers are not left out.
pub open spec fn full_report(l: Ledger, active_only: bool, sum: bool, now: Stamp) -> Result<
    Seq<Seq<char>>,
    TimeError,
> {
    match lines_of(l.picked_for_all(active_only), now) {
        Err(e) => Err(e),
        Ok(lines) => if active_only || !sum {
            Ok(lines)
        } else {
            match sum_line(l, now) {
                Err(e) => Err(e),
                Ok(line) => Ok(lines.push(line)),
            }
        },
    }
}

/// The report that the arguments ask for.
pub open spec fn report(l: Ledger, args: ShowArgs, now: Stamp) -> Result<Seq<Seq<char>>, TimeError> {
    match args.class {
        Some(name) => class_report(
            l,
            Class::of_lowercase(lowercase_of(name@)),
            args.previous,
            args.active_only,
            now,
        ),
        None => full_report(l, args.active_only, args.sum, now),
    }
}

/// What a start at the clock reading `now` leaves behind and answers.
pub open spec fn start_outcome(
    before: Ledger,
    after: Ledger,
    class: Class,
    now: Stamp,
    r: Result<String, TimeError>,
) -> bool {
    match before.start(class, now) {
        Ok(next) => after == next && r is Ok && r->Ok_0@ == "Timer started for "@ + class.name(),
        Err(e) => after == before && r == Err::<String, TimeError>(e),
    }
}

/// What a stop at the clock reading `now` leaves behind and answers.
pub open spec fn stop_outcome(
    before: Ledger,
    after: Ledger,
    class: Class,
    now: Stamp,
    r: Result<String, TimeError>,
) -> bool {
    match before.stop(class, now) {
        Ok(next) => after == next && r is Ok && r->Ok_0@ == "Timer stopped for "@ + class.name()
            + " with time "@ + before.closed_timer(class, now).rendered_at(now)->Ok_0,
        Err(e) => after == before && r == Err::<String, TimeError>(e),
    }
}

/// What a cancel leaves behind and answers.
pub open spec fn cancel_outcome(
    before: Ledger,
    after: Ledger,
    class: Class,
    r: Result<String, TimeError>,
) -> bool {
    match before.cancel(class) {
        Ok(next) => after == next && r is Ok && r->Ok_0@ == "Timer canceled for "@ + class.name(),
        Err(e) => after == before && r == Err::<String, TimeError>(e),
    }
}

/// The single message of an answer.
pub open spec fn message_of(r: Result<Vec<String>, TimeError>) -> Result<String, TimeError> {
    match r {
        Ok(lines) => Ok(lines@[0]),
        Err(e) => Err(e),
    }
}

/// Whether an answer, where it is one, is a single line.
pub open spec fn one_line(r: Result<Vec<String>, TimeError>) -> bool {
    r matches Ok(lines) ==> lines@.len() == 1
}

/// The class that a name given on the command line stands for.
pub open spec fn class_named(name: String) -> Class {
    Class::of_lowercase(lowercase_of(name@))
}

/// What one invocation at the clock reading `now` leaves behind and
/// answers: the lines to print, or the failure.
pub open spec fn run_outcome(
    before: Ledger,
    after: Ledger,
    args: Cli,
    now: Stamp,
    r: Result<Vec<String>, TimeError>,
) -> bool {
    match args.command {
        Some(Commands::Start { class }) => one_line(r) && start_outcome(
            before,
            after,
            class_named(class),
            now,
            message_of(r),
        ),
        Some(Commands::Stop { class }) => one_line(r) && stop_outcome(
            before,
            after,
            class_named(class),
            now,
            message_of(r),
        ),
        Some(Commands::Cancel { class }) => one_line(r) && cancel_outcome(
            before,
            after,
            class_named(class),
            message_of(r),
        ),
        Some(Commands::Show(show)) => after == before && lines_agree(r, report(before, show, now)),
        None => after == before && r is Ok && if args.list_classes {
            &&& r->Ok_0@.len() == 7
            &&& forall|i: int| 0 <= i < 7 ==> (#[trigger] r->Ok_0@[i])@ == Class::at(i).name()
        } else {
            &&& r->Ok_0@.len() == 1
            &&& r->Ok_0@[0]@ == "No command given"@
        },
    }
}

fn single(r: Result<String, TimeError>) -> (out: Result<Vec<String>, TimeError>)
    ensures
        one_line(out),
        message_of(out) == r,
{
    match r {
        Ok(line) => {
            let mut lines: Vec<String> = Vec::new();
            lines.push(line);
            Ok(lines)
        },
        Err(e) => Err(e),
    }
}

/// Carries out one invocation against a given clock reading and gives the
/// lines to print.
pub fn run_at(app: &mut App, args: &Cli, now: Stamp) -> (r: Result<Vec<String>, TimeError>)
    ensures
        run_outcome(old(app).data@, final(app).data@, *args, now, r),
{
    match &args.command {
        Some(Commands::Start { class }) => single(
            app.start_timer_at(Class::parse(class.as_str()), now),
        ),
        Some(Commands::Stop { class }) => single(
            app.end_timer_at(Class::parse(class.as_str()), now),
        ),
        Some(Commands::Cancel { class }) => single(app.cancel_timer(Class::parse(class.as_str()))),
        Some(Commands::Show(show)) => app.show_at(show, now),
        None => {
            if args.list_classes {
                Ok(app.list_class())
            } else {
                let mut lines: Vec<String> = Vec::new();
                lines.push(String::from_str("No command given"));
                Ok(lines)
            }
        },
    }
}

/// Carries out one invocation at the current clock reading and gives the
/// lines to print.
pub fn run(app: &mut App, args: &Cli) -> (r: Result<Vec<String>, TimeError>)
    ensures
        exists|now: Stamp|
            now.is_normal() && run_outcome(old(app).data@, final(app).data@, *args, now, r),
{
    let now = Stamp::now();
    run_at(app, args, now)
}

fn all_named_flagged(shown: &[bool; 8]) -> (r: bool)
    ensures
        r == (forall|j: int| 0 <= j < 7 ==> shown@[j]),
{
    shown[0] && shown[1] && shown[2] && shown[3] && shown[4] && shown[5] && shown[6]
}

proof fn lemma_flags_cover(flags: Seq<bool>, shown: Set<Class>)
    requires
        flags.len() == 8,
        forall|c: Class| shown.contains(c) == flags[c.ordinal()],
    ensures
        all_named_in(shown) == (forall|j: int| 0 <= j < 7 ==> flags[j]),
{
    if all_named_in(shown) {
        assert(shown.contains(Class::Health));
        assert(shown.contains(Class::Physics));
        assert(shown.contains(Class::Econ));
        assert(shown.contains(Class::Stats));
        assert(shown.contains(Class::Calc));
        assert(shown.contains(Class::Chem));
        assert(shown.contains(Class::English));
        assert(flags[Class::Health.ordinal()]);
        assert(flags[Class::Physics.ordinal()]);
        assert(flags[Class::Econ.ordinal()]);
        assert(flags[Class::Stats.ordinal()]);
        assert(flags[Class::Calc.ordinal()]);
        assert(flags[Class::Chem.ordinal()]);
        assert(flags[Class::English.ordinal()]);
    }
    if forall|j: int| 0 <= j < 7 ==> flags[j] {
        assert forall|c: Class| c.is_named() implies #[trigger] shown.contains(c) by {
            lemma_ordinal(c);
            assert(flags[c.ordinal()]);
        }
    }
}

/// The lines for a list of picked timers against a given clock reading.
pub fn render_entries(entries: &Vec<Entry>, now: Stamp) -> (r: Result<Vec<String>, TimeError>)
    ensures
        lines_agree(r, lines_of(entries@, now)),
{
    let mut out: Vec<String> = Vec::new();
    let mut i: usize = 0;
    assert(texts(out@) =~= Seq::<Seq<char>>::empty());
    while i < entries.len()
        invariant
            i <= entries.len(),
            lines_of(entries@.take(i as int), now) == Ok::<Seq<Seq<char>>, TimeError>(texts(out@)),
        decreases entries.len() - i,
    {
        let e = entries[i];
        proof {
            assert(entries@.take(i + 1).drop_last() =~= entries@.take(i as int));
            assert(entries@.take(i + 1).last() == e);
        }
        let mut line = e.label.to_string();
        line.append(": ");
        match e.time.push_rendered(&mut line, now) {
            Err(x) => {
                proof {
                    lemma_lines_fail(entries@, i + 1, now);
                }
                return Err(x);
            },
            Ok(()) => {},
        }
        if e.active {
            line.append(" (active)");
        }
        let ghost before = out@;
        out.push(line);
        assert(texts(out@) =~= texts(before).push(line@));
        i += 1;
    }
    assert(entries@.take(i as int) =~= entries@);
    Ok(out)
}

proof fn lemma_lines_fail(entries: Seq<Entry>, k: int, now: Stamp)
    requires
        0 <= k <= entries.len(),
        lines_of(entries.take(k), now) is Err,
    ensures
        lines_of(entries, now) == lines_of(entries.take(k), now),
    decreases entries.len() - k,
{
    if k < entries.len() {
        assert(entries.take(k + 1).drop_last() =~= entries.take(k));
        lemma_lines_fail(entries, k + 1, now);
    } else {
        assert(entries.take(k) =~= entries);
    }
}

proof fn lemma_total_fail(entries: Seq<Entry>, k: int, now: Stamp)
    requires
        0 <= k <= entries.len(),
        total_of(entries.take(k), now) is Err,
    ensures
        total_of(entries, now) == total_of(entries.take(k), now),
    decreases entries.len() - k,
{
    if k < entries.len() {
        assert(entries.take(k + 1).drop_last() =~= entries.take(k));
        lemma_total_fail(entries, k + 1, now);
    } else {
        assert(entries.take(k) =~= entries);
    }
}

/// The sum of the lengths of a list of picked timers against a given
/// clock reading.
pub fn total_entries(entries: &Vec<Entry>, now: Stamp) -> (r: Result<Span, TimeError>)
    ensures
        r == total_of(entries@, now),
{
    let mut acc = Span::zero();
    let mut i: usize = 0;
    while i < entries.len()
        invariant
            i <= entries.len(),
            total_of(entries@.take(i as int), now) == Ok::<Span, TimeError>(acc),
        decreases entries.len() - i,
    {
        let e = entries[i];
        proof {
            assert(entries@.take(i + 1).drop_last() =~= entries@.take(i as int));
            assert(entries@.take(i + 1).last() == e);
        }
        match e.time.duration_at(now) {
            Err(x) => {
                proof {
                    lemma_total_fail(entries@, i + 1, now);
                }
                return Err(x);
            },
            Ok(d) => match acc.checked_add(&d) {
                None => {
                    proof {
                        lemma_total_fail(entries@, i + 1, now);
                    }
                    return Err(TimeError::OutOfRange);
                },
                Some(s) => {
                    acc = s;
                },
            },
        }
        i += 1;
    }
    assert(entries@.take(i as int) =~= entries@);
    Ok(acc)
}

impl App {
    /// A tracker with an empty store.
    pub fn new() -> (r: App)
        ensures
            r.data@ == Ledger::empty(),
    {
        App { data: Data::new() }
    }

    /// Starts a timer for a class at a given clock reading; refused where
    /// the class has one running.
    pub fn start_timer_at(&mut self, class: Class, now: Stamp) -> (r: Result<String, TimeError>)
        ensures
            start_outcome(old(self).data@, final(self).data@, class, now, r),
    {
        if self.data.get_active(class).is_some() {
            return Err(TimeError::AlreadyActive);
        }
        let mut time = Time::new(class);
        time.start_at(now);
        self.data.insert_active(class, time);
        let mut msg = String::from_str("Timer started for ");
        msg.append(class.to_string().as_str());
        Ok(msg)
    }

    /// Starts a timer for a class at the current clock reading.
    pub fn start_timer(&mut self, class: Class) -> (r: Result<String, TimeError>)
        ensures
            exists|now: Stamp|
                now.is_normal() && start_outcome(
                    old(self).data@,
                    final(self).data@,
                    class,
                    now,
                    r,
                ),
            r is Err <==> old(self).data@.is_active(class),
    {
        let now = Stamp::now();
        self.start_timer_at(class, now)
    }

    /// Stops the timer of a class at a given clock reading and moves it to
    /// the tail of the log; refused where the class has none running, or
    /// where the timer's length cannot be told.
    pub fn end_timer_at(&mut self, class: Class, now: Stamp) -> (r: Result<String, TimeError>)
        ensures
            stop_outcome(old(self).data@, final(self).data@, class, now, r),
    {
        match self.data.get_active(class) {
            None => Err(TimeError::NotActive),
            Some(running) => {
                let mut time = running;
                time.end_at(now);
                let mut msg = String::from_str("Timer stopped for ");
                msg.append(class.to_string().as_str());
                msg.append(" with time ");
                match time.push_rendered(&mut msg, now) {
                    Err(e) => Err(e),
                    Ok(()) => {
                        self.data.push_history(time);
                        self.data.remove_active(class);
                        Ok(msg)
                    },
                }
            },
        }
    }

    /// Stops the timer of a class at the current clock reading.
    pub fn end_timer(&mut self, class: Class) -> (r: Result<String, TimeError>)
        ensures
            exists|now: Stamp|
                now.is_normal() && stop_outcome(
                    old(self).data@,
                    final(self).data@,
                    class,
                    now,
                    r,
                ),
            !old(self).data@.is_active(class) ==> r == Err::<String, TimeError>(
                TimeError::NotActive,
            ),
    {
        let now = Stamp::now();
        self.end_timer_at(class, now)
    }

    /// Drops the running timer of a class; refused where it has none.
    pub fn cancel_timer(&mut self, class: Class) -> (r: Result<String, TimeError>)
        ensures
            cancel_outcome(old(self).data@, final(self).data@, class, r),
    {
        if self.data.get_active(class).is_none() {
            return Err(TimeError::NotActive);
        }
        self.data.remove_active(class);
        let mut msg = String::from_str("Timer canceled for ");
        msg.append(class.to_string().as_str());
        Ok(msg)
    }

    /// The timers that a report on one class lists.
    pub fn select_timer(&self, class: Class, previous: Option<i32>, active_only: bool) -> (r: Vec<
        Entry,
    >)
        ensures
            r@ == self.data@.picked_for(class, previous, active_only),
    {
        let n: i64 = match previous {
            Some(p) => (p as i64) + 1,
            None => 1,
        };
        let mut out: Vec<Entry> = Vec::new();
        match self.data.get_active(class) {
            Some(t) => {
                out.push(Entry { label: class, time: t, active: true });
            },
            None => {},
        }
        if active_only {
            assert(out@ =~= self.data@.picked_for(class, previous, active_only));
            return out;
        }
        let ghost head = out@;
        let ghost history = self.data@.history;
        let mut remaining: i64 = n - (out.len() as i64);
        let mut i: usize = self.data.history_len();
        assert(history.take(i as int) =~= history);
        while i > 0 && remaining > 0
            invariant
                i <= history.len(),
                history == self.data@.history,
                out@ + recent_of(history.take(i as int), class, remaining as int) == head
                    + recent_of(history, class, n - head.len()),
            decreases i,
        {
            let t = self.data.history_at(i - 1);
            proof {
                assert(history.take(i as int).drop_last() =~= history.take(i - 1));
                assert(history.take(i as int).last() == t);
            }
            let ghost before = out@;
            let ghost rest = history.take(i - 1);
            if t.class == class {
                let e = Entry { label: class, time: t, active: false };
                out.push(e);
                remaining -= 1;
                assert(out@ + recent_of(rest, class, remaining as int) =~= before + (seq![e]
                    + recent_of(rest, class, remaining as int)));
            }
            i -= 1;
        }
        assert(out@ + Seq::<Entry>::empty() =~= out@);
        out
    }

    /// The timers that a report on all classes lists.
    pub fn select_timers(&self, active_only: bool) -> (r: Vec<Entry>)
        ensures
            r@ == self.data@.picked_for_all(active_only),
    {
        let mut out = self.data.active();
        if active_only {
            return out;
        }
        let mut flags: [bool; 8] = [false, false, false, false, false, false, false, false];
        let mut k: usize = 0;
        while k < 8
            invariant
                k <= 8,
                forall|j: int| 0 <= j < k ==> flags@[j] == self.data@.is_active(Class::at(j)),
            decreases 8 - k,
        {
            let c = Class::from_index(k);
            flags[k] = self.data.get_active(c).is_some();
            k += 1;
        }
        let ghost head = out@;
        let ghost history = self.data@.history;
        let ghost mut shown: Set<Class> = self.data@.active.dom();
        proof {
            assert forall|c: Class| shown.contains(c) == flags@[c.ordinal()] by {
                lemma_ordinal(c);
            }
            lemma_flags_cover(flags@, shown);
        }
        let mut done: bool = all_named_flagged(&flags);
        let mut i: usize = self.data.history_len();
        assert(history.take(i as int) =~= history);
        while i > 0 && !done
            invariant
                i <= history.len(),
                history == self.data@.history,
                forall|c: Class| shown.contains(c) == flags@[c.ordinal()],
                done == all_named_in(shown),
                out@ + recent_unshown(history.take(i as int), shown) == head + recent_unshown(
                    history,
                    self.data@.active.dom(),
                ),
            decreases i,
        {
            let t = self.data.history_at(i - 1);
            proof {
                assert(history.take(i as int).drop_last() =~= history.take(i - 1));
                assert(history.take(i as int).last() == t);
            }
            let ghost before = out@;
            let ghost rest = history.take(i - 1);
            let slot: usize = t.class.index();
            if !flags[slot] {
                let e = Entry { label: t.class, time: t, active: false };
                out.push(e);
                flags[slot] = true;
                proof {
                    shown = shown.insert(t.class);
                    assert forall|c: Class| shown.contains(c) == flags@[c.ordinal()] by {
                        lemma_ordinal(c);
                        lemma_ordinal(t.class);
                    }
                    assert(out@ + recent_unshown(rest, shown) =~= before + (seq![e]
                        + recent_unshown(rest, shown)));
                }
            }
            proof {
                lemma_flags_cover(flags@, shown);
            }
            done = all_named_flagged(&flags);
            i -= 1;
        }
        assert(out@ + Seq::<Entry>::empty() =~= out@);
        out
    }

    /// The report on one class against a given clock reading.
    pub fn show_timer_at(&self, class: Class, args: &ShowArgs, now: Stamp) -> (r: Result<
        Vec<String>,
        TimeError,
    >)
        ensures
            lines_agree(r, class_report(self.data@, class, args.previous, args.active_only, now)),
    {
        let picked = self.select_timer(class, args.previous, args.active_only);
        match render_entries(&picked, now) {
            Err(e) => Err(e),
            Ok(lines) => {
                let mut lines = lines;
                if picked.len() == 0 {
                    let mut line = String::from_str("No timer found for ");
                    line.append(class.to_string().as_str());
                    let ghost before = lines@;
                    lines.push(line);
                    assert(texts(lines@) =~= texts(before).push(line@));
                }
                Ok(lines)
            },
        }
    }

    /// The report on one class at the current clock reading.
    pub fn show_timer(&self, class: Class, args: &ShowArgs) -> (r: Result<Vec<String>, TimeError>)
        ensures
            exists|now: Stamp|
                now.is_normal() && lines_agree(
                    r,
                    class_report(self.data@, class, args.previous, args.active_only, now),
                ),
    {
        let now = Stamp::now();
        self.show_timer_at(class, args, now)
    }

    /// The line with the total over the newest timer of each class,
    /// against a given clock reading.
    pub fn sum_at(&self, now: Stamp) -> (r: Result<String, TimeError>)
        ensures
            text_agrees(r, sum_line(self.data@, now)),
    {
        let picked = self.select_timers(false);
        match total_entries(&picked, now) {
            Err(e) => Err(e),
            Ok(total) => {
                let mut line = String::from_str("Total: ");
                push_span(&mut line, &total);
                Ok(line)
            },
        }
    }

    /// The line with the total, at the current clock reading.
    pub fn sum(&self) -> (r: Result<String, TimeError>)
        ensures
            exists|now: Stamp| now.is_normal() && text_agrees(r, sum_line(self.data@, now)),
    {
        let now = Stamp::now();
        self.sum_at(now)
    }

    /// The report on all classes against a given clock reading.
    pub fn show_timers_at(&self, args: &ShowArgs, now: Stamp) -> (r: Result<
        Vec<String>,
        TimeError,
    >)
        ensures
            lines_agree(r, full_report(self.data@, args.active_only, args.sum, now)),
    {
        let picked = self.select_timers(args.active_only);
        match render_entries(&picked, now) {
            Err(e) => Err(e),
            Ok(lines) => {
                let mut lines = lines;
                if args.active_only || !args.sum {
                    return Ok(lines);
                }
                match self.sum_at(now) {
                    Err(e) => Err(e),
                    Ok(line) => {
                        let ghost before = lines@;
                        lines.push(line);
                        assert(texts(lines@) =~= texts(before).push(line@));
                        Ok(lines)
                    },
                }
            },
        }
    }

    /// The report on all classes at the current clock reading.
    pub fn show_timers(&self, args: &ShowArgs) -> (r: Result<Vec<String>, TimeError>)
        ensures
            exists|now: Stamp|
                now.is_normal() && lines_agree(
                    r,
                    full_report(self.data@, args.active_only, args.sum, now),
                ),
    {
        let now = Stamp::now();
        self.show_timers_at(args, now)
    }

    /// The report that the arguments ask for, against a given clock
    /// reading.
    pub fn show_at(&self, args: &ShowArgs, now: Stamp) -> (r: Result<Vec<String>, TimeError>)
        ensures
            lines_agree(r, report(self.data@, *args, now)),
    {
        match &args.class {
            Some(name) => self.show_timer_at(Class::parse(name.as_str()), args, now),
            None => self.show_timers_at(args, now),
        }
    }

    /// The report that the arguments ask for, at the current clock
    /// reading.
    pub fn show(&self, args: &ShowArgs) -> (r: Result<Vec<String>, TimeError>)
        ensures
            exists|now: Stamp| now.is_normal() && lines_agree(r, report(self.data@, *args, now)),
    {
        let now = Stamp::now();
        self.show_at(args, now)
    }

    /// The names of the seven named classes in canonical order.
    pub fn list_class(&self) -> (r: Vec<String>)
        ensures
            r@.len() == 7,
            forall|i: int| 0 <= i < 7 ==> (#[trigger] r@[i])@ == Class::at(i).name(),
    {
        let classes = Class::all();
        let mut out: Vec<String> = Vec::new();
        let mut i: usize = 0;
        while i < 7
            invariant
                i <= 7,
                classes@.len() == 7,
                forall|j: int| 0 <= j < 7 ==> classes@[j] == Class::at(j),
                out@.len() == i,
                forall|j: int| 0 <= j < i ==> (#[trigger] out@[j])@ == Class::at(j).name(),
            decreases 7 - i,
        {
            out.push(classes[i].to_string());
            i += 1;
        }
        out
    }
}

} // verus!
