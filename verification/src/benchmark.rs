//! Named timers for benchmarking.

use crate::average::Tally;
use crate::clock::{elapsed_since, max_reading, span_between};
use crate::duration::Duration;
use crate::report::{render_header, render_line, report_header, report_line};
use std::time::Instant;
use vstd::hash_map::StringHashMap;
use vstd::prelude::*;

verus! {

/// The tallies `done` after one more interval of `elapsed` nanoseconds was
/// measured under `name`: the tally of `name` gets the interval, starting from
/// the empty tally where the name had none; every other name keeps its own.
pub open spec fn tallied(done: Map<Seq<char>, Tally>, name: Seq<char>, elapsed: nat) -> Map<
    Seq<char>,
    Tally,
> {
    let before = if done.contains_key(name) {
        done[name]
    } else {
        Tally::empty()
    };
    done.insert(name, before.with_sample(elapsed))
}

/// The names in the order in which each was first measured, after an interval
/// was measured under `name`: a new name goes to the end.
pub open spec fn listed(order: Seq<Seq<char>>, done: Map<Seq<char>, Tally>, name: Seq<char>) -> Seq<
    Seq<char>,
> {
    if done.contains_key(name) {
        order
    } else {
        order.push(name)
    }
}

/// Two intervals measured one after the other under a name that had no tally
/// leave it a count of two and the sum of the two as its total; a further
/// interval under any name that has a tally raises its count by one and its
/// total by the interval.
pub proof fn lemma_tallied_accumulates(
    done: Map<Seq<char>, Tally>,
    name: Seq<char>,
    first: nat,
    second: nat,
)
    ensures
        !done.contains_key(name) ==> tallied(tallied(done, name, first), name, second)[name]
            == (Tally { count: 2, total: first + second }),
        done.contains_key(name) ==> tallied(done, name, first)[name] == (Tally {
            count: done[name].count + 1,
            total: done[name].total + first,
        }),
        tallied(done, name, first).contains_key(name),
{
}

/// An interval measured under one name leaves the tally of every other name
/// as it was.
pub proof fn lemma_tallied_frame(
    done: Map<Seq<char>, Tally>,
    name: Seq<char>,
    elapsed: nat,
    other: Seq<char>,
)
    requires
        other != name,
    ensures
        tallied(done, name, elapsed).contains_key(other) == done.contains_key(other),
        done.contains_key(other) ==> tallied(done, name, elapsed)[other] == done[other],
{
}

/// A name runs from its `start` until its `stop`: it runs after a start,
/// whatever went before; it does not run after a stop, until it is started
/// again; and no other name starts or stops with it. Names are the same
/// only where they are the same characters.
pub proof fn lemma_running(
    running: Map<Seq<char>, Instant>,
    name: Seq<char>,
    reading: Instant,
    other: Seq<char>,
)
    requires
        other != name,
    ensures
        running.insert(name, reading).contains_key(name),
        running.insert(name, reading)[name] == reading,
        !running.remove(name).contains_key(name),
        running.remove(name).insert(name, reading).contains_key(name),
        running.insert(name, reading).contains_key(other) == running.contains_key(other),
        running.remove(name).contains_key(other) == running.contains_key(other),
        !Map::<Seq<char>, Instant>::empty().contains_key(name),
{
}

/// Why a benchmark refuses a name.
#[derive(Clone, Copy, Debug, PartialEq, Eq, Structural)]
pub enum BenchmarkError {
    /// The name is not running: it was never started, or not since it was
    /// last stopped.
    NotRunning,
    /// The name has no tally: it was never stopped.
    NoTally,
}

/// Timers by name. A name is running from `start` until `stop`, which adds
/// the interval to the name's tally; a name can be started again afterwards.
pub struct BenchmarkTimer {
    times: StringHashMap<Instant>,
    finished: StringHashMap<(u32, Duration)>,
    names: Vec<String>,
}

impl BenchmarkTimer {
    /// The running names, each with the clock reading of its last `start`.
    pub closed spec fn starts(&self) -> Map<Seq<char>, Instant> {
        self.times@
    }

    /// The tally of each name that was stopped at least once.
    pub closed spec fn completed(&self) -> Map<Seq<char>, Tally> {
        Map::new(
            |name: Seq<char>| self.finished@.contains_key(name),
            |name: Seq<char>|
                Tally { count: self.finished@[name].0 as nat, total: self.finished@[name].1@ },
        )
    }

    /// The names that have a tally, in the order in which each was first
    /// stopped.
    pub closed spec fn order(&self) -> Seq<Seq<char>> {
        Seq::new(self.names@.len(), |i: int| self.names@[i]@)
    }

    /// The invariant: `order` lists the names of `completed`, each once; every
    /// tally has counted at least one interval, and no interval is longer
    /// than the clock can report.
    pub closed spec fn wf(&self) -> bool {
        &&& forall|i: int|
            0 <= i < self.names@.len() ==> self.finished@.contains_key(#[trigger] self.names@[i]@)
        &&& forall|name: Seq<char>| #[trigger]
            self.finished@.contains_key(name) ==> exists|i: int|
                0 <= i < self.names@.len() && #[trigger] self.names@[i]@ == name
        &&& forall|i: int, j: int|
            0 <= i < j < self.names@.len() ==> #[trigger] self.names@[i]@
                != #[trigger] self.names@[j]@
        &&& forall|name: Seq<char>| #[trigger]
            self.finished@.contains_key(name) ==> {
                &&& self.finished@[name].0 >= 1
                &&& self.finished@[name].1@ <= self.finished@[name].0 * max_reading()
            }
    }

    /// Whether one more interval can be counted under `name`.
    pub open spec fn has_room(&self, name: Seq<char>) -> bool {
        self.completed().contains_key(name) ==> self.completed()[name].count < u32::MAX
    }

    /// What the invariant says of the public model.
    pub proof fn lemma_wf(&self)
        requires
            self.wf(),
        ensures
            self.order().no_duplicates(),
            forall|name: Seq<char>|
                self.order().contains(name) <==> self.completed().contains_key(name),
            forall|name: Seq<char>| #[trigger]
                self.completed().contains_key(name) ==> {
                    &&& 1 <= self.completed()[name].count <= u32::MAX
                    &&& self.completed()[name].total <= self.completed()[name].count
                        * max_reading()
                },
    {
        let order = self.order();
        assert forall|name: Seq<char>|
            order.contains(name) <==> self.completed().contains_key(name) by {
            if order.contains(name) {
                let i = choose|i: int| 0 <= i < order.len() && order[i] == name;
                assert(self.names@[i]@ == name);
            }
            if self.completed().contains_key(name) {
                let i = choose|i: int| 0 <= i < self.names@.len() && self.names@[i]@ == name;
                assert(order[i] == name);
            }
        }
        assert forall|i: int, j: int| 0 <= i < order.len() && 0 <= j < order.len() && i != j
            implies order[i] != order[j] by {
            if i < j {
                assert(self.names@[i]@ != self.names@[j]@);
            } else {
                assert(self.names@[j]@ != self.names@[i]@);
            }
        }
    }

    /// No name is running and none has a tally.
    pub fn new() -> (timer: BenchmarkTimer)
        ensures
            timer.wf(),
            timer.starts() == Map::<Seq<char>, Instant>::empty(),
            timer.completed() == Map::<Seq<char>, Tally>::empty(),
            timer.order() == Seq::<Seq<char>>::empty(),
    {
        let timer = BenchmarkTimer {
            times: StringHashMap::new(),
            finished: StringHashMap::new(),
            names: Vec::new(),
        };
        assert(timer.completed() =~= Map::<Seq<char>, Tally>::empty());
        assert(timer.order() =~= Seq::<Seq<char>>::empty());
        timer
    }

    /// Starts `name` at `reading`. A name that was running already loses
    /// its earlier start. The tallies are unchanged.
    pub fn start_at(&mut self, name: &str, reading: Instant)
        requires
            old(self).wf(),
        ensures
            final(self).wf(),
            final(self).starts() == old(self).starts().insert(name@, reading),
            final(self).completed() == old(self).completed(),
            final(self).order() == old(self).order(),
    {
        self.times.insert(name.to_owned(), reading);
        proof {
            assert(self.finished@ == old(self).finished@);
            assert(self.names@ == old(self).names@);
            assert forall|key: Seq<char>| #[trigger] self.finished@.contains_key(key) implies exists|
                i: int,
            |
                0 <= i < self.names@.len() && #[trigger] self.names@[i]@ == key by {
                let i = choose|i: int|
                    0 <= i < old(self).names@.len() && old(self).names@[i]@ == key;
                assert(self.names@[i]@ == key);
            }
        }
    }

    /// Starts `name` at the current clock reading, whatever that is. A name
    /// that was running already loses its earlier start. The tallies are
    /// unchanged.
    pub fn start(&mut self, name: &str)
        requires
            old(self).wf(),
        ensures
            final(self).wf(),
            exists|reading: Instant|
                final(self).starts() == #[trigger] old(self).starts().insert(name@, reading),
            final(self).completed() == old(self).completed(),
            final(self).order() == old(self).order(),
    {
        self.start_at(name, Instant::now());
    }

    /// Whether `name` is running.
    pub fn is_running(&self, name: &str) -> (running: bool)
        ensures
            running == self.starts().contains_key(name@),
    {
        self.times.contains_key(name)
    }

    /// How many intervals were measured under `name`, if any was.
    pub fn count(&self, name: &str) -> (n: Option<u32>)
        ensures
            n.is_some() == self.completed().contains_key(name@),
            n.is_some() ==> n.unwrap() == self.completed()[name@].count,
    {
        match self.finished.get(name) {
            Some(entry) => Some(entry.0),
            None => None,
        }
    }

    /// The sum of the intervals measured under `name`, if any was.
    pub fn total(&self, name: &str) -> (d: Option<Duration>)
        ensures
            d.is_some() == self.completed().contains_key(name@),
            d.is_some() ==> d.unwrap()@ == self.completed()[name@].total,
    {
        match self.finished.get(name) {
            Some(entry) => Some(entry.1),
            None => None,
        }
    }

    /// Ends the run of `name` with an interval of `elapsed`: the name runs
    /// no longer, and its tally gets the interval.
    pub fn finish(&mut self, name: &str, elapsed: Duration)
        requires
            old(self).wf(),
            old(self).starts().contains_key(name@),
            old(self).has_room(name@),
            elapsed@ <= max_reading(),
        ensures
            final(self).wf(),
            final(self).starts() == old(self).starts().remove(name@),
            final(self).completed() == tallied(old(self).completed(), name@, elapsed@),
            final(self).order() == listed(old(self).order(), old(self).completed(), name@),
    {
        let (known, count, total): (bool, u32, Duration) = match self.finished.get(name) {
            Some(entry) => (true, entry.0, entry.1),
            None => (false, 0, Duration::zero()),
        };
        assert(total@ + elapsed@ <= u128::MAX && total@ + elapsed@ <= (count + 1) * max_reading())
            by (nonlinear_arith)
            requires
                total@ <= count * max_reading(),
                elapsed@ <= max_reading(),
                count < u32::MAX,
                max_reading() == 0xFFFF_FFFF_FFFF_FFFF * 1_000_000_000 + 999_999_999,
        ;
        let count: u32 = count + 1;
        let total = total.plus(elapsed);
        self.times.remove(name);
        if !known {
            self.names.push(name.to_owned());
        }
        self.finished.insert(name.to_owned(), (count, total));
        proof {
            assert(self.completed() =~= tallied(old(self).completed(), name@, elapsed@));
            assert(self.order() =~= listed(old(self).order(), old(self).completed(), name@));
            assert forall|key: Seq<char>| #[trigger] self.finished@.contains_key(key) implies exists|
                i: int,
            |
                0 <= i < self.names@.len() && #[trigger] self.names@[i]@ == key by {
                if key == name@ && !known {
                    assert(self.names@[self.names@.len() - 1]@ == key);
                } else {
                    assert(old(self).finished@.contains_key(key));
                    let i = choose|i: int|
                        0 <= i < old(self).names@.len() && old(self).names@[i]@ == key;
                    assert(self.names@[i]@ == key);
                }
            }
        }
    }

    /// Stops `name`: the name must be running. It runs no longer, and its
    /// tally gets the span from its last `start` to a new reading of the
    /// clock.
    pub fn stop(&mut self, name: &str)
        requires
            old(self).wf(),
            old(self).starts().contains_key(name@),
            old(self).has_room(name@),
        ensures
            final(self).wf(),
            final(self).starts() == old(self).starts().remove(name@),
            exists|now: Instant|
                span_between(now, old(self).starts()[name@]) <= max_reading() && final(self).completed() == tallied(
                    old(self).completed(),
                    name@,
                    #[trigger] span_between(now, old(self).starts()[name@]),
                ),
            final(self).order() == listed(old(self).order(), old(self).completed(), name@),
    {
        let start = self.times.get(name).unwrap();
        let elapsed = elapsed_since(start);
        let ghost now = choose|now: Instant| elapsed@ == #[trigger] span_between(now, *start);
        self.finish(name, elapsed);
        assert(self.completed() == tallied(
            old(self).completed(),
            name@,
            span_between(now, old(self).starts()[name@]),
        ));
    }

    /// Stops `name` if it is running, as `stop` does; a name that is not
    /// running is refused, and nothing changes.
    pub fn try_stop(&mut self, name: &str) -> (outcome: Result<(), BenchmarkError>)
        requires
            old(self).wf(),
            old(self).has_room(name@),
        ensures
            final(self).wf(),
            outcome.is_ok() <==> old(self).starts().contains_key(name@),
            outcome.is_err() ==> outcome == Err::<(), BenchmarkError>(BenchmarkError::NotRunning)
                && final(self).starts() == old(self).starts() && final(self).completed() == old(self).completed() && final(self).order() == old(self).order(),
            outcome.is_ok() ==> {
                &&& final(self).starts() == old(self).starts().remove(name@)
                &&& exists|now: Instant|
                    span_between(now, old(self).starts()[name@]) <= max_reading() && final(self).completed() == tallied(
                        old(self).completed(),
                        name@,
                        #[trigger] span_between(now, old(self).starts()[name@]),
                    )
                &&& final(self).order() == listed(
                    old(self).order(),
                    old(self).completed(),
                    name@,
                )
            },
    {
        if self.is_running(name) {
            self.stop(name);
            Ok(())
        } else {
            Err(BenchmarkError::NotRunning)
        }
    }

    /// The mean of the intervals measured under `name`, as `average` gives
    /// it; a name that was never stopped is refused.
    pub fn try_average(&self, name: &str) -> (outcome: Result<Duration, BenchmarkError>)
        requires
            self.wf(),
        ensures
            outcome.is_ok() <==> self.completed().contains_key(name@),
            outcome.is_ok() ==> outcome.unwrap()@ == self.completed()[name@].mean(),
            outcome.is_err() ==> outcome == Err::<Duration, BenchmarkError>(
                BenchmarkError::NoTally,
            ),
    {
        if self.finished.contains_key(name) {
            Ok(self.average(name))
        } else {
            Err(BenchmarkError::NoTally)
        }
    }

    /// The report: its header, then one line for each name that has a tally,
    /// in the order in which the names were first stopped.
    pub fn report(&self) -> (lines: Vec<String>)
        requires
            self.wf(),
        ensures
            lines@.len() == self.order().len() + 1,
            lines@[0]@ == report_header(),
            forall|i: int|
                0 <= i < self.order().len() ==> (#[trigger] lines@[i + 1])@ == report_line(
                    self.order()[i],
                    self.completed()[self.order()[i]],
                ),
    {
        let mut lines: Vec<String> = Vec::new();
        lines.push(render_header());
        let mut at: usize = 0;
        while at < self.names.len()
            invariant
                self.wf(),
                at <= self.names@.len(),
                lines@.len() == at + 1,
                lines@[0]@ == report_header(),
                forall|i: int|
                    0 <= i < at ==> (#[trigger] lines@[i + 1])@ == report_line(
                        self.order()[i],
                        self.completed()[self.order()[i]],
                    ),
            decreases self.names@.len() - at,
        {
            let name = self.names[at].as_str();
            assert(self.finished@.contains_key(self.names@[at as int]@));
            let entry = self.finished.get(name).unwrap();
            let line = render_line(name, entry.0, entry.1);
            lines.push(line);
            at = at + 1;
        }
        lines
    }

    /// The mean of the intervals measured under `name`, rounded down to a
    /// nanosecond: the name must have been stopped at least once.
    pub fn average(&self, name: &str) -> (d: Duration)
        requires
            self.wf(),
            self.completed().contains_key(name@),
        ensures
            d@ == self.completed()[name@].mean(),
    {
        let entry = self.finished.get(name).unwrap();
        if entry.0 == 0 {
            Duration::zero()
        } else {
            entry.1.div_count(entry.0)
        }
    }
}

} // verus!
