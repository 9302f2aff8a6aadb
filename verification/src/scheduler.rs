//! The fan-out primitive: a bounded number of workers in flight, and the
//! sweep that tells finished workers from running ones.

use crate::seqs::reversed;
use vstd::prelude::*;

verus! {

/// The pause between two sweeps for finished workers, in milliseconds.
pub const POLL_MILLIS: u64 = 10;

/// Counts the workers in flight. The count never exceeds the cap: the type
/// keeps this as its invariant, and every method states it of its result.
#[derive(Debug)]
pub struct FanOut {
    cap: usize,
    in_flight: usize,
}

impl FanOut {
    #[verifier::type_invariant]
    spec fn within_cap(self) -> bool {
        self.in_flight <= self.cap
    }

    /// The greatest number of workers in flight.
    pub closed spec fn cap(&self) -> nat {
        self.cap as nat
    }

    /// The number of workers in flight.
    pub closed spec fn in_flight(&self) -> nat {
        self.in_flight as nat
    }

    /// A fan-out with no worker in flight.
    pub fn new(cap: usize) -> (f: FanOut)
        ensures
            f.cap() == cap,
            f.in_flight() == 0,
            f.in_flight() <= f.cap(),
    {
        FanOut { cap, in_flight: 0 }
    }

    /// The cap.
    pub fn limit(&self) -> (cap: usize)
        ensures
            cap == self.cap(),
    {
        self.cap
    }

    /// The number of workers in flight.
    pub fn running(&self) -> (n: usize)
        ensures
            n == self.in_flight(),
            n <= self.cap(),
    {
        proof {
            use_type_invariant(self);
        }
        self.in_flight
    }

    /// Whether a new worker has to wait for one in flight to finish.
    pub fn too_busy(&self) -> (busy: bool)
        ensures
            busy == (self.in_flight() >= self.cap()),
    {
        self.in_flight >= self.cap
    }

    /// Admits a worker if fewer than the cap are in flight, and says whether
    /// it did.
    pub fn try_spawn(&mut self) -> (admitted: bool)
        ensures
            final(self).cap() == old(self).cap(),
            admitted == (old(self).in_flight() < old(self).cap()),
            admitted ==> final(self).in_flight() == old(self).in_flight() + 1,
            !admitted ==> final(self).in_flight() == old(self).in_flight(),
            final(self).in_flight() <= final(self).cap(),
    {
        proof {
            use_type_invariant(&*self);
        }
        if self.in_flight < self.cap {
            self.in_flight = self.in_flight + 1;
            true
        } else {
            false
        }
    }

    /// Records that `n` workers were joined; no more than are in flight can
    /// leave.
    pub fn joined(&mut self, n: usize)
        ensures
            final(self).cap() == old(self).cap(),
            final(self).in_flight() == if n <= old(self).in_flight() {
                old(self).in_flight() - n
            } else {
                0
            },
            final(self).in_flight() <= final(self).cap(),
    {
        proof {
            use_type_invariant(&*self);
        }
        if n <= self.in_flight {
            self.in_flight = self.in_flight - n;
        } else {
            self.in_flight = 0;
        }
    }
}

/// Whether worker `i` was found finished. A worker that was not asked counts
/// as running.
pub open spec fn finished_at(finished: Seq<bool>, i: int) -> bool {
    0 <= i < finished.len() && finished[i]
}

/// The workers that still run, in order.
pub open spec fn still_running<T>(handles: Seq<T>, finished: Seq<bool>) -> Seq<T>
    decreases handles.len(),
{
    if handles.len() == 0 {
        Seq::<T>::empty()
    } else {
        let before = still_running(handles.drop_last(), finished);
        if finished_at(finished, handles.len() - 1) {
            before
        } else {
            before.push(handles.last())
        }
    }
}

/// The workers that have finished and are to be joined, in order.
pub open spec fn to_join<T>(handles: Seq<T>, finished: Seq<bool>) -> Seq<T>
    decreases handles.len(),
{
    if handles.len() == 0 {
        Seq::<T>::empty()
    } else {
        let before = to_join(handles.drop_last(), finished);
        if finished_at(finished, handles.len() - 1) {
            before.push(handles.last())
        } else {
            before
        }
    }
}

/// Every worker is either still running or to be joined.
pub proof fn lemma_sweep_loses_none<T>(handles: Seq<T>, finished: Seq<bool>)
    ensures
        still_running(handles, finished).len() + to_join(handles, finished).len() == handles.len(),
    decreases handles.len(),
{
    if handles.len() > 0 {
        lemma_sweep_loses_none(handles.drop_last(), finished);
    }
}

/// Sorts the workers in flight into those that still run and those that
/// have finished. `finished[i]` says whether worker `i` was found finished.
pub fn sweep<T>(handles: Vec<T>, finished: &Vec<bool>) -> (r: (Vec<T>, Vec<T>))
    ensures
        r.0@ == still_running(handles@, finished@),
        r.1@ == to_join(handles@, finished@),
        r.0@.len() + r.1@.len() == handles@.len(),
{
    let ghost initial = handles@;
    let n = handles.len();
    let mut rest = reversed(handles);
    let mut running: Vec<T> = Vec::new();
    let mut done: Vec<T> = Vec::new();
    let mut i: usize = 0;
    assert(initial.take(0) =~= Seq::<T>::empty());
    while i < n
        invariant
            i <= n,
            n == initial.len(),
            rest@.len() == n - i,
            forall|j: int| 0 <= j < rest@.len() ==> rest@[j] == initial[n - 1 - j],
            running@ == still_running(initial.take(i as int), finished@),
            done@ == to_join(initial.take(i as int), finished@),
        decreases n - i,
    {
        proof {
            let next = initial.take(i as int + 1);
            assert(next.drop_last() =~= initial.take(i as int));
            assert(next.last() == initial[i as int]);
        }
        let is_done = i < finished.len() && finished[i];
        match rest.pop() {
            Some(item) => {
                if is_done {
                    done.push(item);
                } else {
                    running.push(item);
                }
            },
            None => {},
        }
        i += 1;
    }
    proof {
        assert(initial.take(n as int) =~= initial);
        lemma_sweep_loses_none(initial, finished@);
    }
    (running, done)
}

} // verus!
