//! The coordinator of a search: it builds the mask, sets up the workers,
//! and collects their matches until it has as many as were asked for.
use vstd::prelude::*;
use crossbeam_channel::Receiver;
use crate::channel::{another_sender, next_event, open_channel};
use crate::error::SearchError;
use crate::mask::{make_check_mask, mask_nibbles, Mask};
use crate::text::{format_line, line_of};
use crate::worker::{Match, Runner, Worker, BATCH_SIZE};

verus! {

/// Where a search stands.
#[derive(Clone, Copy, Debug, PartialEq, Eq, Structural)]
pub enum Phase {
    /// Nothing has been done yet.
    Idle,
    /// The mask has been built.
    MaskBuilt,
    /// The workers have been set up and run.
    WorkersRunning,
    /// Matches are being collected; so many are still wanted, at least one.
    Collecting(usize),
    /// As many matches as were asked for have been reported.
    Done,
}

/// What the coordinator hears from the channel on which the workers report.
#[derive(Clone, Debug, PartialEq, Eq)]
pub enum Event {
    /// A worker has reported a match.
    Found(Match),
    /// The channel is closed: no worker is left to report anything.
    Closed,
}

/// The phase that follows the arrival of a match while `remaining` matches
/// were still wanted.
pub open spec fn after_match(remaining: usize) -> Phase {
    if remaining <= 1 {
        Phase::Done
    } else {
        Phase::Collecting((remaining - 1) as usize)
    }
}

/// The number of matches reported when the search stands at `phase` and
/// `count` were asked for.
pub open spec fn reported_at(phase: Phase, count: usize) -> int {
    match phase {
        Phase::Collecting(remaining) => count - remaining,
        Phase::Done => count as int,
        _ => 0,
    }
}

/// The coordinator of one search.
pub struct Coordinator {
    phase: Phase,
    count: usize,
    mask: Option<Mask>,
    channel: Option<Receiver<Match>>,
}

impl Coordinator {
    #[verifier::type_invariant]
    spec fn valid(self) -> bool {
        &&& self.phase matches Phase::Collecting(remaining) ==> 1 <= remaining <= self.count
        &&& self.phase != Phase::Idle ==> self.mask is Some
        &&& self.phase != Phase::Idle && self.phase != Phase::MaskBuilt ==> self.channel is Some
    }

    /// Where the search stands.
    pub closed spec fn spec_phase(&self) -> Phase {
        self.phase
    }

    /// The number of matches that were asked for.
    pub closed spec fn spec_count(&self) -> usize {
        self.count
    }

    /// The mask of the search, once it is built.
    pub closed spec fn spec_mask(&self) -> Option<Mask> {
        self.mask
    }

    /// The number of matches reported so far.
    pub open spec fn spec_reported(&self) -> usize {
        reported_at(self.phase(), self.count()) as usize
    }

    /// A coordinator that has done nothing yet and is to report `count`
    /// matches.
    pub fn new(count: usize) -> (c: Coordinator)
        ensures
            c.phase() == Phase::Idle,
            c.count() == count,
            c.mask() is None,
    {
        Coordinator { phase: Phase::Idle, count, mask: None, channel: None }
    }

    /// Where the search stands. While matches are collected, at least one is
    /// still wanted, and never more than were asked for.
    #[verifier::when_used_as_spec(spec_phase)]
    pub fn phase(&self) -> (phase: Phase)
        ensures
            phase == self.phase(),
            phase matches Phase::Collecting(remaining) ==> 1 <= remaining <= self.count(),
    {
        proof {
            use_type_invariant(self);
        }
        self.phase
    }

    /// The number of matches that were asked for.
    #[verifier::when_used_as_spec(spec_count)]
    pub fn count(&self) -> (count: usize)
        ensures
            count == self.count(),
    {
        self.count
    }

    /// The mask of the search, once it is built.
    #[verifier::when_used_as_spec(spec_mask)]
    pub fn mask(&self) -> (mask: Option<Mask>)
        ensures
            mask == self.mask(),
            self.phase() != Phase::Idle ==> mask is Some,
    {
        proof {
            use_type_invariant(self);
        }
        self.mask
    }

    /// The number of matches reported so far: none before the collecting
    /// starts, all that were asked for once the search is done, and in
    /// between those that are no longer wanted.
    #[verifier::when_used_as_spec(spec_reported)]
    pub fn reported(&self) -> (reported: usize)
        ensures
            reported == self.reported(),
            reported == reported_at(self.phase(), self.count()),
            reported <= self.count(),
    {
        proof {
            use_type_invariant(self);
        }
        match self.phase {
            Phase::Collecting(remaining) => self.count - remaining,
            Phase::Done => self.count,
            _ => 0,
        }
    }

    /// Builds the mask for `num_zeros` trailing zero digits. A count above 64
    /// is refused, and the coordinator then stays idle.
    pub fn build_mask(&mut self, num_zeros: usize) -> (r: Result<Mask, SearchError>)
        requires
            old(self).phase() == Phase::Idle,
        ensures
            final(self).count() == old(self).count(),
            num_zeros <= 64 ==> r is Ok && r->Ok_0@ == mask_nibbles(num_zeros as int)
                && final(self).phase() == Phase::MaskBuilt && final(self).mask() == Some(r->Ok_0),
            num_zeros > 64 ==> r == Err::<Mask, SearchError>(SearchError::ZerosOutOfRange)
                && final(self).phase() == Phase::Idle && final(self).mask() == old(self).mask(),
    {
        proof {
            use_type_invariant(&*self);
        }
        let mask = make_check_mask(num_zeros)?;
        self.mask = Some(mask);
        self.phase = Phase::MaskBuilt;
        Ok(mask)
    }

    /// Sets up the `workers` workers of the search, each before its first
    /// round, with the mask of the search and an end of its own of the
    /// channel on which the coordinator listens. No other sending end is
    /// left, so that the channel closes when the last worker is gone.
    ///
    /// A search without workers is refused, and the coordinator then stays as
    /// it was.
    pub fn spawn_workers(&mut self, workers: usize) -> (r: Result<Vec<Runner>, SearchError>)
        requires
            old(self).phase() == Phase::MaskBuilt,
        ensures
            final(self).count() == old(self).count(),
            final(self).mask() == old(self).mask(),
            workers == 0 ==> r == Err::<Vec<Runner>, SearchError>(SearchError::NoWorkers)
                && final(self).phase() == Phase::MaskBuilt,
            workers > 0 ==> r is Ok && final(self).phase() == Phase::WorkersRunning
                && r->Ok_0@.len() == workers && forall|i: int|
                0 <= i < workers ==> {
                    let runner = #[trigger] r->Ok_0@[i];
                    &&& Some(runner.mask()) == old(self).mask()
                    &&& runner.worker().index() == i
                    &&& runner.worker().workers() == workers
                    &&& runner.worker().batch() == BATCH_SIZE
                    &&& runner.worker().round() == 0
                },
    {
        proof {
            use_type_invariant(&*self);
        }
        if workers == 0 {
            return Err(SearchError::NoWorkers);
        }
        let mask = match self.mask {
            Some(mask) => mask,
            None => vstd::pervasive::unreached(),
        };
        let (tx, rx) = open_channel();
        let mut team: Vec<Runner> = Vec::new();
        let mut i: usize = 0;
        while i < workers
            invariant
                i <= workers,
                team@.len() == i,
                forall|j: int|
                    0 <= j < i ==> {
                        let runner = #[trigger] team@[j];
                        &&& runner.mask() == mask
                        &&& runner.worker().index() == j
                        &&& runner.worker().workers() == workers
                        &&& runner.worker().batch() == BATCH_SIZE
                        &&& runner.worker().round() == 0
                    },
            decreases workers - i,
        {
            match Worker::new(i, workers, BATCH_SIZE) {
                Ok(worker) => {
                    team.push(Runner::new(worker, mask, another_sender(&tx)));
                },
                Err(_) => {
                    assert(false);
                },
            }
            i += 1;
        }
        self.channel = Some(rx);
        self.phase = Phase::WorkersRunning;
        Ok(team)
    }

    /// Starts to collect matches. Where none was asked for, the search is
    /// done at once.
    pub fn collect(&mut self)
        requires
            old(self).phase() == Phase::WorkersRunning,
        ensures
            final(self).count() == old(self).count(),
            final(self).mask() == old(self).mask(),
            final(self).phase() == (if old(self).count() == 0 {
                Phase::Done
            } else {
                Phase::Collecting(old(self).count())
            }),
    {
        proof {
            use_type_invariant(&*self);
        }
        if self.count == 0 {
            self.phase = Phase::Done;
        } else {
            self.phase = Phase::Collecting(self.count);
        }
    }

    /// Takes what the channel has given while matches are collected.
    ///
    /// A match is reported with its line, and one match less is wanted; with
    /// the last one the search is done. A closed channel is a failure: the
    /// matches still wanted will never come.
    pub fn step(&mut self, event: Event) -> (r: Result<String, SearchError>)
        requires
            old(self).phase() is Collecting,
        ensures
            final(self).count() == old(self).count(),
            final(self).mask() == old(self).mask(),
            match event {
                Event::Found(found) => {
                    &&& r is Ok
                    &&& r->Ok_0@ == line_of(found.candidate, found.hex@)
                    &&& final(self).reported() == old(self).reported() + 1
                    &&& old(self).phase() matches Phase::Collecting(remaining)
                        && final(self).phase() == after_match(remaining)
                },
                Event::Closed => {
                    &&& r == Err::<String, SearchError>(SearchError::ChannelClosed)
                    &&& final(self).phase() == old(self).phase()
                },
            },
    {
        proof {
            use_type_invariant(&*self);
        }
        match event {
            Event::Found(found) => {
                let line = format_line(found.candidate, found.hex.as_str());
                if let Phase::Collecting(remaining) = self.phase {
                    if remaining <= 1 {
                        self.phase = Phase::Done;
                    } else {
                        self.phase = Phase::Collecting(remaining - 1);
                    }
                }
                Ok(line)
            },
            Event::Closed => Err(SearchError::ChannelClosed),
        }
    }

    /// Waits for what the channel gives next and takes it: a match is
    /// reported with its line, a closed channel is a failure.
    pub fn receive(&mut self) -> (r: Result<String, SearchError>)
        requires
            old(self).phase() is Collecting,
        ensures
            final(self).count() == old(self).count(),
            final(self).mask() == old(self).mask(),
            match r {
                Ok(_) => {
                    &&& final(self).reported() == old(self).reported() + 1
                    &&& old(self).phase() matches Phase::Collecting(remaining)
                        && final(self).phase() == after_match(remaining)
                },
                Err(error) => {
                    &&& error == SearchError::ChannelClosed
                    &&& final(self).phase() == old(self).phase()
                },
            },
    {
        proof {
            use_type_invariant(&*self);
        }
        let event = match &self.channel {
            Some(rx) => next_event(rx),
            None => vstd::pervasive::unreached(),
        };
        self.step(event)
    }
}

} // verus!
