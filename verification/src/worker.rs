//! A worker: the scan of its batches, one after the other.
use vstd::prelude::*;
use crossbeam_channel::Sender;
use crate::channel::send_match;
use crate::digest::{candidate_bytes, digest_nibbles, hex_of, sha256, Digest};
use crate::error::SearchError;
use crate::layout::lemma_byte_nibbles_are_digits;
use crate::mask::{lemma_passes_iff_hex_ends_in_zeros, mask_nibbles, passes, trailing_zeros, Mask};
use crate::partition::{batch_start, lemma_rounds_ascend, partition};

verus! {

/// A candidate whose digest passed the mask, with the hex text of the digest.
#[derive(Clone, Debug, PartialEq, Eq)]
pub struct Match {
    /// The candidate.
    pub candidate: u64,
    /// Its digest as 64 lowercase hex characters.
    pub hex: String,
}

impl View for Match {
    type V = (u64, Seq<char>);

    open spec fn view(&self) -> (u64, Seq<char>) {
        (self.candidate, self.hex@)
    }
}

/// The views of a sequence of matches.
pub open spec fn views(found: Seq<Match>) -> Seq<(u64, Seq<char>)> {
    Seq::new(found.len(), |j: int| found[j]@)
}

/// Whether candidate `n` is a match under the mask with hex digits `mask`.
pub open spec fn is_hit(mask: Seq<u8>, n: int) -> bool {
    passes(mask, digest_nibbles(n as u64))
}

/// What is reported of a candidate that is a match.
pub open spec fn match_of(n: int) -> (u64, Seq<char>) {
    (n as u64, hex_of(digest_nibbles(n as u64)))
}

/// The matches among the candidates from `first` up to, not including,
/// `end`, in ascending order.
pub open spec fn hits_in(mask: Seq<u8>, first: int, end: int) -> Seq<(u64, Seq<char>)>
    decreases end - first,
{
    if first >= end {
        Seq::empty()
    } else if is_hit(mask, end - 1) {
        hits_in(mask, first, end - 1).push(match_of(end - 1))
    } else {
        hits_in(mask, first, end - 1)
    }
}

/// Scans the candidates from `first` up to, not including, `end`, and returns
/// the matches in the order in which they were found.
pub fn scan_batch(mask: &Mask, first: u64, end: u64) -> (found: Vec<Match>)
    ensures
        views(found@) == hits_in(mask@, first as int, end as int),
{
    let mut found: Vec<Match> = Vec::new();
    let mut n: u64 = first;
    assert(views(found@) =~= hits_in(mask@, first as int, first as int));
    while n < end
        invariant
            first <= n <= end || (end < first && n == first),
            views(found@) == hits_in(mask@, first as int, n as int),
        decreases end - n,
    {
        let digest = Digest::of_candidate(n);
        if mask.accepts(&digest) {
            let ghost before = found@;
            found.push(Match { candidate: n, hex: digest.to_hex() });
            assert(views(found@) =~= views(before).push(match_of(n as int)));
        }
        n += 1;
    }
    proof {
        if end < first {
            assert(hits_in(mask@, first as int, end as int) =~= Seq::empty());
        }
    }
    found
}

/// The number of candidates in a batch of the search.
pub const BATCH_SIZE: usize = 100;

/// Whether the candidates of `found` ascend strictly and lie from `first` up
/// to, not including, `end`.
pub open spec fn ascending_within(found: Seq<(u64, Seq<char>)>, first: int, end: int) -> bool {
    &&& forall|j: int| 0 <= j < found.len() ==> first <= (#[trigger] found[j]).0 < end
    &&& forall|j: int, k: int| 0 <= j < k < found.len() ==> (#[trigger] found[j]).0 < (
    #[trigger] found[k]).0
}

/// The matches of a range are reported in strictly ascending order, each with
/// the hex text of its own digest, and all lie in the range.
pub proof fn lemma_hits_ascend(mask: Seq<u8>, first: int, end: int)
    requires
        0 <= first,
        end <= u64::MAX + 1,
    ensures
        ascending_within(hits_in(mask, first, end), first, end),
        forall|j: int|
            0 <= j < hits_in(mask, first, end).len() ==> {
                let found = #[trigger] hits_in(mask, first, end)[j];
                is_hit(mask, found.0 as int) && found == match_of(found.0 as int)
            },
    decreases end - first,
{
    if first < end {
        lemma_hits_ascend(mask, first, end - 1);
    }
}

/// No match of a range is left out: every candidate of the range whose digest
/// passes the mask is reported.
pub proof fn lemma_hits_complete(mask: Seq<u8>, first: int, end: int, n: int)
    requires
        first <= n < end,
        is_hit(mask, n),
    ensures
        hits_in(mask, first, end).contains(match_of(n)),
    decreases end - first,
{
    if n == end - 1 {
        let rest = hits_in(mask, first, end - 1);
        assert(rest.push(match_of(n))[rest.len() as int] == match_of(n));
    } else {
        lemma_hits_complete(mask, first, end - 1, n);
        let rest = hits_in(mask, first, end - 1);
        let j = choose|j: int| 0 <= j < rest.len() && rest[j] == match_of(n);
        if is_hit(mask, end - 1) {
            assert(rest.push(match_of(end - 1))[j] == match_of(n));
        }
    }
}

/// Under the mask for `z` trailing zeros, the hex text of every match that is
/// reported ends in at least `z` characters `'0'`.
pub proof fn lemma_hits_end_in_zeros(z: int, first: int, end: int)
    requires
        0 <= z <= 64,
        0 <= first,
        end <= u64::MAX + 1,
    ensures
        forall|j: int|
            0 <= j < hits_in(mask_nibbles(z), first, end).len() ==> z <= trailing_zeros(
                (#[trigger] hits_in(mask_nibbles(z), first, end)[j]).1,
            ),
{
    let hits = hits_in(mask_nibbles(z), first, end);
    lemma_hits_ascend(mask_nibbles(z), first, end);
    assert forall|j: int| 0 <= j < hits.len() implies z <= trailing_zeros((#[trigger] hits[j]).1) by {
        let n = hits[j].0;
        lemma_byte_nibbles_are_digits(sha256(candidate_bytes(n)));
        lemma_passes_iff_hex_ends_in_zeros(digest_nibbles(n), z);
    }
}

/// All that a worker reports in its first `rounds` rounds, in the order in
/// which it reports it.
pub open spec fn emitted(mask: Seq<u8>, worker: int, workers: int, batch: int, rounds: int) -> Seq<
    (u64, Seq<char>),
>
    decreases rounds,
{
    if rounds <= 0 {
        Seq::empty()
    } else {
        emitted(mask, worker, workers, batch, rounds - 1) + hits_in(
            mask,
            batch_start(worker, workers, batch, rounds - 1),
            batch_start(worker, workers, batch, rounds - 1) + batch,
        )
    }
}

/// The candidates that a worker reports ascend strictly, over all its rounds,
/// as long as its batches lie within the range of `u64`.
pub proof fn lemma_emitted_ascends(mask: Seq<u8>, worker: int, workers: int, batch: int, rounds: int)
    requires
        0 <= worker,
        1 <= workers,
        0 <= batch,
        rounds >= 1 ==> batch_start(worker, workers, batch, rounds - 1) + batch <= u64::MAX + 1,
    ensures
        ascending_within(
            emitted(mask, worker, workers, batch, rounds),
            batch_start(worker, workers, batch, 0),
            if rounds >= 1 {
                batch_start(worker, workers, batch, rounds - 1) + batch
            } else {
                batch_start(worker, workers, batch, 0)
            },
        ),
    decreases rounds,
{
    if rounds >= 1 {
        let first = batch_start(worker, workers, batch, rounds - 1);
        assert(batch_start(worker, workers, batch, 0) == batch * worker + 1) by (nonlinear_arith);
        assert(batch * worker >= 0) by (nonlinear_arith)
            requires
                batch >= 0,
                worker >= 0,
        ;
        if rounds >= 2 {
            lemma_rounds_ascend(worker, workers, batch, rounds - 2, rounds - 1);
            lemma_rounds_ascend(worker, workers, batch, 0, rounds - 1);
        }
        lemma_emitted_ascends(mask, worker, workers, batch, rounds - 1);
        lemma_hits_ascend(mask, first, first + batch);
    }
}

/// One worker of a search: which of the workers it is, and how many rounds it
/// has done.
#[derive(Clone, Copy, Debug, PartialEq, Eq)]
pub struct Worker {
    index: usize,
    workers: usize,
    batch: usize,
    round: u64,
}

impl Worker {
    #[verifier::type_invariant]
    spec fn valid(self) -> bool {
        self.index < self.workers && self.batch >= 1
    }

    /// Which of the workers this is, counted from 0.
    pub closed spec fn spec_index(&self) -> usize {
        self.index
    }

    /// The number of workers among which the candidates are shared.
    pub closed spec fn spec_workers(&self) -> usize {
        self.workers
    }

    /// The number of candidates in a batch.
    pub closed spec fn spec_batch(&self) -> usize {
        self.batch
    }

    /// The number of rounds that the worker has done.
    pub closed spec fn spec_round(&self) -> u64 {
        self.round
    }

    /// The first candidate of the worker's next batch.
    pub open spec fn cursor(&self) -> int {
        batch_start(
            self.index() as int,
            self.workers() as int,
            self.batch() as int,
            self.round() as int,
        )
    }

    /// Which of the workers this is, counted from 0: a number below the
    /// number of workers.
    #[verifier::when_used_as_spec(spec_index)]
    pub fn index(&self) -> (index: usize)
        ensures
            index == self.index(),
            index < self.workers(),
    {
        proof {
            use_type_invariant(self);
        }
        self.index
    }

    /// The number of workers among which the candidates are shared, at least
    /// one.
    #[verifier::when_used_as_spec(spec_workers)]
    pub fn workers(&self) -> (workers: usize)
        ensures
            workers == self.workers(),
            workers >= 1,
    {
        proof {
            use_type_invariant(self);
        }
        self.workers
    }

    /// The number of candidates in a batch, at least one.
    #[verifier::when_used_as_spec(spec_batch)]
    pub fn batch(&self) -> (batch: usize)
        ensures
            batch == self.batch(),
            batch >= 1,
    {
        proof {
            use_type_invariant(self);
        }
        self.batch
    }

    /// The number of rounds that the worker has done.
    #[verifier::when_used_as_spec(spec_round)]
    pub fn round(&self) -> (round: u64)
        ensures
            round == self.round(),
    {
        self.round
    }

    /// Worker `index` of `workers`, before its first round, with batches of
    /// `batch` candidates.
    pub fn new(index: usize, workers: usize, batch: usize) -> (r: Result<Worker, SearchError>)
        ensures
            workers == 0 ==> r == Err::<Worker, SearchError>(SearchError::NoWorkers),
            workers > 0 && index >= workers ==> r == Err::<Worker, SearchError>(
                SearchError::NoSuchWorker,
            ),
            index < workers && batch == 0 ==> r == Err::<Worker, SearchError>(
                SearchError::EmptyBatch,
            ),
            index < workers && batch > 0 ==> r is Ok && r->Ok_0.index() == index
                && r->Ok_0.workers() == workers && r->Ok_0.batch() == batch && r->Ok_0.round()
                == 0,
    {
        if workers == 0 {
            Err(SearchError::NoWorkers)
        } else if index >= workers {
            Err(SearchError::NoSuchWorker)
        } else if batch == 0 {
            Err(SearchError::EmptyBatch)
        } else {
            Ok(Worker { index, workers, batch, round: 0 })
        }
    }

    /// The worker's next batch, as the pair of its first candidate and the
    /// one after its last; none when it would reach past the largest `u64`.
    pub fn next_range(&self) -> (range: Option<(u64, u64)>)
        ensures
            match range {
                Some((first, end)) => first == self.cursor() && end == first + self.batch(),
                None => self.cursor() + self.batch() > u64::MAX,
            },
    {
        partition(self.index, self.workers, self.batch, self.round)
    }

    /// Does one round: scans the next batch and returns its matches in
    /// ascending order. Where the batch would reach past the largest `u64`
    /// the worker has come to its end: it returns nothing and stays as it is.
    pub fn next_batch(&mut self, mask: &Mask) -> (found: Option<Vec<Match>>)
        ensures
            final(self).index() == old(self).index(),
            final(self).workers() == old(self).workers(),
            final(self).batch() == old(self).batch(),
            match found {
                Some(found) => {
                    &&& old(self).cursor() + old(self).batch() <= u64::MAX
                    &&& views(found@) == hits_in(
                        mask@,
                        old(self).cursor(),
                        old(self).cursor() + old(self).batch(),
                    )
                    &&& final(self).round() == old(self).round() + 1
                },
                None => {
                    &&& old(self).cursor() + old(self).batch() > u64::MAX
                    &&& final(self).round() == old(self).round()
                },
            },
    {
        proof {
            use_type_invariant(&*self);
        }
        match self.next_range() {
            Some((first, end)) => {
                let found = scan_batch(mask, first, end);
                assert(self.round < first) by (nonlinear_arith)
                    requires
                        first == self.batch * (self.round * self.workers + self.index) + 1,
                        self.batch >= 1,
                        self.workers >= 1,
                        self.index >= 0,
                        self.round >= 0,
                ;
                self.round = self.round + 1;
                Some(found)
            },
            None => None,
        }
    }
}

/// Drains the buffer of a batch into the channel: offers its matches in the
/// order in which they were found, and stops at the first that the channel
/// refuses. Returns the number of matches that the channel took, which is for
/// the channel to decide; the buffer is left empty either way, and what was
/// not taken is dropped.
pub fn send_all(tx: &Sender<Match>, batch: &mut Vec<Match>) -> (sent: usize)
    ensures
        sent <= old(batch)@.len(),
        final(batch)@.len() == 0,
{
    let mut drained: Vec<Match> = Vec::new();
    core::mem::swap(batch, &mut drained);
    let total: usize = drained.len();
    let mut sent: usize = 0;
    for found in it: drained
        invariant
            sent == it.index(),
            it.seq().len() == total,
            total == old(batch)@.len(),
            batch@.len() == 0,
    {
        if !send_match(tx, found) {
            return sent;
        }
        sent += 1;
    }
    sent
}

/// Why a worker has come to its end.
#[derive(Clone, Copy, Debug, PartialEq, Eq, Structural)]
pub enum Halt {
    /// The channel refused a match: nobody listens any more.
    Refused,
    /// The next batch would reach past the largest candidate.
    Exhausted,
}

impl Halt {
    /// What follows from the channel having taken `sent` of the `wanted`
    /// matches of a batch: a worker of whose matches one was refused has come
    /// to its end, any other goes on.
    pub fn after_send(sent: usize, wanted: usize) -> (halt: Option<Halt>)
        ensures
            halt == (if sent < wanted {
                Some(Halt::Refused)
            } else {
                None::<Halt>
            }),
    {
        if sent < wanted {
            Some(Halt::Refused)
        } else {
            None
        }
    }
}

/// A worker with what it needs to run on a thread of its own: the mask that
/// it tests against and its end of the channel.
pub struct Runner {
    worker: Worker,
    mask: Mask,
    tx: Sender<Match>,
}

impl Runner {
    /// The worker, with the rounds that it has done.
    pub closed spec fn spec_worker(&self) -> Worker {
        self.worker
    }

    /// The mask that the worker tests against.
    pub closed spec fn spec_mask(&self) -> Mask {
        self.mask
    }

    /// A runner for `worker` that tests against `mask` and reports on `tx`.
    pub fn new(worker: Worker, mask: Mask, tx: Sender<Match>) -> (runner: Runner)
        ensures
            runner.worker() == worker,
            runner.mask() == mask,
    {
        Runner { worker, mask, tx }
    }

    /// The worker, with the rounds that it has done.
    #[verifier::when_used_as_spec(spec_worker)]
    pub fn worker(&self) -> (worker: Worker)
        ensures
            worker == self.worker(),
    {
        self.worker
    }

    /// The mask that the worker tests against.
    #[verifier::when_used_as_spec(spec_mask)]
    pub fn mask(&self) -> (mask: Mask)
        ensures
            mask == self.mask(),
    {
        self.mask
    }

    /// Does one round: scans the next batch and offers its matches to the
    /// channel. Says why the worker has come to its end, if it has.
    ///
    /// Where the next batch would reach past the largest candidate, nothing
    /// is scanned and the worker is exhausted. Otherwise the round is done,
    /// whatever the channel took. A round without a match sends nothing and
    /// so always goes on; only a round that held a match can be refused.
    pub fn run_round(&mut self) -> (halt: Option<Halt>)
        ensures
            final(self).mask() == old(self).mask(),
            final(self).worker().index() == old(self).worker().index(),
            final(self).worker().workers() == old(self).worker().workers(),
            final(self).worker().batch() == old(self).worker().batch(),
            old(self).worker().cursor() + old(self).worker().batch() > u64::MAX ==> halt == Some(
                Halt::Exhausted,
            ) && final(self).worker().round() == old(self).worker().round(),
            old(self).worker().cursor() + old(self).worker().batch() <= u64::MAX ==> halt != Some(
                Halt::Exhausted,
            ) && final(self).worker().round() == old(self).worker().round() + 1,
            old(self).worker().cursor() + old(self).worker().batch() <= u64::MAX && hits_in(
                old(self).mask()@,
                old(self).worker().cursor(),
                old(self).worker().cursor() + old(self).worker().batch(),
            ).len() == 0 ==> halt is None,
    {
        match self.worker.next_batch(&self.mask) {
            None => Some(Halt::Exhausted),
            Some(found) => {
                let mut found = found;
                let wanted: usize = found.len();
                assert(views(found@).len() == wanted);
                let sent: usize = send_all(&self.tx, &mut found);
                Halt::after_send(sent, wanted)
            },
        }
    }

    /// Does round after round until the worker has come to its end, and says
    /// why it has.
    ///
    /// Every round that was done lay within the candidates. A worker that
    /// ends exhausted has done all of them: its next batch would reach past
    /// the largest candidate. A worker that ends refused has done at least
    /// one round, and its last round held a match.
    pub fn run(&mut self) -> (halt: Halt)
        ensures
            final(self).mask() == old(self).mask(),
            final(self).worker().index() == old(self).worker().index(),
            final(self).worker().workers() == old(self).worker().workers(),
            final(self).worker().batch() == old(self).worker().batch(),
            final(self).worker().round() >= old(self).worker().round(),
            final(self).worker().round() > old(self).worker().round() ==> last_start(
                final(self).worker(),
            ) + old(self).worker().batch() <= u64::MAX,
            halt == Halt::Exhausted ==> final(self).worker().cursor() + old(self).worker().batch()
                > u64::MAX,
            halt == Halt::Refused ==> final(self).worker().round() > old(self).worker().round()
                && hits_in(
                old(self).mask()@,
                last_start(final(self).worker()),
                last_start(final(self).worker()) + old(self).worker().batch(),
            ).len() > 0,
    {
        loop
            invariant
                self.mask() == old(self).mask(),
                self.worker().index() == old(self).worker().index(),
                self.worker().workers() == old(self).worker().workers(),
                self.worker().batch() == old(self).worker().batch(),
                self.worker().round() >= old(self).worker().round(),
                self.worker().round() > old(self).worker().round() ==> last_start(self.worker())
                    + old(self).worker().batch() <= u64::MAX,
            decreases u64::MAX - self.worker().round(),
        {
            let ghost before = self.worker();
            match self.run_round() {
                Some(halt) => {
                    assert(halt == Halt::Refused ==> last_start(self.worker()) == before.cursor());
                    return halt;
                },
                None => {
                    assert(last_start(self.worker()) == before.cursor());
                },
            }
        }
    }
}

/// The first candidate of the batch that the worker scanned in its last
/// round.
pub open spec fn last_start(worker: Worker) -> int {
    batch_start(
        worker.index() as int,
        worker.workers() as int,
        worker.batch() as int,
        worker.round() - 1,
    )
}

} // verus!
