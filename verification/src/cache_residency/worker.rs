//! Bookkeeping of background disk operations.
//!
//! A disk operation is identified by the cache generation, block and direction it
//! belongs to. Requests for one identity share one operation while it is in flight.
//! Each operation settles once, as finished or as cancelled, and its task resources
//! are released separately: a cancelled write may still own host arrays.

use vstd::prelude::*;

use crate::cache_residency::block::CacheBlockId;

verus! {

/// Direction of a disk operation.
#[derive(Debug, Clone, Copy, PartialEq, Eq, Hash, Structural)]
pub enum DiskOperationKind {
    /// Writes a live block.
    Write,
    /// Reads a block back.
    Read,
}

/// Identity shared by all requests for one disk operation.
#[derive(Debug, Clone, Copy, PartialEq, Eq, Hash, Structural)]
pub struct DiskOperationKey {
    /// Cache generation that requested the operation.
    pub generation: u64,
    /// Block read or written.
    pub id: CacheBlockId,
    /// Direction of the operation.
    pub kind: DiskOperationKind,
}

/// One caller's claim on a disk operation.
#[derive(Debug, Clone, Copy, PartialEq, Eq, Structural)]
pub struct DiskTicket {
    /// Identity of the operation.
    pub key: DiskOperationKey,
    /// Index of the operation's completion.
    pub operation: usize,
}

/// Settlement of a disk operation.
#[derive(Debug, Clone, Copy, PartialEq, Eq, Structural)]
pub enum DiskCompletionState {
    /// Queued or running.
    Pending,
    /// Completed with a result, good or bad.
    Finished,
    /// Invalidated before it completed.
    Cancelled,
}

/// Completion record of one disk operation.
#[derive(Debug, Clone, Copy, PartialEq, Eq, Structural)]
pub struct DiskCompletion {
    /// How the operation settled.
    pub state: DiskCompletionState,
    /// Whether the task's own resources have been dropped.
    pub released: bool,
    /// Whether nobody refers to the operation any more: another one may take its place.
    pub vacant: bool,
}

/// Result of asking for a disk operation.
#[derive(Debug, Clone, Copy, PartialEq, Eq, Structural)]
pub struct DiskSubmission {
    /// Claim on the operation.
    pub ticket: DiskTicket,
    /// Whether an operation already in flight was joined.
    pub joined: bool,
}

/// Result of one attempt to hand a request to the worker.
#[derive(Debug, Clone, Copy, PartialEq, Eq, Structural)]
pub enum EnqueueStep {
    /// The operation settled before it was sent; its task was dropped.
    Settled,
    /// The request is queued.
    Sent,
    /// The queue is full; try again when a request leaves it.
    Full,
}

/// A request taken from the queue.
#[derive(Debug, Clone, Copy, PartialEq, Eq, Structural)]
pub struct DequeuedOperation {
    /// Claim on the operation.
    pub ticket: DiskTicket,
    /// Whether the worker is to run it; a settled operation is only dropped.
    pub run: bool,
}

/// Bounded request queue and in-flight operations of one disk worker.
#[derive(Debug)]
pub struct DiskWorker {
    /// Completions of the operations that were prepared and not forgotten, each in its
    /// place.
    pub completions: Vec<DiskCompletion>,
    /// Operations that later requests join.
    pub in_flight: Vec<DiskTicket>,
    /// Requests waiting for the worker, oldest first.
    pub queue: Vec<DiskTicket>,
    /// Bound on waiting requests.
    pub capacity: usize,
    /// Largest number of requests that waited at once.
    pub peak_occupancy: usize,
}

/// The first vacant place from a position on, or the end of the completions.
pub open spec fn vacant_place(completions: Seq<DiskCompletion>, from: int) -> int
    decreases completions.len() - from,
{
    if from >= completions.len() || completions[from].vacant {
        from
    } else {
        vacant_place(completions, from + 1)
    }
}

/// The completions with an operation that starts in a place of theirs, or behind them.
pub open spec fn started(completions: Seq<DiskCompletion>, place: int) -> Seq<DiskCompletion> {
    let completion = DiskCompletion {
        state: DiskCompletionState::Pending,
        released: false,
        vacant: false,
    };
    if place < completions.len() {
        completions.update(place, completion)
    } else {
        completions.push(completion)
    }
}

/// Settles one operation among completions; a settled one stays as it is.
pub open spec fn settle_completion(
    completions: Seq<DiskCompletion>,
    ticket: DiskTicket,
    state: DiskCompletionState,
) -> Seq<DiskCompletion> {
    let completion = completions[ticket.operation as int];
    if ticket.operation < completions.len() && completion.state == DiskCompletionState::Pending {
        completions.update(ticket.operation as int, DiskCompletion { state, ..completion })
    } else {
        completions
    }
}

/// The completions after every ticket's operation was cancelled, in order.
pub open spec fn cancel_each(
    completions: Seq<DiskCompletion>,
    tickets: Seq<DiskTicket>,
) -> Seq<DiskCompletion>
    decreases tickets.len(),
{
    if tickets.len() == 0 {
        completions
    } else {
        settle_completion(
            cancel_each(completions, tickets.drop_last()),
            tickets.last(),
            DiskCompletionState::Cancelled,
        )
    }
}

/// How many of the cancellations invalidated an operation that had not settled.
pub open spec fn cancelled_among(
    completions: Seq<DiskCompletion>,
    tickets: Seq<DiskTicket>,
) -> nat
    decreases tickets.len(),
{
    if tickets.len() == 0 {
        0
    } else {
        let before = cancel_each(completions, tickets.drop_last());
        cancelled_among(completions, tickets.drop_last()) + if before[tickets.last().operation as int].state
            == DiskCompletionState::Pending {
            1nat
        } else {
            0nat
        }
    }
}

impl DiskWorker {
    /// Consistency of the bookkeeping.
    pub open spec fn wf(self) -> bool {
        &&& self.capacity > 0
        &&& self.queue@.len() <= self.capacity
        &&& self.peak_occupancy <= self.capacity
        &&& forall|i: int| 0 <= i < self.in_flight@.len() ==> self.knows(#[trigger] self.in_flight@[i])
        &&& forall|i: int| 0 <= i < self.queue@.len() ==> self.knows(#[trigger] self.queue@[i])
        &&& forall|i: int, j: int|
            0 <= i < j < self.in_flight@.len() ==> (#[trigger] self.in_flight@[i]).key != (
            #[trigger] self.in_flight@[j]).key
    }

    /// Whether a ticket refers to an operation of this worker that was not forgotten.
    pub open spec fn knows(self, ticket: DiskTicket) -> bool {
        &&& ticket.operation < self.completions@.len()
        &&& !self.completions@[ticket.operation as int].vacant
    }

    /// Whether every operation that was known in `before` is known.
    pub open spec fn remembers(self, before: DiskWorker) -> bool {
        forall|ticket: DiskTicket| before.knows(ticket) ==> #[trigger] self.knows(ticket)
    }

    /// Whether an operation still waits for the worker, or is joined by later requests.
    pub open spec fn is_busy(self, operation: usize) -> bool {
        ||| exists|i: int|
            0 <= i < self.in_flight@.len() && (#[trigger] self.in_flight@[i]).operation
                == operation
        ||| exists|i: int|
            0 <= i < self.queue@.len() && (#[trigger] self.queue@[i]).operation == operation
    }

    /// Whether an operation has settled, its task is dropped, and it is neither queued nor
    /// joined.
    pub open spec fn is_over(self, ticket: DiskTicket) -> bool {
        &&& !self.pending(ticket)
        &&& self.completions@[ticket.operation as int].released
        &&& !self.is_busy(ticket.operation)
    }

    /// Whether a request for `key` would join an operation.
    pub open spec fn joins(self, key: DiskOperationKey) -> bool {
        exists|i: int| 0 <= i < self.in_flight@.len() && (#[trigger] self.in_flight@[i]).key == key
    }

    /// Whether a ticket's operation has not settled.
    pub open spec fn pending(self, ticket: DiskTicket) -> bool {
        self.completions@[ticket.operation as int].state == DiskCompletionState::Pending
    }

    /// The completions after an operation settles; a settled one stays as it is.
    pub open spec fn settled(self, ticket: DiskTicket, state: DiskCompletionState) -> Seq<
        DiskCompletion,
    > {
        settle_completion(self.completions@, ticket, state)
    }

    /// Whether later requests no longer join this very operation, and join exactly the
    /// others that they joined in `before`.
    pub open spec fn joins_all_but(self, before: DiskWorker, ticket: DiskTicket) -> bool {
        &&& !self.in_flight@.contains(ticket)
        &&& forall|other: DiskTicket|
            other != ticket ==> (#[trigger] self.in_flight@.contains(other)
                <==> before.in_flight@.contains(other))
    }

    /// Whether this worker is `before` with one operation retired.
    pub open spec fn retired(self, before: DiskWorker, ticket: DiskTicket) -> bool {
        &&& self.joins_all_but(before, ticket)
        &&& self == (DiskWorker { in_flight: self.in_flight, ..before })
    }

    /// Whether this worker is `before` with the operation for `key` claimed by a ticket:
    /// `joined` in flight, or started.
    pub open spec fn prepared(
        self,
        before: DiskWorker,
        key: DiskOperationKey,
        ticket: DiskTicket,
        joined: bool,
    ) -> bool {
        &&& ticket.key == key
        &&& joined == before.joins(key)
        &&& self.queue@ == before.queue@
        &&& self.capacity == before.capacity
        &&& self.peak_occupancy == before.peak_occupancy
        &&& if joined {
            &&& before.in_flight@.contains(ticket)
            &&& self.in_flight@ == before.in_flight@
            &&& self.completions@ == before.completions@
        } else {
            &&& ticket.operation == vacant_place(before.completions@, 0)
            &&& self.in_flight@ == before.in_flight@.push(ticket)
            &&& self.completions@ == started(before.completions@, ticket.operation as int)
        }
    }

    /// Whether this is an idle worker that nothing was ever asked of.
    pub open spec fn fresh(self, capacity: usize) -> bool {
        &&& self.completions@.len() == 0
        &&& self.in_flight@.len() == 0
        &&& self.queue@.len() == 0
        &&& self.capacity == capacity
        &&& self.peak_occupancy == 0
    }

    /// Creates an idle worker with a bounded queue.
    pub fn new(capacity: usize) -> (worker: Self)
        requires
            capacity > 0,
        ensures
            worker.wf(),
            worker.fresh(capacity),
    {
        DiskWorker {
            completions: Vec::new(),
            in_flight: Vec::new(),
            queue: Vec::new(),
            capacity,
            peak_occupancy: 0,
        }
    }

    /// Position of the operation that a request for `key` joins.
    fn in_flight_position(&self, key: &DiskOperationKey) -> (position: Option<usize>)
        ensures
            match position {
                Some(i) => i < self.in_flight@.len() && self.in_flight@[i as int].key == *key,
                None => !self.joins(*key),
            },
    {
        let mut index: usize = 0;
        while index < self.in_flight.len()
            invariant
                index <= self.in_flight@.len(),
                forall|i: int| 0 <= i < index ==> (#[trigger] self.in_flight@[i]).key != *key,
            decreases self.in_flight@.len() - index,
        {
            if self.in_flight[index].key == *key {
                return Some(index);
            }
            index = index + 1;
        }
        None
    }

    /// The first vacant place.
    fn find_vacant(&self) -> (place: usize)
        ensures
            place == vacant_place(self.completions@, 0),
            place <= self.completions@.len(),
            place < self.completions@.len() ==> self.completions@[place as int].vacant,
    {
        let mut place: usize = 0;
        while place < self.completions.len()
            invariant
                place <= self.completions@.len(),
                vacant_place(self.completions@, 0) == vacant_place(self.completions@, place as int),
            decreases self.completions@.len() - place,
        {
            if self.completions[place].vacant {
                return place;
            }
            place = place + 1;
        }
        place
    }

    /// Claims the operation for `key`: joins it where it is in flight, otherwise
    /// starts one that later requests join, in the first vacant place.
    pub fn prepare(&mut self, key: DiskOperationKey) -> (submission: DiskSubmission)
        requires
            old(self).wf(),
            old(self).completions@.len() < usize::MAX,
        ensures
            final(self).wf(),
            final(self).knows(submission.ticket),
            final(self).prepared(*old(self), key, submission.ticket, submission.joined),
            final(self).remembers(*old(self)),
    {
        match self.in_flight_position(&key) {
            Some(index) => {
                assert(self.in_flight@.contains(self.in_flight@[index as int]));
                DiskSubmission { ticket: self.in_flight[index], joined: true }
            },
            None => {
                let place: usize = self.find_vacant();
                let ticket = DiskTicket { key, operation: place };
                let completion = DiskCompletion {
                    state: DiskCompletionState::Pending,
                    released: false,
                    vacant: false,
                };
                if place < self.completions.len() {
                    self.completions[place] = completion;
                } else {
                    self.completions.push(completion);
                }
                self.in_flight.push(ticket);
                DiskSubmission { ticket, joined: false }
            },
        }
    }

    /// Whether an operation has settled.
    pub fn is_ready(&self, ticket: &DiskTicket) -> (ready: bool)
        requires
            self.knows(*ticket),
        ensures
            ready == !self.pending(*ticket),
    {
        self.completions[ticket.operation].state != DiskCompletionState::Pending
    }

    /// Settles an operation, unless it settled before.
    fn settle(&mut self, ticket: &DiskTicket, state: DiskCompletionState) -> (changed: bool)
        requires
            old(self).wf(),
            old(self).knows(*ticket),
        ensures
            final(self).wf(),
            changed == old(self).pending(*ticket),
            final(self).completions@ == old(self).settled(*ticket, state),
            *final(self) == (DiskWorker { completions: final(self).completions, ..*old(self) }),
    {
        let completion = self.completions[ticket.operation];
        if completion.state == DiskCompletionState::Pending {
            self.completions[ticket.operation] = DiskCompletion { state, ..completion };
            true
        } else {
            false
        }
    }

    /// Records a result; an operation that settled before keeps its settlement.
    pub fn finish(&mut self, ticket: &DiskTicket) -> (finished: bool)
        requires
            old(self).wf(),
            old(self).knows(*ticket),
        ensures
            final(self).wf(),
            finished == old(self).pending(*ticket),
            final(self).completions@ == old(self).settled(*ticket, DiskCompletionState::Finished),
            *final(self) == (DiskWorker { completions: final(self).completions, ..*old(self) }),
    {
        self.settle(ticket, DiskCompletionState::Finished)
    }

    /// Invalidates an operation that has not settled.
    pub fn cancel(&mut self, ticket: &DiskTicket) -> (cancelled: bool)
        requires
            old(self).wf(),
            old(self).knows(*ticket),
        ensures
            final(self).wf(),
            cancelled == old(self).pending(*ticket),
            final(self).completions@ == old(self).settled(*ticket, DiskCompletionState::Cancelled),
            *final(self) == (DiskWorker { completions: final(self).completions, ..*old(self) }),
    {
        self.settle(ticket, DiskCompletionState::Cancelled)
    }

    /// Marks the resources of an operation's task as dropped.
    pub fn release_task_resources(&mut self, ticket: &DiskTicket)
        requires
            old(self).wf(),
            old(self).knows(*ticket),
        ensures
            final(self).wf(),
            final(self).completions@ == old(self).completions@.update(
                ticket.operation as int,
                (DiskCompletion {
                    released: true,
                    ..old(self).completions@[ticket.operation as int]
                }),
            ),
            *final(self) == (DiskWorker { completions: final(self).completions, ..*old(self) }),
    {
        let completion = self.completions[ticket.operation];
        self.completions[ticket.operation] = DiskCompletion { released: true, ..completion };
    }

    /// Whether the resources of an operation's task have been dropped.
    pub fn resources_released(&self, ticket: &DiskTicket) -> (released: bool)
        requires
            self.knows(*ticket),
        ensures
            released == self.completions@[ticket.operation as int].released,
    {
        self.completions[ticket.operation].released
    }

    /// Stops later requests from joining this very operation.
    pub fn retire(&mut self, ticket: &DiskTicket)
        requires
            old(self).wf(),
        ensures
            final(self).wf(),
            final(self).retired(*old(self), *ticket),
    {
        let mut index: usize = 0;
        while index < self.in_flight.len()
            invariant
                index <= self.in_flight@.len(),
                self.wf(),
                *self == *old(self),
                forall|i: int| 0 <= i < index ==> #[trigger] self.in_flight@[i] != *ticket,
            decreases self.in_flight@.len() - index,
        {
            if self.in_flight[index] == *ticket {
                let ghost before = self.in_flight@;
                self.in_flight.remove(index);
                proof {
                    let after = self.in_flight@;
                    assert forall|other: DiskTicket| other != *ticket implies (after.contains(other)
                        <==> before.contains(other)) by {
                        if before.contains(other) {
                            let i = choose|i: int| 0 <= i < before.len() && before[i] == other;
                            if i < index {
                                assert(after[i] == other);
                            } else {
                                assert(after[i - 1] == other);
                            }
                        }
                        if after.contains(other) {
                            let i = choose|i: int| 0 <= i < after.len() && after[i] == other;
                            if i < index {
                                assert(before[i] == other);
                            } else {
                                assert(before[i + 1] == other);
                            }
                        }
                    }
                    if after.contains(*ticket) {
                        let i = choose|i: int| 0 <= i < after.len() && after[i] == *ticket;
                        if i < index {
                            assert(before[i] == *ticket);
                        } else {
                            assert(before[i + 1].key == before[index as int].key);
                        }
                    }
                }
                return ;
            }
            index = index + 1;
        }
    }

    /// Attempts to queue a prepared operation once.
    pub fn enqueue(&mut self, ticket: &DiskTicket) -> (step: EnqueueStep)
        requires
            old(self).wf(),
            old(self).knows(*ticket),
        ensures
            final(self).wf(),
            step == (if !old(self).pending(*ticket) {
                EnqueueStep::Settled
            } else if old(self).queue@.len() < old(self).capacity {
                EnqueueStep::Sent
            } else {
                EnqueueStep::Full
            }),
            final(self).in_flight@ == old(self).in_flight@,
            final(self).capacity == old(self).capacity,
            step == EnqueueStep::Settled ==> final(self).completions@ == old(self).completions@.update(
                ticket.operation as int,
                (DiskCompletion {
                    released: true,
                    ..old(self).completions@[ticket.operation as int]
                }),
            ),
            step != EnqueueStep::Settled ==> final(self).completions@ == old(self).completions@,
            final(self).queue@ == (if step == EnqueueStep::Sent {
                old(self).queue@.push(*ticket)
            } else {
                old(self).queue@
            }),
            final(self).peak_occupancy == (if step == EnqueueStep::Sent && old(self).queue@.len() + 1
                > old(self).peak_occupancy {
                (old(self).queue@.len() + 1) as usize
            } else {
                old(self).peak_occupancy
            }),
    {
        if self.is_ready(ticket) {
            self.release_task_resources(ticket);
            return EnqueueStep::Settled;
        }
        if self.queue.len() >= self.capacity {
            return EnqueueStep::Full;
        }
        self.queue.push(*ticket);
        let occupancy: usize = self.queue.len();
        if occupancy > self.peak_occupancy {
            self.peak_occupancy = occupancy;
        }
        EnqueueStep::Sent
    }

    /// Takes the oldest request. An operation that settled while it waited is dropped
    /// and retired instead of run.
    pub fn dequeue(&mut self) -> (taken: Option<DequeuedOperation>)
        requires
            old(self).wf(),
        ensures
            final(self).wf(),
            final(self).capacity == old(self).capacity,
            final(self).peak_occupancy == old(self).peak_occupancy,
            match taken {
                None => old(self).queue@.len() == 0 && *final(self) == *old(self),
                Some(taken) => {
                    &&& old(self).queue@.len() > 0
                    &&& taken.ticket == old(self).queue@[0]
                    &&& taken.run == old(self).pending(taken.ticket)
                    &&& final(self).queue@ == old(self).queue@.drop_first()
                    &&& taken.run ==> final(self).completions@ == old(self).completions@
                        && final(self).in_flight@ == old(self).in_flight@
                    &&& !taken.run ==> final(self).joins_all_but(*old(self), taken.ticket)
                        && final(self).completions@ == old(self).completions@.update(
                        taken.ticket.operation as int,
                        (DiskCompletion {
                            released: true,
                            ..old(self).completions@[taken.ticket.operation as int]
                        }),
                    )
                },
            },
    {
        if self.queue.len() == 0 {
            return None;
        }
        let ticket = self.queue[0];
        assert(self.knows(self.queue@[0]));
        let ghost before = self.queue@;
        self.queue.remove(0);
        assert(self.queue@ =~= before.drop_first());
        let run = !self.is_ready(&ticket);
        if !run {
            self.release_task_resources(&ticket);
            self.retire(&ticket);
        }
        Some(DequeuedOperation { ticket, run })
    }

    /// Settles an operation that ran. Answers whether its result is published; the
    /// result of an operation cancelled meanwhile is thrown away.
    pub fn complete(&mut self, ticket: &DiskTicket) -> (published: bool)
        requires
            old(self).wf(),
            old(self).knows(*ticket),
        ensures
            final(self).wf(),
            published == old(self).pending(*ticket),
            final(self).completions@ == old(self).completions@.update(
                ticket.operation as int,
                (DiskCompletion {
                    released: true,
                    state: if old(self).pending(*ticket) {
                        DiskCompletionState::Finished
                    } else {
                        old(self).completions@[ticket.operation as int].state
                    },
                    vacant: false,
                }),
            ),
            final(self).joins_all_but(*old(self), *ticket),
            final(self).queue@ == old(self).queue@,
            final(self).capacity == old(self).capacity,
            final(self).peak_occupancy == old(self).peak_occupancy,
    {
        let published = self.finish(ticket);
        self.release_task_resources(ticket);
        self.retire(ticket);
        assert(self.completions@ =~= old(self).completions@.update(
            ticket.operation as int,
            self.completions@[ticket.operation as int],
        ));
        published
    }

    /// Gives up a prepared operation that was never sent.
    pub fn abandon(&mut self, ticket: &DiskTicket)
        requires
            old(self).wf(),
            old(self).knows(*ticket),
        ensures
            final(self).wf(),
            final(self).completions@ == old(self).completions@.update(
                ticket.operation as int,
                (DiskCompletion {
                    released: true,
                    state: if old(self).pending(*ticket) {
                        DiskCompletionState::Cancelled
                    } else {
                        old(self).completions@[ticket.operation as int].state
                    },
                    vacant: false,
                }),
            ),
            final(self).joins_all_but(*old(self), *ticket),
            final(self).queue@ == old(self).queue@,
            final(self).capacity == old(self).capacity,
            final(self).peak_occupancy == old(self).peak_occupancy,
    {
        self.cancel(ticket);
        self.release_task_resources(ticket);
        self.retire(ticket);
        assert(self.completions@ =~= old(self).completions@.update(
            ticket.operation as int,
            self.completions@[ticket.operation as int],
        ));
    }
}

impl DiskWorker {
    fn busy(&self, operation: usize) -> (busy: bool)
        ensures
            busy == self.is_busy(operation),
    {
        let mut index: usize = 0;
        while index < self.in_flight.len()
            invariant
                index <= self.in_flight@.len(),
                forall|i: int|
                    0 <= i < index ==> (#[trigger] self.in_flight@[i]).operation != operation,
            decreases self.in_flight@.len() - index,
        {
            if self.in_flight[index].operation == operation {
                assert(self.in_flight@[index as int].operation == operation);
                return true;
            }
            index = index + 1;
        }
        index = 0;
        while index < self.queue.len()
            invariant
                index <= self.queue@.len(),
                forall|i: int|
                    0 <= i < index ==> (#[trigger] self.queue@[i]).operation != operation,
            decreases self.queue@.len() - index,
        {
            if self.queue[index].operation == operation {
                assert(self.queue@[index as int].operation == operation);
                return true;
            }
            index = index + 1;
        }
        false
    }

    /// Forgets an operation that is over: its place becomes vacant. Answers whether it is.
    pub fn forget(&mut self, ticket: &DiskTicket) -> (forgotten: bool)
        requires
            old(self).wf(),
            old(self).knows(*ticket),
        ensures
            final(self).wf(),
            forgotten == old(self).is_over(*ticket),
            final(self).completions@ == (if forgotten {
                old(self).completions@.update(
                    ticket.operation as int,
                    (DiskCompletion {
                        vacant: true,
                        ..old(self).completions@[ticket.operation as int]
                    }),
                )
            } else {
                old(self).completions@
            }),
            *final(self) == (DiskWorker { completions: final(self).completions, ..*old(self) }),
    {
        let completion = self.completions[ticket.operation];
        if completion.state == DiskCompletionState::Pending || !completion.released || self.busy(
            ticket.operation,
        ) {
            return false;
        }
        self.completions[ticket.operation] = DiskCompletion { vacant: true, ..completion };
        true
    }
}

/// An operation that starts gets a place of its own: every operation that was known stays
/// known and as it was.
pub proof fn started_operations_disturb_none(
    before: DiskWorker,
    after: DiskWorker,
    key: DiskOperationKey,
    ticket: DiskTicket,
    other: DiskTicket,
)
    requires
        after.prepared(before, key, ticket, false),
        before.knows(other),
    ensures
        other.operation != ticket.operation,
        after.knows(other),
        after.completions@[other.operation as int] == before.completions@[other.operation as int],
{
    vacant_place_is_vacant(before.completions@, 0);
}

/// The place that an operation starts in is vacant, or lies behind all others.
pub(crate) proof fn vacant_place_is_vacant(completions: Seq<DiskCompletion>, from: int)
    requires
        0 <= from <= completions.len(),
    ensures
        from <= vacant_place(completions, from) <= completions.len(),
        vacant_place(completions, from) < completions.len() ==> completions[vacant_place(
            completions,
            from,
        )].vacant,
    decreases completions.len() - from,
{
    if from < completions.len() && !completions[from].vacant {
        vacant_place_is_vacant(completions, from + 1);
    }
}

/// Requests for one identity share one operation until it is retired: after a
/// request was prepared, the next request for the same identity joins it.
pub proof fn prepared_operation_is_joined(worker: DiskWorker, ticket: DiskTicket)
    requires
        worker.in_flight@.contains(ticket),
    ensures
        worker.joins(ticket.key),
{
    let i = choose|i: int| 0 <= i < worker.in_flight@.len() && worker.in_flight@[i] == ticket;
    assert(worker.in_flight@[i].key == ticket.key);
}

/// One identity has one operation in flight: tickets that requests for the same
/// identity got while it was in flight are the same.
pub proof fn one_operation_per_identity(worker: DiskWorker, left: DiskTicket, right: DiskTicket)
    requires
        worker.wf(),
        worker.in_flight@.contains(left),
        worker.in_flight@.contains(right),
        left.key == right.key,
    ensures
        left == right,
{
    let i = choose|i: int| 0 <= i < worker.in_flight@.len() && worker.in_flight@[i] == left;
    let j = choose|j: int| 0 <= j < worker.in_flight@.len() && worker.in_flight@[j] == right;
    if i < j {
        assert(worker.in_flight@[i].key != worker.in_flight@[j].key);
    }
    if j < i {
        assert(worker.in_flight@[j].key != worker.in_flight@[i].key);
    }
}

/// A settlement is final: settling again, either way, changes nothing.
pub proof fn settlement_is_final(
    worker: DiskWorker,
    ticket: DiskTicket,
    state: DiskCompletionState,
)
    requires
        worker.knows(ticket),
        !worker.pending(ticket),
    ensures
        worker.settled(ticket, state) == worker.completions@,
{
}

/// An operation starts in the first place that is free: no earlier place is, and only
/// where none is left the completions grow.
pub proof fn vacant_places_are_reused(completions: Seq<DiskCompletion>, from: int, earlier: int)
    requires
        0 <= from <= completions.len(),
    ensures
        from <= vacant_place(completions, from) <= completions.len(),
        vacant_place(completions, from) < completions.len() ==> completions[vacant_place(
            completions,
            from,
        )].vacant,
        from <= earlier < vacant_place(completions, from) ==> !completions[earlier].vacant,
    decreases completions.len() - from,
{
    if from < completions.len() && !completions[from].vacant {
        vacant_places_are_reused(completions, from + 1, earlier);
    }
}

/// A started operation is pending, its task is held and its place is taken; every other
/// place stays as it was.
pub proof fn started_operations_are_pending(
    completions: Seq<DiskCompletion>,
    place: int,
    other: int,
)
    requires
        0 <= place <= completions.len(),
    ensures
        started(completions, place)[place].state == DiskCompletionState::Pending,
        !started(completions, place)[place].released,
        !started(completions, place)[place].vacant,
        0 <= other < completions.len() && other != place ==> started(completions, place)[other]
            == completions[other],
        started(completions, place).len() == if place < completions.len() {
            completions.len()
        } else {
            completions.len() + 1
        },
{
}

/// A ticket is known exactly while its operation has a place, and an operation is over
/// only where it has settled, its task was dropped and nothing waits for it.
pub proof fn operations_in_use_are_not_over(worker: DiskWorker, ticket: DiskTicket, i: int)
    ensures
        worker.is_over(ticket) && 0 <= i < worker.in_flight@.len()
            ==> worker.in_flight@[i].operation != ticket.operation,
        worker.is_over(ticket) && 0 <= i < worker.queue@.len() ==> worker.queue@[i].operation
            != ticket.operation,
        worker.is_over(ticket) ==> worker.completions@[ticket.operation as int].state
            != DiskCompletionState::Pending,
        worker.is_over(ticket) ==> worker.completions@[ticket.operation as int].released,
{
}

/// Cancellations count exactly the operations that they settle: cancelling one that has
/// settled counts nothing.
pub proof fn settled_operations_are_not_cancelled(
    completions: Seq<DiskCompletion>,
    tickets: Seq<DiskTicket>,
    ticket: DiskTicket,
)
    requires
        0 <= ticket.operation < cancel_each(completions, tickets).len(),
    ensures
        cancelled_among(completions, Seq::empty()) == 0,
        ({
            let before = cancel_each(completions, tickets);
            let after = cancel_each(completions, tickets.push(ticket));
            let pending = before[ticket.operation as int].state == DiskCompletionState::Pending;
            &&& after[ticket.operation as int].state != DiskCompletionState::Pending
            &&& pending ==> after[ticket.operation as int].state == DiskCompletionState::Cancelled
            &&& !pending ==> after == before
            &&& cancelled_among(completions, tickets.push(ticket)) == cancelled_among(
                completions,
                tickets,
            ) + if pending {
                1int
            } else {
                0
            }
        }),
{
    assert(tickets.push(ticket).drop_last() =~= tickets);
}

} // verus!
