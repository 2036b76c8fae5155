//! Bounded streaming of dense execution units from checkpoint storage.
//!
//! A background worker fetches units from storage into host memory while the caller
//! executes earlier ones. This module holds the controls and the state that caller and
//! worker share; each function is one step taken while that state is locked.

use vstd::prelude::*;
use vstd::string::StringExecFns;

use crate::duration::combine;
use crate::offload::{CacheEvictionPolicy, OffloadUnitId};
use crate::units::{UnitNotes, UnitSet};

verus! {

/// Public controls for experimental dense disk streaming.
#[derive(Debug, Clone, Copy, Eq, PartialEq, Structural)]
pub struct DenseDiskStreamLoadOptions {
    /// Finite logical device parameter budget, including pinned static weights.
    pub device_budget_bytes: u64,
    /// Finite logical host layer budget. Zero selects direct disk-to-device loading.
    pub host_budget_bytes: u64,
    /// Number of current and imminent layer host copies protected from eviction.
    pub host_lookahead: usize,
    /// Number of current and imminent layer device copies protected from eviction.
    pub device_lookahead: usize,
    /// Maximum number of pending background host materializations.
    pub background_queue_capacity: usize,
    /// Deterministic ordering used when unprotected cached copies must be evicted.
    pub eviction_policy: CacheEvictionPolicy,
    /// Maximum number of checkpoint payload shards retained as mappings; absent, the
    /// default of the weight store.
    pub max_mapped_shards: Option<usize>,
    /// Reject checkpoint tensors unrelated to the adapter's parameter tree.
    pub strict_loading: bool,
    /// Sample allocator memory after a forward pass.
    pub sample_mlx_memory: bool,
    /// Sample process memory and page-fault counters after a forward pass.
    pub sample_process_memory: bool,
}

/// Structured validation and worker failures for dense disk streaming.
#[derive(Debug)]
pub enum DenseStreamError {
    /// Device lookahead must include the current execution unit.
    ZeroDeviceLookahead,
    /// Enabled host caching needs a protected current unit.
    ZeroHostLookahead,
    /// Enabled background work requires bounded capacity.
    ZeroQueueCapacity,
    /// Direct-to-device mode cannot configure host-only controls.
    HostDisabledControls,
    /// Shared worker state was poisoned.
    StatePoisoned,
    /// The worker ended before accepting or completing required work.
    WorkerDisconnected,
    /// A worker-side materialization failed and was observed by demand.
    PrefetchFailed {
        /// Failed unit.
        id: OffloadUnitId,
        /// Original residency error.
        message: String,
    },
    /// A residency transition failed.
    Residency(String),
    /// Worker creation failed.
    Io(String),
}

/// The mathematical value of a [`DenseStreamError`].
pub enum StreamFailure {
    ZeroDeviceLookahead,
    ZeroHostLookahead,
    ZeroQueueCapacity,
    HostDisabledControls,
    StatePoisoned,
    WorkerDisconnected,
    PrefetchFailed(Seq<char>, Seq<char>),
    Residency(Seq<char>),
    Io(Seq<char>),
}

impl View for DenseStreamError {
    type V = StreamFailure;

    open spec fn view(&self) -> StreamFailure {
        match *self {
            DenseStreamError::ZeroDeviceLookahead => StreamFailure::ZeroDeviceLookahead,
            DenseStreamError::ZeroHostLookahead => StreamFailure::ZeroHostLookahead,
            DenseStreamError::ZeroQueueCapacity => StreamFailure::ZeroQueueCapacity,
            DenseStreamError::HostDisabledControls => StreamFailure::HostDisabledControls,
            DenseStreamError::StatePoisoned => StreamFailure::StatePoisoned,
            DenseStreamError::WorkerDisconnected => StreamFailure::WorkerDisconnected,
            DenseStreamError::PrefetchFailed { id, message } => StreamFailure::PrefetchFailed(
                id@,
                message@,
            ),
            DenseStreamError::Residency(text) => StreamFailure::Residency(text@),
            DenseStreamError::Io(text) => StreamFailure::Io(text@),
        }
    }
}

/// The failure of a fallible operation, or nothing when it succeeded.
pub open spec fn broken<T>(outcome: Result<T, DenseStreamError>) -> Option<StreamFailure> {
    match outcome {
        Ok(_) => None,
        Err(error) => Some(error@),
    }
}

/// What a failure says.
pub open spec fn stream_message(failure: StreamFailure) -> Seq<char> {
    match failure {
        StreamFailure::ZeroDeviceLookahead =>
            "dense disk streaming device lookahead must be nonzero"@,
        StreamFailure::ZeroHostLookahead =>
            "dense disk streaming host lookahead must be nonzero when the host budget is enabled"@,
        StreamFailure::ZeroQueueCapacity =>
            "dense disk streaming background queue capacity must be nonzero when host caching is enabled"@,
        StreamFailure::HostDisabledControls =>
            "dense disk streaming with a zero host budget requires zero host lookahead and queue capacity"@,
        StreamFailure::StatePoisoned => "dense disk streaming worker state is poisoned"@,
        StreamFailure::WorkerDisconnected => "dense disk streaming worker disconnected"@,
        StreamFailure::PrefetchFailed(id, message) => "background materialization of "@ + id
            + " failed: "@ + message,
        StreamFailure::Residency(text) => text,
        StreamFailure::Io(text) => text,
    }
}

impl DenseStreamError {
    /// Returns what the failure says.
    pub fn message(&self) -> (message: String)
        ensures
            message@ == stream_message(self@),
    {
        match self {
            DenseStreamError::ZeroDeviceLookahead =>
                "dense disk streaming device lookahead must be nonzero".to_owned(),
            DenseStreamError::ZeroHostLookahead =>
                "dense disk streaming host lookahead must be nonzero when the host budget is enabled".to_owned(),
            DenseStreamError::ZeroQueueCapacity =>
                "dense disk streaming background queue capacity must be nonzero when host caching is enabled".to_owned(),
            DenseStreamError::HostDisabledControls =>
                "dense disk streaming with a zero host budget requires zero host lookahead and queue capacity".to_owned(),
            DenseStreamError::StatePoisoned =>
                "dense disk streaming worker state is poisoned".to_owned(),
            DenseStreamError::WorkerDisconnected =>
                "dense disk streaming worker disconnected".to_owned(),
            DenseStreamError::PrefetchFailed { id, message: original } => {
                let mut text = "background materialization of ".to_owned();
                text.append(id.as_str());
                text.append(" failed: ");
                text.append(original.as_str());
                text
            },
            DenseStreamError::Residency(text) => text.clone(),
            DenseStreamError::Io(text) => text.clone(),
        }
    }
}

/// Why controls are refused, if they are.
pub open spec fn controls_failure(options: DenseDiskStreamLoadOptions) -> Option<StreamFailure> {
    if options.device_lookahead == 0 {
        Some(StreamFailure::ZeroDeviceLookahead)
    } else if options.host_budget_bytes == 0 {
        if options.host_lookahead != 0 || options.background_queue_capacity != 0 {
            Some(StreamFailure::HostDisabledControls)
        } else {
            None
        }
    } else if options.host_lookahead == 0 {
        Some(StreamFailure::ZeroHostLookahead)
    } else if options.background_queue_capacity == 0 {
        Some(StreamFailure::ZeroQueueCapacity)
    } else {
        None
    }
}

/// Strict controls with these limits.
pub open spec fn strict_controls(
    device_budget_bytes: u64,
    host_budget_bytes: u64,
    host_lookahead: usize,
    device_lookahead: usize,
    background_queue_capacity: usize,
) -> DenseDiskStreamLoadOptions {
    DenseDiskStreamLoadOptions {
        device_budget_bytes,
        host_budget_bytes,
        host_lookahead,
        device_lookahead,
        background_queue_capacity,
        eviction_policy: CacheEvictionPolicy::LeastRecentlyUsed,
        max_mapped_shards: None,
        strict_loading: true,
        sample_mlx_memory: false,
        sample_process_memory: false,
    }
}

impl DenseDiskStreamLoadOptions {
    /// Creates strict streaming options with finite tier budgets.
    pub fn new(
        device_budget_bytes: u64,
        host_budget_bytes: u64,
        host_lookahead: usize,
        device_lookahead: usize,
        background_queue_capacity: usize,
    ) -> (outcome: Result<Self, DenseStreamError>)
        ensures
            ({
                let controls = strict_controls(
                    device_budget_bytes,
                    host_budget_bytes,
                    host_lookahead,
                    device_lookahead,
                    background_queue_capacity,
                );
                &&& broken(outcome) == controls_failure(controls)
                &&& outcome matches Ok(options) ==> options == controls
            }),
    {
        let options = DenseDiskStreamLoadOptions {
            device_budget_bytes,
            host_budget_bytes,
            host_lookahead,
            device_lookahead,
            background_queue_capacity,
            eviction_policy: CacheEvictionPolicy::LeastRecentlyUsed,
            max_mapped_shards: None,
            strict_loading: true,
            sample_mlx_memory: false,
            sample_process_memory: false,
        };
        match options.validate() {
            Ok(_) => Ok(options),
            Err(error) => Err(error),
        }
    }

    /// Revalidates public fields after caller customization.
    pub fn validate(self) -> (outcome: Result<(), DenseStreamError>)
        ensures
            broken(outcome) == controls_failure(self),
    {
        if self.device_lookahead == 0 {
            return Err(DenseStreamError::ZeroDeviceLookahead);
        }
        if self.host_budget_bytes == 0 {
            if self.host_lookahead != 0 || self.background_queue_capacity != 0 {
                return Err(DenseStreamError::HostDisabledControls);
            }
        } else {
            if self.host_lookahead == 0 {
                return Err(DenseStreamError::ZeroHostLookahead);
            }
            if self.background_queue_capacity == 0 {
                return Err(DenseStreamError::ZeroQueueCapacity);
            }
        }
        Ok(())
    }

    /// Selects deterministic cache eviction.
    pub fn with_eviction_policy(self, policy: CacheEvictionPolicy) -> (options: Self)
        ensures
            options == (DenseDiskStreamLoadOptions { eviction_policy: policy, ..self }),
    {
        DenseDiskStreamLoadOptions { eviction_policy: policy, ..self }
    }
}

impl Default for DenseDiskStreamLoadOptions {
    fn default() -> (options: Self)
        ensures
            options == strict_controls(4294967296, 17179869184, 2, 1, 2),
            controls_failure(options) is None,
    {
        DenseDiskStreamLoadOptions {
            device_budget_bytes: 4294967296,
            host_budget_bytes: 17179869184,
            host_lookahead: 2,
            device_lookahead: 1,
            background_queue_capacity: 2,
            eviction_policy: CacheEvictionPolicy::LeastRecentlyUsed,
            max_mapped_shards: None,
            strict_loading: true,
            sample_mlx_memory: false,
            sample_process_memory: false,
        }
    }
}

/// Immutable background-prefetch observations. Times are in nanoseconds.
#[derive(Debug, Clone, Copy, Eq, PartialEq, Structural)]
pub struct BackgroundPrefetchReport {
    /// Requests accepted for background execution.
    pub submitted: u64,
    /// Duplicate queued or active requests folded into existing work.
    pub coalesced: u64,
    /// Requests begun by the worker.
    pub started: u64,
    /// Requests completed successfully.
    pub completed: u64,
    /// Stale requests skipped before publication.
    pub cancelled: u64,
    /// Requests that returned an error.
    pub failed: u64,
    /// Configured bounded queue capacity.
    pub queue_capacity: usize,
    /// Largest observed number of queued requests.
    pub peak_queue_occupancy: usize,
    /// Submissions that waited for bounded queue capacity.
    pub backpressure_count: u64,
    /// Time spent waiting for bounded queue capacity.
    pub backpressure_duration: u128,
    /// Demand acquisitions that waited for queued or active work.
    pub demand_waits: u64,
    /// Time spent waiting for demanded background work.
    pub demand_wait_duration: u128,
    /// Prefetches found resident before demand.
    pub ready_before_demand: u64,
    /// Prefetches still active when demanded.
    pub in_flight_at_demand: u64,
    /// Completed prefetched copies evicted before their first demand.
    pub evicted_before_use: u64,
}

impl BackgroundPrefetchReport {
    /// Nothing observed yet.
    pub open spec fn zero() -> Self {
        BackgroundPrefetchReport {
            submitted: 0,
            coalesced: 0,
            started: 0,
            completed: 0,
            cancelled: 0,
            failed: 0,
            queue_capacity: 0,
            peak_queue_occupancy: 0,
            backpressure_count: 0,
            backpressure_duration: 0,
            demand_waits: 0,
            demand_wait_duration: 0,
            ready_before_demand: 0,
            in_flight_at_demand: 0,
            evicted_before_use: 0,
        }
    }
}

impl Default for BackgroundPrefetchReport {
    fn default() -> (report: Self)
        ensures
            report == BackgroundPrefetchReport::zero(),
    {
        BackgroundPrefetchReport {
            submitted: 0,
            coalesced: 0,
            started: 0,
            completed: 0,
            cancelled: 0,
            failed: 0,
            queue_capacity: 0,
            peak_queue_occupancy: 0,
            backpressure_count: 0,
            backpressure_duration: 0,
            demand_waits: 0,
            demand_wait_duration: 0,
            ready_before_demand: 0,
            in_flight_at_demand: 0,
            evicted_before_use: 0,
        }
    }
}

/// State that the caller and the disk-to-host worker share.
#[derive(Debug)]
pub struct BackgroundLayerPrefetch {
    generation: u64,
    queued: UnitSet,
    in_flight: UnitSet,
    completed: UnitSet,
    failures: UnitNotes,
    report: BackgroundPrefetchReport,
}

/// The mathematical value of a [`BackgroundLayerPrefetch`].
pub struct Prefetch {
    /// Requests of earlier generations are stale.
    pub generation: u64,
    /// Units that wait for the worker.
    pub queued: Set<Seq<char>>,
    /// Units that the worker fetches.
    pub in_flight: Set<Seq<char>>,
    /// Units fetched and not yet demanded.
    pub completed: Set<Seq<char>>,
    /// Units whose fetch failed, with the reason.
    pub failures: Map<Seq<char>, Seq<char>>,
    /// Observations.
    pub report: BackgroundPrefetchReport,
}

impl View for BackgroundLayerPrefetch {
    type V = Prefetch;

    closed spec fn view(&self) -> Prefetch {
        Prefetch {
            generation: self.generation,
            queued: self.queued@,
            in_flight: self.in_flight@,
            completed: self.completed@,
            failures: self.failures@,
            report: self.report,
        }
    }
}

/// What a submission leads to.
#[derive(Debug, Clone, Copy, PartialEq, Eq, Structural)]
pub enum Submission {
    /// The unit is already there or on its way.
    Coalesced,
    /// The worker gets a request of this generation.
    Send {
        /// Generation of the request.
        generation: u64,
    },
}

impl Prefetch {
    /// Whether a unit waits for the worker or is being fetched.
    pub open spec fn pending(self, id: Seq<char>) -> bool {
        self.queued.contains(id) || self.in_flight.contains(id)
    }

    /// Whether no unit waits or is being fetched.
    pub open spec fn idle(self) -> bool {
        self.queued.len() == 0 && self.in_flight.len() == 0
    }

    /// The state before any request.
    pub open spec fn fresh(capacity: usize) -> Prefetch {
        Prefetch {
            generation: 0,
            queued: Set::empty(),
            in_flight: Set::empty(),
            completed: Set::empty(),
            failures: Map::empty(),
            report: BackgroundPrefetchReport {
                queue_capacity: capacity,
                ..BackgroundPrefetchReport::zero()
            },
        }
    }

    /// The state after a submission.
    pub open spec fn submitted(self, id: Seq<char>, resident: bool) -> Prefetch {
        if self.pending(id) {
            Prefetch {
                report: BackgroundPrefetchReport {
                    coalesced: crate::duration::raised(self.report.coalesced, 1),
                    ..self.report
                },
                ..self
            }
        } else if resident {
            Prefetch {
                completed: self.completed.insert(id),
                report: BackgroundPrefetchReport {
                    coalesced: crate::duration::raised(self.report.coalesced, 1),
                    ..self.report
                },
                ..self
            }
        } else {
            let queued = self.queued.insert(id);
            let waiting = if queued.len() < self.report.queue_capacity {
                queued.len() as usize
            } else {
                self.report.queue_capacity
            };
            Prefetch {
                queued,
                completed: self.completed.remove(id),
                report: BackgroundPrefetchReport {
                    submitted: crate::duration::raised(self.report.submitted, 1),
                    evicted_before_use: if self.completed.contains(id) {
                        crate::duration::raised(self.report.evicted_before_use, 1)
                    } else {
                        self.report.evicted_before_use
                    },
                    peak_queue_occupancy: if waiting > self.report.peak_queue_occupancy {
                        waiting
                    } else {
                        self.report.peak_queue_occupancy
                    },
                    ..self.report
                },
                ..self
            }
        }
    }

    /// What a submission leads to.
    pub open spec fn submission(self, id: Seq<char>, resident: bool) -> Submission {
        if self.pending(id) || resident {
            Submission::Coalesced
        } else {
            Submission::Send { generation: self.generation }
        }
    }

    /// The state after a submission waited for room in the queue.
    pub open spec fn held_back(self, waited: u128) -> Prefetch {
        Prefetch {
            report: BackgroundPrefetchReport {
                backpressure_count: crate::duration::raised(self.report.backpressure_count, 1),
                backpressure_duration: crate::duration::combined(
                    self.report.backpressure_duration,
                    waited,
                ),
                ..self.report
            },
            ..self
        }
    }

    /// The state after a unit was demanded.
    pub open spec fn demanded(self, id: Seq<char>) -> Prefetch {
        if self.in_flight.contains(id) {
            Prefetch {
                report: BackgroundPrefetchReport {
                    in_flight_at_demand: crate::duration::raised(
                        self.report.in_flight_at_demand,
                        1,
                    ),
                    ..self.report
                },
                ..self
            }
        } else {
            self
        }
    }

    /// The state after a demanded unit is no longer pending.
    pub open spec fn served(self, id: Seq<char>, waited: Option<u128>) -> Prefetch {
        if self.failures.contains_key(id) {
            Prefetch { failures: self.failures.remove(id), ..self }
        } else {
            Prefetch {
                failures: self.failures.remove(id),
                completed: self.completed.remove(id),
                report: BackgroundPrefetchReport {
                    ready_before_demand: if waited is None && self.completed.contains(id) {
                        crate::duration::raised(self.report.ready_before_demand, 1)
                    } else {
                        self.report.ready_before_demand
                    },
                    demand_waits: if waited is Some {
                        crate::duration::raised(self.report.demand_waits, 1)
                    } else {
                        self.report.demand_waits
                    },
                    demand_wait_duration: match waited {
                        Some(waited) => crate::duration::combined(
                            self.report.demand_wait_duration,
                            waited,
                        ),
                        None => self.report.demand_wait_duration,
                    },
                    ..self.report
                },
                ..self
            }
        }
    }

    /// The state after all requests became stale.
    pub open spec fn outdated(self) -> Prefetch {
        Prefetch {
            generation: if self.generation == u64::MAX {
                0
            } else {
                (self.generation + 1) as u64
            },
            report: BackgroundPrefetchReport {
                cancelled: crate::duration::raised(
                    self.report.cancelled,
                    self.queued.len() as int,
                ),
                ..self.report
            },
            ..self
        }
    }

    /// The state after stale requests have drained.
    pub open spec fn drained(self) -> Prefetch {
        Prefetch { completed: Set::empty(), failures: Map::empty(), ..self }
    }

    /// The state after the worker took a request.
    pub open spec fn taken(self, generation: u64, id: Seq<char>) -> Prefetch {
        if generation != self.generation {
            Prefetch { queued: self.queued.remove(id), ..self }
        } else {
            Prefetch {
                queued: self.queued.remove(id),
                in_flight: self.in_flight.insert(id),
                report: BackgroundPrefetchReport {
                    started: crate::duration::raised(self.report.started, 1),
                    ..self.report
                },
                ..self
            }
        }
    }

    /// The state after the worker fetched a unit, or failed to.
    pub open spec fn fetched(
        self,
        generation: u64,
        id: Seq<char>,
        failure: Option<Seq<char>>,
    ) -> Prefetch {
        let in_flight = self.in_flight.remove(id);
        if generation != self.generation {
            Prefetch {
                in_flight,
                report: BackgroundPrefetchReport {
                    cancelled: crate::duration::raised(self.report.cancelled, 1),
                    ..self.report
                },
                ..self
            }
        } else {
            match failure {
                None => Prefetch {
                    in_flight,
                    completed: self.completed.insert(id),
                    report: BackgroundPrefetchReport {
                        completed: crate::duration::raised(self.report.completed, 1),
                        ..self.report
                    },
                    ..self
                },
                Some(message) => Prefetch {
                    in_flight,
                    failures: self.failures.insert(id, message),
                    report: BackgroundPrefetchReport {
                        failed: crate::duration::raised(self.report.failed, 1),
                        ..self.report
                    },
                    ..self
                },
            }
        }
    }
}

impl BackgroundLayerPrefetch {
    /// Creates the shared state of a worker whose queue holds so many requests.
    pub fn new(capacity: usize) -> (outcome: Result<Self, DenseStreamError>)
        ensures
            broken(outcome) == (if capacity == 0 {
                Some(StreamFailure::ZeroQueueCapacity)
            } else {
                None
            }),
            outcome matches Ok(prefetch) ==> prefetch@ == Prefetch::fresh(capacity),
    {
        if capacity == 0 {
            return Err(DenseStreamError::ZeroQueueCapacity);
        }
        let mut report = BackgroundPrefetchReport::default();
        report.queue_capacity = capacity;
        Ok(
            BackgroundLayerPrefetch {
                generation: 0,
                queued: UnitSet::new(),
                in_flight: UnitSet::new(),
                completed: UnitSet::new(),
                failures: UnitNotes::new(),
                report,
            },
        )
    }

    /// Submits a unit for background fetching. `resident` says whether host memory holds
    /// it already.
    pub fn submit(&mut self, id: &OffloadUnitId, resident: bool) -> (submission: Submission)
        ensures
            submission == old(self)@.submission(id@, resident),
            final(self)@ == old(self)@.submitted(id@, resident),
    {
        if self.queued.contains(id) || self.in_flight.contains(id) {
            self.report.coalesced = self.report.coalesced.saturating_add(1);
            return Submission::Coalesced;
        }
        if resident {
            self.completed.insert(id);
            self.report.coalesced = self.report.coalesced.saturating_add(1);
            return Submission::Coalesced;
        }
        if self.completed.remove(id) {
            self.report.evicted_before_use = self.report.evicted_before_use.saturating_add(1);
        }
        self.queued.insert(id);
        self.report.submitted = self.report.submitted.saturating_add(1);
        let queued: usize = self.queued.len();
        let waiting: usize = if queued < self.report.queue_capacity {
            queued
        } else {
            self.report.queue_capacity
        };
        if waiting > self.report.peak_queue_occupancy {
            self.report.peak_queue_occupancy = waiting;
        }
        Submission::Send { generation: self.generation }
    }

    /// Records that a submission waited for room in the queue.
    pub fn record_backpressure(&mut self, waited: u128)
        ensures
            final(self)@ == old(self)@.held_back(waited),
    {
        self.report.backpressure_count = self.report.backpressure_count.saturating_add(1);
        self.report.backpressure_duration = combine(self.report.backpressure_duration, waited);
    }

    /// Starts demanding a unit, and answers whether the caller has to wait for it.
    pub fn begin_acquire(&mut self, id: &OffloadUnitId) -> (waits: bool)
        ensures
            waits == old(self)@.pending(id@),
            final(self)@ == old(self)@.demanded(id@),
    {
        let active = self.in_flight.contains(id);
        if active {
            self.report.in_flight_at_demand = self.report.in_flight_at_demand.saturating_add(1);
        }
        active || self.queued.contains(id)
    }

    /// Answers whether a unit is still pending.
    pub fn is_pending(&self, id: &OffloadUnitId) -> (pending: bool)
        ensures
            pending == self@.pending(id@),
    {
        self.queued.contains(id) || self.in_flight.contains(id)
    }

    /// Finishes demanding a unit that is no longer pending. `waited` is how long the
    /// caller has waited, if it has.
    pub fn finish_acquire(&mut self, id: &OffloadUnitId, waited: Option<u128>) -> (outcome: Result<
        (),
        DenseStreamError,
    >)
        ensures
            broken(outcome) == (if old(self)@.failures.contains_key(id@) {
                Some(StreamFailure::PrefetchFailed(id@, old(self)@.failures[id@]))
            } else {
                None
            }),
            final(self)@ == old(self)@.served(id@, waited),
    {
        match self.failures.remove(id) {
            Some(message) => {
                return Err(
                    DenseStreamError::PrefetchFailed { id: crate::units::copy_id(id), message },
                );
            },
            None => {},
        }
        if self.completed.remove(id) && waited.is_none() {
            self.report.ready_before_demand = self.report.ready_before_demand.saturating_add(1);
        }
        match waited {
            Some(waited) => {
                self.report.demand_waits = self.report.demand_waits.saturating_add(1);
                self.report.demand_wait_duration = combine(
                    self.report.demand_wait_duration,
                    waited,
                );
            },
            None => {},
        }
        Ok(())
    }

    /// Starts cancelling: every request made so far becomes stale.
    pub fn begin_cancel(&mut self)
        ensures
            final(self)@ == old(self)@.outdated(),
    {
        self.generation = self.generation.wrapping_add(1);
        let cancelled: u64 = self.queued.len() as u64;
        self.report.cancelled = self.report.cancelled.saturating_add(cancelled);
    }

    /// Answers whether the worker has nothing queued or active.
    pub fn is_idle(&self) -> (idle: bool)
        ensures
            idle == self@.idle(),
    {
        self.queued.len() == 0 && self.in_flight.len() == 0
    }

    /// Finishes cancelling once the worker is idle: forgets what was fetched, and returns
    /// the first failure in dictionary order of the units, if there was one.
    pub fn finish_cancel(&mut self) -> (outcome: Result<(), DenseStreamError>)
        ensures
            final(self)@ == old(self)@.drained(),
            match outcome {
                Ok(_) => old(self)@.failures.dom() == Set::<Seq<char>>::empty(),
                Err(error) => error@ matches StreamFailure::PrefetchFailed(id, message)
                    && crate::units::is_least(old(self)@.failures.dom(), id)
                    && old(self)@.failures[id] == message,
            },
    {
        let failure = self.failures.first();
        self.completed = UnitSet::new();
        self.failures = UnitNotes::new();
        match failure {
            Some((id, message)) => Err(DenseStreamError::PrefetchFailed { id, message }),
            None => Ok(()),
        }
    }

    /// The worker takes a request from the queue; answers whether it fetches the unit. A
    /// stale request is dropped.
    pub fn take_request(&mut self, generation: u64, id: &OffloadUnitId) -> (fetches: bool)
        ensures
            fetches == (generation == old(self)@.generation),
            final(self)@ == old(self)@.taken(generation, id@),
    {
        let _queued = self.queued.remove(id);
        if generation != self.generation {
            return false;
        }
        self.in_flight.insert(id);
        self.report.started = self.report.started.saturating_add(1);
        true
    }

    /// The worker has fetched a unit, or failed to.
    pub fn finish_request(
        &mut self,
        generation: u64,
        id: &OffloadUnitId,
        result: Result<(), String>,
    )
        ensures
            final(self)@ == old(self)@.fetched(
                generation,
                id@,
                match result {
                    Ok(_) => None,
                    Err(message) => Some(message@),
                },
            ),
    {
        let _active = self.in_flight.remove(id);
        if generation != self.generation {
            self.report.cancelled = self.report.cancelled.saturating_add(1);
            return;
        }
        match result {
            Ok(_) => {
                self.completed.insert(id);
                self.report.completed = self.report.completed.saturating_add(1);
            },
            Err(message) => {
                self.failures.insert(id, message);
                self.report.failed = self.report.failed.saturating_add(1);
            },
        }
    }

    /// Returns the observations so far.
    pub fn report(&self) -> (report: BackgroundPrefetchReport)
        ensures
            report == self@.report,
    {
        self.report
    }
}

/// What is reported of a fetch that panicked: the text of the panic, where it has one.
pub fn panic_message(text: Option<String>) -> (message: String)
    ensures
        message@ == (match text {
            Some(text) => text@,
            None => "background materialization panicked"@,
        }),
{
    match text {
        Some(text) => text,
        None => "background materialization panicked".to_owned(),
    }
}

/// Requests that were accepted and have not been settled, less those that still wait or
/// are being fetched.
pub open spec fn balance(state: Prefetch) -> int {
    state.report.submitted - (state.report.completed + state.report.failed
        + state.report.cancelled) - state.queued.len() - state.in_flight.len()
}

/// Whether no counter is about to stop at its largest value.
pub open spec fn counting(state: Prefetch) -> bool {
    &&& state.report.submitted < u64::MAX
    &&& state.report.completed < u64::MAX
    &&& state.report.failed < u64::MAX
    &&& state.report.cancelled + state.queued.len() < u64::MAX
    &&& state.queued.finite()
    &&& state.in_flight.finite()
}

/// A unit that is submitted again while it is pending leads to no second request.
pub proof fn duplicates_coalesce(state: Prefetch, id: Seq<char>, resident: bool)
    ensures
        ({
            let first = state.submitted(id, false);
            &&& first.submission(id, resident) == Submission::Coalesced
            &&& first.submitted(id, resident).queued == first.queued
            &&& first.submitted(id, resident).report.submitted == first.report.submitted
        }),
{
}

/// Every accepted request is settled exactly once: submitting, taking and finishing keep
/// the books balanced.
pub proof fn requests_settle_once(
    state: Prefetch,
    id: Seq<char>,
    resident: bool,
    failure: Option<Seq<char>>,
    generation: u64,
)
    requires
        counting(state),
    ensures
        balance(state.submitted(id, resident)) == balance(state),
        state.queued.contains(id) && !state.in_flight.contains(id) && generation
            == state.generation ==> balance(state.taken(generation, id)) == balance(state),
        state.in_flight.contains(id) ==> balance(state.fetched(generation, id, failure))
            == balance(state),
        balance(state.demanded(id)) == balance(state),
        balance(state.served(id, None)) == balance(state),
{
}

/// A cancellation settles exactly the requests that wait: it counts them when it starts,
/// and the worker drops each of them without counting it again.
pub proof fn cancellation_settles_what_waits(state: Prefetch, id: Seq<char>)
    requires
        counting(state),
    ensures
        balance(state.outdated()) == balance(state) - state.queued.len(),
        state.outdated().generation != state.generation,
        state.queued.contains(id) ==> {
            let dropped = state.outdated().taken(state.generation, id);
            &&& dropped.queued.len() == state.queued.len() - 1
            &&& balance(dropped) == balance(state.outdated()) + 1
        },
        state.in_flight.contains(id) ==> balance(
            state.outdated().fetched(state.generation, id, None),
        ) == balance(state.outdated()),
{
}

/// After a unit was demanded successfully it neither fails nor counts as ready again.
pub proof fn demand_consumes(state: Prefetch, id: Seq<char>, waited: Option<u128>)
    ensures
        !state.served(id, waited).failures.contains_key(id),
        !state.failures.contains_key(id) ==> !state.served(id, waited).completed.contains(id),
{
}

/// A demand counts as a wait or as a prefetch that was ready before it, never as both.
pub proof fn waits_are_not_ready(state: Prefetch, id: Seq<char>, waited: Option<u128>)
    ensures
        waited is Some ==> state.served(id, waited).report.ready_before_demand
            == state.report.ready_before_demand,
        waited is None ==> state.served(id, waited).report.demand_waits
            == state.report.demand_waits,
{
}

/// Controls are accepted exactly where something is fetched ahead on the device and the
/// host either takes part with room for it or takes no part at all.
pub proof fn accepted_controls_are_consistent(options: DenseDiskStreamLoadOptions)
    ensures
        controls_failure(options) is None <==> {
            &&& options.device_lookahead > 0
            &&& options.host_budget_bytes == 0 ==> options.host_lookahead == 0
                && options.background_queue_capacity == 0
            &&& options.host_budget_bytes > 0 ==> options.host_lookahead > 0
                && options.background_queue_capacity > 0
        },
{
}

/// A unit that is neither pending nor resident goes to the worker, is fetched, and is
/// there when it is demanded: it waits in the queue, then is in flight, then complete,
/// and its use is counted as ready.
pub proof fn submitted_units_become_ready(state: Prefetch, id: Seq<char>)
    requires
        !state.queued.contains(id),
        !state.in_flight.contains(id),
        !state.failures.contains_key(id),
        state.report.ready_before_demand < u64::MAX,
    ensures
        state.submission(id, false) == (Submission::Send { generation: state.generation }),
        ({
            let waiting = state.submitted(id, false);
            let fetching = waiting.taken(state.generation, id);
            let ready = fetching.fetched(state.generation, id, None);
            let used = ready.served(id, None);
            &&& waiting.queued.contains(id)
            &&& !waiting.in_flight.contains(id)
            &&& !waiting.completed.contains(id)
            &&& !fetching.queued.contains(id)
            &&& fetching.in_flight.contains(id)
            &&& !ready.queued.contains(id)
            &&& !ready.in_flight.contains(id)
            &&& ready.completed.contains(id)
            &&& !ready.failures.contains_key(id)
            &&& !used.completed.contains(id)
            &&& used.report.ready_before_demand == state.report.ready_before_demand + 1
            &&& used.report.demand_waits == state.report.demand_waits
        }),
{
}

/// A failed fetch is remembered with its message until it is demanded, and does not make
/// the unit ready.
pub proof fn failures_wait_for_their_demand(state: Prefetch, id: Seq<char>, message: Seq<char>)
    requires
        state.in_flight.contains(id),
        !state.completed.contains(id),
        state.report.failed < u64::MAX,
    ensures
        ({
            let failed = state.fetched(state.generation, id, Some(message));
            let told = failed.served(id, None);
            &&& !failed.in_flight.contains(id)
            &&& !failed.completed.contains(id)
            &&& failed.failures.contains_key(id)
            &&& failed.failures[id] == message
            &&& failed.report.failed == state.report.failed + 1
            &&& failed.report.completed == state.report.completed
            &&& !told.failures.contains_key(id)
            &&& told.report.ready_before_demand == state.report.ready_before_demand
        }),
{
}

/// A resident unit is ready without the worker, and a pending one is left to it.
pub proof fn resident_and_pending_units_are_not_sent(state: Prefetch, id: Seq<char>, resident: bool)
    requires
        resident || state.queued.contains(id) || state.in_flight.contains(id),
        state.report.coalesced < u64::MAX,
    ensures
        state.submission(id, resident) is Coalesced,
        state.submitted(id, resident).queued == state.queued,
        state.submitted(id, resident).in_flight == state.in_flight,
        state.submitted(id, resident).report.coalesced == state.report.coalesced + 1,
        state.submitted(id, resident).report.submitted == state.report.submitted,
        !state.queued.contains(id) && !state.in_flight.contains(id) ==> state.submitted(
            id,
            resident,
        ).completed.contains(id),
{
}

/// What belongs to an earlier generation leads to nothing: a stale request is not
/// fetched, and a stale fetch makes nothing ready and reports no failure.
pub proof fn stale_work_leads_to_nothing(
    state: Prefetch,
    generation: u64,
    id: Seq<char>,
    failure: Option<Seq<char>>,
)
    requires
        generation != state.generation,
    ensures
        !state.taken(generation, id).queued.contains(id),
        state.taken(generation, id).in_flight == state.in_flight,
        state.taken(generation, id).report == state.report,
        !state.fetched(generation, id, failure).in_flight.contains(id),
        state.fetched(generation, id, failure).completed == state.completed,
        state.fetched(generation, id, failure).failures == state.failures,
        state.fetched(generation, id, failure).report.completed == state.report.completed,
        state.fetched(generation, id, failure).report.failed == state.report.failed,
{
}

/// Work on one unit leaves every other unit as it was.
pub proof fn units_are_independent(
    state: Prefetch,
    id: Seq<char>,
    other: Seq<char>,
    resident: bool,
    generation: u64,
    failure: Option<Seq<char>>,
    waited: Option<u128>,
)
    requires
        other != id,
    ensures
        forall|after: Prefetch|
            #![trigger after.queued.contains(other)]
            (after == state.submitted(id, resident) || after == state.taken(generation, id) || after
                == state.fetched(generation, id, failure) || after == state.demanded(id) || after
                == state.served(id, waited)) ==> {
                &&& after.queued.contains(other) == state.queued.contains(other)
                &&& after.in_flight.contains(other) == state.in_flight.contains(other)
                &&& after.completed.contains(other) == state.completed.contains(other)
                &&& after.failures.contains_key(other) == state.failures.contains_key(other)
                &&& state.failures.contains_key(other) ==> after.failures[other]
                    == state.failures[other]
                &&& after.generation == state.generation
            },
{
}

/// The peak of the queue never falls and never exceeds its capacity, and reaches what
/// waits as far as there is room.
pub proof fn queue_peaks_stay_within_capacity(state: Prefetch, id: Seq<char>, resident: bool)
    requires
        state.queued.finite(),
        state.report.peak_queue_occupancy <= state.report.queue_capacity,
    ensures
        ({
            let after = state.submitted(id, resident);
            &&& after.report.peak_queue_occupancy >= state.report.peak_queue_occupancy
            &&& after.report.peak_queue_occupancy <= after.report.queue_capacity
            &&& after.report.queue_capacity == state.report.queue_capacity
            &&& state.submission(id, resident) is Send ==> after.report.peak_queue_occupancy
                >= after.queued.len() || after.report.peak_queue_occupancy
                == after.report.queue_capacity
        }),
{
}

/// A unit that was ready and has to be fetched again was evicted before its use, and is
/// counted so; nothing else is.
pub proof fn refetched_units_were_evicted(state: Prefetch, id: Seq<char>, resident: bool)
    requires
        state.report.evicted_before_use < u64::MAX,
    ensures
        state.submitted(id, resident).report.evicted_before_use - state.report.evicted_before_use
            == if state.submission(id, resident) is Send && state.completed.contains(id) {
            1int
        } else {
            0int
        },
{
}

/// Waiting is measured where it happens: a full queue holds a submission back, a demand
/// finds a unit in flight or not, and a demand that waited is counted with its time.
pub proof fn waiting_is_measured(state: Prefetch, id: Seq<char>, waited: u128)
    requires
        state.report.backpressure_count < u64::MAX,
        state.report.in_flight_at_demand < u64::MAX,
        state.report.demand_waits < u64::MAX,
        state.report.backpressure_duration + waited <= crate::duration::LONGEST_DURATION,
        state.report.demand_wait_duration + waited <= crate::duration::LONGEST_DURATION,
    ensures
        state.held_back(waited).report.backpressure_count == state.report.backpressure_count + 1,
        state.held_back(waited).report.backpressure_duration == state.report.backpressure_duration
            + waited,
        state.in_flight.contains(id) ==> state.demanded(id).report.in_flight_at_demand
            == state.report.in_flight_at_demand + 1,
        !state.in_flight.contains(id) ==> state.demanded(id) == state,
        !state.failures.contains_key(id) ==> {
            let after = state.served(id, Some(waited));
            &&& after.report.demand_waits == state.report.demand_waits + 1
            &&& after.report.demand_wait_duration == state.report.demand_wait_duration + waited
            &&& after.report.ready_before_demand == state.report.ready_before_demand
        },
{
}

/// After a cancellation has drained nothing is ready and no failure is told.
pub proof fn drained_states_remember_nothing(state: Prefetch, id: Seq<char>)
    ensures
        !state.drained().completed.contains(id),
        !state.drained().failures.contains_key(id),
        state.drained().queued == state.queued,
        state.drained().in_flight == state.in_flight,
        state.drained().report == state.report,
        state.drained().generation == state.generation,
{
}

/// Controls have the limits that they were made with, load strictly and evict what was
/// used least recently.
pub proof fn controls_have_their_limits(
    device_budget_bytes: u64,
    host_budget_bytes: u64,
    host_lookahead: usize,
    device_lookahead: usize,
    background_queue_capacity: usize,
)
    ensures
        ({
            let controls = strict_controls(
                device_budget_bytes,
                host_budget_bytes,
                host_lookahead,
                device_lookahead,
                background_queue_capacity,
            );
            &&& controls.device_budget_bytes == device_budget_bytes
            &&& controls.host_budget_bytes == host_budget_bytes
            &&& controls.host_lookahead == host_lookahead
            &&& controls.device_lookahead == device_lookahead
            &&& controls.background_queue_capacity == background_queue_capacity
            &&& controls.eviction_policy is LeastRecentlyUsed
            &&& controls.max_mapped_shards is None
            &&& controls.strict_loading
            &&& !controls.sample_mlx_memory
            &&& !controls.sample_process_memory
        }),
{
}

} // verus!
