//! Structured cache residency and persistence failures.

use vstd::prelude::*;

use crate::cache_residency::block::{CacheBlockId, CacheTier};

verus! {

/// Structured cache residency and persistence failures.
#[derive(Debug)]
pub enum CacheResidencyError {
    /// Paged options were contradictory or unbounded.
    InvalidOptions(String),
    /// A sealed block used an invalid absolute token range.
    InvalidTokenRange {
        /// Inclusive absolute token position.
        start: i64,
        /// Exclusive absolute token position.
        end: i64,
    },
    /// Both arrays in a block did not describe the same token range.
    ArrayMismatch(String),
    /// A stable block identity was published more than once.
    DuplicateBlock(CacheBlockId),
    /// A requested block was not cataloged.
    MissingBlock(CacheBlockId),
    /// A disk-backed block had no safe location.
    MissingDiskLocation(CacheBlockId),
    /// A host or device block had no evaluated arrays.
    MissingResidentArrays(CacheBlockId),
    /// Active attention prevented mutation or eviction.
    BlockLeased(CacheBlockId),
    /// A finite tier budget could not admit required state.
    BudgetExceeded {
        /// Tier that could not admit required state.
        tier: CacheTier,
        /// Logical bytes required by the operation.
        required: u64,
        /// Configured finite tier budget.
        budget: u64,
    },
    /// Full-context history exceeded host memory without explicit disk backing.
    LiveDiskRequired {
        /// Logical host bytes required by retained history.
        required: u64,
        /// Configured finite host budget.
        budget: u64,
    },
    /// The manager lock was poisoned by a panic.
    ManagerPoisoned,
    /// A queued or in-flight disk operation belonged to an invalidated generation.
    DiskOperationCancelled {
        /// Generation invalidated by reset or truncation.
        generation: u64,
    },
    /// Array evaluation or array I/O failed.
    Runtime(String),
    /// A filesystem operation failed.
    Io {
        /// Filesystem action that failed.
        action: String,
        /// Path involved in the failed action.
        path: String,
        /// Underlying filesystem failure.
        source: String,
    },
    /// A manifest could not be encoded or decoded.
    ManifestJson(String),
    /// A manifest did not satisfy structural invariants.
    MalformedManifest(String),
    /// The manifest schema is not supported by this runtime.
    UnsupportedSchema(u32),
    /// A shard path could escape the prompt-cache directory.
    UnsafeShardPath(String),
    /// A manifest referenced a missing shard.
    MissingShard(String),
    /// A safetensors block had missing, extra, or corrupt arrays.
    MalformedShard {
        /// Invalid shard path.
        path: String,
        /// Structural or data validation failure.
        reason: String,
    },
    /// The supplied model or topology differs from the producer.
    IncompatiblePromptCache(String),
    /// Caller-provided prefix ids did not match the persisted prefix.
    PrefixIdentityMismatch,
    /// The target path cannot be published atomically.
    InvalidPromptCachePath(String),
    /// The destination exists and explicit replacement was not requested.
    PromptCacheExists(String),
}

/// The mathematical value of a [`CacheResidencyError`]: the same variants with
/// every string taken by its characters.
pub enum CacheFailure {
    InvalidOptions(Seq<char>),
    InvalidTokenRange(i64, i64),
    ArrayMismatch(Seq<char>),
    DuplicateBlock(CacheBlockId),
    MissingBlock(CacheBlockId),
    MissingDiskLocation(CacheBlockId),
    MissingResidentArrays(CacheBlockId),
    BlockLeased(CacheBlockId),
    BudgetExceeded(CacheTier, u64, u64),
    LiveDiskRequired(u64, u64),
    ManagerPoisoned,
    DiskOperationCancelled(u64),
    Runtime(Seq<char>),
    Io(Seq<char>, Seq<char>, Seq<char>),
    ManifestJson(Seq<char>),
    MalformedManifest(Seq<char>),
    UnsupportedSchema(u32),
    UnsafeShardPath(Seq<char>),
    MissingShard(Seq<char>),
    MalformedShard(Seq<char>, Seq<char>),
    IncompatiblePromptCache(Seq<char>),
    PrefixIdentityMismatch,
    InvalidPromptCachePath(Seq<char>),
    PromptCacheExists(Seq<char>),
}

impl View for CacheResidencyError {
    type V = CacheFailure;

    open spec fn view(&self) -> CacheFailure {
        match *self {
            CacheResidencyError::InvalidOptions(text) => CacheFailure::InvalidOptions(text@),
            CacheResidencyError::InvalidTokenRange { start, end } => CacheFailure::InvalidTokenRange(
                start,
                end,
            ),
            CacheResidencyError::ArrayMismatch(text) => CacheFailure::ArrayMismatch(text@),
            CacheResidencyError::DuplicateBlock(id) => CacheFailure::DuplicateBlock(id),
            CacheResidencyError::MissingBlock(id) => CacheFailure::MissingBlock(id),
            CacheResidencyError::MissingDiskLocation(id) => CacheFailure::MissingDiskLocation(id),
            CacheResidencyError::MissingResidentArrays(id) => CacheFailure::MissingResidentArrays(
                id,
            ),
            CacheResidencyError::BlockLeased(id) => CacheFailure::BlockLeased(id),
            CacheResidencyError::BudgetExceeded { tier, required, budget } =>
                CacheFailure::BudgetExceeded(tier, required, budget),
            CacheResidencyError::LiveDiskRequired { required, budget } =>
                CacheFailure::LiveDiskRequired(required, budget),
            CacheResidencyError::ManagerPoisoned => CacheFailure::ManagerPoisoned,
            CacheResidencyError::DiskOperationCancelled { generation } =>
                CacheFailure::DiskOperationCancelled(generation),
            CacheResidencyError::Runtime(text) => CacheFailure::Runtime(text@),
            CacheResidencyError::Io { action, path, source } => CacheFailure::Io(
                action@,
                path@,
                source@,
            ),
            CacheResidencyError::ManifestJson(text) => CacheFailure::ManifestJson(text@),
            CacheResidencyError::MalformedManifest(text) => CacheFailure::MalformedManifest(text@),
            CacheResidencyError::UnsupportedSchema(version) => CacheFailure::UnsupportedSchema(
                version,
            ),
            CacheResidencyError::UnsafeShardPath(text) => CacheFailure::UnsafeShardPath(text@),
            CacheResidencyError::MissingShard(text) => CacheFailure::MissingShard(text@),
            CacheResidencyError::MalformedShard { path, reason } => CacheFailure::MalformedShard(
                path@,
                reason@,
            ),
            CacheResidencyError::IncompatiblePromptCache(text) =>
                CacheFailure::IncompatiblePromptCache(text@),
            CacheResidencyError::PrefixIdentityMismatch => CacheFailure::PrefixIdentityMismatch,
            CacheResidencyError::InvalidPromptCachePath(text) =>
                CacheFailure::InvalidPromptCachePath(text@),
            CacheResidencyError::PromptCacheExists(text) => CacheFailure::PromptCacheExists(text@),
        }
    }
}

/// The failure of a fallible operation, or nothing when it succeeded.
pub open spec fn failure_of<T>(outcome: Result<T, CacheResidencyError>) -> Option<CacheFailure> {
    match outcome {
        Ok(_) => None,
        Err(error) => Some(error@),
    }
}

/// The first failure, or the second where there is no first.
pub open spec fn or_else(first: Option<CacheFailure>, second: Option<CacheFailure>) -> Option<
    CacheFailure,
> {
    if first is Some {
        first
    } else {
        second
    }
}

} // verus!
