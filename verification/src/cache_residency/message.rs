//! What cache residency failures say.

use vstd::prelude::*;
use vstd::string::StringExecFns;

use crate::cache_residency::block::{
    CacheBlockId, CacheRankIdentity, CacheRepresentation, CacheTier,
};
use crate::cache_residency::error::{CacheFailure, CacheResidencyError};
use crate::text::{debug_text, decimal_text, signed_text, usize_text};

verus! {

/// An optional number as messages show it.
pub open spec fn optional_number(value: Option<usize>) -> Seq<char> {
    match value {
        Some(value) => "Some("@ + crate::text::decimal(value as nat) + ")"@,
        None => "None"@,
    }
}

/// A rank identity as messages show it.
pub open spec fn rank_label(rank: Option<CacheRankIdentity>) -> Seq<char> {
    match rank {
        Some(rank) => "Some(CacheRankIdentity { pipeline_rank: "@ + optional_number(
            rank.pipeline_rank,
        ) + ", tensor_parallel_rank: "@ + optional_number(rank.tensor_parallel_rank)
            + ", expert_parallel_rank: "@ + optional_number(rank.expert_parallel_rank) + " })"@,
        None => "None"@,
    }
}

/// A block identity as messages show it.
pub open spec fn block_label(id: CacheBlockId) -> Seq<char> {
    "CacheBlockId { session_id: "@ + crate::text::decimal(id.session_id as nat)
        + ", global_layer: "@ + crate::text::decimal(id.global_layer as nat)
        + ", representation: "@ + crate::cache_residency::open::representation_name(
        id.representation,
    ) + ", start: "@ + crate::text::signed_decimal(id.start as int) + ", end: "@
        + crate::text::signed_decimal(id.end as int) + ", rank: "@ + rank_label(id.rank) + " }"@
}

/// A tier as messages show it.
pub open spec fn tier_label(tier: CacheTier) -> Seq<char> {
    match tier {
        CacheTier::Device => "Device"@,
        CacheTier::Host => "Host"@,
        CacheTier::Disk => "Disk"@,
    }
}

/// What a failure says.
pub open spec fn cache_message(failure: CacheFailure) -> Seq<char> {
    match failure {
        CacheFailure::InvalidOptions(text) => "invalid paged cache options: "@ + text,
        CacheFailure::InvalidTokenRange(start, end) => "invalid cache block token range "@
            + crate::text::signed_decimal(start as int) + ".."@ + crate::text::signed_decimal(
            end as int,
        ),
        CacheFailure::ArrayMismatch(text) => "invalid cache block arrays: "@ + text,
        CacheFailure::DuplicateBlock(id) => "duplicate cache block "@ + block_label(id),
        CacheFailure::MissingBlock(id) => "missing cache block "@ + block_label(id),
        CacheFailure::MissingDiskLocation(id) => "cache block has no disk location: "@
            + block_label(id),
        CacheFailure::MissingResidentArrays(id) => "cache block has no resident arrays: "@
            + block_label(id),
        CacheFailure::BlockLeased(id) => "cache block is leased by active attention: "@
            + block_label(id),
        CacheFailure::BudgetExceeded(tier, required, budget) => tier_label(tier)
            + " cache budget exceeded: requires "@ + crate::text::decimal(required as nat)
            + " bytes, budget is "@ + crate::text::decimal(budget as nat),
        CacheFailure::LiveDiskRequired(required, budget) => "host cache requires "@
            + crate::text::decimal(required as nat) + " bytes but budget is "@
            + crate::text::decimal(budget as nat)
            + "; enable live disk backing or use a larger finite budget"@,
        CacheFailure::ManagerPoisoned => "cache residency manager lock was poisoned"@,
        CacheFailure::DiskOperationCancelled(generation) => "cache disk operation from generation "@
            + crate::text::decimal(generation as nat) + " was cancelled"@,
        CacheFailure::Runtime(text) => "cache runtime failure: "@ + text,
        CacheFailure::Io(action, path, source) => "failed to "@ + action + " at "@ + path + ": "@
            + source,
        CacheFailure::ManifestJson(text) => "invalid prompt cache manifest JSON: "@ + text,
        CacheFailure::MalformedManifest(text) => "malformed prompt cache manifest: "@ + text,
        CacheFailure::UnsupportedSchema(version) => "unsupported prompt cache schema version "@
            + crate::text::decimal(version as nat),
        CacheFailure::UnsafeShardPath(path) => "unsafe prompt cache shard path "@
            + crate::text::debug_quoted(path),
        CacheFailure::MissingShard(path) => "missing prompt cache shard "@ + path,
        CacheFailure::MalformedShard(path, reason) => "malformed prompt cache shard "@ + path
            + ": "@ + reason,
        CacheFailure::IncompatiblePromptCache(text) => "incompatible prompt cache: "@ + text,
        CacheFailure::PrefixIdentityMismatch =>
            "prompt cache prefix token identity does not match"@,
        CacheFailure::InvalidPromptCachePath(path) => "invalid prompt cache path "@ + path,
        CacheFailure::PromptCacheExists(path) => "prompt cache destination already exists: "@
            + path,
    }
}

fn append_optional(text: &mut String, value: Option<usize>)
    ensures
        final(text)@ == old(text)@ + optional_number(value),
{
    match value {
        Some(value) => {
            text.append("Some(");
            text.append(usize_text(value).as_str());
            text.append(")");
            assert(text@ =~= old(text)@ + optional_number(Some(value)));
        },
        None => text.append("None"),
    }
}

fn append_block(text: &mut String, id: &CacheBlockId)
    ensures
        final(text)@ == old(text)@ + block_label(*id),
{
    text.append("CacheBlockId { session_id: ");
    text.append(decimal_text(id.session_id).as_str());
    text.append(", global_layer: ");
    text.append(usize_text(id.global_layer).as_str());
    text.append(", representation: ");
    match id.representation {
        CacheRepresentation::KeyValue => text.append("KeyValue"),
        CacheRepresentation::CompressedLatentRotary => text.append("CompressedLatentRotary"),
    }
    text.append(", start: ");
    text.append(signed_text(id.start).as_str());
    text.append(", end: ");
    text.append(signed_text(id.end).as_str());
    text.append(", rank: ");
    let ghost before = text@;
    match id.rank {
        Some(rank) => {
            text.append("Some(CacheRankIdentity { pipeline_rank: ");
            append_optional(text, rank.pipeline_rank);
            text.append(", tensor_parallel_rank: ");
            append_optional(text, rank.tensor_parallel_rank);
            text.append(", expert_parallel_rank: ");
            append_optional(text, rank.expert_parallel_rank);
            text.append(" })");
        },
        None => text.append("None"),
    }
    assert(text@ =~= before + rank_label(id.rank));
    text.append(" }");
    assert(text@ =~= old(text)@ + block_label(*id));
}

fn about_block(prefix: &str, id: &CacheBlockId) -> (message: String)
    ensures
        message@ == prefix@ + block_label(*id),
{
    let mut message = prefix.to_owned();
    append_block(&mut message, id);
    message
}

fn about(prefix: &str, text: &str) -> (message: String)
    ensures
        message@ == prefix@ + text@,
{
    let mut message = prefix.to_owned();
    message.append(text);
    message
}

impl CacheResidencyError {
    /// Returns what the failure says.
    pub fn message(&self) -> (message: String)
        ensures
            message@ == cache_message(self@),
    {
        match self {
            CacheResidencyError::InvalidOptions(text) => about(
                "invalid paged cache options: ",
                text.as_str(),
            ),
            CacheResidencyError::InvalidTokenRange { start, end } => {
                let mut message = "invalid cache block token range ".to_owned();
                message.append(signed_text(*start).as_str());
                message.append("..");
                message.append(signed_text(*end).as_str());
                message
            },
            CacheResidencyError::ArrayMismatch(text) => about(
                "invalid cache block arrays: ",
                text.as_str(),
            ),
            CacheResidencyError::DuplicateBlock(id) => about_block("duplicate cache block ", id),
            CacheResidencyError::MissingBlock(id) => about_block("missing cache block ", id),
            CacheResidencyError::MissingDiskLocation(id) => about_block(
                "cache block has no disk location: ",
                id,
            ),
            CacheResidencyError::MissingResidentArrays(id) => about_block(
                "cache block has no resident arrays: ",
                id,
            ),
            CacheResidencyError::BlockLeased(id) => about_block(
                "cache block is leased by active attention: ",
                id,
            ),
            CacheResidencyError::BudgetExceeded { tier, required, budget } => {
                let mut message = (match tier {
                    CacheTier::Device => "Device",
                    CacheTier::Host => "Host",
                    CacheTier::Disk => "Disk",
                }).to_owned();
                message.append(" cache budget exceeded: requires ");
                message.append(decimal_text(*required).as_str());
                message.append(" bytes, budget is ");
                message.append(decimal_text(*budget).as_str());
                message
            },
            CacheResidencyError::LiveDiskRequired { required, budget } => {
                let mut message = "host cache requires ".to_owned();
                message.append(decimal_text(*required).as_str());
                message.append(" bytes but budget is ");
                message.append(decimal_text(*budget).as_str());
                message.append("; enable live disk backing or use a larger finite budget");
                message
            },
            CacheResidencyError::ManagerPoisoned =>
                "cache residency manager lock was poisoned".to_owned(),
            CacheResidencyError::DiskOperationCancelled { generation } => {
                let mut message = "cache disk operation from generation ".to_owned();
                message.append(decimal_text(*generation).as_str());
                message.append(" was cancelled");
                message
            },
            CacheResidencyError::Runtime(text) => about("cache runtime failure: ", text.as_str()),
            CacheResidencyError::Io { action, path, source } => {
                let mut message = "failed to ".to_owned();
                message.append(action.as_str());
                message.append(" at ");
                message.append(path.as_str());
                message.append(": ");
                message.append(source.as_str());
                message
            },
            CacheResidencyError::ManifestJson(text) => about(
                "invalid prompt cache manifest JSON: ",
                text.as_str(),
            ),
            CacheResidencyError::MalformedManifest(text) => about(
                "malformed prompt cache manifest: ",
                text.as_str(),
            ),
            CacheResidencyError::UnsupportedSchema(version) => about(
                "unsupported prompt cache schema version ",
                decimal_text(*version as u64).as_str(),
            ),
            CacheResidencyError::UnsafeShardPath(path) => about(
                "unsafe prompt cache shard path ",
                debug_text(path.as_str()).as_str(),
            ),
            CacheResidencyError::MissingShard(path) => about(
                "missing prompt cache shard ",
                path.as_str(),
            ),
            CacheResidencyError::MalformedShard { path, reason } => {
                let mut message = "malformed prompt cache shard ".to_owned();
                message.append(path.as_str());
                message.append(": ");
                message.append(reason.as_str());
                message
            },
            CacheResidencyError::IncompatiblePromptCache(text) => about(
                "incompatible prompt cache: ",
                text.as_str(),
            ),
            CacheResidencyError::PrefixIdentityMismatch =>
                "prompt cache prefix token identity does not match".to_owned(),
            CacheResidencyError::InvalidPromptCachePath(path) => about(
                "invalid prompt cache path ",
                path.as_str(),
            ),
            CacheResidencyError::PromptCacheExists(path) => about(
                "prompt cache destination already exists: ",
                path.as_str(),
            ),
        }
    }
}

/// Messages end with what they are about: the path, the block or the reason.
pub proof fn messages_end_with_what_they_are_about(
    text: Seq<char>,
    path: Seq<char>,
    id: CacheBlockId,
)
    ensures
        text.is_suffix_of(cache_message(CacheFailure::InvalidOptions(text))),
        text.is_suffix_of(cache_message(CacheFailure::ArrayMismatch(text))),
        text.is_suffix_of(cache_message(CacheFailure::Runtime(text))),
        text.is_suffix_of(cache_message(CacheFailure::MalformedManifest(text))),
        text.is_suffix_of(cache_message(CacheFailure::IncompatiblePromptCache(text))),
        text.is_suffix_of(cache_message(CacheFailure::MalformedShard(path, text))),
        path.is_suffix_of(cache_message(CacheFailure::MissingShard(path))),
        path.is_suffix_of(cache_message(CacheFailure::InvalidPromptCachePath(path))),
        path.is_suffix_of(cache_message(CacheFailure::PromptCacheExists(path))),
        block_label(id).is_suffix_of(cache_message(CacheFailure::DuplicateBlock(id))),
        block_label(id).is_suffix_of(cache_message(CacheFailure::MissingBlock(id))),
        block_label(id).is_suffix_of(cache_message(CacheFailure::BlockLeased(id))),
        crate::text::occurs(cache_message(CacheFailure::MalformedShard(path, text)), path),
{
    ends_with("invalid paged cache options: "@, text);
    ends_with("invalid cache block arrays: "@, text);
    ends_with("cache runtime failure: "@, text);
    ends_with("malformed prompt cache manifest: "@, text);
    ends_with("incompatible prompt cache: "@, text);
    ends_with("malformed prompt cache shard "@ + path + ": "@, text);
    ends_with("missing prompt cache shard "@, path);
    ends_with("invalid prompt cache path "@, path);
    ends_with("prompt cache destination already exists: "@, path);
    ends_with("duplicate cache block "@, block_label(id));
    ends_with("missing cache block "@, block_label(id));
    ends_with("cache block is leased by active attention: "@, block_label(id));
    let message = cache_message(CacheFailure::MalformedShard(path, text));
    assert(message =~= "malformed prompt cache shard "@ + path + (": "@ + text));
    crate::text::enclosed_patterns_occur("malformed prompt cache shard "@, path, ": "@ + text);
}

proof fn ends_with(start: Seq<char>, text: Seq<char>)
    ensures
        text.is_suffix_of(start + text),
{
    let message = start + text;
    assert(message.subrange(message.len() - text.len(), message.len() as int) =~= text);
}

/// A failed file operation says what was done, where and why, in this order.
pub proof fn file_failures_say_what_was_done(
    action: Seq<char>,
    path: Seq<char>,
    source: Seq<char>,
)
    ensures
        ({
            let message = cache_message(CacheFailure::Io(action, path, source));
            &&& source.is_suffix_of(message)
            &&& crate::text::occurs(message, action)
            &&& crate::text::occurs(message, path)
        }),
{
    let message = cache_message(CacheFailure::Io(action, path, source));
    ends_with("failed to "@ + action + " at "@ + path + ": "@, source);
    assert(message =~= "failed to "@ + action + (" at "@ + path + ": "@ + source));
    crate::text::enclosed_patterns_occur("failed to "@, action, " at "@ + path + ": "@ + source);
    assert(message =~= "failed to "@ + action + " at "@ + path + (": "@ + source));
    crate::text::enclosed_patterns_occur("failed to "@ + action + " at "@, path, ": "@ + source);
}

/// An exceeded budget is told with what was required first and the budget last.
pub proof fn exceeded_budgets_are_told(tier: CacheTier, required: u64, budget: u64)
    ensures
        ({
            let message = cache_message(CacheFailure::BudgetExceeded(tier, required, budget));
            &&& crate::text::decimal(budget as nat).is_suffix_of(message)
            &&& crate::text::occurs(message, crate::text::decimal(required as nat))
            &&& tier_label(tier).is_prefix_of(message)
        }),
{
    let message = cache_message(CacheFailure::BudgetExceeded(tier, required, budget));
    let front = tier_label(tier) + " cache budget exceeded: requires "@;
    let numeral = crate::text::decimal(required as nat);
    let rest = " bytes, budget is "@ + crate::text::decimal(budget as nat);
    ends_with(front + numeral + " bytes, budget is "@, crate::text::decimal(budget as nat));
    assert(message =~= front + numeral + rest);
    crate::text::enclosed_patterns_occur(front, numeral, rest);
    assert(message.subrange(0, tier_label(tier).len() as int) =~= tier_label(tier));
}

} // verus!
