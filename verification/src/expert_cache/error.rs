//! Sparse expert cache failures.

use vstd::prelude::*;
use vstd::string::StringExecFns;

use crate::array::Dtype;
use crate::expert_cache::catalog::ExpertIdentity;
use crate::text::{debug_text, decimal_text, list_text, signed_text, usize_text};

verus! {

/// Structured sparse expert cache failures.
#[derive(Debug)]
pub enum ExpertCacheError {
    /// No expert definitions were supplied.
    EmptyCatalog,
    /// Compact-bank scratch accounting was disabled with a zero limit.
    ZeroScratchLimit,
    /// One logical expert declared no materialized bytes.
    ZeroSizedExpert {
        /// Invalid logical identity.
        identity: ExpertIdentity,
    },
    /// Two catalog entries used the same layer/global identity.
    DuplicateExpert {
        /// Duplicated logical identity.
        identity: ExpertIdentity,
    },
    /// The architecture adapter used a noncanonical residency unit id.
    UnitIdentityMismatch {
        /// Logical catalog identity.
        identity: ExpertIdentity,
        /// Required stable unit id.
        expected: String,
        /// Adapter-supplied unit id.
        actual: String,
    },
    /// No owned expert catalog exists for this decoder layer.
    UnknownLayer {
        /// Missing decoder layer identity.
        layer: usize,
    },
    /// A route id was negative or otherwise invalid.
    InvalidExpertId {
        /// Decoder layer containing the route.
        layer: usize,
        /// Invalid signed route value.
        expert: i64,
        /// Owned experts cataloged for diagnostics.
        known_owned_experts: usize,
    },
    /// A valid global route referred to an expert this cache does not own.
    MissingOwnedExpert {
        /// Requested non-owned global identity.
        identity: ExpertIdentity,
    },
    /// Router ids used an unsupported scalar type.
    InvalidRouteDtype {
        /// Unsupported router-id scalar type.
        actual: Dtype,
    },
    /// A supplied route shape had a negative dimension or overflowed.
    InvalidRouteShape(Vec<i32>),
    /// Route shape and host values disagreed.
    RouteShapeMismatch {
        /// Declared route shape.
        shape: Vec<i32>,
        /// Supplied host value count.
        elements: usize,
    },
    /// Selected experts exceed the configured temporary compact-bank allowance.
    ScratchLimitExceeded {
        /// Required compact-bank bytes.
        required_bytes: u64,
        /// Configured compact-bank byte limit.
        limit_bytes: u64,
        /// Selected unique expert count.
        distinct_experts: usize,
    },
    /// Expert byte arithmetic overflowed.
    ByteOverflow,
    /// Cache statistics were lost to a panic.
    StatisticsPoisoned,
    /// A required compact binding had no selected source experts.
    EmptyCompactBinding {
        /// Required binding name.
        name: String,
    },
    /// Optional companion presence differed across selected experts.
    InconsistentCompanion {
        /// Inconsistent optional binding name.
        name: String,
    },
    /// Invalid offload plan configuration.
    Offload(String),
    /// Residency validation or materialization failed.
    Residency(String),
    /// Array evaluation, synchronization, or transfer failed.
    Mlx(String),
}

/// The mathematical value of an [`ExpertCacheError`].
pub enum ExpertCacheFailure {
    EmptyCatalog,
    ZeroScratchLimit,
    ZeroSizedExpert(ExpertIdentity),
    DuplicateExpert(ExpertIdentity),
    UnitIdentityMismatch(ExpertIdentity, Seq<char>, Seq<char>),
    UnknownLayer(usize),
    InvalidExpertId(usize, i64, usize),
    MissingOwnedExpert(ExpertIdentity),
    InvalidRouteDtype(Dtype),
    InvalidRouteShape(Seq<i32>),
    RouteShapeMismatch(Seq<i32>, usize),
    ScratchLimitExceeded(u64, u64, usize),
    ByteOverflow,
    StatisticsPoisoned,
    EmptyCompactBinding(Seq<char>),
    InconsistentCompanion(Seq<char>),
    Offload(Seq<char>),
    Residency(Seq<char>),
    Mlx(Seq<char>),
}

impl View for ExpertCacheError {
    type V = ExpertCacheFailure;

    open spec fn view(&self) -> ExpertCacheFailure {
        match *self {
            ExpertCacheError::EmptyCatalog => ExpertCacheFailure::EmptyCatalog,
            ExpertCacheError::ZeroScratchLimit => ExpertCacheFailure::ZeroScratchLimit,
            ExpertCacheError::ZeroSizedExpert { identity } => ExpertCacheFailure::ZeroSizedExpert(
                identity,
            ),
            ExpertCacheError::DuplicateExpert { identity } => ExpertCacheFailure::DuplicateExpert(
                identity,
            ),
            ExpertCacheError::UnitIdentityMismatch { identity, expected, actual } =>
                ExpertCacheFailure::UnitIdentityMismatch(identity, expected@, actual@),
            ExpertCacheError::UnknownLayer { layer } => ExpertCacheFailure::UnknownLayer(layer),
            ExpertCacheError::InvalidExpertId { layer, expert, known_owned_experts } =>
                ExpertCacheFailure::InvalidExpertId(layer, expert, known_owned_experts),
            ExpertCacheError::MissingOwnedExpert { identity } =>
                ExpertCacheFailure::MissingOwnedExpert(identity),
            ExpertCacheError::InvalidRouteDtype { actual } =>
                ExpertCacheFailure::InvalidRouteDtype(actual),
            ExpertCacheError::InvalidRouteShape(shape) => ExpertCacheFailure::InvalidRouteShape(
                shape@,
            ),
            ExpertCacheError::RouteShapeMismatch { shape, elements } =>
                ExpertCacheFailure::RouteShapeMismatch(shape@, elements),
            ExpertCacheError::ScratchLimitExceeded {
                required_bytes,
                limit_bytes,
                distinct_experts,
            } => ExpertCacheFailure::ScratchLimitExceeded(
                required_bytes,
                limit_bytes,
                distinct_experts,
            ),
            ExpertCacheError::ByteOverflow => ExpertCacheFailure::ByteOverflow,
            ExpertCacheError::StatisticsPoisoned => ExpertCacheFailure::StatisticsPoisoned,
            ExpertCacheError::EmptyCompactBinding { name } =>
                ExpertCacheFailure::EmptyCompactBinding(name@),
            ExpertCacheError::InconsistentCompanion { name } =>
                ExpertCacheFailure::InconsistentCompanion(name@),
            ExpertCacheError::Offload(text) => ExpertCacheFailure::Offload(text@),
            ExpertCacheError::Residency(text) => ExpertCacheFailure::Residency(text@),
            ExpertCacheError::Mlx(text) => ExpertCacheFailure::Mlx(text@),
        }
    }
}

/// The failure of a fallible operation, or nothing when it succeeded.
pub open spec fn refused<T>(outcome: Result<T, ExpertCacheError>) -> Option<ExpertCacheFailure> {
    match outcome {
        Ok(_) => None,
        Err(error) => Some(error@),
    }
}

/// An expert identity as messages show it.
pub open spec fn identity_label(identity: ExpertIdentity) -> Seq<char> {
    "ExpertIdentity { layer: "@ + crate::text::decimal(identity.layer as nat)
        + ", global_expert: "@ + crate::text::decimal(identity.global_expert as nat) + " }"@
}

/// What a failure says.
pub open spec fn expert_message(failure: ExpertCacheFailure) -> Seq<char> {
    match failure {
        ExpertCacheFailure::EmptyCatalog =>
            "sparse expert cache requires at least one owned expert"@,
        ExpertCacheFailure::ZeroScratchLimit =>
            "sparse expert compact-bank scratch limit must be nonzero"@,
        ExpertCacheFailure::ZeroSizedExpert(identity) => "expert "@ + identity_label(identity)
            + " must contain at least one byte"@,
        ExpertCacheFailure::DuplicateExpert(identity) => "duplicate sparse expert catalog entry "@
            + identity_label(identity),
        ExpertCacheFailure::UnitIdentityMismatch(identity, expected, actual) => "expert "@
            + identity_label(identity) + " requires unit id "@ + expected + ", got "@ + actual,
        ExpertCacheFailure::UnknownLayer(layer) => "sparse expert cache has no catalog for layer "@
            + crate::text::decimal(layer as nat),
        ExpertCacheFailure::InvalidExpertId(layer, expert, known) => "invalid routed expert id "@
            + crate::text::signed_decimal(expert as int) + " for layer "@ + crate::text::decimal(
            layer as nat,
        ) + "; this rank catalogs "@ + crate::text::decimal(known as nat) + " owned experts"@,
        ExpertCacheFailure::MissingOwnedExpert(identity) => "routed expert "@ + identity_label(
            identity,
        ) + " is not owned by this cache"@,
        ExpertCacheFailure::InvalidRouteDtype(actual) =>
            "routed expert ids must use an integer dtype, got "@ + crate::array::dtype_name(actual),
        ExpertCacheFailure::InvalidRouteShape(shape) => "invalid routed expert shape "@
            + crate::text::listed(shape),
        ExpertCacheFailure::RouteShapeMismatch(shape, elements) => "routed expert shape "@
            + crate::text::listed(shape) + " does not describe "@ + crate::text::decimal(
            elements as nat,
        ) + " values"@,
        ExpertCacheFailure::ScratchLimitExceeded(required, limit, distinct) =>
            "compact expert bank for "@ + crate::text::decimal(distinct as nat)
                + " experts requires "@ + crate::text::decimal(required as nat)
                + " bytes, exceeding the "@ + crate::text::decimal(limit as nat)
                + "-byte scratch limit"@,
        ExpertCacheFailure::ByteOverflow => "sparse expert byte accounting overflowed"@,
        ExpertCacheFailure::StatisticsPoisoned =>
            "sparse expert cache statistics are unavailable after a panic"@,
        ExpertCacheFailure::EmptyCompactBinding(name) => "compact expert binding "@
            + crate::text::debug_quoted(name) + " has no source arrays"@,
        ExpertCacheFailure::InconsistentCompanion(name) => "compact expert companion "@
            + crate::text::debug_quoted(name)
            + " is missing from only part of the selected bank"@,
        ExpertCacheFailure::Offload(text) => text,
        ExpertCacheFailure::Residency(text) => text,
        ExpertCacheFailure::Mlx(text) => text,
    }
}

fn about_expert(prefix: &str, identity: &ExpertIdentity, suffix: &str) -> (message: String)
    ensures
        message@ == prefix@ + identity_label(*identity) + suffix@,
{
    let mut message = prefix.to_owned();
    message.append("ExpertIdentity { layer: ");
    message.append(usize_text(identity.layer).as_str());
    message.append(", global_expert: ");
    message.append(usize_text(identity.global_expert).as_str());
    message.append(" }");
    assert(message@ =~= prefix@ + identity_label(*identity));
    message.append(suffix);
    message
}

impl ExpertCacheError {
    /// Returns what the failure says.
    pub fn message(&self) -> (message: String)
        ensures
            message@ == expert_message(self@),
    {
        match self {
            ExpertCacheError::EmptyCatalog =>
                "sparse expert cache requires at least one owned expert".to_owned(),
            ExpertCacheError::ZeroScratchLimit =>
                "sparse expert compact-bank scratch limit must be nonzero".to_owned(),
            ExpertCacheError::ZeroSizedExpert { identity } => about_expert(
                "expert ",
                identity,
                " must contain at least one byte",
            ),
            ExpertCacheError::DuplicateExpert { identity } => {
                let message = about_expert("duplicate sparse expert catalog entry ", identity, "");
                proof {
                    reveal_strlit("");
                    assert(message@ =~= "duplicate sparse expert catalog entry "@
                        + identity_label(*identity));
                }
                message
            },
            ExpertCacheError::UnitIdentityMismatch { identity, expected, actual } => {
                let mut message = about_expert("expert ", identity, " requires unit id ");
                message.append(expected.as_str());
                message.append(", got ");
                message.append(actual.as_str());
                message
            },
            ExpertCacheError::UnknownLayer { layer } => {
                let mut message = "sparse expert cache has no catalog for layer ".to_owned();
                message.append(usize_text(*layer).as_str());
                message
            },
            ExpertCacheError::InvalidExpertId { layer, expert, known_owned_experts } => {
                let mut message = "invalid routed expert id ".to_owned();
                message.append(signed_text(*expert).as_str());
                message.append(" for layer ");
                message.append(usize_text(*layer).as_str());
                message.append("; this rank catalogs ");
                message.append(usize_text(*known_owned_experts).as_str());
                message.append(" owned experts");
                message
            },
            ExpertCacheError::MissingOwnedExpert { identity } => about_expert(
                "routed expert ",
                identity,
                " is not owned by this cache",
            ),
            ExpertCacheError::InvalidRouteDtype { actual } => {
                let mut message = "routed expert ids must use an integer dtype, got ".to_owned();
                message.append(actual.name());
                message
            },
            ExpertCacheError::InvalidRouteShape(shape) => {
                let mut message = "invalid routed expert shape ".to_owned();
                message.append(list_text(shape).as_str());
                message
            },
            ExpertCacheError::RouteShapeMismatch { shape, elements } => {
                let mut message = "routed expert shape ".to_owned();
                message.append(list_text(shape).as_str());
                message.append(" does not describe ");
                message.append(usize_text(*elements).as_str());
                message.append(" values");
                message
            },
            ExpertCacheError::ScratchLimitExceeded {
                required_bytes,
                limit_bytes,
                distinct_experts,
            } => {
                let mut message = "compact expert bank for ".to_owned();
                message.append(usize_text(*distinct_experts).as_str());
                message.append(" experts requires ");
                message.append(decimal_text(*required_bytes).as_str());
                message.append(" bytes, exceeding the ");
                message.append(decimal_text(*limit_bytes).as_str());
                message.append("-byte scratch limit");
                message
            },
            ExpertCacheError::ByteOverflow =>
                "sparse expert byte accounting overflowed".to_owned(),
            ExpertCacheError::StatisticsPoisoned =>
                "sparse expert cache statistics are unavailable after a panic".to_owned(),
            ExpertCacheError::EmptyCompactBinding { name } => {
                let mut message = "compact expert binding ".to_owned();
                message.append(debug_text(name.as_str()).as_str());
                message.append(" has no source arrays");
                message
            },
            ExpertCacheError::InconsistentCompanion { name } => {
                let mut message = "compact expert companion ".to_owned();
                message.append(debug_text(name.as_str()).as_str());
                message.append(" is missing from only part of the selected bank");
                message
            },
            ExpertCacheError::Offload(text) => text.clone(),
            ExpertCacheError::Residency(text) => text.clone(),
            ExpertCacheError::Mlx(text) => text.clone(),
        }
    }
}

} // verus!
