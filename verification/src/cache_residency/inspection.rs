//! What inspecting a prompt cache finds, and what a save changes of it.

use vstd::prelude::*;

use crate::cache_residency::catalog::CacheResidencyManager;
use crate::cache_residency::error::{CacheFailure, CacheResidencyError};
use crate::cache_residency::manifest::{validate_manifest, ShardProbe};
use crate::cache_residency::open::{resolve_prompt_cache_root, GenerationPointer};
use crate::cache_residency::prompt::{
    PromptCacheDescriptor, PromptCacheManifest, PromptCacheOptions,
};
use crate::cache_residency::save::{PromptCacheDestination, PromptCacheSavePlan};

verus! {

/// An outcome with its failure in place of the error.
pub open spec fn outcome_of<T>(outcome: Result<T, CacheResidencyError>) -> Result<
    T,
    CacheFailure,
> {
    match outcome {
        Ok(value) => Ok(value),
        Err(error) => Err(error@),
    }
}

/// What inspecting a prompt cache gives: its manifest, where the pointer leads to one that
/// can be read and that is in order with its shards.
pub open spec fn inspection(
    directory: Seq<char>,
    pointer: GenerationPointer,
    manifest: Result<PromptCacheManifest, CacheFailure>,
    probes: Seq<ShardProbe>,
) -> Result<PromptCacheManifest, CacheFailure> {
    match crate::cache_residency::open::pointer_failure(pointer) {
        Some(failure) => Err(failure),
        None => match manifest {
            Err(failure) => Err(failure),
            Ok(manifest) => match crate::cache_residency::manifest::manifest_failure(
                crate::cache_residency::open::prompt_cache_root(directory, pointer),
                manifest,
                probes,
            ) {
                Some(failure) => Err(failure),
                None => Ok(manifest),
            },
        },
    }
}

/// Validates the manifest of a prompt cache without loading arrays. The pointer to the
/// current generation, the manifest in the directory that it leads to, and the shards that
/// this one names were read before.
pub fn inspect_prompt_cache(
    directory: &str,
    pointer: &GenerationPointer,
    manifest: Result<PromptCacheManifest, CacheResidencyError>,
    probes: &Vec<ShardProbe>,
) -> (outcome: Result<PromptCacheManifest, CacheResidencyError>)
    requires
        manifest matches Ok(read) ==> probes@.len() == read.blocks@.len(),
        forall|i: int|
            0 <= i < probes@.len() ==> crate::cache_residency::manifest::probe_distinct(
                #[trigger] probes@[i],
            ),
    ensures
        outcome_of(outcome) == inspection(directory@, *pointer, outcome_of(manifest), probes@),
{
    let root = match resolve_prompt_cache_root(directory, pointer) {
        Ok(root) => root,
        Err(error) => {
            return Err(error);
        },
    };
    let manifest = match manifest {
        Ok(manifest) => manifest,
        Err(error) => {
            return Err(error);
        },
    };
    match validate_manifest(root.as_str(), &manifest, probes) {
        Ok(_) => Ok(manifest),
        Err(error) => Err(error),
    }
}

/// What a directory holds of a prompt cache: what reading its manifest gives, and what was
/// found of the shards that this one names.
pub struct PromptCacheDirectory {
    /// The manifest, or why it cannot be read.
    pub manifest: Result<PromptCacheManifest, CacheFailure>,
    /// What was found of the shards.
    pub probes: Seq<ShardProbe>,
}

/// What the file system holds of a prompt cache.
pub struct PromptCacheFiles {
    /// The pointer to the current generation.
    pub pointer: GenerationPointer,
    /// What each directory holds.
    pub directories: spec_fn(Seq<char>) -> PromptCacheDirectory,
}

impl PromptCacheFiles {
    /// What inspecting the prompt cache gives.
    pub open spec fn inspected(self, directory: Seq<char>) -> Result<
        PromptCacheManifest,
        CacheFailure,
    > {
        let found = (self.directories)(
            crate::cache_residency::open::prompt_cache_root(directory, self.pointer),
        );
        inspection(directory, self.pointer, found.manifest, found.probes)
    }
}

/// Whether a destination is described as its path says: its last component, without the
/// slashes that follow it, is its name.
pub open spec fn names_last_component(destination: PromptCacheDestination) -> bool {
    let path = crate::cache_residency::open::without_trailing_slashes(destination.path@);
    destination.file_name matches Some(name) ==> {
        let start = path.len() - name@.len();
        &&& forall|i: int| 0 <= i < name@.len() ==> #[trigger] name@[i] != '/'
        &&& start >= 0
        &&& path.skip(start) == name@
        &&& start == 0 || path[start - 1] == '/'
    }
}

/// Whether the files are those of a destination: there is no pointer where nothing exists,
/// and the pointer does not lead to a directory that is still to be created.
pub open spec fn files_of(
    files: PromptCacheFiles,
    destination: PromptCacheDestination,
    nonce: u128,
) -> bool {
    match files.pointer {
        GenerationPointer::Absent => true,
        GenerationPointer::Names { length, text, present } => {
            &&& destination.exists
            &&& crate::text::trimmed(text@) != ".tmp-"@ + crate::text::decimal(nonce as nat)
        },
    }
}

/// Why a prefix is not saved, if it is not.
pub open spec fn save_refusal(
    manager: CacheResidencyManager,
    destination: PromptCacheDestination,
    descriptor: PromptCacheDescriptor,
    prefix: Seq<u32>,
    options: PromptCacheOptions,
) -> Option<CacheFailure> {
    crate::cache_residency::error::or_else(
        crate::cache_residency::save::save_failure(
            destination,
            descriptor,
            options.replace_existing,
        ),
        manager.persistence_failure(descriptor, prefix.len() as usize),
    )
}

/// Whether a manifest and its shards were published as planned: what was written to the
/// temporary directory is now in the published one, and where the destination existed the
/// pointer names this one. Nothing else that a prompt cache could be read from changed.
pub open spec fn publishes(
    plan: PromptCacheSavePlan,
    before: PromptCacheFiles,
    after: PromptCacheFiles,
    manifest: PromptCacheManifest,
    probes: Seq<ShardProbe>,
) -> bool {
    &&& (after.directories)(plan.published@) == (PromptCacheDirectory {
        manifest: Ok(manifest),
        probes,
    })
    &&& forall|path: Seq<char>|
        path != plan.published@ && path != plan.temporary@ ==> (#[trigger] (after.directories)(
            path,
        )) == (before.directories)(path)
    &&& if plan.replacing {
        after.pointer matches GenerationPointer::Names { length, text, present } && {
            &&& text@ == crate::cache_residency::save::pointer_contents(plan.generation_name@)
            &&& length == text@.len()
            &&& present
        }
    } else {
        after.pointer == before.pointer
    }
}

/// Whether a refused save left the files as they were, but for its temporary directory.
pub open spec fn abandons(
    plan: PromptCacheSavePlan,
    before: PromptCacheFiles,
    after: PromptCacheFiles,
) -> bool {
    &&& after.pointer == before.pointer
    &&& forall|path: Seq<char>|
        path != plan.temporary@ ==> (#[trigger] (after.directories)(path)) == (before.directories)(
            path,
        )
}

/// What a save is: it is refused, and then writes at most its temporary directory, or it
/// writes the manifest of the catalog there, publishes it once it is accepted, and returns
/// it.
pub open spec fn saves(
    manager: CacheResidencyManager,
    destination: PromptCacheDestination,
    descriptor: PromptCacheDescriptor,
    prefix: Seq<u32>,
    options: PromptCacheOptions,
    plan: PromptCacheSavePlan,
    before: PromptCacheFiles,
    after: PromptCacheFiles,
    digests: Seq<String>,
    probes: Seq<ShardProbe>,
    saved: Option<PromptCacheManifest>,
) -> bool {
    match saved {
        Some(manifest) => {
            &&& save_refusal(manager, destination, descriptor, prefix, options) is None
            &&& crate::cache_residency::save::describes_catalog(
                manifest,
                manager,
                descriptor,
                prefix,
                options,
                digests,
            )
            &&& crate::cache_residency::manifest::manifest_failure(
                plan.temporary@,
                manifest,
                probes,
            ) is None
            &&& publishes(plan, before, after, manifest, probes)
        },
        None => abandons(plan, before, after),
    }
}

/// A save is atomic. What a finished one returns is what inspecting the destination gives
/// from then on, and it records the identity of the prefix. One that is refused leaves what
/// inspecting the destination gives as it was; an existing destination that is not to be
/// replaced, a leased block, and a layer that does not cover the prefix exactly are refused.
pub proof fn saves_are_atomic(
    manager: CacheResidencyManager,
    destination: PromptCacheDestination,
    descriptor: PromptCacheDescriptor,
    prefix: Seq<u32>,
    options: PromptCacheOptions,
    nonce: u128,
    plan: PromptCacheSavePlan,
    before: PromptCacheFiles,
    after: PromptCacheFiles,
    digests: Seq<String>,
    probes: Seq<ShardProbe>,
    saved: Option<PromptCacheManifest>,
)
    requires
        names_last_component(destination),
        files_of(before, destination, nonce),
        crate::cache_residency::save::save_failure(
            destination,
            descriptor,
            options.replace_existing,
        ) is None ==> crate::cache_residency::save::is_plan(plan, destination, nonce),
        crate::cache_residency::save::save_failure(
            destination,
            descriptor,
            options.replace_existing,
        ) is Some ==> saved is None && after == before,
        saves(
            manager,
            destination,
            descriptor,
            prefix,
            options,
            plan,
            before,
            after,
            digests,
            probes,
            saved,
        ),
    ensures
        saved matches Some(manifest) ==> {
            &&& after.inspected(destination.path@) == Ok::<PromptCacheManifest, CacheFailure>(
                manifest,
            )
            &&& manifest.prefix_sha256@ == crate::cache_residency::shard::prefix_identity(prefix)
        },
        saved is None ==> after.inspected(destination.path@) == before.inspected(
            destination.path@,
        ),
        destination.exists && !options.replace_existing
            && !crate::cache_residency::save::descriptor_invalid(descriptor)
            && destination.parent is Some ==> save_refusal(
            manager,
            destination,
            descriptor,
            prefix,
            options,
        ) == Some(CacheFailure::PromptCacheExists(destination.path@)),
        destination.exists && !options.replace_existing ==> saved is None,
        manager.first_leased() is Some ==> saved is None,
        crate::cache_residency::save::complete_prefix_failure(
            manager.blocks@,
            descriptor.global_layer_start,
            descriptor.global_layer_end,
            prefix.len() as usize,
        ) is Some ==> saved is None,
{
    match saved {
        Some(manifest) => {
            crate::cache_residency::round_trip::acceptance_survives_publication(
                plan.temporary@,
                plan.published@,
                manifest,
                probes,
            );
            if plan.replacing {
                pointer_is_short(nonce);
                crate::cache_residency::open::published_generation_is_current(
                    after.pointer,
                    nonce as nat,
                );
            }
            assert(crate::cache_residency::open::prompt_cache_root(
                destination.path@,
                after.pointer,
            ) == plan.published@);
        },
        None => {
            if crate::cache_residency::save::save_failure(
                destination,
                descriptor,
                options.replace_existing,
            ) is None && crate::cache_residency::open::pointer_failure(before.pointer) is None {
                temporary_is_no_root(destination, nonce, plan, before);
            }
        },
    }
}

/// What is written for a generation is a pointer of an admitted length.
proof fn pointer_is_short(nonce: u128)
    ensures
        0 < crate::cache_residency::save::pointer_contents(
            "generation-"@ + crate::text::decimal(nonce as nat),
        ).len() <= 256,
{
    reveal_with_fuel(crate::text::tens, 40);
    reveal_strlit("generation-");
    reveal_strlit("\n");
    crate::text::decimal_length(nonce as nat, 39);
}

/// The directory that a save writes is not the one that is inspected.
proof fn temporary_is_no_root(
    destination: PromptCacheDestination,
    nonce: u128,
    plan: PromptCacheSavePlan,
    files: PromptCacheFiles,
)
    requires
        names_last_component(destination),
        files_of(files, destination, nonce),
        destination.file_name is Some,
        crate::cache_residency::save::is_plan(plan, destination, nonce),
    ensures
        crate::cache_residency::open::prompt_cache_root(destination.path@, files.pointer)
            != plan.temporary@,
{
    reveal_strlit(".tmp-");
    reveal_strlit(".");
    let stamp = crate::text::decimal(nonce as nat);
    crate::text::decimal_denotes(nonce as nat);
    let generations = plan.generations@;
    match files.pointer {
        GenerationPointer::Absent => {
            if destination.exists {
                assert(plan.temporary@.len() > destination.path@.len());
            } else {
                let name = destination.file_name->Some_0@;
                let component = "."@ + name + ".tmp-"@ + stamp;
                let temporary = plan.temporary@;
                let parent = destination.parent->Some_0@;
                let offset = temporary.len() - component.len();
                assert(temporary.skip(offset) =~= component);
                assert forall|i: int| 0 <= i < component.len() implies component[i] != '/' by {
                    if i >= 1 + name.len() + 5 {
                        assert(crate::text::is_digit(stamp[i - 1 - name.len() - 5]));
                    } else if 1 <= i < 1 + name.len() {
                        assert(component[i] == name[i - 1]);
                    }
                }
                if destination.path@ == temporary {
                    assert(temporary.last() == stamp.last());
                    assert(crate::text::is_digit(stamp[stamp.len() - 1]));
                    assert(crate::cache_residency::open::without_trailing_slashes(temporary)
                        == temporary);
                    let start = temporary.len() - name.len();
                    assert(component[start - 1 - offset] == temporary[start - 1]);
                }
            }
        },
        GenerationPointer::Names { length, text, present } => {
            let current = crate::text::trimmed(text@);
            let unfinished = ".tmp-"@ + stamp;
            let left = crate::cache_residency::shard::joined_path(generations, current);
            let right = crate::cache_residency::shard::joined_path(generations, unfinished);
            if left == right {
                let offset = left.len() - current.len();
                assert(left.skip(offset) =~= current);
                assert(right.skip(offset) =~= unfinished);
            }
        },
    }
}

} // verus!
