//! Opening a prompt cache as read-only disk-backed blocks.

use vstd::prelude::*;
use vstd::string::{StrSliceExecFns, StringExecFns};

use crate::cache_residency::append::copy_shape;
use crate::cache_residency::block::{same_shape, CacheBlockId, CacheRepresentation, CacheTier};
use crate::cache_residency::catalog::{CacheBlockRecord, CacheResidencyManager, DiskLocation};
use crate::cache_residency::error::{CacheFailure, CacheResidencyError};
use crate::cache_residency::options::PagedCacheOptions;
use crate::cache_residency::prompt::{
    check_layouts, validate_compatibility, validate_prompt_cache_model_identity, PromptCacheBlock,
    PromptCacheDescriptor, PromptCacheLayerLayout, PromptCacheManifest, PromptCacheModelIdentity,
};
use crate::cache_residency::save::PROMPT_CACHE_GENERATIONS_DIRECTORY;
use crate::cache_residency::shard::{join_path, safe_shard_path};
use crate::cache_residency::stats::CacheResidencyReport;
use crate::text::{chars_of, debug_text, list_text, signed_text, trim, usize_text};

verus! {

/// Name of a representation in messages.
pub open spec fn representation_name(representation: CacheRepresentation) -> Seq<char> {
    match representation {
        CacheRepresentation::KeyValue => "KeyValue"@,
        CacheRepresentation::CompressedLatentRotary => "CompressedLatentRotary"@,
    }
}

fn representation_label(representation: CacheRepresentation) -> (name: &'static str)
    ensures
        name@ == representation_name(representation),
{
    match representation {
        CacheRepresentation::KeyValue => "KeyValue",
        CacheRepresentation::CompressedLatentRotary => "CompressedLatentRotary",
    }
}

/// Representation that a layer of this layout stores.
pub open spec fn layout_representation(layout: PromptCacheLayerLayout) -> CacheRepresentation {
    match layout {
        PromptCacheLayerLayout::KeyValue { .. } => CacheRepresentation::KeyValue,
        PromptCacheLayerLayout::CompressedLatentRotary { .. } =>
            CacheRepresentation::CompressedLatentRotary,
    }
}

/// Shapes of the two arrays of a block of this layout.
pub open spec fn layout_shapes(layout: PromptCacheLayerLayout, batch: i32, tokens: i32) -> (
    Seq<i32>,
    Seq<i32>,
) {
    match layout {
        PromptCacheLayerLayout::KeyValue { num_key_value_heads, head_dim } => (
            seq![batch, num_key_value_heads, tokens, head_dim],
            seq![batch, num_key_value_heads, tokens, head_dim],
        ),
        PromptCacheLayerLayout::CompressedLatentRotary { latent_dim, rotary_dim } => (
            seq![batch, tokens, latent_dim],
            seq![batch, tokens, rotary_dim],
        ),
    }
}

/// An incompatible prompt cache.
pub open spec fn incompatible(text: Seq<char>) -> Option<CacheFailure> {
    Some(CacheFailure::IncompatiblePromptCache(text))
}

/// Why a block does not have the layout that the loaded model expects, if it does not.
pub open spec fn block_layout_failure(
    batch_size: usize,
    model: PromptCacheModelIdentity,
    block: PromptCacheBlock,
) -> Option<CacheFailure> {
    let index = block.global_layer - model.global_layer_start;
    let layout = model.layer_layouts@[index];
    let tokens = block.end - block.start;
    let shapes = layout_shapes(layout, batch_size as i32, tokens as i32);
    let representation = layout_representation(layout);
    let prefix = "cache block layer "@ + crate::text::decimal(block.global_layer as nat);
    if index < 0 || index >= model.layer_layouts@.len() {
        incompatible(prefix + " is not owned by the loaded model"@)
    } else if tokens > i32::MAX || tokens < i32::MIN {
        incompatible(prefix + " token range exceeds runtime dimensions"@)
    } else if batch_size > i32::MAX {
        incompatible("prompt-cache batch size exceeds runtime dimensions"@)
    } else if block.representation != representation {
        incompatible(
            prefix + " uses "@ + representation_name(block.representation)
                + ", but the loaded model expects "@ + representation_name(representation),
        )
    } else if block.first_shape@ != shapes.0 || block.second_shape@ != shapes.1 {
        incompatible(
            prefix + " dimensions "@ + crate::text::listed(block.first_shape@) + "/"@
                + crate::text::listed(block.second_shape@)
                + " do not match the loaded model's expected "@ + crate::text::listed(shapes.0)
                + "/"@ + crate::text::listed(shapes.1),
        )
    } else {
        None
    }
}

/// Why the first block that fails does, from a position on.
pub open spec fn block_layouts_failure(
    manifest: PromptCacheManifest,
    model: PromptCacheModelIdentity,
    from: int,
) -> Option<CacheFailure>
    decreases manifest.blocks@.len() - from,
{
    if from >= manifest.blocks@.len() {
        None
    } else {
        let failure = block_layout_failure(manifest.batch_size, model, manifest.blocks@[from]);
        if failure is Some {
            failure
        } else {
            block_layouts_failure(manifest, model, from + 1)
        }
    }
}

/// Why a manifest does not have the layouts of the loaded model, if it does not.
pub open spec fn manifest_layouts_failure(
    manifest: PromptCacheManifest,
    model: PromptCacheModelIdentity,
) -> Option<CacheFailure> {
    let layouts = crate::cache_residency::prompt::layouts_failure(model);
    if layouts is Some {
        layouts
    } else {
        block_layouts_failure(manifest, model, 0)
    }
}

fn expected_shapes(layout: PromptCacheLayerLayout, batch: i32, tokens: i32) -> (shapes: (
    Vec<i32>,
    Vec<i32>,
))
    ensures
        (shapes.0@, shapes.1@) == layout_shapes(layout, batch, tokens),
{
    let mut first: Vec<i32> = Vec::new();
    let mut second: Vec<i32> = Vec::new();
    first.push(batch);
    second.push(batch);
    match layout {
        PromptCacheLayerLayout::KeyValue { num_key_value_heads, head_dim } => {
            first.push(num_key_value_heads);
            first.push(tokens);
            first.push(head_dim);
            second.push(num_key_value_heads);
            second.push(tokens);
            second.push(head_dim);
        },
        PromptCacheLayerLayout::CompressedLatentRotary { latent_dim, rotary_dim } => {
            first.push(tokens);
            first.push(latent_dim);
            second.push(tokens);
            second.push(rotary_dim);
        },
    }
    assert(first@ =~= layout_shapes(layout, batch, tokens).0);
    assert(second@ =~= layout_shapes(layout, batch, tokens).1);
    (first, second)
}

fn check_block_layout(
    batch_size: usize,
    model: &PromptCacheModelIdentity,
    block: &PromptCacheBlock,
) -> (outcome: Result<(), CacheResidencyError>)
    requires
        i64::MIN <= block.end - block.start <= i64::MAX,
    ensures
        crate::cache_residency::error::failure_of(outcome) == block_layout_failure(
            batch_size,
            *model,
            *block,
        ),
{
    let mut text = "cache block layer ".to_owned();
    text.append(usize_text(block.global_layer).as_str());
    if block.global_layer < model.global_layer_start || block.global_layer
        - model.global_layer_start >= model.layer_layouts.len() {
        text.append(" is not owned by the loaded model");
        return Err(CacheResidencyError::IncompatiblePromptCache(text));
    }
    let layout = model.layer_layouts[block.global_layer - model.global_layer_start];
    let tokens: i64 = block.end - block.start;
    if tokens > i32::MAX as i64 || tokens < i32::MIN as i64 {
        text.append(" token range exceeds runtime dimensions");
        return Err(CacheResidencyError::IncompatiblePromptCache(text));
    }
    if batch_size > i32::MAX as usize {
        return Err(
            CacheResidencyError::IncompatiblePromptCache(
                "prompt-cache batch size exceeds runtime dimensions".to_owned(),
            ),
        );
    }
    let representation = match layout {
        PromptCacheLayerLayout::KeyValue { .. } => CacheRepresentation::KeyValue,
        PromptCacheLayerLayout::CompressedLatentRotary { .. } =>
            CacheRepresentation::CompressedLatentRotary,
    };
    if block.representation != representation {
        text.append(" uses ");
        text.append(representation_label(block.representation));
        text.append(", but the loaded model expects ");
        text.append(representation_label(representation));
        return Err(CacheResidencyError::IncompatiblePromptCache(text));
    }
    let (first, second) = expected_shapes(layout, batch_size as i32, tokens as i32);
    if !same_shape(&block.first_shape, &first) || !same_shape(&block.second_shape, &second) {
        text.append(" dimensions ");
        text.append(list_text(&block.first_shape).as_str());
        text.append("/");
        text.append(list_text(&block.second_shape).as_str());
        text.append(" do not match the loaded model's expected ");
        text.append(list_text(&first).as_str());
        text.append("/");
        text.append(list_text(&second).as_str());
        return Err(CacheResidencyError::IncompatiblePromptCache(text));
    }
    Ok(())
}

/// Checks that a manifest has the layouts of the loaded model.
pub fn validate_prompt_cache_layer_layouts(
    manifest: &PromptCacheManifest,
    model: &PromptCacheModelIdentity,
) -> (outcome: Result<(), CacheResidencyError>)
    requires
        forall|i: int|
            0 <= i < manifest.blocks@.len() ==> i64::MIN <= (#[trigger] manifest.blocks@[i]).end
                - manifest.blocks@[i].start <= i64::MAX,
    ensures
        crate::cache_residency::error::failure_of(outcome) == manifest_layouts_failure(
            *manifest,
            *model,
        ),
{
    match check_layouts(model) {
        Ok(_) => {},
        Err(error) => {
            return Err(error);
        },
    }
    let mut index: usize = 0;
    while index < manifest.blocks.len()
        invariant
            index <= manifest.blocks@.len(),
            crate::cache_residency::prompt::layouts_failure(*model) is None,
            block_layouts_failure(*manifest, *model, 0) == block_layouts_failure(
                *manifest,
                *model,
                index as int,
            ),
            forall|i: int|
                0 <= i < manifest.blocks@.len() ==> i64::MIN <= (
                #[trigger] manifest.blocks@[i]).end - manifest.blocks@[i].start <= i64::MAX,
        decreases manifest.blocks@.len() - index,
    {
        assert(i64::MIN <= manifest.blocks@[index as int].end
            - manifest.blocks@[index as int].start <= i64::MAX);
        match check_block_layout(manifest.batch_size, model, &manifest.blocks[index]) {
            Ok(_) => {},
            Err(error) => {
                return Err(error);
            },
        }
        index = index + 1;
    }
    Ok(())
}

/// What the file system holds as the pointer to the current generation.
#[derive(Debug, Clone)]
pub enum GenerationPointer {
    /// There is none: the directory itself holds the prompt cache.
    Absent,
    /// A pointer of this many bytes with this text, which is only read where the length
    /// is admitted, and whether the generation that it names is a directory.
    Names {
        /// Length in bytes.
        length: u64,
        /// Text of the pointer.
        text: String,
        /// Whether the named generation is a directory.
        present: bool,
    },
}

/// Whether a text is one plain path component.
pub open spec fn is_plain_component(text: Seq<char>) -> bool {
    let name = without_trailing_slashes(text);
    &&& name.len() > 0
    &&& name != seq!['.']
    &&& name != seq!['.', '.']
    &&& forall|i: int| 0 <= i < name.len() ==> #[trigger] name[i] != '/'
}

/// A text without the slashes, and the `.` segments, that end it.
pub open spec fn without_trailing_slashes(text: Seq<char>) -> Seq<char>
    decreases text.len(),
{
    if text.len() > 1 && text.last() == '/' {
        without_trailing_slashes(text.drop_last())
    } else if text.len() > 2 && text.last() == '.' && text[text.len() - 2] == '/' {
        without_trailing_slashes(text.drop_last())
    } else {
        text
    }
}

fn plain_component(text: &str) -> (plain: bool)
    ensures
        plain == is_plain_component(text@),
{
    let mut chars = chars_of(text);
    while chars.len() > 1 && (chars[chars.len() - 1] == '/' || (chars.len() > 2 && chars[chars.len()
        - 1] == '.' && chars[chars.len() - 2] == '/'))
        invariant
            without_trailing_slashes(chars@) == without_trailing_slashes(text@),
        decreases chars@.len(),
    {
        let ghost before = chars@;
        chars.pop();
        assert(chars@ =~= before.drop_last());
    }
    if chars.len() == 0 {
        return false;
    }
    if chars[0] == '.' && (chars.len() == 1 || (chars.len() == 2 && chars[1] == '.')) {
        assert(chars@ =~= seq!['.'] || chars@ =~= seq!['.', '.']);
        return false;
    }
    let mut index: usize = 0;
    while index < chars.len()
        invariant
            index <= chars@.len(),
            chars@ == without_trailing_slashes(text@),
            forall|i: int| 0 <= i < index ==> #[trigger] chars@[i] != '/',
        decreases chars@.len() - index,
    {
        if chars[index] == '/' {
            assert(chars@[index as int] == '/');
            return false;
        }
        index = index + 1;
    }
    true
}

/// Why a generation pointer is refused, if it is.
pub open spec fn pointer_failure(pointer: GenerationPointer) -> Option<CacheFailure> {
    match pointer {
        GenerationPointer::Absent => None,
        GenerationPointer::Names { length, text, present } => {
            let name = crate::text::trimmed(text@);
            if length == 0 || length > 256 {
                Some(
                    CacheFailure::MalformedManifest(
                        "prompt-cache generation pointer has an invalid length"@,
                    ),
                )
            } else if !is_plain_component(name) {
                Some(
                    CacheFailure::MalformedManifest("prompt-cache generation pointer is unsafe"@),
                )
            } else if !present {
                Some(
                    CacheFailure::MalformedManifest(
                        "prompt-cache generation "@ + crate::text::debug_quoted(name)
                            + " is missing"@,
                    ),
                )
            } else {
                None
            }
        },
    }
}

/// The directory that a generation pointer leads to.
pub open spec fn prompt_cache_root(directory: Seq<char>, pointer: GenerationPointer) -> Seq<char> {
    match pointer {
        GenerationPointer::Absent => directory,
        GenerationPointer::Names { length, text, present } =>
            crate::cache_residency::shard::joined_path(
                crate::cache_residency::shard::joined_path(
                    directory,
                    PROMPT_CACHE_GENERATIONS_DIRECTORY@,
                ),
                crate::text::trimmed(text@),
            ),
    }
}

/// Resolves the directory that holds the current generation of a prompt cache.
pub fn resolve_prompt_cache_root(directory: &str, pointer: &GenerationPointer) -> (outcome: Result<
    String,
    CacheResidencyError,
>)
    ensures
        crate::cache_residency::error::failure_of(outcome) == pointer_failure(*pointer),
        outcome matches Ok(root) ==> root@ == prompt_cache_root(directory@, *pointer),
{
    match pointer {
        GenerationPointer::Absent => Ok(directory.to_owned()),
        GenerationPointer::Names { length, text, present } => {
            if *length == 0 || *length > 256 {
                return Err(
                    CacheResidencyError::MalformedManifest(
                        "prompt-cache generation pointer has an invalid length".to_owned(),
                    ),
                );
            }
            let name = trim(text.as_str());
            if !plain_component(name.as_str()) {
                return Err(
                    CacheResidencyError::MalformedManifest(
                        "prompt-cache generation pointer is unsafe".to_owned(),
                    ),
                );
            }
            if !*present {
                let mut message = "prompt-cache generation ".to_owned();
                message.append(debug_text(name.as_str()).as_str());
                message.append(" is missing");
                return Err(CacheResidencyError::MalformedManifest(message));
            }
            let generations = join_path(directory, PROMPT_CACHE_GENERATIONS_DIRECTORY);
            Ok(join_path(generations.as_str(), name.as_str()))
        },
    }
}

/// Publishing a generation makes it the current one: the pointer that is written for it
/// leads to its directory.
pub proof fn published_generation_is_current(pointer: GenerationPointer, nonce: nat)
    requires
        pointer matches GenerationPointer::Names { length, text, present } && 0 < length <= 256
            && present && text@ == crate::cache_residency::save::pointer_contents(
            "generation-"@ + crate::text::decimal(nonce),
        ),
    ensures
        pointer_failure(pointer) is None,
        crate::text::trimmed(pointer->text@) == "generation-"@ + crate::text::decimal(nonce),
{
    let name = "generation-"@ + crate::text::decimal(nonce);
    let text = pointer->text@;
    reveal_strlit("generation-");
    reveal_strlit("\n");
    crate::text::decimal_denotes(nonce);
    assert(text.last() == '\n');
    assert(text.drop_last() =~= name);
    assert(!crate::text::is_white_space(name[0]));
    assert(name.last() == crate::text::decimal(nonce).last());
    assert(crate::text::is_digit(crate::text::decimal(nonce)[crate::text::decimal(nonce).len()
        - 1]));
    assert(!crate::text::is_white_space(name.last()));
    assert(crate::text::trimmed(name) == name);
    assert(text[0] == name[0]);
    assert(crate::text::trimmed(text) == name);
    assert(without_trailing_slashes(name) == name);
    assert forall|i: int| 0 <= i < name.len() implies #[trigger] name[i] != '/' by {
        if i >= "generation-"@.len() {
            assert(crate::text::is_digit(crate::text::decimal(nonce)[i - "generation-"@.len()]));
        }
    }
}

/// What came of mapping one shard into memory.
#[derive(Debug, Clone)]
pub enum ShardMapping {
    /// Following links leads out of the prompt-cache directory.
    Escapes,
    /// The file could not be opened or mapped.
    Unreadable {
        /// Filesystem action that failed.
        action: String,
        /// Path involved in the failed action.
        path: String,
        /// Underlying filesystem failure.
        source: String,
    },
    /// The mapped bytes are no safetensors shard.
    Malformed {
        /// Why.
        reason: String,
    },
    /// The shard is mapped.
    Mapped,
}

/// Identity of an imported block in a live cache.
pub open spec fn imported_id(session_id: u64, block: PromptCacheBlock) -> CacheBlockId {
    CacheBlockId {
        session_id,
        global_layer: block.global_layer,
        representation: block.representation,
        start: block.start,
        end: block.end,
        rank: block.rank,
    }
}

fn id_of_import(session_id: u64, block: &PromptCacheBlock) -> (id: CacheBlockId)
    ensures
        id == imported_id(session_id, *block),
{
    CacheBlockId {
        session_id,
        global_layer: block.global_layer,
        representation: block.representation,
        start: block.start,
        end: block.end,
        rank: block.rank,
    }
}

/// Whether an earlier entry has the identity of the entry at a position.
pub open spec fn listed_before(blocks: Seq<PromptCacheBlock>, index: int) -> bool {
    exists|i: int|
        0 <= i < index && imported_id(0, #[trigger] blocks[i]) == imported_id(0, blocks[index])
}

/// Why the entry at a position cannot be imported, if it cannot.
pub open spec fn import_failure(
    root: Seq<char>,
    session_id: u64,
    blocks: Seq<PromptCacheBlock>,
    mapping: ShardMapping,
    index: int,
) -> Option<CacheFailure> {
    let block = blocks[index];
    let path = crate::cache_residency::shard::joined_path(root, block.shard@);
    if !crate::cache_residency::shard::is_plain_relative(block.shard@) || mapping is Escapes {
        Some(CacheFailure::UnsafeShardPath(block.shard@))
    } else {
        match mapping {
            ShardMapping::Unreadable { action, path: at, source } => Some(
                CacheFailure::Io(action@, at@, source@),
            ),
            ShardMapping::Malformed { reason } => Some(
                CacheFailure::MalformedShard(path, reason@),
            ),
            _ => if listed_before(blocks, index) {
                Some(CacheFailure::DuplicateBlock(imported_id(session_id, block)))
            } else {
                None
            },
        }
    }
}

/// Why the first entry that fails does, from a position on.
pub open spec fn imports_failure(
    root: Seq<char>,
    session_id: u64,
    blocks: Seq<PromptCacheBlock>,
    mappings: Seq<ShardMapping>,
    from: int,
) -> Option<CacheFailure>
    decreases blocks.len() - from,
{
    if from >= blocks.len() {
        None
    } else {
        let failure = import_failure(root, session_id, blocks, mappings[from], from);
        if failure is Some {
            failure
        } else {
            imports_failure(root, session_id, blocks, mappings, from + 1)
        }
    }
}

/// Why a prompt cache cannot be opened, if it cannot.
pub open spec fn open_failure(
    root: Seq<char>,
    expected: PromptCacheDescriptor,
    model: PromptCacheModelIdentity,
    manifest: PromptCacheManifest,
    prefix: Seq<u32>,
    block_size_tokens: i32,
    session_id: u64,
    mappings: Seq<ShardMapping>,
) -> Option<CacheFailure> {
    let identity = crate::cache_residency::prompt::identity_failure(expected, model);
    let compatibility = crate::cache_residency::prompt::compatibility_failure(
        manifest,
        expected,
        prefix,
    );
    let layouts = manifest_layouts_failure(manifest, model);
    if identity is Some {
        identity
    } else if compatibility is Some {
        compatibility
    } else if layouts is Some {
        layouts
    } else if manifest.block_size_tokens != block_size_tokens {
        incompatible(
            "block size "@ + crate::text::signed_decimal(manifest.block_size_tokens as int)
                + " does not match requested "@ + crate::text::signed_decimal(
                block_size_tokens as int,
            ),
        )
    } else {
        imports_failure(root, session_id, manifest.blocks@, mappings, 0)
    }
}

/// Whether a record is the read-only import of a manifest entry.
pub open spec fn imports_block(
    record: CacheBlockRecord,
    session_id: u64,
    root: Seq<char>,
    sink_tokens: usize,
    block: PromptCacheBlock,
) -> bool {
    &&& record.id == imported_id(session_id, block)
    &&& record.tier == CacheTier::Disk
    &&& record.arrays is None
    &&& record.disk matches Some(location) && {
        &&& location.path@ == crate::cache_residency::shard::joined_path(root, block.shard@)
        &&& location.first_name@ == block.first_array@
        &&& location.second_name@ == block.second_array@
        &&& location.persistent
        &&& location.mapped
        &&& location.payload_sha256 matches Some(digest) && digest@ == block.payload_sha256@
    }
    &&& record.bytes == block.logical_bytes
    &&& record.first_shape@ == block.first_shape@
    &&& record.second_shape@ == block.second_shape@
    &&& record.first_dtype@ == block.first_dtype@
    &&& record.second_dtype@ == block.second_dtype@
    &&& record.imported
    &&& record.leases == 0
    &&& record.access_count == 0
    &&& record.last_access == 0
    &&& record.protected_prefix == (block.end <= sink_tokens as i64)
    &&& record.pending_disk is None
}

/// Logical bytes of entries together.
pub open spec fn entry_bytes(blocks: Seq<PromptCacheBlock>) -> int
    decreases blocks.len(),
{
    if blocks.len() == 0 {
        0
    } else {
        entry_bytes(blocks.drop_last()) + blocks.last().logical_bytes
    }
}

/// Token positions of entries together, each counted up to its end.
pub open spec fn entry_tokens(blocks: Seq<PromptCacheBlock>) -> int
    decreases blocks.len(),
{
    if blocks.len() == 0 {
        0
    } else {
        entry_tokens(blocks.drop_last()) + crate::cache_residency::report::tokens_before(
            blocks.last().end,
        )
    }
}

/// Whether the sizes and positions of entries add up within machine integers.
pub open spec fn entries_fit(blocks: Seq<PromptCacheBlock>) -> bool {
    entry_bytes(blocks) <= u64::MAX && entry_tokens(blocks) <= u64::MAX
}

proof fn entries_grow(blocks: Seq<PromptCacheBlock>, length: int)
    requires
        0 <= length <= blocks.len(),
    ensures
        0 <= entry_bytes(blocks.take(length)) <= entry_bytes(blocks),
        0 <= entry_tokens(blocks.take(length)) <= entry_tokens(blocks),
    decreases blocks.len(),
{
    if length == blocks.len() {
        assert(blocks.take(length) =~= blocks);
        if blocks.len() > 0 {
            entries_grow(blocks.drop_last(), length - 1);
            assert(blocks.drop_last().take(length - 1) =~= blocks.drop_last());
        }
    } else {
        entries_grow(blocks.drop_last(), length);
        assert(blocks.drop_last().take(length) =~= blocks.take(length));
    }
}

/// Answers whether the sizes and positions of a manifest's entries add up within machine
/// integers.
pub fn manifest_fits(manifest: &PromptCacheManifest) -> (fits: bool)
    ensures
        fits == entries_fit(manifest.blocks@),
{
    let blocks = &manifest.blocks;
    let mut bytes: u64 = 0;
    let mut tokens: u64 = 0;
    let mut index: usize = 0;
    while index < blocks.len()
        invariant
            index <= blocks@.len(),
            blocks@ == manifest.blocks@,
            bytes == entry_bytes(blocks@.take(index as int)),
            tokens == entry_tokens(blocks@.take(index as int)),
        decreases blocks@.len() - index,
    {
        let block = &blocks[index];
        let end: u64 = if block.end < 0 {
            0
        } else {
            block.end as u64
        };
        proof {
            assert(blocks@.take(index + 1).drop_last() =~= blocks@.take(index as int));
            entries_grow(blocks@, index + 1);
        }
        bytes = match bytes.checked_add(block.logical_bytes) {
            Some(bytes) => bytes,
            None => {
                return false;
            },
        };
        tokens = match tokens.checked_add(end) {
            Some(tokens) => tokens,
            None => {
                return false;
            },
        };
        index = index + 1;
    }
    assert(blocks@.take(index as int) =~= blocks@);
    true
}

/// Builds the read-only record of a manifest entry.
fn imported_record(
    session_id: u64,
    root: &str,
    sink_tokens: usize,
    block: &PromptCacheBlock,
) -> (record: CacheBlockRecord)
    ensures
        imports_block(record, session_id, root@, sink_tokens, *block),
        record.placed(),
{
    CacheBlockRecord {
        id: id_of_import(session_id, block),
        tier: CacheTier::Disk,
        arrays: None,
        disk: Some(
            DiskLocation {
                path: join_path(root, block.shard.as_str()),
                first_name: block.first_array.clone(),
                second_name: block.second_array.clone(),
                persistent: true,
                mapped: true,
                payload_sha256: Some(block.payload_sha256.clone()),
            },
        ),
        bytes: block.logical_bytes,
        first_shape: copy_shape(&block.first_shape),
        second_shape: copy_shape(&block.second_shape),
        first_dtype: block.first_dtype.clone(),
        second_dtype: block.second_dtype.clone(),
        imported: true,
        leases: 0,
        access_count: 0,
        last_access: 0,
        protected_prefix: block.end <= sink_tokens as i64,
        pending_disk: None,
    }
}

/// Whether a catalog holds the import of one entry of a manifest.
pub open spec fn holds_import(
    manager: CacheResidencyManager,
    root: Seq<char>,
    manifest: PromptCacheManifest,
    index: int,
) -> bool {
    let id = imported_id(manager.session_id, manifest.blocks@[index]);
    &&& manager.has_block(id)
    &&& imports_block(
        manager.block(id),
        manager.session_id,
        root,
        manifest.sink_tokens,
        manifest.blocks@[index],
    )
}

/// Whether a cataloged block is the import of one of the first entries of a manifest.
pub open spec fn is_import(
    manager: CacheResidencyManager,
    manifest: PromptCacheManifest,
    count: int,
    position: int,
) -> bool {
    exists|j: int|
        0 <= j < count && manager.blocks@[position].id == imported_id(
            manager.session_id,
            #[trigger] manifest.blocks@[j],
        )
}

/// Whether a catalog holds exactly the imports of the first entries of a manifest.
pub open spec fn holds_imports(
    manager: CacheResidencyManager,
    root: Seq<char>,
    manifest: PromptCacheManifest,
    count: int,
) -> bool {
    &&& manager.blocks@.len() == count
    &&& forall|i: int| 0 <= i < count ==> #[trigger] holds_import(manager, root, manifest, i)
    &&& forall|i: int| 0 <= i < count ==> #[trigger] is_import(manager, manifest, count, i)
}

/// One more import keeps the imports before it.
proof fn import_extends(
    before: CacheResidencyManager,
    after: CacheResidencyManager,
    position: int,
    record: CacheBlockRecord,
    root: Seq<char>,
    manifest: PromptCacheManifest,
    count: int,
)
    requires
        0 <= count < manifest.blocks@.len(),
        0 <= position <= before.blocks@.len(),
        before.session_id == after.session_id,
        crate::cache_residency::catalog::blocks_ordered(before.blocks@),
        crate::cache_residency::catalog::blocks_ordered(after.blocks@),
        after.blocks@ == before.blocks@.insert(position, record),
        imports_block(
            record,
            before.session_id,
            root,
            manifest.sink_tokens,
            manifest.blocks@[count],
        ),
        holds_imports(before, root, manifest, count),
    ensures
        holds_imports(after, root, manifest, count + 1),
{
    before.blocks@.insert_ensures(position, record);
    let session = before.session_id;
    assert forall|i: int| 0 <= i < count + 1 implies #[trigger] holds_import(
        after,
        root,
        manifest,
        i,
    ) by {
        let id = imported_id(session, manifest.blocks@[i]);
        if i == count {
            assert(after.blocks@[position] == record);
            after.block_index_is(position);
        } else {
            assert(holds_import(before, root, manifest, i));
            let at = before.block_index(id);
            assert(0 <= at < before.blocks@.len() && before.blocks@[at].id == id);
            let place = if at < position {
                at
            } else {
                at + 1
            };
            assert(after.blocks@[place] == before.blocks@[at]);
            after.block_index_is(place);
        }
    }
    assert forall|i: int| 0 <= i < count + 1 implies #[trigger] is_import(
        after,
        manifest,
        count + 1,
        i,
    ) by {
        if i == position {
            assert(after.blocks@[i].id == imported_id(session, manifest.blocks@[count]));
        } else {
            let at = if i < position {
                i
            } else {
                i - 1
            };
            assert(after.blocks@[i] == before.blocks@[at]);
            assert(is_import(before, manifest, count, at));
            let j = choose|j: int|
                0 <= j < count && before.blocks@[at].id == imported_id(
                    session,
                    #[trigger] manifest.blocks@[j],
                );
            assert(after.blocks@[i].id == imported_id(session, manifest.blocks@[j]));
        }
    }
}

/// Imports stay while the catalog's blocks do.
proof fn imports_stay(
    before: CacheResidencyManager,
    after: CacheResidencyManager,
    root: Seq<char>,
    manifest: PromptCacheManifest,
    count: int,
)
    requires
        before.session_id == after.session_id,
        before.blocks@ == after.blocks@,
        crate::cache_residency::catalog::blocks_ordered(before.blocks@),
        holds_imports(before, root, manifest, count),
    ensures
        holds_imports(after, root, manifest, count),
{
    assert forall|i: int| 0 <= i < count implies #[trigger] holds_import(
        after,
        root,
        manifest,
        i,
    ) by {
        assert(holds_import(before, root, manifest, i));
        let at = before.block_index(imported_id(before.session_id, manifest.blocks@[i]));
        after.block_index_is(at);
    }
    assert forall|i: int| 0 <= i < count implies #[trigger] is_import(
        after,
        manifest,
        count,
        i,
    ) by {
        assert(is_import(before, manifest, count, i));
    }
}

/// Checks what came of mapping one shard.
fn check_mapping(root: &str, block: &PromptCacheBlock, mapping: &ShardMapping) -> (outcome: Result<
    (),
    CacheResidencyError,
>)
    ensures
        crate::cache_residency::error::failure_of(outcome) == ({
            let path = crate::cache_residency::shard::joined_path(root@, block.shard@);
            if !crate::cache_residency::shard::is_plain_relative(block.shard@)
                || mapping is Escapes {
                Some(CacheFailure::UnsafeShardPath(block.shard@))
            } else {
                match *mapping {
                    ShardMapping::Unreadable { action, path: at, source } => Some(
                        CacheFailure::Io(action@, at@, source@),
                    ),
                    ShardMapping::Malformed { reason } => Some(
                        CacheFailure::MalformedShard(path, reason@),
                    ),
                    _ => None,
                }
            }
        }),
{
    let escapes = match mapping {
        ShardMapping::Escapes => true,
        _ => false,
    };
    let path = match safe_shard_path(root, block.shard.as_str(), escapes) {
        Ok(path) => path,
        Err(error) => {
            return Err(error);
        },
    };
    match mapping {
        ShardMapping::Unreadable { action, path: at, source } => Err(
            CacheResidencyError::Io {
                action: action.clone(),
                path: at.clone(),
                source: source.clone(),
            },
        ),
        ShardMapping::Malformed { reason } => Err(
            CacheResidencyError::MalformedShard { path, reason: reason.clone() },
        ),
        _ => Ok(()),
    }
}

/// The report of a new cache that has loaded a prompt cache.
pub open spec fn loaded_report(
    blank: CacheResidencyReport,
    manifest: PromptCacheManifest,
) -> CacheResidencyReport {
    CacheResidencyReport {
        prompt_cache_loads: 1,
        prompt_cache_bytes: entry_bytes(manifest.blocks@) as u64,
        imported_mapped_shards: manifest.blocks@.len() as u64,
        ..blank
    }
}

/// Whether this is a new cache that holds the blocks of a manifest and nothing else.
pub open spec fn is_opened(
    manager: CacheResidencyManager,
    root: Seq<char>,
    manifest: PromptCacheManifest,
    options: PagedCacheOptions,
    session_id: u64,
) -> bool {
    &&& manager.session_id == session_id
    &&& manager.options == options
    &&& manager.generation == 0
    &&& manager.background_disk_error is None
    &&& manager.access_clock == 0
    &&& manager.tails@.len() == 0
    &&& manager.host_write_reservations@.len() == 0
    &&& manager.next_reservation_id == 1
    &&& manager.layer_activity@.len() == 0
    &&& manager.layer_activity_overflow@ == crate::cache_residency::stats::Activity::zero()
    &&& manager.worker.fresh(options@.queue_capacity())
    &&& holds_imports(manager, root, manifest, manifest.blocks@.len() as int)
    &&& manager.report.prompt_cache_loads == 1
    &&& manager.report.prompt_cache_saves == 0
    &&& manager.report.prompt_cache_bytes == entry_bytes(manifest.blocks@)
    &&& manager.report.imported_mapped_shards == manifest.blocks@.len()
    &&& forall|blank: CacheResidencyReport| #[trigger]
        blank.is_blank(options@.queue_capacity()) ==> manager.reports(
            loaded_report(blank, manifest),
        )
}

/// Catalogs a compatible prompt prefix as read-only disk-backed blocks of a new cache.
/// The manifest has been validated, and each of its shards has been mapped or not.
pub fn open_prompt_cache(
    root: &str,
    expected: &PromptCacheDescriptor,
    model: &PromptCacheModelIdentity,
    manifest: &PromptCacheManifest,
    prefix_token_ids: &[u32],
    options: PagedCacheOptions,
    session_id: u64,
    mappings: &Vec<ShardMapping>,
) -> (outcome: Result<CacheResidencyManager, CacheResidencyError>)
    requires
        mappings@.len() == manifest.blocks@.len(),
        entries_fit(manifest.blocks@),
        forall|i: int|
            0 <= i < manifest.blocks@.len() ==> i64::MIN <= (#[trigger] manifest.blocks@[i]).end
                - manifest.blocks@[i].start <= i64::MAX,
    ensures
        crate::cache_residency::error::failure_of(outcome) == open_failure(
            root@,
            *expected,
            *model,
            *manifest,
            prefix_token_ids@,
            options@.block_size_tokens,
            session_id,
            mappings@,
        ),
        outcome matches Ok(manager) ==> {
            &&& manager.wf()
            &&& manager.fits()
            &&& is_opened(manager, root@, *manifest, options, session_id)
        },
{
    match validate_prompt_cache_model_identity(expected, model) {
        Ok(_) => {},
        Err(error) => {
            return Err(error);
        },
    }
    match validate_compatibility(manifest, expected, prefix_token_ids) {
        Ok(_) => {},
        Err(error) => {
            return Err(error);
        },
    }
    match validate_prompt_cache_layer_layouts(manifest, model) {
        Ok(_) => {},
        Err(error) => {
            return Err(error);
        },
    }
    if manifest.block_size_tokens != options.block_size_tokens() {
        let mut text = "block size ".to_owned();
        text.append(signed_text(manifest.block_size_tokens as i64).as_str());
        text.append(" does not match requested ");
        text.append(signed_text(options.block_size_tokens() as i64).as_str());
        return Err(CacheResidencyError::IncompatiblePromptCache(text));
    }
    let ghost blocks = manifest.blocks@;
    let mut manager = CacheResidencyManager::new(options, session_id);
    let ghost initial = manager;
    let mut bytes: u64 = 0;
    let mut index: usize = 0;
    proof {
        assert(manager.parts() =~= Seq::empty());
    }
    while index < manifest.blocks.len()
        invariant
            index <= manifest.blocks@.len(),
            blocks == manifest.blocks@,
            mappings@.len() == blocks.len(),
            entries_fit(blocks),
            manager.wf(),
            initial.is_new(options, session_id),
            manager == (CacheResidencyManager { blocks: manager.blocks, ..initial }),
            holds_imports(manager, root@, *manifest, index as int),
            manager.parts().len() == index,
            bytes == entry_bytes(blocks.take(index as int)),
            crate::cache_residency::report::bytes_of(manager.parts()) == entry_bytes(
                blocks.take(index as int),
            ),
            crate::cache_residency::report::tokens_of(manager.parts()) == entry_tokens(
                blocks.take(index as int),
            ),
            open_failure(
                root@,
                *expected,
                *model,
                *manifest,
                prefix_token_ids@,
                options@.block_size_tokens,
                session_id,
                mappings@,
            ) == imports_failure(root@, session_id, blocks, mappings@, index as int),
        decreases manifest.blocks@.len() - index,
    {
        let block = &manifest.blocks[index];
        match check_mapping(root, block, &mappings[index]) {
            Ok(_) => {},
            Err(error) => {
                return Err(error);
            },
        }
        let id = id_of_import(session_id, block);
        let ghost earlier = manager;
        if manager.find_block(&id).is_some() {
            proof {
                let at = manager.block_index(id);
                assert(is_import(manager, *manifest, index as int, at));
                let j = choose|j: int|
                    0 <= j < index && manager.blocks@[at].id == imported_id(
                        session_id,
                        #[trigger] manifest.blocks@[j],
                    );
                assert(imported_id(0, blocks[j]) == imported_id(0, blocks[index as int]));
                assert(listed_before(blocks, index as int));
            }
            return Err(CacheResidencyError::DuplicateBlock(id));
        }
        proof {
            if listed_before(blocks, index as int) {
                let j = choose|j: int|
                    0 <= j < index && imported_id(0, #[trigger] blocks[j]) == imported_id(
                        0,
                        blocks[index as int],
                    );
                assert(imported_id(session_id, manifest.blocks@[j]) == id);
                assert(holds_import(manager, root@, *manifest, j));
            }
        }
        let record = imported_record(session_id, root, manifest.sink_tokens, block);
        let ghost stored = record;
        manager.put_block(record);
        proof {
            import_extends(
                earlier,
                manager,
                crate::cache_residency::append::block_position(earlier.blocks@, stored.id),
                stored,
                root@,
                *manifest,
                index as int,
            );
            assert(blocks.take(index + 1).drop_last() =~= blocks.take(index as int));
            entries_grow(blocks, index + 1);
        }
        bytes = bytes + block.logical_bytes;
        index = index + 1;
    }
    assert(blocks.take(index as int) =~= blocks);
    let ghost earlier = manager;
    manager.report.prompt_cache_loads = 1;
    manager.report.prompt_cache_bytes = bytes;
    manager.report.imported_mapped_shards = manifest.blocks.len() as u64;
    let ghost base = manager.report;
    assert(manager.report.activity() == earlier.report.activity());
    assert(manager.parts() == earlier.parts());
    manager.update_report_totals();
    proof {
        assert forall|blank: CacheResidencyReport| #[trigger]
            blank.is_blank(options@.queue_capacity()) implies manager.reports(
            loaded_report(blank, *manifest),
        ) by {
            assert(loaded_report(blank, *manifest).activity() == base.activity());
        }
        imports_stay(earlier, manager, root@, *manifest, index as int);
    }
    Ok(manager)
}

/// A prompt cache whose manifest is accepted never fails to open because a block is
/// listed twice.
pub proof fn accepted_manifest_imports_without_duplicates(
    directory: Seq<char>,
    manifest: PromptCacheManifest,
    probes: Seq<crate::cache_residency::manifest::ShardProbe>,
    root: Seq<char>,
    session_id: u64,
    mappings: Seq<ShardMapping>,
    from: int,
)
    requires
        crate::cache_residency::manifest::manifest_failure(directory, manifest, probes) is None,
        0 <= from <= manifest.blocks@.len(),
    ensures
        !(imports_failure(root, session_id, manifest.blocks@, mappings, from) matches Some(
            CacheFailure::DuplicateBlock(_),
        )),
    decreases manifest.blocks@.len() - from,
{
    if from < manifest.blocks@.len() {
        accepted_manifest_imports_without_duplicates(
            directory,
            manifest,
            probes,
            root,
            session_id,
            mappings,
            from + 1,
        );
        if listed_before(manifest.blocks@, from) {
            let i = choose|i: int|
                0 <= i < from && imported_id(0, #[trigger] manifest.blocks@[i]) == imported_id(
                    0,
                    manifest.blocks@[from],
                );
            crate::cache_residency::manifest::accepted_manifest_lists_blocks_once(
                directory,
                manifest,
                probes,
                i,
                from,
            );
        }
    }
}

/// An imported block is protected exactly where all of its tokens are among those that
/// attention keeps in front, and takes nothing but its catalog entry into the cache: it
/// is on disk, unleased, unread and owned by its prompt cache.
pub proof fn imported_blocks_in_front_are_protected(
    record: CacheBlockRecord,
    session_id: u64,
    root: Seq<char>,
    sink_tokens: usize,
    block: PromptCacheBlock,
    token: int,
)
    requires
        sink_tokens <= i64::MAX,
        imports_block(record, session_id, root, sink_tokens, block),
    ensures
        record.protected_prefix && block.start <= token < block.end ==> token < sink_tokens,
        !record.protected_prefix ==> block.end - 1 >= sink_tokens,
        record.tier is Disk,
        record.arrays is None,
        record.leases == 0,
        record.imported,
        record.disk is Some && record.disk->Some_0.persistent,
        record.id.session_id == session_id,
        record.id.global_layer == block.global_layer,
        record.id.start == block.start,
        record.id.end == block.end,
        record.bytes == block.logical_bytes,
{
}

/// Sizes and positions of entries add up entry by entry.
pub proof fn entries_add_up(blocks: Seq<PromptCacheBlock>, block: PromptCacheBlock)
    ensures
        entry_bytes(Seq::empty()) == 0,
        entry_tokens(Seq::empty()) == 0,
        entry_bytes(blocks.push(block)) == entry_bytes(blocks) + block.logical_bytes,
        block.end >= 0 ==> entry_tokens(blocks.push(block)) == entry_tokens(blocks) + block.end,
{
    assert(blocks.push(block).drop_last() =~= blocks);
}

/// Entries are imported exactly where each lies in its own file below the prompt cache,
/// that file could be mapped, and no entry has the identity of an earlier one.
pub proof fn imports_are_refused_only_for_cause(
    root: Seq<char>,
    session_id: u64,
    blocks: Seq<PromptCacheBlock>,
    mappings: Seq<ShardMapping>,
)
    ensures
        imports_failure(root, session_id, blocks, mappings, 0) is None <==> forall|i: int|
            0 <= i < blocks.len() ==> {
                &&& crate::cache_residency::shard::is_plain_relative(
                    (#[trigger] blocks[i]).shard@,
                )
                &&& !(mappings[i] is Escapes || mappings[i] is Unreadable
                    || mappings[i] is Malformed)
                &&& forall|j: int|
                    0 <= j < i ==> !({
                        &&& (#[trigger] blocks[j]).global_layer == blocks[i].global_layer
                        &&& blocks[j].representation == blocks[i].representation
                        &&& blocks[j].start == blocks[i].start
                        &&& blocks[j].end == blocks[i].end
                        &&& blocks[j].rank == blocks[i].rank
                    })
            },
{
    imports_fail_alone(root, session_id, blocks, mappings, 0);
    assert forall|i: int| 0 <= i < blocks.len() implies (import_failure(
        root,
        session_id,
        blocks,
        mappings[i],
        i,
    ) is None <==> {
        &&& crate::cache_residency::shard::is_plain_relative((#[trigger] blocks[i]).shard@)
        &&& !(mappings[i] is Escapes || mappings[i] is Unreadable || mappings[i] is Malformed)
        &&& forall|j: int|
            0 <= j < i ==> !({
                &&& (#[trigger] blocks[j]).global_layer == blocks[i].global_layer
                &&& blocks[j].representation == blocks[i].representation
                &&& blocks[j].start == blocks[i].start
                &&& blocks[j].end == blocks[i].end
                &&& blocks[j].rank == blocks[i].rank
            })
    }) by {
        if listed_before(blocks, i) {
            let j = choose|j: int|
                0 <= j < i && imported_id(0, #[trigger] blocks[j]) == imported_id(0, blocks[i]);
            assert(blocks[j].global_layer == blocks[i].global_layer);
        } else {
            assert forall|j: int| 0 <= j < i implies !({
                &&& (#[trigger] blocks[j]).global_layer == blocks[i].global_layer
                &&& blocks[j].representation == blocks[i].representation
                &&& blocks[j].start == blocks[i].start
                &&& blocks[j].end == blocks[i].end
                &&& blocks[j].rank == blocks[i].rank
            }) by {
                assert(imported_id(0, blocks[j]) != imported_id(0, blocks[i]));
            }
        }
    }
}

proof fn imports_fail_alone(
    root: Seq<char>,
    session_id: u64,
    blocks: Seq<PromptCacheBlock>,
    mappings: Seq<ShardMapping>,
    from: int,
)
    requires
        0 <= from,
    ensures
        imports_failure(root, session_id, blocks, mappings, from) is None <==> forall|i: int|
            #![trigger blocks[i]]
            from <= i < blocks.len() ==> import_failure(root, session_id, blocks, mappings[i], i) is None,
    decreases blocks.len() - from,
{
    if from < blocks.len() {
        imports_fail_alone(root, session_id, blocks, mappings, from + 1);
        let here = blocks[from];
    }
}

} // verus!
